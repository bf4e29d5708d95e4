//! Character-level helpers shared by the rest of the library.
use vstd::prelude::*;

verus! {

/// Unicode `White_Space`, the set that `char::is_whitespace` and `str::trim` use.
pub open spec fn is_ws(c: char) -> bool {
    let n = c as u32;
    (0x9 <= n <= 0xd) || n == 0x20 || n == 0x85 || n == 0xa0 || n == 0x1680 || (0x2000 <= n
        <= 0x200a) || n == 0x2028 || n == 0x2029 || n == 0x202f || n == 0x205f || n == 0x3000
}

pub fn is_whitespace(c: char) -> (r: bool)
    ensures
        r == is_ws(c),
{
    let n = c as u32;
    (0x9 <= n && n <= 0xd) || n == 0x20 || n == 0x85 || n == 0xa0 || n == 0x1680 || (0x2000 <= n
        && n <= 0x200a) || n == 0x2028 || n == 0x2029 || n == 0x202f || n == 0x205f || n == 0x3000
}

/// `s` without leading whitespace.
pub open spec fn trim_start(s: Seq<char>) -> Seq<char>
    decreases s.len(),
{
    if s.len() > 0 && is_ws(s[0]) {
        trim_start(s.drop_first())
    } else {
        s
    }
}

/// `s` without trailing whitespace.
pub open spec fn trim_end(s: Seq<char>) -> Seq<char>
    decreases s.len(),
{
    if s.len() > 0 && is_ws(s.last()) {
        trim_end(s.drop_last())
    } else {
        s
    }
}

/// `s` without leading and trailing whitespace, as `str::trim` gives it.
pub open spec fn trim(s: Seq<char>) -> Seq<char> {
    trim_end(trim_start(s))
}

pub open spec fn is_ascii_digit(c: char) -> bool {
    '0' <= c <= '9'
}

pub open spec fn to_lower(c: char) -> char {
    if 'A' <= c <= 'Z' {
        ((c as u32) + 32) as char
    } else {
        c
    }
}

pub open spec fn to_upper(c: char) -> char {
    if 'a' <= c <= 'z' {
        ((c as u32) - 32) as char
    } else {
        c
    }
}

/// ASCII lowercase of every character, as `str::to_ascii_lowercase` gives it.
pub open spec fn lower(s: Seq<char>) -> Seq<char> {
    s.map_values(|c: char| to_lower(c))
}

/// ASCII uppercase of every character, as `str::to_ascii_uppercase` gives it.
pub open spec fn upper(s: Seq<char>) -> Seq<char> {
    s.map_values(|c: char| to_upper(c))
}

pub open spec fn all_digits(s: Seq<char>) -> bool {
    forall|i: int| 0 <= i < s.len() ==> is_ascii_digit(#[trigger] s[i])
}

pub open spec fn digit_char(d: nat) -> char {
    ((d + 48) as u32) as char
}

pub open spec fn digit_value(c: char) -> nat {
    ((c as u32) - 48) as nat
}

/// Decimal notation of `n`, without leading zeros.
pub open spec fn decimal(n: nat) -> Seq<char>
    decreases n,
{
    if n < 10 {
        seq![digit_char(n)]
    } else {
        decimal(n / 10).push(digit_char(n % 10))
    }
}

/// Decimal notation of a signed integer, as `format!("{}")` writes it.
pub open spec fn signed_decimal(n: int) -> Seq<char> {
    if n < 0 {
        seq!['-'] + decimal((-n) as nat)
    } else {
        decimal(n as nat)
    }
}

/// Decimal notation in at least two digits, as `%02d` writes it.
pub open spec fn two_digits(n: nat) -> Seq<char> {
    if n < 10 {
        seq!['0', digit_char(n)]
    } else {
        decimal(n)
    }
}

/// The value of a run of decimal digits.
pub open spec fn digits_value(s: Seq<char>) -> nat
    decreases s.len(),
{
    if s.len() == 0 {
        0
    } else {
        digits_value(s.drop_last()) * 10 + digit_value(s.last())
    }
}

/// What `str::parse::<u8>` accepts: an optional `+`, then at least one digit,
/// with a value that fits in a byte.
pub open spec fn parse_u8(s: Seq<char>) -> Option<u8> {
    let d = if s.len() > 0 && s[0] == '+' {
        s.drop_first()
    } else {
        s
    };
    if d.len() > 0 && all_digits(d) && digits_value(d) <= 255 {
        Some(digits_value(d) as u8)
    } else {
        None
    }
}

/// `s` with every character in `from` replaced by the sequence `to`.
pub open spec fn replace_char(s: Seq<char>, from: char, to: Seq<char>) -> Seq<char>
    decreases s.len(),
{
    if s.len() == 0 {
        s
    } else {
        let head = if s[0] == from {
            to
        } else {
            seq![s[0]]
        };
        head + replace_char(s.drop_first(), from, to)
    }
}

/// Compares two string slices character by character (`str == str`).
pub(crate) fn str_eq(a: &str, b: &str) -> (r: bool)
    ensures
        r == (a@ == b@),
{
    let x = chars_of(a);
    let y = chars_of(b);
    if x.len() != y.len() {
        return false;
    }
    let mut i: usize = 0;
    while i < x.len()
        invariant
            i <= x.len(),
            x.len() == y.len(),
            x@ == a@,
            y@ == b@,
            forall|k: int| 0 <= k < i ==> x@[k] == y@[k],
        decreases x.len() - i,
    {
        if x[i] != y[i] {
            return false;
        }
        i = i + 1;
    }
    assert(x@ =~= y@);
    true
}

/// Appends one character (`String::push`).
#[verifier::external_body]
fn push_char(s: &mut String, c: char)
    ensures
        final(s)@ == old(s)@.push(c),
{
    s.push(c)
}

/// The characters of `s`, in order.
pub fn chars_of(s: &str) -> (v: Vec<char>)
    ensures
        v@ == s@,
{
    let mut v: Vec<char> = Vec::new();
    for c in it: s.chars()
        invariant
            v@ == it.seq().take(it.index() as int),
    {
        v.push(c);
    }
    v
}

/// A string holding the characters of `v`.
pub fn string_of(v: &Vec<char>) -> (s: String)
    ensures
        s@ == v@,
{
    let mut s = String::new();
    let mut i: usize = 0;
    while i < v.len()
        invariant
            i <= v.len(),
            s@ == v@.take(i as int),
        decreases v.len() - i,
    {
        push_char(&mut s, v[i]);
        assert(v@.take(i as int).push(v@[i as int]) =~= v@.take(i + 1));
        i = i + 1;
    }
    assert(v@.take(v.len() as int) =~= v@);
    s
}

/// Appends the characters of `s` to `out`.
pub fn push_str(out: &mut Vec<char>, s: &str)
    ensures
        final(out)@ == old(out)@ + s@,
{
    let ghost start = out@;
    for c in it: s.chars()
        invariant
            out@ == start + it.seq().take(it.index() as int),
    {
        out.push(c);
        assert(start + it.seq().take(it.index() as int).push(c) =~= start + it.seq().take(
            it.index() + 1,
        ));
    }
}

/// Appends the characters of `v` to `out`.
pub fn push_chars(out: &mut Vec<char>, v: &Vec<char>)
    ensures
        final(out)@ == old(out)@ + v@,
{
    let ghost start = out@;
    let mut i: usize = 0;
    while i < v.len()
        invariant
            i <= v.len(),
            out@ == start + v@.take(i as int),
        decreases v.len() - i,
    {
        out.push(v[i]);
        assert(start + v@.take(i as int).push(v@[i as int]) =~= start + v@.take(i + 1));
        i = i + 1;
    }
    assert(v@.take(v.len() as int) =~= v@);
}

/// Appends the decimal notation of `n`.
pub fn push_decimal(out: &mut Vec<char>, n: u128)
    ensures
        final(out)@ == old(out)@ + decimal(n as nat),
    decreases n,
{
    if n >= 10 {
        push_decimal(out, n / 10);
    }
    let d = (n % 10) as u8;
    out.push((48u8 + d) as char);
    proof {
        assert(((48u8 + d) as char) == digit_char((n % 10) as nat));
        if n >= 10 {
            assert(decimal(n as nat) == decimal((n / 10) as nat).push(digit_char((n % 10) as nat)));
        }
    }
}

/// Appends the decimal notation of a signed integer.
pub fn push_signed(out: &mut Vec<char>, n: i64)
    ensures
        final(out)@ == old(out)@ + signed_decimal(n as int),
{
    if n < 0 {
        out.push('-');
        let m: u64 = ((-(n + 1)) as u64) + 1;
        push_decimal(out, m as u128);
        assert(old(out)@.push('-') + decimal(m as nat) =~= old(out)@ + (seq!['-'] + decimal(
            m as nat,
        )));
    } else {
        push_decimal(out, n as u128);
    }
}

/// Appends `n` in at least two digits.
pub fn push_two_digits(out: &mut Vec<char>, n: u64)
    ensures
        final(out)@ == old(out)@ + two_digits(n as nat),
{
    if n < 10 {
        out.push('0');
        push_decimal(out, n as u128);
        assert(decimal(n as nat) == seq![digit_char(n as nat)]);
        assert(old(out)@.push('0') + seq![digit_char(n as nat)] =~= old(out)@ + seq![
            '0',
            digit_char(n as nat),
        ]);
    } else {
        push_decimal(out, n as u128);
    }
}

proof fn lemma_trim_start_stops(s: Seq<char>, i: int)
    requires
        0 <= i <= s.len(),
        i == s.len() || !is_ws(s[i]),
    ensures
        trim_start(s.skip(i)) == s.skip(i),
{
}

proof fn lemma_trim_end_stops(s: Seq<char>, j: int)
    requires
        0 <= j <= s.len(),
        j == 0 || !is_ws(s[j - 1]),
    ensures
        trim_end(s.take(j)) == s.take(j),
{
}

/// The characters of `v` without leading and trailing whitespace.
pub fn trim_chars(v: &Vec<char>) -> (r: Vec<char>)
    ensures
        r@ == trim(v@),
{
    let n = v.len();
    let mut i: usize = 0;
    assert(v@.skip(0) =~= v@);
    while i < n && is_whitespace(v[i])
        invariant
            i <= n == v.len(),
            trim_start(v@) == trim_start(v@.skip(i as int)),
        decreases n - i,
    {
        assert(v@.skip(i as int).drop_first() =~= v@.skip(i + 1));
        i = i + 1;
    }
    proof {
        lemma_trim_start_stops(v@, i as int);
    }
    let ghost rest = v@.skip(i as int);
    let mut j: usize = n;
    assert(rest.take(rest.len() as int) =~= rest);
    while j > i && is_whitespace(v[j - 1])
        invariant
            i <= j <= n == v.len(),
            rest == v@.skip(i as int),
            trim_end(rest) == trim_end(rest.take(j - i)),
        decreases j,
    {
        assert(rest.take(j - i).drop_last() =~= rest.take(j - 1 - i));
        j = j - 1;
    }
    proof {
        if j > i {
            assert(rest[j - i - 1] == v@[j - 1]);
        }
        lemma_trim_end_stops(rest, j - i);
    }
    let mut r: Vec<char> = Vec::new();
    let mut k: usize = i;
    while k < j
        invariant
            i <= k <= j <= n == v.len(),
            r@ == v@.subrange(i as int, k as int),
        decreases j - k,
    {
        r.push(v[k]);
        assert(v@.subrange(i as int, k as int).push(v@[k as int]) =~= v@.subrange(
            i as int,
            k + 1,
        ));
        k = k + 1;
    }
    assert(rest.take(j - i) =~= v@.subrange(i as int, j as int));
    r
}

} // verus!

verus! {

/// Whether every character of `v[lo..hi]` is an ASCII digit.
pub fn digits_in(v: &Vec<char>, lo: usize, hi: usize) -> (r: bool)
    requires
        lo <= hi <= v.len(),
    ensures
        r == all_digits(v@.subrange(lo as int, hi as int)),
{
    let mut k = lo;
    while k < hi
        invariant
            lo <= k <= hi <= v.len(),
            all_digits(v@.subrange(lo as int, k as int)),
        decreases hi - k,
    {
        if !('0' <= v[k] && v[k] <= '9') {
            assert(v@.subrange(lo as int, hi as int)[k - lo] == v@[k as int]);
            return false;
        }
        assert forall|i: int| 0 <= i < k + 1 - lo implies is_ascii_digit(
            #[trigger] v@.subrange(lo as int, k + 1)[i],
        ) by {
            if i < k - lo {
                assert(v@.subrange(lo as int, k + 1)[i] == v@.subrange(lo as int, k as int)[i]);
            }
        }
        k = k + 1;
    }
    true
}

/// The characters `v[lo..hi]`.
pub fn slice_chars(v: &Vec<char>, lo: usize, hi: usize) -> (r: Vec<char>)
    requires
        lo <= hi <= v.len(),
    ensures
        r@ == v@.subrange(lo as int, hi as int),
{
    let mut r: Vec<char> = Vec::new();
    let mut k = lo;
    while k < hi
        invariant
            lo <= k <= hi <= v.len(),
            r@ == v@.subrange(lo as int, k as int),
        decreases hi - k,
    {
        r.push(v[k]);
        assert(v@.subrange(lo as int, k as int).push(v@[k as int]) =~= v@.subrange(
            lo as int,
            k + 1,
        ));
        k = k + 1;
    }
    r
}

pub proof fn lemma_replace_push(s: Seq<char>, c: char, from: char, to: Seq<char>)
    ensures
        replace_char(s.push(c), from, to) == replace_char(s, from, to) + (if c == from {
            to
        } else {
            seq![c]
        }),
    decreases s.len(),
{
    if s.len() == 0 {
        assert(s.push(c).drop_first() =~= s);
    } else {
        assert(s.push(c).drop_first() =~= s.drop_first().push(c));
        lemma_replace_push(s.drop_first(), c, from, to);
    }
}

/// Appends `v` with every `from` replaced by `to`.
pub fn push_replaced(out: &mut Vec<char>, v: &Vec<char>, from: char, to: &str)
    ensures
        final(out)@ == old(out)@ + replace_char(v@, from, to@),
{
    let ghost start = out@;
    let mut k: usize = 0;
    while k < v.len()
        invariant
            k <= v.len(),
            out@ == start + replace_char(v@.take(k as int), from, to@),
        decreases v.len() - k,
    {
        proof {
            lemma_replace_push(v@.take(k as int), v@[k as int], from, to@);
            assert(v@.take(k as int).push(v@[k as int]) =~= v@.take(k + 1));
        }
        if v[k] == from {
            push_str(out, to);
        } else {
            out.push(v[k]);
        }
        k = k + 1;
    }
    assert(v@.take(v.len() as int) =~= v@);
}

} // verus!

verus! {

/// Index of the first `c` in `s`, or the length of `s` when there is none.
pub open spec fn find_char(s: Seq<char>, c: char) -> int
    decreases s.len(),
{
    if s.len() == 0 {
        0
    } else if s[0] == c {
        0
    } else {
        1 + find_char(s.drop_first(), c)
    }
}

pub proof fn lemma_find_char(s: Seq<char>, c: char)
    ensures
        0 <= find_char(s, c) <= s.len(),
        find_char(s, c) < s.len() ==> s[find_char(s, c)] == c,
        forall|j: int| 0 <= j < find_char(s, c) ==> s[j] != c,
    decreases s.len(),
{
    if s.len() > 0 && s[0] != c {
        let rest = s.drop_first();
        lemma_find_char(rest, c);
        assert forall|j: int| 0 <= j < find_char(s, c) implies s[j] != c by {
            if j > 0 {
                assert(s[j] == rest[j - 1]);
            }
        }
    }
}

/// The pieces of `s` between occurrences of `c`, as `str::split` yields them.
pub open spec fn split_on(s: Seq<char>, c: char) -> Seq<Seq<char>>
    decreases s.len(),
{
    let k = find_char(s, c);
    if 0 <= k < s.len() {
        seq![s.take(k)] + split_on(s.skip(k + 1), c)
    } else {
        seq![s]
    }
}

pub open spec fn views(s: Seq<Vec<char>>) -> Seq<Seq<char>> {
    s.map_values(|v: Vec<char>| v@)
}

/// Position of the first `c` at or after `p`, or the length of `v`.
pub fn find_from(v: &Vec<char>, p: usize, c: char) -> (k: usize)
    requires
        p <= v.len(),
    ensures
        p <= k <= v.len(),
        k - p == find_char(v@.skip(p as int), c),
{
    let mut q = p;
    assert(v@.skip(p as int) =~= v@.skip(q as int));
    while q < v.len() && v[q] != c
        invariant
            p <= q <= v.len(),
            find_char(v@.skip(p as int), c) == (q - p) + find_char(v@.skip(q as int), c),
        decreases v.len() - q,
    {
        assert(v@.skip(q as int)[0] == v@[q as int]);
        assert(v@.skip(q as int).drop_first() =~= v@.skip(q + 1));
        q = q + 1;
    }
    if q < v.len() {
        assert(v@.skip(q as int)[0] == v@[q as int]);
    }
    q
}

/// The pieces of `v[p..]` between occurrences of `c`.
pub fn split_from(v: &Vec<char>, p: usize, c: char) -> (r: Vec<Vec<char>>)
    requires
        p <= v.len(),
    ensures
        views(r@) == split_on(v@.skip(p as int), c),
    decreases v.len() - p,
{
    let k = find_from(v, p, c);
    let ghost s = v@.skip(p as int);
    proof {
        lemma_find_char(s, c);
    }
    if k == v.len() {
        let piece = slice_chars(v, p, v.len());
        let mut r: Vec<Vec<char>> = Vec::new();
        r.push(piece);
        assert(views(r@) =~= seq![s]);
        r
    } else {
        let mut r = split_from(v, k + 1, c);
        let piece = slice_chars(v, p, k);
        let ghost tail = views(r@);
        r.insert(0, piece);
        assert(s.take(k - p) =~= v@.subrange(p as int, k as int));
        assert(s.skip(k - p + 1) =~= v@.skip(k + 1));
        assert(views(r@) =~= seq![s.take(k - p)] + tail);
        r
    }
}

/// Whether `v` holds exactly the characters of `s`.
pub fn chars_are(v: &Vec<char>, s: &str) -> (r: bool)
    ensures
        r == (v@ == s@),
{
    let w = chars_of(s);
    if v.len() != w.len() {
        return false;
    }
    let mut i: usize = 0;
    while i < v.len()
        invariant
            i <= v.len() == w.len(),
            w@ == s@,
            v@.take(i as int) == w@.take(i as int),
        decreases v.len() - i,
    {
        if v[i] != w[i] {
            assert(v@[i as int] != w@[i as int]);
            return false;
        }
        assert(v@.take(i + 1) =~= v@.take(i as int).push(v@[i as int]));
        assert(w@.take(i + 1) =~= w@.take(i as int).push(w@[i as int]));
        i = i + 1;
    }
    assert(v@ =~= v@.take(i as int));
    assert(w@ =~= w@.take(i as int));
    true
}

/// ASCII lowercase of `v`.
pub fn lower_chars(v: &Vec<char>) -> (r: Vec<char>)
    ensures
        r@ == lower(v@),
{
    let mut r: Vec<char> = Vec::new();
    let mut i: usize = 0;
    while i < v.len()
        invariant
            i <= v.len(),
            r@ == lower(v@.take(i as int)),
        decreases v.len() - i,
    {
        let c = v[i];
        let d = if 'A' <= c && c <= 'Z' {
            ((c as u32) + 32) as u8 as char
        } else {
            c
        };
        proof {
            if 'A' <= c && c <= 'Z' {
                let n = (c as u32) + 32;
                assert(n as u8 as u32 == n);
                assert(n as u8 as char == n as char);
            }
        }
        r.push(d);
        assert(lower(v@.take(i + 1)) =~= lower(v@.take(i as int)).push(to_lower(c)));
        i = i + 1;
    }
    assert(v@.take(v.len() as int) =~= v@);
    r
}

/// ASCII uppercase of `v`.
pub fn upper_chars(v: &Vec<char>) -> (r: Vec<char>)
    ensures
        r@ == upper(v@),
{
    let mut r: Vec<char> = Vec::new();
    let mut i: usize = 0;
    while i < v.len()
        invariant
            i <= v.len(),
            r@ == upper(v@.take(i as int)),
        decreases v.len() - i,
    {
        let c = v[i];
        let d = if 'a' <= c && c <= 'z' {
            ((c as u32) - 32) as u8 as char
        } else {
            c
        };
        proof {
            if 'a' <= c && c <= 'z' {
                let n = (c as u32) - 32;
                assert(n as u8 as u32 == n);
                assert(n as u8 as char == n as char);
            }
        }
        r.push(d);
        assert(upper(v@.take(i + 1)) =~= upper(v@.take(i as int)).push(to_upper(c)));
        i = i + 1;
    }
    assert(v@.take(v.len() as int) =~= v@);
    r
}

pub proof fn lemma_digits_grow(s: Seq<char>, c: char)
    requires
        is_ascii_digit(c),
    ensures
        digits_value(s.push(c)) == digits_value(s) * 10 + digit_value(c),
        digits_value(s.push(c)) >= digits_value(s),
{
    assert(s.push(c).drop_last() =~= s);
}

/// `str::parse::<u8>` on the characters `v[p..]`.
pub fn parse_u8_from(v: &Vec<char>, p: usize) -> (r: Option<u8>)
    requires
        p <= v.len(),
    ensures
        r == parse_u8(v@.skip(p as int)),
{
    let ghost s = v@.skip(p as int);
    let mut start = p;
    if p < v.len() && v[p] == '+' {
        start = p + 1;
    }
    let ghost d = v@.skip(start as int);
    assert(d =~= (if s.len() > 0 && s[0] == '+' {
        s.drop_first()
    } else {
        s
    }));
    if start == v.len() {
        return None;
    }
    let mut acc: u32 = 0;
    let mut big = false;
    let mut i = start;
    assert(v@.subrange(start as int, start as int) =~= Seq::<char>::empty());
    while i < v.len()
        invariant
            start <= i <= v.len(),
            d == v@.skip(start as int),
            s == v@.skip(p as int),
            d == (if s.len() > 0 && s[0] == '+' {
                s.drop_first()
            } else {
                s
            }),
            all_digits(v@.subrange(start as int, i as int)),
            big <==> digits_value(v@.subrange(start as int, i as int)) > 255,
            !big ==> acc == digits_value(v@.subrange(start as int, i as int)),
        decreases v.len() - i,
    {
        let c = v[i];
        if !('0' <= c && c <= '9') {
            assert(d[i - start] == c);
            assert(!is_ascii_digit(d[i - start]));
            assert(!all_digits(d));
            return None;
        }
        proof {
            lemma_digits_grow(v@.subrange(start as int, i as int), c);
            assert(v@.subrange(start as int, i + 1) =~= v@.subrange(start as int, i as int).push(
                c,
            ));
        }
        if !big {
            acc = acc * 10 + (c as u32 - 48);
            if acc > 255 {
                big = true;
            }
        }
        i = i + 1;
    }
    assert(v@.subrange(start as int, v.len() as int) =~= d);
    if big {
        None
    } else {
        Some(acc as u8)
    }
}

} // verus!

verus! {

/// `s` without one `\r` at its end.
pub open spec fn strip_cr(s: Seq<char>) -> Seq<char> {
    if s.len() > 0 && s.last() == '\r' {
        s.drop_last()
    } else {
        s
    }
}

/// The lines of `s`, as `str::lines` yields them: split at `\n`, a `\r`
/// before the `\n` dropped, and no empty line after a final `\n`.
pub open spec fn lines(s: Seq<char>) -> Seq<Seq<char>> {
    let parts = split_on(s, '\n');
    let ended = parts.drop_last().map_values(|p: Seq<char>| strip_cr(p));
    if parts.last().len() == 0 {
        ended
    } else {
        ended.push(parts.last())
    }
}

/// The lines of `text`.
pub fn lines_of(text: &str) -> (r: Vec<Vec<char>>)
    ensures
        views(r@) == lines(text@),
{
    let v = chars_of(text);
    assert(v@.skip(0) =~= v@);
    let parts = split_from(&v, 0, '\n');
    proof {
        crate::shortcuts::lemma_split_nonempty(v@, '\n');
    }
    let ghost pv = views(parts@);
    let n = parts.len();
    let mut out: Vec<Vec<char>> = Vec::new();
    let mut i: usize = 0;
    while i + 1 < n
        invariant
            n == parts.len() >= 1,
            pv == views(parts@),
            i + 1 <= n,
            views(out@) == pv.drop_last().take(i as int).map_values(|p: Seq<char>| strip_cr(p)),
        decreases n - i,
    {
        let p = &parts[i];
        let q = if p.len() > 0 && p[p.len() - 1] == '\r' {
            slice_chars(p, 0, p.len() - 1)
        } else {
            slice_chars(p, 0, p.len())
        };
        proof {
            assert(p@.subrange(0, p@.len() as int) =~= p@);
            if p@.len() > 0 {
                assert(p@.subrange(0, p@.len() - 1) =~= p@.drop_last());
            }
        }
        let ghost before = views(out@);
        out.push(q);
        assert(views(out@) =~= before.push(strip_cr(pv[i as int])));
        assert(pv.drop_last().take(i + 1) =~= pv.drop_last().take(i as int).push(pv[i as int]));
        i = i + 1;
    }
    assert(pv.drop_last().take(i as int) =~= pv.drop_last());
    let last = &parts[n - 1];
    if last.len() > 0 {
        let ghost before = views(out@);
        out.push(slice_chars(last, 0, last.len()));
        assert(last@.subrange(0, last@.len() as int) =~= last@);
        assert(views(out@) =~= before.push(pv.last()));
    }
    out
}

} // verus!

verus! {

/// A run of decimal digits whose value is at most `max`.
pub open spec fn plain_number(s: Seq<char>, max: nat) -> Option<nat> {
    if s.len() > 0 && all_digits(s) && digits_value(s) <= max {
        Some(digits_value(s))
    } else {
        None
    }
}

/// The value of the digits `v[lo..hi]`, when they are nothing but digits and
/// their value is at most `max`.
pub fn parse_digits(v: &Vec<char>, lo: usize, hi: usize, max: u64) -> (r: Option<u64>)
    requires
        lo <= hi <= v.len(),
    ensures
        match r {
            Some(n) => plain_number(v@.subrange(lo as int, hi as int), max as nat) == Some(
                n as nat,
            ),
            None => plain_number(v@.subrange(lo as int, hi as int), max as nat) is None,
        },
{
    let ghost d = v@.subrange(lo as int, hi as int);
    if lo == hi {
        return None;
    }
    let mut acc: u64 = 0;
    let mut big = false;
    let mut i = lo;
    assert(v@.subrange(lo as int, lo as int) =~= Seq::<char>::empty());
    while i < hi
        invariant
            lo <= i <= hi <= v.len(),
            d == v@.subrange(lo as int, hi as int),
            all_digits(v@.subrange(lo as int, i as int)),
            big <==> digits_value(v@.subrange(lo as int, i as int)) > max,
            !big ==> acc == digits_value(v@.subrange(lo as int, i as int)),
        decreases hi - i,
    {
        let c = v[i];
        if !('0' <= c && c <= '9') {
            assert(d[i - lo] == c);
            assert(!is_ascii_digit(d[i - lo]));
            assert(!all_digits(d));
            return None;
        }
        proof {
            lemma_digits_grow(v@.subrange(lo as int, i as int), c);
            assert(v@.subrange(lo as int, i + 1) =~= v@.subrange(lo as int, i as int).push(c));
        }
        if !big {
            let dv = (c as u32 - 48) as u64;
            if dv > max {
                big = true;
            } else if acc > (max - dv) / 10 {
                big = true;
                assert(acc * 10 + dv > max) by (nonlinear_arith)
                    requires
                        acc > (max - dv) / 10,
                        dv <= max,
                ;
            } else {
                assert(acc * 10 + dv <= max) by (nonlinear_arith)
                    requires
                        acc <= (max - dv) / 10,
                        dv <= max,
                ;
                acc = acc * 10 + dv;
            }
        }
        i = i + 1;
    }
    if big {
        None
    } else {
        Some(acc)
    }
}

} // verus!

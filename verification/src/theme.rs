//! Terminal colors: color syntax, Qt color order, the settings printed by
//! the terminal, and the palette roles derived from a theme's colors.
use vstd::prelude::*;
use crate::session::opt_view;
use crate::text::{
    chars_are, chars_of, find_char, find_from, lemma_find_char, lines, lines_of, slice_chars,
    string_of, trim, trim_chars, views,
};
use vstd::utf8::{
    encode_utf8, encode_utf8_valid_utf8, is_char_boundary,
    is_char_boundary_iff_not_is_continuation_byte, valid_utf8_split,
};

verus! {

pub open spec fn is_hex(c: char) -> bool {
    ('0' <= c <= '9') || ('a' <= c <= 'f') || ('A' <= c <= 'F')
}

/// `#RGB`, `#RRGGBB` or `#RRGGBBAA`.
pub open spec fn valid_color_spec(s: Seq<char>) -> bool {
    &&& (s.len() == 4 || s.len() == 7 || s.len() == 9)
    &&& s[0] == '#'
    &&& forall|i: int| 1 <= i < s.len() ==> is_hex(#[trigger] s[i])
}

/// Whether `s` is a hex color.
pub fn valid_color(s: &str) -> (r: bool)
    ensures
        r == valid_color_spec(s@),
{
    let v = chars_of(s);
    if !(v.len() == 4 || v.len() == 7 || v.len() == 9) || v[0] != '#' {
        return false;
    }
    let mut i: usize = 1;
    while i < v.len()
        invariant
            1 <= i <= v.len(),
            v@ == s@,
            forall|k: int| 1 <= k < i ==> is_hex(#[trigger] v@[k]),
        decreases v.len() - i,
    {
        let c = v[i];
        if !(('0' <= c && c <= '9') || ('a' <= c && c <= 'f') || ('A' <= c && c <= 'F')) {
            return false;
        }
        i = i + 1;
    }
    true
}

/// The bytes of a color in Qt's `#AARRGGBB` order: a color of nine bytes,
/// CSS `#RRGGBBAA`, has its last two bytes moved to the front after `#`.
pub open spec fn qt_color_bytes(b: Seq<u8>) -> Seq<u8> {
    if b.len() == 9 {
        seq![35u8] + b.subrange(7, 9) + b.subrange(1, 7)
    } else {
        b
    }
}

/// The encoding of joined text is the joined encodings.
proof fn lemma_encode_concat(a: Seq<char>, b: Seq<char>)
    ensures
        encode_utf8(a + b) == encode_utf8(a) + encode_utf8(b),
    decreases a.len(),
{
    if a.len() == 0 {
        assert(a + b =~= b);
        assert(encode_utf8(a) + encode_utf8(b) =~= encode_utf8(b));
    } else {
        lemma_encode_concat(a.drop_first(), b);
        assert((a + b).drop_first() =~= a.drop_first() + b);
        assert((a + b)[0] == a[0]);
        assert(encode_utf8(a + b) =~= encode_utf8(a) + encode_utf8(b));
    }
}

/// Reorders a color with alpha from CSS `#RRGGBBAA` to Qt `#AARRGGBB`, by
/// bytes; the cut points must fall between characters.
pub fn qt_color(c: &str) -> (r: String)
    requires
        encode_utf8(c@).len() == 9 ==> is_char_boundary(encode_utf8(c@), 1) && is_char_boundary(
            encode_utf8(c@),
            7,
        ),
    ensures
        encode_utf8(r@) == qt_color_bytes(encode_utf8(c@)),
{
    let bytes = c.as_bytes();
    if bytes.len() == 9 {
        let ghost b = encode_utf8(c@);
        proof {
            encode_utf8_valid_utf8(c@);
        }
        let (head, alpha) = c.split_at(7);
        proof {
            valid_utf8_split(b, 7);
            is_char_boundary_iff_not_is_continuation_byte(b, 1);
            is_char_boundary_iff_not_is_continuation_byte(b.subrange(0, 7), 1);
        }
        let (_, rgb) = head.split_at(1);
        let mut out = String::from_str("#");
        out.append(alpha);
        out.append(rgb);
        proof {
            reveal_strlit("#");
            lemma_encode_concat("#"@, alpha@);
            lemma_encode_concat("#"@ + alpha@, rgb@);
            assert(out@ =~= "#"@ + alpha@ + rgb@);
            assert((35u32 & 0x7Fu32) as u8 == 35u8) by (bit_vector);
            assert("#"@[0] as u32 == 35u32);
            assert("#"@.drop_first() =~= Seq::<char>::empty());
            assert(encode_utf8(Seq::<char>::empty()) =~= Seq::<u8>::empty());
            assert(vstd::utf8::encode_scalar(35u32) =~= seq![35u8]);
            assert(encode_utf8("#"@) =~= seq![35u8]);
            assert(encode_utf8(rgb@) =~= b.subrange(1, 7));
        }
        out
    } else {
        String::from_str(c)
    }
}

/// `s` split at its first `c`.
pub open spec fn split_once(s: Seq<char>, c: char) -> Option<(Seq<char>, Seq<char>)> {
    let k = find_char(s, c);
    if 0 <= k < s.len() {
        Some((s.take(k), s.skip(k + 1)))
    } else {
        None
    }
}

fn split_once_chars(v: &Vec<char>, c: char) -> (r: Option<(Vec<char>, Vec<char>)>)
    ensures
        match r {
            Some((a, b)) => split_once(v@, c) == Some((a@, b@)),
            None => split_once(v@, c) is None,
        },
{
    let k = find_from(v, 0, c);
    assert(v@.skip(0) =~= v@);
    proof {
        lemma_find_char(v@, c);
    }
    if k == v.len() {
        None
    } else {
        let a = slice_chars(v, 0, k);
        let b = slice_chars(v, k + 1, v.len());
        assert(a@ =~= v@.take(k as int));
        assert(b@ =~= v@.skip(k + 1));
        Some((a, b))
    }
}

/// `key = value` pairs of the lines that hold an `=`, both sides trimmed.
pub open spec fn settings_of(ls: Seq<Seq<char>>) -> Seq<(Seq<char>, Seq<char>)>
    decreases ls.len(),
{
    if ls.len() == 0 {
        seq![]
    } else {
        let prev = settings_of(ls.drop_last());
        match split_once(ls.last(), '=') {
            Some((k, v)) => prev.push((trim(k), trim(v))),
            None => prev,
        }
    }
}

/// The value of the last pair for `key`, as a map collected from the pairs holds it.
pub open spec fn pair_get(s: Seq<(Seq<char>, Seq<char>)>, key: Seq<char>) -> Option<Seq<char>>
    decreases s.len(),
{
    if s.len() == 0 {
        None
    } else if s.last().0 == key {
        Some(s.last().1)
    } else {
        pair_get(s.drop_last(), key)
    }
}

pub open spec fn pairs_view(v: Seq<(String, String)>) -> Seq<(Seq<char>, Seq<char>)> {
    v.map_values(|p: (String, String)| (p.0@, p.1@))
}

/// The `key = value` settings of the terminal's configuration dump.
pub fn parse_settings(text: &str) -> (r: Vec<(String, String)>)
    ensures
        pairs_view(r@) == settings_of(lines(text@)),
{
    let ls = lines_of(text);
    let ghost lv = views(ls@);
    let mut out: Vec<(String, String)> = Vec::new();
    let mut i: usize = 0;
    assert(lv.take(0) =~= Seq::<Seq<char>>::empty());
    while i < ls.len()
        invariant
            i <= ls.len(),
            lv == views(ls@),
            pairs_view(out@) == settings_of(lv.take(i as int)),
        decreases ls.len() - i,
    {
        assert(lv.take(i + 1).drop_last() =~= lv.take(i as int));
        assert(lv.take(i + 1).last() == ls@[i as int]@);
        match split_once_chars(&ls[i], '=') {
            Some((k, v)) => {
                let ghost before = pairs_view(out@);
                out.push((string_of(&trim_chars(&k)), string_of(&trim_chars(&v))));
                assert(pairs_view(out@) =~= before.push((trim(k@), trim(v@))));
            },
            None => {},
        }
        i = i + 1;
    }
    assert(lv.take(i as int) =~= lv);
    out
}

/// The value of the last pair for `key`.
pub fn setting(pairs: &Vec<(String, String)>, key: &str) -> (r: Option<String>)
    ensures
        opt_view(r) == pair_get(pairs_view(pairs@), key@),
{
    let ghost pv = pairs_view(pairs@);
    let mut i = pairs.len();
    assert(pv.take(i as int) =~= pv);
    while i > 0
        invariant
            i <= pairs.len(),
            pv == pairs_view(pairs@),
            pair_get(pv, key@) == pair_get(pv.take(i as int), key@),
        decreases i,
    {
        assert(pv.take(i as int).last() == pv[i - 1]);
        if crate::text::str_eq(pairs[i - 1].0.as_str(), key) {
            return Some(pairs[i - 1].1.clone());
        }
        assert(pv.take(i as int).drop_last() =~= pv.take(i - 1));
        i = i - 1;
    }
    None
}

/// The palette roles that a terminal palette index stands for.
pub open spec fn palette_roles(idx: Seq<char>) -> Seq<Seq<char>> {
    if idx == "1"@ {
        seq!["red"@]
    } else if idx == "2"@ {
        seq!["green"@]
    } else if idx == "3"@ {
        seq!["yellow"@]
    } else if idx == "4"@ {
        seq!["blue"@, "accent"@]
    } else if idx == "8"@ {
        seq!["muted"@, "dark_foreground"@]
    } else {
        seq![]
    }
}

/// The (role, color) assignments of one `palette = N=#color` line.
pub open spec fn palette_line(line: Seq<char>) -> Seq<(Seq<char>, Seq<char>)> {
    match split_once(line, '=') {
        Some((k, v)) => if trim(k) == "palette"@ {
            match split_once(trim(v), '=') {
                Some((idx, color)) => if valid_color_spec(trim(color)) {
                    palette_roles(trim(idx)).map_values(|r: Seq<char>| (r, trim(color)))
                } else {
                    seq![]
                },
                None => seq![],
            }
        } else {
            seq![]
        },
        None => seq![],
    }
}

pub open spec fn palette_of(ls: Seq<Seq<char>>) -> Seq<(Seq<char>, Seq<char>)>
    decreases ls.len(),
{
    if ls.len() == 0 {
        seq![]
    } else {
        palette_of(ls.drop_last()) + palette_line(ls.last())
    }
}

fn roles_of(idx: &Vec<char>) -> (r: Vec<String>)
    ensures
        r@.map_values(|s: String| s@) == palette_roles(idx@),
{
    let mut r: Vec<String> = Vec::new();
    if chars_are(idx, "1") {
        r.push(String::from_str("red"));
    } else if chars_are(idx, "2") {
        r.push(String::from_str("green"));
    } else if chars_are(idx, "3") {
        r.push(String::from_str("yellow"));
    } else if chars_are(idx, "4") {
        r.push(String::from_str("blue"));
        r.push(String::from_str("accent"));
    } else if chars_are(idx, "8") {
        r.push(String::from_str("muted"));
        r.push(String::from_str("dark_foreground"));
    }
    assert(r@.map_values(|s: String| s@) =~= palette_roles(idx@));
    r
}

/// The role colors that `palette = N=#color` lines of the terminal's
/// configuration assign, in line order.
pub fn palette_overrides(cfg: &str) -> (r: Vec<(String, String)>)
    ensures
        pairs_view(r@) == palette_of(lines(cfg@)),
{
    let ls = lines_of(cfg);
    let ghost lv = views(ls@);
    let mut out: Vec<(String, String)> = Vec::new();
    let mut i: usize = 0;
    assert(lv.take(0) =~= Seq::<Seq<char>>::empty());
    while i < ls.len()
        invariant
            i <= ls.len(),
            lv == views(ls@),
            pairs_view(out@) == palette_of(lv.take(i as int)),
        decreases ls.len() - i,
    {
        assert(lv.take(i + 1).drop_last() =~= lv.take(i as int));
        assert(lv.take(i + 1).last() == ls@[i as int]@);
        let ghost before = pairs_view(out@);
        let mut added = false;
        match split_once_chars(&ls[i], '=') {
            Some((k, v)) => {
                let kk = trim_chars(&k);
                if chars_are(&kk, "palette") {
                    let vv = trim_chars(&v);
                    match split_once_chars(&vv, '=') {
                        Some((idx, color)) => {
                            let cc = string_of(&trim_chars(&color));
                            if valid_color(cc.as_str()) {
                                let roles = roles_of(&trim_chars(&idx));
                                let ghost rv = roles@.map_values(|s: String| s@);
                                let mut j: usize = 0;
                                while j < roles.len()
                                    invariant
                                        j <= roles.len(),
                                        rv == roles@.map_values(|s: String| s@),
                                        pairs_view(out@) == before + rv.take(j as int).map_values(
                                            |r: Seq<char>| (r, cc@),
                                        ),
                                    decreases roles.len() - j,
                                {
                                    let ghost b2 = pairs_view(out@);
                                    out.push((roles[j].clone(), cc.clone()));
                                    assert(pairs_view(out@) =~= b2.push((rv[j as int], cc@)));
                                    assert(rv.take(j + 1).map_values(|r: Seq<char>| (r, cc@))
                                        =~= rv.take(j as int).map_values(
                                        |r: Seq<char>| (r, cc@),
                                    ).push((rv[j as int], cc@)));
                                    j = j + 1;
                                }
                                assert(rv.take(j as int) =~= rv);
                                added = true;
                            }
                        },
                        None => {},
                    }
                }
            },
            None => {},
        }
        if !added {
            assert(pairs_view(out@) =~= before + palette_line(lv[i as int]));
        }
        assert(pairs_view(out@) =~= before + palette_line(lv[i as int]));
        i = i + 1;
    }
    assert(lv.take(i as int) =~= lv);
    out
}

/// The path of one `config-file = path` line, without a leading `?`.
pub open spec fn config_file_line(line: Seq<char>) -> Seq<Seq<char>> {
    match split_once(line, '=') {
        Some((k, v)) => if trim(k) == "config-file"@ {
            let t = trim(v);
            if t.len() > 0 && t[0] == '?' {
                seq![t.drop_first()]
            } else {
                seq![t]
            }
        } else {
            seq![]
        },
        None => seq![],
    }
}

pub open spec fn config_files_of(ls: Seq<Seq<char>>) -> Seq<Seq<char>>
    decreases ls.len(),
{
    if ls.len() == 0 {
        seq![]
    } else {
        config_files_of(ls.drop_last()) + config_file_line(ls.last())
    }
}

/// The configuration files that the terminal's configuration dump names.
pub fn config_files(cfg: &str) -> (r: Vec<String>)
    ensures
        r@.map_values(|s: String| s@) == config_files_of(lines(cfg@)),
{
    let ls = lines_of(cfg);
    let ghost lv = views(ls@);
    let mut out: Vec<String> = Vec::new();
    let mut i: usize = 0;
    assert(lv.take(0) =~= Seq::<Seq<char>>::empty());
    while i < ls.len()
        invariant
            i <= ls.len(),
            lv == views(ls@),
            out@.map_values(|s: String| s@) == config_files_of(lv.take(i as int)),
        decreases ls.len() - i,
    {
        assert(lv.take(i + 1).drop_last() =~= lv.take(i as int));
        assert(lv.take(i + 1).last() == ls@[i as int]@);
        let ghost before = out@.map_values(|s: String| s@);
        match split_once_chars(&ls[i], '=') {
            Some((k, v)) => {
                if chars_are(&trim_chars(&k), "config-file") {
                    let t = trim_chars(&v);
                    let p = if t.len() > 0 && t[0] == '?' {
                        slice_chars(&t, 1, t.len())
                    } else {
                        slice_chars(&t, 0, t.len())
                    };
                    proof {
                        assert(t@.subrange(0, t@.len() as int) =~= t@);
                        if t@.len() > 0 {
                            assert(t@.subrange(1, t@.len() as int) =~= t@.drop_first());
                        }
                    }
                    out.push(string_of(&p));
                    assert(out@.map_values(|s: String| s@) =~= before + config_file_line(
                        lv[i as int],
                    ));
                } else {
                    assert(out@.map_values(|s: String| s@) =~= before + config_file_line(
                        lv[i as int],
                    ));
                }
            },
            None => {
                assert(out@.map_values(|s: String| s@) =~= before + config_file_line(
                    lv[i as int],
                ));
            },
        }
        i = i + 1;
    }
    assert(lv.take(i as int) =~= lv);
    out
}

} // verus!

verus! {

/// The valid colors of a theme's color table, trimmed, by name.
pub open spec fn color_table_of(fields: Seq<(String, crate::value::Node)>) -> Seq<
    (Seq<char>, Seq<char>),
>
    decreases fields.len(),
{
    if fields.len() == 0 {
        seq![]
    } else {
        let prev = color_table_of(fields.drop_last());
        match fields.last().1 {
            crate::value::Node::Str(s) => if valid_color_spec(trim(s@)) {
                prev.push((fields.last().0@, trim(s@)))
            } else {
                prev
            },
            _ => prev,
        }
    }
}

/// The named colors of a theme's `colors.toml` table.
pub fn color_table(fields: &Vec<(String, crate::value::Node)>) -> (r: Vec<(String, String)>)
    ensures
        pairs_view(r@) == color_table_of(fields@),
{
    let mut out: Vec<(String, String)> = Vec::new();
    let mut i: usize = 0;
    assert(fields@.take(0) =~= Seq::<(String, crate::value::Node)>::empty());
    while i < fields.len()
        invariant
            i <= fields.len(),
            pairs_view(out@) == color_table_of(fields@.take(i as int)),
        decreases fields.len() - i,
    {
        assert(fields@.take(i + 1).drop_last() =~= fields@.take(i as int));
        assert(fields@.take(i + 1).last() == fields@[i as int]);
        match &fields[i].1 {
            crate::value::Node::Str(s) => {
                let t = string_of(&trim_chars(&chars_of(s.as_str())));
                if valid_color(t.as_str()) {
                    let ghost before = pairs_view(out@);
                    out.push((fields[i].0.clone(), t));
                    assert(pairs_view(out@) =~= before.push((fields@[i as int].0@, trim(s@))));
                }
            },
            _ => {},
        }
        i = i + 1;
    }
    assert(fields@.take(i as int) =~= fields@);
    out
}

/// The twelve palette roles, in order.
pub open spec fn role_names() -> Seq<Seq<char>> {
    seq![
        "background"@,
        "dark_background"@,
        "darker_background"@,
        "lighter_background"@,
        "foreground"@,
        "dark_foreground"@,
        "muted"@,
        "accent"@,
        "red"@,
        "yellow"@,
        "green"@,
        "blue"@,
    ]
}

/// The color names role `i` falls back to, in order, when a theme lacks it.
pub open spec fn role_aliases(i: int) -> Seq<Seq<char>> {
    if i == 5 {
        seq!["light_foreground"@, "muted"@, "foreground"@]
    } else if i == 6 {
        seq!["light_foreground"@, "dark_foreground"@, "foreground"@]
    } else if i == 7 {
        seq!["blue"@, "cyan"@, "green"@, "foreground"@]
    } else if i == 8 {
        seq!["bright_red"@, "accent"@, "foreground"@]
    } else if i == 9 {
        seq!["bright_yellow"@, "orange"@, "accent"@, "foreground"@]
    } else if i == 10 {
        seq!["bright_green"@, "cyan"@, "accent"@, "foreground"@]
    } else if i == 11 {
        seq!["bright_blue"@, "cyan"@, "accent"@, "foreground"@]
    } else {
        seq![]
    }
}

pub open spec fn first_present(data: Seq<(Seq<char>, Seq<char>)>, names: Seq<Seq<char>>) -> Option<
    Seq<char>,
>
    decreases names.len(),
{
    if names.len() == 0 {
        None
    } else {
        match pair_get(data, names[0]) {
            Some(v) => Some(v),
            None => first_present(data, names.drop_first()),
        }
    }
}

/// The color of role `i`: the theme's own, else the first alias it has, else
/// the foreground. The three background shades have no alias: `None` means
/// that they are mixed from the background.
pub open spec fn derived_role(data: Seq<(Seq<char>, Seq<char>)>, i: int) -> Option<Seq<char>> {
    match pair_get(data, role_names()[i]) {
        Some(v) => Some(v),
        None => if 1 <= i <= 3 {
            None
        } else {
            match first_present(data, role_aliases(i)) {
                Some(v) => Some(v),
                None => pair_get(data, "foreground"@),
            }
        },
    }
}

fn first_of(data: &Vec<(String, String)>, names: &[&str]) -> (r: Option<String>)
    ensures
        opt_view(r) == first_present(pairs_view(data@), names@.map_values(|s: &str| s@)),
{
    let ghost nv = names@.map_values(|s: &str| s@);
    let mut i: usize = 0;
    assert(nv.skip(0) =~= nv);
    while i < names.len()
        invariant
            i <= names@.len(),
            nv == names@.map_values(|s: &str| s@),
            first_present(pairs_view(data@), nv) == first_present(
                pairs_view(data@),
                nv.skip(i as int),
            ),
        decreases names@.len() - i,
    {
        assert(nv.skip(i as int)[0] == names@[i as int]@);
        match setting(data, names[i]) {
            Some(v) => return Some(v),
            None => {},
        }
        assert(nv.skip(i as int).drop_first() =~= nv.skip(i + 1));
        i = i + 1;
    }
    None
}

fn role_value(data: &Vec<(String, String)>, role: &str, aliases: &[&str], Ghost(i): Ghost<int>) -> (r: Option<String>)
    requires
        0 <= i < 12,
        !(1 <= i <= 3),
        role@ == role_names()[i],
        aliases@.map_values(|s: &str| s@) == role_aliases(i),
    ensures
        opt_view(r) == derived_role(pairs_view(data@), i),
{
    match setting(data, role) {
        Some(v) => Some(v),
        None => match first_of(data, aliases) {
            Some(v) => Some(v),
            None => setting(data, "foreground"),
        },
    }
}

/// The twelve palette roles of a theme's color table, in the order of
/// `role_names`; `None` marks a background shade to be mixed.
pub fn derive_roles(data: &Vec<(String, String)>) -> (r: Vec<(String, Option<String>)>)
    ensures
        r@.len() == 12,
        forall|i: int|
            0 <= i < 12 ==> (#[trigger] r@[i]).0@ == role_names()[i] && opt_view(r@[i].1)
                == derived_role(pairs_view(data@), i),
{
    let mut r: Vec<(String, Option<String>)> = Vec::new();
    let a0: [&str; 0] = [];
    assert(a0@.map_values(|s: &str| s@) =~= role_aliases(0));
    r.push((String::from_str("background"), role_value(data, "background", &a0, Ghost(0))));
    r.push((String::from_str("dark_background"), setting(data, "dark_background")));
    r.push((String::from_str("darker_background"), setting(data, "darker_background")));
    r.push((String::from_str("lighter_background"), setting(data, "lighter_background")));
    let a4: [&str; 0] = [];
    assert(a4@.map_values(|s: &str| s@) =~= role_aliases(4));
    r.push((String::from_str("foreground"), role_value(data, "foreground", &a4, Ghost(4))));
    let a5: [&str; 3] = ["light_foreground", "muted", "foreground"];
    assert(a5@.map_values(|s: &str| s@) =~= role_aliases(5));
    r.push((String::from_str("dark_foreground"), role_value(data, "dark_foreground", &a5, Ghost(5))));
    let a6: [&str; 3] = ["light_foreground", "dark_foreground", "foreground"];
    assert(a6@.map_values(|s: &str| s@) =~= role_aliases(6));
    r.push((String::from_str("muted"), role_value(data, "muted", &a6, Ghost(6))));
    let a7: [&str; 4] = ["blue", "cyan", "green", "foreground"];
    assert(a7@.map_values(|s: &str| s@) =~= role_aliases(7));
    r.push((String::from_str("accent"), role_value(data, "accent", &a7, Ghost(7))));
    let a8: [&str; 3] = ["bright_red", "accent", "foreground"];
    assert(a8@.map_values(|s: &str| s@) =~= role_aliases(8));
    r.push((String::from_str("red"), role_value(data, "red", &a8, Ghost(8))));
    let a9: [&str; 4] = ["bright_yellow", "orange", "accent", "foreground"];
    assert(a9@.map_values(|s: &str| s@) =~= role_aliases(9));
    r.push((String::from_str("yellow"), role_value(data, "yellow", &a9, Ghost(9))));
    let a10: [&str; 4] = ["bright_green", "cyan", "accent", "foreground"];
    assert(a10@.map_values(|s: &str| s@) =~= role_aliases(10));
    r.push((String::from_str("green"), role_value(data, "green", &a10, Ghost(10))));
    let a11: [&str; 4] = ["bright_blue", "cyan", "accent", "foreground"];
    assert(a11@.map_values(|s: &str| s@) =~= role_aliases(11));
    r.push((String::from_str("blue"), role_value(data, "blue", &a11, Ghost(11))));
    r
}

} // verus!

verus! {

/// The value set for `key` when it is a valid color.
pub open spec fn valid_setting(d: Seq<(Seq<char>, Seq<char>)>, key: Seq<char>) -> Option<Seq<char>> {
    match pair_get(d, key) {
        Some(v) => if valid_color_spec(v) {
            Some(v)
        } else {
            None
        },
        None => None,
    }
}

/// The role colors once a terminal with background `bg` and foreground `fg`
/// has set them: the base table, then the terminal's assignments (the last
/// pair of a role wins).
pub open spec fn terminal_colors(
    base: Seq<(Seq<char>, Seq<char>)>,
    bg: Seq<char>,
    fg: Seq<char>,
    ls: Seq<Seq<char>>,
) -> Seq<(Seq<char>, Seq<char>)> {
    base + seq![
        ("background"@, bg),
        ("dark_background"@, bg),
        ("darker_background"@, bg),
        ("lighter_background"@, bg),
        ("foreground"@, fg),
    ] + palette_of(ls)
}

pub open spec fn or_else(o: Option<Seq<char>>, d: Seq<char>) -> Seq<char> {
    match o {
        Some(v) => v,
        None => d,
    }
}

/// The font family a terminal sets, unless empty.
pub open spec fn family_of(d: Seq<(Seq<char>, Seq<char>)>) -> Option<Seq<char>> {
    match pair_get(d, "font-family"@) {
        Some(f) => if f.len() > 0 {
            Some(f)
        } else {
            None
        },
        None => None,
    }
}

/// What a terminal configuration sets of the panel's theme.
pub struct TerminalTheme {
    /// The role colors, with the terminal's assignments after the base ones.
    pub colors: Vec<(String, String)>,
    /// The font family, when the terminal names one.
    pub family: Option<String>,
    pub selection_bg: String,
    pub selection_fg: String,
    pub cursor: String,
}

/// A color found for a key in the pairs stays found when pairs are added.
proof fn lemma_pair_get_append(s: Seq<(Seq<char>, Seq<char>)>, t: Seq<(Seq<char>, Seq<char>)>, key: Seq<char>)
    requires
        pair_get(s, key) is Some,
    ensures
        pair_get(s + t, key) is Some,
    decreases t.len(),
{
    if t.len() == 0 {
        assert(s + t =~= s);
    } else {
        assert((s + t).drop_last() =~= s + t.drop_last());
        lemma_pair_get_append(s, t.drop_last(), key);
    }
}

fn valid_of(d: &Vec<(String, String)>, key: &str) -> (r: Option<String>)
    ensures
        opt_view(r) == valid_setting(pairs_view(d@), key@),
{
    match setting(d, key) {
        Some(v) => if valid_color(v.as_str()) {
            Some(v)
        } else {
            None
        },
        None => None,
    }
}

fn push_pair(out: &mut Vec<(String, String)>, k: &str, v: &String)
    ensures
        pairs_view(final(out)@) == pairs_view(old(out)@).push((k@, v@)),
{
    let ghost before = pairs_view(out@);
    out.push((String::from_str(k), v.clone()));
    assert(pairs_view(out@) =~= before.push((k@, v@)));
}

/// What the terminal's configuration dump `cfg` sets over the role colors
/// `base`: nothing unless it names a valid background and foreground color;
/// else those (the background for all background shades), its palette roles,
/// its font family, and its selection and cursor colors, each falling back to
/// the accent or foreground role.
pub fn terminal_theme(base: &Vec<(String, String)>, cfg: &str) -> (r: Option<TerminalTheme>)
    requires
        pair_get(pairs_view(base@), "accent"@) is Some,
    ensures
        ({
            let d = settings_of(lines(cfg@));
            match (valid_setting(d, "background"@), valid_setting(d, "foreground"@)) {
                (Some(bg), Some(fg)) => r matches Some(t) && {
                    let colors = terminal_colors(pairs_view(base@), bg, fg, lines(cfg@));
                    &&& pairs_view(t.colors@) == colors
                    &&& opt_view(t.family) == family_of(d)
                    &&& t.selection_bg@ == or_else(
                        valid_setting(d, "selection-background"@),
                        pair_get(colors, "accent"@)->Some_0,
                    )
                    &&& t.selection_fg@ == or_else(
                        valid_setting(d, "selection-foreground"@),
                        pair_get(colors, "foreground"@)->Some_0,
                    )
                    &&& t.cursor@ == or_else(
                        valid_setting(d, "cursor-color"@),
                        pair_get(colors, "accent"@)->Some_0,
                    )
                },
                _ => r is None,
            }
        }),
{
    let d = parse_settings(cfg);
    let bg = match valid_of(&d, "background") {
        Some(v) => v,
        None => return None,
    };
    let fg = match valid_of(&d, "foreground") {
        Some(v) => v,
        None => return None,
    };
    let mut colors: Vec<(String, String)> = Vec::new();
    let mut i: usize = 0;
    while i < base.len()
        invariant
            i <= base.len(),
            pairs_view(colors@) == pairs_view(base@).take(i as int),
        decreases base.len() - i,
    {
        push_pair(&mut colors, base[i].0.as_str(), &base[i].1);
        assert(pairs_view(colors@) =~= pairs_view(base@).take(i + 1));
        i = i + 1;
    }
    assert(pairs_view(base@).take(i as int) =~= pairs_view(base@));
    push_pair(&mut colors, "background", &bg);
    push_pair(&mut colors, "dark_background", &bg);
    push_pair(&mut colors, "darker_background", &bg);
    push_pair(&mut colors, "lighter_background", &bg);
    push_pair(&mut colors, "foreground", &fg);
    let ghost shades = pairs_view(colors@);
    let palette = palette_overrides(cfg);
    let mut j: usize = 0;
    while j < palette.len()
        invariant
            j <= palette.len(),
            pairs_view(colors@) == shades + pairs_view(palette@).take(j as int),
        decreases palette.len() - j,
    {
        push_pair(&mut colors, palette[j].0.as_str(), &palette[j].1);
        assert(pairs_view(palette@).take(j + 1) =~= pairs_view(palette@).take(j as int).push(
            pairs_view(palette@)[j as int],
        ));
        j = j + 1;
    }
    assert(pairs_view(palette@).take(j as int) =~= pairs_view(palette@));
    let ghost cv = terminal_colors(pairs_view(base@), bg@, fg@, lines(cfg@));
    assert(pairs_view(colors@) =~= cv);
    proof {
        let bv = pairs_view(base@);
        let rest = cv.subrange(bv.len() as int, cv.len() as int);
        assert(bv + rest =~= cv);
        lemma_pair_get_append(bv, rest, "accent"@);
        assert(shades.last() == ("foreground"@, fg@));
        assert(pair_get(shades, "foreground"@) == Some(fg@));
        lemma_pair_get_append(shades, pairs_view(palette@), "foreground"@);
    }
    let accent = match setting(&colors, "accent") {
        Some(a) => a,
        None => String::new(),
    };
    let foreground = match setting(&colors, "foreground") {
        Some(f) => f,
        None => String::new(),
    };
    let family = match setting(&d, "font-family") {
        Some(f) => if f.as_str().is_empty() {
            None
        } else {
            Some(f)
        },
        None => None,
    };
    let selection_bg = match valid_of(&d, "selection-background") {
        Some(v) => v,
        None => accent.clone(),
    };
    let selection_fg = match valid_of(&d, "selection-foreground") {
        Some(v) => v,
        None => foreground,
    };
    let cursor = match valid_of(&d, "cursor-color") {
        Some(v) => v,
        None => accent,
    };
    Some(TerminalTheme { colors, family, selection_bg, selection_fg, cursor })
}

} // verus!

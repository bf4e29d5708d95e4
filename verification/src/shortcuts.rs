//! Keyboard shortcuts: the default bindings, the accepted accelerator
//! spellings, and the `[keys]` overrides of `keys.toml`.
use vstd::prelude::*;
use crate::text::{
    chars_are, chars_of, find_char, find_from, lemma_find_char, lower, lower_chars, parse_u8,
    parse_u8_from, push_chars, push_str, slice_chars, split_from, split_on, string_of, upper,
    upper_chars, views,
};

verus! {

/// Why an accelerator is refused, as a value of the specification.
pub enum ShortcutFault {
    UnclosedModifier,
    UnsupportedModifier(Seq<char>),
    DuplicateModifier,
    ReservedKey,
    UnsupportedKey(Seq<char>),
    BareKey,
}

/// Why an accelerator is refused.
#[derive(Debug)]
pub enum ShortcutError {
    /// A `<` without its `>`.
    UnclosedModifier,
    /// A modifier name outside Ctrl, Shift, Alt and Meta and their aliases.
    UnsupportedModifier(String),
    /// The same modifier twice.
    DuplicateModifier,
    /// Escape and Tab move focus and cannot be bound.
    ReservedKey,
    /// A key name that is not supported.
    UnsupportedKey(String),
    /// A key without a modifier (other than a function key), or with Shift alone.
    BareKey,
}

impl View for ShortcutError {
    type V = ShortcutFault;

    open spec fn view(&self) -> ShortcutFault {
        match self {
            ShortcutError::UnclosedModifier => ShortcutFault::UnclosedModifier,
            ShortcutError::UnsupportedModifier(m) => ShortcutFault::UnsupportedModifier(m@),
            ShortcutError::DuplicateModifier => ShortcutFault::DuplicateModifier,
            ShortcutError::ReservedKey => ShortcutFault::ReservedKey,
            ShortcutError::UnsupportedKey(k) => ShortcutFault::UnsupportedKey(k@),
            ShortcutError::BareKey => ShortcutFault::BareKey,
        }
    }
}

pub open spec fn shortcut_message(f: ShortcutFault) -> Seq<char> {
    match f {
        ShortcutFault::UnclosedModifier => "unclosed modifier"@,
        ShortcutFault::UnsupportedModifier(m) => "unsupported modifier "@ + m,
        ShortcutFault::DuplicateModifier => "duplicate modifier"@,
        ShortcutFault::ReservedKey => "Escape and Tab are reserved for navigation"@,
        ShortcutFault::UnsupportedKey(k) => "unsupported key "@ + k,
        ShortcutFault::BareKey => "bare keys are reserved for typing; add a modifier or use a function key"@,
    }
}

impl ShortcutError {
    /// The text that explains the refusal.
    pub fn message(&self) -> (r: String)
        ensures
            r@ == shortcut_message(self@),
    {
        let mut out: Vec<char> = Vec::new();
        match self {
            ShortcutError::UnclosedModifier => push_str(&mut out, "unclosed modifier"),
            ShortcutError::UnsupportedModifier(m) => {
                push_str(&mut out, "unsupported modifier ");
                push_str(&mut out, m.as_str());
            },
            ShortcutError::DuplicateModifier => push_str(&mut out, "duplicate modifier"),
            ShortcutError::ReservedKey => push_str(
                &mut out,
                "Escape and Tab are reserved for navigation",
            ),
            ShortcutError::UnsupportedKey(k) => {
                push_str(&mut out, "unsupported key ");
                push_str(&mut out, k.as_str());
            },
            ShortcutError::BareKey => push_str(
                &mut out,
                "bare keys are reserved for typing; add a modifier or use a function key",
            ),
        }
        string_of(&out)
    }
}

/// Which of Ctrl, Shift, Alt and Meta an accelerator holds.
#[derive(Clone, Copy)]
pub struct ModSet {
    pub ctrl: bool,
    pub shift: bool,
    pub alt: bool,
    pub meta: bool,
}

impl ModSet {
    pub open spec fn has(self, m: int) -> bool {
        if m == 0 {
            self.ctrl
        } else if m == 1 {
            self.shift
        } else if m == 2 {
            self.alt
        } else {
            self.meta
        }
    }

    pub open spec fn with(self, m: int) -> ModSet {
        if m == 0 {
            ModSet { ctrl: true, ..self }
        } else if m == 1 {
            ModSet { shift: true, ..self }
        } else if m == 2 {
            ModSet { alt: true, ..self }
        } else {
            ModSet { meta: true, ..self }
        }
    }

    pub open spec fn none() -> ModSet {
        ModSet { ctrl: false, shift: false, alt: false, meta: false }
    }
}

/// The modifier that a spelling names: 0 Ctrl, 1 Shift, 2 Alt, 3 Meta.
pub open spec fn modifier_of(p: Seq<char>) -> Option<int> {
    let l = lower(p);
    if l == "control"@ || l == "ctrl"@ || l == "primary"@ {
        Some(0)
    } else if l == "shift"@ {
        Some(1)
    } else if l == "alt"@ || l == "mod1"@ {
        Some(2)
    } else if l == "super"@ || l == "meta"@ {
        Some(3)
    } else {
        None
    }
}

/// Leading `<modifier>` groups of an accelerator, and the rest.
pub open spec fn angle_mods(s: Seq<char>) -> Option<(Seq<Seq<char>>, Seq<char>)>
    decreases s.len(),
{
    if s.len() > 0 && s[0] == '<' {
        let inner = s.drop_first();
        let k = find_char(inner, '>');
        if 0 <= k < inner.len() {
            match angle_mods(inner.skip(k + 1)) {
                Some((mods, tail)) => Some((seq![inner.take(k)] + mods, tail)),
                None => None,
            }
        } else {
            None
        }
    } else {
        Some((seq![], s))
    }
}

/// The modifiers named by `parts`, refusing unknown or repeated ones.
pub open spec fn fold_mods(parts: Seq<Seq<char>>, seen: ModSet) -> Result<ModSet, ShortcutFault>
    decreases parts.len(),
{
    if parts.len() == 0 {
        Ok(seen)
    } else {
        match modifier_of(parts[0]) {
            None => Err(ShortcutFault::UnsupportedModifier(parts[0])),
            Some(m) => if seen.has(m) {
                Err(ShortcutFault::DuplicateModifier)
            } else {
                fold_mods(parts.drop_first(), seen.with(m))
            },
        }
    }
}

pub open spec fn key_char_ok(c: char) -> bool {
    ('a' <= c <= 'z') || ('A' <= c <= 'Z') || ('0' <= c <= '9') || c == ',' || c == '.' || c
        == ';' || c == '/' || c == '[' || c == ']' || c == '\'' || c == '=' || c == '-' || c
        == '`'
}

/// The canonical name of a key.
pub open spec fn key_name(key: Seq<char>) -> Result<Seq<char>, ShortcutFault> {
    let l = lower(key);
    if l == "return"@ || l == "enter"@ || l == "kp_enter"@ {
        Ok("Return"@)
    } else if l == "up"@ {
        Ok("Up"@)
    } else if l == "down"@ {
        Ok("Down"@)
    } else if l == "left"@ {
        Ok("Left"@)
    } else if l == "right"@ {
        Ok("Right"@)
    } else if l == "home"@ {
        Ok("Home"@)
    } else if l == "end"@ {
        Ok("End"@)
    } else if l == "page_up"@ || l == "pageup"@ || l == "pgup"@ {
        Ok("PgUp"@)
    } else if l == "page_down"@ || l == "pagedown"@ || l == "pgdown"@ {
        Ok("PgDown"@)
    } else if l == "backspace"@ {
        Ok("Backspace"@)
    } else if l == "delete"@ {
        Ok("Delete"@)
    } else if l == "space"@ {
        Ok("Space"@)
    } else if l == "escape"@ || l == "tab"@ || l == "iso_left_tab"@ {
        Err(ShortcutFault::ReservedKey)
    } else if l.len() > 0 && l[0] == 'f' && (match parse_u8(l.drop_first()) {
        Some(n) => 1 <= n <= 35,
        None => false,
    }) {
        Ok(upper(l))
    } else if key.len() == 1 && key_char_ok(key[0]) {
        Ok(upper(key))
    } else {
        Err(ShortcutFault::UnsupportedKey(key))
    }
}

/// A function key name such as `F5`.
pub open spec fn is_function(name: Seq<char>) -> bool {
    name.len() > 0 && name[0] == 'F' && parse_u8(name.drop_first()) is Some
}

/// The canonical spelling: modifiers in the order Ctrl, Shift, Alt, Meta, then the key.
pub open spec fn joined(mods: ModSet, name: Seq<char>) -> Seq<char> {
    (if mods.ctrl {
        "Ctrl+"@
    } else {
        seq![]
    }) + (if mods.shift {
        "Shift+"@
    } else {
        seq![]
    }) + (if mods.alt {
        "Alt+"@
    } else {
        seq![]
    }) + (if mods.meta {
        "Meta+"@
    } else {
        seq![]
    }) + name
}

/// What an accelerator spelling means: its canonical form, or why it is refused.
pub open spec fn accelerator_spec(text: Seq<char>) -> Result<Seq<char>, ShortcutFault> {
    match angle_mods(text) {
        None => Err(ShortcutFault::UnclosedModifier),
        Some((angle, tail)) => {
            let parts = angle + split_on(tail, '+');
            match fold_mods(parts.drop_last(), ModSet::none()) {
                Err(e) => Err(e),
                Ok(mods) => match key_name(parts.last()) {
                    Err(e) => Err(e),
                    Ok(name) => if (mods == ModSet::none() && !is_function(name)) || (mods
                        == ModSet::none().with(1) && name != "Return"@) {
                        Err(ShortcutFault::BareKey)
                    } else {
                        Ok(joined(mods, name))
                    },
                },
            }
        },
    }
}

fn angle_mods_from(t: &Vec<char>, p: usize) -> (r: Option<(Vec<Vec<char>>, usize)>)
    requires
        p <= t.len(),
    ensures
        match r {
            None => angle_mods(t@.skip(p as int)) is None,
            Some((mods, q)) => q <= t.len() && angle_mods(t@.skip(p as int)) == Some(
                (views(mods@), t@.skip(q as int)),
            ),
        },
    decreases t.len() - p,
{
    let ghost s = t@.skip(p as int);
    if p < t.len() && t[p] == '<' {
        let k = find_from(t, p + 1, '>');
        let ghost inner = s.drop_first();
        assert(inner =~= t@.skip(p + 1));
        proof {
            lemma_find_char(inner, '>');
        }
        if k == t.len() {
            return None;
        }
        assert(inner.skip(k - p) =~= t@.skip(k + 1));
        assert(inner.take(k - p - 1) =~= t@.subrange(p + 1, k as int));
        match angle_mods_from(t, k + 1) {
            None => None,
            Some((mut mods, q)) => {
                let ghost rest = views(mods@);
                mods.insert(0, slice_chars(t, p + 1, k));
                assert(views(mods@) =~= seq![inner.take(k - p - 1)] + rest);
                Some((mods, q))
            },
        }
    } else {
        Some((Vec::new(), p))
    }
}

/// The modifier a lowercase spelling names.
fn modifier_index(p: &Vec<char>) -> (r: Option<u8>)
    ensures
        match r {
            Some(m) => modifier_of(p@) == Some(m as int),
            None => modifier_of(p@) is None,
        },
{
    let l = lower_chars(p);
    if chars_are(&l, "control") || chars_are(&l, "ctrl") || chars_are(&l, "primary") {
        Some(0)
    } else if chars_are(&l, "shift") {
        Some(1)
    } else if chars_are(&l, "alt") || chars_are(&l, "mod1") {
        Some(2)
    } else if chars_are(&l, "super") || chars_are(&l, "meta") {
        Some(3)
    } else {
        None
    }
}

fn key_name_of(key: &Vec<char>) -> (r: Result<Vec<char>, ShortcutError>)
    ensures
        match r {
            Ok(name) => key_name(key@) == Ok::<Seq<char>, ShortcutFault>(name@),
            Err(e) => key_name(key@) == Err::<Seq<char>, ShortcutFault>(e@),
        },
{
    let l = lower_chars(key);
    if chars_are(&l, "return") || chars_are(&l, "enter") || chars_are(&l, "kp_enter") {
        Ok(chars_of("Return"))
    } else if chars_are(&l, "up") {
        Ok(chars_of("Up"))
    } else if chars_are(&l, "down") {
        Ok(chars_of("Down"))
    } else if chars_are(&l, "left") {
        Ok(chars_of("Left"))
    } else if chars_are(&l, "right") {
        Ok(chars_of("Right"))
    } else if chars_are(&l, "home") {
        Ok(chars_of("Home"))
    } else if chars_are(&l, "end") {
        Ok(chars_of("End"))
    } else if chars_are(&l, "page_up") || chars_are(&l, "pageup") || chars_are(&l, "pgup") {
        Ok(chars_of("PgUp"))
    } else if chars_are(&l, "page_down") || chars_are(&l, "pagedown") || chars_are(
        &l,
        "pgdown",
    ) {
        Ok(chars_of("PgDown"))
    } else if chars_are(&l, "backspace") {
        Ok(chars_of("Backspace"))
    } else if chars_are(&l, "delete") {
        Ok(chars_of("Delete"))
    } else if chars_are(&l, "space") {
        Ok(chars_of("Space"))
    } else if chars_are(&l, "escape") || chars_are(&l, "tab") || chars_are(&l, "iso_left_tab") {
        Err(ShortcutError::ReservedKey)
    } else if l.len() > 0 && l[0] == 'f' && (match parse_u8_from(&l, 1) {
        Some(n) => 1 <= n && n <= 35,
        None => false,
    }) {
        assert(l@.skip(1) =~= l@.drop_first());
        Ok(upper_chars(&l))
    } else if key.len() == 1 && {
        let c = key[0];
        ('a' <= c && c <= 'z') || ('A' <= c && c <= 'Z') || ('0' <= c && c <= '9') || c == ','
            || c == '.' || c == ';' || c == '/' || c == '[' || c == ']' || c == '\'' || c == '='
            || c == '-' || c == '`'
    } {
        Ok(upper_chars(key))
    } else {
        proof {
            if l.len() > 0 && l[0] == 'f' {
                assert(l@.skip(1) =~= l@.drop_first());
            }
        }
        Err(ShortcutError::UnsupportedKey(string_of(key)))
    }
}

/// Reads an accelerator in either the Qt spelling (`Ctrl+Shift+S`) or the GTK
/// spelling (`<Control><Shift>s`) and returns its canonical Qt form.
#[verifier::loop_isolation(false)]
pub fn accelerator(text: &str) -> (r: Result<String, ShortcutError>)
    ensures
        match r {
            Ok(s) => accelerator_spec(text@) == Ok::<Seq<char>, ShortcutFault>(s@),
            Err(e) => accelerator_spec(text@) == Err::<Seq<char>, ShortcutFault>(e@),
        },
{
    let t = chars_of(text);
    assert(t@.skip(0) =~= t@);
    let (mut parts, q) = match angle_mods_from(&t, 0) {
        None => return Err(ShortcutError::UnclosedModifier),
        Some(x) => x,
    };
    let mut rest = split_from(&t, q, '+');
    let ghost angle = views(parts@);
    let ghost pieces = views(rest@);
    parts.append(&mut rest);
    let ghost all = views(parts@);
    assert(all =~= angle + pieces);
    proof {
        assert(pieces.len() > 0) by {
            lemma_split_nonempty(t@.skip(q as int), '+');
        }
    }
    let key = match parts.pop() {
        Some(k) => k,
        None => return Err(ShortcutError::BareKey),
    };
    assert(views(parts@) =~= all.drop_last());
    assert(key@ == all.last());
    let mut mods = ModSet { ctrl: false, shift: false, alt: false, meta: false };
    let ghost head = all.drop_last();
    let mut i: usize = 0;
    assert(head.skip(0) =~= head);
    while i < parts.len()
        invariant
            i <= parts.len(),
            head == views(parts@),
            fold_mods(head, ModSet::none()) == fold_mods(head.skip(i as int), mods),
        decreases parts.len() - i,
    {
        let ghost here = head.skip(i as int);
        assert(here[0] == parts@[i as int]@);
        assert(here.drop_first() =~= head.skip(i + 1));
        match modifier_index(&parts[i]) {
            None => {
                return Err(ShortcutError::UnsupportedModifier(string_of(&parts[i])));
            },
            Some(m) => {
                let dup = if m == 0 {
                    mods.ctrl
                } else if m == 1 {
                    mods.shift
                } else if m == 2 {
                    mods.alt
                } else {
                    mods.meta
                };
                if dup {
                    return Err(ShortcutError::DuplicateModifier);
                }
                if m == 0 {
                    mods.ctrl = true;
                } else if m == 1 {
                    mods.shift = true;
                } else if m == 2 {
                    mods.alt = true;
                } else {
                    mods.meta = true;
                }
            },
        }
        i = i + 1;
    }
    assert(head.skip(i as int) =~= Seq::<Seq<char>>::empty());
    let name = match key_name_of(&key) {
        Ok(n) => n,
        Err(e) => return Err(e),
    };
    let function = name.len() > 0 && name[0] == 'F' && parse_u8_from(&name, 1).is_some();
    proof {
        if name.len() > 0 {
            assert(name@.skip(1) =~= name@.drop_first());
        }
    }
    let none = !mods.ctrl && !mods.shift && !mods.alt && !mods.meta;
    let shift_only = !mods.ctrl && mods.shift && !mods.alt && !mods.meta;
    if (none && !function) || (shift_only && !chars_are(&name, "Return")) {
        return Err(ShortcutError::BareKey);
    }
    let mut out: Vec<char> = Vec::new();
    if mods.ctrl {
        push_str(&mut out, "Ctrl+");
    }
    if mods.shift {
        push_str(&mut out, "Shift+");
    }
    if mods.alt {
        push_str(&mut out, "Alt+");
    }
    if mods.meta {
        push_str(&mut out, "Meta+");
    }
    push_chars(&mut out, &name);
    assert(out@ =~= joined(mods, name@));
    Ok(string_of(&out))
}

pub proof fn lemma_split_nonempty(s: Seq<char>, c: char)
    ensures
        split_on(s, c).len() > 0,
    decreases s.len(),
{
    let k = find_char(s, c);
    if 0 <= k < s.len() {
        lemma_split_nonempty(s.skip(k + 1), c);
    }
}

} // verus!

//! The keyboard configuration: default bindings and the overrides that a
//! `[keys]` table may give.
use vstd::prelude::*;
use crate::shortcuts::{ShortcutError, ShortcutFault, accelerator, accelerator_spec};
use crate::text::{push_str, string_of};
use crate::value::{Node, find_field, lookup};

verus! {

/// An action and the accelerators bound to it, as values of the specification.
pub type BindingsView = Seq<(Seq<char>, Seq<Seq<char>>)>;

/// Why a keyboard configuration is refused, as a value of the specification.
pub enum BindingFault {
    UnknownSetting(Seq<char>),
    KeysNotTable,
    UnknownAction(Seq<char>),
    NotArray,
    NotString,
    Shortcut(ShortcutFault),
    Duplicate(Seq<char>, Seq<char>, Seq<char>),
}

/// Why a keyboard configuration is refused.
#[derive(Debug)]
pub enum BindingError {
    /// A top-level setting other than `keys`.
    UnknownSetting(String),
    /// `keys` is not a table.
    KeysNotTable,
    /// An action that does not exist.
    UnknownAction(String),
    /// An action bound to something other than an array.
    NotArray,
    /// An array holding something other than strings.
    NotString,
    /// A refused accelerator.
    Shortcut(ShortcutError),
    /// One accelerator bound twice: the accelerator, the first action, the second.
    Duplicate(String, String, String),
}

impl View for BindingError {
    type V = BindingFault;

    open spec fn view(&self) -> BindingFault {
        match self {
            BindingError::UnknownSetting(n) => BindingFault::UnknownSetting(n@),
            BindingError::KeysNotTable => BindingFault::KeysNotTable,
            BindingError::UnknownAction(a) => BindingFault::UnknownAction(a@),
            BindingError::NotArray => BindingFault::NotArray,
            BindingError::NotString => BindingFault::NotString,
            BindingError::Shortcut(e) => BindingFault::Shortcut(e@),
            BindingError::Duplicate(k, a, b) => BindingFault::Duplicate(k@, a@, b@),
        }
    }
}

pub open spec fn binding_message(f: BindingFault) -> Seq<char> {
    match f {
        BindingFault::UnknownSetting(n) => "unknown setting "@ + n,
        BindingFault::KeysNotTable => "keys must be a table"@,
        BindingFault::UnknownAction(a) => "unknown keyboard action "@ + a,
        BindingFault::NotArray => "bindings must be arrays"@,
        BindingFault::NotString => "bindings must contain strings"@,
        BindingFault::Shortcut(e) => crate::shortcuts::shortcut_message(e),
        BindingFault::Duplicate(k, a, b) => "duplicate binding "@ + k + " for "@ + a + " and "@ + b,
    }
}

impl BindingError {
    /// The text that explains the refusal.
    pub fn message(&self) -> (r: String)
        ensures
            r@ == binding_message(self@),
    {
        let mut out: Vec<char> = Vec::new();
        match self {
            BindingError::UnknownSetting(n) => {
                push_str(&mut out, "unknown setting ");
                push_str(&mut out, n.as_str());
            },
            BindingError::KeysNotTable => push_str(&mut out, "keys must be a table"),
            BindingError::UnknownAction(a) => {
                push_str(&mut out, "unknown keyboard action ");
                push_str(&mut out, a.as_str());
            },
            BindingError::NotArray => push_str(&mut out, "bindings must be arrays"),
            BindingError::NotString => push_str(&mut out, "bindings must contain strings"),
            BindingError::Shortcut(e) => {
                let m = e.message();
                push_str(&mut out, m.as_str());
            },
            BindingError::Duplicate(k, a, b) => {
                push_str(&mut out, "duplicate binding ");
                push_str(&mut out, k.as_str());
                push_str(&mut out, " for ");
                push_str(&mut out, a.as_str());
                push_str(&mut out, " and ");
                push_str(&mut out, b.as_str());
            },
        }
        assert(out@ =~= binding_message(self@));
        string_of(&out)
    }
}

pub open spec fn bindings_view(b: Seq<(String, Vec<String>)>) -> BindingsView {
    b.map_values(|p: (String, Vec<String>)| (p.0@, p.1@.map_values(|s: String| s@)))
}

/// The bindings used when the configuration sets nothing, ordered by action name.
pub open spec fn default_bindings() -> BindingsView {
    seq![
        ("add_section"@, seq!["Ctrl+Shift+S"@]),
        ("clip"@, seq!["Ctrl+Shift+C"@]),
        ("cycle_opacity"@, seq!["Ctrl+Shift+O"@]),
        ("delete_note"@, seq!["Ctrl+Delete"@]),
        ("end_session"@, seq!["Ctrl+Shift+W"@]),
        ("expand_note"@, seq!["Shift+Alt+Return"@]),
        ("focus_note"@, seq!["Ctrl+N"@]),
        ("help"@, seq!["Ctrl+H"@, "F1"@]),
        ("minimize"@, seq!["Ctrl+M"@]),
        ("new_project"@, seq!["Ctrl+Shift+N"@]),
        ("next_entry"@, seq!["Alt+Down"@]),
        ("open_folder"@, seq!["Ctrl+O"@]),
        ("preview"@, seq!["Alt+Return"@]),
        ("previous_entry"@, seq!["Alt+Up"@]),
        ("projects"@, seq!["Ctrl+P"@]),
        ("save_note"@, seq!["Ctrl+Return"@, "Ctrl+S"@]),
        ("search"@, seq!["Ctrl+F"@]),
        ("toggle_ai"@, seq!["Ctrl+Shift+A"@]),
    ]
}

/// The first top-level setting that is not `keys`.
pub open spec fn first_unknown_setting(root: Seq<(String, Node)>) -> Option<Seq<char>>
    decreases root.len(),
{
    if root.len() == 0 {
        None
    } else if root[0].0@ != "keys"@ {
        Some(root[0].0@)
    } else {
        first_unknown_setting(root.drop_first())
    }
}

/// Index of action `a`, or the number of actions.
pub open spec fn action_index(b: BindingsView, a: Seq<char>) -> int
    decreases b.len(),
{
    if b.len() == 0 {
        0
    } else if b[0].0 == a {
        0
    } else {
        1 + action_index(b.drop_first(), a)
    }
}

/// The accelerators of an array, in canonical form.
pub open spec fn convert_items(items: Seq<Node>) -> Result<Seq<Seq<char>>, BindingFault>
    decreases items.len(),
{
    if items.len() == 0 {
        Ok(seq![])
    } else {
        match items[0] {
            Node::Str(s) => match accelerator_spec(s@) {
                Err(e) => Err(BindingFault::Shortcut(e)),
                Ok(k) => match convert_items(items.drop_first()) {
                    Ok(rest) => Ok(seq![k] + rest),
                    Err(e) => Err(e),
                },
            },
            _ => Err(BindingFault::NotString),
        }
    }
}

/// The bindings after the overrides of a `[keys]` table, in table order.
pub open spec fn apply_overrides(b: BindingsView, fields: Seq<(String, Node)>) -> Result<
    BindingsView,
    BindingFault,
>
    decreases fields.len(),
{
    if fields.len() == 0 {
        Ok(b)
    } else {
        let a = fields[0].0@;
        let i = action_index(b, a);
        if !(0 <= i < b.len()) {
            Err(BindingFault::UnknownAction(a))
        } else {
            match fields[0].1 {
                Node::Array(items) => match convert_items(items@) {
                    Err(e) => Err(e),
                    Ok(vals) => apply_overrides(b.update(i, (a, vals)), fields.drop_first()),
                },
                _ => Err(BindingFault::NotArray),
            }
        }
    }
}

/// Every (accelerator, action) pair, action by action.
pub open spec fn flat(b: BindingsView) -> Seq<(Seq<char>, Seq<char>)>
    decreases b.len(),
{
    if b.len() == 0 {
        seq![]
    } else {
        flat(b.drop_last()) + b.last().1.map_values(|k: Seq<char>| (k, b.last().0))
    }
}

/// Index of the first pair for accelerator `k`, or the number of pairs.
pub open spec fn key_pos(s: Seq<(Seq<char>, Seq<char>)>, k: Seq<char>) -> int
    decreases s.len(),
{
    if s.len() == 0 {
        0
    } else if s[0].0 == k {
        0
    } else {
        1 + key_pos(s.drop_first(), k)
    }
}

/// The first accelerator that repeats: (accelerator, earlier action, later action).
pub open spec fn first_duplicate(f: Seq<(Seq<char>, Seq<char>)>) -> Option<
    (Seq<char>, Seq<char>, Seq<char>),
>
    decreases f.len(),
{
    if f.len() == 0 {
        None
    } else {
        match first_duplicate(f.drop_last()) {
            Some(d) => Some(d),
            None => {
                let x = f.last();
                let p = key_pos(f.drop_last(), x.0);
                if 0 <= p < f.len() - 1 {
                    Some((x.0, f[p].1, x.1))
                } else {
                    None
                }
            },
        }
    }
}

/// What a keyboard configuration table means.
pub open spec fn bindings_spec(root: Seq<(String, Node)>) -> Result<BindingsView, BindingFault> {
    match first_unknown_setting(root) {
        Some(n) => Err(BindingFault::UnknownSetting(n)),
        None => {
            let applied = match lookup(root, "keys"@) {
                None => Ok(default_bindings()),
                Some(Node::Object(kf)) => apply_overrides(default_bindings(), kf@),
                Some(_) => Err(BindingFault::KeysNotTable),
            };
            match applied {
                Err(e) => Err(e),
                Ok(b) => match first_duplicate(flat(b)) {
                    Some((k, a1, a2)) => Err(BindingFault::Duplicate(k, a1, a2)),
                    None => Ok(b),
                },
            }
        },
    }
}

fn binding(action: &str, keys: &[&str]) -> (r: (String, Vec<String>))
    ensures
        r.0@ == action@,
        r.1@.len() == keys@.len(),
        forall|i: int| 0 <= i < keys@.len() ==> r.1@[i]@ == keys@[i]@,
{
    let mut v: Vec<String> = Vec::new();
    let mut i: usize = 0;
    while i < keys.len()
        invariant
            i <= keys@.len(),
            v@.len() == i,
            forall|j: int| 0 <= j < i ==> v@[j]@ == keys@[j]@,
        decreases keys@.len() - i,
    {
        v.push(String::from_str(keys[i]));
        i = i + 1;
    }
    (String::from_str(action), v)
}

/// The default bindings, ordered by action name.
pub fn defaults() -> (r: Vec<(String, Vec<String>)>)
    ensures
        bindings_view(r@) == default_bindings(),
{
    let mut b: Vec<(String, Vec<String>)> = Vec::new();
    b.push(binding("add_section", &["Ctrl+Shift+S"]));
    b.push(binding("clip", &["Ctrl+Shift+C"]));
    b.push(binding("cycle_opacity", &["Ctrl+Shift+O"]));
    b.push(binding("delete_note", &["Ctrl+Delete"]));
    b.push(binding("end_session", &["Ctrl+Shift+W"]));
    b.push(binding("expand_note", &["Shift+Alt+Return"]));
    b.push(binding("focus_note", &["Ctrl+N"]));
    b.push(binding("help", &["Ctrl+H", "F1"]));
    b.push(binding("minimize", &["Ctrl+M"]));
    b.push(binding("new_project", &["Ctrl+Shift+N"]));
    b.push(binding("next_entry", &["Alt+Down"]));
    b.push(binding("open_folder", &["Ctrl+O"]));
    b.push(binding("preview", &["Alt+Return"]));
    b.push(binding("previous_entry", &["Alt+Up"]));
    b.push(binding("projects", &["Ctrl+P"]));
    b.push(binding("save_note", &["Ctrl+Return", "Ctrl+S"]));
    b.push(binding("search", &["Ctrl+F"]));
    b.push(binding("toggle_ai", &["Ctrl+Shift+A"]));
    assert(bindings_view(b@) =~= default_bindings()) by {
        assert forall|i: int| 0 <= i < 18 implies #[trigger] bindings_view(b@)[i]
            == default_bindings()[i] by {
            assert(bindings_view(b@)[i].1 =~= default_bindings()[i].1);
        }
    }
    b
}


pub open spec fn pair_views(u: Seq<(String, String)>) -> Seq<(Seq<char>, Seq<char>)> {
    u.map_values(|p: (String, String)| (p.0@, p.1@))
}

fn action_position(b: &Vec<(String, Vec<String>)>, a: &String) -> (r: usize)
    ensures
        r as int == action_index(bindings_view(b@), a@),
        r <= b.len(),
{
    let ghost bv = bindings_view(b@);
    let mut i: usize = 0;
    assert(bv.skip(0) =~= bv);
    while i < b.len()
        invariant
            i <= b.len() == bv.len(),
            bv == bindings_view(b@),
            action_index(bv, a@) == i + action_index(bv.skip(i as int), a@),
        decreases b.len() - i,
    {
        assert(bv.skip(i as int)[0] == bv[i as int]);
        if b[i].0 == *a {
            return i;
        }
        assert(bv.skip(i as int).drop_first() =~= bv.skip(i + 1));
        i = i + 1;
    }
    i
}

fn convert_array(items: &Vec<Node>) -> (r: Result<Vec<String>, BindingError>)
    ensures
        match r {
            Ok(v) => convert_items(items@) == Ok::<Seq<Seq<char>>, BindingFault>(
                v@.map_values(|s: String| s@),
            ),
            Err(e) => convert_items(items@) == Err::<Seq<Seq<char>>, BindingFault>(e@),
        },
{
    let mut out: Vec<String> = Vec::new();
    let mut j: usize = 0;
    assert(items@.skip(0) =~= items@);
    while j < items.len()
        invariant
            j <= items.len(),
            convert_items(items@) == (match convert_items(items@.skip(j as int)) {
                Ok(rest) => Ok(out@.map_values(|s: String| s@) + rest),
                Err(e) => Err::<Seq<Seq<char>>, BindingFault>(e),
            }),
        decreases items.len() - j,
    {
        let ghost here = items@.skip(j as int);
        assert(here[0] == items@[j as int]);
        assert(here.drop_first() =~= items@.skip(j + 1));
        match &items[j] {
            Node::Str(s) => match accelerator(s.as_str()) {
                Ok(k) => {
                    let ghost before = out@.map_values(|s: String| s@);
                    out.push(k);
                    proof {
                        let after = out@.map_values(|s: String| s@);
                        assert(after =~= before.push(k@));
                        match convert_items(items@.skip(j + 1)) {
                            Ok(rest) => {
                                assert(before + (seq![k@] + rest) =~= after + rest);
                            },
                            Err(_) => {},
                        }
                    }
                },
                Err(e) => return Err(BindingError::Shortcut(e)),
            },
            _ => return Err(BindingError::NotString),
        }
        j = j + 1;
    }
    assert(items@.skip(j as int) =~= Seq::<Node>::empty());
    assert(out@.map_values(|s: String| s@) + seq![] =~= out@.map_values(|s: String| s@));
    Ok(out)
}

fn overrides(b: &mut Vec<(String, Vec<String>)>, fields: &Vec<(String, Node)>) -> (r: Result<
    (),
    BindingError,
>)
    ensures
        match r {
            Ok(_) => apply_overrides(bindings_view(old(b)@), fields@) == Ok::<
                BindingsView,
                BindingFault,
            >(bindings_view(final(b)@)),
            Err(e) => apply_overrides(bindings_view(old(b)@), fields@) == Err::<
                BindingsView,
                BindingFault,
            >(e@),
        },
{
    let ghost goal = apply_overrides(bindings_view(b@), fields@);
    let mut i: usize = 0;
    assert(fields@.skip(0) =~= fields@);
    while i < fields.len()
        invariant
            i <= fields.len(),
            goal == apply_overrides(bindings_view(old(b)@), fields@),
            goal == apply_overrides(bindings_view(b@), fields@.skip(i as int)),
        decreases fields.len() - i,
    {
        let ghost here = fields@.skip(i as int);
        assert(here[0] == fields@[i as int]);
        assert(here.drop_first() =~= fields@.skip(i + 1));
        let action = &fields[i].0;
        let idx = action_position(b, action);
        if idx == b.len() {
            return Err(BindingError::UnknownAction(action.clone()));
        }
        match &fields[i].1 {
            Node::Array(items) => {
                let vals = match convert_array(items) {
                    Ok(v) => v,
                    Err(e) => return Err(e),
                };
                let ghost before = bindings_view(b@);
                b.set(idx, (action.clone(), vals));
                assert(bindings_view(b@) =~= before.update(
                    idx as int,
                    (action@, vals@.map_values(|s: String| s@)),
                ));
            },
            _ => return Err(BindingError::NotArray),
        }
        i = i + 1;
    }
    assert(fields@.skip(i as int) =~= Seq::<(String, Node)>::empty());
    Ok(())
}

pub proof fn lemma_duplicate_extends(f: Seq<(Seq<char>, Seq<char>)>, g: Seq<(Seq<char>, Seq<char>)>)
    requires
        first_duplicate(f) is Some,
    ensures
        first_duplicate(f + g) == first_duplicate(f),
    decreases g.len(),
{
    if g.len() > 0 {
        lemma_duplicate_extends(f, g.drop_last());
        assert((f + g).drop_last() =~= f + g.drop_last());
    } else {
        assert(f + g =~= f);
    }
}

fn used_position(used: &Vec<(String, String)>, k: &String) -> (r: usize)
    ensures
        r as int == key_pos(pair_views(used@), k@),
        r <= used.len(),
{
    let ghost u = pair_views(used@);
    let mut i: usize = 0;
    assert(u.skip(0) =~= u);
    while i < used.len()
        invariant
            i <= used.len() == u.len(),
            u == pair_views(used@),
            key_pos(u, k@) == i + key_pos(u.skip(i as int), k@),
        decreases used.len() - i,
    {
        assert(u.skip(i as int)[0] == u[i as int]);
        if used[i].0 == *k {
            return i;
        }
        assert(u.skip(i as int).drop_first() =~= u.skip(i + 1));
        i = i + 1;
    }
    i
}

proof fn lemma_key_pos_bound(s: Seq<(Seq<char>, Seq<char>)>, k: Seq<char>)
    ensures
        0 <= key_pos(s, k) <= s.len(),
        key_pos(s, k) < s.len() ==> s[key_pos(s, k)].0 == k,
    decreases s.len(),
{
    if s.len() > 0 && s[0].0 != k {
        lemma_key_pos_bound(s.drop_first(), k);
        if key_pos(s, k) < s.len() {
            assert(s[key_pos(s, k)] == s.drop_first()[key_pos(s, k) - 1]);
        }
    }
}

/// Finds the first accelerator bound twice.
fn check_duplicates(b: &Vec<(String, Vec<String>)>) -> (r: Result<(), BindingError>)
    ensures
        match r {
            Ok(_) => first_duplicate(flat(bindings_view(b@))) is None,
            Err(e) => match first_duplicate(flat(bindings_view(b@))) {
                Some((k, a1, a2)) => e@ == BindingFault::Duplicate(k, a1, a2),
                None => false,
            },
        },
{
    let ghost bv = bindings_view(b@);
    let mut used: Vec<(String, String)> = Vec::new();
    let mut i: usize = 0;
    assert(bv.take(0) =~= Seq::<(Seq<char>, Seq<Seq<char>>)>::empty());
    assert(pair_views(used@) =~= flat(bv.take(0)));
    while i < b.len()
        invariant
            i <= b.len() == bv.len(),
            bv == bindings_view(b@),
            pair_views(used@) == flat(bv.take(i as int)),
            first_duplicate(pair_views(used@)) is None,
        decreases b.len() - i,
    {
        let action = &b[i].0;
        let keys = &b[i].1;
        let ghost start = pair_views(used@);
        let ghost entry = bv[i as int];
        assert(entry.0 == action@);
        assert(entry.1 =~= keys@.map_values(|s: String| s@));
        let mut j: usize = 0;
        assert(entry.1.take(0).map_values(|k: Seq<char>| (k, entry.0)) =~= Seq::<
            (Seq<char>, Seq<char>),
        >::empty());
        while j < keys.len()
            invariant
                i < b.len() == bv.len(),
                bv == bindings_view(b@),
                entry == bv[i as int],
                entry.0 == action@,
                entry.1 == keys@.map_values(|s: String| s@),
                j <= keys.len(),
                start == flat(bv.take(i as int)),
                pair_views(used@) == start + entry.1.take(j as int).map_values(
                    |k: Seq<char>| (k, entry.0),
                ),
                first_duplicate(pair_views(used@)) is None,
            decreases keys.len() - j,
        {
            let key = &keys[j];
            let p = used_position(&used, key);
            let ghost u = pair_views(used@);
            let ghost x = (key@, action@);
            proof {
                lemma_key_pos_bound(u, key@);
                assert(u.push(x).drop_last() =~= u);
            }
            let ghost tail = entry.1.take(j + 1).map_values(|k: Seq<char>| (k, entry.0));
            assert(tail =~= entry.1.take(j as int).map_values(|k: Seq<char>| (k, entry.0)).push(
                x,
            ));
            assert(u.push(x) =~= start + tail);
            if p < used.len() {
                proof {
                    assert(first_duplicate(u.push(x)) == Some((key@, u[p as int].1, action@)));
                    let rest_of_entry = entry.1.skip(j + 1).map_values(
                        |k: Seq<char>| (k, entry.0),
                    );
                    let later = flat(bv);
                    assert(bv.take(i + 1).drop_last() =~= bv.take(i as int));
                    lemma_flat_take(bv, i + 1);
                    assert(entry.1 =~= entry.1.take(j + 1) + entry.1.skip(j + 1));
                    assert(flat(bv.take(i + 1)) =~= u.push(x) + rest_of_entry);
                    lemma_duplicate_extends(u.push(x), rest_of_entry);
                    lemma_flat_prefix(bv, i + 1);
                }
                return Err(
                    BindingError::Duplicate(key.clone(), used[p].1.clone(), action.clone()),
                );
            }
            used.push((key.clone(), action.clone()));
            assert(pair_views(used@) =~= u.push(x));
            j = j + 1;
        }
        proof {
            assert(entry.1.take(j as int) =~= entry.1);
            assert(bv.take(i + 1).drop_last() =~= bv.take(i as int));
            assert(bv.take(i + 1).last() == entry);
        }
        i = i + 1;
    }
    assert(bv.take(i as int) =~= bv);
    Ok(())
}

proof fn lemma_flat_take(bv: BindingsView, n: int)
    requires
        0 < n <= bv.len(),
    ensures
        flat(bv.take(n)) == flat(bv.take(n - 1)) + bv[n - 1].1.map_values(
            |k: Seq<char>| (k, bv[n - 1].0),
        ),
{
    assert(bv.take(n).drop_last() =~= bv.take(n - 1));
}

/// `flat` of a prefix is a prefix of `flat`, and a duplicate found there stays first.
proof fn lemma_flat_prefix(bv: BindingsView, n: int)
    requires
        0 <= n <= bv.len(),
        first_duplicate(flat(bv.take(n))) is Some,
    ensures
        first_duplicate(flat(bv)) == first_duplicate(flat(bv.take(n))),
    decreases bv.len() - n,
{
    if n < bv.len() {
        lemma_flat_take(bv, n + 1);
        lemma_duplicate_extends(
            flat(bv.take(n)),
            bv[n].1.map_values(|k: Seq<char>| (k, bv[n].0)),
        );
        lemma_flat_prefix(bv, n + 1);
    } else {
        assert(bv.take(n) =~= bv);
    }
}

/// Reads the keyboard configuration table: only `keys` may be set, each of its
/// entries names an action and an array of accelerators that replaces the
/// default ones (an empty array disables the action), and no accelerator may be
/// bound twice.
pub fn parse_bindings(root: &Vec<(String, Node)>) -> (r: Result<
    Vec<(String, Vec<String>)>,
    BindingError,
>)
    ensures
        match r {
            Ok(b) => bindings_spec(root@) == Ok::<BindingsView, BindingFault>(bindings_view(b@)),
            Err(e) => bindings_spec(root@) == Err::<BindingsView, BindingFault>(e@),
        },
{
    let mut i: usize = 0;
    assert(root@.skip(0) =~= root@);
    while i < root.len()
        invariant
            i <= root.len(),
            first_unknown_setting(root@) == first_unknown_setting(root@.skip(i as int)),
        decreases root.len() - i,
    {
        let ghost here = root@.skip(i as int);
        assert(here[0] == root@[i as int]);
        assert(here.drop_first() =~= root@.skip(i + 1));
        if !crate::text::str_eq(root[i].0.as_str(), "keys") {
            return Err(BindingError::UnknownSetting(root[i].0.clone()));
        }
        i = i + 1;
    }
    assert(root@.skip(i as int) =~= Seq::<(String, Node)>::empty());
    let mut b = defaults();
    match find_field(root, "keys") {
        None => {},
        Some(Node::Object(kf)) => {
            match overrides(&mut b, kf) {
                Ok(_) => {},
                Err(e) => return Err(e),
            }
        },
        Some(_) => return Err(BindingError::KeysNotTable),
    }
    match check_duplicates(&b) {
        Ok(_) => Ok(b),
        Err(e) => Err(e),
    }
}

} // verus!

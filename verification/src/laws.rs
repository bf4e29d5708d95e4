//! Properties that hold across the operations of the library.
use vstd::prelude::*;
use crate::markdown::{insert_by_id, sort_by_id, sort_key};
use crate::records::{
    has_id, id_index, ids_valid, lemma_id_index, max_id, next_id, rewritten, without_id,
};
use crate::shortcuts::{
    ModSet, ShortcutFault, accelerator_spec, angle_mods, fold_mods, joined, key_char_ok, key_name,
    modifier_of,
};
use crate::text::{find_char, lemma_find_char, lower, split_on, upper};
use crate::value::Node;

verus! {

broadcast use vstd::seq_lib::group_to_multiset_ensures;

pub open spec fn sorted_by_id(s: Seq<Node>) -> bool {
    forall|i: int, j: int| 0 <= i < j < s.len() ==> sort_key(s[i]) <= sort_key(s[j])
}

proof fn lemma_insert_by_id(x: Node, s: Seq<Node>)
    ensures
        insert_by_id(x, s).len() == s.len() + 1,
        insert_by_id(x, s).to_multiset() =~= s.to_multiset().insert(x),
        sorted_by_id(s) ==> sorted_by_id(insert_by_id(x, s)),
    decreases s.len(),
{
    let r = insert_by_id(x, s);
    if s.len() == 0 {
        assert(r =~= s.push(x));
    } else if sort_key(s.last()) <= sort_key(x) {
    } else {
        let d = s.drop_last();
        let last = s.last();
        lemma_insert_by_id(x, d);
        let r2 = insert_by_id(x, d);
        assert(s =~= d.push(last));
        assert(r =~= r2.push(last));
        if sorted_by_id(s) {
            assert(sorted_by_id(d));
            assert forall|k: int| 0 <= k < r2.len() implies sort_key(#[trigger] r2[k]) <= sort_key(
                last,
            ) by {
                assert(r2.to_multiset().count(r2[k]) > 0);
                if r2[k] != x {
                    assert(d.to_multiset().count(r2[k]) > 0);
                    assert(d.contains(r2[k]));
                    let m = choose|m: int| 0 <= m < d.len() && d[m] == r2[k];
                    assert(s[m] == d[m]);
                }
            }
        }
    }
}

/// `notes.md` lists the records in the order of their ids: the order is
/// sorted by id and holds every record exactly as often as the records do.
pub proof fn law_records_ordered_by_id(s: Seq<Node>)
    ensures
        sorted_by_id(sort_by_id(s)),
        sort_by_id(s).to_multiset() =~= s.to_multiset(),
        sort_by_id(s).len() == s.len(),
    decreases s.len(),
{
    if s.len() > 0 {
        let d = s.drop_last();
        law_records_ordered_by_id(d);
        lemma_insert_by_id(s.last(), sort_by_id(d));
        assert(s =~= d.push(s.last()));
    }
}

proof fn lemma_max_id(s: Seq<Node>)
    ensures
        forall|i: int|
            0 <= i < s.len() && (#[trigger] s[i]).int_at("id"@) is Some ==> max_id(s) is Some
                && s[i].int_at("id"@)->0 <= max_id(s)->0,
        max_id(s) is Some ==> exists|i: int|
            0 <= i < s.len() && (#[trigger] s[i]).int_at("id"@) == max_id(s),
    decreases s.len(),
{
    if s.len() > 0 {
        let d = s.drop_last();
        lemma_max_id(d);
        assert forall|i: int|
            0 <= i < s.len() && (#[trigger] s[i]).int_at("id"@) is Some implies max_id(s) is Some
                && s[i].int_at("id"@)->0 <= max_id(s)->0 by {
            if i < s.len() - 1 {
                assert(s[i] == d[i]);
            }
        }
        if max_id(s) is Some {
            if s.last().int_at("id"@) == max_id(s) {
                assert(s[s.len() - 1] == s.last());
            } else {
                let i = choose|i: int| 0 <= i < d.len() && (#[trigger] d[i]).int_at("id"@) == max_id(d);
                assert(s[i] == d[i]);
            }
        }
    }
}

/// A new record's id is larger than every id already there, so ids stay
/// unique; when every id is positive, so is the new one.
pub proof fn law_next_id_fresh(s: Seq<Node>)
    ensures
        next_id(s) is Some ==> forall|i: int|
            0 <= i < s.len() && (#[trigger] s[i]).int_at("id"@) is Some ==> s[i].int_at("id"@)->0
                < next_id(s)->0,
        next_id(s) is Some && ids_valid(s) ==> next_id(s)->0 >= 1,
{
    lemma_max_id(s);
    if next_id(s) is Some && ids_valid(s) && max_id(s) is Some {
        let i = choose|i: int| 0 <= i < s.len() && (#[trigger] s[i]).int_at("id"@) == max_id(s);
        assert(ids_valid(s));
        assert(s[i].int_at("id"@) is Some);
    }
}

proof fn lemma_without_id(s: Seq<Node>, id: i64)
    ensures
        forall|k: int|
            0 <= k < without_id(s, id).len() ==> !has_id(#[trigger] without_id(s, id)[k], id)
                && s.contains(without_id(s, id)[k]),
        forall|e: Node| s.contains(e) && !has_id(e, id) ==> #[trigger] without_id(s, id).contains(
            e,
        ),
        without_id(s, id).len() <= s.len(),
    decreases s.len(),
{
    if s.len() > 0 {
        let d = s.drop_last();
        lemma_without_id(d, id);
        let w = without_id(s, id);
        let wd = without_id(d, id);
        assert forall|k: int| 0 <= k < w.len() implies !has_id(#[trigger] w[k], id) && s.contains(
            w[k],
        ) by {
            if k < wd.len() {
                assert(w[k] == wd[k]);
                let m = choose|m: int| 0 <= m < d.len() && d[m] == wd[k];
                assert(s[m] == d[m]);
            } else {
                assert(w[k] == s.last());
                assert(s[s.len() - 1] == s.last());
            }
        }
        assert forall|e: Node| s.contains(e) && !has_id(e, id) implies #[trigger] w.contains(e) by {
            let m = choose|m: int| 0 <= m < s.len() && s[m] == e;
            if m < s.len() - 1 {
                assert(d[m] == e);
                assert(d.contains(e));
                assert(wd.contains(e));
                let q = choose|q: int| 0 <= q < wd.len() && wd[q] == e;
                if has_id(s.last(), id) {
                    assert(w == wd);
                } else {
                    assert(w == wd.push(s.last()));
                    assert(w[q] == wd[q]);
                }
            } else {
                assert(w[w.len() - 1] == e);
            }
        }
    }
}

/// Removing the records of one id keeps every other record and leaves none
/// with that id; deleting a section heading thus keeps its notes.
pub proof fn law_removal_keeps_other_records(s: Seq<Node>, id: i64)
    ensures
        forall|k: int| 0 <= k < without_id(s, id).len() ==> !has_id(#[trigger] without_id(s, id)[k], id),
        forall|e: Node| s.contains(e) && !has_id(e, id) ==> #[trigger] without_id(s, id).contains(e),
        forall|k: int| 0 <= k < without_id(s, id).len() ==> s.contains(#[trigger] without_id(s, id)[k]),
{
    lemma_without_id(s, id);
}

/// After a record is stored with `rewrite_entry`, exactly one record has its id.
pub proof fn law_rewrite_leaves_one_record(s: Seq<Node>, id: i64, r: Node)
    requires
        has_id(r, id),
    ensures
        ({
            let t = rewritten(s, id, r);
            let f = if id_index(s, id) < s.len() {
                id_index(s, id)
            } else {
                s.len() as int
            };
            &&& 0 <= f < t.len()
            &&& t[f] == r
            &&& forall|k: int| 0 <= k < t.len() ==> (has_id(#[trigger] t[k], id) <==> k == f)
        }),
{
    lemma_id_index(s, id);
    let f = id_index(s, id);
    let t = rewritten(s, id, r);
    if f < s.len() {
        let w = without_id(s.skip(f + 1), id);
        lemma_without_id(s.skip(f + 1), id);
        assert forall|k: int| 0 <= k < t.len() implies (has_id(#[trigger] t[k], id) <==> k == f) by {
            if k < f {
                assert(t[k] == s[k]);
            } else if k > f {
                assert(t[k] == w[k - f - 1]);
            }
        }
    } else {
        assert forall|k: int| 0 <= k < t.len() implies (has_id(#[trigger] t[k], id) <==> k
            == s.len()) by {
            if k < s.len() {
                assert(t[k] == s[k]);
            }
        }
    }
}

/// After a record is moved to the end with `move_entry_to_end`, it is the
/// only record with its id.
pub proof fn law_moved_record_is_unique(s: Seq<Node>, id: i64, r: Node)
    requires
        has_id(r, id),
    ensures
        ({
            let t = without_id(s, id).push(r);
            &&& t.last() == r
            &&& forall|k: int| 0 <= k < t.len() ==> (has_id(#[trigger] t[k], id) <==> k == t.len() - 1)
        }),
{
    lemma_without_id(s, id);
    let w = without_id(s, id);
    let t = w.push(r);
    assert forall|k: int| 0 <= k < t.len() implies (has_id(#[trigger] t[k], id) <==> k == t.len()
        - 1) by {
        if k < w.len() {
            assert(t[k] == w[k]);
        }
    }
}

} // verus!

verus! {

/// No two records share an id.
pub open spec fn ids_distinct(s: Seq<Node>) -> bool {
    forall|i: int, j: int|
        0 <= i < j < s.len() && (#[trigger] s[i]).int_at("id"@) is Some ==> s[i].int_at("id"@)
            != (#[trigger] s[j]).int_at("id"@)
}

proof fn lemma_lookup_update(
    of: Seq<(String, Node)>,
    kk: int,
    v: Node,
    k2: Seq<char>,
)
    requires
        0 <= kk < of.len(),
        of[kk].0@ != k2,
    ensures
        crate::value::lookup(of.update(kk, (of[kk].0, v)), k2) == crate::value::lookup(of, k2),
    decreases of.len(),
{
    let u = of.update(kk, (of[kk].0, v));
    if kk == 0 {
        assert(u.drop_first() =~= of.drop_first());
    } else if of[0].0@ != k2 {
        lemma_lookup_update(of.drop_first(), kk - 1, v, k2);
        assert(u.drop_first() =~= of.drop_first().update(kk - 1, (of[kk].0, v)));
    }
}

proof fn lemma_lookup_push(of: Seq<(String, Node)>, f: (String, Node), k2: Seq<char>)
    requires
        f.0@ != k2,
    ensures
        crate::value::lookup(of.push(f), k2) == crate::value::lookup(of, k2),
    decreases of.len(),
{
    if of.len() == 0 {
        assert(of.push(f).drop_first() =~= of);
    } else if of[0].0@ != k2 {
        lemma_lookup_push(of.drop_first(), f, k2);
        assert(of.push(f).drop_first() =~= of.drop_first().push(f));
    }
}

/// Setting a field other than `k2` keeps field `k2`.
proof fn lemma_field_set_keeps(old: Node, new: Node, key: Seq<char>, v: Node, k2: Seq<char>)
    requires
        crate::value::field_set(old, new, key, v),
        key != k2,
    ensures
        new.field(k2) == old.field(k2),
        new.is_object(),
{
    match old {
        Node::Object(of) => match new {
            Node::Object(nf) => {
                crate::value::lemma_key_index(of@, key);
                let k = crate::value::key_index(of@, key);
                if k < of@.len() {
                    lemma_lookup_update(of@, k, v, k2);
                } else {
                    assert(nf@ =~= of@.push(nf@.last()));
                    lemma_lookup_push(of@, nf@.last(), k2);
                }
            },
            _ => {},
        },
        _ => match new {
            Node::Object(nf) => {
                assert(nf@ =~= Seq::<(String, Node)>::empty().push(nf@.last()));
                lemma_lookup_push(Seq::<(String, Node)>::empty(), nf@.last(), k2);
            },
            _ => {},
        },
    }
}

proof fn lemma_without_id_keeps_ids(s: Seq<Node>, id: i64)
    requires
        ids_valid(s),
        ids_distinct(s),
    ensures
        ids_valid(without_id(s, id)),
        ids_distinct(without_id(s, id)),
    decreases s.len(),
{
    lemma_without_id(s, id);
    if s.len() > 0 {
        let d = s.drop_last();
        assert(ids_valid(d));
        assert(ids_distinct(d)) by {
            assert forall|i: int, j: int|
                0 <= i < j < d.len() && (#[trigger] d[i]).int_at("id"@) is Some implies d[i].int_at(
                "id"@,
            ) != (#[trigger] d[j]).int_at("id"@) by {
                assert(d[i] == s[i] && d[j] == s[j]);
            }
        }
        lemma_without_id_keeps_ids(d, id);
        lemma_without_id(d, id);
        let wd = without_id(d, id);
        let w = without_id(s, id);
        if !has_id(s.last(), id) {
            assert(w == wd.push(s.last()));
            assert forall|i: int, j: int|
                0 <= i < j < w.len() && (#[trigger] w[i]).int_at("id"@) is Some implies w[i].int_at(
                "id"@,
            ) != (#[trigger] w[j]).int_at("id"@) by {
                if j < wd.len() {
                    assert(w[i] == wd[i] && w[j] == wd[j]);
                } else {
                    assert(w[j] == s.last());
                    assert(w[i] == wd[i]);
                    assert(d.contains(wd[i]));
                    let m = choose|m: int| 0 <= m < d.len() && d[m] == wd[i];
                    assert(s[m] == d[m]);
                    assert(s[s.len() - 1] == s.last());
                }
            }
            assert forall|i: int| 0 <= i < w.len() implies (#[trigger] w[i]).is_object() && (
            match w[i].int_at("id"@) {
                Some(n) => n >= 1,
                None => false,
            }) by {
                if i < wd.len() {
                    assert(w[i] == wd[i]);
                } else {
                    assert(s[s.len() - 1] == s.last());
                }
            }
        }
    }
}

/// Every edit that the panel makes keeps the records well formed: objects
/// with positive integer ids, no two alike.
pub proof fn law_edits_keep_ids_unique(
    cmd: Seq<char>,
    req: Node,
    ts: Seq<char>,
    s: Seq<Node>,
    t: Seq<Node>,
)
    requires
        ids_valid(s),
        ids_distinct(s),
        crate::mutation::mutation_fault(cmd, req, s) is None,
        crate::mutation::mutation_done(cmd, req, ts, s, t),
    ensures
        ids_valid(t),
        ids_distinct(t),
{
    if cmd == "note"@ {
        law_next_id_fresh(s);
        let n = t.last();
        let id = next_id(s)->0;
        match n {
            Node::Object(f) => {
                assert(crate::value::lookup(f@, "id"@) == Some(Node::Int(id)));
            },
            _ => {},
        }
        assert(t =~= s.push(n));
        assert forall|i: int| 0 <= i < t.len() implies (#[trigger] t[i]).is_object() && (
        match t[i].int_at("id"@) {
            Some(m) => m >= 1,
            None => false,
        }) by {
            if i < s.len() {
                assert(t[i] == s[i]);
            }
        }
        assert forall|i: int, j: int|
            0 <= i < j < t.len() && (#[trigger] t[i]).int_at("id"@) is Some implies t[i].int_at(
            "id"@,
        ) != (#[trigger] t[j]).int_at("id"@) by {
            assert(t[i] == s[i]);
            if j < s.len() {
                assert(t[j] == s[j]);
            }
        }
    } else if cmd == "edit"@ {
        let id = crate::mutation::request_entry_id(req)->0;
        let i = id_index(s, id);
        lemma_id_index(s, id);
        let key = if crate::markdown::is_section(s[i]) {
            "title"@
        } else {
            "transcript"@
        };
        assert(key != "id"@) by {
            reveal_strlit("id");
            reveal_strlit("title");
            reveal_strlit("transcript");
            assert("id"@.len() == 2);
            assert("title"@.len() == 5);
            assert("transcript"@.len() == 10);
        }
        lemma_field_set_keeps(s[i], t[i], key, req.field("text"@)->0, "id"@);
        assert forall|k: int| 0 <= k < t.len() implies (#[trigger] t[k]).int_at("id"@) == s[k].int_at(
            "id"@,
        ) && t[k].is_object() == s[k].is_object() by {
            if k != i {
                assert(t[k] == s[k]);
            }
        }
        assert forall|a: int, b: int|
            0 <= a < b < t.len() && (#[trigger] t[a]).int_at("id"@) is Some implies t[a].int_at(
            "id"@,
        ) != (#[trigger] t[b]).int_at("id"@) by {
            assert(t[a].int_at("id"@) == s[a].int_at("id"@));
            assert(t[b].int_at("id"@) == s[b].int_at("id"@));
        }
        assert forall|k: int| 0 <= k < t.len() implies (#[trigger] t[k]).is_object() && (
        match t[k].int_at("id"@) {
            Some(m) => m >= 1,
            None => false,
        }) by {
            assert(t[k].int_at("id"@) == s[k].int_at("id"@));
            assert(ids_valid(s));
            assert(s[k].is_object());
        }
    } else {
        lemma_without_id_keeps_ids(s, crate::mutation::request_entry_id(req)->0);
    }
}

} // verus!

verus! {

proof fn lemma_key_pos_absent(s: Seq<(Seq<char>, Seq<char>)>, k: Seq<char>)
    ensures
        crate::bindings::key_pos(s, k) >= 0,
        crate::bindings::key_pos(s, k) >= s.len() ==> forall|j: int| 0 <= j < s.len() ==> (#[trigger] s[j]).0 != k,
    decreases s.len(),
{
    if s.len() > 0 && s[0].0 != k {
        lemma_key_pos_absent(s.drop_first(), k);
        assert forall|j: int| 0 <= j < s.len() && crate::bindings::key_pos(s, k) >= s.len() implies (
        #[trigger] s[j]).0 != k by {
            if j > 0 {
                assert(s[j] == s.drop_first()[j - 1]);
            }
        }
    }
}

proof fn lemma_no_duplicate(f: Seq<(Seq<char>, Seq<char>)>)
    requires
        crate::bindings::first_duplicate(f) is None,
    ensures
        forall|p: int, q: int| 0 <= p < q < f.len() ==> (#[trigger] f[p]).0 != (#[trigger] f[q]).0,
    decreases f.len(),
{
    if f.len() > 0 {
        let d = f.drop_last();
        lemma_no_duplicate(d);
        lemma_key_pos_absent(d, f.last().0);
        assert(crate::bindings::key_pos(d, f.last().0) >= d.len());
        assert forall|p: int, q: int| 0 <= p < q < f.len() implies (#[trigger] f[p]).0 != (
        #[trigger] f[q]).0 by {
            assert(f[p] == d[p]);
            if q < d.len() {
                assert(f[q] == d[q]);
            }
        }
    }
}

proof fn lemma_overrides_keep_actions(b: crate::bindings::BindingsView, fields: Seq<(String, Node)>)
    ensures
        crate::bindings::apply_overrides(b, fields) matches Ok(r) ==> r.len() == b.len() && forall|
            i: int,
        | 0 <= i < b.len() ==> (#[trigger] r[i]).0 == b[i].0,
    decreases fields.len(),
{
    if fields.len() > 0 {
        let a = fields[0].0@;
        let i = crate::bindings::action_index(b, a);
        lemma_action_index(b, a);
        if 0 <= i < b.len() {
            match fields[0].1 {
                Node::Array(items) => match crate::bindings::convert_items(items@) {
                    Ok(vals) => {
                        let b2 = b.update(i, (a, vals));
                        lemma_overrides_keep_actions(b2, fields.drop_first());
                    },
                    Err(_) => {},
                },
                _ => {},
            }
        }
    }
}

proof fn lemma_action_index(b: crate::bindings::BindingsView, a: Seq<char>)
    ensures
        0 <= crate::bindings::action_index(b, a) <= b.len(),
        crate::bindings::action_index(b, a) < b.len() ==> b[crate::bindings::action_index(b, a)].0 == a,
    decreases b.len(),
{
    if b.len() > 0 && b[0].0 != a {
        lemma_action_index(b.drop_first(), a);
        if crate::bindings::action_index(b, a) < b.len() {
            assert(b[crate::bindings::action_index(b, a)] == b.drop_first()[crate::bindings::action_index(
                b,
                a,
            ) - 1]);
        }
    }
}

/// An accepted keyboard configuration binds no accelerator twice, and keeps
/// exactly the default actions, in their order.
pub proof fn law_bindings_unique(root: Seq<(String, Node)>)
    ensures
        crate::bindings::bindings_spec(root) matches Ok(b) ==> {
            &&& b.len() == crate::bindings::default_bindings().len()
            &&& forall|i: int|
                0 <= i < b.len() ==> (#[trigger] b[i]).0 == crate::bindings::default_bindings()[i].0
            &&& forall|p: int, q: int|
                0 <= p < q < crate::bindings::flat(b).len() ==> (#[trigger] crate::bindings::flat(
                    b,
                )[p]).0 != (#[trigger] crate::bindings::flat(b)[q]).0
        },
{
    match crate::bindings::bindings_spec(root) {
        Ok(b) => {
            lemma_no_duplicate(crate::bindings::flat(b));
            match crate::value::lookup(root, "keys"@) {
                Some(Node::Object(kf)) => {
                    lemma_overrides_keep_actions(crate::bindings::default_bindings(), kf@);
                },
                _ => {},
            }
        },
        Err(_) => {},
    }
}

/// A process that carries a worker id works only on a project whose identity
/// token names that worker: the pinned project, or the project it was
/// relocated to.
pub proof fn law_session_named_by_worker(
    pinned: Option<Seq<char>>,
    worker_id: Seq<char>,
    pointer: Option<Seq<char>>,
    pinned_token: Option<Seq<char>>,
    pointer_token: Option<Seq<char>>,
)
    requires
        pinned is Some,
        worker_id.len() > 0,
    ensures
        crate::session::resolve_spec(pinned, Some(worker_id), pointer, pinned_token, pointer_token)
            matches Some(p) ==> (Some(p) == pinned && crate::session::token_matches(
            pinned_token,
            worker_id,
        )) || (Some(p) == pointer && crate::session::token_matches(pointer_token, worker_id)),
{
}

/// An edit passes the project check only for the active project's path (by
/// components) and identity token.
pub proof fn law_edit_needs_active_project(
    request: Node,
    active: Option<Seq<char>>,
    active_token: Result<Seq<char>, Seq<char>>,
)
    ensures
        crate::paths::expect_spec(request, active, active_token) is Ok ==> {
            &&& active is Some
            &&& request.str_at("session"@) is Some
            &&& crate::paths::path_parts(active->0) == crate::paths::path_parts(
                request.str_at("session"@)->0,
            )
            &&& active_token == Ok::<Seq<char>, Seq<char>>(request.str_at("token"@)->0)
            &&& request.str_at("token"@)->0.len() > 0
        },
{
}

proof fn lemma_dash_runs(s: Seq<char>)
    ensures
        forall|i: int|
            0 <= i < crate::session::dash_runs(s).0.len() ==> crate::session::name_char_ok(
                #[trigger] crate::session::dash_runs(s).0[i],
            ),
    decreases s.len(),
{
    if s.len() > 0 {
        lemma_dash_runs(s.drop_last());
        let (o, d) = crate::session::dash_runs(s.drop_last());
        assert forall|i: int| 0 <= i < crate::session::dash_runs(s).0.len() implies crate::session::name_char_ok(
            #[trigger] crate::session::dash_runs(s).0[i],
        ) by {
            if i < o.len() {
                assert(crate::session::dash_runs(s).0[i] == o[i]);
            }
        }
    }
}

proof fn lemma_strip_start(s: Seq<char>)
    ensures
        exists|k: int| 0 <= k <= s.len() && crate::session::strip_start(s) == s.skip(k),
        crate::session::strip_start(s).len() > 0 ==> !crate::session::is_dash_or_dot(
            crate::session::strip_start(s)[0],
        ),
    decreases s.len(),
{
    if s.len() > 0 && crate::session::is_dash_or_dot(s[0]) {
        lemma_strip_start(s.drop_first());
        let k = choose|k: int|
            0 <= k <= s.drop_first().len() && crate::session::strip_start(s.drop_first())
                == s.drop_first().skip(k);
        assert(s.drop_first().skip(k) =~= s.skip(k + 1));
    } else {
        assert(s.skip(0) =~= s);
    }
}

proof fn lemma_strip_end(s: Seq<char>)
    ensures
        exists|k: int| 0 <= k <= s.len() && crate::session::strip_end(s) == s.take(k),
        crate::session::strip_end(s).len() > 0 ==> !crate::session::is_dash_or_dot(
            crate::session::strip_end(s).last(),
        ),
    decreases s.len(),
{
    if s.len() > 0 && crate::session::is_dash_or_dot(s.last()) {
        lemma_strip_end(s.drop_last());
        let k = choose|k: int|
            0 <= k <= s.drop_last().len() && crate::session::strip_end(s.drop_last())
                == s.drop_last().take(k);
        assert(s.drop_last().take(k) =~= s.take(k));
    } else {
        assert(s.take(s.len() as int) =~= s);
    }
}

/// A cleaned session name holds only letters, digits, `.`, `_` and `-`, and
/// neither starts nor ends with `-` or `.`.
pub proof fn law_clean_name_is_safe(n: Seq<char>)
    ensures
        crate::session::clean_name_spec(n) matches Some(c) ==> {
            &&& c.len() > 0
            &&& forall|i: int| 0 <= i < c.len() ==> crate::session::name_char_ok(#[trigger] c[i])
            &&& !crate::session::is_dash_or_dot(c[0])
            &&& !crate::session::is_dash_or_dot(c.last())
        },
{
    let o = crate::session::dash_runs(n).0;
    lemma_dash_runs(n);
    lemma_strip_start(o);
    let st = crate::session::strip_start(o);
    let k1 = choose|k: int| 0 <= k <= o.len() && st == o.skip(k);
    lemma_strip_end(st);
    let c = crate::session::strip_end(st);
    let k2 = choose|k: int| 0 <= k <= st.len() && c == st.take(k);
    if c.len() > 0 {
        assert forall|i: int| 0 <= i < c.len() implies crate::session::name_char_ok(#[trigger] c[i]) by {
            assert(c[i] == o[i + k1]);
        }
        assert(c[0] == st[0]);
    }
}

proof fn lemma_without_path(v: Seq<String>, s: Seq<char>)
    ensures
        forall|i: int| 0 <= i < crate::session::without_path(v, s).len() ==> #[trigger] crate::session::without_path(v, s)[i] != s,
        forall|i: int| 0 <= i < v.len() && v[i]@ != s ==> crate::session::without_path(v, s).contains(#[trigger] v[i]@),
    decreases v.len(),
{
    if v.len() > 0 {
        let d = v.drop_last();
        lemma_without_path(d, s);
        let w = crate::session::without_path(v, s);
        let wd = crate::session::without_path(d, s);
        assert forall|i: int| 0 <= i < w.len() implies #[trigger] w[i] != s by {
            if i < wd.len() {
                assert(w[i] == wd[i]);
            }
        }
        assert forall|i: int| 0 <= i < v.len() && v[i]@ != s implies w.contains(#[trigger] v[i]@) by {
            if i < d.len() {
                assert(d[i] == v[i]);
                assert(wd.contains(d[i]@));
                let q = choose|q: int| 0 <= q < wd.len() && wd[q] == d[i]@;
                if v.last()@ == s {
                    assert(w == wd);
                } else {
                    assert(w[q] == wd[q]);
                }
            } else {
                assert(w[w.len() - 1] == v[i]@);
            }
        }
    }
}

/// Remembering a project puts it first, once, and keeps every other known project.
pub proof fn law_remember_puts_first_once(v: Seq<String>, s: Seq<char>)
    ensures
        ({
            let r = seq![s] + crate::session::without_path(v, s);
            &&& r[0] == s
            &&& forall|i: int| 1 <= i < r.len() ==> #[trigger] r[i] != s
            &&& forall|i: int| 0 <= i < v.len() ==> r.contains(#[trigger] v[i]@)
        }),
{
    lemma_without_path(v, s);
    let w = crate::session::without_path(v, s);
    let r = seq![s] + w;
    assert forall|i: int| 1 <= i < r.len() implies #[trigger] r[i] != s by {
        assert(r[i] == w[i - 1]);
    }
    assert forall|i: int| 0 <= i < v.len() implies r.contains(#[trigger] v[i]@) by {
        if v[i]@ == s {
            assert(r[0] == s);
        } else {
            assert(w.contains(v[i]@));
            let q = choose|q: int| 0 <= q < w.len() && w[q] == v[i]@;
            assert(r[q + 1] == w[q]);
        }
    }
}

/// `s` holds no `+`.
spec fn no_plus(s: Seq<char>) -> bool {
    forall|i: int| 0 <= i < s.len() ==> #[trigger] s[i] != '+'
}

/// The first `+` of `p + "+" + r` is the one after `p`.
proof fn lemma_find_after_prefix(p: Seq<char>, r: Seq<char>)
    requires
        no_plus(p),
    ensures
        find_char(p + seq!['+'] + r, '+') == p.len(),
    decreases p.len(),
{
    let s = p + seq!['+'] + r;
    if p.len() > 0 {
        lemma_find_after_prefix(p.drop_first(), r);
        assert(s.drop_first() =~= p.drop_first() + seq!['+'] + r);
        assert(s[0] == p[0]);
    } else {
        assert(s[0] == '+');
    }
}

/// Splitting `p + "+" + r` at `+` gives `p`, then the parts of `r`.
proof fn lemma_split_prefix(p: Seq<char>, r: Seq<char>)
    requires
        no_plus(p),
    ensures
        split_on(p + seq!['+'] + r, '+') == seq![p] + split_on(r, '+'),
{
    let s = p + seq!['+'] + r;
    lemma_find_after_prefix(p, r);
    assert(s.take(p.len() as int) =~= p);
    assert(s.skip(p.len() as int + 1) =~= r);
}

/// Text without `+` is one part.
proof fn lemma_split_plain(s: Seq<char>)
    requires
        no_plus(s),
    ensures
        split_on(s, '+') == seq![s],
{
    lemma_find_char(s, '+');
}

/// `split_on` gives at least one part, and its last part holds no `+`.
proof fn lemma_split_parts(s: Seq<char>)
    ensures
        split_on(s, '+').len() > 0,
        no_plus(split_on(s, '+').last()),
    decreases s.len(),
{
    lemma_find_char(s, '+');
    let k = find_char(s, '+');
    if 0 <= k < s.len() {
        lemma_split_parts(s.skip(k + 1));
        assert((seq![s.take(k)] + split_on(s.skip(k + 1), '+')).last() == split_on(
            s.skip(k + 1),
            '+',
        ).last());
    }
}

/// ASCII case changes undo each other on lowercase text.
proof fn lemma_case_round_trip(s: Seq<char>)
    ensures
        lower(upper(lower(s))) =~= lower(s),
        upper(upper(s)) =~= upper(s),
{
}

/// A canonical key name names itself, holds no `+` and does not start with `<`.
proof fn lemma_key_name_fixed(key: Seq<char>)
    requires
        no_plus(key),
        key_name(key) is Ok,
    ensures
        ({
            let name = key_name(key)->Ok_0;
            &&& key_name(name) == Ok::<Seq<char>, ShortcutFault>(name)
            &&& name.len() > 0
            &&& name[0] != '<'
            &&& no_plus(name)
        }),
{
    reveal_strlit("return");
    reveal_strlit("enter");
    reveal_strlit("kp_enter");
    reveal_strlit("Return");
    reveal_strlit("up");
    reveal_strlit("Up");
    reveal_strlit("down");
    reveal_strlit("Down");
    reveal_strlit("left");
    reveal_strlit("Left");
    reveal_strlit("right");
    reveal_strlit("Right");
    reveal_strlit("home");
    reveal_strlit("Home");
    reveal_strlit("end");
    reveal_strlit("End");
    reveal_strlit("page_up");
    reveal_strlit("pageup");
    reveal_strlit("pgup");
    reveal_strlit("PgUp");
    reveal_strlit("page_down");
    reveal_strlit("pagedown");
    reveal_strlit("pgdown");
    reveal_strlit("PgDown");
    reveal_strlit("backspace");
    reveal_strlit("Backspace");
    reveal_strlit("delete");
    reveal_strlit("Delete");
    reveal_strlit("space");
    reveal_strlit("Space");
    reveal_strlit("escape");
    reveal_strlit("tab");
    reveal_strlit("iso_left_tab");
    let l = lower(key);
    let name = key_name(key)->Ok_0;
    lemma_case_round_trip(key);
    if l == "return"@ || l == "enter"@ || l == "kp_enter"@ {
        assert(lower("Return"@) =~= "return"@);
    } else if l == "up"@ {
        assert(lower("Up"@) =~= "up"@);
    } else if l == "down"@ {
        assert(lower("Down"@) =~= "down"@);
    } else if l == "left"@ {
        assert(lower("Left"@) =~= "left"@);
    } else if l == "right"@ {
        assert(lower("Right"@) =~= "right"@);
    } else if l == "home"@ {
        assert(lower("Home"@) =~= "home"@);
    } else if l == "end"@ {
        assert(lower("End"@) =~= "end"@);
    } else if l == "page_up"@ || l == "pageup"@ || l == "pgup"@ {
        assert(lower("PgUp"@) =~= "pgup"@);
    } else if l == "page_down"@ || l == "pagedown"@ || l == "pgdown"@ {
        assert(lower("PgDown"@) =~= "pgdown"@);
    } else if l == "backspace"@ {
        assert(lower("Backspace"@) =~= "backspace"@);
    } else if l == "delete"@ {
        assert(lower("Delete"@) =~= "delete"@);
    } else if l == "space"@ {
        assert(lower("Space"@) =~= "space"@);
    } else if l.len() > 0 && l[0] == 'f' && (match crate::text::parse_u8(l.drop_first()) {
        Some(n) => 1 <= n <= 35,
        None => false,
    }) {
        assert(name == upper(l));
        assert(lower(name) =~= l);
        assert(name[0] == 'F');
        assert forall|i: int| 0 <= i < name.len() implies #[trigger] name[i] != '+' by {
            assert(key[i] != '+');
        }
    } else {
        assert(key.len() == 1 && key_char_ok(key[0]));
        assert(name == upper(key));
        let l2 = lower(name);
        assert(l2.len() == 1);
        assert(l2.drop_first().len() == 0);
        assert(crate::text::parse_u8(l2.drop_first()) is None);
        assert(key_char_ok(name[0]));
    }
}

/// The modifier names of a canonical spelling, in order.
spec fn modifier_names(m: ModSet) -> Seq<Seq<char>> {
    (if m.ctrl {
        seq!["Ctrl"@]
    } else {
        seq![]
    }) + (if m.shift {
        seq!["Shift"@]
    } else {
        seq![]
    }) + (if m.alt {
        seq!["Alt"@]
    } else {
        seq![]
    }) + (if m.meta {
        seq!["Meta"@]
    } else {
        seq![]
    })
}

/// The four canonical modifier names and what they stand for.
proof fn lemma_modifier_names()
    ensures
        modifier_of("Ctrl"@) == Some(0int),
        modifier_of("Shift"@) == Some(1int),
        modifier_of("Alt"@) == Some(2int),
        modifier_of("Meta"@) == Some(3int),
        no_plus("Ctrl"@),
        no_plus("Shift"@),
        no_plus("Alt"@),
        no_plus("Meta"@),
        "Ctrl+"@ =~= "Ctrl"@ + seq!['+'],
        "Shift+"@ =~= "Shift"@ + seq!['+'],
        "Alt+"@ =~= "Alt"@ + seq!['+'],
        "Meta+"@ =~= "Meta"@ + seq!['+'],
{
    reveal_strlit("Ctrl");
    reveal_strlit("Shift");
    reveal_strlit("Alt");
    reveal_strlit("Meta");
    reveal_strlit("Ctrl+");
    reveal_strlit("Shift+");
    reveal_strlit("Alt+");
    reveal_strlit("Meta+");
    reveal_strlit("control");
    reveal_strlit("ctrl");
    reveal_strlit("primary");
    reveal_strlit("shift");
    reveal_strlit("alt");
    reveal_strlit("mod1");
    reveal_strlit("super");
    reveal_strlit("meta");
    assert(lower("Ctrl"@) =~= "ctrl"@);
    assert(lower("Shift"@) =~= "shift"@);
    assert(lower("Alt"@) =~= "alt"@);
    assert(lower("Meta"@) =~= "meta"@);
    assert("meta"@[0] != "ctrl"@[0]);
    assert("meta"@[1] != "mod1"@[1]);
}

/// Reading the modifier names of `m` back gives `m`.
proof fn lemma_fold_names(m: ModSet)
    ensures
        fold_mods(modifier_names(m), ModSet::none()) == Ok::<ModSet, ShortcutFault>(m),
{
    lemma_modifier_names();
    reveal_with_fuel(fold_mods, 5);
    let names = modifier_names(m);
    if m.ctrl {
        assert(names[0] == "Ctrl"@);
    }
    assert(names =~= modifier_names(m));
}

/// A canonical spelling splits at `+` into its modifier names and its key.
proof fn lemma_split_joined(m: ModSet, name: Seq<char>)
    requires
        no_plus(name),
    ensures
        split_on(joined(m, name), '+') == modifier_names(m) + seq![name],
{
    lemma_modifier_names();
    lemma_split_plain(name);
    let d = if m.meta { "Meta+"@ + name } else { name };
    if m.meta {
        lemma_split_prefix("Meta"@, name);
    }
    assert(split_on(d, '+') =~= (if m.meta { seq!["Meta"@] } else { seq![] }) + seq![name]);
    let c = if m.alt { "Alt+"@ + d } else { d };
    if m.alt {
        lemma_split_prefix("Alt"@, d);
    }
    assert(split_on(c, '+') =~= (if m.alt { seq!["Alt"@] } else { seq![] }) + split_on(d, '+'));
    let b = if m.shift { "Shift+"@ + c } else { c };
    if m.shift {
        lemma_split_prefix("Shift"@, c);
    }
    assert(split_on(b, '+') =~= (if m.shift { seq!["Shift"@] } else { seq![] }) + split_on(c, '+'));
    let a = if m.ctrl { "Ctrl+"@ + b } else { b };
    if m.ctrl {
        lemma_split_prefix("Ctrl"@, b);
    }
    assert(split_on(a, '+') =~= (if m.ctrl { seq!["Ctrl"@] } else { seq![] }) + split_on(b, '+'));
    assert(a =~= joined(m, name));
    assert(modifier_names(m) + seq![name] =~= split_on(a, '+'));
}

/// Canonical spellings are fixed points: an accelerator that `accelerator`
/// accepts comes out in a spelling that it accepts again, unchanged.
pub proof fn law_accelerator_canonical(text: Seq<char>)
    ensures
        accelerator_spec(text) matches Ok(c) ==> accelerator_spec(c) == Ok::<
            Seq<char>,
            ShortcutFault,
        >(c),
{
    if let Ok(c) = accelerator_spec(text) {
        let (angle, tail) = angle_mods(text)->Some_0;
        let parts = angle + split_on(tail, '+');
        lemma_split_parts(tail);
        assert(parts.last() == split_on(tail, '+').last());
        let mods = fold_mods(parts.drop_last(), ModSet::none())->Ok_0;
        lemma_key_name_fixed(parts.last());
        let name = key_name(parts.last())->Ok_0;
        assert(c == joined(mods, name));
        lemma_joined_canonical(mods, name);
    }
}

/// A spelling made of canonical modifiers and a canonical key, which is not
/// a bare key, reads back as itself.
proof fn lemma_joined_canonical(mods: ModSet, name: Seq<char>)
    requires
        key_name(name) == Ok::<Seq<char>, ShortcutFault>(name),
        name.len() > 0,
        name[0] != '<',
        no_plus(name),
        !((mods == ModSet::none() && !crate::shortcuts::is_function(name)) || (mods
            == ModSet::none().with(1) && name != "Return"@)),
    ensures
        accelerator_spec(joined(mods, name)) == Ok::<Seq<char>, ShortcutFault>(joined(mods, name)),
{
    let c = joined(mods, name);
    lemma_modifier_names();
    reveal_strlit("Ctrl+");
    reveal_strlit("Shift+");
    reveal_strlit("Alt+");
    reveal_strlit("Meta+");
    assert(c[0] != '<');
    assert(angle_mods(c) == Some((Seq::<Seq<char>>::empty(), c)));
    lemma_split_joined(mods, name);
    let parts2 = Seq::<Seq<char>>::empty() + split_on(c, '+');
    assert(parts2.drop_last() =~= modifier_names(mods));
    assert(parts2.last() == name);
    lemma_fold_names(mods);
}

} // verus!

verus! {

/// A letter, a digit or `_`: the characters that make a session name usable.
pub open spec fn is_word_char(c: char) -> bool {
    ('a' <= c <= 'z') || ('A' <= c <= 'Z') || ('0' <= c <= '9') || c == '_'
}

pub open spec fn no_word_char(s: Seq<char>) -> bool {
    forall|i: int| 0 <= i < s.len() ==> !is_word_char(#[trigger] s[i])
}

spec fn all_dash_or_dot(s: Seq<char>) -> bool {
    forall|i: int| 0 <= i < s.len() ==> crate::session::is_dash_or_dot(#[trigger] s[i])
}

/// Replacing runs of other characters by `-` keeps the word characters.
proof fn lemma_dash_runs_words(s: Seq<char>)
    ensures
        no_word_char(crate::session::dash_runs(s).0) == no_word_char(s),
    decreases s.len(),
{
    if s.len() > 0 {
        let d = s.drop_last();
        lemma_dash_runs_words(d);
        let o = crate::session::dash_runs(s).0;
        let od = crate::session::dash_runs(d).0;
        if no_word_char(s) {
            assert forall|i: int| 0 <= i < d.len() implies !is_word_char(#[trigger] d[i]) by {
                assert(d[i] == s[i]);
            }
            assert forall|i: int| 0 <= i < o.len() implies !is_word_char(#[trigger] o[i]) by {
                if i < od.len() {
                    assert(o[i] == od[i]);
                } else {
                    assert(!is_word_char(s[s.len() - 1]));
                }
            }
        } else {
            let w = choose|i: int| 0 <= i < s.len() && is_word_char(s[i]);
            if w < d.len() {
                assert(d[w] == s[w]);
                assert(!no_word_char(d));
                let j = choose|j: int| 0 <= j < od.len() && is_word_char(od[j]);
                assert(o[j] == od[j]);
            } else {
                assert(crate::session::name_char_ok(s.last()));
                assert(o[o.len() - 1] == s.last());
            }
        }
    }
}

/// A name of usable characters only is left as it is by the run replacement.
proof fn lemma_dash_runs_keeps(s: Seq<char>)
    requires
        forall|i: int| 0 <= i < s.len() ==> crate::session::name_char_ok(#[trigger] s[i]),
    ensures
        crate::session::dash_runs(s) == (s, false),
    decreases s.len(),
{
    if s.len() > 0 {
        let d = s.drop_last();
        assert forall|i: int| 0 <= i < d.len() implies crate::session::name_char_ok(#[trigger] d[i]) by {
            assert(d[i] == s[i]);
        }
        lemma_dash_runs_keeps(d);
        assert(d.push(s.last()) =~= s);
    } else {
        assert(s =~= Seq::<char>::empty());
    }
}

proof fn lemma_strip_start_dots(s: Seq<char>)
    ensures
        all_dash_or_dot(crate::session::strip_start(s)) == all_dash_or_dot(s),
    decreases s.len(),
{
    if s.len() > 0 && crate::session::is_dash_or_dot(s[0]) {
        let t = s.drop_first();
        lemma_strip_start_dots(t);
        if all_dash_or_dot(t) {
            assert forall|i: int| 0 <= i < s.len() implies crate::session::is_dash_or_dot(#[trigger] s[i]) by {
                if i > 0 {
                    assert(s[i] == t[i - 1]);
                }
            }
        } else {
            let j = choose|j: int| 0 <= j < t.len() && !crate::session::is_dash_or_dot(t[j]);
            assert(s[j + 1] == t[j]);
        }
    }
}

proof fn lemma_strip_end_empty(s: Seq<char>)
    ensures
        (crate::session::strip_end(s).len() == 0) == all_dash_or_dot(s),
    decreases s.len(),
{
    if s.len() > 0 {
        let d = s.drop_last();
        if crate::session::is_dash_or_dot(s.last()) {
            lemma_strip_end_empty(d);
            if all_dash_or_dot(d) {
                assert forall|i: int| 0 <= i < s.len() implies crate::session::is_dash_or_dot(#[trigger] s[i]) by {
                    if i < d.len() {
                        assert(s[i] == d[i]);
                    }
                }
            } else {
                let j = choose|j: int| 0 <= j < d.len() && !crate::session::is_dash_or_dot(d[j]);
                assert(s[j] == d[j]);
            }
        } else {
            assert(!crate::session::is_dash_or_dot(s[s.len() - 1]));
        }
    }
}

/// Cleaning a session name fails exactly when the name holds no letter,
/// digit or `_`; a cleaned name is its own cleaning.
pub proof fn law_clean_name_settles(n: Seq<char>)
    ensures
        crate::session::clean_name_spec(n) is None <==> no_word_char(n),
        crate::session::clean_name_spec(n) matches Some(c) ==> crate::session::clean_name_spec(c)
            == Some(c),
{
    let o = crate::session::dash_runs(n).0;
    lemma_dash_runs(n);
    lemma_dash_runs_words(n);
    let st = crate::session::strip_start(o);
    lemma_strip_start_dots(o);
    lemma_strip_end_empty(st);
    if all_dash_or_dot(o) {
        assert forall|i: int| 0 <= i < o.len() implies !is_word_char(#[trigger] o[i]) by {
            assert(crate::session::is_dash_or_dot(o[i]));
        }
    } else {
        let j = choose|j: int| 0 <= j < o.len() && !crate::session::is_dash_or_dot(o[j]);
        assert(crate::session::name_char_ok(o[j]));
        assert(is_word_char(o[j]));
    }
    if let Some(c) = crate::session::clean_name_spec(n) {
        law_clean_name_is_safe(n);
        lemma_dash_runs_keeps(c);
        assert(crate::session::strip_start(c) == c);
        assert(crate::session::strip_end(c) == c);
    }
}

} // verus!

verus! {

/// The `[keys]` table of a keyboard configuration, empty when there is none.
pub open spec fn keys_table(root: Seq<(String, Node)>) -> Seq<(String, Node)> {
    match crate::value::lookup(root, "keys"@) {
        Some(Node::Object(kf)) => kf@,
        _ => seq![],
    }
}

/// The table has an entry for action `a`.
pub open spec fn names_action(fields: Seq<(String, Node)>, a: Seq<char>) -> bool {
    exists|k: int| 0 <= k < fields.len() && (#[trigger] fields[k]).0@ == a
}

/// An accelerator in canonical spelling: it reads back as itself.
#[verifier::opaque]
pub open spec fn is_canonical(t: Seq<char>) -> bool {
    accelerator_spec(t) == Ok::<Seq<char>, ShortcutFault>(t)
}

/// Every accelerator is in canonical spelling.
pub open spec fn all_canonical(vals: Seq<Seq<char>>) -> bool {
    forall|j: int| 0 <= j < vals.len() ==> is_canonical(#[trigger] vals[j])
}

spec fn bound_canonical(b: crate::bindings::BindingsView) -> bool {
    forall|i: int| 0 <= i < b.len() ==> all_canonical(#[trigger] b[i].1)
}

proof fn lemma_convert_canonical(items: Seq<Node>)
    ensures
        crate::bindings::convert_items(items) matches Ok(vals) ==> all_canonical(vals),
    decreases items.len(),
{
    if items.len() > 0 {
        lemma_convert_canonical(items.drop_first());
        match items[0] {
            Node::Str(s) => {
                law_accelerator_canonical(s@);
                if let Ok(vals) = crate::bindings::convert_items(items) {
                    let rest = crate::bindings::convert_items(items.drop_first())->Ok_0;
                    reveal(is_canonical);
                    assert forall|j: int| 0 <= j < vals.len() implies is_canonical(
                        #[trigger] vals[j],
                    ) by {
                        if j > 0 {
                            assert(vals[j] == rest[j - 1]);
                        }
                    }
                }
            },
            _ => {},
        }
    }
}

/// Overrides leave the actions they do not name as they were, and keep
/// canonical bindings canonical.
proof fn lemma_overrides_untouched(b: crate::bindings::BindingsView, fields: Seq<(String, Node)>)
    ensures
        crate::bindings::apply_overrides(b, fields) matches Ok(r) ==> {
            &&& r.len() == b.len()
            &&& forall|i: int|
                0 <= i < b.len() && !names_action(fields, b[i].0) ==> (#[trigger] r[i]) == b[i]
            &&& bound_canonical(b) ==> bound_canonical(r)
        },
    decreases fields.len(),
{
    if fields.len() > 0 {
        let a = fields[0].0@;
        let idx = crate::bindings::action_index(b, a);
        lemma_action_index(b, a);
        if 0 <= idx < b.len() {
            match fields[0].1 {
                Node::Array(items) => match crate::bindings::convert_items(items@) {
                    Ok(vals) => {
                        let b2 = b.update(idx, (a, vals));
                        let rest = fields.drop_first();
                        lemma_overrides_untouched(b2, rest);
                        lemma_convert_canonical(items@);
                        if let Ok(r) = crate::bindings::apply_overrides(b, fields) {
                            assert forall|i: int|
                                0 <= i < b.len() && !names_action(fields, b[i].0) implies (
                                #[trigger] r[i]) == b[i] by {
                                if i == idx {
                                    assert(fields[0].0@ == b[i].0);
                                }
                                if names_action(rest, b[i].0) {
                                    let k = choose|k: int| 0 <= k < rest.len() && (#[trigger] rest[k]).0@ == b[i].0;
                                    assert(fields[k + 1] == rest[k]);
                                }
                                assert(b2[i] == b[i]);
                            }
                            if bound_canonical(b) {
                                assert forall|i: int| 0 <= i < b2.len() implies all_canonical(
                                    #[trigger] b2[i].1,
                                ) by {
                                    if i != idx {
                                        assert(b2[i] == b[i]);
                                    }
                                }
                            }
                        }
                    },
                    Err(_) => {},
                },
                _ => {},
            }
        }
    }
}

} // verus!

verus! {

/// A default key name is canonical.
spec fn canonical_key(k: Seq<char>) -> bool {
    key_name(k) == Ok::<Seq<char>, ShortcutFault>(k) && k.len() > 0 && k[0] != '<' && no_plus(k)
}

/// A one-letter key name is canonical.
proof fn lemma_letter_key(k: Seq<char>)
    requires
        k.len() == 1,
        'A' <= k[0] <= 'Z',
    ensures
        canonical_key(k),
{
    reveal_strlit("return");
    reveal_strlit("enter");
    reveal_strlit("kp_enter");
    reveal_strlit("up");
    reveal_strlit("down");
    reveal_strlit("left");
    reveal_strlit("right");
    reveal_strlit("home");
    reveal_strlit("end");
    reveal_strlit("page_up");
    reveal_strlit("pageup");
    reveal_strlit("pgup");
    reveal_strlit("page_down");
    reveal_strlit("pagedown");
    reveal_strlit("pgdown");
    reveal_strlit("backspace");
    reveal_strlit("delete");
    reveal_strlit("space");
    reveal_strlit("escape");
    reveal_strlit("tab");
    reveal_strlit("iso_left_tab");
    let l = lower(k);
    assert(l.len() == 1);
    assert(l.drop_first().len() == 0);
    assert(crate::text::parse_u8(l.drop_first()) is None);
    assert(key_char_ok(k[0]));
    assert(upper(k) =~= k);
}

/// The named keys of the default bindings are canonical.
proof fn lemma_named_keys()
    ensures
        canonical_key("Delete"@),
        canonical_key("Return"@),
        canonical_key("Down"@),
        canonical_key("Up"@),
        canonical_key("F1"@),
{
    reveal_strlit("return");
    reveal_strlit("enter");
    reveal_strlit("kp_enter");
    reveal_strlit("up");
    reveal_strlit("down");
    reveal_strlit("left");
    reveal_strlit("right");
    reveal_strlit("home");
    reveal_strlit("end");
    reveal_strlit("page_up");
    reveal_strlit("pageup");
    reveal_strlit("pgup");
    reveal_strlit("page_down");
    reveal_strlit("pagedown");
    reveal_strlit("pgdown");
    reveal_strlit("backspace");
    reveal_strlit("delete");
    reveal_strlit("space");
    reveal_strlit("escape");
    reveal_strlit("tab");
    reveal_strlit("iso_left_tab");
    reveal_strlit("Delete");
    reveal_strlit("Return");
    reveal_strlit("Down");
    reveal_strlit("Up");
    reveal_strlit("F1");
    reveal_strlit("f1");
    assert(lower("Delete"@) =~= "delete"@);
    assert(lower("Return"@) =~= "return"@);
    assert(lower("Down"@) =~= "down"@);
    assert(lower("Up"@) =~= "up"@);
    reveal_strlit("f1");
    assert(lower("F1"@) =~= "f1"@);
    assert("f1"@.drop_first() =~= seq!['1']);
    assert(crate::text::digits_value(seq!['1']) == 1) by {
        reveal_with_fuel(crate::text::digits_value, 3);
    }
    assert(crate::text::parse_u8(seq!['1']) == Some(1u8));
    assert(upper("f1"@) =~= "F1"@);
    assert(key_name("Delete"@) == Ok::<Seq<char>, ShortcutFault>("Delete"@));
    assert(key_name("Return"@) == Ok::<Seq<char>, ShortcutFault>("Return"@));
    assert(key_name("Down"@) == Ok::<Seq<char>, ShortcutFault>("Down"@));
    assert(key_name("Up"@) == Ok::<Seq<char>, ShortcutFault>("Up"@));
    assert(key_name("F1"@) == Ok::<Seq<char>, ShortcutFault>("F1"@));
    assert(no_plus("F1"@));
    assert(no_plus("Delete"@));
}

} // verus!

verus! {

/// A spelling of canonical modifiers and a canonical key reads back as itself.
proof fn lemma_literal(text: Seq<char>, mods: ModSet, name: Seq<char>)
    requires
        canonical_key(name),
        text == joined(mods, name),
        !((mods == ModSet::none() && !crate::shortcuts::is_function(name)) || (mods
            == ModSet::none().with(1) && name != "Return"@)),
    ensures
        accelerator_spec(text) == Ok::<Seq<char>, ShortcutFault>(text),
{
    lemma_joined_canonical(mods, name);
}

proof fn lemma_default_0()
    ensures
        is_canonical("Ctrl+Shift+S"@),
{
    reveal(is_canonical);
    reveal_strlit("Ctrl+Shift+S");
    reveal_strlit("Ctrl+");
    reveal_strlit("Shift+");
    reveal_strlit("S");
    lemma_letter_key("S"@);
    let m = ModSet { ctrl: true, shift: true, alt: false, meta: false };
    assert("Ctrl+Shift+S"@ =~= joined(m, "S"@));
    lemma_literal("Ctrl+Shift+S"@, m, "S"@);
}

proof fn lemma_default_1()
    ensures
        is_canonical("Ctrl+Shift+C"@),
{
    reveal(is_canonical);
    reveal_strlit("Ctrl+Shift+C");
    reveal_strlit("Ctrl+");
    reveal_strlit("Shift+");
    reveal_strlit("C");
    lemma_letter_key("C"@);
    let m = ModSet { ctrl: true, shift: true, alt: false, meta: false };
    assert("Ctrl+Shift+C"@ =~= joined(m, "C"@));
    lemma_literal("Ctrl+Shift+C"@, m, "C"@);
}

proof fn lemma_default_2()
    ensures
        is_canonical("Ctrl+Shift+O"@),
{
    reveal(is_canonical);
    reveal_strlit("Ctrl+Shift+O");
    reveal_strlit("Ctrl+");
    reveal_strlit("Shift+");
    reveal_strlit("O");
    lemma_letter_key("O"@);
    let m = ModSet { ctrl: true, shift: true, alt: false, meta: false };
    assert("Ctrl+Shift+O"@ =~= joined(m, "O"@));
    lemma_literal("Ctrl+Shift+O"@, m, "O"@);
}

proof fn lemma_default_3()
    ensures
        is_canonical("Ctrl+Delete"@),
{
    reveal(is_canonical);
    reveal_strlit("Ctrl+Delete");
    reveal_strlit("Ctrl+");
    reveal_strlit("Delete");
    lemma_named_keys();
    let m = ModSet { ctrl: true, shift: false, alt: false, meta: false };
    assert("Ctrl+Delete"@ =~= joined(m, "Delete"@));
    lemma_literal("Ctrl+Delete"@, m, "Delete"@);
}

proof fn lemma_default_4()
    ensures
        is_canonical("Ctrl+Shift+W"@),
{
    reveal(is_canonical);
    reveal_strlit("Ctrl+Shift+W");
    reveal_strlit("Ctrl+");
    reveal_strlit("Shift+");
    reveal_strlit("W");
    lemma_letter_key("W"@);
    let m = ModSet { ctrl: true, shift: true, alt: false, meta: false };
    assert("Ctrl+Shift+W"@ =~= joined(m, "W"@));
    lemma_literal("Ctrl+Shift+W"@, m, "W"@);
}

proof fn lemma_default_5()
    ensures
        is_canonical("Shift+Alt+Return"@),
{
    reveal(is_canonical);
    reveal_strlit("Shift+Alt+Return");
    reveal_strlit("Shift+");
    reveal_strlit("Alt+");
    reveal_strlit("Return");
    lemma_named_keys();
    let m = ModSet { ctrl: false, shift: true, alt: true, meta: false };
    assert("Shift+Alt+Return"@ =~= joined(m, "Return"@));
    lemma_literal("Shift+Alt+Return"@, m, "Return"@);
}

proof fn lemma_default_6()
    ensures
        is_canonical("Ctrl+N"@),
{
    reveal(is_canonical);
    reveal_strlit("Ctrl+N");
    reveal_strlit("Ctrl+");
    reveal_strlit("N");
    lemma_letter_key("N"@);
    let m = ModSet { ctrl: true, shift: false, alt: false, meta: false };
    assert("Ctrl+N"@ =~= joined(m, "N"@));
    lemma_literal("Ctrl+N"@, m, "N"@);
}

proof fn lemma_default_7()
    ensures
        is_canonical("Ctrl+H"@),
{
    reveal(is_canonical);
    reveal_strlit("Ctrl+H");
    reveal_strlit("Ctrl+");
    reveal_strlit("H");
    lemma_letter_key("H"@);
    let m = ModSet { ctrl: true, shift: false, alt: false, meta: false };
    assert("Ctrl+H"@ =~= joined(m, "H"@));
    lemma_literal("Ctrl+H"@, m, "H"@);
}

proof fn lemma_default_8()
    ensures
        is_canonical("F1"@),
{
    reveal(is_canonical);
    reveal_strlit("F1");
    lemma_named_keys();
    assert(crate::text::parse_u8("F1"@.drop_first()) is Some) by {
        assert("F1"@.drop_first() =~= seq!['1']);
        assert(crate::text::digits_value(seq!['1']) == 1) by {
            reveal_with_fuel(crate::text::digits_value, 3);
        }
    }
    let m = ModSet::none();
    assert("F1"@ =~= joined(m, "F1"@));
    lemma_literal("F1"@, m, "F1"@);
}

proof fn lemma_default_9()
    ensures
        is_canonical("Ctrl+M"@),
{
    reveal(is_canonical);
    reveal_strlit("Ctrl+M");
    reveal_strlit("Ctrl+");
    reveal_strlit("M");
    lemma_letter_key("M"@);
    let m = ModSet { ctrl: true, shift: false, alt: false, meta: false };
    assert("Ctrl+M"@ =~= joined(m, "M"@));
    lemma_literal("Ctrl+M"@, m, "M"@);
}

proof fn lemma_default_10()
    ensures
        is_canonical("Ctrl+Shift+N"@),
{
    reveal(is_canonical);
    reveal_strlit("Ctrl+Shift+N");
    reveal_strlit("Ctrl+");
    reveal_strlit("Shift+");
    reveal_strlit("N");
    lemma_letter_key("N"@);
    let m = ModSet { ctrl: true, shift: true, alt: false, meta: false };
    assert("Ctrl+Shift+N"@ =~= joined(m, "N"@));
    lemma_literal("Ctrl+Shift+N"@, m, "N"@);
}

proof fn lemma_default_11()
    ensures
        is_canonical("Alt+Down"@),
{
    reveal(is_canonical);
    reveal_strlit("Alt+Down");
    reveal_strlit("Alt+");
    reveal_strlit("Down");
    lemma_named_keys();
    let m = ModSet { ctrl: false, shift: false, alt: true, meta: false };
    assert("Alt+Down"@ =~= joined(m, "Down"@));
    lemma_literal("Alt+Down"@, m, "Down"@);
}

proof fn lemma_default_12()
    ensures
        is_canonical("Ctrl+O"@),
{
    reveal(is_canonical);
    reveal_strlit("Ctrl+O");
    reveal_strlit("Ctrl+");
    reveal_strlit("O");
    lemma_letter_key("O"@);
    let m = ModSet { ctrl: true, shift: false, alt: false, meta: false };
    assert("Ctrl+O"@ =~= joined(m, "O"@));
    lemma_literal("Ctrl+O"@, m, "O"@);
}

proof fn lemma_default_13()
    ensures
        is_canonical("Alt+Return"@),
{
    reveal(is_canonical);
    reveal_strlit("Alt+Return");
    reveal_strlit("Alt+");
    reveal_strlit("Return");
    lemma_named_keys();
    let m = ModSet { ctrl: false, shift: false, alt: true, meta: false };
    assert("Alt+Return"@ =~= joined(m, "Return"@));
    lemma_literal("Alt+Return"@, m, "Return"@);
}

proof fn lemma_default_14()
    ensures
        is_canonical("Alt+Up"@),
{
    reveal(is_canonical);
    reveal_strlit("Alt+Up");
    reveal_strlit("Alt+");
    reveal_strlit("Up");
    lemma_named_keys();
    let m = ModSet { ctrl: false, shift: false, alt: true, meta: false };
    assert("Alt+Up"@ =~= joined(m, "Up"@));
    lemma_literal("Alt+Up"@, m, "Up"@);
}

proof fn lemma_default_15()
    ensures
        is_canonical("Ctrl+P"@),
{
    reveal(is_canonical);
    reveal_strlit("Ctrl+P");
    reveal_strlit("Ctrl+");
    reveal_strlit("P");
    lemma_letter_key("P"@);
    let m = ModSet { ctrl: true, shift: false, alt: false, meta: false };
    assert("Ctrl+P"@ =~= joined(m, "P"@));
    lemma_literal("Ctrl+P"@, m, "P"@);
}

proof fn lemma_default_16()
    ensures
        is_canonical("Ctrl+Return"@),
{
    reveal(is_canonical);
    reveal_strlit("Ctrl+Return");
    reveal_strlit("Ctrl+");
    reveal_strlit("Return");
    lemma_named_keys();
    let m = ModSet { ctrl: true, shift: false, alt: false, meta: false };
    assert("Ctrl+Return"@ =~= joined(m, "Return"@));
    lemma_literal("Ctrl+Return"@, m, "Return"@);
}

proof fn lemma_default_17()
    ensures
        is_canonical("Ctrl+S"@),
{
    reveal(is_canonical);
    reveal_strlit("Ctrl+S");
    reveal_strlit("Ctrl+");
    reveal_strlit("S");
    lemma_letter_key("S"@);
    let m = ModSet { ctrl: true, shift: false, alt: false, meta: false };
    assert("Ctrl+S"@ =~= joined(m, "S"@));
    lemma_literal("Ctrl+S"@, m, "S"@);
}

proof fn lemma_default_18()
    ensures
        is_canonical("Ctrl+F"@),
{
    reveal(is_canonical);
    reveal_strlit("Ctrl+F");
    reveal_strlit("Ctrl+");
    reveal_strlit("F");
    lemma_letter_key("F"@);
    let m = ModSet { ctrl: true, shift: false, alt: false, meta: false };
    assert("Ctrl+F"@ =~= joined(m, "F"@));
    lemma_literal("Ctrl+F"@, m, "F"@);
}

proof fn lemma_default_19()
    ensures
        is_canonical("Ctrl+Shift+A"@),
{
    reveal(is_canonical);
    reveal_strlit("Ctrl+Shift+A");
    reveal_strlit("Ctrl+");
    reveal_strlit("Shift+");
    reveal_strlit("A");
    lemma_letter_key("A"@);
    let m = ModSet { ctrl: true, shift: true, alt: false, meta: false };
    assert("Ctrl+Shift+A"@ =~= joined(m, "A"@));
    lemma_literal("Ctrl+Shift+A"@, m, "A"@);
}

/// Every default accelerator is in canonical spelling.
#[verifier::spinoff_prover]
proof fn lemma_defaults_canonical()
    ensures
        bound_canonical(crate::bindings::default_bindings()),
{
    lemma_default_0();
    lemma_default_1();
    lemma_default_2();
    lemma_default_3();
    lemma_default_4();
    lemma_default_5();
    lemma_default_6();
    lemma_default_7();
    lemma_default_8();
    lemma_default_9();
    lemma_default_10();
    lemma_default_11();
    lemma_default_12();
    lemma_default_13();
    lemma_default_14();
    lemma_default_15();
    lemma_default_16();
    lemma_default_17();
    lemma_default_18();
    lemma_default_19();
    let d = crate::bindings::default_bindings();
    assert(d.len() == 18);
    assert forall|i: int| 0 <= i < d.len() implies all_canonical(#[trigger] d[i].1) by {
        if i == 0 {
            assert(all_canonical(d[0].1));
        } else if i == 1 {
            assert(all_canonical(d[1].1));
        } else if i == 2 {
            assert(all_canonical(d[2].1));
        } else if i == 3 {
            assert(all_canonical(d[3].1));
        } else if i == 4 {
            assert(all_canonical(d[4].1));
        } else if i == 5 {
            assert(all_canonical(d[5].1));
        } else if i == 6 {
            assert(all_canonical(d[6].1));
        } else if i == 7 {
            assert(all_canonical(d[7].1));
        } else if i == 8 {
            assert(all_canonical(d[8].1));
        } else if i == 9 {
            assert(all_canonical(d[9].1));
        } else if i == 10 {
            assert(all_canonical(d[10].1));
        } else if i == 11 {
            assert(all_canonical(d[11].1));
        } else if i == 12 {
            assert(all_canonical(d[12].1));
        } else if i == 13 {
            assert(all_canonical(d[13].1));
        } else if i == 14 {
            assert(all_canonical(d[14].1));
        } else if i == 15 {
            assert(all_canonical(d[15].1));
        } else if i == 16 {
            assert(all_canonical(d[16].1));
        } else {
            assert(all_canonical(d[17].1));
        }
    }
}

/// An accepted keyboard configuration keeps the default accelerators of
/// every action that its `[keys]` table does not name, and binds only
/// accelerators in canonical spelling.
pub proof fn law_bindings_keep_defaults(root: Seq<(String, Node)>)
    ensures
        crate::bindings::bindings_spec(root) matches Ok(b) ==> {
            &&& forall|i: int|
                0 <= i < b.len() && !names_action(keys_table(root), b[i].0) ==> #[trigger] b[i]
                    == crate::bindings::default_bindings()[i]
            &&& forall|i: int, j: int|
                0 <= i < b.len() && 0 <= j < b[i].1.len() ==> accelerator_spec(
                    #[trigger] b[i].1[j],
                ) == Ok::<Seq<char>, ShortcutFault>(b[i].1[j])
        },
{
    lemma_defaults_canonical();
    law_bindings_unique(root);
    if let Ok(b) = crate::bindings::bindings_spec(root) {
        match crate::value::lookup(root, "keys"@) {
            Some(Node::Object(kf)) => {
                lemma_overrides_untouched(crate::bindings::default_bindings(), kf@);
            },
            _ => {},
        }
        assert forall|i: int, j: int| 0 <= i < b.len() && 0 <= j < b[i].1.len() implies accelerator_spec(
            #[trigger] b[i].1[j],
        ) == Ok::<Seq<char>, ShortcutFault>(b[i].1[j]) by {
            assert(all_canonical(b[i].1));
            assert(is_canonical(b[i].1[j]));
            reveal(is_canonical);
        }
    }
}

} // verus!

verus! {

/// Any single letter, digit or punctuation key among `,.;/[]'=-`` ` with
/// Ctrl is accepted; a letter comes out in upper case, every other key as
/// written.
pub proof fn law_ctrl_single_keys(c: char)
    requires
        ('a' <= c <= 'z') || ('A' <= c <= 'Z') || ('0' <= c <= '9') || c == ',' || c == '.' || c
            == ';' || c == '/' || c == '[' || c == ']' || c == '\'' || c == '=' || c == '-' || c
            == '`',
    ensures
        accelerator_spec("Ctrl+"@ + seq![c]) == Ok::<Seq<char>, ShortcutFault>(
            "Ctrl+"@ + seq![
                if 'a' <= c <= 'z' {
                    ((c as u32) - 32) as char
                } else {
                    c
                },
            ],
        ),
{
    let u = if 'a' <= c <= 'z' {
        ((c as u32) - 32) as char
    } else {
        c
    };
    let t = "Ctrl+"@ + seq![c];
    lemma_modifier_names();
    reveal_strlit("Ctrl+");
    reveal_strlit("Ctrl");
    assert(t =~= "Ctrl"@ + seq!['+'] + seq![c]);
    assert(t[0] == 'C');
    assert(angle_mods(t) == Some((Seq::<Seq<char>>::empty(), t)));
    assert(no_plus(seq![c]));
    lemma_split_prefix("Ctrl"@, seq![c]);
    lemma_split_plain(seq![c]);
    let m = ModSet { ctrl: true, shift: false, alt: false, meta: false };
    assert(modifier_names(m) =~= seq!["Ctrl"@]);
    lemma_fold_names(m);
    let parts = Seq::<Seq<char>>::empty() + split_on(t, '+');
    assert(parts =~= seq!["Ctrl"@, seq![c]]);
    assert(parts.drop_last() =~= modifier_names(m));
    assert(parts.last() == seq![c]);
    reveal_strlit("return");
    reveal_strlit("enter");
    reveal_strlit("kp_enter");
    reveal_strlit("up");
    reveal_strlit("down");
    reveal_strlit("left");
    reveal_strlit("right");
    reveal_strlit("home");
    reveal_strlit("end");
    reveal_strlit("page_up");
    reveal_strlit("pageup");
    reveal_strlit("pgup");
    reveal_strlit("page_down");
    reveal_strlit("pagedown");
    reveal_strlit("pgdown");
    reveal_strlit("backspace");
    reveal_strlit("delete");
    reveal_strlit("space");
    reveal_strlit("escape");
    reveal_strlit("tab");
    reveal_strlit("iso_left_tab");
    let l = lower(seq![c]);
    assert(l.len() == 1);
    assert(l.drop_first().len() == 0);
    assert(crate::text::parse_u8(l.drop_first()) is None);
    assert(key_char_ok(c));
    assert(upper(seq![c]) =~= seq![u]);
    assert(key_name(seq![c]) == Ok::<Seq<char>, ShortcutFault>(seq![u]));
    assert(joined(m, seq![u]) =~= "Ctrl+"@ + seq![u]);
}

} // verus!

verus! {

/// The named keys in any letter case: `Return`, `Enter` and `KP_Enter` are
/// `Return`; `PgUp`, `Page_Up` and `PageUp` are `PgUp`, and so for the other
/// named keys; `Escape`, `Tab` and `ISO_Left_Tab` are kept for navigation.
pub proof fn law_key_spellings(key: Seq<char>)
    ensures
        (lower(key) == "return"@ || lower(key) == "enter"@ || lower(key) == "kp_enter"@) ==> key_name(key) == Ok::<Seq<char>, ShortcutFault>("Return"@),
        (lower(key) == "up"@) ==> key_name(key) == Ok::<Seq<char>, ShortcutFault>("Up"@),
        (lower(key) == "down"@) ==> key_name(key) == Ok::<Seq<char>, ShortcutFault>("Down"@),
        (lower(key) == "left"@) ==> key_name(key) == Ok::<Seq<char>, ShortcutFault>("Left"@),
        (lower(key) == "right"@) ==> key_name(key) == Ok::<Seq<char>, ShortcutFault>("Right"@),
        (lower(key) == "home"@) ==> key_name(key) == Ok::<Seq<char>, ShortcutFault>("Home"@),
        (lower(key) == "end"@) ==> key_name(key) == Ok::<Seq<char>, ShortcutFault>("End"@),
        (lower(key) == "page_up"@ || lower(key) == "pageup"@ || lower(key) == "pgup"@) ==> key_name(key) == Ok::<Seq<char>, ShortcutFault>("PgUp"@),
        (lower(key) == "page_down"@ || lower(key) == "pagedown"@ || lower(key) == "pgdown"@) ==> key_name(key) == Ok::<Seq<char>, ShortcutFault>("PgDown"@),
        (lower(key) == "backspace"@) ==> key_name(key) == Ok::<Seq<char>, ShortcutFault>("Backspace"@),
        (lower(key) == "delete"@) ==> key_name(key) == Ok::<Seq<char>, ShortcutFault>("Delete"@),
        (lower(key) == "space"@) ==> key_name(key) == Ok::<Seq<char>, ShortcutFault>("Space"@),
        (lower(key) == "escape"@ || lower(key) == "tab"@ || lower(key) == "iso_left_tab"@) ==> key_name(key) == Err::<Seq<char>, ShortcutFault>(ShortcutFault::ReservedKey),
{
    reveal_strlit("return");
    reveal_strlit("enter");
    reveal_strlit("kp_enter");
    reveal_strlit("up");
    reveal_strlit("down");
    reveal_strlit("left");
    reveal_strlit("right");
    reveal_strlit("home");
    reveal_strlit("end");
    reveal_strlit("page_up");
    reveal_strlit("pageup");
    reveal_strlit("pgup");
    reveal_strlit("page_down");
    reveal_strlit("pagedown");
    reveal_strlit("pgdown");
    reveal_strlit("backspace");
    reveal_strlit("delete");
    reveal_strlit("space");
    reveal_strlit("escape");
    reveal_strlit("tab");
    reveal_strlit("iso_left_tab");
    reveal_strlit("Return");
    reveal_strlit("Up");
    reveal_strlit("Down");
    reveal_strlit("Left");
    reveal_strlit("Right");
    reveal_strlit("Home");
    reveal_strlit("End");
    reveal_strlit("PgUp");
    reveal_strlit("PgDown");
    reveal_strlit("Backspace");
    reveal_strlit("Delete");
    reveal_strlit("Space");
    if lower(key) == "return"@ {

    }
    if lower(key) == "enter"@ {

    }
    if lower(key) == "kp_enter"@ {

    }
    if lower(key) == "up"@ {
        assert("up"@.len() != "return"@.len());
        assert("up"@.len() != "enter"@.len());
        assert("up"@.len() != "kp_enter"@.len());
    }
    if lower(key) == "down"@ {
        assert("down"@.len() != "return"@.len());
        assert("down"@.len() != "enter"@.len());
        assert("down"@.len() != "kp_enter"@.len());
        assert("down"@.len() != "up"@.len());
    }
    if lower(key) == "left"@ {
        assert("left"@.len() != "return"@.len());
        assert("left"@.len() != "enter"@.len());
        assert("left"@.len() != "kp_enter"@.len());
        assert("left"@.len() != "up"@.len());
        assert("left"@[0] != "down"@[0]);
    }
    if lower(key) == "right"@ {
        assert("right"@.len() != "return"@.len());
        assert("right"@[0] != "enter"@[0]);
        assert("right"@.len() != "kp_enter"@.len());
        assert("right"@.len() != "up"@.len());
        assert("right"@.len() != "down"@.len());
        assert("right"@.len() != "left"@.len());
    }
    if lower(key) == "home"@ {
        assert("home"@.len() != "return"@.len());
        assert("home"@.len() != "enter"@.len());
        assert("home"@.len() != "kp_enter"@.len());
        assert("home"@.len() != "up"@.len());
        assert("home"@[0] != "down"@[0]);
        assert("home"@[0] != "left"@[0]);
        assert("home"@.len() != "right"@.len());
    }
    if lower(key) == "end"@ {
        assert("end"@.len() != "return"@.len());
        assert("end"@.len() != "enter"@.len());
        assert("end"@.len() != "kp_enter"@.len());
        assert("end"@.len() != "up"@.len());
        assert("end"@.len() != "down"@.len());
        assert("end"@.len() != "left"@.len());
        assert("end"@.len() != "right"@.len());
        assert("end"@.len() != "home"@.len());
    }
    if lower(key) == "page_up"@ {
        assert("page_up"@.len() != "return"@.len());
        assert("page_up"@.len() != "enter"@.len());
        assert("page_up"@.len() != "kp_enter"@.len());
        assert("page_up"@.len() != "up"@.len());
        assert("page_up"@.len() != "down"@.len());
        assert("page_up"@.len() != "left"@.len());
        assert("page_up"@.len() != "right"@.len());
        assert("page_up"@.len() != "home"@.len());
        assert("page_up"@.len() != "end"@.len());
    }
    if lower(key) == "pageup"@ {
        assert("pageup"@[0] != "return"@[0]);
        assert("pageup"@.len() != "enter"@.len());
        assert("pageup"@.len() != "kp_enter"@.len());
        assert("pageup"@.len() != "up"@.len());
        assert("pageup"@.len() != "down"@.len());
        assert("pageup"@.len() != "left"@.len());
        assert("pageup"@.len() != "right"@.len());
        assert("pageup"@.len() != "home"@.len());
        assert("pageup"@.len() != "end"@.len());
    }
    if lower(key) == "pgup"@ {
        assert("pgup"@.len() != "return"@.len());
        assert("pgup"@.len() != "enter"@.len());
        assert("pgup"@.len() != "kp_enter"@.len());
        assert("pgup"@.len() != "up"@.len());
        assert("pgup"@[0] != "down"@[0]);
        assert("pgup"@[0] != "left"@[0]);
        assert("pgup"@.len() != "right"@.len());
        assert("pgup"@[0] != "home"@[0]);
        assert("pgup"@.len() != "end"@.len());
    }
    if lower(key) == "page_down"@ {
        assert("page_down"@.len() != "return"@.len());
        assert("page_down"@.len() != "enter"@.len());
        assert("page_down"@.len() != "kp_enter"@.len());
        assert("page_down"@.len() != "up"@.len());
        assert("page_down"@.len() != "down"@.len());
        assert("page_down"@.len() != "left"@.len());
        assert("page_down"@.len() != "right"@.len());
        assert("page_down"@.len() != "home"@.len());
        assert("page_down"@.len() != "end"@.len());
        assert("page_down"@.len() != "page_up"@.len());
        assert("page_down"@.len() != "pageup"@.len());
        assert("page_down"@.len() != "pgup"@.len());
    }
    if lower(key) == "pagedown"@ {
        assert("pagedown"@.len() != "return"@.len());
        assert("pagedown"@.len() != "enter"@.len());
        assert("pagedown"@[0] != "kp_enter"@[0]);
        assert("pagedown"@.len() != "up"@.len());
        assert("pagedown"@.len() != "down"@.len());
        assert("pagedown"@.len() != "left"@.len());
        assert("pagedown"@.len() != "right"@.len());
        assert("pagedown"@.len() != "home"@.len());
        assert("pagedown"@.len() != "end"@.len());
        assert("pagedown"@.len() != "page_up"@.len());
        assert("pagedown"@.len() != "pageup"@.len());
        assert("pagedown"@.len() != "pgup"@.len());
    }
    if lower(key) == "pgdown"@ {
        assert("pgdown"@[0] != "return"@[0]);
        assert("pgdown"@.len() != "enter"@.len());
        assert("pgdown"@.len() != "kp_enter"@.len());
        assert("pgdown"@.len() != "up"@.len());
        assert("pgdown"@.len() != "down"@.len());
        assert("pgdown"@.len() != "left"@.len());
        assert("pgdown"@.len() != "right"@.len());
        assert("pgdown"@.len() != "home"@.len());
        assert("pgdown"@.len() != "end"@.len());
        assert("pgdown"@.len() != "page_up"@.len());
        assert("pgdown"@[1] != "pageup"@[1]);
        assert("pgdown"@.len() != "pgup"@.len());
    }
    if lower(key) == "backspace"@ {
        assert("backspace"@.len() != "return"@.len());
        assert("backspace"@.len() != "enter"@.len());
        assert("backspace"@.len() != "kp_enter"@.len());
        assert("backspace"@.len() != "up"@.len());
        assert("backspace"@.len() != "down"@.len());
        assert("backspace"@.len() != "left"@.len());
        assert("backspace"@.len() != "right"@.len());
        assert("backspace"@.len() != "home"@.len());
        assert("backspace"@.len() != "end"@.len());
        assert("backspace"@.len() != "page_up"@.len());
        assert("backspace"@.len() != "pageup"@.len());
        assert("backspace"@.len() != "pgup"@.len());
        assert("backspace"@[0] != "page_down"@[0]);
        assert("backspace"@.len() != "pagedown"@.len());
        assert("backspace"@.len() != "pgdown"@.len());
    }
    if lower(key) == "delete"@ {
        assert("delete"@[0] != "return"@[0]);
        assert("delete"@.len() != "enter"@.len());
        assert("delete"@.len() != "kp_enter"@.len());
        assert("delete"@.len() != "up"@.len());
        assert("delete"@.len() != "down"@.len());
        assert("delete"@.len() != "left"@.len());
        assert("delete"@.len() != "right"@.len());
        assert("delete"@.len() != "home"@.len());
        assert("delete"@.len() != "end"@.len());
        assert("delete"@.len() != "page_up"@.len());
        assert("delete"@[0] != "pageup"@[0]);
        assert("delete"@.len() != "pgup"@.len());
        assert("delete"@.len() != "page_down"@.len());
        assert("delete"@.len() != "pagedown"@.len());
        assert("delete"@[0] != "pgdown"@[0]);
        assert("delete"@.len() != "backspace"@.len());
    }
    if lower(key) == "space"@ {
        assert("space"@.len() != "return"@.len());
        assert("space"@[0] != "enter"@[0]);
        assert("space"@.len() != "kp_enter"@.len());
        assert("space"@.len() != "up"@.len());
        assert("space"@.len() != "down"@.len());
        assert("space"@.len() != "left"@.len());
        assert("space"@[0] != "right"@[0]);
        assert("space"@.len() != "home"@.len());
        assert("space"@.len() != "end"@.len());
        assert("space"@.len() != "page_up"@.len());
        assert("space"@.len() != "pageup"@.len());
        assert("space"@.len() != "pgup"@.len());
        assert("space"@.len() != "page_down"@.len());
        assert("space"@.len() != "pagedown"@.len());
        assert("space"@.len() != "pgdown"@.len());
        assert("space"@.len() != "backspace"@.len());
        assert("space"@.len() != "delete"@.len());
    }
    if lower(key) == "escape"@ {
        assert("escape"@[0] != "return"@[0]);
        assert("escape"@.len() != "enter"@.len());
        assert("escape"@.len() != "kp_enter"@.len());
        assert("escape"@.len() != "up"@.len());
        assert("escape"@.len() != "down"@.len());
        assert("escape"@.len() != "left"@.len());
        assert("escape"@.len() != "right"@.len());
        assert("escape"@.len() != "home"@.len());
        assert("escape"@.len() != "end"@.len());
        assert("escape"@.len() != "page_up"@.len());
        assert("escape"@[0] != "pageup"@[0]);
        assert("escape"@.len() != "pgup"@.len());
        assert("escape"@.len() != "page_down"@.len());
        assert("escape"@.len() != "pagedown"@.len());
        assert("escape"@[0] != "pgdown"@[0]);
        assert("escape"@.len() != "backspace"@.len());
        assert("escape"@[0] != "delete"@[0]);
        assert("escape"@.len() != "space"@.len());
    }
    if lower(key) == "tab"@ {
        assert("tab"@.len() != "return"@.len());
        assert("tab"@.len() != "enter"@.len());
        assert("tab"@.len() != "kp_enter"@.len());
        assert("tab"@.len() != "up"@.len());
        assert("tab"@.len() != "down"@.len());
        assert("tab"@.len() != "left"@.len());
        assert("tab"@.len() != "right"@.len());
        assert("tab"@.len() != "home"@.len());
        assert("tab"@[0] != "end"@[0]);
        assert("tab"@.len() != "page_up"@.len());
        assert("tab"@.len() != "pageup"@.len());
        assert("tab"@.len() != "pgup"@.len());
        assert("tab"@.len() != "page_down"@.len());
        assert("tab"@.len() != "pagedown"@.len());
        assert("tab"@.len() != "pgdown"@.len());
        assert("tab"@.len() != "backspace"@.len());
        assert("tab"@.len() != "delete"@.len());
        assert("tab"@.len() != "space"@.len());
    }
    if lower(key) == "iso_left_tab"@ {
        assert("iso_left_tab"@.len() != "return"@.len());
        assert("iso_left_tab"@.len() != "enter"@.len());
        assert("iso_left_tab"@.len() != "kp_enter"@.len());
        assert("iso_left_tab"@.len() != "up"@.len());
        assert("iso_left_tab"@.len() != "down"@.len());
        assert("iso_left_tab"@.len() != "left"@.len());
        assert("iso_left_tab"@.len() != "right"@.len());
        assert("iso_left_tab"@.len() != "home"@.len());
        assert("iso_left_tab"@.len() != "end"@.len());
        assert("iso_left_tab"@.len() != "page_up"@.len());
        assert("iso_left_tab"@.len() != "pageup"@.len());
        assert("iso_left_tab"@.len() != "pgup"@.len());
        assert("iso_left_tab"@.len() != "page_down"@.len());
        assert("iso_left_tab"@.len() != "pagedown"@.len());
        assert("iso_left_tab"@.len() != "pgdown"@.len());
        assert("iso_left_tab"@.len() != "backspace"@.len());
        assert("iso_left_tab"@.len() != "delete"@.len());
        assert("iso_left_tab"@.len() != "space"@.len());
    }
}

} // verus!

verus! {

/// The modifier spellings in any letter case: `Control`, `Ctrl` and
/// `Primary` are Ctrl; `Shift` is Shift; `Alt` and `Mod1` are Alt; `Super`
/// and `Meta` are Meta; nothing else is a modifier.
pub proof fn law_modifier_spellings(p: Seq<char>)
    ensures
        (modifier_of(p) == Some(0int)) <==> (lower(p) == "control"@ || lower(p) == "ctrl"@ || lower(p) == "primary"@),
        (modifier_of(p) == Some(1int)) <==> (lower(p) == "shift"@),
        (modifier_of(p) == Some(2int)) <==> (lower(p) == "alt"@ || lower(p) == "mod1"@),
        (modifier_of(p) == Some(3int)) <==> (lower(p) == "super"@ || lower(p) == "meta"@),
        modifier_of(p) is None <==> !(lower(p) == "control"@ || lower(p) == "ctrl"@ || lower(p) == "primary"@ || lower(p) == "shift"@ || lower(p) == "alt"@ || lower(p) == "mod1"@ || lower(p) == "super"@ || lower(p) == "meta"@),
{
    reveal_strlit("control");
    reveal_strlit("ctrl");
    reveal_strlit("primary");
    reveal_strlit("shift");
    reveal_strlit("alt");
    reveal_strlit("mod1");
    reveal_strlit("super");
    reveal_strlit("meta");
    if lower(p) == "control"@ {
        assert(true);
    }
    if lower(p) == "ctrl"@ {
        assert(true);
    }
    if lower(p) == "primary"@ {
        assert(true);
    }
    if lower(p) == "shift"@ {
        assert("shift"@.len() != "control"@.len());
        assert("shift"@.len() != "ctrl"@.len());
        assert("shift"@.len() != "primary"@.len());
    }
    if lower(p) == "alt"@ {
        assert("alt"@.len() != "control"@.len());
        assert("alt"@.len() != "ctrl"@.len());
        assert("alt"@.len() != "primary"@.len());
        assert("alt"@.len() != "shift"@.len());
    }
    if lower(p) == "mod1"@ {
        assert("mod1"@.len() != "control"@.len());
        assert("mod1"@[0] != "ctrl"@[0]);
        assert("mod1"@.len() != "primary"@.len());
        assert("mod1"@.len() != "shift"@.len());
    }
    if lower(p) == "super"@ {
        assert("super"@.len() != "control"@.len());
        assert("super"@.len() != "ctrl"@.len());
        assert("super"@.len() != "primary"@.len());
        assert("super"@[1] != "shift"@[1]);
        assert("super"@.len() != "alt"@.len());
        assert("super"@.len() != "mod1"@.len());
    }
    if lower(p) == "meta"@ {
        assert("meta"@.len() != "control"@.len());
        assert("meta"@[0] != "ctrl"@[0]);
        assert("meta"@.len() != "primary"@.len());
        assert("meta"@.len() != "shift"@.len());
        assert("meta"@.len() != "alt"@.len());
        assert("meta"@[1] != "mod1"@[1]);
    }
}

} // verus!

verus! {

/// Field `key` of an object is the one at `k` when no earlier field has that name.
proof fn lemma_lookup_at(f: Seq<(String, Node)>, key: Seq<char>, k: int)
    requires
        0 <= k < f.len(),
        f[k].0@ == key,
        forall|j: int| 0 <= j < k ==> (#[trigger] f[j]).0@ != key,
    ensures
        crate::value::lookup(f, key) == Some(f[k].1),
{
    crate::value::lemma_key_index(f, key);
    let x = crate::value::key_index(f, key);
    if x < k {
        assert(f[x].0@ == key);
    }
    if x > k {
        assert(f[k].0@ != key);
    }
}

/// A typed note that is saved goes after every existing record, which stay
/// as they were. It is a plain note (`ai: false`) with status `done`, the
/// request's text (which is not blank) and the time of saving, and its id is
/// larger than every id already present.
pub proof fn law_saved_note(req: Node, ts: Seq<char>, s: Seq<Node>, t: Seq<Node>)
    requires
        crate::mutation::mutation_fault("note"@, req, s) is None,
        crate::mutation::mutation_done("note"@, req, ts, s, t),
    ensures
        t.len() == s.len() + 1,
        t.drop_last() == s,
        req.str_at("text"@) matches Some(text) && crate::text::trim(text).len() > 0 && t.last().str_at(
            "transcript"@,
        ) == Some(text),
        t.last().bool_at("ai"@) == Some(false),
        t.last().str_at("status"@) == Some("done"@),
        t.last().str_at("ts"@) == Some(ts),
        t.last().int_at("id"@) matches Some(n) && forall|i: int|
            0 <= i < s.len() && (#[trigger] s[i]).int_at("id"@) is Some ==> s[i].int_at("id"@)->0
                < n,
{
    reveal_strlit("id");
    reveal_strlit("ts");
    reveal_strlit("ai");
    reveal_strlit("status");
    reveal_strlit("transcript");
    reveal_strlit("note");
    law_next_id_fresh(s);
    let e = t.last();
    if let Node::Object(f) = e {
        let fs = f@;
        assert("id"@[0] != "ts"@[0]);
        assert("id"@[0] != "ai"@[0]);
        assert("ts"@[0] != "ai"@[0]);
        assert("id"@.len() != "status"@.len());
        assert("ts"@.len() != "status"@.len());
        assert("ai"@.len() != "status"@.len());
        assert("id"@.len() != "transcript"@.len());
        assert("ts"@.len() != "transcript"@.len());
        assert("ai"@.len() != "transcript"@.len());
        assert("status"@.len() != "transcript"@.len());
        lemma_lookup_at(fs, "id"@, 0);
        lemma_lookup_at(fs, "ts"@, 1);
        lemma_lookup_at(fs, "ai"@, 2);
        lemma_lookup_at(fs, "status"@, 3);
        lemma_lookup_at(fs, "transcript"@, 4);
    }
}

} // verus!

verus! {

/// Setting a field makes the field hold the value.
proof fn lemma_field_set_sets(old: Node, new: Node, key: Seq<char>, v: Node)
    requires
        crate::value::field_set(old, new, key, v),
    ensures
        new.field(key) == Some(v),
{
    let of = match old {
        Node::Object(f) => f@,
        _ => Seq::<(String, Node)>::empty(),
    };
    if let Node::Object(nf) = new {
        let n = nf@;
        crate::value::lemma_key_index(of, key);
        let k = crate::value::key_index(of, key);
        if k < of.len() {
            assert forall|j: int| 0 <= j < k implies (#[trigger] n[j]).0@ != key by {
                assert(n[j] == of[j]);
            }
            lemma_lookup_at(n, key, k);
        } else {
            assert forall|j: int| 0 <= j < of.len() implies (#[trigger] n[j]).0@ != key by {
                assert(n[j] == n.take(of.len() as int)[j]);
            }
            lemma_lookup_at(n, key, of.len() as int);
        }
    }
}

/// A successful edit changes only the record it names: a section's title or
/// a note's transcript becomes the request's text, every other field of it
/// stays, every other record stays; and the note was not being dictated.
pub proof fn law_edit_changes_one_field(req: Node, ts: Seq<char>, s: Seq<Node>, t: Seq<Node>, i: int, id: i64)
    requires
        crate::laws_ops::names_entry(req, id),
        crate::laws_ops::first_with_id(s, i, id),
        crate::mutation::mutation_fault("edit"@, req, s) is None,
        crate::mutation::mutation_done("edit"@, req, ts, s, t),
    ensures
        t.len() == s.len(),
        forall|j: int| 0 <= j < s.len() && j != i ==> t[j] == s[j],
        !crate::laws_ops::still_dictated(s[i]),
        s[i].str_at("kind"@) == Some("section"@) ==> t[i].field("title"@) == req.field("text"@),
        s[i].str_at("kind"@) != Some("section"@) ==> t[i].field("transcript"@) == req.field(
            "text"@,
        ),
        req.str_at("text"@) is Some,
        forall|k: Seq<char>|
            k != "title"@ && k != "transcript"@ ==> #[trigger] t[i].field(k) == s[i].field(k),
{
    reveal_strlit("edit");
    reveal_strlit("note");
    assert("edit"@[0] != "note"@[0]);
    lemma_id_index(s, id);
    if id_index(s, id) < i {
        assert(crate::records::has_id(s[id_index(s, id)], id));
    }
    if id_index(s, id) > i {
        assert(!crate::records::has_id(s[i], id));
    }
    let key = if crate::markdown::is_section(s[i]) {
        "title"@
    } else {
        "transcript"@
    };
    let v = req.field("text"@)->0;
    assert(t[i] == s.update(i, t[i])[i]);
    assert forall|j: int| 0 <= j < s.len() && j != i implies t[j] == s[j] by {
        assert(t[j] == s.update(i, t[i])[j]);
    }
    lemma_field_set_sets(s[i], t[i], key, v);
    assert forall|k: Seq<char>| k != "title"@ && k != "transcript"@ implies #[trigger] t[i].field(k)
        == s[i].field(k) by {
        lemma_field_set_keeps(s[i], t[i], key, v, k);
    }
}

} // verus!

verus! {

/// Deleting a note or a section heading removes the records with its id and
/// nothing else: every other record stays (a section's notes among them) and
/// no new record appears.
pub proof fn law_delete_removes_only_its_records(
    cmd: Seq<char>,
    req: Node,
    ts: Seq<char>,
    s: Seq<Node>,
    t: Seq<Node>,
    id: i64,
)
    requires
        cmd == "delete-note"@ || cmd == "delete-section"@,
        crate::laws_ops::names_entry(req, id),
        crate::mutation::mutation_fault(cmd, req, s) is None,
        crate::mutation::mutation_done(cmd, req, ts, s, t),
    ensures
        forall|k: int| 0 <= k < t.len() ==> (#[trigger] t[k]).int_at("id"@) != Some(id),
        forall|e: Node| s.contains(e) && e.int_at("id"@) != Some(id) ==> #[trigger] t.contains(e),
        forall|k: int| 0 <= k < t.len() ==> s.contains(#[trigger] t[k]),
{
    reveal_strlit("delete-note");
    reveal_strlit("delete-section");
    reveal_strlit("note");
    reveal_strlit("edit");
    assert("delete-note"@.len() != "note"@.len());
    assert("delete-note"@.len() != "edit"@.len());
    assert("delete-section"@.len() != "note"@.len());
    assert("delete-section"@.len() != "edit"@.len());
    assert(t == without_id(s, id));
    law_removal_keeps_other_records(s, id);
}

} // verus!

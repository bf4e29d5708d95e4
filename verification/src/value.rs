//! A document value: the shape of a note record (one JSON line of
//! `.data/entries.jsonl`), of a panel request, and of a parsed settings file.
use vstd::prelude::*;
use crate::text::str_eq;

verus! {

/// A JSON or TOML value. Integers that fit in `i64` are `Int`; every other
/// number keeps its textual form in `Number`; a TOML date or time keeps its
/// textual form in `Date`, apart from strings. Object fields keep their order.
#[derive(Debug)]
pub enum Node {
    Null,
    Bool(bool),
    Int(i64),
    Number(String),
    Date(String),
    Str(String),
    Array(Vec<Node>),
    Object(Vec<(String, Node)>),
}

/// The value of the first field named `key`.
pub open spec fn lookup(fields: Seq<(String, Node)>, key: Seq<char>) -> Option<Node>
    decreases fields.len(),
{
    if fields.len() == 0 {
        None
    } else if fields[0].0@ == key {
        Some(fields[0].1)
    } else {
        lookup(fields.drop_first(), key)
    }
}

/// Index of the first field named `key`, or the number of fields.
pub open spec fn key_index(fields: Seq<(String, Node)>, key: Seq<char>) -> int
    decreases fields.len(),
{
    if fields.len() == 0 {
        0
    } else if fields[0].0@ == key {
        0
    } else {
        1 + key_index(fields.drop_first(), key)
    }
}

pub proof fn lemma_key_index(fields: Seq<(String, Node)>, key: Seq<char>)
    ensures
        0 <= key_index(fields, key) <= fields.len(),
        key_index(fields, key) < fields.len() ==> fields[key_index(fields, key)].0@ == key
            && lookup(fields, key) == Some(fields[key_index(fields, key)].1),
        key_index(fields, key) == fields.len() ==> lookup(fields, key) is None,
        forall|j: int| 0 <= j < key_index(fields, key) ==> fields[j].0@ != key,
    decreases fields.len(),
{
    if fields.len() > 0 && fields[0].0@ != key {
        let rest = fields.drop_first();
        lemma_key_index(rest, key);
        assert forall|j: int| 0 <= j < key_index(fields, key) implies fields[j].0@ != key by {
            if j > 0 {
                assert(fields[j] == rest[j - 1]);
            }
        }
    }
}

/// The first field named `key`.
pub fn find_field<'a>(fields: &'a Vec<(String, Node)>, key: &str) -> (r: Option<&'a Node>)
    ensures
        match r {
            Some(v) => lookup(fields@, key@) == Some(*v),
            None => lookup(fields@, key@) is None,
        },
{
    let mut i: usize = 0;
    assert(fields@.skip(0) =~= fields@);
    while i < fields.len()
        invariant
            i <= fields.len(),
            lookup(fields@, key@) == lookup(fields@.skip(i as int), key@),
        decreases fields.len() - i,
    {
        assert(fields@.skip(i as int)[0] == fields@[i as int]);
        if str_eq(fields[i].0.as_str(), key) {
            return Some(&fields[i].1);
        }
        assert(fields@.skip(i as int).drop_first() =~= fields@.skip(i + 1));
        i = i + 1;
    }
    None
}

impl Node {
    /// The value of field `key` of an object; `None` for anything else.
    pub open spec fn field(self, key: Seq<char>) -> Option<Node> {
        match self {
            Node::Object(f) => lookup(f@, key),
            _ => None,
        }
    }

    /// Field `key` when it holds a string.
    pub open spec fn str_at(self, key: Seq<char>) -> Option<Seq<char>> {
        match self.field(key) {
            Some(Node::Str(s)) => Some(s@),
            _ => None,
        }
    }

    /// Field `key` when it holds an integer.
    pub open spec fn int_at(self, key: Seq<char>) -> Option<i64> {
        match self.field(key) {
            Some(Node::Int(n)) => Some(n),
            _ => None,
        }
    }

    /// Field `key` when it holds a boolean.
    pub open spec fn bool_at(self, key: Seq<char>) -> Option<bool> {
        match self.field(key) {
            Some(Node::Bool(b)) => Some(b),
            _ => None,
        }
    }

    pub open spec fn is_object(self) -> bool {
        self is Object
    }

    /// An object, or `null`, which setting a field turns into an object.
    pub open spec fn takes_fields(self) -> bool {
        self is Object || self is Null
    }

    /// Field `key` of an object (`Node::get`).
    pub fn get(&self, key: &str) -> (r: Option<&Node>)
        ensures
            match r {
                Some(v) => self.field(key@) == Some(*v),
                None => self.field(key@) is None,
            },
    {
        match self {
            Node::Object(fields) => find_field(fields, key),
            _ => None,
        }
    }

    /// Field `key` when it holds a string.
    pub fn get_str(&self, key: &str) -> (r: Option<&String>)
        ensures
            match r {
                Some(s) => self.str_at(key@) == Some(s@),
                None => self.str_at(key@) is None,
            },
    {
        match self.get(key) {
            Some(Node::Str(s)) => Some(s),
            _ => None,
        }
    }

    /// Field `key` when it holds an integer.
    pub fn get_i64(&self, key: &str) -> (r: Option<i64>)
        ensures
            r == self.int_at(key@),
    {
        match self.get(key) {
            Some(Node::Int(n)) => Some(*n),
            _ => None,
        }
    }

    /// Field `key` when it holds a boolean.
    pub fn get_bool(&self, key: &str) -> (r: Option<bool>)
        ensures
            r == self.bool_at(key@),
    {
        match self.get(key) {
            Some(Node::Bool(b)) => Some(*b),
            _ => None,
        }
    }

    /// Whether field `key` holds the string `s`.
    pub fn str_is(&self, key: &str, s: &str) -> (r: bool)
        ensures
            r == (self.str_at(key@) == Some(s@)),
    {
        match self.get_str(key) {
            Some(v) => str_eq(v.as_str(), s),
            None => false,
        }
    }
}

} // verus!

verus! {

/// `new` is `old` with field `key` set to `v`: in place when the field exists,
/// appended otherwise.
pub open spec fn field_set(old: Node, new: Node, key: Seq<char>, v: Node) -> bool {
    let of = match old {
        Node::Object(f) => f@,
        _ => Seq::<(String, Node)>::empty(),
    };
    &&& old.takes_fields()
    &&& match new {
        Node::Object(nf) => {
            let k = key_index(of, key);
            if k < of.len() {
                nf@ == of.update(k, (of[k].0, v))
            } else {
                &&& nf@.len() == of.len() + 1
                &&& nf@.take(of.len() as int) == of
                &&& nf@.last().0@ == key
                &&& nf@.last().1 == v
            }
        },
        _ => false,
    }
}

/// The fields of `s` without those named `key`.
pub open spec fn without_key(s: Seq<(String, Node)>, key: Seq<char>) -> Seq<(String, Node)>
    decreases s.len(),
{
    if s.len() == 0 {
        s
    } else if s.last().0@ == key {
        without_key(s.drop_last(), key)
    } else {
        without_key(s.drop_last(), key).push(s.last())
    }
}

/// Sets field `key` of an object (`value[key] = v`); `null` becomes an
/// object first.
pub fn set_field(target: &mut Node, key: &str, v: Node)
    requires
        old(target).takes_fields(),
    ensures
        field_set(*old(target), *final(target), key@, v),
{
    if let Node::Null = target {
        *target = Node::Object(Vec::new());
    }
    match target {
        Node::Object(fields) => {
            let ghost of = fields@;
            let mut i: usize = 0;
            assert(fields@.skip(0) =~= fields@);
            while i < fields.len() && !str_eq(fields[i].0.as_str(), key)
                invariant
                    i <= fields.len(),
                    fields@ == of,
                    key_index(of, key@) == i + key_index(of.skip(i as int), key@),
                decreases fields.len() - i,
            {
                assert(of.skip(i as int)[0] == of[i as int]);
                assert(of.skip(i as int).drop_first() =~= of.skip(i + 1));
                i = i + 1;
            }
            proof {
                if i < fields.len() {
                    assert(of.skip(i as int)[0] == of[i as int]);
                }
                lemma_key_index(of, key@);
            }
            if i < fields.len() {
                let name = fields[i].0.clone();
                fields.set(i, (name, v));
                assert(fields@ =~= of.update(i as int, (of[i as int].0, v)));
            } else {
                fields.push((String::from_str(key), v));
                assert(fields@.take(of.len() as int) =~= of);
            }
        },
        _ => {},
    }
}

/// Removes every field named `key` from an object.
pub fn remove_field(target: &mut Node, key: &str)
    ensures
        match *old(target) {
            Node::Object(of) => match *final(target) {
                Node::Object(nf) => nf@ == without_key(of@, key@),
                _ => false,
            },
            _ => *final(target) == *old(target),
        },
{
    match target {
        Node::Object(fields) => {
            let mut i: usize = 0;
            let ghost s = fields@;
            let ghost mut k: int = 0;
            assert(s.take(0) =~= Seq::<(String, Node)>::empty());
            assert(fields@ =~= without_key(s.take(0), key@) + s.skip(0));
            while i < fields.len()
                invariant
                    0 <= k <= s.len(),
                    i == without_key(s.take(k), key@).len(),
                    fields@ == without_key(s.take(k), key@) + s.skip(k),
                decreases fields.len() - i,
            {
                assert(k < s.len());
                assert(s.take(k + 1).drop_last() =~= s.take(k));
                assert(fields@[i as int] == s[k]);
                if str_eq(fields[i].0.as_str(), key) {
                    fields.remove(i);
                    assert(fields@ =~= without_key(s.take(k + 1), key@) + s.skip(k + 1));
                } else {
                    assert(fields@ =~= without_key(s.take(k + 1), key@) + s.skip(k + 1));
                    i = i + 1;
                }
                proof {
                    k = k + 1;
                }
            }
            proof {
                if k < s.len() {
                    assert(fields@.len() > i);
                }
                assert(s.take(k) =~= s);
                assert(fields@ =~= without_key(s, key@));
            }
        },
        _ => {},
    }
}

} // verus!

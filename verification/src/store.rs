//! The handle store: the auxiliary state mapping from generated opaque string
//! keys to rich values, scoped to one execution context. Commands use it to
//! return or consume a value that a plain text variable cannot carry.

use vstd::prelude::*;
use vstd::string::StringExecFns;

use crate::numfmt::{dec_digits, format_u64, lemma_dec_digits_injective};
use crate::strmap::StringMap;
use crate::value::{Value, ValueView};

verus! {

/// The text of the key issued for internal identifier `i`.
pub open spec fn key_text(i: nat) -> Seq<char> {
    "handle_"@ + dec_digits(i)
}

/// Distinct identifiers give distinct key texts.
proof fn lemma_key_text_injective(a: nat, b: nat)
    requires
        key_text(a) == key_text(b),
    ensures
        a == b,
{
    reveal_strlit("handle_");
    let p = "handle_"@.len() as int;
    assert(dec_digits(a) =~= key_text(a).subrange(p, key_text(a).len() as int));
    assert(dec_digits(b) =~= key_text(b).subrange(p, key_text(b).len() as int));
    lemma_dec_digits_injective(a, b);
}

/// How a `get` or `take` with a typed expectation fails: the key was never
/// issued (or its value was already taken), or the key is live but holds a
/// value of another kind. The two are distinct so that callers can branch on
/// "not found" versus "wrong kind".
#[derive(Clone, Copy, Debug, PartialEq, Eq, Structural)]
pub enum HandleError {
    NotFound,
    WrongKind,
}

/// The auxiliary state store: a mapping from issued handle keys to values.
/// Entries are inserted by whichever command produced a rich value, read by
/// any later command holding the key, and removed only by an explicit `take`.
pub struct HandleStore {
    next_id: u64,
    map: StringMap<Value>,
}

impl View for HandleStore {
    type V = Map<Seq<char>, ValueView>;

    closed spec fn view(&self) -> Map<Seq<char>, ValueView> {
        self.map@
    }
}

impl HandleStore {
    /// Every live key was issued by this store, and the underlying map is
    /// well formed.
    pub closed spec fn wf(&self) -> bool {
        &&& self.map.wf()
        &&& forall|k: Seq<char>|
            self.map@.dom().contains(k) ==> exists|i: nat| i < self.next_id && k == key_text(i)
    }

    /// Whether the store can still issue a fresh key (its internal counter has
    /// not reached the machine limit).
    pub closed spec fn can_issue(&self) -> bool {
        self.next_id < u64::MAX
    }

    /// Whether a fresh key can still be issued, decidable at run time for
    /// hosts that must check it before storing.
    pub fn has_capacity(&self) -> (r: bool)
        ensures
            r == self.can_issue(),
    {
        self.next_id < u64::MAX
    }

    /// Creates the empty store of a fresh execution context.
    pub fn new() -> (r: HandleStore)
        ensures
            r.wf(),
            r.can_issue(),
            r@ == Map::<Seq<char>, ValueView>::empty(),
    {
        HandleStore { next_id: 0, map: StringMap::new() }
    }

    /// Generates a fresh key, stores `value` under it, and returns the key.
    /// The key differs from every key that is or ever was live in this store.
    pub fn put(&mut self, value: Value) -> (key: String)
        requires
            old(self).wf(),
            old(self).can_issue(),
        ensures
            final(self).wf(),
            !old(self)@.dom().contains(key@),
            key@ == key_text(old(self).issued()),
            final(self)@ == old(self)@.insert(key@, value@),
    {
        let ghost id = self.next_id as nat;
        let mut key = String::from_str("handle_");
        key.append(format_u64(self.next_id).as_str());
        proof {
            assert(key@ == key_text(id));
            if self.map@.dom().contains(key@) {
                let i = choose|i: nat| i < self.next_id && key@ == key_text(i);
                lemma_key_text_injective(i, id);
            }
        }
        self.map.insert(key.clone(), value);
        self.next_id = self.next_id + 1;
        proof {
            assert forall|k: Seq<char>| final(self).map@.dom().contains(k) implies exists|i: nat|
                i < final(self).next_id && k == key_text(i) by {
                if k == key@ {
                    assert(id < final(self).next_id && k == key_text(id));
                } else {
                    assert(old(self).map@.dom().contains(k));
                }
            }
        }
        key
    }

    /// The number of keys this store has issued so far.
    pub closed spec fn issued(&self) -> nat {
        self.next_id as nat
    }

    /// Returns the value stored under `key` without removing it, or nothing if
    /// no value is live under `key`.
    pub fn get(&self, key: &String) -> (r: Option<&Value>)
        requires
            self.wf(),
        ensures
            match r {
                Some(v) => self@.dom().contains(key@) && v@ == self@[key@],
                None => !self@.dom().contains(key@),
            },
    {
        self.map.get(key)
    }

    /// Removes the value stored under `key` and returns ownership of it, or
    /// nothing if no value is live under `key`.
    pub fn take(&mut self, key: &String) -> (r: Option<Value>)
        requires
            old(self).wf(),
        ensures
            final(self).wf(),
            match r {
                Some(v) => old(self)@.dom().contains(key@) && v@ == old(self)@[key@]
                    && final(self)@ == old(self)@.remove(key@),
                None => !old(self)@.dom().contains(key@) && final(self)@ == old(self)@,
            },
    {
        let r = self.map.remove(key);
        proof {
            assert(final(self).wf());
        }
        r
    }

    /// Reads the text stored under `key`, with the same two distinct failure
    /// kinds as [`HandleStore::get_byte_array`]: a caller that expects text
    /// while the key holds a byte sequence sees `WrongKind`, not `NotFound`.
    pub fn get_text(&self, key: &String) -> (r: Result<&String, HandleError>)
        requires
            self.wf(),
        ensures
            match r {
                Ok(s) => self@.dom().contains(key@) && self@[key@] == ValueView::Text(s@),
                Err(e) => {
                    &&& e is NotFound <==> !self@.dom().contains(key@)
                    &&& e is WrongKind <==> self@.dom().contains(key@) && !(self@[key@] is Text)
                },
            },
    {
        match self.get(key) {
            None => Err(HandleError::NotFound),
            Some(v) => match v {
                Value::Text(s) => Ok(s),
                _ => Err(HandleError::WrongKind),
            },
        }
    }

    /// Reads the byte sequence stored under `key`. Fails with `NotFound` when
    /// no value is live under `key`, and with the distinct `WrongKind` when a
    /// value is live but is not a byte sequence.
    pub fn get_byte_array(&self, key: &String) -> (r: Result<&Vec<u8>, HandleError>)
        requires
            self.wf(),
        ensures
            match r {
                Ok(b) => self@.dom().contains(key@) && self@[key@] == ValueView::ByteArray(b@),
                Err(e) => {
                    &&& e is NotFound <==> !self@.dom().contains(key@)
                    &&& e is WrongKind <==> self@.dom().contains(key@) && !(self@[key@] is ByteArray)
                },
            },
    {
        match self.get(key) {
            None => Err(HandleError::NotFound),
            Some(v) => match v {
                Value::ByteArray(b) => Ok(b),
                _ => Err(HandleError::WrongKind),
            },
        }
    }
}

/// Law: storing a value under a key and reading the key back yields the stored
/// value; taking the key removes it, so a later read finds nothing under it,
/// while every other key keeps its value.
pub proof fn lemma_handle_round_trip(m: Map<Seq<char>, ValueView>, k: Seq<char>, v: ValueView)
    ensures
        m.insert(k, v).dom().contains(k),
        m.insert(k, v)[k] == v,
        !m.insert(k, v).remove(k).dom().contains(k),
        forall|k2: Seq<char>|
            k2 != k && m.dom().contains(k2) ==> m.insert(k, v).remove(k)[k2] == m[k2],
{
}

} // verus!

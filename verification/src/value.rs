use vstd::prelude::*;

verus! {

/// A JSON-like document value.
///
/// The service's property schema is caller-defined per object type, so
/// properties travel as an open-ended tagged value: null, boolean,
/// integer, string, array, or an ordered list of key/value bindings.
/// Converting to and from the wire encoding is the transport layer's
/// concern; this type is what the client logic reads and builds.
#[derive(Debug, PartialEq)]
pub enum Value {
    Null,
    Bool(bool),
    Int(i64),
    Str(String),
    Arr(Vec<Value>),
    Obj(Vec<(String, Value)>),
}

/// The first binding of `key` among `entries`, compared by character
/// content, or `None` when no binding carries that key.
pub open spec fn spec_lookup(entries: Seq<(String, Value)>, key: Seq<char>) -> Option<Value>
    decreases entries.len(),
{
    if entries.len() == 0 {
        None
    } else if entries[0].0@ == key {
        Some(entries[0].1)
    } else {
        spec_lookup(entries.drop_first(), key)
    }
}

/// Each binding reduced to its key's character content and its value.
pub open spec fn entry_views(entries: Seq<(String, Value)>) -> Seq<(Seq<char>, Value)> {
    entries.map(|i: int, e: (String, Value)| (e.0@, e.1))
}

proof fn lemma_lookup_skip_one(entries: Seq<(String, Value)>, key: Seq<char>, i: int)
    requires
        0 <= i < entries.len(),
        entries[i].0@ != key,
    ensures
        spec_lookup(entries.skip(i), key) == spec_lookup(entries.skip(i + 1), key),
{
    assert(entries.skip(i)[0] == entries[i]);
    assert(entries.skip(i).drop_first() =~= entries.skip(i + 1));
}

impl Value {
    /// Whether this is the null value: an object fetched without any
    /// properties reports a null document rather than an empty one.
    pub fn is_null(&self) -> (r: bool)
        ensures
            r == (*self is Null),
    {
        match self {
            Value::Null => true,
            _ => false,
        }
    }

    /// How many bindings an object document carries; zero for any
    /// other value.
    pub fn entry_count(&self) -> (r: usize)
        ensures
            r == (match *self {
                Value::Obj(entries) => entries@.len(),
                _ => 0,
            }),
    {
        match self {
            Value::Obj(entries) => entries.len(),
            _ => 0,
        }
    }

    /// Look a key up in an object document: the first binding with that
    /// key, or `None` when the key is absent or this is not an object.
    pub fn get<'a>(&'a self, key: &String) -> (r: Option<&'a Value>)
        ensures
            match *self {
                Value::Obj(entries) => match r {
                    Some(v) => spec_lookup(entries@, key@) == Some(*v),
                    None => spec_lookup(entries@, key@) is None,
                },
                _ => r is None,
            },
    {
        match self {
            Value::Obj(entries) => {
                let n = entries.len();
                let mut i: usize = 0;
                assert(entries@.skip(0) =~= entries@);
                while i < n
                    invariant
                        i <= n,
                        n == entries@.len(),
                        *self == Value::Obj(*entries),
                        spec_lookup(entries@.skip(i as int), key@) == spec_lookup(
                            entries@,
                            key@,
                        ),
                    decreases n - i,
                {
                    if entries[i].0.eq(key) {
                        proof {
                            assert(entries@.skip(i as int)[0] == entries@[i as int]);
                            assert(entries@.skip(i as int).len() > 0);
                            assert(spec_lookup(entries@.skip(i as int), key@) == Some(
                                entries@[i as int].1,
                            ));
                        }
                        return Some(&entries[i].1);
                    }
                    proof {
                        lemma_lookup_skip_one(entries@, key@, i as int);
                    }
                    i = i + 1;
                }
                assert(entries@.skip(n as int) =~= Seq::<(String, Value)>::empty());
                None
            },
            _ => None,
        }
    }
}

} // verus!

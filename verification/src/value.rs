//! A plain tree of scalars, lists and keyed entries: the library's model
//! of a parsed configuration or parameter document. The shell around the
//! library parses JSON or YAML text with its own tools and hands the
//! resulting tree in as one of these values; every decision about the
//! tree's shape is made, verified, here.

use vstd::prelude::*;

verus! {

/// One node of a parsed document.
#[derive(Debug, PartialEq, Eq)]
pub enum DocValue {
    Null,
    Bool(bool),
    Int(i64),
    Str(String),
    List(Vec<DocValue>),
    Mapping(Vec<(String, DocValue)>),
}

/// The value under the first entry for `key`, if any.
pub open spec fn spec_lookup(entries: Seq<(String, DocValue)>, key: Seq<char>) -> Option<
    DocValue,
>
    decreases entries.len(),
{
    if entries.len() == 0 {
        None
    } else if entries[0].0@ == key {
        Some(entries[0].1)
    } else {
        spec_lookup(entries.skip(1), key)
    }
}

/// What `get` yields on a value: a mapping is searched, anything else has
/// no fields.
pub open spec fn spec_get(v: DocValue, key: Seq<char>) -> Option<DocValue> {
    match v {
        DocValue::Mapping(entries) => spec_lookup(entries@, key),
        _ => None,
    }
}

impl DocValue {
    /// The field named `key` of a mapping; nothing on any other shape.
    pub fn get<'a>(&'a self, key: &str) -> (r: Option<&'a DocValue>)
        ensures
            match r {
                Some(v) => spec_get(*self, key@) == Some(*v),
                None => spec_get(*self, key@) is None,
            },
    {
        match self {
            DocValue::Mapping(entries) => {
                let mut i: usize = 0;
                proof {
                    assert(entries@.skip(0) =~= entries@);
                }
                while i < entries.len()
                    invariant
                        *self == DocValue::Mapping(*entries),
                        i <= entries@.len(),
                        spec_lookup(entries@, key@) == spec_lookup(
                            entries@.skip(i as int),
                            key@,
                        ),
                    decreases entries@.len() - i,
                {
                    proof {
                        assert(entries@.skip(i as int)[0] == entries@[i as int]);
                        assert(entries@.skip(i as int).skip(1) =~= entries@.skip(i + 1));
                    }
                    if crate::text::str_eq(entries[i].0.as_str(), key) {
                        proof {
                            assert(spec_lookup(entries@.skip(i as int), key@) == Some(
                                entries@[i as int].1,
                            ));
                        }
                        return Some(&entries[i].1);
                    }
                    i = i + 1;
                }
                None
            },
            _ => None,
        }
    }

    /// The text of a string node.
    pub fn as_str<'a>(&'a self) -> (r: Option<&'a String>)
        ensures
            match r {
                Some(s) => *self == DocValue::Str(*s),
                None => !(*self is Str),
            },
    {
        match self {
            DocValue::Str(s) => Some(s),
            _ => None,
        }
    }

    /// The truth value of a boolean node.
    pub fn as_bool(&self) -> (r: Option<bool>)
        ensures
            match r {
                Some(b) => *self == DocValue::Bool(b),
                None => !(*self is Bool),
            },
    {
        match self {
            DocValue::Bool(b) => Some(*b),
            _ => None,
        }
    }
}

} // verus!

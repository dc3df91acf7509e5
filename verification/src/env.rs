//! Ordered environment-variable overrides: a list of key/value pairs in
//! which a later entry for a key shadows an earlier one. The engine keeps
//! true last-write-wins by removing every prior entry for a key before
//! appending the new pair; the order of the other keys is untouched.

use vstd::prelude::*;

use crate::store::env_view;
use crate::text;

verus! {

/// The overrides without any entry for `k`, order preserved.
pub open spec fn env_remove_key(e: Seq<(Seq<char>, Seq<char>)>, k: Seq<char>) -> Seq<
    (Seq<char>, Seq<char>),
>
    decreases e.len(),
{
    if e.len() == 0 {
        Seq::empty()
    } else {
        env_remove_key(e.drop_last(), k) + if e.last().0 == k {
            Seq::<(Seq<char>, Seq<char>)>::empty()
        } else {
            seq![e.last()]
        }
    }
}

/// The overrides with `k` set to `v`: prior entries for `k` are removed
/// and the new pair goes to the end.
pub open spec fn env_set(
    e: Seq<(Seq<char>, Seq<char>)>,
    k: Seq<char>,
    v: Seq<char>,
) -> Seq<(Seq<char>, Seq<char>)> {
    env_remove_key(e, k).push((k, v))
}

/// The entries of `e` that carry the key `k`, in order.
pub open spec fn entries_for(e: Seq<(Seq<char>, Seq<char>)>, k: Seq<char>) -> Seq<
    (Seq<char>, Seq<char>),
>
    decreases e.len(),
{
    if e.len() == 0 {
        Seq::empty()
    } else {
        entries_for(e.drop_last(), k) + if e.last().0 == k {
            seq![e.last()]
        } else {
            Seq::<(Seq<char>, Seq<char>)>::empty()
        }
    }
}

/// Removing a key removes its entries and no others.
pub proof fn lemma_env_remove_key_entries(
    e: Seq<(Seq<char>, Seq<char>)>,
    k: Seq<char>,
    k2: Seq<char>,
)
    ensures
        entries_for(env_remove_key(e, k), k) == Seq::<(Seq<char>, Seq<char>)>::empty(),
        k2 != k ==> entries_for(env_remove_key(e, k), k2) == entries_for(e, k2),
    decreases e.len(),
{
    if e.len() == 0 {
    } else {
        lemma_env_remove_key_entries(e.drop_last(), k, k2);
        let r = env_remove_key(e, k);
        if e.last().0 == k {
            assert(r == env_remove_key(e.drop_last(), k));
        } else {
            assert(r == env_remove_key(e.drop_last(), k).push(e.last()));
            assert(r.drop_last() =~= env_remove_key(e.drop_last(), k));
            assert(r.last() == e.last());
        }
    }
}

/// Removing a key twice is removing it once.
pub proof fn lemma_env_remove_key_idempotent(e: Seq<(Seq<char>, Seq<char>)>, k: Seq<char>)
    ensures
        env_remove_key(env_remove_key(e, k), k) == env_remove_key(e, k),
    decreases e.len(),
{
    if e.len() == 0 {
        assert(env_remove_key(env_remove_key(e, k), k) =~= env_remove_key(e, k));
    } else {
        lemma_env_remove_key_idempotent(e.drop_last(), k);
        let r = env_remove_key(e, k);
        if e.last().0 == k {
        } else {
            assert(r.drop_last() =~= env_remove_key(e.drop_last(), k));
            assert(r.last() == e.last());
        }
    }
}

/// Setting the same key twice keeps exactly the later value: the result
/// is what one write of the later value gives, the key holds one entry
/// with that value, and the entries of every other key stand as they
/// were.
pub proof fn lemma_env_set_twice(
    e: Seq<(Seq<char>, Seq<char>)>,
    k: Seq<char>,
    v1: Seq<char>,
    v2: Seq<char>,
)
    ensures
        env_set(env_set(e, k, v1), k, v2) == env_set(e, k, v2),
        entries_for(env_set(env_set(e, k, v1), k, v2), k) == seq![(k, v2)],
        forall|k2: Seq<char>|
            k2 != k ==> #[trigger] entries_for(env_set(env_set(e, k, v1), k, v2), k2)
                == entries_for(e, k2),
{
    let once = env_set(e, k, v1);
    assert(env_remove_key(once, k) == env_remove_key(e, k)) by {
        assert(once.drop_last() =~= env_remove_key(e, k));
        assert(once.last() == (k, v1));
        lemma_env_remove_key_idempotent(e, k);
    }
    assert(env_set(env_set(e, k, v1), k, v2) == env_set(e, k, v2));
    lemma_env_set_entries(e, k, v2);
    assert forall|k2: Seq<char>| k2 != k implies #[trigger] entries_for(
        env_set(env_set(e, k, v1), k, v2),
        k2,
    ) == entries_for(e, k2) by {
        lemma_env_set_entries_other(e, k, v2, k2);
    }
}

/// After a write, the written key holds exactly its new pair.
pub proof fn lemma_env_set_entries(e: Seq<(Seq<char>, Seq<char>)>, k: Seq<char>, v: Seq<char>)
    ensures
        entries_for(env_set(e, k, v), k) == seq![(k, v)],
{
    let s = env_set(e, k, v);
    assert(s.drop_last() =~= env_remove_key(e, k));
    assert(s.last() == (k, v));
    lemma_env_remove_key_entries(e, k, k);
    assert(entries_for(s, k) =~= seq![(k, v)]);
}

/// A write leaves every other key's entries as they were.
pub proof fn lemma_env_set_entries_other(
    e: Seq<(Seq<char>, Seq<char>)>,
    k: Seq<char>,
    v: Seq<char>,
    k2: Seq<char>,
)
    requires
        k2 != k,
    ensures
        entries_for(env_set(e, k, v), k2) == entries_for(e, k2),
{
    let s = env_set(e, k, v);
    assert(s.drop_last() =~= env_remove_key(e, k));
    assert(s.last() == (k, v));
    lemma_env_remove_key_entries(e, k, k2);
}

impl text::SortKey for (String, String) {
    open spec fn key(&self) -> Seq<char> {
        self.0@
    }

    fn key_le(&self, other: &Self) -> (r: bool)
        ensures
            r == text::lex_le(self.key(), other.key()),
    {
        text::str_le(self.0.as_str(), other.0.as_str())
    }
}

/// Removes every entry for `key` from the overrides, in place.
pub fn remove_var(env: &mut Vec<(String, String)>, key: &str)
    ensures
        env_view(final(env)@) == env_remove_key(env_view(old(env)@), key@),
{
    let mut out: Vec<(String, String)> = Vec::new();
    let n = env.len();
    let mut i: usize = 0;
    while i < n
        invariant
            i <= n,
            n == env@.len(),
            env_view(out@) == env_remove_key(env_view(env@.take(i as int)), key@),
        decreases n - i,
    {
        proof {
            let pre = env_view(env@.take(i as int));
            let cur = env_view(env@.take(i + 1));
            assert(cur.drop_last() =~= pre);
            assert(cur.last() == (env@[i as int].0@, env@[i as int].1@));
        }
        if !text::str_eq(env[i].0.as_str(), key) {
            let ghost before = out@;
            out.push((env[i].0.clone(), env[i].1.clone()));
            proof {
                assert(env_view(out@) =~= env_view(before).push(
                    (env@[i as int].0@, env@[i as int].1@),
                )) by {
                    assert(out@.drop_last() =~= before);
                }
            }
        }
        i = i + 1;
    }
    proof {
        assert(env@.take(n as int) =~= env@);
    }
    *env = out;
}

/// Sets `key` to `value` in the overrides: every prior entry for the key
/// goes away and the new pair is appended.
pub fn set_var(env: &mut Vec<(String, String)>, key: String, value: String)
    ensures
        env_view(final(env)@) == env_set(env_view(old(env)@), key@, value@),
{
    remove_var(env, key.as_str());
    let ghost mid = env_view(env@);
    env.push((key, value));
    proof {
        assert(env_view(env@) =~= mid.push((key@, value@))) by {
            assert(env_view(env@).drop_last() =~= mid);
        }
    }
}

} // verus!

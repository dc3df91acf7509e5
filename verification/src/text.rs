//! String utilities shared by the store, the registry and the recipe
//! components: lexicographic comparison, character collection, and small
//! builders for paths and labels. Paths are plain strings here; the shell
//! around the library turns them into OS paths.

use vstd::multiset::Multiset;
use vstd::prelude::*;

verus! {

/// Lexicographic order on character sequences by code point, the same
/// order `str` comparison uses (UTF-8 byte order preserves code points).
pub open spec fn lex_le(a: Seq<char>, b: Seq<char>) -> bool
    decreases a.len(),
{
    if a.len() == 0 {
        true
    } else if b.len() == 0 {
        false
    } else if a[0] == b[0] {
        lex_le(a.skip(1), b.skip(1))
    } else {
        (a[0] as u32) < (b[0] as u32)
    }
}

/// `lex_le` is total: any two sequences compare one way or the other.
pub proof fn lemma_lex_le_total(a: Seq<char>, b: Seq<char>)
    ensures
        lex_le(a, b) || lex_le(b, a),
    decreases a.len(),
{
    if a.len() == 0 || b.len() == 0 {
    } else if a[0] == b[0] {
        lemma_lex_le_total(a.skip(1), b.skip(1));
    } else {
        assert((a[0] as u32) != (b[0] as u32)) by {
            vstd::utf8::char_u32_cast(a[0], a[0] as u32);
            vstd::utf8::char_u32_cast(b[0], b[0] as u32);
        }
    }
}

/// Equal prefixes do not affect the comparison of what follows them.
proof fn lemma_lex_le_skip(a: Seq<char>, b: Seq<char>, i: int)
    requires
        0 <= i < a.len(),
        i < b.len(),
        forall|j: int| 0 <= j <= i ==> a[j] == b[j],
    ensures
        lex_le(a, b) == lex_le(a.skip(i + 1), b.skip(i + 1)),
    decreases i,
{
    if i == 0 {
        assert(a.skip(1) =~= a.skip(i + 1));
        assert(b.skip(1) =~= b.skip(i + 1));
    } else {
        assert(a[0] == b[0]);
        let a1 = a.skip(1);
        let b1 = b.skip(1);
        assert(forall|j: int| 0 <= j <= i - 1 ==> a1[j] == b1[j]);
        lemma_lex_le_skip(a1, b1, i - 1);
        assert(a1.skip(i) =~= a.skip(i + 1));
        assert(b1.skip(i) =~= b.skip(i + 1));
    }
}

/// `lex_le` is transitive.
pub proof fn lemma_lex_le_trans(a: Seq<char>, b: Seq<char>, c: Seq<char>)
    requires
        lex_le(a, b),
        lex_le(b, c),
    ensures
        lex_le(a, c),
    decreases a.len(),
{
    if a.len() == 0 || b.len() == 0 || c.len() == 0 {
    } else if a[0] == b[0] && b[0] == c[0] {
        lemma_lex_le_trans(a.skip(1), b.skip(1), c.skip(1));
    } else {
        vstd::utf8::char_u32_cast(a[0], a[0] as u32);
        vstd::utf8::char_u32_cast(b[0], b[0] as u32);
        vstd::utf8::char_u32_cast(c[0], c[0] as u32);
    }
}

/// Compares two strings in the order `lex_le` describes.
pub fn str_le(a: &str, b: &str) -> (r: bool)
    ensures
        r == lex_le(a@, b@),
{
    let la = a.unicode_len();
    let lb = b.unicode_len();
    let mut i: usize = 0;
    loop
        invariant
            i <= la,
            i <= lb,
            la == a@.len(),
            lb == b@.len(),
            forall|j: int| 0 <= j < i ==> a@[j] == b@[j],
        decreases la - i,
    {
        if i == la {
            proof {
                if i == 0 {
                } else {
                    lemma_lex_le_skip(a@, b@, i - 1);
                    assert(a@.skip(i as int).len() == 0);
                }
            }
            return true;
        }
        if i == lb {
            proof {
                if i == 0 {
                } else {
                    lemma_lex_le_skip(a@, b@, i - 1);
                    assert(b@.skip(i as int).len() == 0);
                    assert(a@.skip(i as int).len() > 0);
                }
            }
            return false;
        }
        let ca = a.get_char(i);
        let cb = b.get_char(i);
        if ca != cb {
            proof {
                if i > 0 {
                    lemma_lex_le_skip(a@, b@, i - 1);
                }
                assert(a@.skip(i as int)[0] == a@[i as int]);
                assert(b@.skip(i as int)[0] == b@[i as int]);
            }
            return (ca as u32) < (cb as u32);
        }
        i = i + 1;
    }
}

/// Whether two strings hold the same characters.
pub fn str_eq(a: &str, b: &str) -> (r: bool)
    ensures
        r == (a@ == b@),
{
    let la = a.unicode_len();
    let lb = b.unicode_len();
    if la != lb {
        return false;
    }
    let mut i: usize = 0;
    while i < la
        invariant
            i <= la,
            la == a@.len(),
            la == b@.len(),
            forall|j: int| 0 <= j < i ==> a@[j] == b@[j],
        decreases la - i,
    {
        if a.get_char(i) != b.get_char(i) {
            return false;
        }
        i = i + 1;
    }
    proof {
        assert(a@ =~= b@);
    }
    true
}

/// The characters of a string collected into a vector, in order.
pub fn chars_of(s: &str) -> (r: Vec<char>)
    ensures
        r@ == s@,
{
    let n = s.unicode_len();
    let mut out: Vec<char> = Vec::new();
    let mut i: usize = 0;
    while i < n
        invariant
            i <= n,
            n == s@.len(),
            out@ == s@.take(i as int),
        decreases n - i,
    {
        out.push(s.get_char(i));
        proof {
            assert(out@ =~= s@.take(i + 1));
        }
        i = i + 1;
    }
    proof {
        assert(out@ =~= s@);
    }
    out
}

/// Relies on `String::push`: appends one character to the string.
#[verifier::external_body]
pub(crate) fn push_char(s: &mut String, c: char)
    ensures
        final(s)@ == old(s)@.push(c),
{
    s.push(c);
}

/// A string holding the given characters, in order.
pub fn string_of(chars: &Vec<char>) -> (r: String)
    ensures
        r@ == chars@,
{
    let mut out = String::new();
    let mut i: usize = 0;
    while i < chars.len()
        invariant
            i <= chars.len(),
            out@ == chars@.take(i as int),
        decreases chars.len() - i,
    {
        push_char(&mut out, chars[i]);
        proof {
            assert(out@ =~= chars@.take(i + 1));
        }
        i = i + 1;
    }
    proof {
        assert(out@ =~= chars@);
    }
    out
}

/// A string holding the characters of `v` from `from` up to `to`.
pub fn string_of_range(v: &Vec<char>, from: usize, to: usize) -> (r: String)
    requires
        from <= to <= v@.len(),
    ensures
        r@ == v@.subrange(from as int, to as int),
{
    let mut out = String::new();
    let mut i: usize = from;
    while i < to
        invariant
            from <= i <= to <= v@.len(),
            out@ == v@.subrange(from as int, i as int),
        decreases to - i,
    {
        push_char(&mut out, v[i]);
        proof {
            assert(out@ =~= v@.subrange(from as int, i + 1));
        }
        i = i + 1;
    }
    out
}

/// Mapping both sides of a permutation keeps it one: sequences with equal
/// multisets have image sequences with equal multisets.
pub proof fn lemma_map_values_multiset_eq<A, B>(a: Seq<A>, b: Seq<A>, f: spec_fn(A) -> B)
    requires
        a.to_multiset() == b.to_multiset(),
    ensures
        a.map_values(f).to_multiset() == b.map_values(f).to_multiset(),
    decreases a.len(),
{
    broadcast use vstd::seq_lib::group_to_multiset_ensures;
    broadcast use vstd::multiset::group_multiset_axioms;

    vstd::seq_lib::to_multiset_len(a);
    vstd::seq_lib::to_multiset_len(b);
    if a.len() == 0 {
        assert(a.map_values(f) =~= Seq::<B>::empty());
        assert(b.map_values(f) =~= Seq::<B>::empty());
    } else {
        let x = a.last();
        assert(a.to_multiset().count(x) > 0) by {
            assert(a =~= a.drop_last().push(x));
        }
        assert(b.to_multiset().count(x) > 0);
        assert(b.contains(x));
        let i = choose|i: int| 0 <= i < b.len() && b[i] == x;
        let b1 = b.remove(i);
        assert(a.drop_last().to_multiset() == b1.to_multiset()) by {
            assert(a =~= a.drop_last().push(x));
            assert(a.drop_last().push(x).to_multiset() == a.drop_last().to_multiset().insert(x));
            vstd::seq_lib::to_multiset_remove(b, i);
            assert(a.drop_last().to_multiset() =~= b.to_multiset().remove(x));
        }
        lemma_map_values_multiset_eq(a.drop_last(), b1, f);
        let fa = a.map_values(f);
        let fb = b.map_values(f);
        assert(a.drop_last().map_values(f) =~= fa.drop_last());
        assert(b1.map_values(f) =~= fb.remove(i));
        assert(fa == fa.drop_last().push(f(x)));
        assert(fa.to_multiset() == fa.drop_last().to_multiset().insert(f(x)));
        vstd::seq_lib::to_multiset_remove(fb, i);
        assert(fb.remove(i).to_multiset() == fb.to_multiset().remove(fb[i]));
        assert(fb[i] == f(x));
        assert(fb.to_multiset().count(f(x)) > 0) by {
            assert(fb =~= fb.remove(i).insert(i, f(x)));
            assert(fb.remove(i).insert(i, f(x)).to_multiset() == fb.remove(
                i,
            ).to_multiset().insert(f(x)));
        }
        assert(fa.to_multiset() =~= fb.to_multiset());
    }
}

/// `a` followed by `b`.
pub fn concat2(a: &str, b: &str) -> (r: String)
    ensures
        r@ == a@ + b@,
{
    let mut out = a.to_owned();
    out.append(b);
    out
}

/// `a`, `b`, then `c`, in order.
pub fn concat3(a: &str, b: &str, c: &str) -> (r: String)
    ensures
        r@ == a@ + b@ + c@,
{
    let mut out = a.to_owned();
    out.append(b);
    out.append(c);
    out
}

/// A path made of `base`, a separator, and `leaf`.
pub fn path_join(base: &str, leaf: &str) -> (r: String)
    ensures
        r@ == base@ + "/"@ + leaf@,
{
    concat3(base, "/", leaf)
}

/// The views of a list of strings.
pub open spec fn strs_view(s: Seq<String>) -> Seq<Seq<char>> {
    s.map_values(|x: String| x@)
}

/// A copy of a list of strings with the same contents.
pub fn clone_strs(v: &Vec<String>) -> (r: Vec<String>)
    ensures
        strs_view(r@) == strs_view(v@),
{
    let mut out: Vec<String> = Vec::new();
    let mut i: usize = 0;
    while i < v.len()
        invariant
            i <= v@.len(),
            out@.len() == i,
            strs_view(out@) == strs_view(v@.take(i as int)),
        decreases v@.len() - i,
    {
        let ghost pre = out@;
        out.push(v[i].clone());
        proof {
            assert forall|j: int| 0 <= j < i + 1 implies strs_view(out@)[j] == strs_view(
                v@.take(i + 1),
            )[j] by {
                if j < i {
                    assert(strs_view(pre)[j] == strs_view(v@.take(i as int))[j]);
                    assert(out@[j] == pre[j]);
                    assert(v@.take(i + 1)[j] == v@.take(i as int)[j]);
                } else {
                    assert(out@[j]@ == v@[j]@);
                }
            }
            assert(strs_view(out@) =~= strs_view(v@.take(i + 1)));
        }
        i = i + 1;
    }
    proof {
        assert(v@.take(v@.len() as int) =~= v@);
    }
    out
}

/// The lower-case form of a string, as the standard library's Unicode
/// case folding produces it; the result depends on the characters alone.
pub uninterp spec fn lower_of(s: Seq<char>) -> Seq<char>;

/// Relies on `str::to_lowercase`: the lower-case form of the text, a
/// function of its characters alone; an empty input stays empty.
#[verifier::external_body]
pub(crate) fn to_lowercase(s: &str) -> (r: String)
    ensures
        r@ == lower_of(s@),
        s@.len() == 0 ==> r@.len() == 0,
{
    s.to_lowercase()
}

/// An item that carries a text key to order it by.
pub trait SortKey {
    /// The key the order compares.
    spec fn key(&self) -> Seq<char>;

    /// Whether this item's key comes no later than `other`'s.
    fn key_le(&self, other: &Self) -> (r: bool)
        ensures
            r == lex_le(self.key(), other.key()),
    ;
}

/// The items in ascending key order (`lex_le`); items with equal keys may
/// appear in any order among themselves.
#[verifier::loop_isolation(false)]
pub fn sort_by_key<T: SortKey>(v: Vec<T>) -> (r: Vec<T>)
    ensures
        r@.to_multiset() == v@.to_multiset(),
        forall|i: int, j: int|
            0 <= i < j < r@.len() ==> lex_le(#[trigger] r@[i].key(), #[trigger] r@[j].key()),
{
    broadcast use vstd::seq_lib::group_to_multiset_ensures;
    broadcast use vstd::multiset::group_multiset_axioms;

    let mut rest = v;
    let mut out: Vec<T> = Vec::new();
    let ghost orig = rest@;
    proof {
        assert(out@.to_multiset().add(rest@.to_multiset()) =~= rest@.to_multiset());
    }
    loop
        invariant
            out@.to_multiset().add(rest@.to_multiset()) == orig.to_multiset(),
            forall|i: int, j: int|
                0 <= i < j < out@.len() ==> lex_le(
                    #[trigger] out@[i].key(),
                    #[trigger] out@[j].key(),
                ),
        decreases rest@.len(),
    {
        let ghost top = rest@;
        let item = match rest.pop() {
            Some(item) => item,
            None => {
                proof {
                    vstd::seq_lib::to_multiset_len(rest@);
                    vstd::multiset::lemma_multiset_empty_len(rest@.to_multiset());
                    assert(rest@.to_multiset().len() == 0);
                    assert(out@.to_multiset().add(rest@.to_multiset()) =~= out@.to_multiset());
                }
                return out;
            },
        };
        proof {
            assert(top =~= rest@.push(item));
            assert(top.to_multiset() == rest@.to_multiset().insert(item));
        }
        let mut pos: usize = 0;
        while pos < out.len() && out[pos].key_le(&item)
            invariant
                pos <= out@.len(),
                forall|jj: int| 0 <= jj < pos ==> lex_le(#[trigger] out@[jj].key(), item.key()),
            decreases out@.len() - pos,
        {
            pos = pos + 1;
        }
        proof {
            if pos < out@.len() {
                lemma_lex_le_total(out@[pos as int].key(), item.key());
            }
        }
        let ghost before = out@;
        out.insert(pos, item);
        proof {
            let s = before.insert(pos as int, item);
            assert(out@ == s);
            assert forall|i: int, j: int| 0 <= i < j < s.len() implies lex_le(
                #[trigger] s[i].key(),
                #[trigger] s[j].key(),
            ) by {
                if j < pos {
                } else if i < pos && j == pos {
                    assert(s[i] == before[i]);
                } else if i < pos && j > pos {
                    assert(s[i] == before[i] && s[j] == before[j - 1]);
                } else if i == pos && j > pos {
                    assert(s[j] == before[j - 1]);
                    if j - 1 > pos {
                        lemma_lex_le_trans(item.key(), before[pos as int].key(), before[j - 1].key());
                    }
                } else {
                    assert(s[i] == before[i - 1] && s[j] == before[j - 1]);
                }
            }
            assert(out@.to_multiset() == before.to_multiset().insert(item));
            assert(out@.to_multiset().add(rest@.to_multiset()) =~= orig.to_multiset());
        }
    }
}

} // verus!

//! Bottle names as validated slugs: lower-case letters, digits, dashes and
//! underscores, never empty, never starting or ending with a dash or an
//! underscore. Free-form user input is reduced to this shape or rejected.

use vstd::prelude::*;

verus! {

/// What one input character contributes to a slug: letters keep their
/// lower-case form, digits and `-`/`_` pass through, a space becomes a
/// dash, everything else is dropped.
pub open spec fn slug_char(c: char) -> Option<char> {
    let u = c as u32;
    if 97 <= u <= 122 || 48 <= u <= 57 || c == '-' || c == '_' {
        Some(c)
    } else if 65 <= u <= 90 {
        Some((((u + 32) as u8) as char))
    } else if c == ' ' {
        Some('-')
    } else {
        None
    }
}

/// The slug characters contributed by each input character, in order.
pub open spec fn slug_map(s: Seq<char>) -> Seq<char>
    decreases s.len(),
{
    if s.len() == 0 {
        Seq::empty()
    } else {
        slug_map(s.drop_last()) + match slug_char(s.last()) {
            Some(c) => seq![c],
            None => Seq::<char>::empty(),
        }
    }
}

/// A character that may not begin or end a slug.
pub open spec fn is_trim_char(c: char) -> bool {
    c == '-' || c == '_'
}

/// `s` without its leading dashes and underscores.
pub open spec fn trim_start(s: Seq<char>) -> Seq<char>
    decreases s.len(),
{
    if s.len() > 0 && is_trim_char(s[0]) {
        trim_start(s.skip(1))
    } else {
        s
    }
}

/// `s` without its trailing dashes and underscores.
pub open spec fn trim_end(s: Seq<char>) -> Seq<char>
    decreases s.len(),
{
    if s.len() > 0 && is_trim_char(s.last()) {
        trim_end(s.drop_last())
    } else {
        s
    }
}

/// The slug that an arbitrary display name reduces to; empty when the
/// name has no usable characters.
pub open spec fn slug_of(s: Seq<char>) -> Seq<char> {
    trim_end(trim_start(slug_map(s)))
}

/// A sanitized bottle name; the directory on disk that backs the bottle
/// is named after it.
#[derive(Clone, Debug, PartialEq, Eq, Hash)]
pub struct BottleName(String);

impl View for BottleName {
    type V = Seq<char>;

    closed spec fn view(&self) -> Seq<char> {
        self.0@
    }
}

impl BottleName {
    /// The slug as a string slice.
    pub fn as_str(&self) -> (r: &str)
        ensures
            r@ == self@,
    {
        self.0.as_str()
    }

    /// Reduces free-form input to a slug, or yields nothing when no
    /// usable character remains.
    pub fn sanitize(input: &str) -> (r: Option<String>)
        ensures
            match r {
                Some(s) => s@ == slug_of(input@) && slug_of(input@).len() > 0,
                None => slug_of(input@).len() == 0,
            },
    {
        let chars = crate::text::chars_of(input);
        let mut mapped: Vec<char> = Vec::new();
        let mut i: usize = 0;
        while i < chars.len()
            invariant
                i <= chars.len(),
                chars@ == input@,
                mapped@ == slug_map(input@.take(i as int)),
            decreases chars.len() - i,
        {
            let c = chars[i];
            let u = c as u32;
            if (97 <= u && u <= 122) || (48 <= u && u <= 57) || c == '-' || c == '_' {
                mapped.push(c);
            } else if 65 <= u && u <= 90 {
                mapped.push(((u + 32) as u8) as char);
            } else if c == ' ' {
                mapped.push('-');
            }
            proof {
                assert(input@.take(i + 1).drop_last() =~= input@.take(i as int));
                assert(input@.take(i + 1).last() == input@[i as int]);
            }
            i = i + 1;
        }
        proof {
            assert(input@.take(chars@.len() as int) =~= input@);
        }
        let trimmed = trim_slug(&mapped);
        if trimmed.len() == 0 {
            None
        } else {
            Some(crate::text::string_of(&trimmed))
        }
    }
}

/// The characters of `v` without leading or trailing dashes and
/// underscores.
fn trim_slug(v: &Vec<char>) -> (r: Vec<char>)
    ensures
        r@ == trim_end(trim_start(v@)),
{
    let n = v.len();
    let mut start: usize = 0;
    proof {
        assert(v@.skip(0) =~= v@);
    }
    while start < n && (v[start] == '-' || v[start] == '_')
        invariant
            start <= n,
            n == v@.len(),
            trim_start(v@) == trim_start(v@.skip(start as int)),
        decreases n - start,
    {
        proof {
            assert(v@.skip(start as int)[0] == v@[start as int]);
            assert(v@.skip(start as int).skip(1) =~= v@.skip(start + 1));
        }
        start = start + 1;
    }
    proof {
        if start < n {
            assert(v@.skip(start as int)[0] == v@[start as int]);
        }
        assert(trim_start(v@) == v@.skip(start as int));
    }
    let rest: Ghost<Seq<char>> = Ghost(v@.skip(start as int));
    let mut end: usize = n;
    proof {
        assert(rest@.take(n - start) =~= rest@);
    }
    while end > start && (v[end - 1] == '-' || v[end - 1] == '_')
        invariant
            start <= end <= n,
            n == v@.len(),
            rest@ == v@.skip(start as int),
            trim_end(rest@) == trim_end(rest@.take(end - start)),
        decreases end,
    {
        proof {
            let t = rest@.take(end - start);
            assert(t.last() == v@[end - 1]);
            assert(t.drop_last() =~= rest@.take(end - 1 - start as int));
        }
        end = end - 1;
    }
    proof {
        let t = rest@.take(end - start);
        if end > start {
            assert(t.last() == v@[end - 1]);
        }
        assert(trim_end(rest@) == rest@.take(end - start));
    }
    let mut out: Vec<char> = Vec::new();
    let mut i: usize = start;
    while i < end
        invariant
            start <= i <= end <= n,
            n == v@.len(),
            out@ == v@.subrange(start as int, i as int),
        decreases end - i,
    {
        out.push(v[i]);
        proof {
            assert(v@.subrange(start as int, i + 1) =~= v@.subrange(start as int, i as int).push(
                v@[i as int],
            ));
        }
        i = i + 1;
    }
    proof {
        assert(out@ =~= rest@.take(end - start));
    }
    out
}

impl core::str::FromStr for BottleName {
    type Err = crate::AlloyError;

    fn from_str(value: &str) -> Result<Self, Self::Err> {
        match BottleName::sanitize(value) {
            Some(s) => Ok(BottleName(s)),
            None => Err(crate::AlloyError::InvalidInput(
                "please pick a bottle name that uses letters, numbers, dashes, or underscores".to_owned(),
            )),
        }
    }
}

} // verus!

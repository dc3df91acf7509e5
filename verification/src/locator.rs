//! A located runtime installation: its root directory, the metadata read
//! from its build-information file, and the paths of its tools. The
//! build-information file is plain `key=value` lines; parsing it is this
//! module's logic, reading it from disk is the shell's.

use vstd::prelude::*;

use crate::text;

verus! {

/// What a runtime's build-information file describes.
#[derive(Debug)]
pub struct RuntimeMetadata {
    pub version: String,
    pub arch: String,
    pub built_at: Option<String>,
    pub sdk_path: Option<String>,
    pub sdk_version: Option<String>,
    pub min_macos: Option<String>,
}

/// The mathematical shape of a `RuntimeMetadata`.
pub struct RuntimeMetadataView {
    pub version: Seq<char>,
    pub arch: Seq<char>,
    pub built_at: Option<Seq<char>>,
    pub sdk_path: Option<Seq<char>>,
    pub sdk_version: Option<Seq<char>>,
    pub min_macos: Option<Seq<char>>,
}

impl View for RuntimeMetadata {
    type V = RuntimeMetadataView;

    open spec fn view(&self) -> RuntimeMetadataView {
        RuntimeMetadataView {
            version: self.version@,
            arch: self.arch@,
            built_at: crate::runtime::opt_view(self.built_at),
            sdk_path: crate::runtime::opt_view(self.sdk_path),
            sdk_version: crate::runtime::opt_view(self.sdk_version),
            min_macos: crate::runtime::opt_view(self.min_macos),
        }
    }
}

impl RuntimeMetadata {
    /// A copy with the same contents.
    pub fn duplicate(&self) -> (r: Self)
        ensures
            r@ == self@,
    {
        RuntimeMetadata {
            version: self.version.clone(),
            arch: self.arch.clone(),
            built_at: crate::runtime::clone_opt(&self.built_at),
            sdk_path: crate::runtime::clone_opt(&self.sdk_path),
            sdk_version: crate::runtime::clone_opt(&self.sdk_version),
            min_macos: crate::runtime::clone_opt(&self.min_macos),
        }
    }
}

/// A whitespace character as the build-information values use them.
pub open spec fn is_ws(c: char) -> bool {
    c == ' ' || c == '\t' || c == '\r' || c == '\n'
}

/// `s` without leading whitespace.
pub open spec fn trim_ws_start(s: Seq<char>) -> Seq<char>
    decreases s.len(),
{
    if s.len() > 0 && is_ws(s[0]) {
        trim_ws_start(s.skip(1))
    } else {
        s
    }
}

/// `s` without trailing whitespace.
pub open spec fn trim_ws_end(s: Seq<char>) -> Seq<char>
    decreases s.len(),
{
    if s.len() > 0 && is_ws(s.last()) {
        trim_ws_end(s.drop_last())
    } else {
        s
    }
}

/// `s` without leading or trailing whitespace.
pub open spec fn trim_ws(s: Seq<char>) -> Seq<char> {
    trim_ws_end(trim_ws_start(s))
}

/// What follows `p` at the start of `s`, if `s` begins with it.
pub open spec fn strip_prefix(s: Seq<char>, p: Seq<char>) -> Option<Seq<char>> {
    if s.len() >= p.len() && s.take(p.len() as int) == p {
        Some(s.skip(p.len() as int))
    } else {
        None
    }
}

/// The position of the first line break at or after `from`, if any.
pub open spec fn find_nl(s: Seq<char>, from: int) -> Option<int>
    decreases s.len() - from,
{
    if from < 0 || from >= s.len() {
        None
    } else if s[from] == '\n' {
        Some(from)
    } else {
        find_nl(s, from + 1)
    }
}

/// The text split at line breaks; a trailing break yields a final empty
/// line, which matches no key and is ignored by the fold.
pub open spec fn split_lines(s: Seq<char>) -> Seq<Seq<char>>
    decreases s.len(),
    via split_lines_dec
{
    match find_nl(s, 0) {
        None => seq![s],
        Some(k) => seq![s.take(k)] + split_lines(s.skip(k + 1)),
    }
}

#[via_fn]
proof fn split_lines_dec(s: Seq<char>) {
    lemma_find_nl_bounds(s, 0);
}

/// A found line break lies inside the text, at or after where the search
/// began.
proof fn lemma_find_nl_bounds(s: Seq<char>, from: int)
    requires
        0 <= from,
    ensures
        find_nl(s, from) matches Some(k) ==> from <= k < s.len(),
    decreases s.len() - from,
{
    if from < s.len() && s[from] != '\n' {
        lemma_find_nl_bounds(s, from + 1);
    }
}

/// Searching after dropping a prefix finds the same break, shifted.
proof fn lemma_find_nl_skip(s: Seq<char>, p: int, d: int)
    requires
        0 <= p,
        0 <= d,
        p + d <= s.len(),
    ensures
        find_nl(s, p + d) == match find_nl(s.skip(p), d) {
            Some(k) => Some(k + p),
            None => None::<int>,
        },
    decreases s.len() - (p + d),
{
    if p + d < s.len() {
        assert(s.skip(p)[d] == s[p + d]);
        if s[p + d] != '\n' {
            lemma_find_nl_skip(s, p, d + 1);
        }
    }
}

/// The fields as they accumulate while reading lines; a later line for a
/// key overrides an earlier one, except that an empty value leaves the
/// optional toolchain fields untouched.
pub struct MetaAcc {
    pub version: Option<Seq<char>>,
    pub arch: Option<Seq<char>>,
    pub built_at: Option<Seq<char>>,
    pub sdk_path: Option<Seq<char>>,
    pub sdk_version: Option<Seq<char>>,
    pub min_macos: Option<Seq<char>>,
}

/// The accumulator before any line is read.
pub open spec fn empty_acc() -> MetaAcc {
    MetaAcc {
        version: None,
        arch: None,
        built_at: None,
        sdk_path: None,
        sdk_version: None,
        min_macos: None,
    }
}

/// What one line contributes: the first key whose prefix matches takes
/// the trimmed remainder.
pub open spec fn line_effect(acc: MetaAcc, line: Seq<char>) -> MetaAcc {
    if strip_prefix(line, "version="@) is Some {
        MetaAcc { version: Some(trim_ws(strip_prefix(line, "version="@).unwrap())), ..acc }
    } else if strip_prefix(line, "arch="@) is Some {
        MetaAcc { arch: Some(trim_ws(strip_prefix(line, "arch="@).unwrap())), ..acc }
    } else if strip_prefix(line, "built_at="@) is Some {
        MetaAcc { built_at: Some(trim_ws(strip_prefix(line, "built_at="@).unwrap())), ..acc }
    } else if strip_prefix(line, "sdk_path="@) is Some {
        let v = trim_ws(strip_prefix(line, "sdk_path="@).unwrap());
        if v.len() > 0 {
            MetaAcc { sdk_path: Some(v), ..acc }
        } else {
            acc
        }
    } else if strip_prefix(line, "sdk_version="@) is Some {
        let v = trim_ws(strip_prefix(line, "sdk_version="@).unwrap());
        if v.len() > 0 {
            MetaAcc { sdk_version: Some(v), ..acc }
        } else {
            acc
        }
    } else if strip_prefix(line, "min_macos="@) is Some {
        let v = trim_ws(strip_prefix(line, "min_macos="@).unwrap());
        if v.len() > 0 {
            MetaAcc { min_macos: Some(v), ..acc }
        } else {
            acc
        }
    } else {
        acc
    }
}

/// The accumulator after reading every line in order.
pub open spec fn fold_lines(acc: MetaAcc, lines: Seq<Seq<char>>) -> MetaAcc
    decreases lines.len(),
{
    if lines.len() == 0 {
        acc
    } else {
        fold_lines(line_effect(acc, lines[0]), lines.skip(1))
    }
}

/// The metadata a build-information text describes: the accumulated
/// fields, with the version and architecture falling back to a fixed
/// marker when the file never named them.
pub open spec fn buildinfo_of(s: Seq<char>) -> RuntimeMetadataView {
    let acc = fold_lines(empty_acc(), split_lines(s));
    RuntimeMetadataView {
        version: match acc.version {
            Some(v) => v,
            None => "unknown"@,
        },
        arch: match acc.arch {
            Some(v) => v,
            None => "unknown"@,
        },
        built_at: acc.built_at,
        sdk_path: acc.sdk_path,
        sdk_version: acc.sdk_version,
        min_macos: acc.min_macos,
    }
}

/// Whether the characters of `v` between `from` and `to` start with `p`.
fn range_has_prefix(v: &Vec<char>, from: usize, to: usize, p: &str) -> (r: bool)
    requires
        from <= to <= v@.len(),
    ensures
        r == (strip_prefix(v@.subrange(from as int, to as int), p@) is Some),
{
    let plen = p.unicode_len();
    if to - from < plen {
        return false;
    }
    let mut i: usize = 0;
    while i < plen
        invariant
            i <= plen,
            plen == p@.len(),
            from <= to <= v@.len(),
            plen <= to - from,
            forall|j: int| 0 <= j < i ==> v@.subrange(from as int, to as int)[j] == p@[j],
        decreases plen - i,
    {
        proof {
            assert(v@.subrange(from as int, to as int)[i as int] == v@[from + i]);
        }
        if v[from + i] != p.get_char(i) {
            proof {
                let s = v@.subrange(from as int, to as int);
                if s.len() >= p@.len() && s.take(p@.len() as int) == p@ {
                    assert(s.take(p@.len() as int)[i as int] == p@[i as int]);
                }
            }
            return false;
        }
        i = i + 1;
    }
    proof {
        let s = v@.subrange(from as int, to as int);
        assert(s.take(p@.len() as int) =~= p@);
    }
    true
}

/// The characters of `v` between `from` and `to`, trimmed of whitespace,
/// as a string.
fn trimmed_string(v: &Vec<char>, from: usize, to: usize) -> (r: String)
    requires
        from <= to <= v@.len(),
    ensures
        r@ == trim_ws(v@.subrange(from as int, to as int)),
{
    let ghost s = v@.subrange(from as int, to as int);
    let mut start: usize = from;
    proof {
        assert(s.skip(0) =~= s);
    }
    while start < to && (v[start] == ' ' || v[start] == '\t' || v[start] == '\r' || v[start]
        == '\n')
        invariant
            from <= start <= to <= v@.len(),
            s == v@.subrange(from as int, to as int),
            trim_ws_start(s) == trim_ws_start(s.skip(start - from)),
        decreases to - start,
    {
        proof {
            assert(s.skip(start - from)[0] == v@[start as int]);
            assert(s.skip(start - from).skip(1) =~= s.skip(start + 1 - from));
        }
        start = start + 1;
    }
    proof {
        if start < to {
            assert(s.skip(start - from)[0] == v@[start as int]);
        }
        assert(trim_ws_start(s) == s.skip(start - from));
    }
    let ghost rest = s.skip(start - from);
    let mut end: usize = to;
    proof {
        assert(rest.take(to - start) =~= rest);
    }
    while end > start && (v[end - 1] == ' ' || v[end - 1] == '\t' || v[end - 1] == '\r' || v[end
        - 1] == '\n')
        invariant
            start <= end <= to,
            from <= start,
            to <= v@.len(),
            s == v@.subrange(from as int, to as int),
            rest == s.skip(start - from),
            trim_ws_end(rest) == trim_ws_end(rest.take(end - start)),
        decreases end,
    {
        proof {
            let t = rest.take(end - start);
            assert(t.last() == v@[end - 1]);
            assert(t.drop_last() =~= rest.take(end - 1 - start as int));
        }
        end = end - 1;
    }
    proof {
        let t = rest.take(end - start);
        if end > start {
            assert(t.last() == v@[end - 1]);
        }
        assert(trim_ws_end(rest) == rest.take(end - start));
        assert(rest.take(end - start) =~= v@.subrange(start as int, end as int));
    }
    text::string_of_range(v, start, end)
}

/// The metadata a build-information text describes, exactly as
/// `buildinfo_of` reads it.
#[verifier::loop_isolation(false)]
#[verifier::rlimit(60)]
pub fn parse_buildinfo(contents: &str) -> (r: RuntimeMetadata)
    ensures
        r@ == buildinfo_of(contents@),
{
    let chars = text::chars_of(contents);
    let n = chars.len();
    let mut version: Option<String> = None;
    let mut arch: Option<String> = None;
    let mut built_at: Option<String> = None;
    let mut sdk_path: Option<String> = None;
    let mut sdk_version: Option<String> = None;
    let mut min_macos: Option<String> = None;
    let mut pos: usize = 0;
    let mut done = false;
    let ghost whole = contents@;
    proof {
        assert(whole.skip(0) =~= whole);
    }
    while !done
        invariant
            pos <= n,
            n == whole.len(),
            chars@ == whole,
            !done ==> fold_lines(
                acc_of(version, arch, built_at, sdk_path, sdk_version, min_macos),
                split_lines(whole.skip(pos as int)),
            ) == fold_lines(empty_acc(), split_lines(whole)),
            done ==> acc_of(version, arch, built_at, sdk_path, sdk_version, min_macos)
                == fold_lines(empty_acc(), split_lines(whole)),
        decreases n - pos + if done {
            0int
        } else {
            1int
        },
    {
        let mut k: usize = pos;
        while k < n && chars[k] != '\n'
            invariant
                pos <= k <= n,
                n == whole.len(),
                chars@ == whole,
                find_nl(whole, pos as int) == find_nl(whole, k as int),
                forall|j: int| pos <= j < k ==> whole[j] != '\n',
            decreases n - k,
        {
            k = k + 1;
        }
        let ghost tail = whole.skip(pos as int);
        let ghost line = whole.subrange(pos as int, k as int);
        proof {
            lemma_find_nl_shift(whole, pos as int, k as int);
            lemma_find_nl_skip(whole, pos as int, 0);
            if k < n {
                assert(find_nl(whole, k as int) == Some(k as int));
                assert(split_lines(tail) == seq![tail.take(k - pos)] + split_lines(
                    tail.skip(k - pos + 1),
                ));
                assert(tail.take(k - pos) =~= line);
                assert(tail.skip(k - pos + 1) =~= whole.skip(k + 1));
            } else {
                assert(find_nl(whole, k as int) is None);
                assert(split_lines(tail) == seq![tail]);
                assert(tail =~= line);
            }
        }
        let ghost acc0 = acc_of(version, arch, built_at, sdk_path, sdk_version, min_macos);
        proof {
            reveal_strlit("version=");
            reveal_strlit("arch=");
            reveal_strlit("built_at=");
            reveal_strlit("sdk_path=");
            reveal_strlit("sdk_version=");
            reveal_strlit("min_macos=");
        }
        if range_has_prefix(&chars, pos, k, "version=") {
            proof {
                assert(k - pos >= 8);
                assert(strip_prefix(line, "version="@).unwrap() =~= whole.subrange(
                    pos + 8,
                    k as int,
                ));
            }
            version = Some(trimmed_string(&chars, pos + 8, k));
        } else if range_has_prefix(&chars, pos, k, "arch=") {
            proof {
                assert(k - pos >= 5);
                assert(strip_prefix(line, "arch="@).unwrap() =~= whole.subrange(pos + 5, k as int));
            }
            arch = Some(trimmed_string(&chars, pos + 5, k));
        } else if range_has_prefix(&chars, pos, k, "built_at=") {
            proof {
                assert(k - pos >= 9);
                assert(strip_prefix(line, "built_at="@).unwrap() =~= whole.subrange(
                    pos + 9,
                    k as int,
                ));
            }
            built_at = Some(trimmed_string(&chars, pos + 9, k));
        } else if range_has_prefix(&chars, pos, k, "sdk_path=") {
            proof {
                assert(k - pos >= 9);
                assert(strip_prefix(line, "sdk_path="@).unwrap() =~= whole.subrange(
                    pos + 9,
                    k as int,
                ));
            }
            let value = trimmed_string(&chars, pos + 9, k);
            if value.unicode_len() > 0 {
                sdk_path = Some(value);
            }
        } else if range_has_prefix(&chars, pos, k, "sdk_version=") {
            proof {
                assert(k - pos >= 12);
                assert(strip_prefix(line, "sdk_version="@).unwrap() =~= whole.subrange(
                    pos + 12,
                    k as int,
                ));
            }
            let value = trimmed_string(&chars, pos + 12, k);
            if value.unicode_len() > 0 {
                sdk_version = Some(value);
            }
        } else if range_has_prefix(&chars, pos, k, "min_macos=") {
            proof {
                assert(k - pos >= 10);
                assert(strip_prefix(line, "min_macos="@).unwrap() =~= whole.subrange(
                    pos + 10,
                    k as int,
                ));
            }
            let value = trimmed_string(&chars, pos + 10, k);
            if value.unicode_len() > 0 {
                min_macos = Some(value);
            }
        }
        proof {
            assert(acc_of(version, arch, built_at, sdk_path, sdk_version, min_macos)
                == line_effect(acc0, line));
            assert(split_lines(tail)[0] == line);
        }
        let ghost acc1 = acc_of(version, arch, built_at, sdk_path, sdk_version, min_macos);
        if k < n {
            proof {
                assert(split_lines(tail).skip(1) =~= split_lines(whole.skip(k + 1)));
                assert(fold_lines(acc0, split_lines(tail)) == fold_lines(
                    acc1,
                    split_lines(whole.skip(k + 1)),
                ));
            }
            pos = k + 1;
        } else {
            proof {
                assert(split_lines(tail).skip(1) =~= Seq::<Seq<char>>::empty());
                assert(fold_lines(acc0, split_lines(tail)) == fold_lines(
                    acc1,
                    split_lines(tail).skip(1),
                ));
                assert(fold_lines(acc1, Seq::<Seq<char>>::empty()) == acc1);
            }
            pos = k;
            done = true;
        }
    }
    let version_out = match version {
        Some(v) => v,
        None => "unknown".to_owned(),
    };
    let arch_out = match arch {
        Some(v) => v,
        None => "unknown".to_owned(),
    };
    RuntimeMetadata {
        version: version_out,
        arch: arch_out,
        built_at,
        sdk_path,
        sdk_version,
        min_macos,
    }
}

/// The accumulator the six optional fields stand for.
pub open spec fn acc_of(
    version: Option<String>,
    arch: Option<String>,
    built_at: Option<String>,
    sdk_path: Option<String>,
    sdk_version: Option<String>,
    min_macos: Option<String>,
) -> MetaAcc {
    MetaAcc {
        version: crate::runtime::opt_view(version),
        arch: crate::runtime::opt_view(arch),
        built_at: crate::runtime::opt_view(built_at),
        sdk_path: crate::runtime::opt_view(sdk_path),
        sdk_version: crate::runtime::opt_view(sdk_version),
        min_macos: crate::runtime::opt_view(min_macos),
    }
}

/// Skipping characters before the next line break does not move it.
proof fn lemma_find_nl_shift(s: Seq<char>, from: int, k: int)
    requires
        0 <= from <= k <= s.len(),
        forall|j: int| from <= j < k ==> s[j] != '\n',
    ensures
        find_nl(s, from) == find_nl(s, k),
    decreases k - from,
{
    if from < k {
        lemma_find_nl_shift(s, from + 1, k);
    }
}

/// A located runtime: its root directory and the metadata its
/// build-information file describes.
#[derive(Debug)]
pub struct RuntimeLocator {
    root: String,
    metadata: RuntimeMetadata,
}

impl RuntimeLocator {
    /// The root directory, as a spec value.
    pub closed spec fn spec_root(&self) -> String {
        self.root
    }

    /// The metadata, as a spec value.
    pub closed spec fn spec_metadata(&self) -> RuntimeMetadataView {
        self.metadata@
    }

    /// A locator over a root directory whose build-information file holds
    /// `buildinfo`; the shell checks that the root exists and reads the
    /// file before calling this.
    pub fn with_root(root: String, buildinfo: &str) -> (r: Self)
        ensures
            r.spec_root()@ == root@,
            r.spec_metadata() == buildinfo_of(buildinfo@),
    {
        let metadata = parse_buildinfo(buildinfo);
        RuntimeLocator { root, metadata }
    }

    /// The runtime's root directory.
    pub fn root(&self) -> (r: &str)
        ensures
            r@ == self.spec_root()@,
    {
        self.root.as_str()
    }

    /// The metadata of this runtime.
    pub fn metadata(&self) -> (r: &RuntimeMetadata)
        ensures
            r@ == self.spec_metadata(),
    {
        &self.metadata
    }

    /// Where the main executable sits under the root.
    pub fn wine64(&self) -> (r: String)
        ensures
            r@ == self.spec_root()@ + "/bin/wine64"@,
    {
        text::concat2(self.root.as_str(), "/bin/wine64")
    }

    /// Where the prefix-bootstrap tool sits under the root.
    pub fn wineboot(&self) -> (r: String)
        ensures
            r@ == self.spec_root()@ + "/bin/wineboot"@,
    {
        text::concat2(self.root.as_str(), "/bin/wineboot")
    }

    /// Where the configuration tool sits under the root.
    pub fn winecfg(&self) -> (r: String)
        ensures
            r@ == self.spec_root()@ + "/bin/winecfg"@,
    {
        text::concat2(self.root.as_str(), "/bin/winecfg")
    }

    /// The environment every launched process gets from the runtime: the
    /// loader fallback path pointing at the runtime's libraries.
    pub fn default_environment(&self) -> (r: Vec<(String, String)>)
        ensures
            crate::store::env_view(r@) == seq![
                ("DYLD_FALLBACK_LIBRARY_PATH"@, self.spec_root()@ + "/lib"@),
            ],
    {
        let mut out: Vec<(String, String)> = Vec::new();
        out.push(("DYLD_FALLBACK_LIBRARY_PATH".to_owned(), text::concat2(self.root.as_str(), "/lib")));
        proof {
            assert(crate::store::env_view(out@) =~= seq![
                ("DYLD_FALLBACK_LIBRARY_PATH"@, self.spec_root()@ + "/lib"@),
            ]);
        }
        out
    }

    /// A copy with the same contents.
    pub fn duplicate(&self) -> (r: Self)
        ensures
            r.spec_root()@ == self.spec_root()@,
            r.spec_metadata() == self.spec_metadata(),
    {
        RuntimeLocator { root: self.root.clone(), metadata: self.metadata.duplicate() }
    }
}

} // verus!

//! The runtime registry: descriptors for installed compatibility runtimes,
//! discovery over the entries of a runtime root directory, and the fixed
//! channel names derived from a runtime's architecture. The shell lists
//! the directory; every decision about an entry is made here.

use vstd::prelude::*;

use crate::text;
use crate::text::SortKey;

verus! {

/// A runtime resolved for use by one bottle; embedded by value in the
/// bottle's record, so the choice is frozen at creation time.
#[derive(Debug)]
pub struct WineRuntime {
    pub label: String,
    pub wine64_path: String,
    pub version: String,
    pub channel: Option<String>,
}

/// The mathematical shape of a `WineRuntime`.
pub struct WineRuntimeView {
    pub label: Seq<char>,
    pub wine64_path: Seq<char>,
    pub version: Seq<char>,
    pub channel: Option<Seq<char>>,
}

/// The view of an optional string.
pub open spec fn opt_view(o: Option<String>) -> Option<Seq<char>> {
    match o {
        Some(s) => Some(s@),
        None => None,
    }
}

impl View for WineRuntime {
    type V = WineRuntimeView;

    open spec fn view(&self) -> WineRuntimeView {
        WineRuntimeView {
            label: self.label@,
            wine64_path: self.wine64_path@,
            version: self.version@,
            channel: opt_view(self.channel),
        }
    }
}

impl WineRuntime {
    /// A copy with the same contents.
    pub fn duplicate(&self) -> (r: Self)
        ensures
            r@ == self@,
    {
        WineRuntime {
            label: self.label.clone(),
            wine64_path: self.wine64_path.clone(),
            version: self.version.clone(),
            channel: clone_opt(&self.channel),
        }
    }
}

/// A copy of an optional string with the same contents.
pub fn clone_opt(o: &Option<String>) -> (r: Option<String>)
    ensures
        opt_view(r) == opt_view(*o),
{
    match o {
        Some(s) => Some(s.clone()),
        None => None,
    }
}

/// A runtime found under the runtime root, offered for selection.
#[derive(Debug)]
pub struct RuntimeDescriptor {
    pub channel: String,
    pub label: String,
    pub version: String,
    pub wine64_path: String,
    pub notes: Option<String>,
}

/// The mathematical shape of a `RuntimeDescriptor`.
pub struct RuntimeDescriptorView {
    pub channel: Seq<char>,
    pub label: Seq<char>,
    pub version: Seq<char>,
    pub wine64_path: Seq<char>,
    pub notes: Option<Seq<char>>,
}

impl View for RuntimeDescriptor {
    type V = RuntimeDescriptorView;

    open spec fn view(&self) -> RuntimeDescriptorView {
        RuntimeDescriptorView {
            channel: self.channel@,
            label: self.label@,
            version: self.version@,
            wine64_path: self.wine64_path@,
            notes: opt_view(self.notes),
        }
    }
}

impl RuntimeDescriptor {
    /// The descriptor turned into a usable runtime: the channel moves into
    /// the optional tag, the other fields carry over unchanged.
    pub fn into_wine_runtime(self) -> (r: WineRuntime)
        ensures
            r@.label == self@.label,
            r@.wine64_path == self@.wine64_path,
            r@.version == self@.version,
            r@.channel == Some(self@.channel),
    {
        WineRuntime {
            label: self.label,
            wine64_path: self.wine64_path,
            version: self.version,
            channel: Some(self.channel),
        }
    }

    /// A copy with the same contents.
    pub fn duplicate(&self) -> (r: Self)
        ensures
            r@ == self@,
    {
        RuntimeDescriptor {
            channel: self.channel.clone(),
            label: self.label.clone(),
            version: self.version.clone(),
            wine64_path: self.wine64_path.clone(),
            notes: clone_opt(&self.notes),
        }
    }
}

impl text::SortKey for RuntimeDescriptor {
    open spec fn key(&self) -> Seq<char> {
        self.label@
    }

    fn key_le(&self, other: &Self) -> (r: bool)
        ensures
            r == text::lex_le(self.key(), other.key()),
    {
        text::str_le(self.label.as_str(), other.label.as_str())
    }
}

/// One entry of the runtime root directory, as the shell saw it: its
/// name, whether it is a directory, and whether `bin/wine64` exists
/// under it.
pub struct RuntimeDirEntry {
    pub name: String,
    pub is_dir: bool,
    pub has_wine64: bool,
}

/// The position of the first dash at or after `from`, if any.
pub open spec fn find_dash(s: Seq<char>, from: int) -> Option<int>
    decreases s.len() - from,
{
    if from < 0 || from >= s.len() {
        None
    } else if s[from] == '-' {
        Some(from)
    } else {
        find_dash(s, from + 1)
    }
}

/// The architecture and version segments of a runtime directory name of
/// the form `wine-<arch>-<version...>`: the name must begin with the
/// literal first segment and hold at least three dash-separated segments;
/// everything after the second dash is the version, dashes included.
pub open spec fn arch_version(s: Seq<char>) -> Option<(Seq<char>, Seq<char>)> {
    match find_dash(s, 0) {
        None => None,
        Some(d1) => if s.take(d1) != "wine"@ {
            None
        } else {
            match find_dash(s, d1 + 1) {
                None => None,
                Some(d2) => Some((s.subrange(d1 + 1, d2), s.skip(d2 + 1))),
            }
        },
    }
}

/// The channel a discovered runtime is filed under, a total function of
/// its architecture segment.
pub open spec fn channel_of_arch(arch: Seq<char>) -> Seq<char> {
    if arch == "x86_64"@ {
        "rossetta"@
    } else if arch == "arm64"@ {
        "native-arm64"@
    } else {
        "custom-"@ + arch
    }
}

/// The display label of a discovered runtime.
pub open spec fn runtime_label(arch: Seq<char>, version: Seq<char>) -> Seq<char> {
    "wine "@ + arch + " "@ + version
}

/// Where a runtime directory keeps its main executable.
pub open spec fn runtime_wine64_path(root: Seq<char>, name: Seq<char>) -> Seq<char> {
    root + "/"@ + name + "/bin/wine64"@
}

/// The descriptor one directory entry yields: nothing unless the entry is
/// a directory whose name parses and whose executable is present.
pub open spec fn entry_descriptor(root: Seq<char>, e: RuntimeDirEntry) -> Option<
    RuntimeDescriptorView,
> {
    if !e.is_dir {
        None
    } else {
        match arch_version(e.name@) {
            None => None,
            Some((arch, version)) => if !e.has_wine64 {
                None
            } else {
                Some(
                    RuntimeDescriptorView {
                        channel: channel_of_arch(arch),
                        label: runtime_label(arch, version),
                        version: version,
                        wine64_path: runtime_wine64_path(root, e.name@),
                        notes: None,
                    },
                )
            },
        }
    }
}

/// The descriptors all entries yield, in directory order.
pub open spec fn discovered(root: Seq<char>, entries: Seq<RuntimeDirEntry>) -> Seq<
    RuntimeDescriptorView,
>
    decreases entries.len(),
{
    if entries.len() == 0 {
        Seq::empty()
    } else {
        discovered(root, entries.drop_last()) + match entry_descriptor(root, entries.last()) {
            Some(d) => seq![d],
            None => Seq::<RuntimeDescriptorView>::empty(),
        }
    }
}

/// The position of the first dash at or after `from` in `s`.
fn find_dash_exec(s: &Vec<char>, from: usize) -> (r: Option<usize>)
    requires
        from <= s@.len(),
    ensures
        match r {
            Some(i) => from <= i < s@.len() && find_dash(s@, from as int) == Some(i as int),
            None => find_dash(s@, from as int) is None,
        },
{
    let mut i: usize = from;
    while i < s.len()
        invariant
            from <= i <= s@.len(),
            find_dash(s@, from as int) == find_dash(s@, i as int),
        decreases s@.len() - i,
    {
        if s[i] == '-' {
            return Some(i);
        }
        i = i + 1;
    }
    None
}

/// The architecture and version segments of a runtime directory name, as
/// `arch_version` describes them.
pub fn parse_runtime_dir_name(name: &str) -> (r: Option<(String, String)>)
    ensures
        match r {
            Some((arch, version)) => arch_version(name@) == Some((arch@, version@)),
            None => arch_version(name@) is None,
        },
{
    let chars = text::chars_of(name);
    let n = chars.len();
    let d1 = match find_dash_exec(&chars, 0) {
        Some(i) => i,
        None => {
            return None;
        },
    };
    let prefix = text::string_of_range(&chars, 0, d1);
    if !text::str_eq(prefix.as_str(), "wine") {
        return None;
    }
    let d2 = match find_dash_exec(&chars, d1 + 1) {
        Some(i) => i,
        None => {
            return None;
        },
    };
    proof {
        assert(d1 < n && d2 < n);
    }
    let arch = text::string_of_range(&chars, d1 + 1, d2);
    let version = text::string_of_range(&chars, d2 + 1, n);
    proof {
        assert(chars@.skip(d2 + 1) =~= chars@.subrange(d2 + 1, chars@.len() as int));
        assert(chars@.take(d1 as int) =~= chars@.subrange(0, d1 as int));
    }
    Some((arch, version))
}

/// The channel for one architecture segment, as `channel_of_arch`
/// describes it.
pub fn channel_for_arch(arch: &str) -> (r: String)
    ensures
        r@ == channel_of_arch(arch@),
{
    if text::str_eq(arch, "x86_64") {
        rossetta_name()
    } else if text::str_eq(arch, "arm64") {
        native_arm64_name()
    } else {
        text::concat2("custom-", arch)
    }
}

/// The name of the translated-execution channel; the unconventional
/// spelling is the channel's fixed, documented name.
pub fn rossetta_name() -> (r: String)
    ensures
        r@ == "rossetta"@,
{
    let r = "rossetta".to_owned();
    r
}

/// The name of the channel for runtimes built for the host architecture.
pub fn native_arm64_name() -> (r: String)
    ensures
        r@ == "native-arm64"@,
{
    let r = "native-arm64".to_owned();
    r
}

/// The descriptors of every qualifying entry under `root`, sorted by
/// label; an empty input (a missing root) yields an empty list, not an
/// error.
pub fn discover_runtimes(root: &str, entries: Vec<RuntimeDirEntry>) -> (r: Vec<RuntimeDescriptor>)
    ensures
        r@.map_values(|d: RuntimeDescriptor| d@).to_multiset() == discovered(
            root@,
            entries@,
        ).to_multiset(),
        forall|i: int, j: int|
            0 <= i < j < r@.len() ==> text::lex_le(#[trigger] r@[i].label@, #[trigger] r@[j].label@),
{
    broadcast use vstd::seq_lib::group_to_multiset_ensures;

    let mut found: Vec<RuntimeDescriptor> = Vec::new();
    let mut rest = entries;
    let ghost all = rest@;
    proof {
        assert(all.take(0) =~= Seq::<RuntimeDirEntry>::empty());
        assert(found@.map_values(|d: RuntimeDescriptor| d@) =~= discovered(root@, all.take(0)));
    }
    let n = rest.len();
    let mut k: usize = 0;
    while k < n
        invariant
            k <= n,
            n == rest@.len(),
            rest@ == all,
            found@.map_values(|d: RuntimeDescriptor| d@) == discovered(root@, all.take(k as int)),
        decreases n - k,
    {
        let ghost found_pre = found@;
        let e = &rest[k];
        if e.is_dir {
            match parse_runtime_dir_name(e.name.as_str()) {
                Some((arch, version)) => {
                    if e.has_wine64 {
                        let channel = channel_for_arch(arch.as_str());
                        let label = label_for(arch.as_str(), version.as_str());
                        let dir = text::path_join(root, e.name.as_str());
                        let wine64_path = text::concat2(dir.as_str(), "/bin/wine64");
                        proof {
                            assert(wine64_path@ =~= runtime_wine64_path(root@, e.name@));
                        }
                        found.push(
                            RuntimeDescriptor {
                                channel,
                                label,
                                version,
                                wine64_path,
                                notes: None,
                            },
                        );
                    }
                },
                None => {},
            }
        }
        proof {
            assert(all.take(k + 1).drop_last() =~= all.take(k as int));
            assert(all.take(k + 1).last() == all[k as int]);
            assert(found@.map_values(|d: RuntimeDescriptor| d@) =~= discovered(
                root@,
                all.take(k + 1),
            )) by {
                if found@.len() > found_pre.len() {
                    assert(found@ == found_pre.push(found@.last()));
                    assert(found@.map_values(|d: RuntimeDescriptor| d@) =~= found_pre.map_values(
                        |d: RuntimeDescriptor| d@,
                    ).push(found@.last()@));
                }
            }
        }
        k = k + 1;
    }
    proof {
        assert(all.take(n as int) =~= all);
    }
    let sorted = text::sort_by_key(found);
    proof {
        text::lemma_map_values_multiset_eq(sorted@, found@, |d: RuntimeDescriptor| d@);
        assert forall|i: int, j: int| 0 <= i < j < sorted@.len() implies text::lex_le(
            #[trigger] sorted@[i].label@,
            #[trigger] sorted@[j].label@,
        ) by {
            assert(text::lex_le(sorted@[i].key(), sorted@[j].key()));
        }
    }
    sorted
}

/// The label of a discovered runtime, as `runtime_label` describes it.
fn label_for(arch: &str, version: &str) -> (r: String)
    ensures
        r@ == runtime_label(arch@, version@),
{
    let head = text::concat3("wine ", arch, " ");
    text::concat2(head.as_str(), version)
}

/// The descriptor for a runtime supplied from outside the runtime root
/// through the environment: filed under the native channel with the
/// experimental version tag.
pub fn external_runtime_descriptor(path: String) -> (r: RuntimeDescriptor)
    ensures
        r@.channel == "native-arm64"@,
        r@.label == "wine arm64 (external)"@,
        r@.version == "experimental"@,
        r@.wine64_path == path@,
        r@.notes == Some("provided via SILICON_ALLOY_ARM64_WINE64"@),
{
    RuntimeDescriptor {
        channel: native_arm64_name(),
        label: "wine arm64 (external)".to_owned(),
        version: "experimental".to_owned(),
        wine64_path: path,
        notes: Some("provided via SILICON_ALLOY_ARM64_WINE64".to_owned()),
    }
}

} // verus!

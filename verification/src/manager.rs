//! The bottle manager of the name-keyed stack: one directory per bottle
//! under a bottles root, a log file per bottle under a logs root, and the
//! located runtime that serves them all. Path computation, metadata
//! shapes and the environment handed to launched processes are decided
//! here; the filesystem and process work around them is the shell's.

use vstd::prelude::*;

use crate::locator::{RuntimeLocator, RuntimeMetadata, RuntimeMetadataView};
use crate::name::BottleName;
use crate::store::env_view;
use crate::text;
use crate::text::SortKey;

verus! {

/// The persisted metadata of one name-keyed bottle.
#[derive(Debug)]
pub struct BottleMetadata {
    pub id: String,
    pub name: String,
    pub created_at: String,
    pub runtime: RuntimeMetadata,
    pub notes: Option<String>,
}

/// The mathematical shape of a `BottleMetadata`.
pub struct BottleMetadataView {
    pub id: Seq<char>,
    pub name: Seq<char>,
    pub created_at: Seq<char>,
    pub runtime: RuntimeMetadataView,
    pub notes: Option<Seq<char>>,
}

impl View for BottleMetadata {
    type V = BottleMetadataView;

    open spec fn view(&self) -> BottleMetadataView {
        BottleMetadataView {
            id: self.id@,
            name: self.name@,
            created_at: self.created_at@,
            runtime: self.runtime@,
            notes: crate::runtime::opt_view(self.notes),
        }
    }
}

/// One row of a bottle listing.
#[derive(Debug)]
pub struct BottleSummary {
    pub name: String,
    pub path: String,
    pub runtime: RuntimeMetadata,
}

/// The mathematical shape of a `BottleSummary`.
pub struct BottleSummaryView {
    pub name: Seq<char>,
    pub path: Seq<char>,
    pub runtime: RuntimeMetadataView,
}

impl View for BottleSummary {
    type V = BottleSummaryView;

    open spec fn view(&self) -> BottleSummaryView {
        BottleSummaryView { name: self.name@, path: self.path@, runtime: self.runtime@ }
    }
}

impl SortKey for BottleSummary {
    open spec fn key(&self) -> Seq<char> {
        self.name@
    }

    fn key_le(&self, other: &Self) -> (r: bool)
        ensures
            r == text::lex_le(self.key(), other.key()),
    {
        text::str_le(self.name.as_str(), other.name.as_str())
    }
}

/// The manager of name-keyed bottles: where their directories and logs
/// live, and which runtime serves them.
#[derive(Debug)]
pub struct BottleManager {
    bottles_dir: String,
    logs_dir: String,
    runtime: RuntimeLocator,
}

impl BottleManager {
    /// The bottles root, as a spec value.
    pub closed spec fn spec_bottles_dir(&self) -> Seq<char> {
        self.bottles_dir@
    }

    /// The logs root, as a spec value.
    pub closed spec fn spec_logs_dir(&self) -> Seq<char> {
        self.logs_dir@
    }

    /// The runtime, as a spec value.
    pub closed spec fn spec_runtime(&self) -> RuntimeLocator {
        self.runtime
    }

    /// A manager over the given roots; the shell creates both directories
    /// before handing them in.
    pub fn new(runtime: RuntimeLocator, bottles_dir: String, logs_dir: String) -> (r: Self)
        ensures
            r.spec_bottles_dir() == bottles_dir@,
            r.spec_logs_dir() == logs_dir@,
            r.spec_runtime() == runtime,
    {
        BottleManager { bottles_dir, logs_dir, runtime }
    }

    /// The runtime that serves every bottle of this manager.
    pub fn runtime(&self) -> (r: &RuntimeLocator)
        ensures
            r == self.spec_runtime(),
    {
        &self.runtime
    }

    /// The directory of the bottle called `name`.
    pub fn bottle_path(&self, name: &BottleName) -> (r: String)
        ensures
            r@ == self.spec_bottles_dir() + "/"@ + name@,
    {
        text::path_join(self.bottles_dir.as_str(), name.as_str())
    }

    /// Where the bottle's metadata file sits inside its directory.
    pub fn metadata_path(&self, name: &BottleName) -> (r: String)
        ensures
            r@ == self.spec_bottles_dir() + "/"@ + name@ + "/silicon-alloy.json"@,
    {
        let dir = self.bottle_path(name);
        text::concat2(dir.as_str(), "/silicon-alloy.json")
    }

    /// Where the bottle's log file sits under the logs root.
    pub fn log_path(&self, name: &BottleName) -> (r: String)
        ensures
            r@ == self.spec_logs_dir() + "/"@ + name@ + ".log"@,
    {
        let leaf = self.logs_dir.clone();
        let head = text::path_join(leaf.as_str(), name.as_str());
        text::concat2(head.as_str(), ".log")
    }

    /// The bottle's isolated-environment directory: the bottle directory
    /// itself in this stack. A pure path computation with no existence
    /// check.
    pub fn bottle_prefix(&self, name: &BottleName) -> (r: String)
        ensures
            r@ == self.spec_bottles_dir() + "/"@ + name@,
    {
        self.bottle_path(name)
    }

    /// The environment a process launched inside the bottle receives: the
    /// isolated-environment variable, quieted diagnostics, the runtime's
    /// defaults, then the caller's extra overrides, in that order.
    pub fn run_env(&self, name: &BottleName, extra: &Vec<(String, String)>) -> (r: Vec<
        (String, String),
    >)
        ensures
            env_view(r@) == seq![
                ("WINEPREFIX"@, self.spec_bottles_dir() + "/"@ + name@),
                ("WINEDEBUG"@, "-all"@),
                ("DYLD_FALLBACK_LIBRARY_PATH"@, self.spec_runtime().spec_root()@ + "/lib"@),
            ] + env_view(extra@),
    {
        let mut out: Vec<(String, String)> = Vec::new();
        out.push(("WINEPREFIX".to_owned(), self.bottle_prefix(name)));
        out.push(("WINEDEBUG".to_owned(), "-all".to_owned()));
        let mut defaults = self.runtime.default_environment();
        let ghost head3 = env_view(out@) + env_view(defaults@);
        out.append(&mut defaults);
        proof {
            assert(env_view(out@) =~= head3) by {
                let f = |p: (String, String)| (p.0@, p.1@);
                assert forall|j: int| 0 <= j < out@.len() implies env_view(out@)[j] == head3[j] by {
                    assert(env_view(out@)[j] == f(out@[j]));
                }
            }
        }
        let mut extras = crate::store::clone_env(extra);
        let ghost head4 = env_view(out@) + env_view(extras@);
        out.append(&mut extras);
        proof {
            assert(env_view(out@) =~= head4) by {
                let f = |p: (String, String)| (p.0@, p.1@);
                assert forall|j: int| 0 <= j < out@.len() implies env_view(out@)[j] == head4[j] by {
                    assert(env_view(out@)[j] == f(out@[j]));
                }
            }
            assert(env_view(out@) =~= seq![
                ("WINEPREFIX"@, self.spec_bottles_dir() + "/"@ + name@),
                ("WINEDEBUG"@, "-all"@),
                ("DYLD_FALLBACK_LIBRARY_PATH"@, self.spec_runtime().spec_root()@ + "/lib"@),
            ] + env_view(extra@));
        }
        out
    }
}

/// The summaries in listing order: ascending by bottle name.
pub fn sort_summaries(summaries: Vec<BottleSummary>) -> (r: Vec<BottleSummary>)
    ensures
        r@.map_values(|s: BottleSummary| s@).to_multiset() == summaries@.map_values(
            |s: BottleSummary| s@,
        ).to_multiset(),
        forall|i: int, j: int|
            0 <= i < j < r@.len() ==> text::lex_le(#[trigger] r@[i].name@, #[trigger] r@[j].name@),
{
    let sorted = text::sort_by_key(summaries);
    proof {
        text::lemma_map_values_multiset_eq(sorted@, summaries@, |s: BottleSummary| s@);
        assert forall|i: int, j: int| 0 <= i < j < sorted@.len() implies text::lex_le(
            #[trigger] sorted@[i].name@,
            #[trigger] sorted@[j].name@,
        ) by {
            assert(text::lex_le(sorted@[i].key(), sorted@[j].key()));
        }
    }
    sorted
}

} // verus!

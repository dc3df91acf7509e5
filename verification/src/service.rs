//! The daemon service: long-lived shared state (the record store, the
//! runtime snapshot captured once at construction, the recipe root) and
//! the decisions behind each named operation — decoding typed parameters
//! out of an untyped payload, deterministic runtime selection, bottle
//! lifecycle over the store, recipe application through the engine, and
//! the lenient exit-code policy of a direct run. The transport, the
//! filesystem and the processes around these decisions are the shell's.

use vstd::prelude::*;

use crate::catalog::LaunchPlan;
use crate::engine;
use crate::engine::StepOutcome;
use crate::recipes::{args_of, opt_str_of, req_str_of, Recipe};
use crate::runtime::{opt_view, RuntimeDescriptor, WineRuntime, WineRuntimeView};
use crate::store::{env_view, BottleRecord, BottleStore};
use crate::text;
use crate::value::DocValue;
use crate::AlloyError;

verus! {

/// Whether a character counts as alphanumeric, by the standard library's
/// Unicode tables; a function of the character alone.
pub uninterp spec fn char_alnum(c: char) -> bool;

/// Relies on `char::is_alphanumeric`: whether the character is
/// alphanumeric under the Unicode tables.
#[verifier::external_body]
fn is_alphanumeric_char(c: char) -> (r: bool)
    ensures
        r == char_alnum(c),
{
    c.is_alphanumeric()
}

/// What one character of a shortcut name becomes: alphanumeric
/// characters, spaces, dashes and underscores stay, everything else
/// becomes an underscore.
pub open spec fn shortcut_char(c: char) -> char {
    if char_alnum(c) || c == ' ' || c == '-' || c == '_' {
        c
    } else {
        '_'
    }
}

/// `s` without leading spaces. Only the space character can appear at
/// the ends of a mapped shortcut name: every other whitespace character
/// is not alphanumeric and was already replaced by an underscore.
pub open spec fn trim_sp_start(s: Seq<char>) -> Seq<char>
    decreases s.len(),
{
    if s.len() > 0 && s[0] == ' ' {
        trim_sp_start(s.skip(1))
    } else {
        s
    }
}

/// `s` without trailing spaces.
pub open spec fn trim_sp_end(s: Seq<char>) -> Seq<char>
    decreases s.len(),
{
    if s.len() > 0 && s.last() == ' ' {
        trim_sp_end(s.drop_last())
    } else {
        s
    }
}

/// The sanitized form of a shortcut name: each character mapped, the ends
/// trimmed of spaces, and a fixed fallback when nothing usable remains.
pub open spec fn sanitize_name_spec(s: Seq<char>) -> Seq<char> {
    let t = trim_sp_end(trim_sp_start(s.map_values(|c: char| shortcut_char(c))));
    if t.len() == 0 {
        "Windows App"@
    } else {
        t
    }
}

/// Reduces a shortcut name to filesystem-safe characters, as
/// `sanitize_name_spec` describes.
#[verifier::loop_isolation(false)]
pub fn sanitize_name(name: &str) -> (r: String)
    ensures
        r@ == sanitize_name_spec(name@),
{
    let chars = text::chars_of(name);
    let n = chars.len();
    let mut mapped: Vec<char> = Vec::new();
    let mut i: usize = 0;
    while i < n
        invariant
            i <= n,
            n == name@.len(),
            chars@ == name@,
            mapped@.len() == i,
            forall|j: int| 0 <= j < i ==> mapped@[j] == shortcut_char(#[trigger] name@[j]),
        decreases n - i,
    {
        let c = chars[i];
        if is_alphanumeric_char(c) || c == ' ' || c == '-' || c == '_' {
            mapped.push(c);
        } else {
            mapped.push('_');
        }
        i = i + 1;
    }
    let ghost full = name@.map_values(|c: char| shortcut_char(c));
    proof {
        assert(mapped@ =~= full);
    }
    let mut start: usize = 0;
    proof {
        assert(full.skip(0) =~= full);
    }
    while start < n && mapped[start] == ' '
        invariant
            start <= n,
            n == full.len(),
            mapped@ == full,
            trim_sp_start(full) == trim_sp_start(full.skip(start as int)),
        decreases n - start,
    {
        proof {
            assert(full.skip(start as int)[0] == full[start as int]);
            assert(full.skip(start as int).skip(1) =~= full.skip(start + 1));
        }
        start = start + 1;
    }
    proof {
        if start < n {
            assert(full.skip(start as int)[0] == full[start as int]);
        }
        assert(trim_sp_start(full) == full.skip(start as int));
    }
    let ghost rest = full.skip(start as int);
    let mut end: usize = n;
    proof {
        assert(rest.take(n - start) =~= rest);
    }
    while end > start && mapped[end - 1] == ' '
        invariant
            start <= end <= n,
            n == full.len(),
            mapped@ == full,
            rest == full.skip(start as int),
            trim_sp_end(rest) == trim_sp_end(rest.take(end - start)),
        decreases end,
    {
        proof {
            let t = rest.take(end - start);
            assert(t.last() == full[end - 1]);
            assert(t.drop_last() =~= rest.take(end - 1 - start as int));
        }
        end = end - 1;
    }
    proof {
        let t = rest.take(end - start);
        if end > start {
            assert(t.last() == full[end - 1]);
        }
        assert(trim_sp_end(rest) == rest.take(end - start));
        assert(rest.take(end - start) =~= full.subrange(start as int, end as int));
    }
    if end == start {
        let fallback = "Windows App".to_owned();
        fallback
    } else {
        text::string_of_range(&mapped, start, end)
    }
}

/// One quoted character: a single quote is closed, escaped and reopened,
/// anything else stands.
pub open spec fn quoted_char(c: char) -> Seq<char> {
    if c == '\'' {
        seq!['\'', '"', '\'', '"', '\'']
    } else {
        seq![c]
    }
}

/// The quoted body of a string, character by character.
pub open spec fn quoted_body(s: Seq<char>) -> Seq<char>
    decreases s.len(),
{
    if s.len() == 0 {
        Seq::empty()
    } else {
        quoted_body(s.drop_last()) + quoted_char(s.last())
    }
}

/// The shell-quoted form of a string: its body between single quotes,
/// with embedded single quotes escaped; an empty string quotes to a bare
/// pair of quotes.
pub open spec fn shell_quote_spec(s: Seq<char>) -> Seq<char> {
    if s.len() == 0 {
        seq!['\'', '\'']
    } else {
        seq!['\''] + quoted_body(s) + seq!['\'']
    }
}

/// Quotes a value for a shell script, as `shell_quote_spec` describes.
#[verifier::loop_isolation(false)]
pub fn shell_quote(value: &str) -> (r: String)
    ensures
        r@ == shell_quote_spec(value@),
{
    let chars = text::chars_of(value);
    let n = chars.len();
    if n == 0 {
        let mut out: Vec<char> = Vec::new();
        out.push('\'');
        out.push('\'');
        proof {
            assert(out@ =~= shell_quote_spec(value@));
        }
        return text::string_of(&out);
    }
    let mut out: Vec<char> = Vec::new();
    out.push('\'');
    let mut i: usize = 0;
    proof {
        assert(quoted_body(value@.take(0)) =~= Seq::<char>::empty());
        assert(out@ =~= seq!['\''] + quoted_body(value@.take(0)));
    }
    while i < n
        invariant
            i <= n,
            n == value@.len(),
            chars@ == value@,
            out@ == seq!['\''] + quoted_body(value@.take(i as int)),
        decreases n - i,
    {
        let c = chars[i];
        let ghost pre = out@;
        if c == '\'' {
            out.push('\'');
            out.push('"');
            out.push('\'');
            out.push('"');
            out.push('\'');
        } else {
            out.push(c);
        }
        proof {
            assert(value@.take(i + 1).drop_last() =~= value@.take(i as int));
            assert(value@.take(i + 1).last() == value@[i as int]);
            assert(out@ =~= pre + quoted_char(value@[i as int]));
            assert(out@ =~= seq!['\''] + quoted_body(value@.take(i + 1)));
        }
        i = i + 1;
    }
    out.push('\'');
    proof {
        assert(value@.take(n as int) =~= value@);
        assert(out@ =~= shell_quote_spec(value@));
    }
    text::string_of(&out)
}

/// The conventional path of a runtime that was never discovered: the
/// translated-execution build of the given version under the runtime
/// root.
pub open spec fn default_wine_path_spec(runtime_dir: Seq<char>, version: Seq<char>) -> Seq<
    char,
> {
    runtime_dir + "/wine-x86_64-"@ + version + "/bin/wine64"@
}

/// The conventional runtime path, as `default_wine_path_spec` describes
/// it; the path may not exist — a launch through it surfaces the failure.
pub fn default_wine_path(runtime_dir: &str, version: &str) -> (r: String)
    ensures
        r@ == default_wine_path_spec(runtime_dir@, version@),
{
    let head = text::concat3(runtime_dir, "/wine-x86_64-", version);
    text::concat2(head.as_str(), "/bin/wine64")
}

/// One named operation of the daemon's surface.
#[derive(Debug, PartialEq, Eq, Structural, Clone, Copy)]
pub enum Method {
    ServicePing,
    ServiceInfo,
    RuntimeList,
    BottleList,
    BottleCreate,
    BottleDelete,
    BottleRun,
    RecipeList,
    RecipeApply,
    ShortcutCreate,
}

/// The operation a method name denotes, if any.
pub open spec fn method_of(s: Seq<char>) -> Option<Method> {
    if s == "service.ping"@ {
        Some(Method::ServicePing)
    } else if s == "service.info"@ {
        Some(Method::ServiceInfo)
    } else if s == "runtime.list"@ {
        Some(Method::RuntimeList)
    } else if s == "bottle.list"@ {
        Some(Method::BottleList)
    } else if s == "bottle.create"@ {
        Some(Method::BottleCreate)
    } else if s == "bottle.delete"@ {
        Some(Method::BottleDelete)
    } else if s == "bottle.run"@ {
        Some(Method::BottleRun)
    } else if s == "recipe.list"@ {
        Some(Method::RecipeList)
    } else if s == "recipe.apply"@ {
        Some(Method::RecipeApply)
    } else if s == "shortcut.create"@ {
        Some(Method::ShortcutCreate)
    } else {
        None
    }
}

/// Routes a method name to its operation; an unknown name routes nowhere
/// and becomes the dispatcher's error.
pub fn parse_method(s: &str) -> (r: Option<Method>)
    ensures
        r == method_of(s@),
{
    if text::str_eq(s, "service.ping") {
        Some(Method::ServicePing)
    } else if text::str_eq(s, "service.info") {
        Some(Method::ServiceInfo)
    } else if text::str_eq(s, "runtime.list") {
        Some(Method::RuntimeList)
    } else if text::str_eq(s, "bottle.list") {
        Some(Method::BottleList)
    } else if text::str_eq(s, "bottle.create") {
        Some(Method::BottleCreate)
    } else if text::str_eq(s, "bottle.delete") {
        Some(Method::BottleDelete)
    } else if text::str_eq(s, "bottle.run") {
        Some(Method::BottleRun)
    } else if text::str_eq(s, "recipe.list") {
        Some(Method::RecipeList)
    } else if text::str_eq(s, "recipe.apply") {
        Some(Method::RecipeApply)
    } else if text::str_eq(s, "shortcut.create") {
        Some(Method::ShortcutCreate)
    } else {
        None
    }
}

/// The parameters of a creation request.
#[derive(Debug)]
pub struct BottleCreateParams {
    pub name: String,
    pub wine_version: String,
    pub wine_label: Option<String>,
    pub wine_path: Option<String>,
    pub channel: Option<String>,
}

impl BottleCreateParams {
    /// Decodes creation parameters: the name and runtime version are
    /// required text, the label, explicit path and channel optional.
    pub fn from_value(v: &DocValue) -> (r: Result<Self, AlloyError>)
        ensures
            match r {
                Ok(p) => {
                    &&& req_str_of(*v, "name"@) == Some(p.name@)
                    &&& req_str_of(*v, "wine_version"@) == Some(p.wine_version@)
                    &&& opt_str_of(*v, "wine_label"@) == Some(opt_view(p.wine_label))
                    &&& opt_str_of(*v, "wine_path"@) == Some(opt_view(p.wine_path))
                    &&& opt_str_of(*v, "channel"@) == Some(opt_view(p.channel))
                },
                Err(e) => {
                    &&& e is InvalidInput
                    &&& {
                        ||| req_str_of(*v, "name"@) is None
                        ||| req_str_of(*v, "wine_version"@) is None
                        ||| opt_str_of(*v, "wine_label"@) is None
                        ||| opt_str_of(*v, "wine_path"@) is None
                        ||| opt_str_of(*v, "channel"@) is None
                    }
                },
            },
    {
        let name = match crate::recipes::get_req_str(v, "name") {
            Some(s) => s,
            None => {
                return Err(param_error());
            },
        };
        let wine_version = match crate::recipes::get_req_str(v, "wine_version") {
            Some(s) => s,
            None => {
                return Err(param_error());
            },
        };
        let wine_label = match crate::recipes::get_opt_str(v, "wine_label") {
            Some(s) => s,
            None => {
                return Err(param_error());
            },
        };
        let wine_path = match crate::recipes::get_opt_str(v, "wine_path") {
            Some(s) => s,
            None => {
                return Err(param_error());
            },
        };
        let channel = match crate::recipes::get_opt_str(v, "channel") {
            Some(s) => s,
            None => {
                return Err(param_error());
            },
        };
        Ok(BottleCreateParams { name, wine_version, wine_label, wine_path, channel })
    }
}

/// The shared shape error of a parameter decode.
fn param_error() -> (r: AlloyError)
    ensures
        r is InvalidInput,
{
    AlloyError::InvalidInput("request parameters are missing or mistyped".to_owned())
}

/// The parameters of a deletion request.
#[derive(Debug)]
pub struct BottleDeleteParams {
    pub id: String,
}

impl BottleDeleteParams {
    /// Decodes deletion parameters: the identifier is required text.
    pub fn from_value(v: &DocValue) -> (r: Result<Self, AlloyError>)
        ensures
            match r {
                Ok(p) => req_str_of(*v, "id"@) == Some(p.id@),
                Err(e) => req_str_of(*v, "id"@) is None && e is InvalidInput,
            },
    {
        match crate::recipes::get_req_str(v, "id") {
            Some(id) => Ok(BottleDeleteParams { id }),
            None => Err(param_error()),
        }
    }
}

/// The parameters of a direct-run request.
#[derive(Debug)]
pub struct BottleRunParams {
    pub id: String,
    pub executable: String,
    pub args: Option<Vec<String>>,
}

impl BottleRunParams {
    /// Decodes run parameters: identifier and executable are required
    /// text, the argument list optional.
    pub fn from_value(v: &DocValue) -> (r: Result<Self, AlloyError>)
        ensures
            match r {
                Ok(p) => {
                    &&& req_str_of(*v, "id"@) == Some(p.id@)
                    &&& req_str_of(*v, "executable"@) == Some(p.executable@)
                    &&& args_of(*v) == Some(
                        match p.args {
                            Some(a) => Some(text::strs_view(a@)),
                            None => None,
                        },
                    )
                },
                Err(e) => {
                    &&& e is InvalidInput
                    &&& {
                        ||| req_str_of(*v, "id"@) is None
                        ||| req_str_of(*v, "executable"@) is None
                        ||| args_of(*v) is None
                    }
                },
            },
    {
        let id = match crate::recipes::get_req_str(v, "id") {
            Some(s) => s,
            None => {
                return Err(param_error());
            },
        };
        let executable = match crate::recipes::get_req_str(v, "executable") {
            Some(s) => s,
            None => {
                return Err(param_error());
            },
        };
        let args = match v.get("args") {
            None => None,
            Some(DocValue::Null) => None,
            Some(DocValue::List(l)) => match crate::recipes::get_str_list(l) {
                Some(xs) => Some(xs),
                None => {
                    return Err(param_error());
                },
            },
            Some(_) => {
                return Err(param_error());
            },
        };
        Ok(BottleRunParams { id, executable, args })
    }
}

/// The parameters of a recipe application request.
#[derive(Debug)]
pub struct RecipeApplyParams {
    pub bottle_id: String,
    pub recipe_id: String,
}

impl RecipeApplyParams {
    /// Decodes application parameters: both identifiers are required
    /// text.
    pub fn from_value(v: &DocValue) -> (r: Result<Self, AlloyError>)
        ensures
            match r {
                Ok(p) => {
                    &&& req_str_of(*v, "bottle_id"@) == Some(p.bottle_id@)
                    &&& req_str_of(*v, "recipe_id"@) == Some(p.recipe_id@)
                },
                Err(e) => {
                    &&& e is InvalidInput
                    &&& (req_str_of(*v, "bottle_id"@) is None || req_str_of(*v, "recipe_id"@)
                        is None)
                },
            },
    {
        let bottle_id = match crate::recipes::get_req_str(v, "bottle_id") {
            Some(s) => s,
            None => {
                return Err(param_error());
            },
        };
        let recipe_id = match crate::recipes::get_req_str(v, "recipe_id") {
            Some(s) => s,
            None => {
                return Err(param_error());
            },
        };
        Ok(RecipeApplyParams { bottle_id, recipe_id })
    }
}

/// What a direct run reports: the exit status and whether the process
/// succeeded. A non-zero exit is a normal result here, never an error —
/// the caller decides what it means.
#[derive(Debug, PartialEq, Eq, Structural)]
pub struct RunOutcome {
    pub exit_status: Option<i32>,
    pub success: bool,
}

/// The first descriptor on the given channel carrying the given version.
pub open spec fn find_exact(
    rts: Seq<RuntimeDescriptor>,
    channel: Seq<char>,
    version: Seq<char>,
) -> Option<int>
    decreases rts.len(),
{
    if rts.len() == 0 {
        None
    } else if rts[0].channel@ == channel && rts[0].version@ == version {
        Some(0)
    } else {
        match find_exact(rts.skip(1), channel, version) {
            Some(i) => Some(i + 1),
            None => None,
        }
    }
}

/// The first descriptor on the given channel.
pub open spec fn find_channel(rts: Seq<RuntimeDescriptor>, channel: Seq<char>) -> Option<int>
    decreases rts.len(),
{
    if rts.len() == 0 {
        None
    } else if rts[0].channel@ == channel {
        Some(0)
    } else {
        match find_channel(rts.skip(1), channel) {
            Some(i) => Some(i + 1),
            None => None,
        }
    }
}

/// A descriptor turned into a usable runtime, its label overridden when
/// the caller supplied one.
pub open spec fn descriptor_runtime(
    d: RuntimeDescriptor,
    override_label: Option<Seq<char>>,
) -> WineRuntimeView {
    WineRuntimeView {
        label: match override_label {
            Some(l) => l,
            None => d.label@,
        },
        wine64_path: d.wine64_path@,
        version: d.version@,
        channel: Some(d.channel@),
    }
}

/// The runtime a creation request selects, a total function of the
/// request and the snapshot: an explicit path wins outright; otherwise
/// the requested (or default) channel is resolved by exact version
/// match, then by channel alone, and finally by a synthesized
/// conventional path that may not exist — selection itself never fails.
pub open spec fn selected_runtime(
    rts: Seq<RuntimeDescriptor>,
    runtime_dir: Seq<char>,
    p: BottleCreateParams,
) -> WineRuntimeView {
    match opt_view(p.wine_path) {
        Some(path) => WineRuntimeView {
            label: match opt_view(p.wine_label) {
                Some(l) => l,
                None => "custom wine "@ + p.wine_version@,
            },
            wine64_path: path,
            version: p.wine_version@,
            channel: match opt_view(p.channel) {
                Some(c) => Some(c),
                None => Some("custom"@),
            },
        },
        None => {
            let channel = match opt_view(p.channel) {
                Some(c) => c,
                None => "rossetta"@,
            };
            match find_exact(rts, channel, p.wine_version@) {
                Some(i) => descriptor_runtime(rts[i], opt_view(p.wine_label)),
                None => match find_channel(rts, channel) {
                    Some(i) => descriptor_runtime(rts[i], opt_view(p.wine_label)),
                    None => WineRuntimeView {
                        label: match opt_view(p.wine_label) {
                            Some(l) => l,
                            None => "wine "@ + p.wine_version@,
                        },
                        wine64_path: default_wine_path_spec(runtime_dir, p.wine_version@),
                        version: p.wine_version@,
                        channel: Some(channel),
                    },
                },
            }
        },
    }
}

/// The daemon's long-lived state: the record store, where runtimes and
/// recipes live, and the runtime snapshot captured once at construction —
/// a newly installed runtime stays invisible until the process restarts.
pub struct DaemonService {
    pub bottles: BottleStore,
    pub runtime_dir: String,
    pub recipe_dir: String,
    pub runtimes: Vec<RuntimeDescriptor>,
}

impl DaemonService {
    /// A service over gathered state; the shell builds the store, roots
    /// and snapshot before handing them in.
    pub fn new(
        bottles: BottleStore,
        runtime_dir: String,
        recipe_dir: String,
        runtimes: Vec<RuntimeDescriptor>,
    ) -> (r: Self)
        ensures
            r.bottles == bottles,
            r.runtime_dir@ == runtime_dir@,
            r.recipe_dir@ == recipe_dir@,
            r.runtimes == runtimes,
    {
        DaemonService { bottles, runtime_dir, recipe_dir, runtimes }
    }

    /// The cached runtime snapshot.
    pub fn runtime_list(&self) -> (r: &Vec<RuntimeDescriptor>)
        ensures
            r == &self.runtimes,
    {
        &self.runtimes
    }

    /// The runtime a creation request selects, exactly as
    /// `selected_runtime` describes it; selection never fails by itself —
    /// a synthesized path surfaces its failure only when launched.
    pub fn select_runtime(&self, input: &BottleCreateParams) -> (r: Result<
        WineRuntime,
        AlloyError,
    >)
        ensures
            r matches Ok(rt) && rt@ == selected_runtime(
                self.runtimes@,
                self.runtime_dir@,
                *input,
            ),
    {
        match &input.wine_path {
            Some(path) => {
                let label = match &input.wine_label {
                    Some(l) => l.clone(),
                    None => text::concat2("custom wine ", input.wine_version.as_str()),
                };
                let channel = match &input.channel {
                    Some(c) => Some(c.clone()),
                    None => {
                        let custom = "custom".to_owned();
                        Some(custom)
                    },
                };
                return Ok(
                    WineRuntime {
                        label,
                        wine64_path: path.clone(),
                        version: input.wine_version.clone(),
                        channel,
                    },
                );
            },
            None => {},
        }
        let channel = match &input.channel {
            Some(c) => c.clone(),
            None => crate::runtime::rossetta_name(),
        };
        match self.scan_exact(channel.as_str(), input.wine_version.as_str()) {
            Some(i) => {
                let descriptor = self.runtimes[i].duplicate();
                return Ok(Self::descriptor_to_runtime(
                    descriptor,
                    crate::runtime::clone_opt(&input.wine_label),
                ));
            },
            None => {},
        }
        match self.scan_channel(channel.as_str()) {
            Some(i) => {
                let descriptor = self.runtimes[i].duplicate();
                return Ok(Self::descriptor_to_runtime(
                    descriptor,
                    crate::runtime::clone_opt(&input.wine_label),
                ));
            },
            None => {},
        }
        let label = match &input.wine_label {
            Some(l) => l.clone(),
            None => text::concat2("wine ", input.wine_version.as_str()),
        };
        Ok(
            WineRuntime {
                label,
                wine64_path: default_wine_path(
                    self.runtime_dir.as_str(),
                    input.wine_version.as_str(),
                ),
                version: input.wine_version.clone(),
                channel: Some(channel),
            },
        )
    }

    /// Where the first exact channel-and-version match sits in the
    /// snapshot, if anywhere.
    fn scan_exact(&self, channel: &str, version: &str) -> (r: Option<usize>)
        ensures
            match r {
                Some(i) => i < self.runtimes@.len() && find_exact(
                    self.runtimes@,
                    channel@,
                    version@,
                ) == Some(i as int),
                None => find_exact(self.runtimes@, channel@, version@) is None,
            },
    {
        let ghost all = self.runtimes@;
        let mut i: usize = 0;
        proof {
            assert(all.skip(0) =~= all);
        }
        while i < self.runtimes.len()
            invariant
                i <= all.len(),
                all == self.runtimes@,
                find_exact(all, channel@, version@) == match find_exact(
                    all.skip(i as int),
                    channel@,
                    version@,
                ) {
                    Some(p) => Some(p + i),
                    None => None::<int>,
                },
            decreases all.len() - i,
        {
            proof {
                assert(all.skip(i as int)[0] == all[i as int]);
                assert(all.skip(i as int).skip(1) =~= all.skip(i + 1));
            }
            let d = &self.runtimes[i];
            if text::str_eq(d.channel.as_str(), channel) && text::str_eq(
                d.version.as_str(),
                version,
            ) {
                return Some(i);
            }
            i = i + 1;
        }
        proof {
            assert(all.skip(all.len() as int).len() == 0);
        }
        None
    }

    /// Where the first channel match sits in the snapshot, if anywhere.
    fn scan_channel(&self, channel: &str) -> (r: Option<usize>)
        ensures
            match r {
                Some(i) => i < self.runtimes@.len() && find_channel(self.runtimes@, channel@)
                    == Some(i as int),
                None => find_channel(self.runtimes@, channel@) is None,
            },
    {
        let ghost all = self.runtimes@;
        let mut i: usize = 0;
        proof {
            assert(all.skip(0) =~= all);
        }
        while i < self.runtimes.len()
            invariant
                i <= all.len(),
                all == self.runtimes@,
                find_channel(all, channel@) == match find_channel(all.skip(i as int), channel@) {
                    Some(p) => Some(p + i),
                    None => None::<int>,
                },
            decreases all.len() - i,
        {
            proof {
                assert(all.skip(i as int)[0] == all[i as int]);
                assert(all.skip(i as int).skip(1) =~= all.skip(i + 1));
            }
            if text::str_eq(self.runtimes[i].channel.as_str(), channel) {
                return Some(i);
            }
            i = i + 1;
        }
        proof {
            assert(all.skip(all.len() as int).len() == 0);
        }
        None
    }

    /// A descriptor turned into a usable runtime, its label overridden
    /// when the caller supplied one.
    pub fn descriptor_to_runtime(descriptor: RuntimeDescriptor, override_label: Option<String>) -> (r:
        WineRuntime)
        ensures
            r@ == descriptor_runtime(descriptor, opt_view(override_label)),
    {
        let mut runtime = descriptor.into_wine_runtime();
        match override_label {
            Some(label) => {
                runtime.label = label;
            },
            None => {},
        }
        runtime
    }

    /// Creates a bottle: the requested display name stored as its slug,
    /// the runtime the request selects, a fresh identifier, the clock's
    /// stamp and an empty environment, filed in the store; a name with no
    /// usable characters is malformed input and changes nothing. The
    /// shell then creates the record directory and its prefix.
    pub fn bottle_create(&mut self, input: &BottleCreateParams) -> (r: Result<
        BottleRecord,
        AlloyError,
    >)
        requires
            old(self).bottles.wf(),
        ensures
            final(self).bottles.wf(),
            final(self).runtime_dir == old(self).runtime_dir,
            final(self).recipe_dir == old(self).recipe_dir,
            final(self).runtimes == old(self).runtimes,
            final(self).bottles.spec_root() == old(self).bottles.spec_root(),
            match r {
                Ok(record) => {
                    &&& crate::name::slug_of(input.name@).len() > 0
                    &&& record@.name == crate::name::slug_of(input.name@)
                    &&& record@.wine_runtime == selected_runtime(
                        old(self).runtimes@,
                        old(self).runtime_dir@,
                        *input,
                    )
                    &&& record@.environment.len() == 0
                    &&& final(self).bottles@ == old(self).bottles@.insert(record@.id, record@)
                },
                Err(e) => {
                    &&& crate::name::slug_of(input.name@).len() == 0
                    &&& e is InvalidInput
                    &&& final(self).bottles@ == old(self).bottles@
                },
            },
    {
        let runtime = match self.select_runtime(input) {
            Ok(rt) => rt,
            Err(e) => {
                return Err(e);
            },
        };
        self.bottles.create(input.name.as_str(), runtime)
    }

    /// Deletes a bottle; fails with `NotFound` exactly when the store
    /// holds none, and the shell then removes the record directory and
    /// everything beneath it.
    pub fn bottle_delete(&mut self, id: &str) -> (r: Result<(), AlloyError>)
        requires
            old(self).bottles.wf(),
        ensures
            final(self).bottles.wf(),
            final(self).runtime_dir == old(self).runtime_dir,
            final(self).recipe_dir == old(self).recipe_dir,
            final(self).runtimes == old(self).runtimes,
            final(self).bottles.spec_root() == old(self).bottles.spec_root(),
            match r {
                Ok(()) => old(self).bottles@.contains_key(id@) && final(self).bottles@ == old(self).bottles@.remove(id@),
                Err(e) => !old(self).bottles@.contains_key(id@) && e is NotFound && final(self).bottles@ == old(self).bottles@,
            },
    {
        self.bottles.remove(id)
    }

    /// Every bottle record, ordered by display name: one entry per
    /// identifier the store holds.
    pub fn bottle_list(&self) -> (r: Vec<BottleRecord>)
        requires
            self.bottles.wf(),
        ensures
            r@.len() == self.bottles@.dom().len(),
            r@.map_values(|b: BottleRecord| b@).to_multiset() == self.bottles.stored().to_multiset(),
            forall|i: int, j: int|
                0 <= i < j < r@.len() ==> text::lex_le(
                    #[trigger] r@[i].name@,
                    #[trigger] r@[j].name@,
                ),
    {
        self.bottles.list()
    }

    /// Applies a recipe to a bottle, the outcome of each outside action
    /// given in order; the accumulated environment is persisted only when
    /// every step completed, and any failure leaves the store exactly as
    /// it was.
    pub fn apply_recipe(
        &mut self,
        bottle_id: &str,
        recipe: Recipe,
        outcomes: &Vec<StepOutcome>,
    ) -> (r: Result<String, AlloyError>)
        requires
            old(self).bottles.wf(),
        ensures
            final(self).bottles.wf(),
            final(self).runtime_dir == old(self).runtime_dir,
            final(self).recipe_dir == old(self).recipe_dir,
            final(self).runtimes == old(self).runtimes,
            final(self).bottles.spec_root() == old(self).bottles.spec_root(),
            match r {
                Ok(rid) => {
                    &&& rid@ == recipe@.manifest.id
                    &&& old(self).bottles@.contains_key(bottle_id@)
                    &&& engine::replay(
                        recipe@.manifest.steps,
                        outcomes@,
                        old(self).bottles@[bottle_id@].environment,
                        old(self).bottles@[bottle_id@].wine_runtime.wine64_path,
                    ) matches Some(env) && final(self).bottles@ == old(self).bottles@.insert(
                        bottle_id@,
                        engine::with_env(old(self).bottles@[bottle_id@], env),
                    )
                },
                Err(e) => {
                    &&& final(self).bottles@ == old(self).bottles@
                    &&& !old(self).bottles@.contains_key(bottle_id@) ==> e is NotFound
                    &&& old(self).bottles@.contains_key(bottle_id@) ==> engine::replay(
                        recipe@.manifest.steps,
                        outcomes@,
                        old(self).bottles@[bottle_id@].environment,
                        old(self).bottles@[bottle_id@].wine_runtime.wine64_path,
                    ) is None
                },
            },
    {
        engine::apply_recipe(&mut self.bottles, bottle_id, recipe, outcomes)
    }

    /// What a direct run launches: the bottle's own runtime executable,
    /// the requested program first among the arguments, under the
    /// bottle's accumulated environment; fails with `NotFound` exactly
    /// when the bottle is gone.
    pub fn bottle_run_plan(&self, input: &BottleRunParams) -> (r: Result<LaunchPlan, AlloyError>)
        requires
            self.bottles.wf(),
        ensures
            match r {
                Ok(plan) => {
                    &&& self.bottles@.contains_key(input.id@)
                    &&& plan.program@ == self.bottles@[input.id@].wine_runtime.wine64_path
                    &&& text::strs_view(plan.args@) == seq![input.executable@] + (
                    match input.args {
                        Some(a) => text::strs_view(a@),
                        None => Seq::<Seq<char>>::empty(),
                    })
                    &&& env_view(plan.env@) == engine::launch_env(
                        self.bottles.spec_root()@ + "/"@ + input.id@ + "/prefix"@,
                        self.bottles@[input.id@].environment,
                    )
                },
                Err(e) => !self.bottles@.contains_key(input.id@) && e is NotFound,
            },
    {
        let record = match self.bottles.record(input.id.as_str()) {
            Ok(rec) => rec,
            Err(e) => {
                return Err(e);
            },
        };
        let prefix = self.bottles.bottle_prefix(input.id.as_str());
        let mut args: Vec<String> = Vec::new();
        args.push(input.executable.clone());
        match &input.args {
            Some(extra) => {
                let mut rest = text::clone_strs(extra);
                let ghost head = text::strs_view(args@) + text::strs_view(rest@);
                args.append(&mut rest);
                proof {
                    assert(text::strs_view(args@) =~= head) by {
                        let f = |x: String| x@;
                        assert forall|j: int| 0 <= j < args@.len() implies text::strs_view(
                            args@,
                        )[j] == head[j] by {
                            assert(text::strs_view(args@)[j] == f(args@[j]));
                        }
                    }
                    assert(text::strs_view(args@) =~= seq![input.executable@] + text::strs_view(
                        input.args.unwrap()@,
                    ));
                }
            },
            None => {
                proof {
                    assert(text::strs_view(args@) =~= seq![input.executable@]);
                    assert(seq![input.executable@] + Seq::<Seq<char>>::empty() =~= seq![
                        input.executable@,
                    ]);
                }
            },
        }
        let mut env: Vec<(String, String)> = Vec::new();
        env.push(("WINEPREFIX".to_owned(), prefix));
        let mut overrides = crate::store::clone_env(&record.environment);
        let ghost head = env_view(env@) + env_view(overrides@);
        env.append(&mut overrides);
        proof {
            assert(env_view(env@) =~= head) by {
                let f = |p: (String, String)| (p.0@, p.1@);
                assert forall|j: int| 0 <= j < env@.len() implies env_view(env@)[j] == head[j] by {
                    assert(env_view(env@)[j] == f(env@[j]));
                }
            }
            assert(env_view(env@) =~= engine::launch_env(
                self.bottles.spec_root()@ + "/"@ + input.id@ + "/prefix"@,
                self.bottles@[input.id@].environment,
            ));
        }
        Ok(LaunchPlan { program: record.wine_runtime.wine64_path, args, env })
    }

    /// What a direct run reports back: the exit status carried as a
    /// normal result, never escalated to an error.
    pub fn run_result(exit_status: Option<i32>, success: bool) -> (r: RunOutcome)
        ensures
            r.exit_status == exit_status,
            r.success == success,
    {
        RunOutcome { exit_status, success }
    }
}

} // verus!

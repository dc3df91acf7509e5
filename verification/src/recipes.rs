//! Recipe manifests: the canonical step representation, the looser
//! on-disk encodings it is normalized from, and lookup over a loaded
//! catalog. The on-disk shapes are duck-typed — a run step may be a bare
//! string or an object under either of two key names — and every shape
//! decision is made here, over the parsed document tree; rejecting a step
//! that matches no known shape is a load error, never a silent drop.

use vstd::prelude::*;

use crate::env::env_set;
use crate::store::env_view;
use crate::text;
use crate::text::{strs_view, SortKey};
use crate::value::{spec_get, DocValue};
use crate::AlloyError;

verus! {

/// One canonical provisioning step.
#[derive(Debug)]
pub enum RecipeStep {
    Run { path: String, args: Vec<String> },
    WaitForExit,
    WineCfg { version: Option<String> },
    Env { variables: Vec<(String, String)> },
    Copy { from: String, to: String },
}

/// The mathematical shape of a `RecipeStep`.
pub enum RecipeStepView {
    Run { path: Seq<char>, args: Seq<Seq<char>> },
    WaitForExit,
    WineCfg { version: Option<Seq<char>> },
    Env { variables: Seq<(Seq<char>, Seq<char>)> },
    Copy { from: Seq<char>, to: Seq<char> },
}

impl View for RecipeStep {
    type V = RecipeStepView;

    open spec fn view(&self) -> RecipeStepView {
        match self {
            RecipeStep::Run { path, args } => RecipeStepView::Run {
                path: path@,
                args: strs_view(args@),
            },
            RecipeStep::WaitForExit => RecipeStepView::WaitForExit,
            RecipeStep::WineCfg { version } => RecipeStepView::WineCfg {
                version: crate::runtime::opt_view(*version),
            },
            RecipeStep::Env { variables } => RecipeStepView::Env {
                variables: env_view(variables@),
            },
            RecipeStep::Copy { from, to } => RecipeStepView::Copy { from: from@, to: to@ },
        }
    }
}

/// A parsed recipe manifest: identity, display name, optional
/// description, and the ordered steps.
#[derive(Debug)]
pub struct RecipeManifest {
    pub id: String,
    pub name: String,
    pub description: Option<String>,
    pub steps: Vec<RecipeStep>,
}

/// The mathematical shape of a `RecipeManifest`.
pub struct RecipeManifestView {
    pub id: Seq<char>,
    pub name: Seq<char>,
    pub description: Option<Seq<char>>,
    pub steps: Seq<RecipeStepView>,
}

/// The views of a list of steps.
pub open spec fn steps_view(s: Seq<RecipeStep>) -> Seq<RecipeStepView> {
    s.map_values(|x: RecipeStep| x@)
}

impl View for RecipeManifest {
    type V = RecipeManifestView;

    open spec fn view(&self) -> RecipeManifestView {
        RecipeManifestView {
            id: self.id@,
            name: self.name@,
            description: crate::runtime::opt_view(self.description),
            steps: steps_view(self.steps@),
        }
    }
}

/// A manifest together with the directory it was loaded from; relative
/// resources resolve under that directory.
#[derive(Debug)]
pub struct Recipe {
    pub manifest: RecipeManifest,
    pub base_dir: String,
}

/// The mathematical shape of a `Recipe`.
pub struct RecipeView {
    pub manifest: RecipeManifestView,
    pub base_dir: Seq<char>,
}

impl View for Recipe {
    type V = RecipeView;

    open spec fn view(&self) -> RecipeView {
        RecipeView { manifest: self.manifest@, base_dir: self.base_dir@ }
    }
}

impl SortKey for Recipe {
    open spec fn key(&self) -> Seq<char> {
        self.manifest.name@
    }

    fn key_le(&self, other: &Self) -> (r: bool)
        ensures
            r == text::lex_le(self.key(), other.key()),
    {
        text::str_le(self.manifest.name.as_str(), other.manifest.name.as_str())
    }
}

/// Where a recipe resource named by `relative` resolves: an absolute path
/// is used as it stands, anything else sits under the recipe's own
/// `resources` directory.
pub open spec fn resource_path(base_dir: Seq<char>, relative: Seq<char>) -> Seq<char> {
    if relative.len() > 0 && relative[0] == '/' {
        relative
    } else {
        base_dir + "/resources/"@ + relative
    }
}

impl Recipe {
    /// The path a resource reference resolves to, as `resource_path`
    /// describes it.
    pub fn resource(&self, relative: &str) -> (r: String)
        ensures
            r@ == resource_path(self.base_dir@, relative@),
    {
        if relative.unicode_len() > 0 && relative.get_char(0) == '/' {
            relative.to_owned()
        } else {
            let head = text::concat2(self.base_dir.as_str(), "/resources/");
            text::concat2(head.as_str(), relative)
        }
    }
}

/// The first position holding the recipe named `id`, if any.
pub open spec fn find_recipe_at(s: Seq<Recipe>, id: Seq<char>) -> Option<int>
    decreases s.len(),
{
    if s.len() == 0 {
        None
    } else if s[0].manifest.id@ == id {
        Some(0)
    } else {
        match find_recipe_at(s.skip(1), id) {
            Some(i) => Some(i + 1),
            None => None,
        }
    }
}

/// The recipe named `id` among the loaded ones; fails with `NotFound`
/// exactly when none carries that identifier.
#[verifier::loop_isolation(false)]
pub fn find_recipe(recipes: Vec<Recipe>, id: &str) -> (r: Result<Recipe, AlloyError>)
    ensures
        match r {
            Ok(rec) => {
                &&& find_recipe_at(recipes@, id@) is Some
                &&& rec == recipes@[find_recipe_at(recipes@, id@).unwrap()]
            },
            Err(e) => find_recipe_at(recipes@, id@) is None && e is NotFound,
        },
{
    let mut rest = recipes;
    let ghost all = rest@;
    let ghost mut i: int = 0;
    loop
        invariant
            0 <= i <= all.len(),
            rest@ == all.skip(i),
            forall|j: int| 0 <= j < i ==> (#[trigger] all[j].manifest.id@) != id@,
        decreases all.len() - i,
    {
        proof {
            lemma_find_recipe_prefix(all, id@, i);
        }
        if rest.len() == 0 {
            return Err(AlloyError::NotFound(text::concat3("recipe ", id, " not found")));
        }
        proof {
            assert(rest@[0] == all[i]);
        }
        if text::str_eq(rest[0].manifest.id.as_str(), id) {
            let found = rest.remove(0);
            proof {
                assert(all.skip(i)[0] == all[i]);
            }
            return Ok(found);
        }
        let _ = rest.remove(0);
        proof {
            assert(all.skip(i).remove(0) =~= all.skip(i + 1));
            i = i + 1;
        }
    }
}

/// Scanning past non-matching entries does not change what is found.
proof fn lemma_find_recipe_prefix(s: Seq<Recipe>, id: Seq<char>, i: int)
    requires
        0 <= i <= s.len(),
        forall|j: int| 0 <= j < i ==> (#[trigger] s[j].manifest.id@) != id,
    ensures
        find_recipe_at(s, id) == match find_recipe_at(s.skip(i), id) {
            Some(p) => Some(p + i),
            None => None::<int>,
        },
    decreases i,
{
    if i == 0 {
        assert(s.skip(0) =~= s);
    } else {
        lemma_find_recipe_prefix(s, id, i - 1);
        let t = s.skip(i - 1);
        assert(t[0] == s[i - 1]);
        assert(t[0].manifest.id@ != id);
        assert(t.skip(1) =~= s.skip(i));
    }
}

/// The recipes in catalog order: ascending by display name.
pub fn sort_recipes(recipes: Vec<Recipe>) -> (r: Vec<Recipe>)
    ensures
        r@.to_multiset() == recipes@.to_multiset(),
        forall|i: int, j: int|
            0 <= i < j < r@.len() ==> text::lex_le(
                #[trigger] r@[i].manifest.name@,
                #[trigger] r@[j].manifest.name@,
            ),
{
    let sorted = text::sort_by_key(recipes);
    proof {
        assert forall|i: int, j: int| 0 <= i < j < sorted@.len() implies text::lex_le(
            #[trigger] sorted@[i].manifest.name@,
            #[trigger] sorted@[j].manifest.name@,
        ) by {
            assert(text::lex_le(sorted@[i].key(), sorted@[j].key()));
        }
    }
    sorted
}

// ------------------------------------------------------------------
// The raw, on-disk step shapes and their normalization.
// ------------------------------------------------------------------

/// The parameters of a run step written as an object: the program may sit
/// under `command`, `file` or `path`, and the arguments are optional.
#[derive(Debug)]
pub struct RunParams {
    pub command: Option<String>,
    pub file: Option<String>,
    pub args: Option<Vec<String>>,
}

/// The mathematical shape of `RunParams`.
pub struct RunParamsView {
    pub command: Option<Seq<char>>,
    pub file: Option<Seq<char>>,
    pub args: Option<Seq<Seq<char>>>,
}

impl View for RunParams {
    type V = RunParamsView;

    open spec fn view(&self) -> RunParamsView {
        RunParamsView {
            command: crate::runtime::opt_view(self.command),
            file: crate::runtime::opt_view(self.file),
            args: match self.args {
                Some(a) => Some(strs_view(a@)),
                None => None,
            },
        }
    }
}

/// One step as it appears on disk, before normalization.
#[derive(Debug)]
pub enum RecipeStepRaw {
    RunString { run: String },
    RunObject { run: RunParams },
    Wait { wait_for_exit: bool },
    WineCfg { version: Option<String> },
    Env { variables: Vec<(String, String)> },
    Copy { from: String, to: String },
}

/// The mathematical shape of a `RecipeStepRaw`.
pub enum RecipeStepRawView {
    RunString { run: Seq<char> },
    RunObject { run: RunParamsView },
    Wait { wait_for_exit: bool },
    WineCfg { version: Option<Seq<char>> },
    Env { variables: Seq<(Seq<char>, Seq<char>)> },
    Copy { from: Seq<char>, to: Seq<char> },
}

impl View for RecipeStepRaw {
    type V = RecipeStepRawView;

    open spec fn view(&self) -> RecipeStepRawView {
        match self {
            RecipeStepRaw::RunString { run } => RecipeStepRawView::RunString { run: run@ },
            RecipeStepRaw::RunObject { run } => RecipeStepRawView::RunObject { run: run@ },
            RecipeStepRaw::Wait { wait_for_exit } => RecipeStepRawView::Wait {
                wait_for_exit: *wait_for_exit,
            },
            RecipeStepRaw::WineCfg { version } => RecipeStepRawView::WineCfg {
                version: crate::runtime::opt_view(*version),
            },
            RecipeStepRaw::Env { variables } => RecipeStepRawView::Env {
                variables: env_view(variables@),
            },
            RecipeStepRaw::Copy { from, to } => RecipeStepRawView::Copy { from: from@, to: to@ },
        }
    }
}

/// A manifest as it appears on disk, before its steps are normalized.
#[derive(Debug)]
pub struct RecipeManifestRaw {
    pub id: String,
    pub name: String,
    pub description: Option<String>,
    pub steps: Vec<RecipeStepRaw>,
}

/// What one raw step normalizes to; nothing when the step is rejected (a
/// run object that names no program, or a wait marker set to false).
pub open spec fn normalize_step_spec(r: RecipeStepRawView) -> Option<RecipeStepView> {
    match r {
        RecipeStepRawView::RunString { run } => Some(
            RecipeStepView::Run { path: run, args: Seq::empty() },
        ),
        RecipeStepRawView::RunObject { run } => {
            let program = if run.command is Some {
                run.command
            } else {
                run.file
            };
            match program {
                Some(path) => Some(
                    RecipeStepView::Run {
                        path,
                        args: match run.args {
                            Some(a) => a,
                            None => Seq::empty(),
                        },
                    },
                ),
                None => None,
            }
        },
        RecipeStepRawView::Wait { wait_for_exit } => if wait_for_exit {
            Some(RecipeStepView::WaitForExit)
        } else {
            None
        },
        RecipeStepRawView::WineCfg { version } => Some(RecipeStepView::WineCfg { version }),
        RecipeStepRawView::Env { variables } => Some(RecipeStepView::Env { variables }),
        RecipeStepRawView::Copy { from, to } => Some(RecipeStepView::Copy { from, to }),
    }
}

/// What a list of raw steps normalizes to; nothing as soon as one step is
/// rejected.
pub open spec fn normalize_steps_spec(rs: Seq<RecipeStepRawView>) -> Option<Seq<RecipeStepView>>
    decreases rs.len(),
{
    if rs.len() == 0 {
        Some(Seq::empty())
    } else {
        match normalize_steps_spec(rs.drop_last()) {
            None => None,
            Some(acc) => match normalize_step_spec(rs.last()) {
                None => None,
                Some(s) => Some(acc.push(s)),
            },
        }
    }
}

impl RecipeStepRaw {
    /// The canonical form of this step, or the load error that rejects
    /// it, exactly as `normalize_step_spec` decides.
    pub fn normalize(self) -> (r: Result<RecipeStep, AlloyError>)
        ensures
            match r {
                Ok(s) => normalize_step_spec(self@) == Some(s@),
                Err(e) => normalize_step_spec(self@) is None && e is InvalidInput,
            },
    {
        proof {
            assert(strs_view(Seq::<String>::empty()) =~= Seq::<Seq<char>>::empty());
        }
        match self {
            RecipeStepRaw::RunString { run } => Ok(RecipeStep::Run { path: run, args: Vec::new() }),
            RecipeStepRaw::RunObject { run } => {
                let RunParams { command, file, args } = run;
                let program = match command {
                    Some(c) => Some(c),
                    None => file,
                };
                match program {
                    Some(path) => Ok(
                        RecipeStep::Run {
                            path,
                            args: match args {
                                Some(a) => a,
                                None => Vec::new(),
                            },
                        },
                    ),
                    None => Err(AlloyError::InvalidInput("run step missing command".to_owned())),
                }
            },
            RecipeStepRaw::Wait { wait_for_exit } => {
                if wait_for_exit {
                    Ok(RecipeStep::WaitForExit)
                } else {
                    Err(
                        AlloyError::InvalidInput(
                            "wait_for_exit must be true when specified".to_owned(),
                        ),
                    )
                }
            },
            RecipeStepRaw::WineCfg { version } => Ok(RecipeStep::WineCfg { version }),
            RecipeStepRaw::Env { variables } => Ok(RecipeStep::Env { variables }),
            RecipeStepRaw::Copy { from, to } => Ok(RecipeStep::Copy { from, to }),
        }
    }
}

impl RecipeManifestRaw {
    /// The manifest with every step in canonical form, or the first load
    /// error among its steps.
    #[verifier::loop_isolation(false)]
    pub fn normalize(self) -> (r: Result<RecipeManifest, AlloyError>)
        ensures
            match r {
                Ok(m) => {
                    &&& normalize_steps_spec(steps_raw_view(self.steps@)) == Some(m@.steps)
                    &&& m@.id == self.id@
                    &&& m@.name == self.name@
                    &&& m@.description == crate::runtime::opt_view(self.description)
                },
                Err(e) => normalize_steps_spec(steps_raw_view(self.steps@)) is None && e
                    is InvalidInput,
            },
    {
        let RecipeManifestRaw { id, name, description, steps } = self;
        let ghost raws = steps_raw_view(steps@);
        let mut rest = steps;
        let mut done: Vec<RecipeStep> = Vec::new();
        let ghost mut i: int = 0;
        let ghost all = rest@;
        loop
            invariant
                0 <= i <= all.len(),
                raws == steps_raw_view(all),
                rest@ == all.skip(i),
                normalize_steps_spec(steps_raw_view(all.take(i))) == Some(steps_view(done@)),
            decreases all.len() - i,
        {
            if rest.len() == 0 {
                proof {
                    assert(all.take(i) =~= all);
                }
                return Ok(RecipeManifest { id, name, description, steps: done });
            }
            proof {
                assert(all.skip(i)[0] == all[i]);
                assert(all.skip(i).remove(0) =~= all.skip(i + 1));
            }
            let raw = rest.remove(0);
            match raw.normalize() {
                Ok(s) => {
                    done.push(s);
                    proof {
                        let t = steps_raw_view(all.take(i + 1));
                        assert(t.drop_last() =~= steps_raw_view(all.take(i)));
                        assert(t.last() == all[i]@);
                        assert(steps_view(done@).drop_last() =~= steps_view(done@.drop_last()));
                        assert(steps_view(done@) =~= steps_view(done@.drop_last()).push(
                            done@.last()@,
                        ));
                        i = i + 1;
                    }
                },
                Err(e) => {
                    proof {
                        let t = steps_raw_view(all.take(i + 1));
                        assert(t.drop_last() =~= steps_raw_view(all.take(i)));
                        assert(t.last() == all[i]@);
                        lemma_normalize_steps_none(raws, i);
                    }
                    return Err(e);
                },
            }
        }
    }
}

/// The views of a list of raw steps.
pub open spec fn steps_raw_view(s: Seq<RecipeStepRaw>) -> Seq<RecipeStepRawView> {
    s.map_values(|x: RecipeStepRaw| x@)
}

/// A rejected step rejects every list it begins in.
proof fn lemma_normalize_steps_none(rs: Seq<RecipeStepRawView>, i: int)
    requires
        0 <= i < rs.len(),
        normalize_steps_spec(rs.take(i + 1)) is None,
    ensures
        normalize_steps_spec(rs) is None,
    decreases rs.len(),
{
    if rs.len() == i + 1 {
        assert(rs.take(i + 1) =~= rs);
    } else {
        assert(rs.drop_last().take(i + 1) =~= rs.take(i + 1));
        lemma_normalize_steps_none(rs.drop_last(), i);
    }
}

// ------------------------------------------------------------------
// Decoding raw shapes out of a parsed document tree.
// ------------------------------------------------------------------

/// An optional text field: absent or null is accepted as nothing, a
/// string is its text, any other shape rejects the enclosing form.
pub open spec fn opt_str_of(v: DocValue, key: Seq<char>) -> Option<Option<Seq<char>>> {
    match spec_get(v, key) {
        None => Some(None),
        Some(DocValue::Null) => Some(None),
        Some(DocValue::Str(s)) => Some(Some(s@)),
        Some(_) => None,
    }
}

/// A required text field: anything but a string rejects the form.
pub open spec fn req_str_of(v: DocValue, key: Seq<char>) -> Option<Seq<char>> {
    match spec_get(v, key) {
        Some(DocValue::Str(s)) => Some(s@),
        _ => None,
    }
}

/// A list whose items must all be strings.
pub open spec fn str_list(l: Seq<DocValue>) -> Option<Seq<Seq<char>>>
    decreases l.len(),
{
    if l.len() == 0 {
        Some(Seq::empty())
    } else {
        match str_list(l.drop_last()) {
            None => None,
            Some(acc) => match l.last() {
                DocValue::Str(s) => Some(acc.push(s@)),
                _ => None,
            },
        }
    }
}

/// The optional argument list of a run object: absent or null is none, a
/// list of strings is taken, any other shape rejects the form.
pub open spec fn args_of(v: DocValue) -> Option<Option<Seq<Seq<char>>>> {
    match spec_get(v, "args"@) {
        None => Some(None),
        Some(DocValue::Null) => Some(None),
        Some(DocValue::List(l)) => match str_list(l@) {
            Some(xs) => Some(Some(xs)),
            None => None,
        },
        Some(_) => None,
    }
}

/// The program field of a run object, reachable under `file` or `path`;
/// giving both names at once rejects the form.
pub open spec fn file_of(v: DocValue) -> Option<Option<Seq<char>>> {
    if spec_get(v, "file"@) is Some && spec_get(v, "path"@) is Some {
        None
    } else if spec_get(v, "file"@) is Some {
        opt_str_of(v, "file"@)
    } else {
        opt_str_of(v, "path"@)
    }
}

/// The parameters a run object decodes to, if its fields have the
/// accepted shapes.
pub open spec fn run_params_of(v: DocValue) -> Option<RunParamsView> {
    match (opt_str_of(v, "command"@), file_of(v), args_of(v)) {
        (Some(command), Some(file), Some(args)) => Some(RunParamsView { command, file, args }),
        _ => None,
    }
}

/// The environment pairs a mapping decodes to: each value must be a
/// string; a later entry for a key shadows an earlier one.
pub open spec fn env_fold(entries: Seq<(String, DocValue)>) -> Option<
    Seq<(Seq<char>, Seq<char>)>,
>
    decreases entries.len(),
{
    if entries.len() == 0 {
        Some(Seq::empty())
    } else {
        match env_fold(entries.drop_last()) {
            None => None,
            Some(acc) => match entries.last().1 {
                DocValue::Str(s) => Some(env_set(acc, entries.last().0@, s@)),
                _ => None,
            },
        }
    }
}

/// A bare-string run step.
pub open spec fn run_str_of(v: DocValue) -> Option<Seq<char>> {
    match spec_get(v, "run"@) {
        Some(DocValue::Str(s)) => Some(s@),
        _ => None,
    }
}

/// An object-shaped run step.
pub open spec fn run_obj_of(v: DocValue) -> Option<RunParamsView> {
    match spec_get(v, "run"@) {
        Some(DocValue::Mapping(_)) => run_params_of(spec_get(v, "run"@).unwrap()),
        _ => None,
    }
}

/// A wait marker.
pub open spec fn wait_of(v: DocValue) -> Option<bool> {
    match spec_get(v, "wait_for_exit"@) {
        Some(DocValue::Bool(b)) => Some(b),
        _ => None,
    }
}

/// A configuration-tool step with its optional version.
pub open spec fn winecfg_of(v: DocValue) -> Option<Option<Seq<char>>> {
    match spec_get(v, "winecfg"@) {
        Some(DocValue::Mapping(_)) => opt_str_of(spec_get(v, "winecfg"@).unwrap(), "version"@),
        _ => None,
    }
}

/// An environment step with its pairs.
pub open spec fn env_of(v: DocValue) -> Option<Seq<(Seq<char>, Seq<char>)>> {
    match spec_get(v, "env"@) {
        Some(DocValue::Mapping(m)) => env_fold(m@),
        _ => None,
    }
}

/// A copy step with its source and destination.
pub open spec fn copy_of(v: DocValue) -> Option<(Seq<char>, Seq<char>)> {
    match spec_get(v, "copy"@) {
        Some(DocValue::Mapping(_)) => {
            let inner = spec_get(v, "copy"@).unwrap();
            match (req_str_of(inner, "from"@), req_str_of(inner, "to"@)) {
                (Some(f), Some(t)) => Some((f, t)),
                _ => None,
            }
        },
        _ => None,
    }
}

/// Whether a document node matches any known step shape; the shapes are
/// tried in a fixed order and the first match wins.
pub open spec fn step_decodable(v: DocValue) -> bool {
    ||| run_str_of(v) is Some
    ||| run_obj_of(v) is Some
    ||| wait_of(v) is Some
    ||| winecfg_of(v) is Some
    ||| env_of(v) is Some
    ||| copy_of(v) is Some
}

/// The keys of environment pairs in ascending order.
pub open spec fn sorted_env(vars: Seq<(Seq<char>, Seq<char>)>) -> bool {
    forall|i: int, j: int|
        0 <= i < j < vars.len() ==> text::lex_le(#[trigger] vars[i].0, #[trigger] vars[j].0)
}

/// Whether `r` is the raw step that `v` decodes to. The decoded
/// environment pairs come out key-sorted; their order among equal keys is
/// moot because a later write shadowed an earlier one while folding.
pub open spec fn step_raw_ok(v: DocValue, r: RecipeStepRawView) -> bool {
    if run_str_of(v) is Some {
        r == (RecipeStepRawView::RunString { run: run_str_of(v).unwrap() })
    } else if run_obj_of(v) is Some {
        r == (RecipeStepRawView::RunObject { run: run_obj_of(v).unwrap() })
    } else if wait_of(v) is Some {
        r == (RecipeStepRawView::Wait { wait_for_exit: wait_of(v).unwrap() })
    } else if winecfg_of(v) is Some {
        r == (RecipeStepRawView::WineCfg { version: winecfg_of(v).unwrap() })
    } else if env_of(v) is Some {
        match r {
            RecipeStepRawView::Env { variables } => sorted_env(variables)
                && variables.to_multiset() == env_of(v).unwrap().to_multiset(),
            _ => false,
        }
    } else if copy_of(v) is Some {
        r == (RecipeStepRawView::Copy {
            from: copy_of(v).unwrap().0,
            to: copy_of(v).unwrap().1,
        })
    } else {
        false
    }
}

/// The optional text under `key`, as `opt_str_of` describes it.
pub(crate) fn get_opt_str(v: &DocValue, key: &str) -> (r: Option<Option<String>>)
    ensures
        match r {
            Some(Some(s)) => opt_str_of(*v, key@) == Some(Some(s@)),
            Some(None) => opt_str_of(*v, key@) == Some(None::<Seq<char>>),
            None => opt_str_of(*v, key@) is None,
        },
{
    match v.get(key) {
        None => Some(None),
        Some(DocValue::Null) => Some(None),
        Some(DocValue::Str(s)) => Some(Some(s.clone())),
        Some(_) => None,
    }
}

/// The required text under `key`, as `req_str_of` describes it.
pub(crate) fn get_req_str(v: &DocValue, key: &str) -> (r: Option<String>)
    ensures
        match r {
            Some(s) => req_str_of(*v, key@) == Some(s@),
            None => req_str_of(*v, key@) is None,
        },
{
    match v.get(key) {
        Some(DocValue::Str(s)) => Some(s.clone()),
        _ => None,
    }
}

/// The strings of a list node, as `str_list` describes them.
pub(crate) fn get_str_list(l: &Vec<DocValue>) -> (r: Option<Vec<String>>)
    ensures
        match r {
            Some(xs) => str_list(l@) == Some(strs_view(xs@)),
            None => str_list(l@) is None,
        },
{
    let mut out: Vec<String> = Vec::new();
    let mut i: usize = 0;
    while i < l.len()
        invariant
            i <= l@.len(),
            out@.len() == i,
            str_list(l@.take(i as int)) == Some(strs_view(out@)),
        decreases l@.len() - i,
    {
        proof {
            assert(l@.take(i + 1).drop_last() =~= l@.take(i as int));
            assert(l@.take(i + 1).last() == l@[i as int]);
        }
        match &l[i] {
            DocValue::Str(s) => {
                let ghost pre = out@;
                out.push(s.clone());
                proof {
                    assert(strs_view(out@) =~= strs_view(pre).push(s@)) by {
                        assert(out@.drop_last() =~= pre);
                    }
                }
            },
            _ => {
                proof {
                    lemma_str_list_none(l@, i as int);
                }
                return None;
            },
        }
        i = i + 1;
    }
    proof {
        assert(l@.take(l@.len() as int) =~= l@);
    }
    Some(out)
}

/// A rejected item rejects every list it sits in.
proof fn lemma_str_list_none(l: Seq<DocValue>, i: int)
    requires
        0 <= i < l.len(),
        str_list(l.take(i + 1)) is None,
    ensures
        str_list(l) is None,
    decreases l.len(),
{
    if l.len() == i + 1 {
        assert(l.take(i + 1) =~= l);
    } else {
        assert(l.drop_last().take(i + 1) =~= l.take(i + 1));
        lemma_str_list_none(l.drop_last(), i);
    }
}

/// The argument list of a run object, as `args_of` describes it.
fn get_args(v: &DocValue) -> (r: Option<Option<Vec<String>>>)
    ensures
        match r {
            Some(Some(xs)) => args_of(*v) == Some(Some(strs_view(xs@))),
            Some(None) => args_of(*v) == Some(None::<Seq<Seq<char>>>),
            None => args_of(*v) is None,
        },
{
    match v.get("args") {
        None => Some(None),
        Some(DocValue::Null) => Some(None),
        Some(DocValue::List(l)) => match get_str_list(l) {
            Some(xs) => Some(Some(xs)),
            None => None,
        },
        Some(_) => None,
    }
}

/// The parameters of a run object, as `run_params_of` describes them.
fn get_run_params(v: &DocValue) -> (r: Option<RunParams>)
    ensures
        match r {
            Some(p) => run_params_of(*v) == Some(p@),
            None => run_params_of(*v) is None,
        },
{
    let command = match get_opt_str(v, "command") {
        Some(c) => c,
        None => {
            return None;
        },
    };
    let file = if v.get("file").is_some() && v.get("path").is_some() {
        return None;
    } else if v.get("file").is_some() {
        match get_opt_str(v, "file") {
            Some(f) => f,
            None => {
                return None;
            },
        }
    } else {
        match get_opt_str(v, "path") {
            Some(f) => f,
            None => {
                return None;
            },
        }
    };
    let args = match get_args(v) {
        Some(a) => a,
        None => {
            return None;
        },
    };
    Some(RunParams { command, file, args })
}

/// The sorted environment pairs of a mapping node: the fold of its
/// entries, each later write shadowing an earlier one, then put in key
/// order.
pub(crate) fn get_env_pairs(m: &Vec<(String, DocValue)>) -> (r: Option<Vec<(String, String)>>)
    ensures
        match r {
            Some(vars) => {
                &&& env_fold(m@) is Some
                &&& sorted_env(env_view(vars@))
                &&& env_view(vars@).to_multiset() == env_fold(m@).unwrap().to_multiset()
            },
            None => env_fold(m@) is None,
        },
{
    let mut vars: Vec<(String, String)> = Vec::new();
    let mut i: usize = 0;
    while i < m.len()
        invariant
            i <= m@.len(),
            env_fold(m@.take(i as int)) == Some(env_view(vars@)),
        decreases m@.len() - i,
    {
        proof {
            assert(m@.take(i + 1).drop_last() =~= m@.take(i as int));
            assert(m@.take(i + 1).last() == m@[i as int]);
        }
        match &m[i].1 {
            DocValue::Str(s) => {
                crate::env::set_var(&mut vars, m[i].0.clone(), s.clone());
            },
            _ => {
                proof {
                    lemma_env_fold_none(m@, i as int);
                }
                return None;
            },
        }
        i = i + 1;
    }
    proof {
        assert(m@.take(m@.len() as int) =~= m@);
    }
    let ghost folded = env_view(vars@);
    let sorted = text::sort_by_key(vars);
    proof {
        text::lemma_map_values_multiset_eq(
            sorted@,
            vars@,
            |p: (String, String)| (p.0@, p.1@),
        );
        assert forall|i: int, j: int| 0 <= i < j < env_view(sorted@).len() implies text::lex_le(
            #[trigger] env_view(sorted@)[i].0,
            #[trigger] env_view(sorted@)[j].0,
        ) by {
            assert(text::lex_le(sorted@[i].key(), sorted@[j].key()));
        }
    }
    Some(sorted)
}

/// A rejected entry rejects every mapping it sits in.
proof fn lemma_env_fold_none(m: Seq<(String, DocValue)>, i: int)
    requires
        0 <= i < m.len(),
        env_fold(m.take(i + 1)) is None,
    ensures
        env_fold(m) is None,
    decreases m.len(),
{
    if m.len() == i + 1 {
        assert(m.take(i + 1) =~= m);
    } else {
        assert(m.drop_last().take(i + 1) =~= m.take(i + 1));
        lemma_env_fold_none(m.drop_last(), i);
    }
}

/// The raw step a document node decodes to, or the load error that
/// rejects a node matching no known shape; the shapes are tried in the
/// order `step_raw_ok` fixes.
pub fn decode_step(v: &DocValue) -> (r: Result<RecipeStepRaw, AlloyError>)
    ensures
        match r {
            Ok(raw) => step_decodable(*v) && step_raw_ok(*v, raw@),
            Err(e) => !step_decodable(*v) && e is InvalidInput,
        },
{
    match v.get("run") {
        Some(DocValue::Str(s)) => {
            return Ok(RecipeStepRaw::RunString { run: s.clone() });
        },
        Some(inner @ DocValue::Mapping(_)) => {
            match get_run_params(inner) {
                Some(p) => {
                    return Ok(RecipeStepRaw::RunObject { run: p });
                },
                None => {},
            }
        },
        _ => {},
    }
    proof {
        assert(run_str_of(*v) is None && run_obj_of(*v) is None);
    }
    match v.get("wait_for_exit") {
        Some(DocValue::Bool(b)) => {
            return Ok(RecipeStepRaw::Wait { wait_for_exit: *b });
        },
        _ => {},
    }
    match v.get("winecfg") {
        Some(inner @ DocValue::Mapping(_)) => {
            match get_opt_str(inner, "version") {
                Some(version) => {
                    return Ok(RecipeStepRaw::WineCfg { version });
                },
                None => {},
            }
        },
        _ => {},
    }
    match v.get("env") {
        Some(DocValue::Mapping(m)) => {
            match get_env_pairs(m) {
                Some(variables) => {
                    return Ok(RecipeStepRaw::Env { variables });
                },
                None => {},
            }
        },
        _ => {},
    }
    match v.get("copy") {
        Some(inner @ DocValue::Mapping(_)) => {
            let from = get_req_str(inner, "from");
            let to = get_req_str(inner, "to");
            match (from, to) {
                (Some(f), Some(t)) => {
                    return Ok(RecipeStepRaw::Copy { from: f, to: t });
                },
                _ => {},
            }
        },
        _ => {},
    }
    Err(AlloyError::InvalidInput("recipe step matches no known shape".to_owned()))
}

/// Whether every node of a list matches a known step shape.
pub open spec fn steps_decodable(l: Seq<DocValue>) -> bool {
    forall|i: int| 0 <= i < l.len() ==> step_decodable(#[trigger] l[i])
}

/// Whether `rs` decodes `l` node by node.
pub open spec fn steps_raw_ok(l: Seq<DocValue>, rs: Seq<RecipeStepRawView>) -> bool {
    rs.len() == l.len() && forall|i: int| 0 <= i < l.len() ==> step_raw_ok(#[trigger] l[i], rs[i])
}

/// Whether a document node has a manifest's required shape.
pub open spec fn manifest_decodable(v: DocValue) -> bool {
    &&& req_str_of(v, "id"@) is Some
    &&& req_str_of(v, "name"@) is Some
    &&& opt_str_of(v, "description"@) is Some
    &&& spec_get(v, "steps"@) matches Some(DocValue::List(_))
    &&& match spec_get(v, "steps"@) {
        Some(DocValue::List(l)) => steps_decodable(l@),
        _ => false,
    }
}

impl RecipeManifestRaw {
    /// The raw manifest a document node decodes to: identifier, name and
    /// a list of steps are required, the description is optional; any
    /// other shape is a load error.
    #[verifier::loop_isolation(false)]
    pub fn from_value(v: &DocValue) -> (r: Result<RecipeManifestRaw, AlloyError>)
        ensures
            match r {
                Ok(m) => {
                    &&& manifest_decodable(*v)
                    &&& req_str_of(*v, "id"@) == Some(m.id@)
                    &&& req_str_of(*v, "name"@) == Some(m.name@)
                    &&& opt_str_of(*v, "description"@) == Some(
                        crate::runtime::opt_view(m.description),
                    )
                    &&& match spec_get(*v, "steps"@) {
                        Some(DocValue::List(l)) => steps_raw_ok(l@, steps_raw_view(m.steps@)),
                        _ => false,
                    }
                },
                Err(e) => !manifest_decodable(*v) && e is InvalidInput,
            },
    {
        let id = match get_req_str(v, "id") {
            Some(s) => s,
            None => {
                return Err(AlloyError::InvalidInput("recipe manifest needs an id".to_owned()));
            },
        };
        let name = match get_req_str(v, "name") {
            Some(s) => s,
            None => {
                return Err(AlloyError::InvalidInput("recipe manifest needs a name".to_owned()));
            },
        };
        let description = match get_opt_str(v, "description") {
            Some(d) => d,
            None => {
                return Err(
                    AlloyError::InvalidInput("recipe description must be text".to_owned()),
                );
            },
        };
        let list = match v.get("steps") {
            Some(DocValue::List(l)) => l,
            _ => {
                return Err(AlloyError::InvalidInput("recipe manifest needs steps".to_owned()));
            },
        };
        let mut steps: Vec<RecipeStepRaw> = Vec::new();
        let mut i: usize = 0;
        while i < list.len()
            invariant
                i <= list@.len(),
                steps@.len() == i,
                forall|j: int|
                    0 <= j < i ==> step_decodable(#[trigger] list@[j]) && step_raw_ok(
                        list@[j],
                        steps_raw_view(steps@)[j],
                    ),
            decreases list@.len() - i,
        {
            let ghost pre = steps@;
            match decode_step(&list[i]) {
                Ok(raw) => {
                    steps.push(raw);
                    proof {
                        assert(steps_raw_view(steps@) =~= steps_raw_view(pre).push(
                            steps@.last()@,
                        )) by {
                            assert(steps@.drop_last() =~= pre);
                        }
                        assert forall|j: int| 0 <= j < i + 1 implies step_decodable(
                            #[trigger] list@[j],
                        ) && step_raw_ok(list@[j], steps_raw_view(steps@)[j]) by {
                            if j < i {
                                assert(steps_raw_view(steps@)[j] == steps_raw_view(pre)[j]);
                            }
                        }
                    }
                },
                Err(e) => {
                    return Err(e);
                },
            }
            i = i + 1;
        }
        Ok(RecipeManifestRaw { id, name, description, steps })
    }
}

} // verus!

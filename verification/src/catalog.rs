//! The recipe catalog of the name-keyed stack: its own looser recipe
//! shape (a run step may be an object or a bare string, and a note step
//! only prints), decoding from the parsed document tree, normalization of
//! bare-string runs, case-insensitive catalog order, and the step
//! executor's decisions. Reading manifests from disk and launching
//! processes stay in the shell.

use vstd::prelude::*;

use crate::engine::env_apply_all;
use crate::manager::BottleManager;
use crate::name::BottleName;
use crate::recipes::{env_of, opt_str_of, req_str_of, str_list};
use crate::store::env_view;
use crate::text;
use crate::text::{strs_view, SortKey};
use crate::value::{spec_get, DocValue};
use crate::AlloyError;

verus! {

/// The parameters of an object-shaped run step.
#[derive(Debug)]
pub struct RecipeRun {
    pub command: String,
    pub args: Vec<String>,
}

/// The mathematical shape of a `RecipeRun`.
pub struct RecipeRunView {
    pub command: Seq<char>,
    pub args: Seq<Seq<char>>,
}

impl View for RecipeRun {
    type V = RecipeRunView;

    open spec fn view(&self) -> RecipeRunView {
        RecipeRunView { command: self.command@, args: strs_view(self.args@) }
    }
}

/// The parameters of a configuration step.
#[derive(Debug)]
pub struct RecipeWinecfg {
    pub version: Option<String>,
}

impl View for RecipeWinecfg {
    type V = Option<Seq<char>>;

    open spec fn view(&self) -> Option<Seq<char>> {
        crate::runtime::opt_view(self.version)
    }
}

/// One step of a catalog recipe.
#[derive(Debug)]
pub enum RecipeStep {
    Run { run: RecipeRun },
    RunSimple { run: String },
    Env { env: Vec<(String, String)> },
    Winecfg { winecfg: RecipeWinecfg },
    Note { note: String },
}

/// The mathematical shape of a catalog `RecipeStep`.
pub enum CatalogStepView {
    Run { run: RecipeRunView },
    RunSimple { run: Seq<char> },
    Env { env: Seq<(Seq<char>, Seq<char>)> },
    Winecfg { version: Option<Seq<char>> },
    Note { note: Seq<char> },
}

impl View for RecipeStep {
    type V = CatalogStepView;

    open spec fn view(&self) -> CatalogStepView {
        match self {
            RecipeStep::Run { run } => CatalogStepView::Run { run: run@ },
            RecipeStep::RunSimple { run } => CatalogStepView::RunSimple { run: run@ },
            RecipeStep::Env { env } => CatalogStepView::Env { env: env_view(env@) },
            RecipeStep::Winecfg { winecfg } => CatalogStepView::Winecfg { version: winecfg@ },
            RecipeStep::Note { note } => CatalogStepView::Note { note: note@ },
        }
    }
}

/// A catalog recipe: identity, display name, optional description and
/// runtime hint, and its steps.
#[derive(Debug)]
pub struct Recipe {
    pub id: String,
    pub name: String,
    pub description: Option<String>,
    pub runtime: Option<String>,
    pub steps: Vec<RecipeStep>,
}

/// The mathematical shape of a catalog `Recipe`.
pub struct CatalogRecipeView {
    pub id: Seq<char>,
    pub name: Seq<char>,
    pub description: Option<Seq<char>>,
    pub runtime: Option<Seq<char>>,
    pub steps: Seq<CatalogStepView>,
}

/// The views of a list of catalog steps.
pub open spec fn catalog_steps_view(s: Seq<RecipeStep>) -> Seq<CatalogStepView> {
    s.map_values(|x: RecipeStep| x@)
}

impl View for Recipe {
    type V = CatalogRecipeView;

    open spec fn view(&self) -> CatalogRecipeView {
        CatalogRecipeView {
            id: self.id@,
            name: self.name@,
            description: crate::runtime::opt_view(self.description),
            runtime: crate::runtime::opt_view(self.runtime),
            steps: catalog_steps_view(self.steps@),
        }
    }
}

impl SortKey for Recipe {
    open spec fn key(&self) -> Seq<char> {
        text::lower_of(self.name@)
    }

    fn key_le(&self, other: &Self) -> (r: bool)
        ensures
            r == text::lex_le(self.key(), other.key()),
    {
        let a = text::to_lowercase(self.name.as_str());
        let b = text::to_lowercase(other.name.as_str());
        text::str_le(a.as_str(), b.as_str())
    }
}

/// Where the catalog looks for its manifests; resolving the default root
/// from the environment is the shell's work.
#[derive(Debug)]
pub struct RecipeCatalog {
    root: String,
}

impl RecipeCatalog {
    /// The catalog root, as a spec value.
    pub closed spec fn spec_root(&self) -> Seq<char> {
        self.root@
    }

    /// A catalog rooted at the given directory.
    pub fn with_root(root: &str) -> (r: Self)
        ensures
            r.spec_root() == root@,
    {
        RecipeCatalog { root: root.to_owned() }
    }

    /// The catalog root directory.
    pub fn root(&self) -> (r: &str)
        ensures
            r@ == self.spec_root(),
    {
        self.root.as_str()
    }

    /// Where the manifest of the recipe named `id` would sit, under the
    /// given file extension.
    pub fn manifest_path(&self, id: &str, extension: &str) -> (r: String)
        ensures
            r@ == self.spec_root() + "/"@ + id@ + "."@ + extension@,
    {
        let head = text::path_join(self.root.as_str(), id);
        let dotted = text::concat2(head.as_str(), ".");
        text::concat2(dotted.as_str(), extension)
    }
}

// ------------------------------------------------------------------
// Decoding catalog recipes from a parsed document tree.
// ------------------------------------------------------------------

/// An object-shaped run step's parameters: the command is required, the
/// arguments default to none.
pub open spec fn catalog_run_of(v: DocValue) -> Option<RecipeRunView> {
    match spec_get(v, "run"@) {
        Some(DocValue::Mapping(_)) => {
            let inner = spec_get(v, "run"@).unwrap();
            match req_str_of(inner, "command"@) {
                Some(command) => match spec_get(inner, "args"@) {
                    None => Some(RecipeRunView { command, args: Seq::empty() }),
                    Some(DocValue::List(l)) => match str_list(l@) {
                        Some(args) => Some(RecipeRunView { command, args }),
                        None => None,
                    },
                    Some(_) => None,
                },
                None => None,
            }
        },
        _ => None,
    }
}

/// A bare-string run step.
pub open spec fn catalog_run_simple_of(v: DocValue) -> Option<Seq<char>> {
    match spec_get(v, "run"@) {
        Some(DocValue::Str(s)) => Some(s@),
        _ => None,
    }
}

/// A configuration step with its optional version.
pub open spec fn catalog_winecfg_of(v: DocValue) -> Option<Option<Seq<char>>> {
    match spec_get(v, "winecfg"@) {
        Some(DocValue::Mapping(_)) => opt_str_of(spec_get(v, "winecfg"@).unwrap(), "version"@),
        _ => None,
    }
}

/// A note step with its text.
pub open spec fn catalog_note_of(v: DocValue) -> Option<Seq<char>> {
    match spec_get(v, "note"@) {
        Some(DocValue::Str(s)) => Some(s@),
        _ => None,
    }
}

/// Whether a document node matches any catalog step shape; the shapes are
/// tried in a fixed order and the first match wins.
pub open spec fn catalog_step_decodable(v: DocValue) -> bool {
    ||| catalog_run_of(v) is Some
    ||| catalog_run_simple_of(v) is Some
    ||| env_of(v) is Some
    ||| catalog_winecfg_of(v) is Some
    ||| catalog_note_of(v) is Some
}

/// Whether `r` is the catalog step that `v` decodes to; the decoded
/// environment pairs come out key-sorted, each later write having
/// shadowed an earlier one while folding.
pub open spec fn catalog_step_ok(v: DocValue, r: CatalogStepView) -> bool {
    if catalog_run_of(v) is Some {
        r == (CatalogStepView::Run { run: catalog_run_of(v).unwrap() })
    } else if catalog_run_simple_of(v) is Some {
        r == (CatalogStepView::RunSimple { run: catalog_run_simple_of(v).unwrap() })
    } else if env_of(v) is Some {
        match r {
            CatalogStepView::Env { env } => crate::recipes::sorted_env(env)
                && env.to_multiset() == env_of(v).unwrap().to_multiset(),
            _ => false,
        }
    } else if catalog_winecfg_of(v) is Some {
        r == (CatalogStepView::Winecfg { version: catalog_winecfg_of(v).unwrap() })
    } else if catalog_note_of(v) is Some {
        r == (CatalogStepView::Note { note: catalog_note_of(v).unwrap() })
    } else {
        false
    }
}

/// The catalog step a document node decodes to, or the load error that
/// rejects a node matching no known shape.
pub fn decode_catalog_step(v: &DocValue) -> (r: Result<RecipeStep, AlloyError>)
    ensures
        match r {
            Ok(step) => catalog_step_decodable(*v) && catalog_step_ok(*v, step@),
            Err(e) => !catalog_step_decodable(*v) && e is InvalidInput,
        },
{
    match v.get("run") {
        Some(inner @ DocValue::Mapping(_)) => {
            match crate::recipes::get_req_str(inner, "command") {
                Some(command) => {
                    match inner.get("args") {
                        None => {
                            proof {
                                assert(strs_view(Seq::<String>::empty()) =~= Seq::<
                                    Seq<char>,
                                >::empty());
                            }
                            return Ok(
                                RecipeStep::Run {
                                    run: RecipeRun { command, args: Vec::new() },
                                },
                            );
                        },
                        Some(DocValue::List(l)) => {
                            match crate::recipes::get_str_list(l) {
                                Some(args) => {
                                    return Ok(
                                        RecipeStep::Run { run: RecipeRun { command, args } },
                                    );
                                },
                                None => {},
                            }
                        },
                        Some(_) => {},
                    }
                },
                None => {},
            }
        },
        Some(DocValue::Str(s)) => {
            return Ok(RecipeStep::RunSimple { run: s.clone() });
        },
        _ => {},
    }
    proof {
        assert(catalog_run_of(*v) is None && catalog_run_simple_of(*v) is None);
    }
    match v.get("env") {
        Some(DocValue::Mapping(m)) => {
            match crate::recipes::get_env_pairs(m) {
                Some(env) => {
                    return Ok(RecipeStep::Env { env });
                },
                None => {},
            }
        },
        _ => {},
    }
    match v.get("winecfg") {
        Some(inner @ DocValue::Mapping(_)) => {
            match crate::recipes::get_opt_str(inner, "version") {
                Some(version) => {
                    return Ok(RecipeStep::Winecfg { winecfg: RecipeWinecfg { version } });
                },
                None => {},
            }
        },
        _ => {},
    }
    match v.get("note") {
        Some(DocValue::Str(s)) => {
            return Ok(RecipeStep::Note { note: s.clone() });
        },
        _ => {},
    }
    Err(AlloyError::InvalidInput("recipe step matches no known shape".to_owned()))
}

/// Whether a document node has a catalog recipe's required shape: an
/// identifier and a name, optional description and runtime hint, and
/// steps that default to none.
pub open spec fn catalog_recipe_decodable(v: DocValue) -> bool {
    &&& req_str_of(v, "id"@) is Some
    &&& req_str_of(v, "name"@) is Some
    &&& opt_str_of(v, "description"@) is Some
    &&& opt_str_of(v, "runtime"@) is Some
    &&& match spec_get(v, "steps"@) {
        None => true,
        Some(DocValue::List(l)) => forall|i: int|
            0 <= i < l@.len() ==> catalog_step_decodable(#[trigger] l@[i]),
        Some(_) => false,
    }
}

/// Whether `rs` decodes the step list of `v` node by node; a missing list
/// decodes to no steps.
pub open spec fn catalog_steps_ok(v: DocValue, rs: Seq<CatalogStepView>) -> bool {
    match spec_get(v, "steps"@) {
        None => rs.len() == 0,
        Some(DocValue::List(l)) => rs.len() == l@.len() && forall|i: int|
            0 <= i < l@.len() ==> catalog_step_ok(#[trigger] l@[i], rs[i]),
        Some(_) => false,
    }
}

impl Recipe {
    /// The catalog recipe a document node decodes to, or the load error
    /// that rejects it.
    #[verifier::loop_isolation(false)]
    pub fn from_value(v: &DocValue) -> (r: Result<Recipe, AlloyError>)
        ensures
            match r {
                Ok(rec) => {
                    &&& catalog_recipe_decodable(*v)
                    &&& req_str_of(*v, "id"@) == Some(rec.id@)
                    &&& req_str_of(*v, "name"@) == Some(rec.name@)
                    &&& opt_str_of(*v, "description"@) == Some(
                        crate::runtime::opt_view(rec.description),
                    )
                    &&& opt_str_of(*v, "runtime"@) == Some(crate::runtime::opt_view(rec.runtime))
                    &&& catalog_steps_ok(*v, catalog_steps_view(rec.steps@))
                },
                Err(e) => !catalog_recipe_decodable(*v) && e is InvalidInput,
            },
    {
        let id = match crate::recipes::get_req_str(v, "id") {
            Some(s) => s,
            None => {
                return Err(AlloyError::InvalidInput("recipe needs an id".to_owned()));
            },
        };
        let name = match crate::recipes::get_req_str(v, "name") {
            Some(s) => s,
            None => {
                return Err(AlloyError::InvalidInput("recipe needs a name".to_owned()));
            },
        };
        let description = match crate::recipes::get_opt_str(v, "description") {
            Some(d) => d,
            None => {
                return Err(AlloyError::InvalidInput("recipe description must be text".to_owned()));
            },
        };
        let runtime = match crate::recipes::get_opt_str(v, "runtime") {
            Some(d) => d,
            None => {
                return Err(
                    AlloyError::InvalidInput("recipe runtime hint must be text".to_owned()),
                );
            },
        };
        let mut steps: Vec<RecipeStep> = Vec::new();
        match v.get("steps") {
            None => {},
            Some(DocValue::List(list)) => {
                let mut i: usize = 0;
                while i < list.len()
                    invariant
                        i <= list@.len(),
                        steps@.len() == i,
                        forall|j: int|
                            0 <= j < i ==> catalog_step_decodable(#[trigger] list@[j])
                                && catalog_step_ok(list@[j], catalog_steps_view(steps@)[j]),
                    decreases list@.len() - i,
                {
                    let ghost pre = steps@;
                    match decode_catalog_step(&list[i]) {
                        Ok(step) => {
                            steps.push(step);
                            proof {
                                assert(catalog_steps_view(steps@) =~= catalog_steps_view(
                                    pre,
                                ).push(steps@.last()@)) by {
                                    assert(steps@.drop_last() =~= pre);
                                }
                                assert forall|j: int| 0 <= j < i + 1 implies catalog_step_decodable(
                                    #[trigger] list@[j],
                                ) && catalog_step_ok(
                                    list@[j],
                                    catalog_steps_view(steps@)[j],
                                ) by {
                                    if j < i {
                                        assert(catalog_steps_view(steps@)[j] == catalog_steps_view(
                                            pre,
                                        )[j]);
                                    }
                                }
                            }
                        },
                        Err(e) => {
                            return Err(e);
                        },
                    }
                    i = i + 1;
                }
            },
            Some(_) => {
                return Err(AlloyError::InvalidInput("recipe steps must be a list".to_owned()));
            },
        }
        Ok(Recipe { id, name, description, runtime, steps })
    }

    /// Rewrites every bare-string run step into the object form with no
    /// arguments, leaving every other step and field untouched.
    pub fn normalize_runs(&mut self)
        ensures
            final(self).id@ == old(self).id@,
            final(self).name@ == old(self).name@,
            crate::runtime::opt_view(final(self).description) == crate::runtime::opt_view(
                old(self).description,
            ),
            crate::runtime::opt_view(final(self).runtime) == crate::runtime::opt_view(
                old(self).runtime,
            ),
            catalog_steps_view(final(self).steps@) == catalog_steps_view(
                old(self).steps@,
            ).map_values(|s: CatalogStepView| normalize_catalog_step(s)),
    {
        let ghost before = catalog_steps_view(self.steps@);
        let n = self.steps.len();
        let mut out: Vec<RecipeStep> = Vec::new();
        let mut i: usize = 0;
        while i < n
            invariant
                i <= n,
                n == self.steps@.len(),
                catalog_steps_view(self.steps@) == before,
                out@.len() == i,
                forall|j: int|
                    0 <= j < i ==> catalog_steps_view(out@)[j] == normalize_catalog_step(
                        #[trigger] before[j],
                    ),
            decreases n - i,
        {
            let ghost pre = out@;
            let step = duplicate_catalog_step(&self.steps[i]);
            match step {
                RecipeStep::RunSimple { run } => {
                    out.push(RecipeStep::Run { run: RecipeRun { command: run, args: Vec::new() } });
                    proof {
                        assert(strs_view(Seq::<String>::empty()) =~= Seq::<Seq<char>>::empty());
                    }
                },
                other => {
                    out.push(other);
                },
            }
            proof {
                assert(out@.drop_last() =~= pre);
                assert forall|j: int| 0 <= j < i + 1 implies catalog_steps_view(out@)[j]
                    == normalize_catalog_step(#[trigger] before[j]) by {
                    if j < i {
                        assert(catalog_steps_view(out@)[j] == catalog_steps_view(pre)[j]);
                    } else {
                        assert(catalog_steps_view(out@)[j] == out@.last()@);
                    }
                }
            }
            i = i + 1;
        }
        self.steps = out;
        proof {
            assert(catalog_steps_view(self.steps@) =~= before.map_values(
                |s: CatalogStepView| normalize_catalog_step(s),
            ));
        }
    }
}

/// A copy of one catalog step with the same contents.
pub fn duplicate_catalog_step(s: &RecipeStep) -> (r: RecipeStep)
    ensures
        r@ == s@,
{
    match s {
        RecipeStep::Run { run } => RecipeStep::Run {
            run: RecipeRun { command: run.command.clone(), args: text::clone_strs(&run.args) },
        },
        RecipeStep::RunSimple { run } => RecipeStep::RunSimple { run: run.clone() },
        RecipeStep::Env { env } => RecipeStep::Env { env: crate::store::clone_env(env) },
        RecipeStep::Winecfg { winecfg } => RecipeStep::Winecfg {
            winecfg: RecipeWinecfg { version: crate::runtime::clone_opt(&winecfg.version) },
        },
        RecipeStep::Note { note } => RecipeStep::Note { note: note.clone() },
    }
}

/// What normalization does to one step: a bare-string run becomes an
/// object run with no arguments, everything else stands.
pub open spec fn normalize_catalog_step(s: CatalogStepView) -> CatalogStepView {
    match s {
        CatalogStepView::RunSimple { run } => CatalogStepView::Run {
            run: RecipeRunView { command: run, args: Seq::empty() },
        },
        other => other,
    }
}

/// The recipes in catalog order: ascending by display name, compared
/// case-insensitively.
pub fn sort_catalog(recipes: Vec<Recipe>) -> (r: Vec<Recipe>)
    ensures
        r@.to_multiset() == recipes@.to_multiset(),
        forall|i: int, j: int|
            0 <= i < j < r@.len() ==> text::lex_le(
                text::lower_of(#[trigger] r@[i].name@),
                text::lower_of(#[trigger] r@[j].name@),
            ),
{
    let sorted = text::sort_by_key(recipes);
    proof {
        assert forall|i: int, j: int| 0 <= i < j < sorted@.len() implies text::lex_le(
            text::lower_of(#[trigger] sorted@[i].name@),
            text::lower_of(#[trigger] sorted@[j].name@),
        ) by {
            assert(text::lex_le(sorted@[i].key(), sorted@[j].key()));
        }
    }
    sorted
}

/// What one launch inside a bottle needs: the program, its arguments, and
/// the full environment.
#[derive(Debug)]
pub struct LaunchPlan {
    pub program: String,
    pub args: Vec<String>,
    pub env: Vec<(String, String)>,
}

/// The step executor of the name-keyed stack: it interprets a recipe's
/// steps against one bottle, accumulating environment overrides and
/// planning each launch; the shell performs the launches.
pub struct RecipeExecutor<'a> {
    manager: &'a BottleManager,
    bottle: BottleName,
    env: Vec<(String, String)>,
}

impl<'a> RecipeExecutor<'a> {
    /// The manager the executor runs against, as a spec value.
    pub closed spec fn spec_manager(&self) -> BottleManager {
        *self.manager
    }

    /// The bottle the executor runs against, as a spec value.
    pub closed spec fn spec_bottle(&self) -> Seq<char> {
        self.bottle@
    }

    /// The accumulated overrides, as a spec value.
    pub closed spec fn spec_env(&self) -> Seq<(Seq<char>, Seq<char>)> {
        env_view(self.env@)
    }

    /// An executor over one bottle with no overrides yet.
    pub fn new(manager: &'a BottleManager, bottle: BottleName) -> (r: Self)
        ensures
            r.spec_manager() == *manager,
            r.spec_bottle() == bottle@,
            r.spec_env() == Seq::<(Seq<char>, Seq<char>)>::empty(),
    {
        proof {
            assert(env_view(Seq::<(String, String)>::empty()) =~= Seq::<
                (Seq<char>, Seq<char>),
            >::empty());
        }
        RecipeExecutor { manager, bottle, env: Vec::new() }
    }

    /// Applies an environment step: each pair in order, a later write
    /// shadowing prior entries for its key.
    pub fn apply_env(&mut self, pairs: &Vec<(String, String)>)
        ensures
            final(self).spec_manager() == old(self).spec_manager(),
            final(self).spec_bottle() == old(self).spec_bottle(),
            final(self).spec_env() == env_apply_all(old(self).spec_env(), env_view(pairs@)),
    {
        let ghost vars = env_view(pairs@);
        let n = pairs.len();
        let mut i: usize = 0;
        while i < n
            invariant
                i <= n,
                n == pairs@.len(),
                vars == env_view(pairs@),
                self.manager == old(self).manager,
                self.bottle == old(self).bottle,
                env_view(self.env@) == env_apply_all(old(self).spec_env(), vars.take(i as int)),
            decreases n - i,
        {
            proof {
                assert(vars.take(i + 1).drop_last() =~= vars.take(i as int));
                assert(vars.take(i + 1).last() == vars[i as int]);
                assert(vars[i as int] == (pairs@[i as int].0@, pairs@[i as int].1@));
            }
            crate::env::set_var(&mut self.env, pairs[i].0.clone(), pairs[i].1.clone());
            i = i + 1;
        }
        proof {
            assert(vars.take(n as int) =~= vars);
        }
    }

    /// What a run step launches: the named command inside the bottle,
    /// under the bottle's launch environment extended with the
    /// executor's accumulated overrides.
    pub fn run_plan(&self, run: &RecipeRun) -> (r: LaunchPlan)
        ensures
            r.program@ == run.command@,
            strs_view(r.args@) == strs_view(run.args@),
            env_view(r.env@) == seq![
                ("WINEPREFIX"@, self.spec_manager().spec_bottles_dir() + "/"@
                    + self.spec_bottle()),
                ("WINEDEBUG"@, "-all"@),
                (
                    "DYLD_FALLBACK_LIBRARY_PATH"@,
                    self.spec_manager().spec_runtime().spec_root()@ + "/lib"@,
                ),
            ] + self.spec_env(),
    {
        LaunchPlan {
            program: run.command.clone(),
            args: text::clone_strs(&run.args),
            env: self.manager.run_env(&self.bottle, &self.env),
        }
    }

    /// What a run step's completed exit decides: a non-zero exit yields a
    /// note for the shell to log — the kind of failure that is logged,
    /// never escalated — and the recipe continues past it either way.
    pub fn run_outcome(run: &RecipeRun, exit: i32) -> (r: Option<AlloyError>)
        ensures
            match r {
                Some(e) => exit != 0 && e is NonFatalExit,
                None => exit == 0,
            },
    {
        if exit == 0 {
            None
        } else {
            Some(
                AlloyError::NonFatalExit(
                    text::concat2("command exited with a non-zero code: ", run.command.as_str()),
                ),
            )
        }
    }

    /// What a configuration step launches: the runtime's configuration
    /// tool, with the version switch when one was asked for, under the
    /// bottle's launch environment extended with the executor's
    /// overrides.
    pub fn winecfg_plan(&self, winecfg: &RecipeWinecfg) -> (r: LaunchPlan)
        ensures
            r.program@ == self.spec_manager().spec_runtime().spec_root()@ + "/bin/winecfg"@,
            strs_view(r.args@) == match winecfg@ {
                Some(v) => seq!["-v"@, v],
                None => Seq::<Seq<char>>::empty(),
            },
            env_view(r.env@) == seq![
                ("WINEPREFIX"@, self.spec_manager().spec_bottles_dir() + "/"@
                    + self.spec_bottle()),
                ("WINEDEBUG"@, "-all"@),
                (
                    "DYLD_FALLBACK_LIBRARY_PATH"@,
                    self.spec_manager().spec_runtime().spec_root()@ + "/lib"@,
                ),
            ] + self.spec_env(),
    {
        let mut args: Vec<String> = Vec::new();
        match &winecfg.version {
            Some(v) => {
                args.push("-v".to_owned());
                args.push(v.clone());
                proof {
                    assert(strs_view(args@) =~= seq!["-v"@, winecfg@.unwrap()]);
                }
            },
            None => {
                proof {
                    assert(strs_view(args@) =~= Seq::<Seq<char>>::empty());
                }
            },
        }
        LaunchPlan {
            program: self.manager.runtime().winecfg(),
            args,
            env: self.manager.run_env(&self.bottle, &self.env),
        }
    }

    /// What the configuration tool's completed exit decides: likewise a
    /// note for the shell to log, never an abort.
    pub fn winecfg_outcome(success: bool) -> (r: Option<AlloyError>)
        ensures
            match r {
                Some(e) => !success && e is NonFatalExit,
                None => success,
            },
    {
        if success {
            None
        } else {
            Some(AlloyError::NonFatalExit("winecfg exited with a non-zero status".to_owned()))
        }
    }
}

} // verus!

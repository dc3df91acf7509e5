//! The recipe engine: a step interpreter that provisions one bottle by
//! running programs, waiting, configuring, copying resources and mutating
//! environment overrides. The engine decides; the shell performs. Each
//! step that needs outside work yields an action (a launch or a file
//! copy) and absorbs its outcome; the accumulated environment is written
//! back to the record store only after every step has completed, so a
//! failed run leaves the persisted record exactly as it was — though the
//! side effects earlier steps already caused outside are not undone.

use vstd::prelude::*;

use crate::env::{env_set, set_var};
use crate::recipes::{Recipe, RecipeStep, RecipeStepView};
use crate::store::{clone_env, env_view, BottleRecord, BottleRecordView, BottleStore};
use crate::text;
use crate::AlloyError;

verus! {

/// What the shell must perform for the current step.
#[derive(Debug)]
pub enum StepAction {
    /// Launch the program synchronously with the given arguments and
    /// environment, working directory the bottle prefix, and wait.
    Launch { program: String, args: Vec<String>, env: Vec<(String, String)> },
    /// Copy the file at `from` to `to`, creating parent directories.
    CopyFile { from: String, to: String },
    /// Nothing: the step's whole effect was on the in-memory state.
    Advance,
}

/// What the shell reports back for a pending action.
#[derive(Debug)]
pub enum StepOutcome {
    /// The process ran to completion; a non-zero exit is reported here,
    /// not escalated.
    Launched { exit_code: i32, success: bool },
    /// The process could not start.
    LaunchFailed,
    /// The file arrived.
    CopyDone,
    /// The source of the copy does not exist.
    CopySourceMissing,
    /// The copy itself failed.
    CopyFailed,
}

/// Which kind of action the engine is waiting on.
#[derive(Debug, PartialEq, Eq, Structural, Clone, Copy)]
pub enum Pending {
    Launch,
    Copy,
}

/// The environment overrides after applying each pair in order, each
/// write shadowing prior entries for its key.
pub open spec fn env_apply_all(
    env: Seq<(Seq<char>, Seq<char>)>,
    vars: Seq<(Seq<char>, Seq<char>)>,
) -> Seq<(Seq<char>, Seq<char>)>
    decreases vars.len(),
{
    if vars.len() == 0 {
        env
    } else {
        env_set(env_apply_all(env, vars.drop_last()), vars.last().0, vars.last().1)
    }
}

/// The environment handed to a launched process: the isolated-environment
/// variable pointing at the bottle prefix, then the bottle's accumulated
/// overrides.
pub open spec fn launch_env(
    prefix: Seq<char>,
    env: Seq<(Seq<char>, Seq<char>)>,
) -> Seq<(Seq<char>, Seq<char>)> {
    seq![("WINEPREFIX"@, prefix)] + env
}

/// The position of the last slash in a path, if any.
pub open spec fn find_last_slash(s: Seq<char>) -> Option<int>
    decreases s.len(),
{
    if s.len() == 0 {
        None
    } else if s.last() == '/' {
        Some(s.len() - 1)
    } else {
        find_last_slash(s.drop_last())
    }
}

/// Where the runtime's configuration companion tool sits: beside the main
/// executable, under its fixed name. A path with no room for a parent
/// directory has no companion.
pub open spec fn companion_path(wine64: Seq<char>) -> Option<Seq<char>> {
    if wine64.len() == 0 || wine64 == "/"@ {
        None
    } else {
        match find_last_slash(wine64) {
            None => Some("winecfg"@),
            Some(k) => Some(wine64.take(k + 1) + "winecfg"@),
        }
    }
}

/// A record view with its environment replaced.
pub open spec fn with_env(
    rv: BottleRecordView,
    env: Seq<(Seq<char>, Seq<char>)>,
) -> BottleRecordView {
    BottleRecordView {
        id: rv.id,
        name: rv.name,
        created_at: rv.created_at,
        wine_runtime: rv.wine_runtime,
        environment: env,
    }
}

/// The environment a run of the whole recipe accumulates, given the
/// outcome of each outside action in order; nothing when some step fails:
/// a launch that cannot start, a copy that cannot complete, a missing
/// companion tool, or an action the shell never answered.
pub open spec fn replay(
    steps: Seq<RecipeStepView>,
    outcomes: Seq<StepOutcome>,
    env: Seq<(Seq<char>, Seq<char>)>,
    wine64: Seq<char>,
) -> Option<Seq<(Seq<char>, Seq<char>)>>
    decreases steps.len(),
{
    if steps.len() == 0 {
        Some(env)
    } else {
        match steps[0] {
            RecipeStepView::WaitForExit => replay(steps.skip(1), outcomes, env, wine64),
            RecipeStepView::Env { variables } => replay(
                steps.skip(1),
                outcomes,
                env_apply_all(env, variables),
                wine64,
            ),
            RecipeStepView::Run { path, args } => if outcomes.len() > 0 && outcomes[0]
                is Launched {
                replay(steps.skip(1), outcomes.skip(1), env, wine64)
            } else {
                None
            },
            RecipeStepView::WineCfg { version } => {
                let env2 = match version {
                    Some(v) => env.push(("WINE_DEFAULT_VERSION"@, v)),
                    None => env,
                };
                if companion_path(wine64) is None {
                    None
                } else if outcomes.len() > 0 && outcomes[0] is Launched {
                    replay(steps.skip(1), outcomes.skip(1), env2, wine64)
                } else {
                    None
                }
            },
            RecipeStepView::Copy { from, to } => if outcomes.len() > 0 && outcomes[0]
                is CopyDone {
                replay(steps.skip(1), outcomes.skip(1), env, wine64)
            } else {
                None
            },
        }
    }
}

/// One run of a recipe against one bottle: the record loaded once at the
/// start, the working copy of its environment inside it, and the cursor
/// over the steps.
#[derive(Debug)]
pub struct EngineRun {
    pub recipe: Recipe,
    pub record: BottleRecord,
    pub prefix: String,
    pub idx: usize,
    pub pending: Option<Pending>,
    pub failed: bool,
}

impl EngineRun {
    /// The steps the run interprets.
    pub open spec fn steps(&self) -> Seq<RecipeStepView> {
        self.recipe@.manifest.steps
    }

    /// The run may take up its next step.
    pub open spec fn ready(&self) -> bool {
        !self.failed && self.pending is None && self.idx < self.steps().len()
    }

    /// Every step has completed and nothing is pending.
    pub open spec fn complete(&self) -> bool {
        !self.failed && self.pending is None && self.idx == self.steps().len()
    }

    /// A run at the first step of `recipe`, over a working copy of
    /// `record`.
    pub fn start(record: &BottleRecord, recipe: Recipe, prefix: String) -> (r: Self)
        ensures
            r.recipe == recipe,
            r.record@ == record@,
            r.prefix@ == prefix@,
            r.idx == 0,
            r.pending is None,
            !r.failed,
    {
        EngineRun {
            recipe,
            record: record.duplicate(),
            prefix,
            idx: 0,
            pending: None,
            failed: false,
        }
    }

    /// Takes up the current step: applies its effect on the in-memory
    /// environment and yields what the shell must perform, advancing past
    /// steps that need nothing performed. Fails only on a configuration
    /// step whose runtime layout has no room for the companion tool.
    pub fn begin_step(&mut self) -> (r: Result<StepAction, AlloyError>)
        requires
            old(self).ready(),
        ensures
            final(self).recipe == old(self).recipe,
            final(self).prefix == old(self).prefix,
            final(self).record@.id == old(self).record@.id,
            final(self).record@.name == old(self).record@.name,
            final(self).record@.created_at == old(self).record@.created_at,
            final(self).record@.wine_runtime == old(self).record@.wine_runtime,
            match old(self).steps()[old(self).idx as int] {
                RecipeStepView::Run { path, args } => {
                    &&& r matches Ok(StepAction::Launch { program, args: a, env })
                        && program@ == crate::recipes::resource_path(
                        old(self).recipe@.base_dir,
                        path,
                    ) && text::strs_view(a@) == args && env_view(env@) == launch_env(
                        old(self).prefix@,
                        old(self).record@.environment,
                    )
                    &&& final(self).record@.environment == old(self).record@.environment
                    &&& final(self).idx == old(self).idx
                    &&& final(self).pending == Some(Pending::Launch)
                    &&& !final(self).failed
                },
                RecipeStepView::WaitForExit => {
                    &&& r matches Ok(StepAction::Advance)
                    &&& final(self).record@.environment == old(self).record@.environment
                    &&& final(self).idx == old(self).idx + 1
                    &&& final(self).pending is None
                    &&& !final(self).failed
                },
                RecipeStepView::Env { variables } => {
                    &&& r matches Ok(StepAction::Advance)
                    &&& final(self).record@.environment == env_apply_all(
                        old(self).record@.environment,
                        variables,
                    )
                    &&& final(self).idx == old(self).idx + 1
                    &&& final(self).pending is None
                    &&& !final(self).failed
                },
                RecipeStepView::WineCfg { version } => {
                    let env2 = match version {
                        Some(v) => old(self).record@.environment.push(
                            ("WINE_DEFAULT_VERSION"@, v),
                        ),
                        None => old(self).record@.environment,
                    };
                    &&& final(self).record@.environment == env2
                    &&& match companion_path(old(self).record@.wine_runtime.wine64_path) {
                        Some(p) => {
                            &&& r matches Ok(StepAction::Launch { program, args: a, env })
                                && program@ == p && a@.len() == 0 && env_view(env@) == launch_env(
                                old(self).prefix@,
                                env2,
                            )
                            &&& final(self).idx == old(self).idx
                            &&& final(self).pending == Some(Pending::Launch)
                            &&& !final(self).failed
                        },
                        None => {
                            &&& r matches Err(e) && e is NotFound
                            &&& final(self).failed
                        },
                    }
                },
                RecipeStepView::Copy { from, to } => {
                    &&& r matches Ok(StepAction::CopyFile { from: f, to: t })
                        && f@ == crate::recipes::resource_path(old(self).recipe@.base_dir, from)
                        && t@ == old(self).prefix@ + "/"@ + to
                    &&& final(self).record@.environment == old(self).record@.environment
                    &&& final(self).idx == old(self).idx
                    &&& final(self).pending == Some(Pending::Copy)
                    &&& !final(self).failed
                },
            },
    {
        let n = self.recipe.manifest.steps.len();
        let step = duplicate_step(&self.recipe.manifest.steps[self.idx]);
        match step {
            RecipeStep::Run { path, args } => {
                let program = self.recipe.resource(path.as_str());
                let env = self.build_launch_env();
                self.pending = Some(Pending::Launch);
                Ok(StepAction::Launch { program, args, env })
            },
            RecipeStep::WaitForExit => {
                self.idx = self.idx + 1;
                Ok(StepAction::Advance)
            },
            RecipeStep::Env { variables } => {
                self.apply_variables(variables);
                self.idx = self.idx + 1;
                Ok(StepAction::Advance)
            },
            RecipeStep::WineCfg { version } => {
                match version {
                    Some(v) => {
                        let ghost pre = env_view(self.record.environment@);
                        self.record.environment.push(("WINE_DEFAULT_VERSION".to_owned(), v));
                        proof {
                            assert(env_view(self.record.environment@) =~= pre.push(
                                ("WINE_DEFAULT_VERSION"@, self.record.environment@.last().1@),
                            )) by {
                                assert(env_view(self.record.environment@).drop_last() =~= pre);
                            }
                        }
                    },
                    None => {},
                }
                match companion_tool(self.record.wine_runtime.wine64_path.as_str()) {
                    Some(program) => {
                        let env = self.build_launch_env();
                        self.pending = Some(Pending::Launch);
                        Ok(StepAction::Launch { program, args: Vec::new(), env })
                    },
                    None => {
                        self.failed = true;
                        Err(
                            AlloyError::NotFound(
                                "wine runtime missing winecfg companion".to_owned(),
                            ),
                        )
                    },
                }
            },
            RecipeStep::Copy { from, to } => {
                let from_path = self.recipe.resource(from.as_str());
                let to_path = text::path_join(self.prefix.as_str(), to.as_str());
                self.pending = Some(Pending::Copy);
                Ok(StepAction::CopyFile { from: from_path, to: to_path })
            },
        }
    }

    /// Applies one environment step: each pair in order, every write
    /// shadowing prior entries for its key.
    #[verifier::loop_isolation(false)]
    fn apply_variables(&mut self, variables: Vec<(String, String)>)
        ensures
            final(self).record@.environment == env_apply_all(
                old(self).record@.environment,
                env_view(variables@),
            ),
            final(self).record@.id == old(self).record@.id,
            final(self).record@.name == old(self).record@.name,
            final(self).record@.created_at == old(self).record@.created_at,
            final(self).record@.wine_runtime == old(self).record@.wine_runtime,
            final(self).recipe == old(self).recipe,
            final(self).prefix == old(self).prefix,
            final(self).idx == old(self).idx,
            final(self).pending == old(self).pending,
            final(self).failed == old(self).failed,
    {
        let ghost env0 = env_view(old(self).record.environment@);
        let ghost vars = env_view(variables@);
        let mut rest = variables;
        let ghost mut i: int = 0;
        loop
            invariant
                0 <= i <= vars.len(),
                env_view(rest@) == vars.skip(i),
                env_view(self.record.environment@) == env_apply_all(env0, vars.take(i)),
                self.record@.id == old(self).record@.id,
                self.record@.name == old(self).record@.name,
                self.record@.created_at == old(self).record@.created_at,
                self.record@.wine_runtime == old(self).record@.wine_runtime,
                self.recipe == old(self).recipe,
                self.prefix == old(self).prefix,
                self.idx == old(self).idx,
                self.pending == old(self).pending,
                self.failed == old(self).failed,
            decreases vars.len() - i,
        {
            if rest.len() == 0 {
                proof {
                    assert(vars.take(i) =~= vars);
                }
                return ;
            }
            proof {
                assert(env_view(rest@).len() == rest@.len());
                assert(env_view(rest@)[0] == (rest@[0].0@, rest@[0].1@));
                assert(vars.skip(i)[0] == vars[i]);
            }
            let pair = rest.remove(0);
            proof {
                assert(env_view(rest@) =~= vars.skip(i).skip(1)) by {
                    let f = |p: (String, String)| (p.0@, p.1@);
                    assert forall|j: int| 0 <= j < rest@.len() implies env_view(rest@)[j]
                        == vars.skip(i).skip(1)[j] by {
                        assert(env_view(rest@)[j] == f(rest@[j]));
                    }
                }
                assert(vars.skip(i).skip(1) =~= vars.skip(i + 1));
            }
            set_var(&mut self.record.environment, pair.0, pair.1);
            proof {
                assert(vars.take(i + 1).drop_last() =~= vars.take(i));
                assert(vars.take(i + 1).last() == vars[i]);
                i = i + 1;
            }
        }
    }

    /// The environment handed to a launch, as `launch_env` describes it.
    fn build_launch_env(&self) -> (r: Vec<(String, String)>)
        ensures
            env_view(r@) == launch_env(self.prefix@, self.record@.environment),
    {
        let mut out: Vec<(String, String)> = Vec::new();
        out.push(("WINEPREFIX".to_owned(), self.prefix.clone()));
        let mut overrides = clone_env(&self.record.environment);
        let ghost head = env_view(out@);
        let ghost tail = env_view(overrides@);
        out.append(&mut overrides);
        proof {
            assert(head =~= seq![("WINEPREFIX"@, self.prefix@)]);
            assert(env_view(out@) =~= head + tail) by {
                let f = |p: (String, String)| (p.0@, p.1@);
                assert forall|j: int| 0 <= j < out@.len() implies env_view(out@)[j] == (head
                    + tail)[j] by {
                    assert(env_view(out@)[j] == f(out@[j]));
                    if j >= head.len() {
                        assert(tail[j - head.len()] == f(out@[j]));
                    }
                }
            }
        }
        out
    }

    /// Absorbs the outcome of the pending action: a completed launch or
    /// copy advances the run — a non-zero exit is logged by the shell and
    /// deliberately not escalated — while a launch that could not start, a
    /// missing copy source or a failed copy ends the run with the
    /// matching error.
    pub fn finish_step(&mut self, outcome: StepOutcome) -> (r: Result<(), AlloyError>)
        requires
            old(self).pending is Some,
            !old(self).failed,
            old(self).idx < old(self).steps().len(),
        ensures
            final(self).recipe == old(self).recipe,
            final(self).prefix == old(self).prefix,
            final(self).record@ == old(self).record@,
            match (old(self).pending.unwrap(), outcome) {
                (Pending::Launch, StepOutcome::Launched { .. }) => {
                    &&& r is Ok
                    &&& final(self).idx == old(self).idx + 1
                    &&& final(self).pending is None
                    &&& !final(self).failed
                },
                (Pending::Copy, StepOutcome::CopyDone) => {
                    &&& r is Ok
                    &&& final(self).idx == old(self).idx + 1
                    &&& final(self).pending is None
                    &&& !final(self).failed
                },
                (Pending::Copy, StepOutcome::CopySourceMissing) => {
                    &&& r matches Err(e) && e is NotFound
                    &&& final(self).failed
                },
                (Pending::Launch, _) => {
                    &&& r matches Err(e) && e is LaunchFailure
                    &&& final(self).failed
                },
                (Pending::Copy, _) => {
                    &&& r matches Err(e) && e is Io
                    &&& final(self).failed
                },
            },
    {
        let n = self.recipe.manifest.steps.len();
        proof {
            assert(self.idx < n);
        }
        let kind = match self.pending {
            Some(k) => k,
            None => {
                proof {
                    assert(false);
                }
                Pending::Launch
            },
        };
        match (kind, outcome) {
            (Pending::Launch, StepOutcome::Launched { .. }) => {
                self.pending = None;
                self.idx = self.idx + 1;
                Ok(())
            },
            (Pending::Copy, StepOutcome::CopyDone) => {
                self.pending = None;
                self.idx = self.idx + 1;
                Ok(())
            },
            (Pending::Copy, StepOutcome::CopySourceMissing) => {
                self.failed = true;
                Err(AlloyError::NotFound("recipe resource is missing".to_owned()))
            },
            (Pending::Launch, _) => {
                self.failed = true;
                Err(AlloyError::LaunchFailure("wine command could not start".to_owned()))
            },
            (Pending::Copy, _) => {
                self.failed = true;
                Err(AlloyError::Io("copying the recipe resource failed".to_owned()))
            },
        }
    }

    /// Writes the accumulated environment back to the store, once every
    /// step has completed; fails with `NotFound` exactly when the bottle
    /// is gone, and returns the applied recipe's identifier.
    pub fn persist(self, store: &mut BottleStore, bottle_id: &str) -> (r: Result<
        String,
        AlloyError,
    >)
        requires
            old(store).wf(),
            self.complete(),
        ensures
            final(store).wf(),
            final(store).spec_root() == old(store).spec_root(),
            match r {
                Ok(rid) => {
                    &&& rid@ == self.recipe@.manifest.id
                    &&& old(store)@.contains_key(bottle_id@)
                    &&& final(store)@ == old(store)@.insert(bottle_id@, self.record@)
                },
                Err(e) => {
                    &&& !old(store)@.contains_key(bottle_id@)
                    &&& e is NotFound
                    &&& final(store)@ == old(store)@
                },
            },
    {
        match store.update_record(bottle_id, &self.record) {
            Ok(()) => Ok(self.recipe.manifest.id),
            Err(e) => Err(e),
        }
    }
}

/// The companion tool's path for a given main-executable path, as
/// `companion_path` describes it.
#[verifier::loop_isolation(false)]
fn companion_tool(wine64: &str) -> (r: Option<String>)
    ensures
        match r {
            Some(p) => companion_path(wine64@) == Some(p@),
            None => companion_path(wine64@) is None,
        },
{
    let n = wine64.unicode_len();
    if n == 0 {
        return None;
    }
    if n == 1 && wine64.get_char(0) == '/' {
        proof {
            assert(wine64@ =~= "/"@) by {
                reveal_strlit("/");
            }
        }
        return None;
    }
    proof {
        assert(wine64@ != "/"@) by {
            reveal_strlit("/");
            if wine64@ == "/"@ {
                assert(wine64@.len() == 1);
                assert(wine64@[0] == '/');
            }
        }
    }
    let chars = text::chars_of(wine64);
    let mut i: usize = n;
    proof {
        assert(wine64@.take(n as int) =~= wine64@);
    }
    loop
        invariant
            0 <= i <= n,
            n == wine64@.len(),
            chars@ == wine64@,
            find_last_slash(wine64@) == find_last_slash(wine64@.take(i as int)),
        decreases i,
    {
        if i == 0 {
            proof {
                assert(wine64@.take(0).len() == 0);
            }
            let r = "winecfg".to_owned();
            return Some(r);
        }
        proof {
            assert(wine64@.take(i as int).last() == wine64@[i - 1]);
            assert(wine64@.take(i as int).drop_last() =~= wine64@.take(i - 1));
        }
        if chars[i - 1] == '/' {
            let head = text::string_of_range(&chars, 0, i);
            let out = text::concat2(head.as_str(), "winecfg");
            proof {
                assert(wine64@.take(i as int) =~= wine64@.subrange(0, i as int));
            }
            return Some(out);
        }
        i = i - 1;
    }
}

/// A copy of one step with the same contents.
pub fn duplicate_step(s: &RecipeStep) -> (r: RecipeStep)
    ensures
        r@ == s@,
{
    match s {
        RecipeStep::Run { path, args } => RecipeStep::Run {
            path: path.clone(),
            args: text::clone_strs(args),
        },
        RecipeStep::WaitForExit => RecipeStep::WaitForExit,
        RecipeStep::WineCfg { version } => RecipeStep::WineCfg {
            version: crate::runtime::clone_opt(version),
        },
        RecipeStep::Env { variables } => RecipeStep::Env { variables: clone_env(variables) },
        RecipeStep::Copy { from, to } => RecipeStep::Copy { from: from.clone(), to: to.clone() },
    }
}

/// Interprets the whole recipe against the bottle `bottle_id`, the
/// outcome of each outside action given in order, and persists the
/// accumulated environment only when every step completed; on any
/// failure the store is left exactly as it was, although the side
/// effects completed steps caused outside the store are not undone.
/// Returns the applied recipe's identifier.
#[verifier::loop_isolation(false)]
pub fn apply_recipe(
    store: &mut BottleStore,
    bottle_id: &str,
    recipe: Recipe,
    outcomes: &Vec<StepOutcome>,
) -> (r: Result<String, AlloyError>)
    requires
        old(store).wf(),
    ensures
        final(store).wf(),
        final(store).spec_root() == old(store).spec_root(),
        match r {
            Ok(rid) => {
                &&& rid@ == recipe@.manifest.id
                &&& old(store)@.contains_key(bottle_id@)
                &&& replay(
                    recipe@.manifest.steps,
                    outcomes@,
                    old(store)@[bottle_id@].environment,
                    old(store)@[bottle_id@].wine_runtime.wine64_path,
                ) matches Some(env) && final(store)@ == old(store)@.insert(
                    bottle_id@,
                    with_env(old(store)@[bottle_id@], env),
                )
            },
            Err(e) => {
                &&& final(store)@ == old(store)@
                &&& !old(store)@.contains_key(bottle_id@) ==> e is NotFound
                &&& old(store)@.contains_key(bottle_id@) ==> replay(
                    recipe@.manifest.steps,
                    outcomes@,
                    old(store)@[bottle_id@].environment,
                    old(store)@[bottle_id@].wine_runtime.wine64_path,
                ) is None
            },
        },
{
    let record = match store.record(bottle_id) {
        Ok(rec) => rec,
        Err(e) => {
            return Err(e);
        },
    };
    let prefix = store.bottle_prefix(bottle_id);
    let ghost env0 = record@.environment;
    let ghost wine64 = record@.wine_runtime.wine64_path;
    let ghost all_steps = recipe@.manifest.steps;
    let mut run = EngineRun::start(&record, recipe, prefix);
    let mut k: usize = 0;
    proof {
        assert(all_steps.skip(0) =~= all_steps);
        assert(outcomes@.skip(0) =~= outcomes@);
    }
    loop
        invariant
            run.pending is None,
            !run.failed,
            run.idx <= all_steps.len(),
            k <= outcomes@.len(),
            run.steps() == all_steps,
            run.recipe@.manifest.id == recipe@.manifest.id,
            run.record@.id == record@.id,
            run.record@.name == record@.name,
            run.record@.created_at == record@.created_at,
            run.record@.wine_runtime == record@.wine_runtime,
            replay(
                all_steps.skip(run.idx as int),
                outcomes@.skip(k as int),
                run.record@.environment,
                wine64,
            ) == replay(all_steps, outcomes@, env0, wine64),
        decreases all_steps.len() - run.idx, outcomes@.len() - k,
    {
        if run.idx == run.recipe.manifest.steps.len() {
            break ;
        }
        let ghost cur = all_steps.skip(run.idx as int);
        proof {
            assert(cur[0] == all_steps[run.idx as int]);
            assert(cur.skip(1) =~= all_steps.skip(run.idx + 1));
        }
        let action = match run.begin_step() {
            Ok(a) => a,
            Err(e) => {
                return Err(e);
            },
        };
        match action {
            StepAction::Advance => {},
            StepAction::Launch { .. } => {
                proof {
                    assert(outcomes@.skip(k as int).len() == outcomes@.len() - k);
                }
                if k < outcomes.len() {
                    proof {
                        assert(outcomes@.skip(k as int)[0] == outcomes@[k as int]);
                        assert(outcomes@.skip(k as int).skip(1) =~= outcomes@.skip(k + 1));
                    }
                    let outcome = duplicate_outcome(&outcomes[k]);
                    match run.finish_step(outcome) {
                        Ok(()) => {
                            k = k + 1;
                        },
                        Err(e) => {
                            return Err(e);
                        },
                    }
                } else {
                    return Err(
                        AlloyError::LaunchFailure("wine command could not start".to_owned()),
                    );
                }
            },
            StepAction::CopyFile { .. } => {
                proof {
                    assert(outcomes@.skip(k as int).len() == outcomes@.len() - k);
                }
                if k < outcomes.len() {
                    proof {
                        assert(outcomes@.skip(k as int)[0] == outcomes@[k as int]);
                        assert(outcomes@.skip(k as int).skip(1) =~= outcomes@.skip(k + 1));
                    }
                    let outcome = duplicate_outcome(&outcomes[k]);
                    match run.finish_step(outcome) {
                        Ok(()) => {
                            k = k + 1;
                        },
                        Err(e) => {
                            return Err(e);
                        },
                    }
                } else {
                    return Err(AlloyError::Io("copying the recipe resource failed".to_owned()));
                }
            },
        }
    }
    proof {
        assert(all_steps.skip(run.idx as int).len() == 0);
        assert(replay(
            all_steps.skip(run.idx as int),
            outcomes@.skip(k as int),
            run.record@.environment,
            wine64,
        ) == Some(run.record@.environment));
        assert(with_env(old(store)@[bottle_id@], run.record@.environment) =~= run.record@);
    }
    run.persist(store, bottle_id)
}

/// A copy of one outcome with the same contents.
pub fn duplicate_outcome(o: &StepOutcome) -> (r: StepOutcome)
    ensures
        r == o,
{
    match o {
        StepOutcome::Launched { exit_code, success } => StepOutcome::Launched {
            exit_code: *exit_code,
            success: *success,
        },
        StepOutcome::LaunchFailed => StepOutcome::LaunchFailed,
        StepOutcome::CopyDone => StepOutcome::CopyDone,
        StepOutcome::CopySourceMissing => StepOutcome::CopySourceMissing,
        StepOutcome::CopyFailed => StepOutcome::CopyFailed,
    }
}

} // verus!

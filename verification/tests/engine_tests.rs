//! The recipe engine: environment semantics, step interpretation, and the
//! persist-only-on-success contract.

use silicon_alloy::engine::{apply_recipe, EngineRun, StepAction, StepOutcome};
use silicon_alloy::env::set_var;
use silicon_alloy::recipes::{Recipe, RecipeManifest, RecipeStep};
use silicon_alloy::runtime::WineRuntime;
use silicon_alloy::store::BottleStore;
use silicon_alloy::AlloyError;

fn test_runtime() -> WineRuntime {
    WineRuntime {
        label: "wine x86_64 7.0".to_string(),
        wine64_path: "/rt/wine-x86_64-7.0/bin/wine64".to_string(),
        version: "7.0".to_string(),
        channel: Some("rossetta".to_string()),
    }
}

fn recipe(steps: Vec<RecipeStep>) -> Recipe {
    Recipe {
        manifest: RecipeManifest {
            id: "demo".to_string(),
            name: "Demo".to_string(),
            description: None,
            steps,
        },
        base_dir: "/recipes/demo".to_string(),
    }
}

fn pair(k: &str, v: &str) -> (String, String) {
    (k.to_string(), v.to_string())
}

#[test]
fn env_set_twice_keeps_one_entry_with_later_value() {
    let mut env = vec![pair("X", "1")];
    set_var(&mut env, "K".to_string(), "a".to_string());
    set_var(&mut env, "K".to_string(), "b".to_string());
    assert_eq!(env, vec![pair("X", "1"), pair("K", "b")]);
}

#[test]
fn env_set_preserves_order_of_other_keys() {
    let mut env = vec![pair("A", "1"), pair("B", "2"), pair("C", "3")];
    set_var(&mut env, "B".to_string(), "9".to_string());
    assert_eq!(env, vec![pair("A", "1"), pair("C", "3"), pair("B", "9")]);
}

#[test]
fn failed_third_step_leaves_persisted_environment_unchanged() {
    let mut store = BottleStore::with_root("/data/bottles".to_string());
    let record = store.create("game", test_runtime()).unwrap();
    let id = record.id.clone();
    let steps = vec![
        RecipeStep::Copy { from: "a.dll".to_string(), to: "drive_c/a.dll".to_string() },
        RecipeStep::Env { variables: vec![pair("FOO", "bar")] },
        RecipeStep::Copy { from: "missing.dll".to_string(), to: "drive_c/m.dll".to_string() },
    ];
    // The first copy landed on disk, the second source was missing.
    let outcomes = vec![StepOutcome::CopyDone, StepOutcome::CopySourceMissing];
    let err = apply_recipe(&mut store, id.as_str(), recipe(steps), &outcomes).unwrap_err();
    assert!(matches!(err, AlloyError::NotFound(_)));
    let after = store.record(id.as_str()).unwrap();
    assert!(after.environment.is_empty());
}

#[test]
fn completed_recipe_persists_accumulated_environment() {
    let mut store = BottleStore::with_root("/data/bottles".to_string());
    let record = store.create("game", test_runtime()).unwrap();
    let id = record.id.clone();
    let steps = vec![
        RecipeStep::Env { variables: vec![pair("FOO", "bar")] },
        RecipeStep::WaitForExit,
        RecipeStep::Run { path: "setup.exe".to_string(), args: vec![] },
        RecipeStep::Env { variables: vec![pair("FOO", "baz"), pair("QUX", "1")] },
    ];
    let outcomes = vec![StepOutcome::Launched { exit_code: 0, success: true }];
    let applied = apply_recipe(&mut store, id.as_str(), recipe(steps), &outcomes).unwrap();
    assert_eq!(applied, "demo");
    let after = store.record(id.as_str()).unwrap();
    assert_eq!(after.environment, vec![pair("FOO", "baz"), pair("QUX", "1")]);
}

#[test]
fn non_zero_exit_of_a_run_step_does_not_abort() {
    let mut store = BottleStore::with_root("/data/bottles".to_string());
    let record = store.create("game", test_runtime()).unwrap();
    let id = record.id.clone();
    let steps = vec![
        RecipeStep::Run { path: "setup.exe".to_string(), args: vec![] },
        RecipeStep::Env { variables: vec![pair("DONE", "yes")] },
    ];
    let outcomes = vec![StepOutcome::Launched { exit_code: 3, success: false }];
    apply_recipe(&mut store, id.as_str(), recipe(steps), &outcomes).unwrap();
    let after = store.record(id.as_str()).unwrap();
    assert_eq!(after.environment, vec![pair("DONE", "yes")]);
}

#[test]
fn launch_failure_aborts_with_launch_error() {
    let mut store = BottleStore::with_root("/data/bottles".to_string());
    let record = store.create("game", test_runtime()).unwrap();
    let id = record.id.clone();
    let steps = vec![RecipeStep::Run { path: "setup.exe".to_string(), args: vec![] }];
    let outcomes = vec![StepOutcome::LaunchFailed];
    let err = apply_recipe(&mut store, id.as_str(), recipe(steps), &outcomes).unwrap_err();
    assert!(matches!(err, AlloyError::LaunchFailure(_)));
}

#[test]
fn copy_io_failure_aborts_with_io_error() {
    let mut store = BottleStore::with_root("/data/bottles".to_string());
    let record = store.create("game", test_runtime()).unwrap();
    let id = record.id.clone();
    let steps = vec![RecipeStep::Copy { from: "a".to_string(), to: "b".to_string() }];
    let outcomes = vec![StepOutcome::CopyFailed];
    let err = apply_recipe(&mut store, id.as_str(), recipe(steps), &outcomes).unwrap_err();
    assert!(matches!(err, AlloyError::Io(_)));
}

#[test]
fn apply_against_missing_bottle_fails_not_found() {
    let mut store = BottleStore::with_root("/data/bottles".to_string());
    let err = apply_recipe(&mut store, "nope", recipe(vec![]), &vec![]).unwrap_err();
    assert!(matches!(err, AlloyError::NotFound(_)));
}

#[test]
fn run_step_resolves_relative_path_and_builds_environment() {
    let mut store = BottleStore::with_root("/data/bottles".to_string());
    let mut record = store.create("game", test_runtime()).unwrap();
    record.environment.push(pair("WINEESYNC", "1"));
    let steps = vec![RecipeStep::Run {
        path: "setup.exe".to_string(),
        args: vec!["/s".to_string()],
    }];
    let prefix = store.bottle_prefix(record.id.as_str());
    let mut run = EngineRun::start(&record, recipe(steps), prefix.clone());
    match run.begin_step().unwrap() {
        StepAction::Launch { program, args, env } => {
            assert_eq!(program, "/recipes/demo/resources/setup.exe");
            assert_eq!(args, vec!["/s".to_string()]);
            assert_eq!(env[0], pair("WINEPREFIX", prefix.as_str()));
            assert_eq!(env[1], pair("WINEESYNC", "1"));
        },
        other => panic!("unexpected action {:?}", other),
    }
    run.finish_step(StepOutcome::Launched { exit_code: 0, success: true }).unwrap();
}

#[test]
fn winecfg_step_launches_companion_beside_the_executable() {
    let store = BottleStore::with_root("/data/bottles".to_string());
    let mut temp = BottleStore::with_root("/data/bottles".to_string());
    let record = temp.create("game", test_runtime()).unwrap();
    let steps = vec![RecipeStep::WineCfg { version: Some("7".to_string()) }];
    let prefix = store.bottle_prefix(record.id.as_str());
    let mut run = EngineRun::start(&record, recipe(steps), prefix);
    match run.begin_step().unwrap() {
        StepAction::Launch { program, args, env } => {
            assert_eq!(program, "/rt/wine-x86_64-7.0/bin/winecfg");
            assert!(args.is_empty());
            // The version override is already part of the launch environment.
            assert!(env.contains(&pair("WINE_DEFAULT_VERSION", "7")));
        },
        other => panic!("unexpected action {:?}", other),
    }
}

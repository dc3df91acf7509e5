//! Daemon dispatch decisions: method routing, parameter decoding, bottle
//! operations, run plans, and the protocol constructors; plus the manager
//! and locator paths of the name-keyed stack.

use silicon_alloy::catalog::{RecipeExecutor, RecipeRun, RecipeWinecfg};
use silicon_alloy::locator::{parse_buildinfo, RuntimeLocator};
use silicon_alloy::manager::BottleManager;
use silicon_alloy::name::BottleName;
use silicon_alloy::rpc::{DaemonResponse, DaemonStatus, RpcResponse};
use silicon_alloy::runtime::WineRuntime;
use silicon_alloy::service::{
    parse_method, BottleCreateParams, BottleRunParams, DaemonService, Method, RecipeApplyParams,
};
use silicon_alloy::store::BottleStore;
use silicon_alloy::value::DocValue;
use silicon_alloy::AlloyError;

fn text(s: &str) -> DocValue {
    DocValue::Str(s.to_string())
}

fn mapping(entries: Vec<(&str, DocValue)>) -> DocValue {
    DocValue::Mapping(entries.into_iter().map(|(k, v)| (k.to_string(), v)).collect())
}

#[test]
fn method_routing_covers_the_surface() {
    assert_eq!(parse_method("service.ping"), Some(Method::ServicePing));
    assert_eq!(parse_method("bottle.create"), Some(Method::BottleCreate));
    assert_eq!(parse_method("recipe.apply"), Some(Method::RecipeApply));
    assert_eq!(parse_method("shortcut.create"), Some(Method::ShortcutCreate));
    assert_eq!(parse_method("bottle.explode"), None);
}

#[test]
fn create_params_decode_and_reject() {
    let good = mapping(vec![
        ("name", text("game")),
        ("wine_version", text("7.0")),
        ("channel", text("rossetta")),
    ]);
    let p = BottleCreateParams::from_value(&good).unwrap();
    assert_eq!(p.name, "game");
    assert_eq!(p.wine_version, "7.0");
    assert_eq!(p.channel.as_deref(), Some("rossetta"));
    assert!(p.wine_label.is_none());
    assert!(p.wine_path.is_none());

    let missing_name = mapping(vec![("wine_version", text("7.0"))]);
    let err = BottleCreateParams::from_value(&missing_name).unwrap_err();
    assert!(matches!(err, AlloyError::InvalidInput(_)));
}

#[test]
fn run_params_decode_optional_args() {
    let with_args = mapping(vec![
        ("id", text("b-1")),
        ("executable", text("game.exe")),
        ("args", DocValue::List(vec![text("-w")])),
    ]);
    let p = BottleRunParams::from_value(&with_args).unwrap();
    assert_eq!(p.args, Some(vec!["-w".to_string()]));

    let without = mapping(vec![("id", text("b-1")), ("executable", text("game.exe"))]);
    let p = BottleRunParams::from_value(&without).unwrap();
    assert!(p.args.is_none());
}

#[test]
fn apply_params_require_both_identifiers() {
    let good = mapping(vec![("bottle_id", text("b")), ("recipe_id", text("r"))]);
    let p = RecipeApplyParams::from_value(&good).unwrap();
    assert_eq!(p.bottle_id, "b");
    assert_eq!(p.recipe_id, "r");
    let bad = mapping(vec![("bottle_id", text("b"))]);
    assert!(RecipeApplyParams::from_value(&bad).is_err());
}

fn fresh_service() -> DaemonService {
    DaemonService::new(
        BottleStore::with_root("/data/bottles".to_string()),
        "/data/runtime".to_string(),
        "/data/recipes".to_string(),
        vec![],
    )
}

#[test]
fn service_creates_lists_and_deletes() {
    let mut service = fresh_service();
    let params = BottleCreateParams {
        name: "my-game".to_string(),
        wine_version: "7.0".to_string(),
        wine_label: None,
        wine_path: Some("/custom/wine64".to_string()),
        channel: None,
    };
    let record = service.bottle_create(&params).unwrap();
    assert_eq!(record.name, "my-game");
    assert_eq!(record.wine_runtime.wine64_path, "/custom/wine64");
    assert_eq!(service.bottle_list().len(), 1);
    let rejected = BottleCreateParams {
        name: "???".to_string(),
        wine_version: "7.0".to_string(),
        wine_label: None,
        wine_path: None,
        channel: None,
    };
    assert!(matches!(
        service.bottle_create(&rejected),
        Err(AlloyError::InvalidInput(_))
    ));
    assert_eq!(service.bottle_list().len(), 1);
    service.bottle_delete(record.id.as_str()).unwrap();
    assert!(service.bottle_list().is_empty());
    let err = service.bottle_delete(record.id.as_str()).unwrap_err();
    assert!(matches!(err, AlloyError::NotFound(_)));
}

#[test]
fn bottle_run_plan_builds_arguments_and_environment() {
    let mut service = fresh_service();
    let params = BottleCreateParams {
        name: "my-game".to_string(),
        wine_version: "7.0".to_string(),
        wine_label: None,
        wine_path: Some("/custom/wine64".to_string()),
        channel: None,
    };
    let record = service.bottle_create(&params).unwrap();
    let run = BottleRunParams {
        id: record.id.clone(),
        executable: "game.exe".to_string(),
        args: Some(vec!["-windowed".to_string()]),
    };
    let plan = service.bottle_run_plan(&run).unwrap();
    assert_eq!(plan.program, "/custom/wine64");
    assert_eq!(plan.args, vec!["game.exe".to_string(), "-windowed".to_string()]);
    assert_eq!(
        plan.env[0],
        (
            "WINEPREFIX".to_string(),
            format!("/data/bottles/{}/prefix", record.id)
        )
    );
    let missing = BottleRunParams {
        id: "ghost".to_string(),
        executable: "x".to_string(),
        args: None,
    };
    assert!(matches!(service.bottle_run_plan(&missing), Err(AlloyError::NotFound(_))));
}

#[test]
fn run_result_carries_exit_status_as_success() {
    let outcome = DaemonService::run_result(Some(42), false);
    assert_eq!(outcome.exit_status, Some(42));
    assert!(!outcome.success);
}

#[test]
fn daemon_response_constructors() {
    let ok = DaemonResponse::ok("r1".to_string(), DocValue::Bool(true));
    assert!(matches!(ok.status, DaemonStatus::Success));
    assert!(ok.result.is_some());
    let empty = DaemonResponse::empty("r2".to_string());
    assert!(empty.result.is_none());
    let err = DaemonResponse::error("r3".to_string(), "boom".to_string());
    assert!(matches!(err.status, DaemonStatus::Error { message } if message == "boom"));
}

#[test]
fn rpc_response_constructors() {
    let ok = RpcResponse::result(Some(DocValue::Int(1)), DocValue::Null);
    assert!(ok.error.is_none());
    let err = RpcResponse::error(None, -32000, "bad".to_string());
    let e = err.error.unwrap();
    assert_eq!(e.code, -32000);
    assert_eq!(e.message, "bad");
}

#[test]
fn buildinfo_parses_fields_and_defaults() {
    let contents = "version=9.2\narch=arm64\nbuilt_at= 2024-01-01 \nsdk_path=\nmin_macos= 12.0\n";
    let meta = parse_buildinfo(contents);
    assert_eq!(meta.version, "9.2");
    assert_eq!(meta.arch, "arm64");
    assert_eq!(meta.built_at.as_deref(), Some("2024-01-01"));
    assert!(meta.sdk_path.is_none());
    assert!(meta.sdk_version.is_none());
    assert_eq!(meta.min_macos.as_deref(), Some("12.0"));

    let empty = parse_buildinfo("notes=none\n");
    assert_eq!(empty.version, "unknown");
    assert_eq!(empty.arch, "unknown");
}

#[test]
fn locator_paths_sit_under_the_root() {
    let locator = RuntimeLocator::with_root("/rt".to_string(), "version=7.0\narch=x86_64\n");
    assert_eq!(locator.wine64(), "/rt/bin/wine64");
    assert_eq!(locator.wineboot(), "/rt/bin/wineboot");
    assert_eq!(locator.winecfg(), "/rt/bin/winecfg");
    assert_eq!(locator.metadata().version, "7.0");
    let env = locator.default_environment();
    assert_eq!(
        env,
        vec![("DYLD_FALLBACK_LIBRARY_PATH".to_string(), "/rt/lib".to_string())]
    );
}

fn test_manager() -> BottleManager {
    let locator = RuntimeLocator::with_root("/rt".to_string(), "version=7.0\narch=x86_64\n");
    BottleManager::new(locator, "/data/bottles".to_string(), "/data/logs".to_string())
}

#[test]
fn manager_paths_follow_the_layout() {
    let manager = test_manager();
    let name = "My Game".parse::<BottleName>().unwrap();
    assert_eq!(manager.bottle_path(&name), "/data/bottles/my-game");
    assert_eq!(manager.metadata_path(&name), "/data/bottles/my-game/silicon-alloy.json");
    assert_eq!(manager.log_path(&name), "/data/logs/my-game.log");
    assert_eq!(manager.bottle_prefix(&name), "/data/bottles/my-game");
}

#[test]
fn manager_run_env_orders_overrides_last() {
    let manager = test_manager();
    let name = "game".parse::<BottleName>().unwrap();
    let extra = vec![("WINEESYNC".to_string(), "1".to_string())];
    let env = manager.run_env(&name, &extra);
    assert_eq!(env[0], ("WINEPREFIX".to_string(), "/data/bottles/game".to_string()));
    assert_eq!(env[1], ("WINEDEBUG".to_string(), "-all".to_string()));
    assert_eq!(
        env[2],
        ("DYLD_FALLBACK_LIBRARY_PATH".to_string(), "/rt/lib".to_string())
    );
    assert_eq!(env[3], ("WINEESYNC".to_string(), "1".to_string()));
}

#[test]
fn executor_plans_runs_and_notes_non_zero_exits() {
    let manager = test_manager();
    let name = "game".parse::<BottleName>().unwrap();
    let mut executor = RecipeExecutor::new(&manager, name);
    executor.apply_env(&vec![("A".to_string(), "1".to_string())]);
    let run = RecipeRun { command: "setup.exe".to_string(), args: vec!["-q".to_string()] };
    let plan = executor.run_plan(&run);
    assert_eq!(plan.program, "setup.exe");
    assert_eq!(plan.args, vec!["-q".to_string()]);
    assert_eq!(plan.env.last().unwrap(), &("A".to_string(), "1".to_string()));
    // A non-zero exit is only noted for logging; the recipe continues.
    assert!(RecipeExecutor::run_outcome(&run, 0).is_none());
    let note = RecipeExecutor::run_outcome(&run, 2).unwrap();
    assert!(matches!(note, AlloyError::NonFatalExit(_)));
}

#[test]
fn executor_plans_winecfg_with_version_switch() {
    let manager = test_manager();
    let name = "game".parse::<BottleName>().unwrap();
    let executor = RecipeExecutor::new(&manager, name);
    let plan = executor.winecfg_plan(&RecipeWinecfg { version: Some("7".to_string()) });
    assert_eq!(plan.program, "/rt/bin/winecfg");
    assert_eq!(plan.args, vec!["-v".to_string(), "7".to_string()]);
    assert!(RecipeExecutor::winecfg_outcome(true).is_none());
    assert!(matches!(
        RecipeExecutor::winecfg_outcome(false),
        Some(AlloyError::NonFatalExit(_))
    ));
}

#[test]
fn into_wine_runtime_moves_the_channel() {
    let d = silicon_alloy::runtime::RuntimeDescriptor {
        channel: "rossetta".to_string(),
        label: "wine x86_64 7.0".to_string(),
        version: "7.0".to_string(),
        wine64_path: "/rt/bin/wine64".to_string(),
        notes: None,
    };
    let rt: WineRuntime = d.into_wine_runtime();
    assert_eq!(rt.channel.as_deref(), Some("rossetta"));
    assert_eq!(rt.label, "wine x86_64 7.0");
}

//! Recipe decoding and normalization, for both manifest shapes.

use silicon_alloy::catalog;
use silicon_alloy::recipes::{
    find_recipe, Recipe, RecipeManifest, RecipeManifestRaw, RecipeStep, RecipeStepRaw,
};
use silicon_alloy::value::DocValue;
use silicon_alloy::AlloyError;

fn text(s: &str) -> DocValue {
    DocValue::Str(s.to_string())
}

fn mapping(entries: Vec<(&str, DocValue)>) -> DocValue {
    DocValue::Mapping(entries.into_iter().map(|(k, v)| (k.to_string(), v)).collect())
}

#[test]
fn manifest_decodes_every_step_shape() {
    let doc = mapping(vec![
        ("id", text("setup-tools")),
        ("name", text("Setup Tools")),
        ("description", text("installs the usual tools")),
        (
            "steps",
            DocValue::List(vec![
                mapping(vec![("run", text("setup.exe"))]),
                mapping(vec![("wait_for_exit", DocValue::Bool(true))]),
                mapping(vec![("env", mapping(vec![("B", text("2")), ("A", text("1"))]))]),
                mapping(vec![(
                    "copy",
                    mapping(vec![("from", text("cfg.ini")), ("to", text("drive_c/cfg.ini"))]),
                )]),
                mapping(vec![("winecfg", mapping(vec![("version", text("7"))]))]),
                mapping(vec![(
                    "run",
                    mapping(vec![
                        ("path", text("installer.msi")),
                        ("args", DocValue::List(vec![text("/quiet")])),
                    ]),
                )]),
            ]),
        ),
    ]);
    let raw = RecipeManifestRaw::from_value(&doc).unwrap();
    let manifest = raw.normalize().unwrap();
    assert_eq!(manifest.id, "setup-tools");
    assert_eq!(manifest.name, "Setup Tools");
    assert_eq!(manifest.description.as_deref(), Some("installs the usual tools"));
    assert_eq!(manifest.steps.len(), 6);
    assert!(
        matches!(&manifest.steps[0], RecipeStep::Run { path, args } if path == "setup.exe" && args.is_empty())
    );
    assert!(matches!(&manifest.steps[1], RecipeStep::WaitForExit));
    match &manifest.steps[2] {
        RecipeStep::Env { variables } => {
            assert_eq!(
                variables,
                &vec![("A".to_string(), "1".to_string()), ("B".to_string(), "2".to_string())]
            );
        },
        other => panic!("unexpected step {:?}", other),
    }
    assert!(
        matches!(&manifest.steps[3], RecipeStep::Copy { from, to } if from == "cfg.ini" && to == "drive_c/cfg.ini")
    );
    assert!(
        matches!(&manifest.steps[4], RecipeStep::WineCfg { version } if version.as_deref() == Some("7"))
    );
    assert!(
        matches!(&manifest.steps[5], RecipeStep::Run { path, args } if path == "installer.msi" && args == &vec!["/quiet".to_string()])
    );
}

#[test]
fn wait_for_exit_false_is_a_load_error() {
    let raw = RecipeStepRaw::Wait { wait_for_exit: false };
    let err = raw.normalize().unwrap_err();
    assert!(matches!(err, AlloyError::InvalidInput(_)));
}

#[test]
fn run_object_without_program_is_a_load_error() {
    let doc = mapping(vec![("run", mapping(vec![]))]);
    let raw = silicon_alloy::recipes::decode_step(&doc).unwrap();
    let err = raw.normalize().unwrap_err();
    assert!(matches!(err, AlloyError::InvalidInput(_)));
}

#[test]
fn unknown_step_shape_is_a_load_error() {
    let doc = mapping(vec![("frobnicate", text("x"))]);
    let err = silicon_alloy::recipes::decode_step(&doc).unwrap_err();
    assert!(matches!(err, AlloyError::InvalidInput(_)));
}

#[test]
fn run_object_accepts_command_or_file_keys() {
    let by_command = mapping(vec![("run", mapping(vec![("command", text("a.exe"))]))]);
    let raw = silicon_alloy::recipes::decode_step(&by_command).unwrap();
    let step = raw.normalize().unwrap();
    assert!(matches!(&step, RecipeStep::Run { path, .. } if path == "a.exe"));

    let by_file = mapping(vec![("run", mapping(vec![("file", text("b.exe"))]))]);
    let raw = silicon_alloy::recipes::decode_step(&by_file).unwrap();
    let step = raw.normalize().unwrap();
    assert!(matches!(&step, RecipeStep::Run { path, .. } if path == "b.exe"));
}

#[test]
fn manifest_requires_id_name_and_steps() {
    let missing_steps = mapping(vec![("id", text("x")), ("name", text("X"))]);
    assert!(RecipeManifestRaw::from_value(&missing_steps).is_err());
    let missing_name = mapping(vec![("id", text("x")), ("steps", DocValue::List(vec![]))]);
    assert!(RecipeManifestRaw::from_value(&missing_name).is_err());
}

fn plain_recipe(id: &str, name: &str) -> Recipe {
    Recipe {
        manifest: RecipeManifest {
            id: id.to_string(),
            name: name.to_string(),
            description: None,
            steps: vec![],
        },
        base_dir: "/recipes/demo".to_string(),
    }
}

#[test]
fn find_recipe_by_identifier() {
    let recipes = vec![plain_recipe("a", "Alpha"), plain_recipe("b", "Beta")];
    let found = find_recipe(recipes, "b").unwrap();
    assert_eq!(found.manifest.name, "Beta");
}

#[test]
fn find_recipe_missing_fails_not_found() {
    let recipes = vec![plain_recipe("a", "Alpha")];
    let err = find_recipe(recipes, "zzz").unwrap_err();
    assert!(matches!(err, AlloyError::NotFound(_)));
}

#[test]
fn resource_resolves_relative_under_resources() {
    let recipe = plain_recipe("a", "Alpha");
    assert_eq!(recipe.resource("patch.reg"), "/recipes/demo/resources/patch.reg");
    assert_eq!(recipe.resource("/abs/file"), "/abs/file");
}

#[test]
fn catalog_recipe_decodes_and_normalizes_bare_runs() {
    let doc = mapping(vec![
        ("id", text("demo")),
        ("name", text("Demo")),
        (
            "steps",
            DocValue::List(vec![
                mapping(vec![("run", text("one.exe"))]),
                mapping(vec![("note", text("hello"))]),
                mapping(vec![(
                    "run",
                    mapping(vec![
                        ("command", text("two.exe")),
                        ("args", DocValue::List(vec![text("-x")])),
                    ]),
                )]),
            ]),
        ),
    ]);
    let mut recipe = catalog::Recipe::from_value(&doc).unwrap();
    recipe.normalize_runs();
    assert_eq!(recipe.steps.len(), 3);
    assert!(
        matches!(&recipe.steps[0], catalog::RecipeStep::Run { run } if run.command == "one.exe" && run.args.is_empty())
    );
    assert!(matches!(&recipe.steps[1], catalog::RecipeStep::Note { note } if note == "hello"));
    assert!(
        matches!(&recipe.steps[2], catalog::RecipeStep::Run { run } if run.command == "two.exe" && run.args == vec!["-x".to_string()])
    );
}

#[test]
fn catalog_sorts_case_insensitively() {
    let a = catalog::Recipe {
        id: "1".to_string(),
        name: "apricot".to_string(),
        description: None,
        runtime: None,
        steps: vec![],
    };
    let b = catalog::Recipe {
        id: "2".to_string(),
        name: "Banana".to_string(),
        description: None,
        runtime: None,
        steps: vec![],
    };
    let sorted = catalog::sort_catalog(vec![b, a]);
    let names: Vec<&str> = sorted.iter().map(|r| r.name.as_str()).collect();
    assert_eq!(names, vec!["apricot", "Banana"]);
}

#[test]
fn catalog_manifest_path_uses_extension() {
    let cat = catalog::RecipeCatalog::with_root("/recipes");
    assert_eq!(cat.manifest_path("demo", "yml"), "/recipes/demo.yml");
    assert_eq!(cat.manifest_path("demo", "yaml"), "/recipes/demo.yaml");
}

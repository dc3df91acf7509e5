//! Runtime discovery, channel derivation and deterministic selection.

use silicon_alloy::runtime::{
    discover_runtimes, external_runtime_descriptor, parse_runtime_dir_name, RuntimeDescriptor,
    RuntimeDirEntry,
};
use silicon_alloy::service::{BottleCreateParams, DaemonService};
use silicon_alloy::store::BottleStore;

fn entry(name: &str, is_dir: bool, has_wine64: bool) -> RuntimeDirEntry {
    RuntimeDirEntry { name: name.to_string(), is_dir, has_wine64 }
}

#[test]
fn discover_x86_64_yields_rossetta() {
    let found = discover_runtimes("/rt", vec![entry("wine-x86_64-7.0", true, true)]);
    assert_eq!(found.len(), 1);
    assert_eq!(found[0].channel, "rossetta");
    assert_eq!(found[0].version, "7.0");
    assert_eq!(found[0].label, "wine x86_64 7.0");
    assert_eq!(found[0].wine64_path, "/rt/wine-x86_64-7.0/bin/wine64");
    assert!(found[0].notes.is_none());
}

#[test]
fn discover_arm64_yields_native_channel() {
    let found = discover_runtimes("/rt", vec![entry("wine-arm64-8.0", true, true)]);
    assert_eq!(found.len(), 1);
    assert_eq!(found[0].channel, "native-arm64");
    assert_eq!(found[0].version, "8.0");
}

#[test]
fn discover_unknown_arch_synthesizes_channel() {
    let found = discover_runtimes("/rt", vec![entry("wine-riscv-1.0", true, true)]);
    assert_eq!(found.len(), 1);
    assert_eq!(found[0].channel, "custom-riscv");
}

#[test]
fn discover_skips_missing_executable() {
    let found = discover_runtimes("/rt", vec![entry("wine-x86_64-7.0", true, false)]);
    assert!(found.is_empty());
}

#[test]
fn discover_skips_files_and_foreign_names() {
    let found = discover_runtimes(
        "/rt",
        vec![
            entry("wine-x86_64-7.0", false, true),
            entry("notes.txt", false, false),
            entry("wine-x86_64", true, true),
            entry("proton-x86_64-7.0", true, true),
        ],
    );
    assert!(found.is_empty());
}

#[test]
fn discover_keeps_dashes_in_version_and_sorts_by_label() {
    let found = discover_runtimes(
        "/rt",
        vec![
            entry("wine-x86_64-7.0-rc1", true, true),
            entry("wine-arm64-8.0", true, true),
        ],
    );
    assert_eq!(found.len(), 2);
    assert_eq!(found[0].label, "wine arm64 8.0");
    assert_eq!(found[1].label, "wine x86_64 7.0-rc1");
    assert_eq!(found[1].version, "7.0-rc1");
}

#[test]
fn parse_runtime_dir_name_requires_three_segments() {
    assert!(parse_runtime_dir_name("wine-x86_64").is_none());
    assert!(parse_runtime_dir_name("wine").is_none());
    let (arch, version) = parse_runtime_dir_name("wine-x86_64-9.1").unwrap();
    assert_eq!(arch, "x86_64");
    assert_eq!(version, "9.1");
}

#[test]
fn external_override_descriptor_shape() {
    let d = external_runtime_descriptor("/opt/wine64".to_string());
    assert_eq!(d.channel, "native-arm64");
    assert_eq!(d.label, "wine arm64 (external)");
    assert_eq!(d.version, "experimental");
    assert_eq!(d.wine64_path, "/opt/wine64");
    assert_eq!(d.notes.as_deref(), Some("provided via SILICON_ALLOY_ARM64_WINE64"));
}

fn descriptor(channel: &str, version: &str, path: &str) -> RuntimeDescriptor {
    RuntimeDescriptor {
        channel: channel.to_string(),
        label: format!("wine {channel} {version}"),
        version: version.to_string(),
        wine64_path: path.to_string(),
        notes: None,
    }
}

fn service_with(runtimes: Vec<RuntimeDescriptor>) -> DaemonService {
    DaemonService::new(
        BottleStore::with_root("/data/bottles".to_string()),
        "/data/runtime".to_string(),
        "/data/recipes".to_string(),
        runtimes,
    )
}

fn create_params(version: &str, channel: Option<&str>) -> BottleCreateParams {
    BottleCreateParams {
        name: "game".to_string(),
        wine_version: version.to_string(),
        wine_label: None,
        wine_path: None,
        channel: channel.map(|c| c.to_string()),
    }
}

#[test]
fn select_prefers_exact_channel_and_version() {
    let service = service_with(vec![
        descriptor("rossetta", "7.0", "/rt/a/bin/wine64"),
        descriptor("rossetta", "9.0", "/rt/b/bin/wine64"),
    ]);
    let rt = service.select_runtime(&create_params("9.0", Some("rossetta"))).unwrap();
    assert_eq!(rt.wine64_path, "/rt/b/bin/wine64");
    assert_eq!(rt.version, "9.0");
    assert_eq!(rt.channel.as_deref(), Some("rossetta"));
}

#[test]
fn select_falls_back_to_channel_match() {
    let service = service_with(vec![descriptor("rossetta", "7.0", "/rt/a/bin/wine64")]);
    let rt = service.select_runtime(&create_params("9.0", Some("rossetta"))).unwrap();
    assert_eq!(rt.wine64_path, "/rt/a/bin/wine64");
    assert_eq!(rt.version, "7.0");
}

#[test]
fn select_synthesizes_conventional_path_when_nothing_matches() {
    let service = service_with(vec![]);
    let rt = service.select_runtime(&create_params("9.0", None)).unwrap();
    assert_eq!(rt.wine64_path, "/data/runtime/wine-x86_64-9.0/bin/wine64");
    assert_eq!(rt.channel.as_deref(), Some("rossetta"));
    assert_eq!(rt.label, "wine 9.0");
}

#[test]
fn select_takes_explicit_path_outright() {
    let service = service_with(vec![descriptor("rossetta", "7.0", "/rt/a/bin/wine64")]);
    let mut params = create_params("5.5", None);
    params.wine_path = Some("/custom/wine64".to_string());
    let rt = service.select_runtime(&params).unwrap();
    assert_eq!(rt.wine64_path, "/custom/wine64");
    assert_eq!(rt.channel.as_deref(), Some("custom"));
    assert_eq!(rt.label, "custom wine 5.5");
}

#[test]
fn select_honours_label_override() {
    let service = service_with(vec![descriptor("rossetta", "7.0", "/rt/a/bin/wine64")]);
    let mut params = create_params("7.0", None);
    params.wine_label = Some("house build".to_string());
    let rt = service.select_runtime(&params).unwrap();
    assert_eq!(rt.label, "house build");
    assert_eq!(rt.wine64_path, "/rt/a/bin/wine64");
}

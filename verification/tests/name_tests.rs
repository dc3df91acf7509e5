//! Bottle-name sanitization and the shortcut text helpers.

use silicon_alloy::name::BottleName;
use silicon_alloy::service::{sanitize_name, shell_quote};

#[test]
fn bottle_name_sanitizes() {
    let name = "My Fancy App";
    let parsed = name.parse::<BottleName>().unwrap();
    assert_eq!(parsed.as_str(), "my-fancy-app");
}

#[test]
fn bottle_name_rejects_blank() {
    assert!("!!!".parse::<BottleName>().is_err());
}

#[test]
fn bottle_name_trims_dashes_and_underscores() {
    let parsed = "__Hello World--".parse::<BottleName>().unwrap();
    assert_eq!(parsed.as_str(), "hello-world");
}

#[test]
fn bottle_name_keeps_digits() {
    let parsed = "Game 2 HD".parse::<BottleName>().unwrap();
    assert_eq!(parsed.as_str(), "game-2-hd");
}

#[test]
fn bottle_name_drops_foreign_characters() {
    let parsed = "App (beta)!".parse::<BottleName>().unwrap();
    assert_eq!(parsed.as_str(), "app-beta");
}

#[test]
fn bottle_name_rejects_empty() {
    assert!("".parse::<BottleName>().is_err());
    assert!("   ".parse::<BottleName>().is_err());
    assert!("---".parse::<BottleName>().is_err());
}

#[test]
fn sanitize_name_replaces_punctuation() {
    assert_eq!(sanitize_name("My App!"), "My App_");
}

#[test]
fn sanitize_name_keeps_unicode_letters() {
    assert_eq!(sanitize_name("Café 7"), "Café 7");
}

#[test]
fn sanitize_name_falls_back_when_empty() {
    assert_eq!(sanitize_name(""), "Windows App");
    assert_eq!(sanitize_name("   "), "Windows App");
}

#[test]
fn sanitize_name_trims_spaces() {
    assert_eq!(sanitize_name("  Neat App  "), "Neat App");
}

#[test]
fn shell_quote_empty() {
    assert_eq!(shell_quote(""), "''");
}

#[test]
fn shell_quote_plain() {
    assert_eq!(shell_quote("abc def"), "'abc def'");
}

#[test]
fn shell_quote_escapes_single_quotes() {
    assert_eq!(shell_quote("a'b"), "'a'\"'\"'b'");
}

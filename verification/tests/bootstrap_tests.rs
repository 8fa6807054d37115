//! Tests of the environment validator and the loader gate.

use archiva_bootstrap::bootstrap::{
    bootstrap_after_load, config_path, eula_path, refusal_message, validate_environment,
    validation_plan, BootstrapOutcome,
};
use archiva_bootstrap::codec::config_document;
use archiva_bootstrap::config::default_config;
use archiva_bootstrap::eula::{eula_document, eula_text};
use archiva_bootstrap::parse_config;

#[test]
fn fresh_directory_generates_both_files() {
    let plan = validate_environment(false, false);
    let config_doc = plan.write_config.expect("a missing config file is generated");
    let eula_doc = plan.write_eula.expect("a missing license file is generated");
    assert_eq!(config_doc, config_document());
    assert!(eula_doc.ends_with(&eula_text()));
}

#[test]
fn fresh_directory_then_gate_refuses() {
    let plan = validate_environment(false, false);
    let config_doc = plan.write_config.expect("a missing config file is generated");
    let cfg = parse_config(&config_doc).expect("the generated document parses");
    assert_eq!(cfg, default_config());
    assert!(!cfg.eula_acceptance);
    let outcome = bootstrap_after_load(&cfg, false);
    match outcome {
        BootstrapOutcome::Refused { exit_code } => assert_eq!(exit_code, 1),
        BootstrapOutcome::Proceed { .. } => panic!("an unaccepted license must be refused"),
    }
}

#[test]
fn second_run_writes_nothing() {
    let plan = validate_environment(true, true);
    assert!(plan.write_config.is_none());
    assert!(plan.write_eula.is_none());
}

#[test]
fn only_missing_files_are_generated() {
    let plan = validate_environment(true, false);
    assert!(plan.write_config.is_none());
    assert!(plan.write_eula.is_some());
    let plan = validate_environment(false, true);
    assert!(plan.write_config.is_some());
    assert!(plan.write_eula.is_none());
}

#[test]
fn accepted_license_proceeds_to_storage() {
    let mut cfg = default_config();
    cfg.eula_acceptance = true;
    match bootstrap_after_load(&cfg, false) {
        BootstrapOutcome::Proceed { create_storage } => {
            assert_eq!(create_storage.as_deref(), Some("./storage"));
        },
        BootstrapOutcome::Refused { .. } => panic!("an accepted license must proceed"),
    }
}

#[test]
fn existing_storage_is_left_alone() {
    let mut cfg = default_config();
    cfg.eula_acceptance = true;
    match bootstrap_after_load(&cfg, true) {
        BootstrapOutcome::Proceed { create_storage } => assert!(create_storage.is_none()),
        BootstrapOutcome::Refused { .. } => panic!("an accepted license must proceed"),
    }
}

#[test]
fn nested_storage_path_is_passed_whole() {
    let mut cfg = default_config();
    cfg.eula_acceptance = true;
    cfg.storage.path = "./a/b/c".to_owned();
    match bootstrap_after_load(&cfg, false) {
        BootstrapOutcome::Proceed { create_storage } => {
            assert_eq!(create_storage.as_deref(), Some("./a/b/c"));
        },
        BootstrapOutcome::Refused { .. } => panic!("an accepted license must proceed"),
    }
}

#[test]
fn eula_document_layout_is_exact() {
    let ts = "01/01/2025 00:00:00";
    let doc = eula_document(ts);
    let expected = format!(
        "\n# =================================================\n\
         # Archiva End User License Agreement (EULA)\n\
         # Generated alongside config.yml @ {}\n\
         # =================================================\n{}",
        ts,
        eula_text()
    );
    assert_eq!(doc, expected);
}

#[test]
fn planned_documents_match_the_timestamp() {
    let plan = validation_plan(false, false, "02/03/2024 10:20:30");
    let eula_doc = plan.write_eula.expect("a missing license file is generated");
    assert_eq!(eula_doc, eula_document("02/03/2024 10:20:30"));
    assert!(eula_doc.contains("# Generated alongside config.yml @ 02/03/2024 10:20:30\n"));
}

#[test]
fn eula_text_keeps_its_exact_bytes() {
    let text = eula_text();
    assert!(text.starts_with("\nLicense & Terms of Use\n"));
    assert!(text.contains("under the Apache License, Version 2.0. \n"));
    assert!(text.ends_with("contact: griffindalby7@outlook.com\n"));
}

#[test]
fn fixed_paths_and_refusal_message() {
    assert_eq!(config_path(), "config.yml");
    assert_eq!(eula_path(), "eula.txt");
    assert_eq!(
        refusal_message(),
        "You must accept the Archiva EULA before running this program!"
    );
}

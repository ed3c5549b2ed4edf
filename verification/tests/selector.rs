use ethlift::errors::EthliftError;
use ethlift::remapping::convert_brownie_remappings_with_home;
use ethlift::selector::{
    detect_config_file_path, extract_brownie_config_remappings_yaml, uses_brownie_config,
};

#[test]
fn brownie_path_routes_to_legacy_convention() {
    assert!(uses_brownie_config("/work/brownie-config.yml"));
    assert!(uses_brownie_config("brownie-config.yaml"));
    assert!(uses_brownie_config("nested/dir/brownie-config.yml"));
}

#[test]
fn other_paths_route_to_native_convention() {
    assert!(!uses_brownie_config("/work/foundry.toml"));
    assert!(!uses_brownie_config("config.yml"));
    assert!(!uses_brownie_config(""));
    assert!(!uses_brownie_config("brownie"));
}

#[test]
fn detect_prefers_legacy_config_when_present() {
    assert_eq!(
        detect_config_file_path("/work", true),
        "/work/brownie-config.yml".to_string()
    );
}

#[test]
fn detect_defaults_to_native_config() {
    assert_eq!(
        detect_config_file_path("/work", false),
        "/work/foundry.toml".to_string()
    );
}

#[test]
fn extracts_remappings_from_legacy_config() {
    let text = "compiler:\n  solc:\n    remappings:\n      - \"@yearnvaults=yearn/yearn-vaults@0.4.3\"\n      - \"@openzeppelin=OpenZeppelin/openzeppelin-contracts@4.0.0\"\n";
    let res = extract_brownie_config_remappings_yaml(text).unwrap();
    assert_eq!(
        res,
        vec![
            "@yearnvaults=yearn/yearn-vaults@0.4.3".to_string(),
            "@openzeppelin=OpenZeppelin/openzeppelin-contracts@4.0.0".to_string(),
        ]
    );
}

#[test]
fn unreadable_document_is_rejected() {
    let res = extract_brownie_config_remappings_yaml(": not yaml: [unclosed");
    assert_eq!(res, Err(EthliftError::ConfigUnreadable));
}

#[test]
fn missing_remappings_key_is_rejected() {
    let text = "compiler:\n  solc:\n    version: 0.8.0\n";
    let res = extract_brownie_config_remappings_yaml(text);
    assert_eq!(res, Err(EthliftError::ConfigKeyMissing));
}

#[test]
fn missing_compiler_key_is_rejected() {
    let text = "dependencies:\n  - nothing\n";
    let res = extract_brownie_config_remappings_yaml(text);
    assert_eq!(res, Err(EthliftError::ConfigKeyMissing));
}

#[test]
fn non_sequence_remappings_key_is_rejected() {
    let text = "compiler:\n  solc:\n    remappings: just-a-string\n";
    let res = extract_brownie_config_remappings_yaml(text);
    assert_eq!(res, Err(EthliftError::ConfigKeyMissing));
}

#[test]
fn non_string_remapping_item_is_rejected() {
    let text = "compiler:\n  solc:\n    remappings:\n      - 42\n";
    let res = extract_brownie_config_remappings_yaml(text);
    assert_eq!(res, Err(EthliftError::ConfigKeyMissing));
}

#[test]
fn legacy_pipeline_yields_same_entries_as_direct_specs() {
    // Two config sources with identical logical remapping content: one read
    // from a legacy document, one given as the already-extracted strings.
    // Both must produce the same effective remapping entries.
    let text = "compiler:\n  solc:\n    remappings:\n      - \"@x=org/lib@1.0\"\n";
    let from_document = extract_brownie_config_remappings_yaml(text).unwrap();
    let direct = vec!["@x=org/lib@1.0".to_string()];
    assert_eq!(from_document, direct);
    let a = convert_brownie_remappings_with_home(&from_document, "/home/u").unwrap();
    let b = convert_brownie_remappings_with_home(&direct, "/home/u").unwrap();
    assert_eq!(a, b);
}

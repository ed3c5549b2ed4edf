use ethlift::errors::EthliftError;
use ethlift::remapping::{
    convert_brownie_remappings_with_home, convert_brownie_to_forge_remappings,
    parse_brownie_remapping, RemappingEntry,
};

#[test]
fn test_parse_brownie_remapping() {
    let res = parse_brownie_remapping("@yearnvaults=yearn/yearn-vaults@0.4.3");
    assert!(res.is_ok());
    let (import_name, lib_name, lib_path) = res.unwrap();
    assert_eq!(import_name, "@yearnvaults".to_string());
    assert_eq!(lib_name, "yearn-vaults".to_string());
    assert_eq!(lib_path, "yearn/yearn-vaults@0.4.3".to_string());
}

#[test]
fn parse_rejects_missing_equals() {
    let res = parse_brownie_remapping("@yearnvaults yearn/yearn-vaults@0.4.3");
    assert_eq!(res, Err(EthliftError::MalformedRemapping));
}

#[test]
fn parse_rejects_two_equals() {
    let res = parse_brownie_remapping("@a=b=yearn/yearn-vaults@0.4.3");
    assert_eq!(res, Err(EthliftError::MalformedRemapping));
}

#[test]
fn parse_rejects_missing_at() {
    let res = parse_brownie_remapping("@a=yearn/yearn-vaults");
    assert_eq!(res, Err(EthliftError::MalformedRemapping));
}

#[test]
fn parse_rejects_two_ats() {
    let res = parse_brownie_remapping("@a=yearn/yearn-vaults@0.4.3@extra");
    assert_eq!(res, Err(EthliftError::MalformedRemapping));
}

#[test]
fn parse_rejects_missing_slash() {
    let res = parse_brownie_remapping("@a=yearnvaults@0.4.3");
    assert_eq!(res, Err(EthliftError::MalformedRemapping));
}

#[test]
fn parse_rejects_two_slashes() {
    let res = parse_brownie_remapping("@a=yearn/extra/yearn-vaults@0.4.3");
    assert_eq!(res, Err(EthliftError::MalformedRemapping));
}

#[test]
fn parse_rejects_empty() {
    let res = parse_brownie_remapping("");
    assert_eq!(res, Err(EthliftError::MalformedRemapping));
}

#[test]
fn translate_builds_cache_path() {
    let specs = vec!["@x=org/lib@1.0".to_string()];
    let res = convert_brownie_remappings_with_home(&specs, "/home/u");
    let entries = res.unwrap();
    assert_eq!(entries.len(), 1);
    assert_eq!(entries[0].alias, "@x".to_string());
    assert_eq!(
        entries[0].target_path,
        "/home/u/.brownie/packages/org/lib@1.0".to_string()
    );
}

#[test]
fn translate_keeps_order_and_duplicates() {
    let specs = vec![
        "@b=o/b@2".to_string(),
        "@a=o/a@1".to_string(),
        "@a=o/a@1".to_string(),
    ];
    let entries = convert_brownie_remappings_with_home(&specs, "/home/u").unwrap();
    assert_eq!(entries.len(), 3);
    assert_eq!(entries[0].alias, "@b");
    assert_eq!(entries[0].target_path, "/home/u/.brownie/packages/o/b@2");
    assert_eq!(entries[1].alias, "@a");
    assert_eq!(entries[1].target_path, "/home/u/.brownie/packages/o/a@1");
    assert_eq!(entries[1], entries[2]);
}

#[test]
fn translate_fails_fast_on_one_malformed_entry() {
    let specs = vec![
        "@good=org/lib@1.0".to_string(),
        "broken".to_string(),
        "@also=org/other@2.0".to_string(),
    ];
    let res = convert_brownie_remappings_with_home(&specs, "/home/u");
    assert_eq!(res, Err(EthliftError::MalformedRemapping));
}

#[test]
fn translate_anchors_under_current_home() {
    let specs = vec!["@x=org/lib@1.0".to_string()];
    let res = convert_brownie_to_forge_remappings(&specs);
    match directories::UserDirs::new() {
        Some(dirs) => {
            let home = dirs.home_dir().to_str().unwrap().to_string();
            let entries = res.unwrap();
            assert_eq!(entries.len(), 1);
            assert_eq!(entries[0].alias, "@x");
            assert_eq!(
                entries[0].target_path,
                format!("{}/.brownie/packages/org/lib@1.0", home)
            );
        }
        None => assert_eq!(res, Err(EthliftError::HomeDirectoryNotFound)),
    }
}

#[test]
fn top_level_translate_fails_fast_before_home_lookup() {
    let specs = vec!["broken".to_string(), "@a=o/r@1".to_string()];
    let res = convert_brownie_to_forge_remappings(&specs);
    assert_eq!(res, Err(EthliftError::MalformedRemapping));
}

#[test]
fn remapping_entry_holds_alias_and_path() {
    let e = RemappingEntry {
        alias: "@x".to_string(),
        target_path: "/tmp/dep".to_string(),
    };
    assert_eq!(e.alias, "@x");
    assert_eq!(e.target_path, "/tmp/dep");
}

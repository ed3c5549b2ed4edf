//! The config source selector: deciding, from a config file path, which of
//! the two remapping conventions is in effect, and extracting the remapping
//! strings of the legacy convention from its structured config document.

use vstd::prelude::*;

use crate::errors::EthliftError;
use crate::strutil::{contains_seq, contains_substring};

verus! {

/// A config file path selects the legacy convention exactly when it holds
/// the legacy config filename fragment.
pub fn uses_brownie_config(config_file_path: &str) -> (r: bool)
    ensures
        r == contains_seq(config_file_path@, "brownie-config"@),
{
    contains_substring(config_file_path, "brownie-config")
}

/// The config file path to use when none is given explicitly: the legacy
/// config file of the working directory when one exists there, else the
/// native one, whether or not it exists.
pub fn detect_config_file_path(current_dir: &str, brownie_config_exists: bool) -> (r: String)
    ensures
        brownie_config_exists ==> r@ == current_dir@ + "/brownie-config.yml"@,
        !brownie_config_exists ==> r@ == current_dir@ + "/foundry.toml"@,
{
    let mut path = current_dir.to_owned();
    if brownie_config_exists {
        path.append("/brownie-config.yml");
    } else {
        path.append("/foundry.toml");
    }
    path
}

/// What reading a YAML document at a three-level mapping key path yields:
/// `None` when the text is not well-formed YAML; `Some(None)` when the key
/// path is absent or does not hold a sequence of strings; `Some(Some(xs))`
/// when it holds exactly the string sequence `xs`, in document order. YAML
/// reading is deterministic, so this is a function of the text and the keys
/// alone.
pub uninterp spec fn yaml_string_sequence_at(
    text: Seq<char>,
    key1: Seq<char>,
    key2: Seq<char>,
    key3: Seq<char>,
) -> Option<Option<Seq<Seq<char>>>>;

/// Relies on `serde_yaml::from_str`, `Value::get`, `Value::as_sequence` and
/// `Value::as_str`: parses the text and reads the sequence of strings under
/// the three nested mapping keys. All of serde_yaml's parsing and reading is
/// deterministic in its input, so the outcome depends on the text and the
/// keys alone.
#[verifier::external_body]
fn yaml_string_sequence(text: &str, key1: &str, key2: &str, key3: &str) -> (r: Option<
    Option<Vec<String>>,
>)
    ensures
        r.deep_view() == yaml_string_sequence_at(text@, key1@, key2@, key3@),
{
    let document: serde_yaml::Value = match serde_yaml::from_str(text) {
        Ok(d) => d,
        Err(_) => return None,
    };
    let items = document
        .get(key1)
        .and_then(|v| v.get(key2))
        .and_then(|v| v.get(key3))
        .and_then(serde_yaml::Value::as_sequence);
    match items {
        Some(xs) => Some(xs.iter().map(|v| v.as_str().map(str::to_owned)).collect()),
        None => Some(None),
    }
}

/// The remapping strings of a legacy config document: the outcome of reading
/// the sequence of strings under the key path `compiler.solc.remappings`.
pub open spec fn brownie_remappings_of(text: Seq<char>) -> Option<Option<Seq<Seq<char>>>> {
    yaml_string_sequence_at(text, "compiler"@, "solc"@, "remappings"@)
}

/// Extracts the legacy remapping strings from a legacy config document: the
/// strings under the key path `compiler.solc.remappings`, exactly and in
/// document order. A document that is not well-formed YAML is unreadable; a
/// readable one whose key path is absent, or does not hold a sequence of
/// strings, is missing the key. Nothing succeeds partially.
pub fn extract_brownie_config_remappings_yaml(config_text: &str) -> (r: Result<
    Vec<String>,
    EthliftError,
>)
    ensures
        match brownie_remappings_of(config_text@) {
            None => r == Err::<Vec<String>, EthliftError>(EthliftError::ConfigUnreadable),
            Some(None) => r == Err::<Vec<String>, EthliftError>(EthliftError::ConfigKeyMissing),
            Some(Some(xs)) => r matches Ok(v) && v.deep_view() == xs,
        },
{
    match yaml_string_sequence(config_text, "compiler", "solc", "remappings") {
        None => Err(EthliftError::ConfigUnreadable),
        Some(None) => Err(EthliftError::ConfigKeyMissing),
        Some(Some(v)) => Ok(v),
    }
}

} // verus!

use cli_api_caller::cli::{CliParams, Environment, DEFAULT_DELIMITER, DEFAULT_LIMIT};
use std::path::PathBuf;

fn params(delimiter: &str) -> CliParams {
    CliParams {
        environment: Environment::DEV,
        path: PathBuf::from("input.csv"),
        delimiter: delimiter.to_string(),
        limit: DEFAULT_LIMIT,
    }
}

#[test]
fn defaults_are_comma_and_300() {
    assert_eq!(DEFAULT_DELIMITER, ",");
    assert_eq!(DEFAULT_LIMIT, 300);
}

#[test]
fn delimiter_byte_of_the_default() {
    assert_eq!(params(DEFAULT_DELIMITER).delimiter_byte(), Some(b','));
}

#[test]
fn delimiter_byte_of_a_single_character() {
    assert_eq!(params(";").delimiter_byte(), Some(b';'));
    assert_eq!(params("\t").delimiter_byte(), Some(b'\t'));
    assert_eq!(params("|").delimiter_byte(), Some(b'|'));
}

#[test]
fn delimiter_byte_is_the_first_of_several() {
    assert_eq!(params(";,").delimiter_byte(), Some(b';'));
}

#[test]
fn delimiter_byte_of_nothing_is_none() {
    assert_eq!(params("").delimiter_byte(), None);
}

#[test]
fn delimiter_byte_of_a_wide_character_is_its_first_byte() {
    assert_eq!(params("é").delimiter_byte(), Some(0xC3));
}

#[test]
fn environments_differ() {
    assert_ne!(Environment::PROD, Environment::STAGE);
    assert_ne!(Environment::STAGE, Environment::SANDBOX);
    assert_ne!(Environment::SANDBOX, Environment::DEV);
    assert_eq!(Environment::DEV, Environment::DEV);
}

#[test]
fn params_keep_what_they_are_given() {
    let params = CliParams {
        environment: Environment::SANDBOX,
        path: PathBuf::from("/data/rows.csv"),
        delimiter: ";".to_string(),
        limit: 12,
    };
    assert_eq!(params.environment, Environment::SANDBOX);
    assert_eq!(params.path, PathBuf::from("/data/rows.csv"));
    assert_eq!(params.delimiter, ";");
    assert_eq!(params.limit, 12);
}

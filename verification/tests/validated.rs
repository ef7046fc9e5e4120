use faststats_rs::error::Error;
use faststats_rs::{Id, SdkInfo, Token};

#[test]
fn accepts_lowercase_letters() {
    assert!(Id::new("core_count").is_ok());
}

#[test]
fn accepts_single_letter() {
    assert!(Id::new("a").is_ok());
}

#[test]
fn rejects_empty() {
    assert!(Id::new("").is_err());
}

#[test]
fn accepts_digits() {
    assert!(Id::new("metric1").is_ok());
}

#[test]
fn id_rejects_uppercase() {
    assert!(Id::new("Metric").is_err());
}

#[test]
fn rejects_hyphen() {
    assert!(Id::new("core-count").is_err());
}

#[test]
fn display_shows_raw_value() {
    let id = Id::new("cpu_count").expect("valid id");
    assert_eq!(id.as_str(), "cpu_count");
}

#[test]
fn id_rejects_trailing_newline_and_other_scripts() {
    assert!(Id::new("abc\n").is_err());
    assert!(Id::new("caf\u{e9}").is_err());
    assert!(Id::new(" a").is_err());
}

#[test]
fn id_error_names_the_pattern() {
    match Id::new("A") {
        Err(e) => assert_eq!(e.message(), "invalid id: must match pattern [a-z0-9_]+"),
        Ok(_) => panic!("an id must not hold capital letters"),
    }
}

#[test]
fn id_converts_from_strings() {
    let from_str: Result<Id, Error> = Id::try_from("new_ui");
    let from_string: Result<Id, Error> = Id::try_from(String::from("new_ui"));
    assert!(from_str.expect("valid id") == from_string.expect("valid id"));
    assert!(Id::try_from("New UI").is_err());
    assert!(Id::try_from(String::from("New UI")).is_err());
}

#[test]
fn id_debug_form_names_the_type() {
    let id = Id::new("cpu_count").expect("valid id");
    assert_eq!(format!("{:?}", id), "Id(\"cpu_count\")");
    assert!(id.clone() == id);
}

#[test]
fn accepts_valid_token() {
    let value = "a".repeat(32);
    assert!(Token::new(&value).is_ok());
}

#[test]
fn accepts_mixed_alphanumeric_token() {
    let value = "abcd1234abcd1234abcd1234abcd1234";
    assert_eq!(value.len(), 32);
    assert!(Token::new(value).is_ok());
}

#[test]
fn rejects_too_short() {
    let value = "a".repeat(31);
    assert!(Token::new(&value).is_err());
}

#[test]
fn rejects_too_long() {
    let value = "a".repeat(33);
    assert!(Token::new(&value).is_err());
}

#[test]
fn token_rejects_uppercase() {
    let value = "A".repeat(32);
    assert!(Token::new(&value).is_err());
}

#[test]
fn rejects_symbols() {
    let mut value = "a".repeat(31);
    value.push('-');
    assert!(Token::new(&value).is_err());
}

#[test]
fn debug_and_display_never_leak_token_value() {
    let value = "b".repeat(32);
    let token = Token::new(&value).expect("valid token");
    assert_eq!(token.text(), "Token(***)");
    assert_eq!(token.as_str(), value);
}

#[test]
fn token_error_names_the_pattern() {
    match Token::new("short") {
        Err(e) => assert_eq!(e.message(), "invalid token: must match pattern [a-z0-9]{32}"),
        Ok(_) => panic!("a token has 32 characters"),
    }
}

#[test]
fn token_rejects_wide_characters() {
    let value = "\u{e9}".repeat(16);
    assert_eq!(value.len(), 32);
    assert!(Token::new(&value).is_err());
}

#[test]
fn token_converts_from_strings() {
    let value = "a".repeat(32);
    let from_str: Result<Token, Error> = Token::try_from(value.as_str());
    let from_string: Result<Token, Error> = Token::try_from(value.clone());
    assert!(from_str.is_ok());
    assert!(from_string.is_ok());
}

#[test]
fn stores_the_supplied_user_agent_verbatim() {
    let info = SdkInfo::new("faststats-rs", "0.1.0", "FastStats Rust SDK v0.1.0 (my-app:1.4.2)")
        .expect("valid sdk info");
    assert_eq!(info.user_agent(), "FastStats Rust SDK v0.1.0 (my-app:1.4.2)");
}

#[test]
fn rejects_blank_name() {
    assert!(SdkInfo::new("", "0.1.0", "ua").is_err());
    assert!(SdkInfo::new("   ", "0.1.0", "ua").is_err());
}

#[test]
fn rejects_blank_version() {
    assert!(SdkInfo::new("faststats-rs", "", "ua").is_err());
    assert!(SdkInfo::new("faststats-rs", "   ", "ua").is_err());
}

#[test]
fn rejects_blank_user_agent() {
    assert!(SdkInfo::new("faststats-rs", "0.1.0", "").is_err());
    assert!(SdkInfo::new("faststats-rs", "0.1.0", "   ").is_err());
}

#[test]
fn sdk_info_names_the_first_blank_text() {
    match SdkInfo::new("", "", "") {
        Err(e) => assert_eq!(e.message(), "invalid sdk_info.name: must not be blank"),
        Ok(_) => panic!("a blank name must be refused"),
    }
    match SdkInfo::new("n", "\u{3000}", "") {
        Err(e) => assert_eq!(e.message(), "invalid sdk_info.version: must not be blank"),
        Ok(_) => panic!("a blank version must be refused"),
    }
    match SdkInfo::new("n", "v", "\t\r\n") {
        Err(e) => assert_eq!(e.message(), "invalid sdk_info.user_agent: must not be blank"),
        Ok(_) => panic!("a blank user agent must be refused"),
    }
}

#[test]
fn sdk_info_keeps_its_texts() {
    let info = SdkInfo::new("name", "version", "agent").expect("valid sdk info");
    assert_eq!(info.name(), "name");
    assert_eq!(info.version(), "version");
    let copy = info.clone();
    assert!(copy == info);
}

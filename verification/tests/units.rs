use discord_wikipedia::article::truncate_display;
use discord_wikipedia::config::{get_config, Config, ConfigError, Environment};
use discord_wikipedia::envelope::{DecodeError, InteractionEnvelope, OptionValue};
use discord_wikipedia::headers::{XSignatureEd25519, XSignatureTimestamp};
use discord_wikipedia::hexfmt::decode_hex;
use discord_wikipedia::numfmt::{i64_to_dec, parse_u64_digits, u64_to_dec};
use discord_wikipedia::parse::decode;
use discord_wikipedia::sig::parse_public_key;

#[test]
fn long_display_name_truncates_to_97_plus_ellipsis() {
    let long: String = "a".repeat(130);
    let cut = truncate_display(long);
    assert_eq!(cut.chars().count(), 100);
    let expected = format!("{}...", "a".repeat(97));
    assert_eq!(cut, expected);
}

#[test]
fn exact_100_display_name_is_untouched() {
    let name: String = "b".repeat(100);
    let cut = truncate_display(name.clone());
    assert_eq!(cut, name);
}

#[test]
fn hex_decoding() {
    assert_eq!(decode_hex("00ff10").unwrap(), vec![0u8, 255, 16]);
    assert_eq!(decode_hex("ABcd").unwrap(), vec![0xabu8, 0xcd]);
    assert!(decode_hex("0").is_none());
    assert!(decode_hex("0g").is_none());
    assert_eq!(decode_hex("").unwrap(), Vec::<u8>::new());
}

#[test]
fn public_key_must_be_32_bytes_of_hex() {
    let key_hex: String = "ab".repeat(32);
    assert_eq!(parse_public_key(&key_hex).unwrap().len(), 32);
    assert!(parse_public_key("abcd").is_none());
    assert!(parse_public_key("xyz").is_none());
}

#[test]
fn decimal_formatting_and_parsing() {
    assert_eq!(u64_to_dec(0), "0");
    assert_eq!(u64_to_dec(1672531200), "1672531200");
    assert_eq!(u64_to_dec(u64::MAX), "18446744073709551615");
    assert_eq!(i64_to_dec(-42), "-42");
    assert_eq!(i64_to_dec(i64::MIN), "-9223372036854775808");
    let digits: Vec<char> = "18446744073709551615".chars().collect();
    assert_eq!(parse_u64_digits(&digits), Some(u64::MAX));
    let over: Vec<char> = "18446744073709551616".chars().collect();
    assert_eq!(parse_u64_digits(&over), None);
    let empty: Vec<char> = Vec::new();
    assert_eq!(parse_u64_digits(&empty), None);
}

#[test]
fn config_from_environment_variable() {
    let dev = get_config(Some("development")).unwrap();
    assert_eq!(dev.environment, Environment::Development);
    assert_eq!(dev.environment.to_string(), "development");
    let prod = Config::new(Environment::Production);
    assert_eq!(prod.environment.to_string(), "production");
    assert_eq!(get_config(None), Err(ConfigError::MissingEnvironment));
    assert_eq!(get_config(Some("staging")), Err(ConfigError::UnknownEnvironment));
}

#[test]
fn header_names() {
    assert_eq!(XSignatureTimestamp::name(), "x-signature-timestamp");
    assert_eq!(XSignatureEd25519::name(), "x-signature-ed25519");
    let ts = XSignatureTimestamp("1700000000".to_string());
    assert_eq!(ts.0, "1700000000");
    let sig = XSignatureEd25519("ab".to_string());
    assert_eq!(sig.0, "ab");
}

#[test]
fn empty_command_name_is_malformed() {
    assert!(matches!(
        decode(br#"{"type":2,"data":{"name":"","options":[]}}"#),
        Err(DecodeError::Malformed)
    ));
}

#[test]
fn missing_data_for_command_kind_is_malformed() {
    assert!(matches!(decode(br#"{"type":2}"#), Err(DecodeError::Malformed)));
}

#[test]
fn duplicate_option_names_are_malformed() {
    let body = br#"{"type":2,"data":{"name":"article","options":[{"name":"a","type":3,"value":"x"},{"name":"a","type":3,"value":"y"}]}}"#;
    assert!(matches!(decode(body), Err(DecodeError::Malformed)));
}

#[test]
fn repeated_type_field_is_malformed() {
    assert!(matches!(decode(br#"{"type":1,"type":1}"#), Err(DecodeError::Malformed)));
}

#[test]
fn unknown_fields_are_skipped() {
    let body = br#"{"app_permissions":"123","nested":{"a":[1,2,{"b":"}"}]},"type":1,"version":1.5}"#;
    assert!(matches!(decode(body), Ok(InteractionEnvelope::Ping)));
}

#[test]
fn focused_option_decodes_to_focused_value() {
    let body = br#"{"type":4,"data":{"name":"article","options":[{"name":"title","type":3,"value":"Ru","focused":true}]}}"#;
    match decode(body).unwrap() {
        InteractionEnvelope::Autocomplete(inv) => {
            assert_eq!(inv.options.len(), 1);
            match &inv.options[0].value {
                OptionValue::Focused(s) => assert_eq!(s, "Ru"),
                _ => panic!("expected focused value"),
            }
        }
        _ => panic!("expected autocomplete envelope"),
    }
}

#[test]
fn string_escapes_decode() {
    let body = br#"{"type":2,"data":{"name":"article","options":[{"name":"title","type":3,"value":"a\"b\\c\ndA"}]}}"#;
    match decode(body).unwrap() {
        InteractionEnvelope::Command(inv) => match &inv.options[0].value {
            OptionValue::Text(s) => assert_eq!(s, "a\"b\\c\ndA"),
            _ => panic!("expected text value"),
        },
        _ => panic!("expected command envelope"),
    }
}

#[test]
fn trailing_content_is_malformed() {
    assert!(matches!(decode(br#"{"type":1} x"#), Err(DecodeError::Malformed)));
    assert!(matches!(decode(br#"[1]"#), Err(DecodeError::Malformed)));
    assert!(matches!(decode(b""), Err(DecodeError::Malformed)));
}

use ycard::{parse, parse_strict, Formatter, PhonesStyle};
use ycard::schema::{Address, AddressComponents, Email, Metadata, Name, Phone, YCard};
use ycard::types::{AddressType as SchemaAddressType, EmailType, PhoneType};
use ycard::types::ValidationMode as ModeToken;
use ycard::types::{AddressType, DiagnosticCode, DiagnosticLevel, PhonesStyle as StyleToken};

fn sample_card() -> YCard {
    YCard {
        version: 1,
        uid: Some("u-77".to_string()),
        name: Some(Name {
            given_name: Some(vec!["Jane".to_string()]),
            middle_name: None,
            family_name: Some(vec!["Doe".to_string()]),
            honorific_prefix: None,
            honorific_suffix: None,
            display_name: Some("Jane Doe".to_string()),
            script: None,
        }),
        phones: Some(vec![Phone {
            number: "+15551234567".to_string(),
            types: vec![PhoneType::Mobile, PhoneType::Work],
            ext: Some("12".to_string()),
            preferred: Some(true),
            label: None,
        }]),
        emails: Some(vec![Email {
            address: "jane@example.com".to_string(),
            types: vec![EmailType::Home],
            preferred: None,
        }]),
        addresses: None,
        metadata: Some(Metadata { locale: Some("en".to_string()), source: None }),
    }
}

#[test]
fn test_format_reparse_is_identity() {
    // Formatting and strict re-parsing yields the same document, for a
    // document with no custom kind tags.
    let card = sample_card();
    let text = ycard::format(&card).unwrap();
    let back = parse_strict(&text).unwrap();
    assert_eq!(back, card);
}

#[test]
fn test_basic_formatting() {
    let formatter = Formatter::new();
    let ycard = YCard::default();

    let result = formatter.format(&ycard);
    assert!(result.is_ok());
}

#[test]
fn test_format_reparse_default_document() {
    let card = YCard::default();
    let text = ycard::format(&card).unwrap();
    let back = parse_strict(&text).unwrap();
    assert_eq!(back, card);
}

#[test]
fn test_format_reparse_after_lenient_parse() {
    let input = "version: 1\nname: \"Jane Doe\"\nmobile: \"+1 555 123 4567\"\nemail: \"jane@example.com\"\n";
    let card = parse(input, Some("en")).unwrap();
    let text = ycard::format(&card).unwrap();
    let back = parse_strict(&text).unwrap();
    assert_eq!(back, card);
}

#[test]
fn test_format_escapes_quotes() {
    let card = YCard {
        uid: Some("say \"hi\"\\now".to_string()),
        ..YCard::default()
    };
    let text = ycard::format(&card).unwrap();
    let back = parse_strict(&text).unwrap();
    assert_eq!(back.uid, card.uid);
}

#[test]
fn test_formatter_styles_render_canonical_text() {
    let card = sample_card();
    let canonical = Formatter::new().format(&card).unwrap();
    let shorthand = Formatter::new()
        .with_phones_style(PhonesStyle::Shorthand)
        .format(&card)
        .unwrap();
    let relocalized = Formatter::new()
        .with_relocalize_keys(Some("fr".to_string()))
        .format(&card)
        .unwrap();
    assert_eq!(canonical, shorthand);
    assert_eq!(canonical, relocalized);
}

#[test]
fn test_format_layout() {
    let text = ycard::format(&YCard::default()).unwrap();
    assert_eq!(
        text,
        "version: 1\nuid: null\nname: null\nphones: null\nemails: null\naddresses: null\nmetadata: null\n"
    );
}

#[test]
fn test_token_matching_is_case_and_accent_insensitive() {
    assert_eq!(PhoneType::from_str_with_locale("M\u{d3}VIL", "es"), PhoneType::Mobile);
    assert_eq!(PhoneType::from_str_with_locale("Bureau", "fr"), PhoneType::Work);
    assert_eq!(
        PhoneType::from_str_with_locale("videophone", "en"),
        PhoneType::Custom("videophone".to_string())
    );
    assert_eq!(EmailType::from_str_with_locale("CASA", "es"), EmailType::Home);
}

#[test]
fn test_mode_tokens() {
    assert_eq!(ModeToken::from_str_with_locale("RELAXED", "en"), ModeToken::Lenient);
    assert_eq!(ModeToken::from_str_with_locale("exact", "en"), ModeToken::Strict);
    assert_eq!(
        ModeToken::from_str_with_locale("odd", "en"),
        ModeToken::Custom("odd".to_string())
    );
}

#[test]
fn test_other_token_kinds() {
    assert_eq!(AddressType::from_str_with_locale("Travail", "fr"), AddressType::Work);
    assert_eq!(DiagnosticLevel::from_str_with_locale("WARN", "en"), DiagnosticLevel::Warning);
    assert_eq!(DiagnosticLevel::from_str_with_locale("suggestion", "en"), DiagnosticLevel::Hint);
    assert_eq!(StyleToken::from_str_with_locale("compact", "en"), StyleToken::Shorthand);
    let code = DiagnosticCode {
        code: "phone-format".to_string(),
        level: DiagnosticLevel::Warning,
        message: "Phone number should be in E.164 format".to_string(),
    };
    assert_eq!(code.level, DiagnosticLevel::Warning);
    assert_eq!(code.code, "phone-format");
}

#[test]
fn test_format_reparse_full_name_and_empty_lists() {
    let card = YCard {
        version: 1,
        uid: None,
        name: Some(Name {
            given_name: Some(vec![]),
            middle_name: Some(vec!["Q.".to_string()]),
            family_name: None,
            honorific_prefix: Some(vec!["Dr.".to_string()]),
            honorific_suffix: Some(vec!["PhD".to_string()]),
            display_name: None,
            script: Some("Latn".to_string()),
        }),
        phones: Some(vec![]),
        emails: Some(vec![Email {
            address: "q@example.com".to_string(),
            types: vec![],
            preferred: Some(false),
        }]),
        addresses: Some(vec![]),
        metadata: None,
    };
    let text = ycard::format(&card).unwrap();
    let back = parse_strict(&text).unwrap();
    assert_eq!(back, card);
}

#[test]
fn test_format_reparse_with_addresses() {
    let card = YCard {
        version: 1,
        uid: None,
        name: None,
        phones: None,
        emails: None,
        addresses: Some(vec![
            Address {
                types: vec![SchemaAddressType::Home, SchemaAddressType::Work],
                formatted: Some("1 Main St, Springfield".to_string()),
                components: Some(AddressComponents {
                    street: Some("1 Main St".to_string()),
                    locality: Some("Springfield".to_string()),
                    region: None,
                    postal_code: Some("12345".to_string()),
                    country: Some("US".to_string()),
                }),
            },
            Address { types: vec![], formatted: None, components: None },
        ]),
        metadata: None,
    };
    let text = ycard::format(&card).unwrap();
    let back = parse_strict(&text).unwrap();
    assert_eq!(back, card);
}

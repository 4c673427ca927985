use ycard::{parse, parse_strict, validate};
use ycard::{AliasManager, ParseError, Parser, PhoneType, ValidationMode, YCard};

#[test]
fn test_end_to_end() {
    let input = "\nversion: 1\nname: \"Jane Doe\"\nmobile: \"+1 555 123 4567\"\nemail: \"jane@example.com\"\n";

    // Parse
    let ycard = parse(input, Some("en")).unwrap();
    assert_eq!(ycard.version, 1);
    assert!(ycard.name.is_some());
    assert!(ycard.phones.is_some());
    assert!(ycard.emails.is_some());

    // Format
    let formatted = ycard::format(&ycard).unwrap();
    assert!(formatted.contains("version: 1"));

    // Validate
    let diagnostics = validate(&ycard, ValidationMode::Lenient).unwrap();
    assert!(diagnostics.is_empty());
}

#[test]
fn test_end_to_end_values() {
    let input = "\nversion: 1\nname: \"Jane Doe\"\nmobile: \"+1 555 123 4567\"\nemail: \"jane@example.com\"\n";

    let ycard = parse(input, Some("en")).unwrap();
    let name = ycard.name.unwrap();
    assert_eq!(name.display_name, Some("Jane Doe".to_string()));
    assert_eq!(name.given_name, None);
    let phones = ycard.phones.unwrap();
    assert_eq!(phones.len(), 1);
    assert_eq!(phones[0].number, "+15551234567");
    assert_eq!(phones[0].types, vec![PhoneType::Mobile]);
    let emails = ycard.emails.unwrap();
    assert_eq!(emails.len(), 1);
    assert_eq!(emails[0].address, "jane@example.com");
}

#[test]
fn test_localized_input() {
    let input = "\nphone: \"06 12 34 56 78\"\nemail: \"test@example.com\"\n";

    let ycard = parse(input, Some("fr")).unwrap();
    assert!(ycard.phones.is_some());
    assert!(ycard.emails.is_some());
}

#[test]
fn test_basic_parsing() {
    let parser = Parser::new();
    let input = "\nversion: 1\nname: \"John Doe\"\nmobile: \"+1 555 123 4567\"\n";

    let result = parser.parse_lenient(input, Some("en")).unwrap();
    assert_eq!(result.version, 1);
    assert!(result.name.is_some());
    assert!(result.phones.is_some());
}

#[test]
fn test_localized_keys() {
    let parser = Parser::new();
    let input = "\nphone: \"06 12 34 56 78\"\nemail: \"test@example.com\"\n";

    let result = parser.parse_lenient(input, Some("fr")).unwrap();
    assert!(result.phones.is_some());
    assert!(result.emails.is_some());
}

#[test]
fn test_locale_chain() {
    let manager = AliasManager::new();
    let chain = manager.build_locale_chain("fr-CA");
    assert_eq!(chain, vec!["fr-CA", "fr", "root"]);
}

#[test]
fn test_key_normalization() {
    let manager = AliasManager::new();
    assert_eq!(manager.normalize_key("T\u{e9}l\u{e9}phone"), "telephone");
    assert_eq!(manager.normalize_key("M\u{d3}VIL"), "movil");
}

#[test]
fn test_key_normalization_beyond_latin() {
    // Unicode lowercasing covers scripts beyond Latin-1; accents decompose
    // and their marks are stripped.
    let manager = AliasManager::new();
    assert_eq!(
        manager.normalize_key("\u{3a6}\u{3a9}\u{39d}\u{389}"),
        "\u{3c6}\u{3c9}\u{3bd}\u{3b7}"
    );
}

#[test]
fn test_diacritic_insensitive_resolution() {
    let manager = AliasManager::new();
    let a = manager.resolve_key_alias("T\u{e9}l\u{e9}phone", Some("fr"));
    let b = manager.resolve_key_alias("telephone", Some("fr"));
    assert_eq!(a, b);
    assert_eq!(a, Some("phones".to_string()));
}

#[test]
fn test_unaliased_key_resolves_to_none() {
    let manager = AliasManager::new();
    assert_eq!(manager.resolve_key_alias("favourite-colour", Some("en")), None);
    assert_eq!(manager.resolve_type_alias("holophone", Some("en")), None);
}

#[test]
fn test_type_alias_resolution() {
    let manager = AliasManager::new();
    assert_eq!(manager.resolve_type_alias("m\u{f3}vil", Some("es")), Some("mobile".to_string()));
    assert_eq!(manager.resolve_type_alias("travail", Some("fr")), Some("work".to_string()));
}

#[test]
fn test_load_pack_overrides_fallback() {
    let mut manager = AliasManager::new();
    let pack = "{\"version\":\"2\",\"locales\":{\"fr\":{\"keyAliases\":{\"portable\":\"phones\"},\"typeAliases\":{}}}}";
    manager.load_pack(pack).unwrap();
    // The newer pack's "fr" entry wins over the fallback shorthand alias.
    assert_eq!(manager.resolve_key_alias("portable", Some("fr")), Some("phones".to_string()));
    // Other locales still fall back to the baked-in table.
    assert_eq!(
        manager.resolve_key_alias("portable", Some("en")),
        Some("phones.type:mobile".to_string())
    );
}

#[test]
fn test_load_pack_rejects_malformed_input() {
    let mut manager = AliasManager::new();
    assert!(manager.load_pack("{not json").is_err());
    assert!(manager.load_pack("{\"version\":\"2\"}").is_err());
    // A failed load leaves the store unchanged.
    assert_eq!(
        manager.resolve_key_alias("mobile", Some("en")),
        Some("phones.type:mobile".to_string())
    );
}

#[test]
fn test_load_pack_bytes() {
    let mut manager = AliasManager::new();
    let pack = "{\"version\":\"2\",\"locales\":{\"de\":{\"keyAliases\":{\"telefonnummer\":\"phones\"},\"typeAliases\":{}}}}";
    manager.load_pack_bytes(pack.as_bytes()).unwrap();
    assert_eq!(
        manager.resolve_key_alias("Telefonnummer", Some("de-AT")),
        Some("phones".to_string())
    );
}

#[test]
fn test_clear_packs_restores_fallback_only() {
    let mut manager = AliasManager::new();
    let pack = "{\"version\":\"2\",\"locales\":{\"fr\":{\"keyAliases\":{\"bidule\":\"uid\"},\"typeAliases\":{}}}}";
    manager.load_pack(pack).unwrap();
    assert_eq!(manager.resolve_key_alias("bidule", Some("fr")), Some("uid".to_string()));
    manager.clear_packs();
    assert_eq!(manager.resolve_key_alias("bidule", Some("fr")), None);
    assert_eq!(
        manager.resolve_key_alias("mobile", Some("en")),
        Some("phones.type:mobile".to_string())
    );
}

#[test]
fn test_phone_normalization_heuristic() {
    // No leading plus and at least ten digits: the North-American +1 prefix.
    let ycard = parse("mobile: \"06 12 34 56 78\"\n", Some("fr")).unwrap();
    assert_eq!(ycard.phones.unwrap()[0].number, "+10612345678");

    // A leading plus is kept as-is, with separators stripped.
    let ycard = parse("mobile: \"+49 30 12345678\"\n", Some("de")).unwrap();
    assert_eq!(ycard.phones.unwrap()[0].number, "+493012345678");
}

#[test]
fn test_plus_kept_only_as_prefix() {
    // A plus that does not lead the digits is stripped like any separator.
    let ycard = parse("phones: \"123+4567890\"\n", Some("en")).unwrap();
    assert_eq!(ycard.phones.unwrap()[0].number, "+11234567890");
    // A plus before the digits survives, wherever the blanks sit.
    let ycard = parse("phones: \" +49 30 12345678\"\n", Some("en")).unwrap();
    assert_eq!(ycard.phones.unwrap()[0].number, "+493012345678");
}

#[test]
fn test_single_email_object() {
    // A single mapping under emails decodes as one email object, mirroring
    // the phone coercion.
    let input = "emails:\n  address: \"solo@example.com\"\n  type: work\n  preferred: true\n";
    let ycard = parse(input, Some("en")).unwrap();
    let emails = ycard.emails.unwrap();
    assert_eq!(emails.len(), 1);
    assert_eq!(emails[0].address, "solo@example.com");
    assert_eq!(emails[0].preferred, Some(true));
}

#[test]
fn test_phone_too_short_is_an_error() {
    let err = parse("mobile: \"123\"\n", Some("en")).unwrap_err();
    match err {
        ParseError::Phone(m) => assert!(m.contains("123")),
        other => panic!("expected a phone error, got {:?}", other),
    }
}

#[test]
fn test_phone_extension_split() {
    let ycard = parse("phones: \"+1 555 123 4567 ext. 89\"\n", Some("en")).unwrap();
    let phones = ycard.phones.unwrap();
    assert_eq!(phones[0].number, "+15551234567");
    assert_eq!(phones[0].ext, Some("89".to_string()));
}

#[test]
fn test_phone_object_fields() {
    let input = "phones:\n- number: \"+1 555 000 1111\"\n  type:\n  - home\n  - work\n  preferred: true\n  label: \"desk\"\n";
    let ycard = parse(input, Some("en")).unwrap();
    let phones = ycard.phones.unwrap();
    assert_eq!(phones.len(), 1);
    assert_eq!(phones[0].number, "+15550001111");
    assert_eq!(phones[0].types, vec![PhoneType::Home, PhoneType::Work]);
    assert_eq!(phones[0].preferred, Some(true));
    assert_eq!(phones[0].label, Some("desk".to_string()));
}

#[test]
fn test_explicit_phones_overwrite_shorthand() {
    let input = "mobile: \"+1 555 111 2222\"\nphones: \"+1 555 333 4444\"\n";
    let ycard = parse(input, Some("en")).unwrap();
    let phones = ycard.phones.unwrap();
    assert_eq!(phones.len(), 1);
    assert_eq!(phones[0].number, "+15553334444");
}

#[test]
fn test_non_mapping_input_is_schema_error() {
    let err = parse("- just\n- a\n- list\n", Some("en")).unwrap_err();
    assert!(matches!(err, ParseError::Schema(_)));
}

#[test]
fn test_malformed_yaml_is_yaml_error() {
    let err = parse("key: [unclosed\n", Some("en")).unwrap_err();
    assert!(matches!(err, ParseError::Yaml(_)));
}

#[test]
fn test_invalid_name_shape_is_schema_error() {
    let err = parse("name:\n- one\n- two\n", Some("en")).unwrap_err();
    match err {
        ParseError::Schema(m) => assert!(m.contains("name")),
        other => panic!("expected a schema error, got {:?}", other),
    }
}

#[test]
fn test_name_mapping_subkeys() {
    let input = "name:\n  givenName: \"Anne\"\n  familyName:\n  - \"Smith\"\n  - \"Jones\"\n";
    let ycard = parse(input, Some("en")).unwrap();
    let name = ycard.name.unwrap();
    assert_eq!(name.given_name, Some(vec!["Anne".to_string()]));
    assert_eq!(
        name.family_name,
        Some(vec!["Smith".to_string(), "Jones".to_string()])
    );
    assert_eq!(name.display_name, None);
}

#[test]
fn test_metadata_and_uid() {
    let input = "uid: \"abc-1\"\nname: \"A\"\nmetadata:\n  locale: \"fr\"\n  source: \"import\"\n";
    let ycard = parse(input, Some("en")).unwrap();
    assert_eq!(ycard.uid, Some("abc-1".to_string()));
    let md = ycard.metadata.unwrap();
    assert_eq!(md.locale, Some("fr".to_string()));
    assert_eq!(md.source, Some("import".to_string()));
}

#[test]
fn test_version_out_of_range_is_ignored() {
    let ycard = parse("version: 300\nname: \"A\"\n", Some("en")).unwrap();
    assert_eq!(ycard.version, 1);
}

#[test]
fn test_parse_strict_accepts_canonical_shape() {
    let input = "version: 1\nuid: \"u1\"\nphones:\n- number: \"+15550001111\"\n  type:\n  - mobile\n";
    let ycard = parse_strict(input).unwrap();
    assert_eq!(ycard.version, 1);
    assert_eq!(ycard.uid, Some("u1".to_string()));
    assert_eq!(ycard.phones.unwrap()[0].types, vec![PhoneType::Mobile]);
}

#[test]
fn test_parse_strict_rejects_shorthand() {
    // Strict mode performs no alias resolution and requires version.
    assert!(parse_strict("mobile: \"+1 555 123 4567\"\n").is_err());
    // And no phone normalization-friendly shapes: a bare string is refused.
    assert!(parse_strict("version: 1\nphones: \"+15551234567\"\n").is_err());
}

#[test]
fn test_default_document() {
    let d = YCard::default();
    assert_eq!(d.version, 1);
    assert!(d.uid.is_none());
    assert!(d.name.is_none());
    assert!(d.phones.is_none());
    assert!(d.emails.is_none());
    assert!(d.addresses.is_none());
    assert!(d.metadata.is_none());
}

use ycard::{parse, validate, DiagnosticLevel, PhoneType, ValidationMode, Validator, YCard};
use ycard::schema::Phone;

#[test]
fn test_lenient_validation() {
    let validator = Validator::new(ValidationMode::Lenient);
    // A yCard with a bad phone format triggers a lenient warning.
    let ycard = YCard {
        version: 1,
        uid: None,
        name: None,
        phones: Some(vec![Phone {
            number: "123-456-7890".to_string(),
            types: vec![PhoneType::Other],
            ext: None,
            preferred: None,
            label: None,
        }]),
        emails: None,
        addresses: None,
        metadata: None,
    };

    let diagnostics = validator.validate(&ycard).unwrap();
    assert!(!diagnostics.is_empty());
    assert!(matches!(diagnostics[0].level, DiagnosticLevel::Warning));
}

#[test]
fn test_strict_validation() {
    let validator = Validator::new(ValidationMode::Strict);
    let ycard = YCard::default();

    let diagnostics = validator.validate(&ycard).unwrap();
    assert!(!diagnostics.is_empty());
    assert!(diagnostics.iter().any(|d| matches!(d.level, DiagnosticLevel::Error)));
}

#[test]
fn test_empty_contact_code() {
    // The default document in strict mode carries the empty-contact error.
    let diagnostics = validate(&YCard::default(), ValidationMode::Strict).unwrap();
    assert!(diagnostics
        .iter()
        .any(|d| d.code.as_deref() == Some("empty-contact")
            && matches!(d.level, DiagnosticLevel::Error)));
}

#[test]
fn test_strict_has_no_warnings() {
    // Every lenient warning is promoted to an error in strict mode.
    let ycard = YCard {
        version: 0,
        uid: None,
        name: None,
        phones: Some(vec![Phone {
            number: "123-456-7890".to_string(),
            types: vec![PhoneType::Other],
            ext: None,
            preferred: None,
            label: None,
        }]),
        emails: None,
        addresses: None,
        metadata: None,
    };
    let lenient = validate(&ycard, ValidationMode::Lenient).unwrap();
    assert!(lenient.iter().any(|d| matches!(d.level, DiagnosticLevel::Warning)));
    let strict = validate(&ycard, ValidationMode::Strict).unwrap();
    assert!(!strict.is_empty());
    assert!(strict.iter().all(|d| !matches!(d.level, DiagnosticLevel::Warning)));
}

#[test]
fn test_version_missing_warning_and_fix() {
    let ycard = YCard { version: 0, ..YCard::default() };
    let diagnostics = validate(&ycard, ValidationMode::Lenient).unwrap();
    let d = diagnostics
        .iter()
        .find(|d| d.code.as_deref() == Some("version-missing"))
        .unwrap();
    assert!(matches!(d.level, DiagnosticLevel::Warning));
    assert_eq!(d.fixes.len(), 1);
    assert_eq!(d.fixes[0].edit.new_text, "version: 1\n");
}

#[test]
fn test_email_invalid_diagnostic() {
    let ycard = parse("email: \"not-an-address\"\n", Some("en")).unwrap();
    let diagnostics = validate(&ycard, ValidationMode::Lenient).unwrap();
    let d = diagnostics
        .iter()
        .find(|d| d.code.as_deref() == Some("email-invalid"))
        .unwrap();
    assert!(matches!(d.level, DiagnosticLevel::Error));
    assert!(d.message.contains("not-an-address"));
}

#[test]
fn test_phone_format_diagnostic() {
    let ycard = parse("phones:\n- number: \"+1 555\"\n  type:\n  - home\n", Some("en")).unwrap();
    // "+1 555" normalizes to "+1555": fine. Build an unnormalized one by hand.
    let mut ycard = ycard;
    if let Some(ps) = ycard.phones.as_mut() {
        ps[0].number = "555-0000".to_string();
    }
    let diagnostics = validate(&ycard, ValidationMode::Lenient).unwrap();
    assert!(diagnostics
        .iter()
        .any(|d| d.code.as_deref() == Some("phone-format")
            && matches!(d.level, DiagnosticLevel::Warning)));
}

#[test]
fn test_schema_only_version_check() {
    let ok = validate(&YCard::default(), ValidationMode::SchemaOnly).unwrap();
    assert!(ok.is_empty());

    let ycard = YCard { version: 2, ..YCard::default() };
    let diagnostics = validate(&ycard, ValidationMode::SchemaOnly).unwrap();
    assert_eq!(diagnostics.len(), 1);
    assert_eq!(diagnostics[0].code.as_deref(), Some("version-unsupported"));
    assert!(diagnostics[0].message.contains('2'));
    assert!(matches!(diagnostics[0].level, DiagnosticLevel::Error));
}

#[test]
fn test_validation_passes_clean_contact() {
    let ycard = parse(
        "version: 1\nname: \"A\"\nphones: \"+15551234567\"\nemails: \"a@b.example\"\n",
        Some("en"),
    )
    .unwrap();
    let diagnostics = validate(&ycard, ValidationMode::Strict).unwrap();
    assert!(diagnostics.is_empty());
}

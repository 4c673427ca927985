//! Closed-plus-custom token types of the schema, and the locale-insensitive
//! token matching that maps a raw tag to its canonical variant. Matching is
//! case-insensitive through Unicode lowercasing.

use vstd::prelude::*;
use crate::chars::{chars_eq, chars_vec, lower_chars, lower_of};

verus! {

/// The kind tags a phone record can carry.
#[derive(Debug, Clone, PartialEq)]
pub enum PhoneType {
    Home,
    Work,
    Mobile,
    Fax,
    Pager,
    Main,
    Other,
    /// An unrecognized tag, carrying its original token.
    Custom(String),
}

/// The kind tags an email record can carry.
#[derive(Debug, Clone, PartialEq)]
pub enum EmailType {
    Home,
    Work,
    Other,
    /// An unrecognized tag, carrying its original token.
    Custom(String),
}

/// The kind tags an address record can carry.
#[derive(Debug, Clone, PartialEq)]
pub enum AddressType {
    Home,
    Work,
    Other,
    /// An unrecognized tag, carrying its original token.
    Custom(String),
}

/// A diagnostic severity token, as read from configuration text.
#[derive(Debug, Clone, PartialEq)]
pub enum DiagnosticLevel {
    Error,
    Warning,
    Info,
    Hint,
    /// An unrecognized tag, carrying its original token.
    Custom(String),
}

/// A phone formatting style token, as read from configuration text.
#[derive(Debug, Clone, PartialEq)]
pub enum PhonesStyle {
    Canonical,
    Shorthand,
    Auto,
    /// An unrecognized tag, carrying its original token.
    Custom(String),
}

/// A validation mode token, as read from configuration text.
#[derive(Debug, Clone, PartialEq)]
pub enum ValidationMode {
    Lenient,
    Strict,
    /// An unrecognized tag, carrying its original token.
    Custom(String),
}

/// A stable diagnostic code paired with its default severity and message.
#[derive(Debug, Clone, PartialEq)]
pub struct DiagnosticCode {
    pub code: String,
    pub level: DiagnosticLevel,
    pub message: String,
}


/// The abstract value of a [`PhoneType`]: the closed variants, or the custom
/// token's characters.
pub enum PhoneTypeView {
    Home,
    Work,
    Mobile,
    Fax,
    Pager,
    Main,
    Other,
    Custom(Seq<char>),
}

impl View for PhoneType {
    type V = PhoneTypeView;

    open spec fn view(&self) -> PhoneTypeView {
        match self {
            PhoneType::Home => PhoneTypeView::Home,
            PhoneType::Work => PhoneTypeView::Work,
            PhoneType::Mobile => PhoneTypeView::Mobile,
            PhoneType::Fax => PhoneTypeView::Fax,
            PhoneType::Pager => PhoneTypeView::Pager,
            PhoneType::Main => PhoneTypeView::Main,
            PhoneType::Other => PhoneTypeView::Other,
            PhoneType::Custom(t) => PhoneTypeView::Custom(t@),
        }
    }
}

/// The abstract value of an [`EmailType`].
pub enum EmailTypeView {
    Home,
    Work,
    Other,
    Custom(Seq<char>),
}

impl View for EmailType {
    type V = EmailTypeView;

    open spec fn view(&self) -> EmailTypeView {
        match self {
            EmailType::Home => EmailTypeView::Home,
            EmailType::Work => EmailTypeView::Work,
            EmailType::Other => EmailTypeView::Other,
            EmailType::Custom(t) => EmailTypeView::Custom(t@),
        }
    }
}

/// The abstract value of an [`AddressType`].
pub enum AddressTypeView {
    Home,
    Work,
    Other,
    Custom(Seq<char>),
}

impl View for AddressType {
    type V = AddressTypeView;

    open spec fn view(&self) -> AddressTypeView {
        match self {
            AddressType::Home => AddressTypeView::Home,
            AddressType::Work => AddressTypeView::Work,
            AddressType::Other => AddressTypeView::Other,
            AddressType::Custom(t) => AddressTypeView::Custom(t@),
        }
    }
}

/// The token a raw phone kind string maps to.
pub open spec fn phone_type_view_of(s: Seq<char>) -> PhoneTypeView {
    let f = lower_of(s);
    if home_token(f) {
        PhoneTypeView::Home
    } else if work_token(f) {
        PhoneTypeView::Work
    } else if mobile_token(f) {
        PhoneTypeView::Mobile
    } else if f == "fax"@ {
        PhoneTypeView::Fax
    } else if f == "pager"@ {
        PhoneTypeView::Pager
    } else if main_token(f) {
        PhoneTypeView::Main
    } else if other_token(f) {
        PhoneTypeView::Other
    } else {
        PhoneTypeView::Custom(s)
    }
}

/// The token a raw email kind string maps to.
pub open spec fn email_type_view_of(s: Seq<char>) -> EmailTypeView {
    let f = lower_of(s);
    if home_token(f) {
        EmailTypeView::Home
    } else if work_token(f) {
        EmailTypeView::Work
    } else if other_token(f) {
        EmailTypeView::Other
    } else {
        EmailTypeView::Custom(s)
    }
}

/// The token a raw address kind string maps to.
pub open spec fn address_type_view_of(s: Seq<char>) -> AddressTypeView {
    let f = lower_of(s);
    if home_token(f) {
        AddressTypeView::Home
    } else if work_token(f) {
        AddressTypeView::Work
    } else if other_token(f) {
        AddressTypeView::Other
    } else {
        AddressTypeView::Custom(s)
    }
}

pub open spec fn home_token(f: Seq<char>) -> bool {
    f == "home"@ || f == "casa"@ || f == "domicile"@ || f == "\u{81ea}\u{5b85}"@
}

pub open spec fn work_token(f: Seq<char>) -> bool {
    f == "work"@ || f == "trabajo"@ || f == "travail"@ || f == "bureau"@ || f
        == "\u{52e4}\u{52d9}"@
}

pub open spec fn mobile_token(f: Seq<char>) -> bool {
    f == "mobile"@ || f == "cell"@ || f == "m\u{f3}vil"@ || f == "portable"@ || f
        == "\u{643a}\u{5e2f}"@
}

pub open spec fn main_token(f: Seq<char>) -> bool {
    f == "main"@ || f == "principal"@
}

pub open spec fn other_token(f: Seq<char>) -> bool {
    f == "other"@ || f == "otro"@ || f == "autre"@ || f == "\u{305d}\u{306e}\u{4ed6}"@
}

/// How a raw severity token maps to its variant; unrecognized tokens are
/// kept with their characters.
pub open spec fn diagnostic_level_matches(s: Seq<char>, r: DiagnosticLevel) -> bool {
    let f = lower_of(s);
    if f == "error"@ || f == "err"@ {
        r == DiagnosticLevel::Error
    } else if f == "warning"@ || f == "warn"@ {
        r == DiagnosticLevel::Warning
    } else if f == "info"@ || f == "information"@ {
        r == DiagnosticLevel::Info
    } else if f == "hint"@ || f == "suggestion"@ {
        r == DiagnosticLevel::Hint
    } else {
        r matches DiagnosticLevel::Custom(t) && t@ == s
    }
}

/// How a raw style token maps to its variant.
pub open spec fn phones_style_matches(s: Seq<char>, r: PhonesStyle) -> bool {
    let f = lower_of(s);
    if f == "canonical"@ || f == "full"@ || f == "structured"@ {
        r == PhonesStyle::Canonical
    } else if f == "shorthand"@ || f == "short"@ || f == "compact"@ {
        r == PhonesStyle::Shorthand
    } else if f == "auto"@ || f == "automatic"@ || f == "smart"@ {
        r == PhonesStyle::Auto
    } else {
        r matches PhonesStyle::Custom(t) && t@ == s
    }
}

/// How a raw mode token maps to its variant.
pub open spec fn validation_mode_matches(s: Seq<char>, r: ValidationMode) -> bool {
    let f = lower_of(s);
    if f == "lenient"@ || f == "relaxed"@ || f == "permissive"@ {
        r == ValidationMode::Lenient
    } else if f == "strict"@ || f == "rigid"@ || f == "exact"@ {
        r == ValidationMode::Strict
    } else {
        r matches ValidationMode::Custom(t) && t@ == s
    }
}

/// The lowercased characters of a raw token.
pub fn lowered_chars(s: &str) -> (r: Vec<char>)
    ensures
        r@ == lower_of(s@),
{
    let cs = chars_vec(s);
    lower_chars(&cs)
}

/// Whether the folded token equals the given literal.
pub fn tok_eq(f: &Vec<char>, lit: &str) -> (r: bool)
    ensures
        r == (f@ == lit@),
{
    let l = chars_vec(lit);
    chars_eq(f, &l)
}

impl PhoneType {
    /// Map a raw phone kind token to its canonical variant; unrecognized
    /// tokens are kept as `Custom`.
    pub fn from_str_with_locale(s: &str, _locale: &str) -> (r: Self)
        ensures
            r@ == phone_type_view_of(s@),
    {
        let f = lowered_chars(s);
        if tok_eq(&f, "home") || tok_eq(&f, "casa") || tok_eq(&f, "domicile") || tok_eq(
            &f,
            "\u{81ea}\u{5b85}",
        ) {
            PhoneType::Home
        } else if tok_eq(&f, "work") || tok_eq(&f, "trabajo") || tok_eq(&f, "travail") || tok_eq(
            &f,
            "bureau",
        ) || tok_eq(&f, "\u{52e4}\u{52d9}") {
            PhoneType::Work
        } else if tok_eq(&f, "mobile") || tok_eq(&f, "cell") || tok_eq(&f, "m\u{f3}vil") || tok_eq(
            &f,
            "portable",
        ) || tok_eq(&f, "\u{643a}\u{5e2f}") {
            PhoneType::Mobile
        } else if tok_eq(&f, "fax") {
            PhoneType::Fax
        } else if tok_eq(&f, "pager") {
            PhoneType::Pager
        } else if tok_eq(&f, "main") || tok_eq(&f, "principal") {
            PhoneType::Main
        } else if tok_eq(&f, "other") || tok_eq(&f, "otro") || tok_eq(&f, "autre") || tok_eq(
            &f,
            "\u{305d}\u{306e}\u{4ed6}",
        ) {
            PhoneType::Other
        } else {
            PhoneType::Custom(s.to_owned())
        }
    }
}

impl EmailType {
    /// Map a raw email kind token to its canonical variant; unrecognized
    /// tokens are kept as `Custom`.
    pub fn from_str_with_locale(s: &str, _locale: &str) -> (r: Self)
        ensures
            r@ == email_type_view_of(s@),
    {
        let f = lowered_chars(s);
        if tok_eq(&f, "home") || tok_eq(&f, "casa") || tok_eq(&f, "domicile") || tok_eq(
            &f,
            "\u{81ea}\u{5b85}",
        ) {
            EmailType::Home
        } else if tok_eq(&f, "work") || tok_eq(&f, "trabajo") || tok_eq(&f, "travail") || tok_eq(
            &f,
            "bureau",
        ) || tok_eq(&f, "\u{52e4}\u{52d9}") {
            EmailType::Work
        } else if tok_eq(&f, "other") || tok_eq(&f, "otro") || tok_eq(&f, "autre") || tok_eq(
            &f,
            "\u{305d}\u{306e}\u{4ed6}",
        ) {
            EmailType::Other
        } else {
            EmailType::Custom(s.to_owned())
        }
    }
}

impl AddressType {
    /// Map a raw address kind token to its canonical variant; unrecognized
    /// tokens are kept as `Custom`.
    pub fn from_str_with_locale(s: &str, _locale: &str) -> (r: Self)
        ensures
            r@ == address_type_view_of(s@),
    {
        let f = lowered_chars(s);
        if tok_eq(&f, "home") || tok_eq(&f, "casa") || tok_eq(&f, "domicile") || tok_eq(
            &f,
            "\u{81ea}\u{5b85}",
        ) {
            AddressType::Home
        } else if tok_eq(&f, "work") || tok_eq(&f, "trabajo") || tok_eq(&f, "travail") || tok_eq(
            &f,
            "bureau",
        ) || tok_eq(&f, "\u{52e4}\u{52d9}") {
            AddressType::Work
        } else if tok_eq(&f, "other") || tok_eq(&f, "otro") || tok_eq(&f, "autre") || tok_eq(
            &f,
            "\u{305d}\u{306e}\u{4ed6}",
        ) {
            AddressType::Other
        } else {
            AddressType::Custom(s.to_owned())
        }
    }
}

impl DiagnosticLevel {
    /// Map a raw severity token to its canonical variant; unrecognized tokens
    /// are kept as `Custom`.
    pub fn from_str_with_locale(s: &str, _locale: &str) -> (r: Self)
        ensures
            diagnostic_level_matches(s@, r),
    {
        let f = lowered_chars(s);
        if tok_eq(&f, "error") || tok_eq(&f, "err") {
            DiagnosticLevel::Error
        } else if tok_eq(&f, "warning") || tok_eq(&f, "warn") {
            DiagnosticLevel::Warning
        } else if tok_eq(&f, "info") || tok_eq(&f, "information") {
            DiagnosticLevel::Info
        } else if tok_eq(&f, "hint") || tok_eq(&f, "suggestion") {
            DiagnosticLevel::Hint
        } else {
            DiagnosticLevel::Custom(s.to_owned())
        }
    }
}

impl PhonesStyle {
    /// Map a raw style token to its canonical variant; unrecognized tokens
    /// are kept as `Custom`.
    pub fn from_str_with_locale(s: &str, _locale: &str) -> (r: Self)
        ensures
            phones_style_matches(s@, r),
    {
        let f = lowered_chars(s);
        if tok_eq(&f, "canonical") || tok_eq(&f, "full") || tok_eq(&f, "structured") {
            PhonesStyle::Canonical
        } else if tok_eq(&f, "shorthand") || tok_eq(&f, "short") || tok_eq(&f, "compact") {
            PhonesStyle::Shorthand
        } else if tok_eq(&f, "auto") || tok_eq(&f, "automatic") || tok_eq(&f, "smart") {
            PhonesStyle::Auto
        } else {
            PhonesStyle::Custom(s.to_owned())
        }
    }
}

impl ValidationMode {
    /// Map a raw mode token to its canonical variant; unrecognized tokens are
    /// kept as `Custom`.
    pub fn from_str_with_locale(s: &str, _locale: &str) -> (r: Self)
        ensures
            validation_mode_matches(s@, r),
    {
        let f = lowered_chars(s);
        if tok_eq(&f, "lenient") || tok_eq(&f, "relaxed") || tok_eq(&f, "permissive") {
            ValidationMode::Lenient
        } else if tok_eq(&f, "strict") || tok_eq(&f, "rigid") || tok_eq(&f, "exact") {
            ValidationMode::Strict
        } else {
            ValidationMode::Custom(s.to_owned())
        }
    }
}

} // verus!

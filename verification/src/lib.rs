//! yCard: a locale-aware contact-card normalization and validation library.
//!
//! A yCard document is written in a YAML-flavored syntax with locale-specific
//! field names (`portable:` for a French mobile number). The library resolves
//! such aliases through layered, BCP-47-aware alias packs, coerces the loosely
//! typed input into a strict canonical document model, renders the canonical
//! form back out, and reports structured diagnostics with suggested fixes.

#![verifier::loop_isolation(false)]

pub mod chars;
pub mod format;
pub mod i18n;
pub mod markdown;
pub mod parser;
pub mod schema;
pub mod types;
pub mod validate;
pub mod yaml;

pub use format::{Formatter, PhonesStyle};
pub use i18n::{AliasManager, AliasPack, LocaleData};
pub use parser::{ParseError, Parser};
pub use schema::{Address, AddressComponents, Email, Metadata, Name, Phone, YCard};
pub use types::{AddressType, EmailType, PhoneType};
pub use validate::{Diagnostic, DiagnosticLevel, ValidationMode, Validator};

use vstd::prelude::*;

verus! {

use crate::format::text_of_ycard;
use crate::i18n::{is_fallback_pack, AliasManagerView};
use crate::parser::{spec_assemble, spec_strict_decode, ParseErrorView};
use crate::schema::YCardView;
use crate::validate::{diag_views, spec_validate, ValidationError};
use crate::yaml::yaml_of;

/// The state of the alias store every top-level call works under: the
/// baked-in fallback pack alone, with default locale `"en"`.
pub open spec fn default_store(m: AliasManagerView) -> bool {
    &&& m.packs.len() == 1
    &&& is_fallback_pack(m.packs[0])
    &&& m.default_locale == "en"@
}

/// Parse yCard text leniently under a fresh alias store holding only the
/// fallback pack.
pub fn parse(input: &str, locale: Option<&str>) -> (r: Result<YCard, ParseError>)
    ensures
        r matches Ok(c) ==> (exists|m: AliasManagerView|
            #[trigger] default_store(m) && (yaml_of(input@) matches Some(v) && spec_assemble(
                m,
                locale,
                v,
            ) == Ok::<YCardView, ParseErrorView>(c@))),
        r matches Err(e) ==> ((yaml_of(input@) is None && e@ is Yaml) || (exists|
            m: AliasManagerView,
        |
            #[trigger] default_store(m) && (yaml_of(input@) matches Some(v) && spec_assemble(
                m,
                locale,
                v,
            ) == Err::<YCardView, ParseErrorView>(e@)))),
{
    let p = Parser::new();
    let ghost m = p@;
    let r = p.parse_lenient(input, locale);
    proof {
        assert(default_store(m));
    }
    r
}

/// Parse yCard text strictly: the input must already match the canonical
/// schema exactly.
pub fn parse_strict(input: &str) -> (r: Result<YCard, ParseError>)
    ensures
        r matches Ok(c) ==> (yaml_of(input@) matches Some(v) && spec_strict_decode(v) == Some(
            c@,
        )),
        r matches Err(e) ==> e@ is Yaml && (yaml_of(input@) is None || (yaml_of(input@)
            matches Some(v) && spec_strict_decode(v) is None)),
{
    let p = Parser::new();
    p.parse_strict(input)
}

/// Render a document as canonical YAML text.
pub fn format(ycard: &YCard) -> (r: Result<String, String>)
    ensures
        r matches Ok(t) && t@ == text_of_ycard(ycard@),
{
    let f = Formatter::new();
    f.format(ycard)
}

/// Validate a document under one mode and return its findings in emission
/// order.
pub fn validate(ycard: &YCard, mode: ValidationMode) -> (r: Result<
    Vec<Diagnostic>,
    ValidationError,
>)
    ensures
        r matches Ok(ds) ==> diag_views(ds@) == spec_validate(mode, ycard@),
        r is Ok,
{
    let v = Validator::new(mode);
    v.validate(ycard)
}

} // verus!

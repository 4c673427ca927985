//! The diagnostics engine: three validation modes over an assembled
//! document, each a pure function from the document to an ordered list of
//! diagnostics with severities, stable codes, messages and suggested edits.

use vstd::prelude::*;
use crate::schema::{EmailView, PhoneView, YCard, YCardView};

verus! {

/// A failure of the validation machinery itself (never produced by the
/// current checks, which always yield a diagnostic list).
#[derive(Debug, PartialEq)]
pub enum ValidationError {
    MissingRequired { field: String },
    InvalidFormat { message: String },
    SchemaViolation { message: String },
}

/// The severity of a diagnostic.
#[derive(Debug, Clone, PartialEq, Eq, Structural)]
pub enum DiagnosticLevel {
    Error,
    Warning,
    Info,
    Hint,
}

/// A position in the source text: zero-based line and column.
#[derive(Debug, Clone, Copy, PartialEq, Eq, Structural)]
pub struct Position {
    pub line: u32,
    pub character: u32,
}

/// A half-open source range.
#[derive(Debug, Clone, Copy, PartialEq, Eq, Structural)]
pub struct Range {
    pub start: Position,
    pub end: Position,
}

/// A suggested text replacement.
#[derive(Debug, Clone, PartialEq)]
pub struct TextEdit {
    pub range: Range,
    pub new_text: String,
}

/// A suggested fix: a titled, kinded edit.
#[derive(Debug, Clone, PartialEq)]
pub struct CodeFix {
    pub title: String,
    pub kind: String,
    pub edit: TextEdit,
}

/// One finding: severity, message, optional stable code, optional source
/// range, and suggested fixes.
#[derive(Debug, Clone, PartialEq)]
pub struct Diagnostic {
    pub level: DiagnosticLevel,
    pub message: String,
    pub code: Option<String>,
    pub range: Option<Range>,
    pub fixes: Vec<CodeFix>,
}

/// The validation modes.
#[derive(Debug, Clone, Copy, PartialEq, Eq, Structural)]
pub enum ValidationMode {
    Lenient,
    Strict,
    SchemaOnly,
}

/// A validator fixed to one mode.
pub struct Validator {
    mode: ValidationMode,
}

/// The abstract value of a [`TextEdit`].
#[verifier::ext_equal]
pub struct TextEditView {
    pub range: Range,
    pub new_text: Seq<char>,
}

/// The abstract value of a [`CodeFix`].
#[verifier::ext_equal]
pub struct CodeFixView {
    pub title: Seq<char>,
    pub kind: Seq<char>,
    pub edit: TextEditView,
}

/// The abstract value of a [`Diagnostic`].
#[verifier::ext_equal]
pub struct DiagView {
    pub level: DiagnosticLevel,
    pub message: Seq<char>,
    pub code: Option<Seq<char>>,
    pub range: Option<Range>,
    pub fixes: Seq<CodeFixView>,
}

impl View for TextEdit {
    type V = TextEditView;

    open spec fn view(&self) -> TextEditView {
        TextEditView { range: self.range, new_text: self.new_text@ }
    }
}

impl View for CodeFix {
    type V = CodeFixView;

    open spec fn view(&self) -> CodeFixView {
        CodeFixView { title: self.title@, kind: self.kind@, edit: self.edit@ }
    }
}

impl View for Diagnostic {
    type V = DiagView;

    open spec fn view(&self) -> DiagView {
        DiagView {
            level: self.level,
            message: self.message@,
            code: crate::schema::opt_view(self.code),
            range: self.range,
            fixes: self.fixes@.map_values(|f: CodeFix| f@),
        }
    }
}

/// The views of a diagnostic list.
pub open spec fn diag_views(ds: Seq<Diagnostic>) -> Seq<DiagView> {
    ds.map_values(|d: Diagnostic| d@)
}

/// The all-zero source range the version fix is anchored to.
pub open spec fn zero_range() -> Range {
    Range {
        start: Position { line: 0, character: 0 },
        end: Position { line: 0, character: 0 },
    }
}

/// The warning emitted when the version is the zero/unset sentinel, with a
/// fix inserting `version: 1`.
pub open spec fn version_missing_diag() -> DiagView {
    DiagView {
        level: DiagnosticLevel::Warning,
        message: "Version should be specified (defaulting to 1)"@,
        code: Some("version-missing"@),
        range: None,
        fixes: seq![
            CodeFixView {
                title: "Add version: 1"@,
                kind: "quickfix"@,
                edit: TextEditView { range: zero_range(), new_text: "version: 1\n"@ },
            },
        ],
    }
}

/// The warning emitted for a phone number not in `+`-prefixed form.
pub open spec fn phone_format_diag(number: Seq<char>) -> DiagView {
    DiagView {
        level: DiagnosticLevel::Warning,
        message: "Phone number should be in E.164 format: "@ + number,
        code: Some("phone-format"@),
        range: None,
        fixes: Seq::empty(),
    }
}

/// The error emitted for an email address without `@`.
pub open spec fn email_invalid_diag(address: Seq<char>) -> DiagView {
    DiagView {
        level: DiagnosticLevel::Error,
        message: "Invalid email address: "@ + address,
        code: Some("email-invalid"@),
        range: None,
        fixes: Seq::empty(),
    }
}

/// The error emitted when name, phones and emails are all absent.
pub open spec fn empty_contact_diag() -> DiagView {
    DiagView {
        level: DiagnosticLevel::Error,
        message: "At least one of name, phones, or emails must be present"@,
        code: Some("empty-contact"@),
        range: None,
        fixes: Seq::empty(),
    }
}

/// The decimal digits of a number.
pub open spec fn dec_of(n: int) -> Seq<char>
    decreases n,
{
    if n < 10 {
        seq![(('0' as u32) + n) as char]
    } else {
        dec_of(n / 10) + seq![(('0' as u32) + (n % 10)) as char]
    }
}

/// The error emitted for a version beyond the supported one.
pub open spec fn version_unsupported_diag(version: u8) -> DiagView {
    DiagView {
        level: DiagnosticLevel::Error,
        message: "Unsupported version: "@ + dec_of(version as int),
        code: Some("version-unsupported"@),
        range: None,
        fixes: Seq::empty(),
    }
}

/// Whether a phone number is in the canonical `+`-prefixed form.
pub open spec fn phone_is_plus(number: Seq<char>) -> bool {
    number.len() > 0 && number[0] == '+'
}

/// Whether an email address contains the `@` separator.
pub open spec fn has_at(address: Seq<char>) -> bool {
    exists|i: int| 0 <= i < address.len() && address[i] == '@'
}

/// The phone-format warnings of a phone list, in order.
pub open spec fn phone_warnings(ps: Seq<PhoneView>) -> Seq<DiagView>
    decreases ps.len(),
{
    if ps.len() == 0 {
        Seq::empty()
    } else {
        let head: Seq<DiagView> = if !phone_is_plus(ps[0].number) {
            seq![phone_format_diag(ps[0].number)]
        } else {
            Seq::empty()
        };
        head + phone_warnings(ps.drop_first())
    }
}

/// The email-format errors of an email list, in order.
pub open spec fn email_errors(es: Seq<EmailView>) -> Seq<DiagView>
    decreases es.len(),
{
    if es.len() == 0 {
        Seq::empty()
    } else {
        let head: Seq<DiagView> = if !has_at(es[0].address) {
            seq![email_invalid_diag(es[0].address)]
        } else {
            Seq::empty()
        };
        head + email_errors(es.drop_first())
    }
}

/// The lenient findings: a version warning, then one warning per
/// unnormalized phone, then one error per malformed email address.
pub open spec fn lenient_diags(c: YCardView) -> Seq<DiagView> {
    let vd: Seq<DiagView> = if c.version == 0 {
        seq![version_missing_diag()]
    } else {
        Seq::empty()
    };
    let pd: Seq<DiagView> = match c.phones {
        Some(ps) => phone_warnings(ps),
        None => Seq::empty(),
    };
    let ed: Seq<DiagView> = match c.emails {
        Some(es) => email_errors(es),
        None => Seq::empty(),
    };
    vd + pd + ed
}

/// A finding with warning severity promoted to error.
pub open spec fn escalate(d: DiagView) -> DiagView {
    if d.level == DiagnosticLevel::Warning {
        DiagView { level: DiagnosticLevel::Error, ..d }
    } else {
        d
    }
}

/// The strict findings: every lenient warning becomes an error, and an
/// `empty-contact` error is appended when name, phones and emails are all
/// absent.
pub open spec fn strict_diags(c: YCardView) -> Seq<DiagView> {
    let base = lenient_diags(c).map_values(|d: DiagView| escalate(d));
    if c.name is None && c.phones is None && c.emails is None {
        base + seq![empty_contact_diag()]
    } else {
        base
    }
}

/// The schema-only findings: a single error when the version exceeds the
/// supported one.
pub open spec fn schema_only_diags(c: YCardView) -> Seq<DiagView> {
    if c.version > 1 {
        seq![version_unsupported_diag(c.version)]
    } else {
        Seq::empty()
    }
}

/// The findings of one mode over one document.
pub open spec fn spec_validate(mode: ValidationMode, c: YCardView) -> Seq<DiagView> {
    match mode {
        ValidationMode::Lenient => lenient_diags(c),
        ValidationMode::Strict => strict_diags(c),
        ValidationMode::SchemaOnly => schema_only_diags(c),
    }
}

/// The decimal rendering of a byte.
pub fn dec_string_chars(n: u8) -> (r: Vec<char>)
    ensures
        r@ == dec_of(n as int),
    decreases n,
{
    if n < 10 {
        let mut r: Vec<char> = Vec::new();
        r.push((('0' as u32 + n as u32) as u8) as char);
        proof {
            assert(r@ =~= dec_of(n as int));
        }
        r
    } else {
        let mut r = dec_string_chars(n / 10);
        r.push((('0' as u32 + (n % 10) as u32) as u8) as char);
        proof {
            assert(r@ =~= dec_of((n / 10) as int) + seq![
                (('0' as u32) + ((n % 10) as int)) as char,
            ]);
        }
        r
    }
}

/// The concatenation of a literal and a string.
fn prefixed(prefix: &str, rest: &str) -> (r: String)
    ensures
        r@ == prefix@ + rest@,
{
    let mut r = prefix.to_owned();
    r.append(rest);
    r
}

impl Validator {
    /// A validator for the given mode.
    pub fn new(mode: ValidationMode) -> (r: Self)
        ensures
            r.mode() == mode,
    {
        Validator { mode }
    }

    /// The mode this validator runs.
    pub closed spec fn mode(&self) -> ValidationMode {
        self.mode
    }

    /// Run this validator's mode over a document and return its findings in
    /// emission order. The current checks never fail, so the result is
    /// always the diagnostic list.
    pub fn validate(&self, ycard: &YCard) -> (r: Result<Vec<Diagnostic>, ValidationError>)
        ensures
            r matches Ok(ds) ==> diag_views(ds@) == spec_validate(self.mode(), ycard@),
            r is Ok,
    {
        let mut ds: Vec<Diagnostic> = Vec::new();
        match self.mode {
            ValidationMode::Lenient => {
                self.validate_lenient(ycard, &mut ds);
            },
            ValidationMode::Strict => {
                self.validate_strict(ycard, &mut ds);
            },
            ValidationMode::SchemaOnly => {
                self.validate_schema_only(ycard, &mut ds);
            },
        }
        proof {
            assert(diag_views(ds@) =~= spec_validate(self.mode(), ycard@));
        }
        Ok(ds)
    }

    /// Append the lenient findings of a document.
    fn validate_lenient(&self, ycard: &YCard, diagnostics: &mut Vec<Diagnostic>)
        ensures
            diag_views(final(diagnostics)@) == diag_views(old(diagnostics)@) + lenient_diags(
                ycard@,
            ),
    {
        let ghost base = diag_views(diagnostics@);
        if ycard.version == 0 {
            let edit = TextEdit { range: zero_range_exec(), new_text: "version: 1\n".to_owned() };
            let fix = CodeFix { title: "Add version: 1".to_owned(), kind: "quickfix".to_owned(), edit };
            let mut fixes: Vec<CodeFix> = Vec::new();
            fixes.push(fix);
            diagnostics.push(
                Diagnostic {
                    level: DiagnosticLevel::Warning,
                    message: "Version should be specified (defaulting to 1)".to_owned(),
                    code: Some("version-missing".to_owned()),
                    range: None,
                    fixes,
                },
            );
            proof {
                assert(diag_views(diagnostics@) =~~= base + seq![version_missing_diag()]);
            }
        }
        let ghost after_version = diag_views(diagnostics@);
        match &ycard.phones {
            Some(phones) => {
                let ghost pviews = phones@.map_values(|p: crate::schema::Phone| p@);
                let mut i: usize = 0;
                proof {
                    assert(pviews.skip(0) =~= pviews);
                    assert(after_version + phone_warnings(pviews) =~= after_version
                        + phone_warnings(pviews));
                }
                while i < phones.len()
                    invariant
                        i <= phones@.len(),
                        pviews == phones@.map_values(|p: crate::schema::Phone| p@),
                        diag_views(diagnostics@) + phone_warnings(pviews.skip(i as int))
                            == after_version + phone_warnings(pviews),
                    decreases phones@.len() - i,
                {
                    proof {
                        assert(pviews.skip(i as int).drop_first() =~= pviews.skip(i + 1 as int));
                        assert(pviews.skip(i as int)[0] == pviews[i as int]);
                    }
                    let ghost before = diag_views(diagnostics@);
                    let number = &phones[i].number;
                    let starts_plus = number.unicode_len() > 0 && number.get_char(0) == '+';
                    if !starts_plus {
                        diagnostics.push(
                            Diagnostic {
                                level: DiagnosticLevel::Warning,
                                message: prefixed(
                                    "Phone number should be in E.164 format: ",
                                    number.as_str(),
                                ),
                                code: Some("phone-format".to_owned()),
                                range: None,
                                fixes: Vec::new(),
                            },
                        );
                        proof {
                            assert(diag_views(diagnostics@) =~~= before + seq![
                                phone_format_diag(pviews[i as int].number),
                            ]);
                            assert(before + (seq![phone_format_diag(pviews[i as int].number)]
                                + phone_warnings(pviews.skip(i + 1 as int))) =~= diag_views(
                                diagnostics@,
                            ) + phone_warnings(pviews.skip(i + 1 as int)));
                        }
                    }
                    i = i + 1;
                }
                proof {
                    assert(pviews.skip(pviews.len() as int) =~= Seq::<PhoneView>::empty());
                    assert(diag_views(diagnostics@) + Seq::<DiagView>::empty() =~= diag_views(
                        diagnostics@,
                    ));
                }
            },
            None => {},
        }
        let ghost after_phones = diag_views(diagnostics@);
        match &ycard.emails {
            Some(emails) => {
                let ghost eviews = emails@.map_values(|e: crate::schema::Email| e@);
                let mut i: usize = 0;
                proof {
                    assert(eviews.skip(0) =~= eviews);
                }
                while i < emails.len()
                    invariant
                        i <= emails@.len(),
                        eviews == emails@.map_values(|e: crate::schema::Email| e@),
                        diag_views(diagnostics@) + email_errors(eviews.skip(i as int))
                            == after_phones + email_errors(eviews),
                    decreases emails@.len() - i,
                {
                    proof {
                        assert(eviews.skip(i as int).drop_first() =~= eviews.skip(i + 1 as int));
                        assert(eviews.skip(i as int)[0] == eviews[i as int]);
                    }
                    let ghost before = diag_views(diagnostics@);
                    let address = &emails[i].address;
                    let at = contains_at(address.as_str());
                    if !at {
                        diagnostics.push(
                            Diagnostic {
                                level: DiagnosticLevel::Error,
                                message: prefixed("Invalid email address: ", address.as_str()),
                                code: Some("email-invalid".to_owned()),
                                range: None,
                                fixes: Vec::new(),
                            },
                        );
                        proof {
                            assert(diag_views(diagnostics@) =~~= before + seq![
                                email_invalid_diag(eviews[i as int].address),
                            ]);
                            assert(before + (seq![email_invalid_diag(eviews[i as int].address)]
                                + email_errors(eviews.skip(i + 1 as int))) =~= diag_views(
                                diagnostics@,
                            ) + email_errors(eviews.skip(i + 1 as int)));
                        }
                    }
                    i = i + 1;
                }
                proof {
                    assert(eviews.skip(eviews.len() as int) =~= Seq::<EmailView>::empty());
                    assert(diag_views(diagnostics@) + Seq::<DiagView>::empty() =~= diag_views(
                        diagnostics@,
                    ));
                }
            },
            None => {},
        }
        proof {
            assert(diag_views(diagnostics@) =~= base + lenient_diags(ycard@));
        }
    }

    /// Append the strict findings: the lenient ones with warnings promoted
    /// to errors, plus the empty-contact error where nothing identifying is
    /// present.
    fn validate_strict(&self, ycard: &YCard, diagnostics: &mut Vec<Diagnostic>)
        ensures
            diag_views(final(diagnostics)@) == diag_views(old(diagnostics)@) + strict_diags(
                ycard@,
            ),
    {
        let ghost base = diag_views(diagnostics@);
        let start = diagnostics.len();
        self.validate_lenient(ycard, diagnostics);
        let mut i: usize = start;
        proof {
            assert(diag_views(diagnostics@) =~= base + lenient_diags(ycard@));
        }
        let ghost lenient = lenient_diags(ycard@);
        proof {
            assert(diagnostics@.len() == start + lenient.len());
            assert forall|j: int| 0 <= j < start implies diagnostics@[j]@ == base[j] by {
                assert(diag_views(diagnostics@)[j] == diagnostics@[j]@);
                assert((base + lenient)[j] == base[j]);
            }
            assert(diag_views(diagnostics@.take(start as int)) =~= base);
            assert forall|j: int|
                start <= j < diagnostics@.len() implies diagnostics@[j]@ == lenient[j
                - start] by {
                assert(diag_views(diagnostics@)[j] == diagnostics@[j]@);
                assert((base + lenient)[j] == lenient[j - start]);
            }
        }
        while i < diagnostics.len()
            invariant
                start <= i <= diagnostics@.len(),
                diagnostics@.len() == start + lenient.len(),
                start == base.len(),
                diag_views(diagnostics@.take(start as int)) == base,
                forall|j: int|
                    start <= j < i ==> diagnostics@[j]@ == escalate(lenient[j - start]),
                forall|j: int| i <= j < diagnostics@.len() ==> diagnostics@[j]@ == lenient[j
                    - start],
            decreases diagnostics@.len() - i,
        {
            let is_warning = match diagnostics[i].level {
                DiagnosticLevel::Warning => true,
                _ => false,
            };
            if is_warning {
                let ghost before = diagnostics@;
                let mut d = diagnostics.remove(i);
                d.level = DiagnosticLevel::Error;
                diagnostics.insert(i, d);
                proof {
                    assert(diagnostics@ =~= before.update(i as int, diagnostics@[i as int]));
                    assert(diagnostics@[i as int]@ == escalate(lenient[i - start]));
                    assert(diag_views(diagnostics@.take(start as int)) =~= diag_views(
                        before.take(start as int),
                    ));
                }
            } else {
                proof {
                    assert(diagnostics@[i as int]@ == escalate(lenient[i - start]));
                }
            }
            i = i + 1;
        }
        let empty_contact = match (&ycard.name, &ycard.phones, &ycard.emails) {
            (None, None, None) => true,
            _ => false,
        };
        if empty_contact {
            diagnostics.push(
                Diagnostic {
                    level: DiagnosticLevel::Error,
                    message: "At least one of name, phones, or emails must be present".to_owned(),
                    code: Some("empty-contact".to_owned()),
                    range: None,
                    fixes: Vec::new(),
                },
            );
        }
        proof {
            assert(diag_views(diagnostics@) =~~= base + strict_diags(ycard@));
        }
    }

    /// Append the schema-only findings: only an unsupported-version error.
    fn validate_schema_only(&self, ycard: &YCard, diagnostics: &mut Vec<Diagnostic>)
        ensures
            diag_views(final(diagnostics)@) == diag_views(old(diagnostics)@) + schema_only_diags(
                ycard@,
            ),
    {
        let ghost base = diag_views(diagnostics@);
        if ycard.version > 1 {
            let digits = dec_string_chars(ycard.version);
            let num = crate::chars::string_of_chars(&digits);
            diagnostics.push(
                Diagnostic {
                    level: DiagnosticLevel::Error,
                    message: prefixed("Unsupported version: ", num.as_str()),
                    code: Some("version-unsupported".to_owned()),
                    range: None,
                    fixes: Vec::new(),
                },
            );
            proof {
                assert(diag_views(diagnostics@) =~~= base + seq![
                    version_unsupported_diag(ycard@.version),
                ]);
            }
        } else {
            proof {
                assert(diag_views(diagnostics@) =~= base + schema_only_diags(ycard@));
            }
        }
    }
}

impl Default for Validator {
    /// The default validator runs the lenient mode.
    fn default() -> (r: Self)
        ensures
            r.mode() == ValidationMode::Lenient,
    {
        Validator::new(ValidationMode::Lenient)
    }
}

/// The all-zero source range.
fn zero_range_exec() -> (r: Range)
    ensures
        r == zero_range(),
{
    Range {
        start: Position { line: 0, character: 0 },
        end: Position { line: 0, character: 0 },
    }
}

/// Whether the string contains `@`.
fn contains_at(s: &str) -> (r: bool)
    ensures
        r == has_at(s@),
{
    let cs = crate::chars::chars_vec(s);
    let mut i: usize = 0;
    while i < cs.len()
        invariant
            i <= cs@.len(),
            cs@ == s@,
            forall|j: int| 0 <= j < i ==> cs@[j] != '@',
        decreases cs@.len() - i,
    {
        if cs[i] == '@' {
            return true;
        }
        i = i + 1;
    }
    false
}

/// Law: strict-mode validation yields no warning-severity findings — every
/// lenient warning is promoted to an error, for every document.
pub proof fn lemma_strict_has_no_warnings(c: YCardView)
    ensures
        forall|i: int|
            0 <= i < strict_diags(c).len() ==> (#[trigger] strict_diags(c)[i]).level
                != DiagnosticLevel::Warning,
{
    let base = lenient_diags(c).map_values(|d: DiagView| escalate(d));
    assert forall|i: int| 0 <= i < strict_diags(c).len() implies (#[trigger] strict_diags(
        c,
    )[i]).level != DiagnosticLevel::Warning by {
        if i < base.len() {
            assert(strict_diags(c)[i] == escalate(lenient_diags(c)[i]));
        } else {
            assert(strict_diags(c)[i] == empty_contact_diag());
        }
    }
}

} // verus!

//! The lenient and strict yCard parsers.
//!
//! Lenient parsing reads a generic YAML value, pulls shorthand phone fields
//! out first (keys whose canonical alias has the form `phones.type:<TAG>`),
//! then dispatches the remaining keys through the alias store to the field
//! coercers. Strict parsing decodes the canonical schema shape directly, with
//! no alias resolution and no normalization.

use vstd::prelude::*;
use crate::chars::{
    chars_has_prefix, chars_vec, has_prefix, is_digit, string_of_chars, trim_seq, trim_vec,
};
use crate::i18n::{AliasManager, AliasManagerView, spec_resolve_key};
use crate::schema::{
    default_ycard_view, empty_name_view, Address, AddressComponents, AddressComponentsView,
    AddressView, Email, EmailView, Metadata, MetadataView, Name, NameView, Phone, PhoneView,
    YCard, YCardView,
};
use crate::types::{
    email_type_view_of, phone_type_view_of, AddressType, AddressTypeView, EmailType,
    EmailTypeView, PhoneType, PhoneTypeView,
};
use crate::yaml::{parse_yaml_text, yaml_find, yaml_get, yaml_of, Yaml};

verus! {

/// A terminal parse failure; no partial document is ever returned.
#[derive(Debug, PartialEq)]
pub enum ParseError {
    /// Malformed input text, or a strict-mode structural mismatch.
    Yaml(String),
    /// A structurally wrong shape for a field.
    Schema(String),
    /// A phone number that cannot be normalized.
    Phone(String),
    /// Reserved for email validation failures.
    Email(String),
}

/// The abstract value of a [`ParseError`].
pub enum ParseErrorView {
    Yaml(Seq<char>),
    Schema(Seq<char>),
    Phone(Seq<char>),
    Email(Seq<char>),
}

impl View for ParseError {
    type V = ParseErrorView;

    open spec fn view(&self) -> ParseErrorView {
        match self {
            ParseError::Yaml(m) => ParseErrorView::Yaml(m@),
            ParseError::Schema(m) => ParseErrorView::Schema(m@),
            ParseError::Phone(m) => ParseErrorView::Phone(m@),
            ParseError::Email(m) => ParseErrorView::Email(m@),
        }
    }
}

/// The rendered form of a parse error.
pub open spec fn spec_error_message(e: ParseErrorView) -> Seq<char> {
    match e {
        ParseErrorView::Yaml(m) => "YAML parsing error: "@ + m,
        ParseErrorView::Schema(m) => "Invalid schema: "@ + m,
        ParseErrorView::Phone(m) => "Phone normalization error: "@ + m,
        ParseErrorView::Email(m) => "Email validation error: "@ + m,
    }
}

impl ParseError {
    /// A human-readable description of the failure.
    pub fn message(&self) -> (r: String)
        ensures
            r@ == spec_error_message(self@),
    {
        match self {
            ParseError::Yaml(m) => concat_str("YAML parsing error: ", m.as_str()),
            ParseError::Schema(m) => concat_str("Invalid schema: ", m.as_str()),
            ParseError::Phone(m) => concat_str("Phone normalization error: ", m.as_str()),
            ParseError::Email(m) => concat_str("Email validation error: ", m.as_str()),
        }
    }
}

/// The concatenation of two strings.
fn concat_str(a: &str, b: &str) -> (r: String)
    ensures
        r@ == a@ + b@,
{
    let mut r = a.to_owned();
    r.append(b);
    r
}

/// The string value of a scalar, where it is one.
pub open spec fn as_str_opt(v: Yaml) -> Option<Seq<char>> {
    match v {
        Yaml::Str(s) => Some(s@),
        _ => None,
    }
}

/// The boolean value of a scalar, where it is one.
pub open spec fn as_bool_opt(v: Yaml) -> Option<bool> {
    match v {
        Yaml::Bool(b) => Some(b),
        _ => None,
    }
}

/// The digits of a raw phone number.
pub open spec fn phone_digits(s: Seq<char>) -> Seq<char> {
    s.filter(|c: char| is_digit(c))
}

/// Whether a `+` leads the digits of a raw phone number — the one `+` that
/// is kept.
pub open spec fn plus_before_digits(s: Seq<char>) -> bool
    decreases s.len(),
{
    if s.len() == 0 {
        false
    } else if s[0] == '+' {
        true
    } else if is_digit(s[0]) {
        false
    } else {
        plus_before_digits(s.drop_first())
    }
}

/// A raw phone number stripped to what it keeps: its digits, prefixed by a
/// single `+` where one leads them; every other character is dropped.
pub open spec fn phone_filtered(s: Seq<char>) -> Seq<char> {
    if plus_before_digits(s) {
        seq!['+'] + phone_digits(s)
    } else {
        phone_digits(s)
    }
}

/// Whether a raw phone number normalizes: either a `+` prefix survives, or
/// at least ten digits remain.
pub open spec fn phone_normalizes(s: Seq<char>) -> bool {
    let f = phone_filtered(s);
    (f.len() > 0 && f[0] == '+') || f.len() >= 10
}

/// The canonical `+<digits>` form of a raw phone number that normalizes:
/// the kept characters as they stand if they begin with `+`, else prefixed
/// with the North-American `+1`.
pub open spec fn normalized_phone(s: Seq<char>) -> Seq<char> {
    let f = phone_filtered(s);
    if f.len() > 0 && f[0] == '+' {
        f
    } else {
        "+1"@ + f
    }
}

/// The first index where `pat` occurs in `s`.
pub open spec fn find_sub(s: Seq<char>, pat: Seq<char>) -> Option<int>
    decreases s.len(),
{
    if pat.len() == 0 {
        Some(0)
    } else if s.len() < pat.len() {
        None
    } else if s.take(pat.len() as int) == pat {
        Some(0)
    } else {
        match find_sub(s.drop_first(), pat) {
            Some(i) => Some(1 + i),
            None => None,
        }
    }
}

/// The sequence with every leading repetition of `pat` removed.
pub open spec fn strip_prefix_reps(s: Seq<char>, pat: Seq<char>) -> Seq<char>
    decreases s.len(),
{
    if pat.len() > 0 && has_prefix(s, pat) && s.len() >= pat.len() {
        strip_prefix_reps(s.skip(pat.len() as int), pat)
    } else {
        s
    }
}

/// What a raw phone string yields: the part before any `ext` marker is
/// trimmed and normalized, the rest (with `ext` markers and dots stripped)
/// becomes the extension.
pub open spec fn spec_phone_string(s: Seq<char>, defaults: Seq<PhoneTypeView>) -> Result<
    PhoneView,
    ParseErrorView,
> {
    let numpart = match find_sub(s, "ext"@) {
        Some(p) => trim_seq(s.take(p)),
        None => trim_seq(s),
    };
    let extpart = match find_sub(s, "ext"@) {
        Some(p) => Some(
            trim_seq(strip_prefix_reps(strip_prefix_reps(s.skip(p), "ext"@), "."@)),
        ),
        None => None,
    };
    if phone_normalizes(numpart) {
        Ok(
            PhoneView {
                number: normalized_phone(numpart),
                types: defaults,
                ext: extpart,
                preferred: None,
                label: None,
            },
        )
    } else {
        Err(ParseErrorView::Phone("Invalid phone number: "@ + numpart))
    }
}

/// The phone kind tags a list of scalars yields; non-strings are skipped.
pub open spec fn spec_phone_types_list(items: Seq<Yaml>) -> Seq<PhoneTypeView>
    decreases items.len(),
{
    if items.len() == 0 {
        Seq::empty()
    } else {
        let rest = spec_phone_types_list(items.drop_first());
        match items[0] {
            Yaml::Str(t) => seq![phone_type_view_of(t@)] + rest,
            _ => rest,
        }
    }
}

/// The phone kind tags a `type` value yields: one token, a list of tokens, or
/// `Other` for anything else.
pub open spec fn spec_phone_types(v: Yaml) -> Seq<PhoneTypeView> {
    match v {
        Yaml::Str(t) => seq![phone_type_view_of(t@)],
        Yaml::Sequence(items) => spec_phone_types_list(items@),
        _ => seq![PhoneTypeView::Other],
    }
}

/// The email kind tags a list of scalars yields; non-strings are skipped.
pub open spec fn spec_email_types_list(items: Seq<Yaml>) -> Seq<EmailTypeView>
    decreases items.len(),
{
    if items.len() == 0 {
        Seq::empty()
    } else {
        let rest = spec_email_types_list(items.drop_first());
        match items[0] {
            Yaml::Str(t) => seq![email_type_view_of(t@)] + rest,
            _ => rest,
        }
    }
}

/// The email kind tags a `type` value yields.
pub open spec fn spec_email_types(v: Yaml) -> Seq<EmailTypeView> {
    match v {
        Yaml::Str(t) => seq![email_type_view_of(t@)],
        Yaml::Sequence(items) => spec_email_types_list(items@),
        _ => seq![EmailTypeView::Other],
    }
}

/// A phone object before any of its keys are read.
pub open spec fn init_phone_view() -> PhoneView {
    PhoneView {
        number: Seq::empty(),
        types: seq![PhoneTypeView::Other],
        ext: None,
        preferred: None,
        label: None,
    }
}

/// How one key of a phone object updates the record; later keys win.
pub open spec fn spec_phone_object_step(acc: PhoneView, k: Seq<char>, v: Yaml) -> Result<
    PhoneView,
    ParseErrorView,
> {
    if k == "number"@ {
        match v {
            Yaml::Str(n) => if phone_normalizes(n@) {
                Ok(PhoneView { number: normalized_phone(n@), ..acc })
            } else {
                Err(ParseErrorView::Phone("Invalid phone number: "@ + n@))
            },
            _ => Ok(acc),
        }
    } else if k == "type"@ {
        Ok(PhoneView { types: spec_phone_types(v), ..acc })
    } else if k == "ext"@ {
        Ok(PhoneView { ext: as_str_opt(v), ..acc })
    } else if k == "preferred"@ {
        Ok(PhoneView { preferred: as_bool_opt(v), ..acc })
    } else if k == "label"@ {
        Ok(PhoneView { label: as_str_opt(v), ..acc })
    } else {
        Ok(acc)
    }
}

/// The fold of a phone object's entries; non-string keys are skipped.
pub open spec fn spec_phone_object_fold(entries: Seq<(Yaml, Yaml)>, acc: PhoneView) -> Result<
    PhoneView,
    ParseErrorView,
>
    decreases entries.len(),
{
    if entries.len() == 0 {
        Ok(acc)
    } else {
        match entries[0].0 {
            Yaml::Str(k) => match spec_phone_object_step(acc, k@, entries[0].1) {
                Ok(acc2) => spec_phone_object_fold(entries.drop_first(), acc2),
                Err(e) => Err(e),
            },
            _ => spec_phone_object_fold(entries.drop_first(), acc),
        }
    }
}

/// What a phone object mapping yields.
pub open spec fn spec_phone_object(v: Yaml) -> Result<PhoneView, ParseErrorView> {
    match v {
        Yaml::Mapping(entries) => spec_phone_object_fold(entries@, init_phone_view()),
        _ => Err(ParseErrorView::Schema("Invalid phone object"@)),
    }
}

/// What a list of phone items yields: strings carry the default tags,
/// mappings decode as phone objects, anything else is skipped.
pub open spec fn spec_phones_items(items: Seq<Yaml>, defaults: Seq<PhoneTypeView>) -> Result<
    Seq<PhoneView>,
    ParseErrorView,
>
    decreases items.len(),
{
    if items.len() == 0 {
        Ok(Seq::empty())
    } else {
        let head: Option<Result<PhoneView, ParseErrorView>> = match items[0] {
            Yaml::Str(t) => Some(spec_phone_string(t@, defaults)),
            Yaml::Mapping(es) => Some(spec_phone_object(items[0])),
            _ => None,
        };
        match head {
            Some(Result::Err(e)) => Err(e),
            Some(Result::Ok(p)) => match spec_phones_items(items.drop_first(), defaults) {
                Ok(ps) => Ok(seq![p] + ps),
                Err(e) => Err(e),
            },
            None => spec_phones_items(items.drop_first(), defaults),
        }
    }
}

/// What a shorthand field's value yields as phones tagged with the defaults:
/// a single string, a list, or — for any other scalar — the empty string,
/// which fails normalization.
pub open spec fn spec_value_to_phones(v: Yaml, defaults: Seq<PhoneTypeView>) -> Result<
    Seq<PhoneView>,
    ParseErrorView,
> {
    match v {
        Yaml::Str(t) => match spec_phone_string(t@, defaults) {
            Ok(p) => Ok(seq![p]),
            Err(e) => Err(e),
        },
        Yaml::Sequence(items) => spec_phones_items(items@, defaults),
        _ => match spec_phone_string(Seq::empty(), defaults) {
            Ok(p) => Ok(seq![p]),
            Err(e) => Err(e),
        },
    }
}

/// What an explicit `phones` field yields.
pub open spec fn spec_phones_field(v: Yaml) -> Result<Seq<PhoneView>, ParseErrorView> {
    match v {
        Yaml::Str(t) => match spec_phone_string(t@, seq![PhoneTypeView::Other]) {
            Ok(p) => Ok(seq![p]),
            Err(e) => Err(e),
        },
        Yaml::Sequence(items) => spec_phones_items(items@, seq![PhoneTypeView::Other]),
        Yaml::Mapping(es) => match spec_phone_object(v) {
            Ok(p) => Ok(seq![p]),
            Err(e) => Err(e),
        },
        _ => Err(ParseErrorView::Schema("Invalid phones format"@)),
    }
}

/// An email record before any of its keys are read.
pub open spec fn init_email_view() -> EmailView {
    EmailView { address: Seq::empty(), types: seq![EmailTypeView::Other], preferred: None }
}

/// How one key of an email object updates the record; later keys win. A
/// non-string `address` value leaves the address empty.
pub open spec fn spec_email_object_step(acc: EmailView, k: Seq<char>, v: Yaml) -> EmailView {
    if k == "address"@ {
        EmailView {
            address: match as_str_opt(v) {
                Some(a) => a,
                None => Seq::empty(),
            },
            ..acc
        }
    } else if k == "type"@ {
        EmailView { types: spec_email_types(v), ..acc }
    } else if k == "preferred"@ {
        EmailView { preferred: as_bool_opt(v), ..acc }
    } else {
        acc
    }
}

/// The fold of an email object's entries; non-string keys are skipped.
pub open spec fn spec_email_object_fold(entries: Seq<(Yaml, Yaml)>, acc: EmailView) -> EmailView
    decreases entries.len(),
{
    if entries.len() == 0 {
        acc
    } else {
        match entries[0].0 {
            Yaml::Str(k) => spec_email_object_fold(
                entries.drop_first(),
                spec_email_object_step(acc, k@, entries[0].1),
            ),
            _ => spec_email_object_fold(entries.drop_first(), acc),
        }
    }
}

/// What an email object mapping yields.
pub open spec fn spec_email_object(v: Yaml) -> Result<EmailView, ParseErrorView> {
    match v {
        Yaml::Mapping(entries) => Ok(spec_email_object_fold(entries@, init_email_view())),
        _ => Err(ParseErrorView::Schema("Invalid email object"@)),
    }
}

/// What a list of email items yields: strings become plain records tagged
/// `Other`, mappings decode as email objects, anything else is skipped.
pub open spec fn spec_emails_items(items: Seq<Yaml>) -> Result<Seq<EmailView>, ParseErrorView>
    decreases items.len(),
{
    if items.len() == 0 {
        Ok(Seq::empty())
    } else {
        let head: Option<Result<EmailView, ParseErrorView>> = match items[0] {
            Yaml::Str(a) => Some(
                Ok(EmailView { address: a@, types: seq![EmailTypeView::Other], preferred: None }),
            ),
            Yaml::Mapping(es) => Some(spec_email_object(items[0])),
            _ => None,
        };
        match head {
            Some(Result::Err(e)) => Err(e),
            Some(Result::Ok(em)) => match spec_emails_items(items.drop_first()) {
                Ok(ems) => Ok(seq![em] + ems),
                Err(e) => Err(e),
            },
            None => spec_emails_items(items.drop_first()),
        }
    }
}

/// What an `emails` field yields, mirroring the phone coercion: a single
/// string, a list of items, or one email object mapping; any other scalar
/// yields the empty list.
pub open spec fn spec_emails_field(v: Yaml) -> Result<Seq<EmailView>, ParseErrorView> {
    match v {
        Yaml::Str(a) => Ok(
            seq![EmailView { address: a@, types: seq![EmailTypeView::Other], preferred: None }],
        ),
        Yaml::Sequence(items) => spec_emails_items(items@),
        Yaml::Mapping(es) => match spec_email_object(v) {
            Ok(em) => Ok(seq![em]),
            Err(e) => Err(e),
        },
        _ => Ok(Seq::empty()),
    }
}

/// The canonical name a raw key resolves to: its alias where one is defined,
/// else the raw key itself.
pub open spec fn resolved_key(m: AliasManagerView, k: Seq<char>, locale: Option<&str>) -> Seq<
    char,
> {
    match spec_resolve_key(m, k, locale) {
        Some(a) => a,
        None => k,
    }
}

/// The strings a list value yields; non-strings are skipped.
pub open spec fn spec_strs_of(items: Seq<Yaml>) -> Seq<Seq<char>>
    decreases items.len(),
{
    if items.len() == 0 {
        Seq::empty()
    } else {
        let rest = spec_strs_of(items.drop_first());
        match items[0] {
            Yaml::Str(t) => seq![t@] + rest,
            _ => rest,
        }
    }
}

/// The string list a value coerces to: a single string, a list of strings,
/// or nothing.
pub open spec fn spec_string_vec(v: Yaml) -> Seq<Seq<char>> {
    match v {
        Yaml::Str(t) => seq![t@],
        Yaml::Sequence(items) => spec_strs_of(items@),
        _ => Seq::empty(),
    }
}

/// How one sub-key of a name mapping updates the record, after alias
/// resolution of the sub-key.
pub open spec fn spec_name_step(
    m: AliasManagerView,
    locale: Option<&str>,
    acc: NameView,
    k: Seq<char>,
    v: Yaml,
) -> NameView {
    let rk = resolved_key(m, k, locale);
    if rk == "name.givenName"@ {
        NameView { given_name: Some(spec_string_vec(v)), ..acc }
    } else if rk == "name.familyName"@ {
        NameView { family_name: Some(spec_string_vec(v)), ..acc }
    } else if rk == "name.displayName"@ {
        NameView { display_name: as_str_opt(v), ..acc }
    } else {
        acc
    }
}

/// The fold of a name mapping's entries.
pub open spec fn spec_name_fold(
    m: AliasManagerView,
    locale: Option<&str>,
    entries: Seq<(Yaml, Yaml)>,
    acc: NameView,
) -> NameView
    decreases entries.len(),
{
    if entries.len() == 0 {
        acc
    } else {
        match entries[0].0 {
            Yaml::Str(k) => spec_name_fold(
                m,
                locale,
                entries.drop_first(),
                spec_name_step(m, locale, acc, k@, entries[0].1),
            ),
            _ => spec_name_fold(m, locale, entries.drop_first(), acc),
        }
    }
}

/// What a `name` value yields: a bare string becomes the display name alone;
/// a mapping decodes sub-keys through the alias store.
pub open spec fn spec_name_value(m: AliasManagerView, locale: Option<&str>, v: Yaml) -> Result<
    NameView,
    ParseErrorView,
> {
    match v {
        Yaml::Str(t) => Ok(NameView { display_name: Some(t@), ..empty_name_view() }),
        Yaml::Mapping(entries) => Ok(spec_name_fold(m, locale, entries@, empty_name_view())),
        _ => Err(ParseErrorView::Schema("Invalid name format"@)),
    }
}

/// The fold of a metadata mapping's entries.
pub open spec fn spec_metadata_fold(entries: Seq<(Yaml, Yaml)>, acc: MetadataView) -> MetadataView
    decreases entries.len(),
{
    if entries.len() == 0 {
        acc
    } else {
        let acc2 = match entries[0].0 {
            Yaml::Str(k) => if k@ == "locale"@ {
                MetadataView { locale: as_str_opt(entries[0].1), ..acc }
            } else if k@ == "source"@ {
                MetadataView { source: as_str_opt(entries[0].1), ..acc }
            } else {
                acc
            },
            _ => acc,
        };
        spec_metadata_fold(entries.drop_first(), acc2)
    }
}

/// What a `metadata` value yields.
pub open spec fn spec_metadata_value(v: Yaml) -> Result<MetadataView, ParseErrorView> {
    match v {
        Yaml::Mapping(entries) => Ok(
            spec_metadata_fold(entries@, MetadataView { locale: None, source: None }),
        ),
        _ => Err(ParseErrorView::Schema("Invalid metadata format"@)),
    }
}

/// The shorthand tag of a raw key: where its canonical alias has the form
/// `phones.type:<TAG>`, the tag; else nothing.
pub open spec fn spec_shorthand_tag(m: AliasManagerView, locale: Option<&str>, k: Seq<char>)
    -> Option<Seq<char>> {
    let rk = resolved_key(m, k, locale);
    if has_prefix(rk, "phones.type:"@) {
        Some(rk.skip("phones.type:"@.len() as int))
    } else {
        None
    }
}

/// The phones the shorthand pass collects, in key order.
pub open spec fn spec_shorthand_fold(
    m: AliasManagerView,
    locale: Option<&str>,
    entries: Seq<(Yaml, Yaml)>,
) -> Result<Seq<PhoneView>, ParseErrorView>
    decreases entries.len(),
{
    if entries.len() == 0 {
        Ok(Seq::empty())
    } else {
        let head: Option<Result<Seq<PhoneView>, ParseErrorView>> = match entries[0].0 {
            Yaml::Str(k) => match spec_shorthand_tag(m, locale, k@) {
                Some(tag) => Some(
                    spec_value_to_phones(entries[0].1, seq![phone_type_view_of(tag)]),
                ),
                None => None,
            },
            _ => None,
        };
        match head {
            Some(Result::Err(e)) => Err(e),
            Some(Result::Ok(ps)) => match spec_shorthand_fold(m, locale, entries.drop_first()) {
                Ok(rest) => Ok(ps + rest),
                Err(e) => Err(e),
            },
            None => spec_shorthand_fold(m, locale, entries.drop_first()),
        }
    }
}

/// How one top-level key updates the document, after alias resolution;
/// shorthand keys were consumed by the earlier pass and are skipped here.
/// A `version` outside `0..=255` is ignored, and any unrecognized canonical
/// name (`manager` among them — the document model has no such field) is
/// silently dropped.
pub open spec fn spec_dispatch_step(
    m: AliasManagerView,
    locale: Option<&str>,
    acc: YCardView,
    k: Seq<char>,
    v: Yaml,
) -> Result<YCardView, ParseErrorView> {
    let rk = resolved_key(m, k, locale);
    if spec_shorthand_tag(m, locale, k) is Some {
        Ok(acc)
    } else if rk == "version"@ {
        Ok(
            match v {
                Yaml::Int(i) => if 0 <= i <= 255 {
                    YCardView { version: i as u8, ..acc }
                } else {
                    acc
                },
                _ => acc,
            },
        )
    } else if rk == "uid"@ {
        Ok(
            match v {
                Yaml::Str(t) => YCardView { uid: Some(t@), ..acc },
                _ => acc,
            },
        )
    } else if rk == "name"@ {
        match spec_name_value(m, locale, v) {
            Ok(n) => Ok(YCardView { name: Some(n), ..acc }),
            Err(e) => Err(e),
        }
    } else if rk == "phones"@ {
        match spec_phones_field(v) {
            Ok(ps) => Ok(YCardView { phones: Some(ps), ..acc }),
            Err(e) => Err(e),
        }
    } else if rk == "emails"@ {
        match spec_emails_field(v) {
            Ok(es) => Ok(YCardView { emails: Some(es), ..acc }),
            Err(e) => Err(e),
        }
    } else if rk == "addresses"@ {
        Ok(YCardView { addresses: Some(Seq::empty()), ..acc })
    } else if rk == "metadata"@ {
        match spec_metadata_value(v) {
            Ok(md) => Ok(YCardView { metadata: Some(md), ..acc }),
            Err(e) => Err(e),
        }
    } else {
        Ok(acc)
    }
}

/// The fold of the canonical field pass over the top-level entries.
pub open spec fn spec_dispatch_fold(
    m: AliasManagerView,
    locale: Option<&str>,
    entries: Seq<(Yaml, Yaml)>,
    acc: YCardView,
) -> Result<YCardView, ParseErrorView>
    decreases entries.len(),
{
    if entries.len() == 0 {
        Ok(acc)
    } else {
        match entries[0].0 {
            Yaml::Str(k) => match spec_dispatch_step(m, locale, acc, k@, entries[0].1) {
                Ok(acc2) => spec_dispatch_fold(m, locale, entries.drop_first(), acc2),
                Err(e) => Err(e),
            },
            _ => spec_dispatch_fold(m, locale, entries.drop_first(), acc),
        }
    }
}

/// What the document assembler yields from a generic value: the shorthand
/// pass populates the phone list, then the canonical field pass dispatches
/// every remaining key; a non-mapping input is a schema error. Where both
/// shorthand phone keys and an explicit `phones` key appear, the explicit
/// field overwrites the shorthand result — last write wins, no merge.
pub open spec fn spec_assemble(m: AliasManagerView, locale: Option<&str>, v: Yaml) -> Result<
    YCardView,
    ParseErrorView,
> {
    match v {
        Yaml::Mapping(entries) => match spec_shorthand_fold(m, locale, entries@) {
            Err(e) => Err(e),
            Ok(sh) => {
                let start = if sh.len() > 0 {
                    YCardView { phones: Some(sh), ..default_ycard_view() }
                } else {
                    default_ycard_view()
                };
                spec_dispatch_fold(m, locale, entries@, start)
            },
        },
        _ => Err(ParseErrorView::Schema("yCard must be a mapping"@)),
    }
}

/// The copy of `v[a..b]`.
fn vec_subrange(v: &Vec<char>, a: usize, b: usize) -> (r: Vec<char>)
    requires
        a <= b <= v@.len(),
    ensures
        r@ == v@.subrange(a as int, b as int),
{
    let mut r: Vec<char> = Vec::new();
    let mut i: usize = a;
    while i < b
        invariant
            a <= i <= b <= v@.len(),
            r@ == v@.subrange(a as int, i as int),
        decreases b - i,
    {
        r.push(v[i]);
        proof {
            assert(r@ =~= v@.subrange(a as int, i + 1 as int));
        }
        i = i + 1;
    }
    r
}

/// The kept characters of a raw phone number: its digits, with a single
/// leading `+` where one precedes them.
fn filter_phone_chars(v: &Vec<char>) -> (r: Vec<char>)
    ensures
        r@ == phone_filtered(v@),
{
    let mut digits: Vec<char> = Vec::new();
    let mut plus = false;
    let mut decided = false;
    let mut i: usize = 0;
    proof {
        assert(v@.skip(0) =~= v@);
    }
    while i < v.len()
        invariant
            i <= v@.len(),
            digits@ == phone_digits(v@.take(i as int)),
            decided ==> plus_before_digits(v@) == plus,
            !decided ==> !plus && plus_before_digits(v@) == plus_before_digits(
                v@.skip(i as int),
            ),
        decreases v@.len() - i,
    {
        let c = v[i];
        let u = c as u32;
        proof {
            assert(v@.skip(i as int).drop_first() =~= v@.skip(i + 1 as int));
            assert(v@.skip(i as int)[0] == c);
        }
        if '0' as u32 <= u && u <= '9' as u32 {
            digits.push(c);
            if !decided {
                decided = true;
            }
        } else if c == '+' {
            if !decided {
                decided = true;
                plus = true;
            }
        }
        proof {
            reveal(Seq::filter);
            assert(v@.take(i + 1 as int).drop_last() =~= v@.take(i as int));
            assert(v@.take(i + 1 as int).last() == c);
        }
        i = i + 1;
    }
    proof {
        assert(v@.take(v@.len() as int) =~= v@);
        if !decided {
            assert(v@.skip(v@.len() as int) =~= Seq::<char>::empty());
        }
    }
    if plus {
        digits.insert(0, '+');
        proof {
            assert(digits@ =~= seq!['+'] + phone_digits(v@));
        }
    }
    digits
}

/// The first index where `pat` occurs in `s`, scanning left to right.
fn find_sub_vec(s: &Vec<char>, pat: &Vec<char>) -> (r: Option<usize>)
    ensures
        r matches Some(i) ==> find_sub(s@, pat@) == Some(i as int) && i as int + pat@.len()
            <= s@.len(),
        r is None ==> find_sub(s@, pat@) is None,
{
    if pat.len() == 0 {
        return Some(0);
    }
    if s.len() < pat.len() {
        return None;
    }
    let mut i: usize = 0;
    proof {
        assert(s@.skip(0) =~= s@);
    }
    while i <= s.len() - pat.len()
        invariant
            pat@.len() > 0,
            pat@.len() <= s@.len(),
            i as int + pat@.len() <= s@.len() + 1,
            match find_sub(s@.skip(i as int), pat@) {
                Some(k) => find_sub(s@, pat@) == Some(i + k),
                None => find_sub(s@, pat@) is None,
            },
        decreases s@.len() - i,
    {
        let mut j: usize = 0;
        let mut hit = true;
        while j < pat.len()
            invariant
                s@.len() <= usize::MAX,
                i as int + pat@.len() <= s@.len(),
                j <= pat@.len(),
                hit == (forall|x: int| 0 <= x < j ==> s@[i + x] == pat@[x]),
            decreases pat@.len() - j,
        {
            if s[i + j] != pat[j] {
                hit = false;
                proof {
                    assert(s@[i + j as int] != pat@[j as int]);
                }
                j = pat.len();
            } else {
                j = j + 1;
            }
        }
        if hit {
            proof {
                assert(s@.skip(i as int).take(pat@.len() as int) =~= pat@);
            }
            return Some(i);
        }
        proof {
            assert(s@.skip(i as int).take(pat@.len() as int) != pat@) by {
                let w = choose|x: int| 0 <= x < pat@.len() && s@[i + x] != pat@[x];
                assert(s@.skip(i as int).take(pat@.len() as int)[w] == s@[i + w]);
            }
            assert(s@.skip(i as int).drop_first() =~= s@.skip(i + 1 as int));
        }
        i = i + 1;
    }
    proof {
        assert(s@.skip(i as int).len() < pat@.len());
    }
    None
}

/// The suffix of `v` with every leading repetition of `pat` removed.
fn strip_reps_vec(v: &Vec<char>, pat: &Vec<char>) -> (r: Vec<char>)
    ensures
        r@ == strip_prefix_reps(v@, pat@),
{
    if pat.len() == 0 {
        return vec_subrange(v, 0, v.len());
    }
    let mut j: usize = 0;
    proof {
        assert(v@.skip(0) =~= v@);
    }
    #[verifier::loop_isolation(true)]
    loop
        invariant
            pat@.len() > 0,
            j <= v@.len(),
            strip_prefix_reps(v@, pat@) == strip_prefix_reps(v@.skip(j as int), pat@),
        ensures
            j <= v@.len(),
            strip_prefix_reps(v@, pat@) == v@.skip(j as int),
        decreases v@.len() - j,
    {
        let rest = vec_subrange(v, j, v.len());
        proof {
            assert(v@.subrange(j as int, v@.len() as int) =~= v@.skip(j as int));
        }
        if !chars_has_prefix(&rest, pat) {
            proof {
                assert(strip_prefix_reps(v@.skip(j as int), pat@) == v@.skip(j as int));
            }
            break;
        }
        proof {
            assert(v@.skip(j as int).skip(pat@.len() as int) =~= v@.skip(j + pat@.len()));
        }
        j = j + pat.len();
    }
    let r = vec_subrange(v, j, v.len());
    proof {
        assert(v@.subrange(j as int, v@.len() as int) =~= v@.skip(j as int));
    }
    r
}

/// The views of a list of phone kind tags.
pub open spec fn phone_type_views(ts: Seq<PhoneType>) -> Seq<PhoneTypeView> {
    ts.map_values(|t: PhoneType| t@)
}

/// The views of a list of email kind tags.
pub open spec fn email_type_views(ts: Seq<EmailType>) -> Seq<EmailTypeView> {
    ts.map_values(|t: EmailType| t@)
}

/// The copied string value of a scalar, where it is one.
fn as_str_clone(v: &Yaml) -> (r: Option<String>)
    ensures
        crate::schema::opt_view(r) == as_str_opt(*v),
{
    match v {
        Yaml::Str(s) => Some(s.clone()),
        _ => None,
    }
}

/// The boolean value of a scalar, where it is one.
fn as_bool_read(v: &Yaml) -> (r: Option<bool>)
    ensures
        r == as_bool_opt(*v),
{
    match v {
        Yaml::Bool(b) => Some(*b),
        _ => None,
    }
}

/// The locale handed to token matching: the argument, or `"en"`.
fn locale_or_en<'a>(locale: Option<&'a str>) -> &'a str {
    match locale {
        Some(l) => l,
        None => "en",
    }
}

/// The yCard parser: an alias store plus the coercion pipeline.
pub struct Parser {
    alias_manager: AliasManager,
}

impl View for Parser {
    type V = AliasManagerView;

    closed spec fn view(&self) -> AliasManagerView {
        self.alias_manager@
    }
}

impl Parser {
    /// A parser over a fresh alias store holding only the fallback pack.
    pub fn new() -> (r: Self)
        ensures
            r@.default_locale == "en"@,
            r@.packs.len() == 1,
            crate::i18n::is_fallback_pack(r@.packs[0]),
    {
        Parser { alias_manager: AliasManager::new() }
    }

    /// A parser over the given alias store.
    pub fn with_alias_manager(alias_manager: AliasManager) -> (r: Self)
        ensures
            r@.packs == alias_manager@.packs,
            r@.default_locale == alias_manager@.default_locale,
    {
        Parser { alias_manager }
    }

    /// The canonical name of a raw field key: its alias where one is defined,
    /// else the raw key itself.
    fn normalize_field_key(&self, key: &str, locale: Option<&str>) -> (r: String)
        ensures
            r@ == resolved_key(self@, key@, locale),
    {
        match self.alias_manager.resolve_key_alias(key, locale) {
            Some(a) => a,
            None => key.to_owned(),
        }
    }

    /// Reduce a raw phone number to digits and `+`, and bring it to the
    /// canonical `+`-prefixed form; reject it where too little remains.
    fn normalize_phone_number(&self, number: &str) -> (r: Result<String, ParseError>)
        ensures
            r matches Ok(n) ==> phone_normalizes(number@) && n@ == normalized_phone(number@),
            r matches Err(e) ==> !phone_normalizes(number@) && e@ == ParseErrorView::Phone(
                "Invalid phone number: "@ + number@,
            ),
    {
        let cs = chars_vec(number);
        let f = filter_phone_chars(&cs);
        if f.len() > 0 && f[0] == '+' {
            Ok(string_of_chars(&f))
        } else if f.len() >= 10 {
            let mut out: Vec<char> = Vec::new();
            out.push('+');
            out.push('1');
            let mut i: usize = 0;
            while i < f.len()
                invariant
                    i <= f@.len(),
                    out@ == seq!['+', '1'] + f@.take(i as int),
                decreases f@.len() - i,
            {
                out.push(f[i]);
                proof {
                    assert(out@ =~= seq!['+', '1'] + f@.take(i + 1 as int));
                }
                i = i + 1;
            }
            proof {
                reveal_strlit("+1");
                assert(out@ =~= "+1"@ + f@);
            }
            Ok(string_of_chars(&out))
        } else {
            Err(ParseError::Phone(concat_str("Invalid phone number: ", number)))
        }
    }

    /// Split a raw phone string at an `ext` marker, normalize the number
    /// part, and keep the defaults as its kind tags.
    fn parse_phone_string(
        &self,
        s: &str,
        default_types: Vec<PhoneType>,
        _locale: Option<&str>,
    ) -> (r: Result<Phone, ParseError>)
        ensures
            r matches Ok(p) ==> spec_phone_string(s@, phone_type_views(default_types@)) == Ok::<PhoneView, ParseErrorView>(p@),
            r matches Err(e) ==> spec_phone_string(s@, phone_type_views(default_types@))
                == Err::<PhoneView, ParseErrorView>(e@),
    {
        let cs = chars_vec(s);
        let pat = chars_vec("ext");
        let mut numv: Vec<char>;
        let mut extopt: Option<String>;
        match find_sub_vec(&cs, &pat) {
            Some(p) => {
                let pre = vec_subrange(&cs, 0, p);
                proof {
                    assert(cs@.subrange(0, p as int) =~= cs@.take(p as int));
                }
                numv = trim_vec(&pre);
                let suf = vec_subrange(&cs, p, cs.len());
                proof {
                    assert(cs@.subrange(p as int, cs@.len() as int) =~= cs@.skip(p as int));
                }
                let s1 = strip_reps_vec(&suf, &pat);
                let dot = chars_vec(".");
                let s2 = strip_reps_vec(&s1, &dot);
                let ev = trim_vec(&s2);
                extopt = Some(string_of_chars(&ev));
            },
            None => {
                numv = trim_vec(&cs);
                extopt = None;
            },
        }
        let num_str = string_of_chars(&numv);
        match self.normalize_phone_number(num_str.as_str()) {
            Ok(n) => Ok(
                Phone { number: n, types: default_types, ext: extopt, preferred: None, label: None },
            ),
            Err(e) => Err(e),
        }
    }

    /// The phone kind tags of a `type` value.
    fn parse_phone_types(&self, value: &Yaml, locale: Option<&str>) -> (r: Vec<PhoneType>)
        ensures
            phone_type_views(r@) == spec_phone_types(*value),
    {
        match value {
            Yaml::Str(t) => {
                let mut r: Vec<PhoneType> = Vec::new();
                r.push(PhoneType::from_str_with_locale(t.as_str(), locale_or_en(locale)));
                proof {
                    assert(phone_type_views(r@) =~= spec_phone_types(*value));
                }
                r
            },
            Yaml::Sequence(items) => {
                let mut r: Vec<PhoneType> = Vec::new();
                let mut i: usize = 0;
                proof {
                    assert(items@.skip(0) =~= items@);
                    assert(phone_type_views(r@) + spec_phone_types_list(items@) =~= spec_phone_types_list(items@));
                }
                while i < items.len()
                    invariant
                        i <= items@.len(),
                        spec_phone_types_list(items@) == phone_type_views(r@)
                            + spec_phone_types_list(items@.skip(i as int)),
                    decreases items@.len() - i,
                {
                    proof {
                        assert(items@.skip(i as int).drop_first() =~= items@.skip(i + 1 as int));
                    }
                    let ghost old_r = r@;
                    match &items[i] {
                        Yaml::Str(t) => {
                            r.push(PhoneType::from_str_with_locale(t.as_str(), locale_or_en(locale)));
                            proof {
                                assert(phone_type_views(r@) =~= phone_type_views(old_r) + seq![
                                    phone_type_view_of(t@),
                                ]);
                                assert(phone_type_views(old_r) + (seq![phone_type_view_of(t@)]
                                    + spec_phone_types_list(items@.skip(i + 1 as int)))
                                    =~= phone_type_views(r@) + spec_phone_types_list(
                                    items@.skip(i + 1 as int),
                                ));
                            }
                        },
                        _ => {},
                    }
                    i = i + 1;
                }
                proof {
                    assert(items@.skip(items@.len() as int) =~= Seq::<Yaml>::empty());
                    assert(phone_type_views(r@) + spec_phone_types_list(items@.skip(
                        items@.len() as int,
                    )) =~= phone_type_views(r@));
                }
                r
            },
            _ => {
                let mut r: Vec<PhoneType> = Vec::new();
                r.push(PhoneType::Other);
                proof {
                    assert(phone_type_views(r@) =~= spec_phone_types(*value));
                }
                r
            },
        }
    }

    /// Decode a phone object mapping; later keys win, a `number` key that
    /// fails normalization is a phone error.
    fn parse_phone_object(&self, value: &Yaml, locale: Option<&str>) -> (r: Result<
        Phone,
        ParseError,
    >)
        ensures
            r matches Ok(p) ==> spec_phone_object(*value) == Ok::<PhoneView, ParseErrorView>(p@),
            r matches Err(e) ==> spec_phone_object(*value) == Err::<PhoneView, ParseErrorView>(e@),
    {
        match value {
            Yaml::Mapping(map) => {
                let mut phone = Phone {
                    number: String::new(),
                    types: Vec::new(),
                    ext: None,
                    preferred: None,
                    label: None,
                };
                phone.types.push(PhoneType::Other);
                proof {
                    assert(phone@ =~= init_phone_view());
                    assert(map@.skip(0) =~= map@);
                }
                let mut i: usize = 0;
                while i < map.len()
                    invariant
                        i <= map@.len(),
                        spec_phone_object_fold(map@, init_phone_view()) == spec_phone_object_fold(
                            map@.skip(i as int),
                            phone@,
                        ),
                    decreases map@.len() - i,
                {
                    proof {
                        assert(map@.skip(i as int).drop_first() =~= map@.skip(i + 1 as int));
                    }
                    match &map[i].0 {
                        Yaml::Str(k) => {
                            if crate::chars::str_eq(k.as_str(), "number") {
                                match &map[i].1 {
                                    Yaml::Str(num) => {
                                        match self.normalize_phone_number(num.as_str()) {
                                            Ok(n) => {
                                                phone.number = n;
                                            },
                                            Err(e) => {
                                                proof {
                                                    assert(map@.skip(i as int)[0]
                                                        == map@[i as int]);
                                                }
                                                return Err(e);
                                            },
                                        }
                                    },
                                    _ => {},
                                }
                            } else if crate::chars::str_eq(k.as_str(), "type") {
                                phone.types = self.parse_phone_types(&map[i].1, locale);
                                proof {
                                    assert(phone@ =~= PhoneView {
                                        types: spec_phone_types(map@[i as int].1),
                                        ..phone@
                                    });
                                }
                            } else if crate::chars::str_eq(k.as_str(), "ext") {
                                phone.ext = as_str_clone(&map[i].1);
                            } else if crate::chars::str_eq(k.as_str(), "preferred") {
                                phone.preferred = as_bool_read(&map[i].1);
                            } else if crate::chars::str_eq(k.as_str(), "label") {
                                phone.label = as_str_clone(&map[i].1);
                            }
                        },
                        _ => {},
                    }
                    i = i + 1;
                }
                proof {
                    assert(map@.skip(map@.len() as int) =~= Seq::<(Yaml, Yaml)>::empty());
                }
                Ok(phone)
            },
            _ => Err(ParseError::Schema("Invalid phone object".to_owned())),
        }
    }
}

/// The views of a list of phone records.
pub open spec fn phone_views(ps: Seq<Phone>) -> Seq<PhoneView> {
    ps.map_values(|p: Phone| p@)
}

/// The views of a list of email records.
pub open spec fn email_views(es: Seq<Email>) -> Seq<EmailView> {
    es.map_values(|e: Email| e@)
}

/// A copy of one phone kind tag.
fn copy_phone_type(t: &PhoneType) -> (r: PhoneType)
    ensures
        r == *t,
{
    match t {
        PhoneType::Home => PhoneType::Home,
        PhoneType::Work => PhoneType::Work,
        PhoneType::Mobile => PhoneType::Mobile,
        PhoneType::Fax => PhoneType::Fax,
        PhoneType::Pager => PhoneType::Pager,
        PhoneType::Main => PhoneType::Main,
        PhoneType::Other => PhoneType::Other,
        PhoneType::Custom(t) => PhoneType::Custom(t.clone()),
    }
}

/// A copy of a list of phone kind tags.
fn copy_phone_types(v: &Vec<PhoneType>) -> (r: Vec<PhoneType>)
    ensures
        r@ == v@,
{
    let mut r: Vec<PhoneType> = Vec::new();
    let mut i: usize = 0;
    while i < v.len()
        invariant
            i <= v@.len(),
            r@ == v@.take(i as int),
        decreases v@.len() - i,
    {
        r.push(copy_phone_type(&v[i]));
        proof {
            assert(r@ =~= v@.take(i + 1 as int));
        }
        i = i + 1;
    }
    proof {
        assert(v@.take(v@.len() as int) =~= v@);
    }
    r
}

impl Parser {
    /// Coerce a list of phone items, each string carrying the default tags.
    fn phones_from_items(
        &self,
        items: &Vec<Yaml>,
        default_types: &Vec<PhoneType>,
        locale: Option<&str>,
    ) -> (r: Result<Vec<Phone>, ParseError>)
        ensures
            r matches Ok(ps) ==> spec_phones_items(items@, phone_type_views(default_types@))
                == Ok::<Seq<PhoneView>, ParseErrorView>(phone_views(ps@)),
            r matches Err(e) ==> spec_phones_items(items@, phone_type_views(default_types@))
                == Err::<Seq<PhoneView>, ParseErrorView>(e@),
    {
        let ghost dv = phone_type_views(default_types@);
        let mut acc: Vec<Phone> = Vec::new();
        let mut i: usize = 0;
        proof {
            assert(items@.skip(0) =~= items@);
            assert(phone_views(acc@) =~= Seq::<PhoneView>::empty());
            assert(phone_views(acc@) + spec_phones_items(items@, dv)->Ok_0 =~= spec_phones_items(
                items@,
                dv,
            )->Ok_0);
        }
        while i < items.len()
            invariant
                i <= items@.len(),
                match spec_phones_items(items@.skip(i as int), dv) {
                    Ok(ps) => spec_phones_items(items@, dv) == Ok::<
                        Seq<PhoneView>,
                        ParseErrorView,
                    >(phone_views(acc@) + ps),
                    Err(e) => spec_phones_items(items@, dv) == Err::<
                        Seq<PhoneView>,
                        ParseErrorView,
                    >(e),
                },
            decreases items@.len() - i,
        {
            proof {
                assert(items@.skip(i as int).drop_first() =~= items@.skip(i + 1 as int));
                assert(items@.skip(i as int)[0] == items@[i as int]);
            }
            let ghost old_acc = acc@;
            match &items[i] {
                Yaml::Str(t) => {
                    match self.parse_phone_string(t.as_str(), copy_phone_types(default_types), locale) {
                        Ok(p) => {
                            acc.push(p);
                            proof {
                                assert(phone_views(acc@) =~= phone_views(old_acc) + seq![p@]);
                            }
                        },
                        Err(e) => {
                            return Err(e);
                        },
                    }
                },
                Yaml::Mapping(es) => {
                    match self.parse_phone_object(&items[i], locale) {
                        Ok(p) => {
                            acc.push(p);
                            proof {
                                assert(phone_views(acc@) =~= phone_views(old_acc) + seq![p@]);
                            }
                        },
                        Err(e) => {
                            return Err(e);
                        },
                    }
                },
                _ => {},
            }
            proof {
                if spec_phones_items(items@.skip(i + 1 as int), dv) is Ok {
                    assert(phone_views(old_acc) + (spec_phones_items(items@.skip(i as int), dv)
                        ->Ok_0) =~= phone_views(acc@) + (spec_phones_items(
                        items@.skip(i + 1 as int),
                        dv,
                    )->Ok_0));
                }
            }
            i = i + 1;
        }
        proof {
            assert(items@.skip(items@.len() as int) =~= Seq::<Yaml>::empty());
            assert(phone_views(acc@) + Seq::<PhoneView>::empty() =~= phone_views(acc@));
        }
        Ok(acc)
    }

    /// Coerce a shorthand field's value into phones tagged with the defaults.
    fn value_to_phones(
        &self,
        value: &Yaml,
        default_types: Vec<PhoneType>,
        locale: Option<&str>,
    ) -> (r: Result<Vec<Phone>, ParseError>)
        ensures
            r matches Ok(ps) ==> spec_value_to_phones(*value, phone_type_views(default_types@))
                == Ok::<Seq<PhoneView>, ParseErrorView>(phone_views(ps@)),
            r matches Err(e) ==> spec_value_to_phones(*value, phone_type_views(default_types@))
                == Err::<Seq<PhoneView>, ParseErrorView>(e@),
    {
        match value {
            Yaml::Str(t) => match self.parse_phone_string(t.as_str(), default_types, locale) {
                Ok(p) => {
                    let mut ps: Vec<Phone> = Vec::new();
                    ps.push(p);
                    proof {
                        assert(phone_views(ps@) =~= seq![p@]);
                    }
                    Ok(ps)
                },
                Err(e) => Err(e),
            },
            Yaml::Sequence(items) => self.phones_from_items(items, &default_types, locale),
            _ => match self.parse_phone_string("", default_types, locale) {
                Ok(p) => {
                    let mut ps: Vec<Phone> = Vec::new();
                    ps.push(p);
                    proof {
                        assert(phone_views(ps@) =~= seq![p@]);
                    }
                    proof {
                        reveal_strlit("");
                        assert(""@ =~= Seq::<char>::empty());
                    }
                    Ok(ps)
                },
                Err(e) => {
                    proof {
                        reveal_strlit("");
                        assert(""@ =~= Seq::<char>::empty());
                    }
                    Err(e)
                },
            },
        }
    }

    /// Coerce an explicit `phones` field.
    fn extract_phones(&self, value: &Yaml, locale: Option<&str>) -> (r: Result<
        Vec<Phone>,
        ParseError,
    >)
        ensures
            r matches Ok(ps) ==> spec_phones_field(*value) == Ok::<
                Seq<PhoneView>,
                ParseErrorView,
            >(phone_views(ps@)),
            r matches Err(e) ==> spec_phones_field(*value) == Err::<
                Seq<PhoneView>,
                ParseErrorView,
            >(e@),
    {
        match value {
            Yaml::Str(t) => {
                let mut dts: Vec<PhoneType> = Vec::new();
                dts.push(PhoneType::Other);
                proof {
                    assert(phone_type_views(dts@) =~= seq![PhoneTypeView::Other]);
                }
                match self.parse_phone_string(t.as_str(), dts, locale) {
                    Ok(p) => {
                        let mut ps: Vec<Phone> = Vec::new();
                        ps.push(p);
                        proof {
                            assert(phone_views(ps@) =~= seq![p@]);
                        }
                        Ok(ps)
                    },
                    Err(e) => Err(e),
                }
            },
            Yaml::Sequence(items) => {
                let mut dts: Vec<PhoneType> = Vec::new();
                dts.push(PhoneType::Other);
                proof {
                    assert(phone_type_views(dts@) =~= seq![PhoneTypeView::Other]);
                }
                self.phones_from_items(items, &dts, locale)
            },
            Yaml::Mapping(es) => match self.parse_phone_object(value, locale) {
                Ok(p) => {
                    let mut ps: Vec<Phone> = Vec::new();
                    ps.push(p);
                    proof {
                        assert(phone_views(ps@) =~= seq![p@]);
                    }
                    Ok(ps)
                },
                Err(e) => Err(e),
            },
            _ => Err(ParseError::Schema("Invalid phones format".to_owned())),
        }
    }
}

impl Parser {
    /// The email kind tags of a `type` value.
    fn parse_email_types(&self, value: &Yaml, locale: Option<&str>) -> (r: Vec<EmailType>)
        ensures
            email_type_views(r@) == spec_email_types(*value),
    {
        match value {
            Yaml::Str(t) => {
                let mut r: Vec<EmailType> = Vec::new();
                r.push(EmailType::from_str_with_locale(t.as_str(), locale_or_en(locale)));
                proof {
                    assert(email_type_views(r@) =~= spec_email_types(*value));
                }
                r
            },
            Yaml::Sequence(items) => {
                let mut r: Vec<EmailType> = Vec::new();
                let mut i: usize = 0;
                proof {
                    assert(items@.skip(0) =~= items@);
                    assert(email_type_views(r@) + spec_email_types_list(items@)
                        =~= spec_email_types_list(items@));
                }
                while i < items.len()
                    invariant
                        i <= items@.len(),
                        spec_email_types_list(items@) == email_type_views(r@)
                            + spec_email_types_list(items@.skip(i as int)),
                    decreases items@.len() - i,
                {
                    proof {
                        assert(items@.skip(i as int).drop_first() =~= items@.skip(i + 1 as int));
                    }
                    let ghost old_r = r@;
                    match &items[i] {
                        Yaml::Str(t) => {
                            r.push(EmailType::from_str_with_locale(t.as_str(), locale_or_en(locale)));
                            proof {
                                assert(email_type_views(r@) =~= email_type_views(old_r) + seq![
                                    email_type_view_of(t@),
                                ]);
                                assert(email_type_views(old_r) + (seq![email_type_view_of(t@)]
                                    + spec_email_types_list(items@.skip(i + 1 as int)))
                                    =~= email_type_views(r@) + spec_email_types_list(
                                    items@.skip(i + 1 as int),
                                ));
                            }
                        },
                        _ => {},
                    }
                    i = i + 1;
                }
                proof {
                    assert(items@.skip(items@.len() as int) =~= Seq::<Yaml>::empty());
                    assert(email_type_views(r@) + spec_email_types_list(items@.skip(
                        items@.len() as int,
                    )) =~= email_type_views(r@));
                }
                r
            },
            _ => {
                let mut r: Vec<EmailType> = Vec::new();
                r.push(EmailType::Other);
                proof {
                    assert(email_type_views(r@) =~= spec_email_types(*value));
                }
                r
            },
        }
    }

    /// Decode an email object mapping; later keys win.
    fn parse_email_object(&self, value: &Yaml, locale: Option<&str>) -> (r: Result<
        Email,
        ParseError,
    >)
        ensures
            r matches Ok(em) ==> spec_email_object(*value) == Ok::<EmailView, ParseErrorView>(
                em@,
            ),
            r matches Err(e) ==> spec_email_object(*value) == Err::<EmailView, ParseErrorView>(
                e@,
            ),
    {
        match value {
            Yaml::Mapping(map) => {
                let mut email = Email { address: String::new(), types: Vec::new(), preferred: None };
                email.types.push(EmailType::Other);
                proof {
                    assert(email@ =~= init_email_view());
                    assert(map@.skip(0) =~= map@);
                }
                let mut i: usize = 0;
                while i < map.len()
                    invariant
                        i <= map@.len(),
                        spec_email_object_fold(map@, init_email_view()) == spec_email_object_fold(
                            map@.skip(i as int),
                            email@,
                        ),
                    decreases map@.len() - i,
                {
                    proof {
                        assert(map@.skip(i as int).drop_first() =~= map@.skip(i + 1 as int));
                        assert(map@.skip(i as int)[0] == map@[i as int]);
                    }
                    match &map[i].0 {
                        Yaml::Str(k) => {
                            if crate::chars::str_eq(k.as_str(), "address") {
                                match &map[i].1 {
                                    Yaml::Str(a) => {
                                        email.address = a.clone();
                                    },
                                    _ => {
                                        email.address = String::new();
                                    },
                                }
                            } else if crate::chars::str_eq(k.as_str(), "type") {
                                email.types = self.parse_email_types(&map[i].1, locale);
                                proof {
                                    assert(email@ =~= EmailView {
                                        types: spec_email_types(map@[i as int].1),
                                        ..email@
                                    });
                                }
                            } else if crate::chars::str_eq(k.as_str(), "preferred") {
                                email.preferred = as_bool_read(&map[i].1);
                            }
                        },
                        _ => {},
                    }
                    i = i + 1;
                }
                proof {
                    assert(map@.skip(map@.len() as int) =~= Seq::<(Yaml, Yaml)>::empty());
                }
                Ok(email)
            },
            _ => Err(ParseError::Schema("Invalid email object".to_owned())),
        }
    }

    /// Coerce an `emails` field.
    fn extract_emails(&self, value: &Yaml, locale: Option<&str>) -> (r: Result<
        Vec<Email>,
        ParseError,
    >)
        ensures
            r matches Ok(es) ==> spec_emails_field(*value) == Ok::<
                Seq<EmailView>,
                ParseErrorView,
            >(email_views(es@)),
            r matches Err(e) ==> spec_emails_field(*value) == Err::<
                Seq<EmailView>,
                ParseErrorView,
            >(e@),
    {
        match value {
            Yaml::Str(a) => {
                let mut em = Email { address: a.clone(), types: Vec::new(), preferred: None };
                em.types.push(EmailType::Other);
                let mut es: Vec<Email> = Vec::new();
                es.push(em);
                proof {
                    assert(email_views(es@) =~~= spec_emails_field(*value)->Ok_0);
                }
                Ok(es)
            },
            Yaml::Mapping(es) => match self.parse_email_object(value, locale) {
                Ok(em) => {
                    let mut out: Vec<Email> = Vec::new();
                    out.push(em);
                    proof {
                        assert(email_views(out@) =~= seq![em@]);
                    }
                    Ok(out)
                },
                Err(e) => Err(e),
            },
            Yaml::Sequence(items) => {
                let mut acc: Vec<Email> = Vec::new();
                let mut i: usize = 0;
                proof {
                    assert(items@.skip(0) =~= items@);
                    assert(email_views(acc@) + spec_emails_items(items@)->Ok_0 =~= spec_emails_items(
                        items@,
                    )->Ok_0);
                }
                while i < items.len()
                    invariant
                        i <= items@.len(),
                        match spec_emails_items(items@.skip(i as int)) {
                            Ok(es) => spec_emails_items(items@) == Ok::<
                                Seq<EmailView>,
                                ParseErrorView,
                            >(email_views(acc@) + es),
                            Err(e) => spec_emails_items(items@) == Err::<
                                Seq<EmailView>,
                                ParseErrorView,
                            >(e),
                        },
                    decreases items@.len() - i,
                {
                    proof {
                        assert(items@.skip(i as int).drop_first() =~= items@.skip(i + 1 as int));
                        assert(items@.skip(i as int)[0] == items@[i as int]);
                    }
                    let ghost old_acc = acc@;
                    match &items[i] {
                        Yaml::Str(a) => {
                            let mut em = Email {
                                address: a.clone(),
                                types: Vec::new(),
                                preferred: None,
                            };
                            em.types.push(EmailType::Other);
                            acc.push(em);
                            proof {
                                assert(email_views(acc@) =~~= email_views(old_acc) + seq![
                                    EmailView {
                                        address: a@,
                                        types: seq![EmailTypeView::Other],
                                        preferred: None,
                                    },
                                ]);
                            }
                        },
                        Yaml::Mapping(es) => {
                            match self.parse_email_object(&items[i], locale) {
                                Ok(em) => {
                                    acc.push(em);
                                    proof {
                                        assert(email_views(acc@) =~= email_views(old_acc) + seq![
                                            em@,
                                        ]);
                                    }
                                },
                                Err(e) => {
                                    return Err(e);
                                },
                            }
                        },
                        _ => {},
                    }
                    proof {
                        if spec_emails_items(items@.skip(i + 1 as int)) is Ok {
                            assert(email_views(old_acc) + (spec_emails_items(
                                items@.skip(i as int),
                            )->Ok_0) =~= email_views(acc@) + (spec_emails_items(
                                items@.skip(i + 1 as int),
                            )->Ok_0));
                        }
                    }
                    i = i + 1;
                }
                proof {
                    assert(items@.skip(items@.len() as int) =~= Seq::<Yaml>::empty());
                    assert(email_views(acc@) + Seq::<EmailView>::empty() =~= email_views(acc@));
                }
                Ok(acc)
            },
            _ => {
                let es: Vec<Email> = Vec::new();
                proof {
                    assert(email_views(es@) =~= Seq::<EmailView>::empty());
                }
                Ok(es)
            },
        }
    }

    /// The string list a value coerces to.
    fn value_to_string_vec(&self, value: &Yaml) -> (r: Vec<String>)
        ensures
            crate::chars::seq_views(r@) == spec_string_vec(*value),
    {
        match value {
            Yaml::Str(t) => {
                let mut r: Vec<String> = Vec::new();
                r.push(t.clone());
                proof {
                    assert(crate::chars::seq_views(r@) =~= spec_string_vec(*value));
                }
                r
            },
            Yaml::Sequence(items) => {
                let mut r: Vec<String> = Vec::new();
                let mut i: usize = 0;
                proof {
                    assert(items@.skip(0) =~= items@);
                    assert(crate::chars::seq_views(r@) + spec_strs_of(items@) =~= spec_strs_of(
                        items@,
                    ));
                }
                while i < items.len()
                    invariant
                        i <= items@.len(),
                        spec_strs_of(items@) == crate::chars::seq_views(r@) + spec_strs_of(
                            items@.skip(i as int),
                        ),
                    decreases items@.len() - i,
                {
                    proof {
                        assert(items@.skip(i as int).drop_first() =~= items@.skip(i + 1 as int));
                    }
                    let ghost old_r = r@;
                    match &items[i] {
                        Yaml::Str(t) => {
                            r.push(t.clone());
                            proof {
                                assert(crate::chars::seq_views(r@) =~= crate::chars::seq_views(
                                    old_r,
                                ) + seq![t@]);
                                assert(crate::chars::seq_views(old_r) + (seq![t@] + spec_strs_of(
                                    items@.skip(i + 1 as int),
                                )) =~= crate::chars::seq_views(r@) + spec_strs_of(
                                    items@.skip(i + 1 as int),
                                ));
                            }
                        },
                        _ => {},
                    }
                    i = i + 1;
                }
                proof {
                    assert(items@.skip(items@.len() as int) =~= Seq::<Yaml>::empty());
                    assert(crate::chars::seq_views(r@) + spec_strs_of(items@.skip(
                        items@.len() as int,
                    )) =~= crate::chars::seq_views(r@));
                }
                r
            },
            _ => {
                let r: Vec<String> = Vec::new();
                proof {
                    assert(crate::chars::seq_views(r@) =~= Seq::<Seq<char>>::empty());
                }
                r
            },
        }
    }

    /// Coerce a `name` value: a bare string sets the display name alone, a
    /// mapping decodes its sub-keys through the alias store.
    fn extract_name(&self, value: &Yaml, locale: Option<&str>) -> (r: Result<Name, ParseError>)
        ensures
            r matches Ok(n) ==> spec_name_value(self@, locale, *value) == Ok::<
                NameView,
                ParseErrorView,
            >(n@),
            r matches Err(e) ==> spec_name_value(self@, locale, *value) == Err::<
                NameView,
                ParseErrorView,
            >(e@),
    {
        match value {
            Yaml::Str(t) => {
                let name = Name {
                    given_name: None,
                    middle_name: None,
                    family_name: None,
                    honorific_prefix: None,
                    honorific_suffix: None,
                    display_name: Some(t.clone()),
                    script: None,
                };
                proof {
                    assert(name@ =~= spec_name_value(self@, locale, *value)->Ok_0);
                }
                Ok(name)
            },
            Yaml::Mapping(map) => {
                let mut name = Name {
                    given_name: None,
                    middle_name: None,
                    family_name: None,
                    honorific_prefix: None,
                    honorific_suffix: None,
                    display_name: None,
                    script: None,
                };
                proof {
                    assert(name@ =~= empty_name_view());
                    assert(map@.skip(0) =~= map@);
                }
                let mut i: usize = 0;
                while i < map.len()
                    invariant
                        i <= map@.len(),
                        spec_name_fold(self@, locale, map@, empty_name_view()) == spec_name_fold(
                            self@,
                            locale,
                            map@.skip(i as int),
                            name@,
                        ),
                    decreases map@.len() - i,
                {
                    proof {
                        assert(map@.skip(i as int).drop_first() =~= map@.skip(i + 1 as int));
                        assert(map@.skip(i as int)[0] == map@[i as int]);
                    }
                    match &map[i].0 {
                        Yaml::Str(k) => {
                            let rk = self.normalize_field_key(k.as_str(), locale);
                            if crate::chars::str_eq(rk.as_str(), "name.givenName") {
                                name.given_name = Some(self.value_to_string_vec(&map[i].1));
                                proof {
                                    assert(name@ =~= NameView {
                                        given_name: Some(spec_string_vec(map@[i as int].1)),
                                        ..name@
                                    });
                                }
                            } else if crate::chars::str_eq(rk.as_str(), "name.familyName") {
                                name.family_name = Some(self.value_to_string_vec(&map[i].1));
                                proof {
                                    assert(name@ =~= NameView {
                                        family_name: Some(spec_string_vec(map@[i as int].1)),
                                        ..name@
                                    });
                                }
                            } else if crate::chars::str_eq(rk.as_str(), "name.displayName") {
                                name.display_name = as_str_clone(&map[i].1);
                            }
                        },
                        _ => {},
                    }
                    i = i + 1;
                }
                proof {
                    assert(map@.skip(map@.len() as int) =~= Seq::<(Yaml, Yaml)>::empty());
                }
                Ok(name)
            },
            _ => Err(ParseError::Schema("Invalid name format".to_owned())),
        }
    }

    /// Coerce a `metadata` value.
    fn extract_metadata(&self, value: &Yaml) -> (r: Result<Metadata, ParseError>)
        ensures
            r matches Ok(md) ==> spec_metadata_value(*value) == Ok::<
                MetadataView,
                ParseErrorView,
            >(md@),
            r matches Err(e) ==> spec_metadata_value(*value) == Err::<
                MetadataView,
                ParseErrorView,
            >(e@),
    {
        match value {
            Yaml::Mapping(map) => {
                let mut md = Metadata { locale: None, source: None };
                proof {
                    assert(md@ =~= MetadataView { locale: None, source: None });
                    assert(map@.skip(0) =~= map@);
                }
                let mut i: usize = 0;
                while i < map.len()
                    invariant
                        i <= map@.len(),
                        spec_metadata_fold(map@, MetadataView { locale: None, source: None })
                            == spec_metadata_fold(map@.skip(i as int), md@),
                    decreases map@.len() - i,
                {
                    proof {
                        assert(map@.skip(i as int).drop_first() =~= map@.skip(i + 1 as int));
                        assert(map@.skip(i as int)[0] == map@[i as int]);
                    }
                    match &map[i].0 {
                        Yaml::Str(k) => {
                            if crate::chars::str_eq(k.as_str(), "locale") {
                                md.locale = as_str_clone(&map[i].1);
                            } else if crate::chars::str_eq(k.as_str(), "source") {
                                md.source = as_str_clone(&map[i].1);
                            }
                        },
                        _ => {},
                    }
                    i = i + 1;
                }
                proof {
                    assert(map@.skip(map@.len() as int) =~= Seq::<(Yaml, Yaml)>::empty());
                }
                Ok(md)
            },
            _ => Err(ParseError::Schema("Invalid metadata format".to_owned())),
        }
    }
}

/// Move every phone of `src` to the end of `dst`, in order.
fn append_phones(dst: &mut Vec<Phone>, src: Vec<Phone>)
    ensures
        final(dst)@ == old(dst)@ + src@,
{
    let ghost src0 = src@;
    let mut src = src;
    while src.len() > 0
        invariant
            dst@ + src@ == old(dst)@ + src0,
        decreases src@.len(),
    {
        let p = src.remove(0);
        dst.push(p);
        proof {
            assert(dst@ + src@ =~= old(dst)@ + src0);
        }
    }
    proof {
        assert(dst@ =~= dst@ + src@);
    }
}

impl Parser {
    /// The shorthand pass: collect phones from every top-level key whose
    /// canonical alias has the form `phones.type:<TAG>`, in key order.
    fn extract_shorthand_phones(&self, entries: &Vec<(Yaml, Yaml)>, locale: Option<&str>) -> (r:
        Result<Vec<Phone>, ParseError>)
        ensures
            r matches Ok(ps) ==> spec_shorthand_fold(self@, locale, entries@) == Ok::<
                Seq<PhoneView>,
                ParseErrorView,
            >(phone_views(ps@)),
            r matches Err(e) ==> spec_shorthand_fold(self@, locale, entries@) == Err::<
                Seq<PhoneView>,
                ParseErrorView,
            >(e@),
    {
        let mut acc: Vec<Phone> = Vec::new();
        let mut i: usize = 0;
        proof {
            assert(entries@.skip(0) =~= entries@);
            assert(phone_views(acc@) + spec_shorthand_fold(self@, locale, entries@)->Ok_0
                =~= spec_shorthand_fold(self@, locale, entries@)->Ok_0);
        }
        while i < entries.len()
            invariant
                i <= entries@.len(),
                match spec_shorthand_fold(self@, locale, entries@.skip(i as int)) {
                    Ok(rest) => spec_shorthand_fold(self@, locale, entries@) == Ok::<
                        Seq<PhoneView>,
                        ParseErrorView,
                    >(phone_views(acc@) + rest),
                    Err(e) => spec_shorthand_fold(self@, locale, entries@) == Err::<
                        Seq<PhoneView>,
                        ParseErrorView,
                    >(e),
                },
            decreases entries@.len() - i,
        {
            proof {
                assert(entries@.skip(i as int).drop_first() =~= entries@.skip(i + 1 as int));
                assert(entries@.skip(i as int)[0] == entries@[i as int]);
            }
            let ghost old_acc = acc@;
            match &entries[i].0 {
                Yaml::Str(k) => {
                    let rk = self.normalize_field_key(k.as_str(), locale);
                    let rkc = chars_vec(rk.as_str());
                    let pfx = chars_vec("phones.type:");
                    if chars_has_prefix(&rkc, &pfx) {
                        let tag = vec_subrange(&rkc, pfx.len(), rkc.len());
                        proof {
                            assert(tag@ =~= rk@.skip("phones.type:"@.len() as int));
                        }
                        let tag_s = string_of_chars(&tag);
                        let ptype = PhoneType::from_str_with_locale(
                            tag_s.as_str(),
                            locale_or_en(locale),
                        );
                        let mut dts: Vec<PhoneType> = Vec::new();
                        dts.push(ptype);
                        proof {
                            assert(phone_type_views(dts@) =~= seq![
                                phone_type_view_of(rk@.skip("phones.type:"@.len() as int)),
                            ]);
                        }
                        match self.value_to_phones(&entries[i].1, dts, locale) {
                            Ok(ps) => {
                                let ghost psv = ps@;
                                append_phones(&mut acc, ps);
                                proof {
                                    assert(phone_views(acc@) =~= phone_views(old_acc)
                                        + phone_views(psv));
                                    if spec_shorthand_fold(
                                        self@,
                                        locale,
                                        entries@.skip(i + 1 as int),
                                    ) is Ok {
                                        assert(phone_views(old_acc) + (phone_views(psv)
                                            + spec_shorthand_fold(
                                            self@,
                                            locale,
                                            entries@.skip(i + 1 as int),
                                        )->Ok_0) =~= phone_views(acc@) + spec_shorthand_fold(
                                            self@,
                                            locale,
                                            entries@.skip(i + 1 as int),
                                        )->Ok_0);
                                    }
                                }
                            },
                            Err(e) => {
                                return Err(e);
                            },
                        }
                    }
                },
                _ => {},
            }
            i = i + 1;
        }
        proof {
            assert(entries@.skip(entries@.len() as int) =~= Seq::<(Yaml, Yaml)>::empty());
            assert(phone_views(acc@) + Seq::<PhoneView>::empty() =~= phone_views(acc@));
        }
        Ok(acc)
    }

    /// Assemble a document from a generic value: the shorthand pass first,
    /// then the canonical field pass over every key.
    fn value_to_ycard(&self, value: Yaml, locale: Option<&str>) -> (r: Result<YCard, ParseError>)
        ensures
            r matches Ok(c) ==> spec_assemble(self@, locale, value) == Ok::<
                YCardView,
                ParseErrorView,
            >(c@),
            r matches Err(e) ==> spec_assemble(self@, locale, value) == Err::<
                YCardView,
                ParseErrorView,
            >(e@),
    {
        match value {
            Yaml::Mapping(entries) => {
                let sh = match self.extract_shorthand_phones(&entries, locale) {
                    Ok(sh) => sh,
                    Err(e) => {
                        return Err(e);
                    },
                };
                let mut card = YCard {
                    version: 1,
                    uid: None,
                    name: None,
                    phones: None,
                    emails: None,
                    addresses: None,
                    metadata: None,
                };
                if sh.len() > 0 {
                    card.phones = Some(sh);
                    proof {
                        assert(card@ =~~= YCardView {
                            phones: Some(
                                spec_shorthand_fold(self@, locale, entries@)->Ok_0,
                            ),
                            ..default_ycard_view()
                        });
                    }
                } else {
                    proof {
                        assert(card@ =~~= default_ycard_view());
                    }
                }
                let ghost start = if spec_shorthand_fold(self@, locale, entries@)->Ok_0.len() > 0 {
                    YCardView {
                        phones: Some(spec_shorthand_fold(self@, locale, entries@)->Ok_0),
                        ..default_ycard_view()
                    }
                } else {
                    default_ycard_view()
                };
                proof {
                    assert(card@ == start);
                    assert(entries@.skip(0) =~= entries@);
                }
                let mut i: usize = 0;
                while i < entries.len()
                    invariant
                        i <= entries@.len(),
                        spec_dispatch_fold(self@, locale, entries@, start) == spec_dispatch_fold(
                            self@,
                            locale,
                            entries@.skip(i as int),
                            card@,
                        ),
                    decreases entries@.len() - i,
                {
                    proof {
                        assert(entries@.skip(i as int).drop_first() =~= entries@.skip(
                            i + 1 as int,
                        ));
                        assert(entries@.skip(i as int)[0] == entries@[i as int]);
                    }
                    match &entries[i].0 {
                        Yaml::Str(k) => {
                            let rk = self.normalize_field_key(k.as_str(), locale);
                            let rkc = chars_vec(rk.as_str());
                            let pfx = chars_vec("phones.type:");
                            if chars_has_prefix(&rkc, &pfx) {
                            } else if crate::chars::str_eq(rk.as_str(), "version") {
                                match &entries[i].1 {
                                    Yaml::Int(n) => {
                                        if 0 <= *n && *n <= 255 {
                                            card.version = *n as u8;
                                        }
                                    },
                                    _ => {},
                                }
                            } else if crate::chars::str_eq(rk.as_str(), "uid") {
                                match &entries[i].1 {
                                    Yaml::Str(t) => {
                                        card.uid = Some(t.clone());
                                    },
                                    _ => {},
                                }
                            } else if crate::chars::str_eq(rk.as_str(), "name") {
                                match self.extract_name(&entries[i].1, locale) {
                                    Ok(n) => {
                                        card.name = Some(n);
                                    },
                                    Err(e) => {
                                        return Err(e);
                                    },
                                }
                            } else if crate::chars::str_eq(rk.as_str(), "phones") {
                                match self.extract_phones(&entries[i].1, locale) {
                                    Ok(ps) => {
                                        card.phones = Some(ps);
                                        proof {
                                            assert(card@ =~~= YCardView {
                                                phones: Some(
                                                    spec_phones_field(entries@[i as int].1)->Ok_0,
                                                ),
                                                ..card@
                                            });
                                        }
                                    },
                                    Err(e) => {
                                        return Err(e);
                                    },
                                }
                            } else if crate::chars::str_eq(rk.as_str(), "emails") {
                                match self.extract_emails(&entries[i].1, locale) {
                                    Ok(es) => {
                                        card.emails = Some(es);
                                        proof {
                                            assert(card@ =~~= YCardView {
                                                emails: Some(
                                                    spec_emails_field(entries@[i as int].1)->Ok_0,
                                                ),
                                                ..card@
                                            });
                                        }
                                    },
                                    Err(e) => {
                                        return Err(e);
                                    },
                                }
                            } else if crate::chars::str_eq(rk.as_str(), "addresses") {
                                card.addresses = Some(Vec::new());
                                proof {
                                    assert(card@ =~~= YCardView {
                                        addresses: Some(Seq::empty()),
                                        ..card@
                                    });
                                }
                            } else if crate::chars::str_eq(rk.as_str(), "metadata") {
                                match self.extract_metadata(&entries[i].1) {
                                    Ok(md) => {
                                        card.metadata = Some(md);
                                    },
                                    Err(e) => {
                                        return Err(e);
                                    },
                                }
                            }
                        },
                        _ => {},
                    }
                    i = i + 1;
                }
                proof {
                    assert(entries@.skip(entries@.len() as int) =~= Seq::<(Yaml, Yaml)>::empty());
                }
                Ok(card)
            },
            _ => Err(ParseError::Schema("yCard must be a mapping".to_owned())),
        }
    }

    /// Parse yCard text leniently: read a generic YAML value, then assemble
    /// it through the alias store under the given locale.
    pub fn parse_lenient(&self, input: &str, locale: Option<&str>) -> (r: Result<
        YCard,
        ParseError,
    >)
        ensures
            r matches Ok(c) ==> (yaml_of(input@) matches Some(v) && spec_assemble(
                self@,
                locale,
                v,
            ) == Ok::<YCardView, ParseErrorView>(c@)),
            r matches Err(e) ==> ((yaml_of(input@) is None && e@ is Yaml) || (yaml_of(input@)
                matches Some(v) && spec_assemble(self@, locale, v) == Err::<
                YCardView,
                ParseErrorView,
            >(e@))),
    {
        match parse_yaml_text(input) {
            Ok(v) => self.value_to_ycard(v, locale),
            Err(m) => Err(ParseError::Yaml(m)),
        }
    }
}

/// The phone kind tag a strict-mode scalar decodes to: the exact lowercase
/// variant names, anything else as `Custom`.
pub open spec fn strict_phone_type_of(t: Seq<char>) -> PhoneTypeView {
    if t == "home"@ {
        PhoneTypeView::Home
    } else if t == "work"@ {
        PhoneTypeView::Work
    } else if t == "mobile"@ {
        PhoneTypeView::Mobile
    } else if t == "fax"@ {
        PhoneTypeView::Fax
    } else if t == "pager"@ {
        PhoneTypeView::Pager
    } else if t == "main"@ {
        PhoneTypeView::Main
    } else if t == "other"@ {
        PhoneTypeView::Other
    } else {
        PhoneTypeView::Custom(t)
    }
}

/// The email kind tag a strict-mode scalar decodes to.
pub open spec fn strict_email_type_of(t: Seq<char>) -> EmailTypeView {
    if t == "home"@ {
        EmailTypeView::Home
    } else if t == "work"@ {
        EmailTypeView::Work
    } else if t == "other"@ {
        EmailTypeView::Other
    } else {
        EmailTypeView::Custom(t)
    }
}

/// An optional string field in strict mode: absent or null is `None`, a
/// string is itself, anything else refuses.
pub open spec fn strict_opt_str(o: Option<Yaml>) -> Option<Option<Seq<char>>> {
    match o {
        Option::None => Some(Option::None),
        Option::Some(v) => match v {
            Yaml::Null => Some(Option::None),
            Yaml::Str(t) => Some(Some(t@)),
            _ => Option::None,
        },
    }
}

/// An optional boolean field in strict mode.
pub open spec fn strict_opt_bool(o: Option<Yaml>) -> Option<Option<bool>> {
    match o {
        Option::None => Some(Option::None),
        Option::Some(v) => match v {
            Yaml::Null => Some(Option::None),
            Yaml::Bool(b) => Some(Some(b)),
            _ => Option::None,
        },
    }
}

/// A list of strings in strict mode; any non-string item refuses.
pub open spec fn strict_strs(items: Seq<Yaml>) -> Option<Seq<Seq<char>>>
    decreases items.len(),
{
    if items.len() == 0 {
        Some(Seq::empty())
    } else {
        match items[0] {
            Yaml::Str(t) => match strict_strs(items.drop_first()) {
                Some(rest) => Some(seq![t@] + rest),
                Option::None => Option::None,
            },
            _ => Option::None,
        }
    }
}

/// An optional list-of-strings field in strict mode.
pub open spec fn strict_opt_strs(o: Option<Yaml>) -> Option<Option<Seq<Seq<char>>>> {
    match o {
        Option::None => Some(Option::None),
        Option::Some(v) => match v {
            Yaml::Null => Some(Option::None),
            Yaml::Sequence(items) => match strict_strs(items@) {
                Some(ss) => Some(Some(ss)),
                Option::None => Option::None,
            },
            _ => Option::None,
        },
    }
}

/// A phone kind list in strict mode: a sequence of scalar tokens.
pub open spec fn strict_phone_types(items: Seq<Yaml>) -> Option<Seq<PhoneTypeView>>
    decreases items.len(),
{
    if items.len() == 0 {
        Some(Seq::empty())
    } else {
        match items[0] {
            Yaml::Str(t) => match strict_phone_types(items.drop_first()) {
                Some(rest) => Some(seq![strict_phone_type_of(t@)] + rest),
                Option::None => Option::None,
            },
            _ => Option::None,
        }
    }
}

/// An email kind list in strict mode.
pub open spec fn strict_email_types(items: Seq<Yaml>) -> Option<Seq<EmailTypeView>>
    decreases items.len(),
{
    if items.len() == 0 {
        Some(Seq::empty())
    } else {
        match items[0] {
            Yaml::Str(t) => match strict_email_types(items.drop_first()) {
                Some(rest) => Some(seq![strict_email_type_of(t@)] + rest),
                Option::None => Option::None,
            },
            _ => Option::None,
        }
    }
}

/// A phone record in strict mode: `number` and `type` are required, the
/// rest optional.
pub open spec fn strict_phone(v: Yaml) -> Option<PhoneView> {
    match v {
        Yaml::Mapping(es) => {
            let number = match yaml_get(es@, "number"@) {
                Some(Yaml::Str(n)) => Some(n@),
                _ => Option::None,
            };
            let types = match yaml_get(es@, "type"@) {
                Some(Yaml::Sequence(items)) => strict_phone_types(items@),
                _ => Option::None,
            };
            let ext = strict_opt_str(yaml_get(es@, "ext"@));
            let preferred = strict_opt_bool(yaml_get(es@, "preferred"@));
            let label = strict_opt_str(yaml_get(es@, "label"@));
            if number is Some && types is Some && ext is Some && preferred is Some && label
                is Some {
                Some(
                    PhoneView {
                        number: number->0,
                        types: types->0,
                        ext: ext->0,
                        preferred: preferred->0,
                        label: label->0,
                    },
                )
            } else {
                Option::None
            }
        },
        _ => Option::None,
    }
}

/// An email record in strict mode: `address` and `type` are required.
pub open spec fn strict_email(v: Yaml) -> Option<EmailView> {
    match v {
        Yaml::Mapping(es) => {
            let address = match yaml_get(es@, "address"@) {
                Some(Yaml::Str(a)) => Some(a@),
                _ => Option::None,
            };
            let types = match yaml_get(es@, "type"@) {
                Some(Yaml::Sequence(items)) => strict_email_types(items@),
                _ => Option::None,
            };
            let preferred = strict_opt_bool(yaml_get(es@, "preferred"@));
            if address is Some && types is Some && preferred is Some {
                Some(
                    EmailView { address: address->0, types: types->0, preferred: preferred->0 },
                )
            } else {
                Option::None
            }
        },
        _ => Option::None,
    }
}

/// A phone list in strict mode.
pub open spec fn strict_phones(items: Seq<Yaml>) -> Option<Seq<PhoneView>>
    decreases items.len(),
{
    if items.len() == 0 {
        Some(Seq::empty())
    } else {
        match strict_phone(items[0]) {
            Some(p) => match strict_phones(items.drop_first()) {
                Some(rest) => Some(seq![p] + rest),
                Option::None => Option::None,
            },
            Option::None => Option::None,
        }
    }
}

/// An email list in strict mode.
pub open spec fn strict_emails(items: Seq<Yaml>) -> Option<Seq<EmailView>>
    decreases items.len(),
{
    if items.len() == 0 {
        Some(Seq::empty())
    } else {
        match strict_email(items[0]) {
            Some(em) => match strict_emails(items.drop_first()) {
                Some(rest) => Some(seq![em] + rest),
                Option::None => Option::None,
            },
            Option::None => Option::None,
        }
    }
}


/// The address kind tag a strict-mode scalar decodes to.
pub open spec fn strict_address_type_of(t: Seq<char>) -> AddressTypeView {
    if t == "home"@ {
        AddressTypeView::Home
    } else if t == "work"@ {
        AddressTypeView::Work
    } else if t == "other"@ {
        AddressTypeView::Other
    } else {
        AddressTypeView::Custom(t)
    }
}

/// An address kind list in strict mode.
pub open spec fn strict_address_types(items: Seq<Yaml>) -> Option<Seq<AddressTypeView>>
    decreases items.len(),
{
    if items.len() == 0 {
        Some(Seq::empty())
    } else {
        match items[0] {
            Yaml::Str(t) => match strict_address_types(items.drop_first()) {
                Some(rest) => Some(seq![strict_address_type_of(t@)] + rest),
                Option::None => Option::None,
            },
            _ => Option::None,
        }
    }
}

/// Structured address components in strict mode: a mapping of five optional
/// strings.
pub open spec fn strict_components(v: Yaml) -> Option<AddressComponentsView> {
    match v {
        Yaml::Mapping(es) => {
            let street = strict_opt_str(yaml_get(es@, "street"@));
            let locality = strict_opt_str(yaml_get(es@, "locality"@));
            let region = strict_opt_str(yaml_get(es@, "region"@));
            let postal_code = strict_opt_str(yaml_get(es@, "postalCode"@));
            let country = strict_opt_str(yaml_get(es@, "country"@));
            if street is Some && locality is Some && region is Some && postal_code is Some
                && country is Some {
                Some(
                    AddressComponentsView {
                        street: street->0,
                        locality: locality->0,
                        region: region->0,
                        postal_code: postal_code->0,
                        country: country->0,
                    },
                )
            } else {
                Option::None
            }
        },
        _ => Option::None,
    }
}

/// An address record in strict mode: `type` is required, `formatted` and
/// `components` optional.
pub open spec fn strict_address(v: Yaml) -> Option<AddressView> {
    match v {
        Yaml::Mapping(es) => {
            let types = match yaml_get(es@, "type"@) {
                Some(Yaml::Sequence(items)) => strict_address_types(items@),
                _ => Option::None,
            };
            let formatted = strict_opt_str(yaml_get(es@, "formatted"@));
            let components: Option<Option<AddressComponentsView>> = match yaml_get(
                es@,
                "components"@,
            ) {
                Option::None => Some(Option::None),
                Option::Some(cv) => match cv {
                    Yaml::Null => Some(Option::None),
                    _ => match strict_components(cv) {
                        Some(c) => Some(Some(c)),
                        Option::None => Option::None,
                    },
                },
            };
            if types is Some && formatted is Some && components is Some {
                Some(
                    AddressView {
                        types: types->0,
                        formatted: formatted->0,
                        components: components->0,
                    },
                )
            } else {
                Option::None
            }
        },
        _ => Option::None,
    }
}

/// An address list in strict mode.
pub open spec fn strict_addresses(items: Seq<Yaml>) -> Option<Seq<AddressView>>
    decreases items.len(),
{
    if items.len() == 0 {
        Some(Seq::empty())
    } else {
        match strict_address(items[0]) {
            Some(a) => match strict_addresses(items.drop_first()) {
                Some(rest) => Some(seq![a] + rest),
                Option::None => Option::None,
            },
            Option::None => Option::None,
        }
    }
}

/// A name in strict mode: every part optional, under the canonical
/// camel-case keys.
pub open spec fn strict_name(v: Yaml) -> Option<NameView> {
    match v {
        Yaml::Mapping(es) => {
            let given = strict_opt_strs(yaml_get(es@, "givenName"@));
            let middle = strict_opt_strs(yaml_get(es@, "middleName"@));
            let family = strict_opt_strs(yaml_get(es@, "familyName"@));
            let prefix = strict_opt_strs(yaml_get(es@, "honorificPrefix"@));
            let suffix = strict_opt_strs(yaml_get(es@, "honorificSuffix"@));
            let display = strict_opt_str(yaml_get(es@, "displayName"@));
            let script = strict_opt_str(yaml_get(es@, "script"@));
            if given is Some && middle is Some && family is Some && prefix is Some && suffix
                is Some && display is Some && script is Some {
                Some(
                    NameView {
                        given_name: given->0,
                        middle_name: middle->0,
                        family_name: family->0,
                        honorific_prefix: prefix->0,
                        honorific_suffix: suffix->0,
                        display_name: display->0,
                        script: script->0,
                    },
                )
            } else {
                Option::None
            }
        },
        _ => Option::None,
    }
}

/// Metadata in strict mode.
pub open spec fn strict_metadata(v: Yaml) -> Option<MetadataView> {
    match v {
        Yaml::Mapping(es) => {
            let locale = strict_opt_str(yaml_get(es@, "locale"@));
            let source = strict_opt_str(yaml_get(es@, "source"@));
            if locale is Some && source is Some {
                Some(MetadataView { locale: locale->0, source: source->0 })
            } else {
                Option::None
            }
        },
        _ => Option::None,
    }
}

/// What strict-mode parsing yields from a generic value: the canonical
/// schema shape exactly — a required `version` in range, optional structured
/// fields under their canonical keys — or nothing.
pub open spec fn spec_strict_decode(v: Yaml) -> Option<YCardView> {
    match v {
        Yaml::Mapping(es) => {
            let version = match yaml_get(es@, "version"@) {
                Some(Yaml::Int(i)) => if 0 <= i <= 255 {
                    Some(i as u8)
                } else {
                    Option::None
                },
                _ => Option::None,
            };
            let uid = strict_opt_str(yaml_get(es@, "uid"@));
            let name = match yaml_get(es@, "name"@) {
                Option::None => Some(Option::None),
                Option::Some(nv) => match nv {
                    Yaml::Null => Some(Option::None),
                    _ => match strict_name(nv) {
                        Some(n) => Some(Some(n)),
                        Option::None => Option::None,
                    },
                },
            };
            let phones = match yaml_get(es@, "phones"@) {
                Option::None => Some(Option::None),
                Option::Some(pv) => match pv {
                    Yaml::Null => Some(Option::None),
                    Yaml::Sequence(items) => match strict_phones(items@) {
                        Some(ps) => Some(Some(ps)),
                        Option::None => Option::None,
                    },
                    _ => Option::None,
                },
            };
            let emails = match yaml_get(es@, "emails"@) {
                Option::None => Some(Option::None),
                Option::Some(ev) => match ev {
                    Yaml::Null => Some(Option::None),
                    Yaml::Sequence(items) => match strict_emails(items@) {
                        Some(ems) => Some(Some(ems)),
                        Option::None => Option::None,
                    },
                    _ => Option::None,
                },
            };
            let addresses: Option<Option<Seq<AddressView>>> = match yaml_get(
                es@,
                "addresses"@,
            ) {
                Option::None => Some(Option::None),
                Option::Some(av) => match av {
                    Yaml::Null => Some(Option::None),
                    Yaml::Sequence(items) => match strict_addresses(items@) {
                        Some(xs) => Some(Some(xs)),
                        Option::None => Option::None,
                    },
                    _ => Option::None,
                },
            };
            let metadata = match yaml_get(es@, "metadata"@) {
                Option::None => Some(Option::None),
                Option::Some(mv) => match mv {
                    Yaml::Null => Some(Option::None),
                    _ => match strict_metadata(mv) {
                        Some(md) => Some(Some(md)),
                        Option::None => Option::None,
                    },
                },
            };
            if version is Some && uid is Some && name is Some && phones is Some && emails
                is Some && addresses is Some && metadata is Some {
                Some(
                    YCardView {
                        version: version->0,
                        uid: uid->0,
                        name: name->0,
                        phones: phones->0,
                        emails: emails->0,
                        addresses: addresses->0,
                        metadata: metadata->0,
                    },
                )
            } else {
                Option::None
            }
        },
        _ => Option::None,
    }
}

/// Read an optional string field strictly.
fn read_opt_str(es: &Vec<(Yaml, Yaml)>, key: &str) -> (r: Option<Option<String>>)
    ensures
        r matches Some(o) ==> strict_opt_str(yaml_get(es@, key@)) == Some(
            crate::schema::opt_view(o),
        ),
        r is None ==> strict_opt_str(yaml_get(es@, key@)) is None,
{
    match yaml_find(es, key) {
        None => Some(None),
        Some(i) => match &es[i].1 {
            Yaml::Null => Some(None),
            Yaml::Str(t) => Some(Some(t.clone())),
            _ => None,
        },
    }
}

/// Read an optional boolean field strictly.
fn read_opt_bool(es: &Vec<(Yaml, Yaml)>, key: &str) -> (r: Option<Option<bool>>)
    ensures
        r matches Some(o) ==> strict_opt_bool(yaml_get(es@, key@)) == Some(o),
        r is None ==> strict_opt_bool(yaml_get(es@, key@)) is None,
{
    match yaml_find(es, key) {
        None => Some(None),
        Some(i) => match &es[i].1 {
            Yaml::Null => Some(None),
            Yaml::Bool(b) => Some(Some(*b)),
            _ => None,
        },
    }
}

/// Read a list of strings strictly.
fn read_strs(items: &Vec<Yaml>) -> (r: Option<Vec<String>>)
    ensures
        r matches Some(ss) ==> strict_strs(items@) == Some(crate::chars::seq_views(ss@)),
        r is None ==> strict_strs(items@) is None,
{
    let mut out: Vec<String> = Vec::new();
    let mut i: usize = 0;
    proof {
        assert(items@.skip(0) =~= items@);
        assert(crate::chars::seq_views(out@) + strict_strs(items@)->0 =~= strict_strs(items@)->0);
    }
    while i < items.len()
        invariant
            i <= items@.len(),
            match strict_strs(items@.skip(i as int)) {
                Some(rest) => strict_strs(items@) == Some(
                    crate::chars::seq_views(out@) + rest,
                ),
                None => strict_strs(items@) is None,
            },
        decreases items@.len() - i,
    {
        proof {
            assert(items@.skip(i as int).drop_first() =~= items@.skip(i + 1 as int));
            assert(items@.skip(i as int)[0] == items@[i as int]);
        }
        let ghost old_out = out@;
        match &items[i] {
            Yaml::Str(t) => {
                out.push(t.clone());
                proof {
                    assert(crate::chars::seq_views(out@) =~= crate::chars::seq_views(old_out)
                        + seq![t@]);
                    if strict_strs(items@.skip(i + 1 as int)) is Some {
                        assert(crate::chars::seq_views(old_out) + (seq![t@] + strict_strs(
                            items@.skip(i + 1 as int),
                        )->0) =~= crate::chars::seq_views(out@) + strict_strs(
                            items@.skip(i + 1 as int),
                        )->0);
                    }
                }
            },
            _ => {
                return None;
            },
        }
        i = i + 1;
    }
    proof {
        assert(items@.skip(items@.len() as int) =~= Seq::<Yaml>::empty());
        assert(crate::chars::seq_views(out@) + Seq::<Seq<char>>::empty() =~= crate::chars::seq_views(
            out@,
        ));
    }
    Some(out)
}

/// Read an optional list-of-strings field strictly.
fn read_opt_strs(es: &Vec<(Yaml, Yaml)>, key: &str) -> (r: Option<Option<Vec<String>>>)
    ensures
        r matches Some(o) ==> strict_opt_strs(yaml_get(es@, key@)) == Some(
            crate::schema::opt_strs_view(o),
        ),
        r is None ==> strict_opt_strs(yaml_get(es@, key@)) is None,
{
    match yaml_find(es, key) {
        None => Some(None),
        Some(i) => match &es[i].1 {
            Yaml::Null => Some(None),
            Yaml::Sequence(items) => match read_strs(items) {
                Some(ss) => Some(Some(ss)),
                None => None,
            },
            _ => None,
        },
    }
}

/// The strict decoding of one phone kind token.
fn read_strict_phone_type(t: &str) -> (r: PhoneType)
    ensures
        r@ == strict_phone_type_of(t@),
{
    if crate::chars::str_eq(t, "home") {
        PhoneType::Home
    } else if crate::chars::str_eq(t, "work") {
        PhoneType::Work
    } else if crate::chars::str_eq(t, "mobile") {
        PhoneType::Mobile
    } else if crate::chars::str_eq(t, "fax") {
        PhoneType::Fax
    } else if crate::chars::str_eq(t, "pager") {
        PhoneType::Pager
    } else if crate::chars::str_eq(t, "main") {
        PhoneType::Main
    } else if crate::chars::str_eq(t, "other") {
        PhoneType::Other
    } else {
        PhoneType::Custom(t.to_owned())
    }
}

/// The strict decoding of one email kind token.
fn read_strict_email_type(t: &str) -> (r: EmailType)
    ensures
        r@ == strict_email_type_of(t@),
{
    if crate::chars::str_eq(t, "home") {
        EmailType::Home
    } else if crate::chars::str_eq(t, "work") {
        EmailType::Work
    } else if crate::chars::str_eq(t, "other") {
        EmailType::Other
    } else {
        EmailType::Custom(t.to_owned())
    }
}

/// Read a phone kind list strictly.
fn read_strict_phone_types(items: &Vec<Yaml>) -> (r: Option<Vec<PhoneType>>)
    ensures
        r matches Some(ts) ==> strict_phone_types(items@) == Some(phone_type_views(ts@)),
        r is None ==> strict_phone_types(items@) is None,
{
    let mut out: Vec<PhoneType> = Vec::new();
    let mut i: usize = 0;
    proof {
        assert(items@.skip(0) =~= items@);
        assert(phone_type_views(out@) + strict_phone_types(items@)->0 =~= strict_phone_types(
            items@,
        )->0);
    }
    while i < items.len()
        invariant
            i <= items@.len(),
            match strict_phone_types(items@.skip(i as int)) {
                Some(rest) => strict_phone_types(items@) == Some(phone_type_views(out@) + rest),
                None => strict_phone_types(items@) is None,
            },
        decreases items@.len() - i,
    {
        proof {
            assert(items@.skip(i as int).drop_first() =~= items@.skip(i + 1 as int));
            assert(items@.skip(i as int)[0] == items@[i as int]);
        }
        let ghost old_out = out@;
        match &items[i] {
            Yaml::Str(t) => {
                out.push(read_strict_phone_type(t.as_str()));
                proof {
                    assert(phone_type_views(out@) =~= phone_type_views(old_out) + seq![
                        strict_phone_type_of(t@),
                    ]);
                    if strict_phone_types(items@.skip(i + 1 as int)) is Some {
                        assert(phone_type_views(old_out) + (seq![strict_phone_type_of(t@)]
                            + strict_phone_types(items@.skip(i + 1 as int))->0)
                            =~= phone_type_views(out@) + strict_phone_types(
                            items@.skip(i + 1 as int),
                        )->0);
                    }
                }
            },
            _ => {
                return None;
            },
        }
        i = i + 1;
    }
    proof {
        assert(items@.skip(items@.len() as int) =~= Seq::<Yaml>::empty());
        assert(phone_type_views(out@) + Seq::<PhoneTypeView>::empty() =~= phone_type_views(out@));
    }
    Some(out)
}

/// Read an email kind list strictly.
fn read_strict_email_types(items: &Vec<Yaml>) -> (r: Option<Vec<EmailType>>)
    ensures
        r matches Some(ts) ==> strict_email_types(items@) == Some(email_type_views(ts@)),
        r is None ==> strict_email_types(items@) is None,
{
    let mut out: Vec<EmailType> = Vec::new();
    let mut i: usize = 0;
    proof {
        assert(items@.skip(0) =~= items@);
        assert(email_type_views(out@) + strict_email_types(items@)->0 =~= strict_email_types(
            items@,
        )->0);
    }
    while i < items.len()
        invariant
            i <= items@.len(),
            match strict_email_types(items@.skip(i as int)) {
                Some(rest) => strict_email_types(items@) == Some(email_type_views(out@) + rest),
                None => strict_email_types(items@) is None,
            },
        decreases items@.len() - i,
    {
        proof {
            assert(items@.skip(i as int).drop_first() =~= items@.skip(i + 1 as int));
            assert(items@.skip(i as int)[0] == items@[i as int]);
        }
        let ghost old_out = out@;
        match &items[i] {
            Yaml::Str(t) => {
                out.push(read_strict_email_type(t.as_str()));
                proof {
                    assert(email_type_views(out@) =~= email_type_views(old_out) + seq![
                        strict_email_type_of(t@),
                    ]);
                    if strict_email_types(items@.skip(i + 1 as int)) is Some {
                        assert(email_type_views(old_out) + (seq![strict_email_type_of(t@)]
                            + strict_email_types(items@.skip(i + 1 as int))->0)
                            =~= email_type_views(out@) + strict_email_types(
                            items@.skip(i + 1 as int),
                        )->0);
                    }
                }
            },
            _ => {
                return None;
            },
        }
        i = i + 1;
    }
    proof {
        assert(items@.skip(items@.len() as int) =~= Seq::<Yaml>::empty());
        assert(email_type_views(out@) + Seq::<EmailTypeView>::empty() =~= email_type_views(out@));
    }
    Some(out)
}

/// Decode a phone record strictly.
fn read_strict_phone(v: &Yaml) -> (r: Option<Phone>)
    ensures
        r matches Some(p) ==> strict_phone(*v) == Some(p@),
        r is None ==> strict_phone(*v) is None,
{
    match v {
        Yaml::Mapping(es) => {
            let number = match yaml_find(es, "number") {
                Some(i) => match &es[i].1 {
                    Yaml::Str(n) => n.clone(),
                    _ => {
                        return None;
                    },
                },
                None => {
                    return None;
                },
            };
            let types = match yaml_find(es, "type") {
                Some(i) => match &es[i].1 {
                    Yaml::Sequence(items) => match read_strict_phone_types(items) {
                        Some(ts) => ts,
                        None => {
                            return None;
                        },
                    },
                    _ => {
                        return None;
                    },
                },
                None => {
                    return None;
                },
            };
            let ext = match read_opt_str(es, "ext") {
                Some(o) => o,
                None => {
                    return None;
                },
            };
            let preferred = match read_opt_bool(es, "preferred") {
                Some(o) => o,
                None => {
                    return None;
                },
            };
            let label = match read_opt_str(es, "label") {
                Some(o) => o,
                None => {
                    return None;
                },
            };
            Some(Phone { number, types, ext, preferred, label })
        },
        _ => None,
    }
}

/// Decode an email record strictly.
fn read_strict_email(v: &Yaml) -> (r: Option<Email>)
    ensures
        r matches Some(em) ==> strict_email(*v) == Some(em@),
        r is None ==> strict_email(*v) is None,
{
    match v {
        Yaml::Mapping(es) => {
            let address = match yaml_find(es, "address") {
                Some(i) => match &es[i].1 {
                    Yaml::Str(a) => a.clone(),
                    _ => {
                        return None;
                    },
                },
                None => {
                    return None;
                },
            };
            let types = match yaml_find(es, "type") {
                Some(i) => match &es[i].1 {
                    Yaml::Sequence(items) => match read_strict_email_types(items) {
                        Some(ts) => ts,
                        None => {
                            return None;
                        },
                    },
                    _ => {
                        return None;
                    },
                },
                None => {
                    return None;
                },
            };
            let preferred = match read_opt_bool(es, "preferred") {
                Some(o) => o,
                None => {
                    return None;
                },
            };
            Some(Email { address, types, preferred })
        },
        _ => None,
    }
}

/// Decode a phone list strictly.
fn read_strict_phones(items: &Vec<Yaml>) -> (r: Option<Vec<Phone>>)
    ensures
        r matches Some(ps) ==> strict_phones(items@) == Some(phone_views(ps@)),
        r is None ==> strict_phones(items@) is None,
{
    let mut out: Vec<Phone> = Vec::new();
    let mut i: usize = 0;
    proof {
        assert(items@.skip(0) =~= items@);
        assert(phone_views(out@) + strict_phones(items@)->0 =~= strict_phones(items@)->0);
    }
    while i < items.len()
        invariant
            i <= items@.len(),
            match strict_phones(items@.skip(i as int)) {
                Some(rest) => strict_phones(items@) == Some(phone_views(out@) + rest),
                None => strict_phones(items@) is None,
            },
        decreases items@.len() - i,
    {
        proof {
            assert(items@.skip(i as int).drop_first() =~= items@.skip(i + 1 as int));
            assert(items@.skip(i as int)[0] == items@[i as int]);
        }
        let ghost old_out = out@;
        match read_strict_phone(&items[i]) {
            Some(p) => {
                out.push(p);
                proof {
                    assert(phone_views(out@) =~= phone_views(old_out) + seq![p@]);
                    if strict_phones(items@.skip(i + 1 as int)) is Some {
                        assert(phone_views(old_out) + (seq![p@] + strict_phones(
                            items@.skip(i + 1 as int),
                        )->0) =~= phone_views(out@) + strict_phones(items@.skip(i + 1 as int))->0);
                    }
                }
            },
            None => {
                return None;
            },
        }
        i = i + 1;
    }
    proof {
        assert(items@.skip(items@.len() as int) =~= Seq::<Yaml>::empty());
        assert(phone_views(out@) + Seq::<PhoneView>::empty() =~= phone_views(out@));
    }
    Some(out)
}

/// Decode an email list strictly.
fn read_strict_emails(items: &Vec<Yaml>) -> (r: Option<Vec<Email>>)
    ensures
        r matches Some(es) ==> strict_emails(items@) == Some(email_views(es@)),
        r is None ==> strict_emails(items@) is None,
{
    let mut out: Vec<Email> = Vec::new();
    let mut i: usize = 0;
    proof {
        assert(items@.skip(0) =~= items@);
        assert(email_views(out@) + strict_emails(items@)->0 =~= strict_emails(items@)->0);
    }
    while i < items.len()
        invariant
            i <= items@.len(),
            match strict_emails(items@.skip(i as int)) {
                Some(rest) => strict_emails(items@) == Some(email_views(out@) + rest),
                None => strict_emails(items@) is None,
            },
        decreases items@.len() - i,
    {
        proof {
            assert(items@.skip(i as int).drop_first() =~= items@.skip(i + 1 as int));
            assert(items@.skip(i as int)[0] == items@[i as int]);
        }
        let ghost old_out = out@;
        match read_strict_email(&items[i]) {
            Some(em) => {
                out.push(em);
                proof {
                    assert(email_views(out@) =~= email_views(old_out) + seq![em@]);
                    if strict_emails(items@.skip(i + 1 as int)) is Some {
                        assert(email_views(old_out) + (seq![em@] + strict_emails(
                            items@.skip(i + 1 as int),
                        )->0) =~= email_views(out@) + strict_emails(items@.skip(i + 1 as int))->0);
                    }
                }
            },
            None => {
                return None;
            },
        }
        i = i + 1;
    }
    proof {
        assert(items@.skip(items@.len() as int) =~= Seq::<Yaml>::empty());
        assert(email_views(out@) + Seq::<EmailView>::empty() =~= email_views(out@));
    }
    Some(out)
}


/// The strict decoding of one address kind token.
fn read_strict_address_type(t: &str) -> (r: AddressType)
    ensures
        r@ == strict_address_type_of(t@),
{
    if crate::chars::str_eq(t, "home") {
        AddressType::Home
    } else if crate::chars::str_eq(t, "work") {
        AddressType::Work
    } else if crate::chars::str_eq(t, "other") {
        AddressType::Other
    } else {
        AddressType::Custom(t.to_owned())
    }
}

/// The views of a list of address kind tags.
pub open spec fn address_type_views(ts: Seq<AddressType>) -> Seq<AddressTypeView> {
    ts.map_values(|t: AddressType| t@)
}

/// Read an address kind list strictly.
fn read_strict_address_types(items: &Vec<Yaml>) -> (r: Option<Vec<AddressType>>)
    ensures
        r matches Some(ts) ==> strict_address_types(items@) == Some(address_type_views(ts@)),
        r is None ==> strict_address_types(items@) is None,
{
    let mut out: Vec<AddressType> = Vec::new();
    let mut i: usize = 0;
    proof {
        assert(items@.skip(0) =~= items@);
        assert(address_type_views(out@) + strict_address_types(items@)->0
            =~= strict_address_types(items@)->0);
    }
    while i < items.len()
        invariant
            i <= items@.len(),
            match strict_address_types(items@.skip(i as int)) {
                Some(rest) => strict_address_types(items@) == Some(
                    address_type_views(out@) + rest,
                ),
                None => strict_address_types(items@) is None,
            },
        decreases items@.len() - i,
    {
        proof {
            assert(items@.skip(i as int).drop_first() =~= items@.skip(i + 1 as int));
            assert(items@.skip(i as int)[0] == items@[i as int]);
        }
        let ghost old_out = out@;
        match &items[i] {
            Yaml::Str(t) => {
                out.push(read_strict_address_type(t.as_str()));
                proof {
                    assert(address_type_views(out@) =~= address_type_views(old_out) + seq![
                        strict_address_type_of(t@),
                    ]);
                    if strict_address_types(items@.skip(i + 1 as int)) is Some {
                        assert(address_type_views(old_out) + (seq![strict_address_type_of(t@)]
                            + strict_address_types(items@.skip(i + 1 as int))->0)
                            =~= address_type_views(out@) + strict_address_types(
                            items@.skip(i + 1 as int),
                        )->0);
                    }
                }
            },
            _ => {
                return None;
            },
        }
        i = i + 1;
    }
    proof {
        assert(items@.skip(items@.len() as int) =~= Seq::<Yaml>::empty());
        assert(address_type_views(out@) + Seq::<AddressTypeView>::empty() =~= address_type_views(
            out@,
        ));
    }
    Some(out)
}

/// Decode address components strictly.
fn read_strict_components(v: &Yaml) -> (r: Option<AddressComponents>)
    ensures
        r matches Some(c) ==> strict_components(*v) == Some(c@),
        r is None ==> strict_components(*v) is None,
{
    match v {
        Yaml::Mapping(es) => {
            let street = match read_opt_str(es, "street") {
                Some(o) => o,
                None => {
                    return None;
                },
            };
            let locality = match read_opt_str(es, "locality") {
                Some(o) => o,
                None => {
                    return None;
                },
            };
            let region = match read_opt_str(es, "region") {
                Some(o) => o,
                None => {
                    return None;
                },
            };
            let postal_code = match read_opt_str(es, "postalCode") {
                Some(o) => o,
                None => {
                    return None;
                },
            };
            let country = match read_opt_str(es, "country") {
                Some(o) => o,
                None => {
                    return None;
                },
            };
            Some(AddressComponents { street, locality, region, postal_code, country })
        },
        _ => None,
    }
}

/// Decode an address record strictly.
fn read_strict_address(v: &Yaml) -> (r: Option<Address>)
    ensures
        r matches Some(a) ==> strict_address(*v) == Some(a@),
        r is None ==> strict_address(*v) is None,
{
    match v {
        Yaml::Mapping(es) => {
            let types = match yaml_find(es, "type") {
                Some(i) => match &es[i].1 {
                    Yaml::Sequence(items) => match read_strict_address_types(items) {
                        Some(ts) => ts,
                        None => {
                            return None;
                        },
                    },
                    _ => {
                        return None;
                    },
                },
                None => {
                    return None;
                },
            };
            let formatted = match read_opt_str(es, "formatted") {
                Some(o) => o,
                None => {
                    return None;
                },
            };
            let components = match yaml_find(es, "components") {
                None => None,
                Some(i) => match &es[i].1 {
                    Yaml::Null => None,
                    _ => match read_strict_components(&es[i].1) {
                        Some(c) => Some(c),
                        None => {
                            return None;
                        },
                    },
                },
            };
            Some(Address { types, formatted, components })
        },
        _ => None,
    }
}

/// The views of a list of address records.
pub open spec fn address_views(xs: Seq<Address>) -> Seq<AddressView> {
    xs.map_values(|a: Address| a@)
}

/// Decode an address list strictly.
fn read_strict_addresses(items: &Vec<Yaml>) -> (r: Option<Vec<Address>>)
    ensures
        r matches Some(xs) ==> strict_addresses(items@) == Some(address_views(xs@)),
        r is None ==> strict_addresses(items@) is None,
{
    let mut out: Vec<Address> = Vec::new();
    let mut i: usize = 0;
    proof {
        assert(items@.skip(0) =~= items@);
        assert(address_views(out@) + strict_addresses(items@)->0 =~= strict_addresses(
            items@,
        )->0);
    }
    while i < items.len()
        invariant
            i <= items@.len(),
            match strict_addresses(items@.skip(i as int)) {
                Some(rest) => strict_addresses(items@) == Some(address_views(out@) + rest),
                None => strict_addresses(items@) is None,
            },
        decreases items@.len() - i,
    {
        proof {
            assert(items@.skip(i as int).drop_first() =~= items@.skip(i + 1 as int));
            assert(items@.skip(i as int)[0] == items@[i as int]);
        }
        let ghost old_out = out@;
        match read_strict_address(&items[i]) {
            Some(a) => {
                out.push(a);
                proof {
                    assert(address_views(out@) =~= address_views(old_out) + seq![a@]);
                    if strict_addresses(items@.skip(i + 1 as int)) is Some {
                        assert(address_views(old_out) + (seq![a@] + strict_addresses(
                            items@.skip(i + 1 as int),
                        )->0) =~= address_views(out@) + strict_addresses(
                            items@.skip(i + 1 as int),
                        )->0);
                    }
                }
            },
            None => {
                return None;
            },
        }
        i = i + 1;
    }
    proof {
        assert(items@.skip(items@.len() as int) =~= Seq::<Yaml>::empty());
        assert(address_views(out@) + Seq::<AddressView>::empty() =~= address_views(out@));
    }
    Some(out)
}

/// Decode a name strictly.
fn read_strict_name(v: &Yaml) -> (r: Option<Name>)
    ensures
        r matches Some(n) ==> strict_name(*v) == Some(n@),
        r is None ==> strict_name(*v) is None,
{
    match v {
        Yaml::Mapping(es) => {
            let given_name = match read_opt_strs(es, "givenName") {
                Some(o) => o,
                None => {
                    return None;
                },
            };
            let middle_name = match read_opt_strs(es, "middleName") {
                Some(o) => o,
                None => {
                    return None;
                },
            };
            let family_name = match read_opt_strs(es, "familyName") {
                Some(o) => o,
                None => {
                    return None;
                },
            };
            let honorific_prefix = match read_opt_strs(es, "honorificPrefix") {
                Some(o) => o,
                None => {
                    return None;
                },
            };
            let honorific_suffix = match read_opt_strs(es, "honorificSuffix") {
                Some(o) => o,
                None => {
                    return None;
                },
            };
            let display_name = match read_opt_str(es, "displayName") {
                Some(o) => o,
                None => {
                    return None;
                },
            };
            let script = match read_opt_str(es, "script") {
                Some(o) => o,
                None => {
                    return None;
                },
            };
            Some(
                Name {
                    given_name,
                    middle_name,
                    family_name,
                    honorific_prefix,
                    honorific_suffix,
                    display_name,
                    script,
                },
            )
        },
        _ => None,
    }
}

/// Decode metadata strictly.
fn read_strict_metadata(v: &Yaml) -> (r: Option<Metadata>)
    ensures
        r matches Some(md) ==> strict_metadata(*v) == Some(md@),
        r is None ==> strict_metadata(*v) is None,
{
    match v {
        Yaml::Mapping(es) => {
            let locale = match read_opt_str(es, "locale") {
                Some(o) => o,
                None => {
                    return None;
                },
            };
            let source = match read_opt_str(es, "source") {
                Some(o) => o,
                None => {
                    return None;
                },
            };
            Some(Metadata { locale, source })
        },
        _ => None,
    }
}

/// Decode a whole document strictly.
fn read_strict_card(v: &Yaml) -> (r: Option<YCard>)
    ensures
        r matches Some(c) ==> spec_strict_decode(*v) == Some(c@),
        r is None ==> spec_strict_decode(*v) is None,
{
    match v {
        Yaml::Mapping(es) => {
            let version: u8 = match yaml_find(es, "version") {
                Some(i) => match &es[i].1 {
                    Yaml::Int(n) => {
                        if 0 <= *n && *n <= 255 {
                            (*n) as u8
                        } else {
                            return None;
                        }
                    },
                    _ => {
                        return None;
                    },
                },
                None => {
                    return None;
                },
            };
            let uid = match read_opt_str(es, "uid") {
                Some(o) => o,
                None => {
                    return None;
                },
            };
            let name = match yaml_find(es, "name") {
                None => None,
                Some(i) => match &es[i].1 {
                    Yaml::Null => None,
                    _ => match read_strict_name(&es[i].1) {
                        Some(n) => Some(n),
                        None => {
                            return None;
                        },
                    },
                },
            };
            let phones = match yaml_find(es, "phones") {
                None => None,
                Some(i) => match &es[i].1 {
                    Yaml::Null => None,
                    Yaml::Sequence(items) => match read_strict_phones(items) {
                        Some(ps) => Some(ps),
                        None => {
                            return None;
                        },
                    },
                    _ => {
                        return None;
                    },
                },
            };
            let emails = match yaml_find(es, "emails") {
                None => None,
                Some(i) => match &es[i].1 {
                    Yaml::Null => None,
                    Yaml::Sequence(items) => match read_strict_emails(items) {
                        Some(ems) => Some(ems),
                        None => {
                            return None;
                        },
                    },
                    _ => {
                        return None;
                    },
                },
            };
            let addresses: Option<Vec<Address>> = match yaml_find(es, "addresses") {
                None => None,
                Some(i) => match &es[i].1 {
                    Yaml::Null => None,
                    Yaml::Sequence(items) => match read_strict_addresses(items) {
                        Some(xs) => Some(xs),
                        None => {
                            return None;
                        },
                    },
                    _ => {
                        return None;
                    },
                },
            };
            let metadata = match yaml_find(es, "metadata") {
                None => None,
                Some(i) => match &es[i].1 {
                    Yaml::Null => None,
                    _ => match read_strict_metadata(&es[i].1) {
                        Some(md) => Some(md),
                        None => {
                            return None;
                        },
                    },
                },
            };
            Some(YCard { version, uid, name, phones, emails, addresses, metadata })
        },
        _ => None,
    }
}

impl Parser {
    /// Parse yCard text strictly: the input must already match the canonical
    /// schema's field names and shapes exactly; no aliasing, no
    /// normalization.
    pub fn parse_strict(&self, input: &str) -> (r: Result<YCard, ParseError>)
        ensures
            r matches Ok(c) ==> (yaml_of(input@) matches Some(v) && spec_strict_decode(v) == Some(
                c@,
            )),
            r matches Err(e) ==> e@ is Yaml && (yaml_of(input@) is None || (yaml_of(input@)
                matches Some(v) && spec_strict_decode(v) is None)),
    {
        match parse_yaml_text(input) {
            Ok(v) => match read_strict_card(&v) {
                Some(c) => Ok(c),
                None => Err(
                    ParseError::Yaml("input does not match the canonical yCard schema".to_owned()),
                ),
            },
            Err(m) => Err(ParseError::Yaml(m)),
        }
    }
}

} // verus!

//! The canonical formatter: renders a document as canonical YAML text with
//! two-space indentation, and as a generic value whose strict re-parse
//! yields the document back.

use vstd::prelude::*;
use crate::chars::chars_vec;
use crate::parser::{
    spec_strict_decode, strict_address, strict_address_type_of, strict_address_types,
    strict_addresses, strict_components, strict_email, strict_email_type_of, strict_email_types,
    strict_emails, strict_metadata, strict_name, strict_opt_bool, strict_opt_str,
    strict_opt_strs, strict_phone, strict_phone_type_of, strict_phone_types, strict_phones,
    strict_strs,
};
use crate::schema::{
    Address, AddressView, Email, EmailView, Name, NameView, Phone, PhoneView, YCard, YCardView,
};
use crate::types::{
    AddressType, AddressTypeView, EmailType, EmailTypeView, PhoneType, PhoneTypeView,
};
use crate::validate::dec_of;
use crate::yaml::{yaml_get, Yaml};

verus! {

/// How one character is escaped inside a double-quoted scalar.
pub open spec fn esc_char(c: char) -> Seq<char> {
    if c == '\\' {
        seq!['\\', '\\']
    } else if c == '"' {
        seq!['\\', '"']
    } else if c == '\n' {
        seq!['\\', 'n']
    } else if c == '\r' {
        seq!['\\', 'r']
    } else if c == '\t' {
        seq!['\\', 't']
    } else {
        seq![c]
    }
}

/// A string's characters escaped for a double-quoted scalar.
pub open spec fn esc(s: Seq<char>) -> Seq<char>
    decreases s.len(),
{
    if s.len() == 0 {
        Seq::empty()
    } else {
        esc_char(s[0]) + esc(s.drop_first())
    }
}

/// A double-quoted scalar.
pub open spec fn quoted(s: Seq<char>) -> Seq<char> {
    seq!['"'] + esc(s) + seq!['"']
}

/// An optional string scalar: `null`, or the quoted string.
pub open spec fn opt_str_text(o: Option<Seq<char>>) -> Seq<char> {
    match o {
        Some(s) => quoted(s),
        None => "null"@,
    }
}

/// An optional boolean scalar.
pub open spec fn opt_bool_text(o: Option<bool>) -> Seq<char> {
    match o {
        Some(true) => "true"@,
        Some(false) => "false"@,
        None => "null"@,
    }
}

/// The bare token of a phone kind tag; custom tags are quoted.
pub open spec fn phone_type_text(t: PhoneTypeView) -> Seq<char> {
    match t {
        PhoneTypeView::Home => "home"@,
        PhoneTypeView::Work => "work"@,
        PhoneTypeView::Mobile => "mobile"@,
        PhoneTypeView::Fax => "fax"@,
        PhoneTypeView::Pager => "pager"@,
        PhoneTypeView::Main => "main"@,
        PhoneTypeView::Other => "other"@,
        PhoneTypeView::Custom(s) => quoted(s),
    }
}

/// The bare token of an email kind tag.
pub open spec fn email_type_text(t: EmailTypeView) -> Seq<char> {
    match t {
        EmailTypeView::Home => "home"@,
        EmailTypeView::Work => "work"@,
        EmailTypeView::Other => "other"@,
        EmailTypeView::Custom(s) => quoted(s),
    }
}

/// The bare token of an address kind tag.
pub open spec fn address_type_text(t: AddressTypeView) -> Seq<char> {
    match t {
        AddressTypeView::Home => "home"@,
        AddressTypeView::Work => "work"@,
        AddressTypeView::Other => "other"@,
        AddressTypeView::Custom(s) => quoted(s),
    }
}

/// The list items of phone kind tags, one `prefix- token` line each.
pub open spec fn phone_type_lines(ts: Seq<PhoneTypeView>, prefix: Seq<char>) -> Seq<char>
    decreases ts.len(),
{
    if ts.len() == 0 {
        Seq::empty()
    } else {
        prefix + "- "@ + phone_type_text(ts[0]) + "\n"@ + phone_type_lines(
            ts.drop_first(),
            prefix,
        )
    }
}

/// The list items of email kind tags.
pub open spec fn email_type_lines(ts: Seq<EmailTypeView>, prefix: Seq<char>) -> Seq<char>
    decreases ts.len(),
{
    if ts.len() == 0 {
        Seq::empty()
    } else {
        prefix + "- "@ + email_type_text(ts[0]) + "\n"@ + email_type_lines(
            ts.drop_first(),
            prefix,
        )
    }
}

/// The list items of address kind tags.
pub open spec fn address_type_lines(ts: Seq<AddressTypeView>, prefix: Seq<char>) -> Seq<char>
    decreases ts.len(),
{
    if ts.len() == 0 {
        Seq::empty()
    } else {
        prefix + "- "@ + address_type_text(ts[0]) + "\n"@ + address_type_lines(
            ts.drop_first(),
            prefix,
        )
    }
}

/// A field holding a kind list: `[]` inline when empty, else one item per
/// line at the same indent.
pub open spec fn phone_types_field(ts: Seq<PhoneTypeView>, indent: Seq<char>) -> Seq<char> {
    if ts.len() == 0 {
        indent + "type: []\n"@
    } else {
        indent + "type:\n"@ + phone_type_lines(ts, indent)
    }
}

/// The list items of quoted strings.
pub open spec fn str_lines(ss: Seq<Seq<char>>, prefix: Seq<char>) -> Seq<char>
    decreases ss.len(),
{
    if ss.len() == 0 {
        Seq::empty()
    } else {
        prefix + "- "@ + quoted(ss[0]) + "\n"@ + str_lines(ss.drop_first(), prefix)
    }
}

/// An optional list-of-strings field of the name block.
pub open spec fn name_part_field(key: Seq<char>, o: Option<Seq<Seq<char>>>) -> Seq<char> {
    match o {
        None => "  "@ + key + ": null\n"@,
        Some(ss) => if ss.len() == 0 {
            "  "@ + key + ": []\n"@
        } else {
            "  "@ + key + ":\n"@ + str_lines(ss, "  "@)
        },
    }
}

/// The name section.
pub open spec fn name_text(o: Option<NameView>) -> Seq<char> {
    match o {
        None => "name: null\n"@,
        Some(n) => "name:\n"@ + name_part_field("givenName"@, n.given_name) + name_part_field(
            "middleName"@,
            n.middle_name,
        ) + name_part_field("familyName"@, n.family_name) + name_part_field(
            "honorificPrefix"@,
            n.honorific_prefix,
        ) + name_part_field("honorificSuffix"@, n.honorific_suffix) + "  displayName: "@
            + opt_str_text(n.display_name) + "\n"@ + "  script: "@ + opt_str_text(n.script)
            + "\n"@,
    }
}

/// One phone record as a block-sequence item.
pub open spec fn phone_text(p: PhoneView) -> Seq<char> {
    "- number: "@ + quoted(p.number) + "\n"@ + phone_types_field(p.types, "  "@) + "  ext: "@
        + opt_str_text(p.ext) + "\n"@ + "  preferred: "@ + opt_bool_text(p.preferred) + "\n"@
        + "  label: "@ + opt_str_text(p.label) + "\n"@
}

/// The phone records, in order.
pub open spec fn phones_lines(ps: Seq<PhoneView>) -> Seq<char>
    decreases ps.len(),
{
    if ps.len() == 0 {
        Seq::empty()
    } else {
        phone_text(ps[0]) + phones_lines(ps.drop_first())
    }
}

/// The phones section.
pub open spec fn phones_text(o: Option<Seq<PhoneView>>) -> Seq<char> {
    match o {
        None => "phones: null\n"@,
        Some(ps) => if ps.len() == 0 {
            "phones: []\n"@
        } else {
            "phones:\n"@ + phones_lines(ps)
        },
    }
}

/// One email record as a block-sequence item.
pub open spec fn email_text(em: EmailView) -> Seq<char> {
    "- address: "@ + quoted(em.address) + "\n"@ + (if em.types.len() == 0 {
        "  type: []\n"@
    } else {
        "  type:\n"@ + email_type_lines(em.types, "  "@)
    }) + "  preferred: "@ + opt_bool_text(em.preferred) + "\n"@
}

/// The email records, in order.
pub open spec fn emails_lines(es: Seq<EmailView>) -> Seq<char>
    decreases es.len(),
{
    if es.len() == 0 {
        Seq::empty()
    } else {
        email_text(es[0]) + emails_lines(es.drop_first())
    }
}

/// The emails section.
pub open spec fn emails_text(o: Option<Seq<EmailView>>) -> Seq<char> {
    match o {
        None => "emails: null\n"@,
        Some(es) => if es.len() == 0 {
            "emails: []\n"@
        } else {
            "emails:\n"@ + emails_lines(es)
        },
    }
}

/// The components block of an address record.
pub open spec fn components_text(c: crate::schema::AddressComponentsView) -> Seq<char> {
    "  components:\n"@ + "    street: "@ + opt_str_text(c.street) + "\n"@ + "    locality: "@
        + opt_str_text(c.locality) + "\n"@ + "    region: "@ + opt_str_text(c.region) + "\n"@
        + "    postalCode: "@ + opt_str_text(c.postal_code) + "\n"@ + "    country: "@
        + opt_str_text(c.country) + "\n"@
}

/// One address record as a block-sequence item.
pub open spec fn address_text(a: AddressView) -> Seq<char> {
    "- "@ + (if a.types.len() == 0 {
        "type: []\n"@
    } else {
        "type:\n"@ + address_type_lines(a.types, "  "@)
    }) + "  formatted: "@ + opt_str_text(a.formatted) + "\n"@ + (match a.components {
        None => "  components: null\n"@,
        Some(c) => components_text(c),
    })
}

/// The address records, in order.
pub open spec fn addresses_lines(xs: Seq<AddressView>) -> Seq<char>
    decreases xs.len(),
{
    if xs.len() == 0 {
        Seq::empty()
    } else {
        address_text(xs[0]) + addresses_lines(xs.drop_first())
    }
}

/// The addresses section.
pub open spec fn addresses_text(o: Option<Seq<AddressView>>) -> Seq<char> {
    match o {
        None => "addresses: null\n"@,
        Some(xs) => if xs.len() == 0 {
            "addresses: []\n"@
        } else {
            "addresses:\n"@ + addresses_lines(xs)
        },
    }
}

/// The metadata section.
pub open spec fn metadata_text(o: Option<crate::schema::MetadataView>) -> Seq<char> {
    match o {
        None => "metadata: null\n"@,
        Some(m) => "metadata:\n"@ + "  locale: "@ + opt_str_text(m.locale) + "\n"@
            + "  source: "@ + opt_str_text(m.source) + "\n"@,
    }
}

/// The canonical text of a document: every field on its own line, absent
/// fields as `null`, two-space indentation.
pub open spec fn text_of_ycard(c: YCardView) -> Seq<char> {
    "version: "@ + dec_of(c.version as int) + "\n"@ + "uid: "@ + opt_str_text(c.uid) + "\n"@
        + name_text(c.name) + phones_text(c.phones) + emails_text(c.emails) + addresses_text(
        c.addresses,
    ) + metadata_text(c.metadata)
}


/// One associativity step of sequence concatenation.
proof fn lemma_assoc(a: Seq<char>, b: Seq<char>, c: Seq<char>)
    ensures
        (a + b) + c == a + (b + c),
{
    assert((a + b) + c =~= a + (b + c));
}

/// Append a literal to the output.
fn app_lit(out: &mut Vec<char>, s: &str)
    ensures
        final(out)@ == old(out)@ + s@,
{
    let cs = chars_vec(s);
    let mut i: usize = 0;
    while i < cs.len()
        invariant
            i <= cs@.len(),
            cs@ == s@,
            out@ == old(out)@ + cs@.take(i as int),
        decreases cs@.len() - i,
    {
        out.push(cs[i]);
        proof {
            assert(old(out)@ + cs@.take(i as int) + seq![cs@[i as int]] =~= old(out)@ + cs@.take(
                i + 1 as int,
            ));
        }
        i = i + 1;
    }
    proof {
        assert(old(out)@ + cs@.take(cs@.len() as int) =~= old(out)@ + s@);
    }
}

/// Append a double-quoted, escaped scalar to the output.
fn app_quoted(out: &mut Vec<char>, s: &str)
    ensures
        final(out)@ == old(out)@ + quoted(s@),
{
    let cs = chars_vec(s);
    out.push('"');
    let ghost mark = old(out)@ + seq!['"'];
    proof {
        assert(out@ =~= mark);
        assert(cs@.skip(0) =~= cs@);
    }
    let ghost done = Seq::<char>::empty();
    let mut i: usize = 0;
    proof {
        assert(mark + done =~= out@);
    }
    while i < cs.len()
        invariant
            i <= cs@.len(),
            cs@ == s@,
            out@ == mark + done,
            done + esc(cs@.skip(i as int)) == esc(cs@),
        decreases cs@.len() - i,
    {
        proof {
            assert(cs@.skip(i as int).drop_first() =~= cs@.skip(i + 1 as int));
            assert(cs@.skip(i as int)[0] == cs@[i as int]);
        }
        let c = cs[i];
        let ghost old_done = done;
        if c == '\\' {
            out.push('\\');
            out.push('\\');
        } else if c == '"' {
            out.push('\\');
            out.push('"');
        } else if c == '\n' {
            out.push('\\');
            out.push('n');
        } else if c == '\r' {
            out.push('\\');
            out.push('r');
        } else if c == '\t' {
            out.push('\\');
            out.push('t');
        } else {
            out.push(c);
        }
        proof {
            done = old_done + esc_char(cs@[i as int]);
            assert(out@ =~= mark + done);
            assert(old_done + (esc_char(cs@[i as int]) + esc(cs@.skip(i + 1 as int))) =~= done
                + esc(cs@.skip(i + 1 as int)));
        }
        i = i + 1;
    }
    proof {
        assert(cs@.skip(cs@.len() as int) =~= Seq::<char>::empty());
        assert(done + Seq::<char>::empty() =~= done);
    }
    out.push('"');
    proof {
        assert(out@ =~= old(out)@ + quoted(s@));
    }
}

/// Append an optional string scalar.
fn app_opt_str(out: &mut Vec<char>, o: &Option<String>)
    ensures
        final(out)@ == old(out)@ + opt_str_text(crate::schema::opt_view(*o)),
{
    match o {
        Some(t) => app_quoted(out, t.as_str()),
        None => app_lit(out, "null"),
    }
}

/// Append an optional boolean scalar.
fn app_opt_bool(out: &mut Vec<char>, o: &Option<bool>)
    ensures
        final(out)@ == old(out)@ + opt_bool_text(*o),
{
    match o {
        Some(b) => {
            if *b {
                app_lit(out, "true")
            } else {
                app_lit(out, "false")
            }
        },
        None => app_lit(out, "null"),
    }
}

/// Append the token of one phone kind tag.
fn app_phone_type(out: &mut Vec<char>, t: &PhoneType)
    ensures
        final(out)@ == old(out)@ + phone_type_text(t@),
{
    match t {
        PhoneType::Home => app_lit(out, "home"),
        PhoneType::Work => app_lit(out, "work"),
        PhoneType::Mobile => app_lit(out, "mobile"),
        PhoneType::Fax => app_lit(out, "fax"),
        PhoneType::Pager => app_lit(out, "pager"),
        PhoneType::Main => app_lit(out, "main"),
        PhoneType::Other => app_lit(out, "other"),
        PhoneType::Custom(s) => app_quoted(out, s.as_str()),
    }
}

/// Append the token of one email kind tag.
fn app_email_type(out: &mut Vec<char>, t: &EmailType)
    ensures
        final(out)@ == old(out)@ + email_type_text(t@),
{
    match t {
        EmailType::Home => app_lit(out, "home"),
        EmailType::Work => app_lit(out, "work"),
        EmailType::Other => app_lit(out, "other"),
        EmailType::Custom(s) => app_quoted(out, s.as_str()),
    }
}

/// Append the token of one address kind tag.
fn app_address_type(out: &mut Vec<char>, t: &AddressType)
    ensures
        final(out)@ == old(out)@ + address_type_text(t@),
{
    match t {
        AddressType::Home => app_lit(out, "home"),
        AddressType::Work => app_lit(out, "work"),
        AddressType::Other => app_lit(out, "other"),
        AddressType::Custom(s) => app_quoted(out, s.as_str()),
    }
}

/// Append phone kind list items, one per line.
fn app_phone_type_lines(out: &mut Vec<char>, ts: &Vec<PhoneType>, prefix: &str)
    ensures
        final(out)@ == old(out)@ + phone_type_lines(
            crate::parser::phone_type_views(ts@),
            prefix@,
        ),
{
    let ghost tv = crate::parser::phone_type_views(ts@);
    let ghost done = Seq::<char>::empty();
    let mut i: usize = 0;
    proof {
        assert(tv.skip(0) =~= tv);
        assert(out@ =~= old(out)@ + done);
    }
    while i < ts.len()
        invariant
            i <= ts@.len(),
            tv == crate::parser::phone_type_views(ts@),
            out@ == old(out)@ + done,
            done + phone_type_lines(tv.skip(i as int), prefix@) == phone_type_lines(tv, prefix@),
        decreases ts@.len() - i,
    {
        proof {
            assert(tv.skip(i as int).drop_first() =~= tv.skip(i + 1 as int));
            assert(tv.skip(i as int)[0] == tv[i as int]);
        }
        let ghost old_done = done;
        app_lit(out, prefix);
        app_lit(out, "- ");
        app_phone_type(out, &ts[i]);
        app_lit(out, "\n");
        proof {
            done = old_done + (prefix@ + "- "@ + phone_type_text(tv[i as int]) + "\n"@);
            assert(out@ =~= old(out)@ + done);
            assert(old_done + (prefix@ + "- "@ + phone_type_text(tv[i as int]) + "\n"@
                + phone_type_lines(tv.skip(i + 1 as int), prefix@)) =~= done + phone_type_lines(
                tv.skip(i + 1 as int),
                prefix@,
            ));
        }
        i = i + 1;
    }
    proof {
        assert(tv.skip(tv.len() as int) =~= Seq::<PhoneTypeView>::empty());
        assert(done + Seq::<char>::empty() =~= done);
    }
}

/// Append email kind list items, one per line.
fn app_email_type_lines(out: &mut Vec<char>, ts: &Vec<EmailType>, prefix: &str)
    ensures
        final(out)@ == old(out)@ + email_type_lines(
            crate::parser::email_type_views(ts@),
            prefix@,
        ),
{
    let ghost tv = crate::parser::email_type_views(ts@);
    let ghost done = Seq::<char>::empty();
    let mut i: usize = 0;
    proof {
        assert(tv.skip(0) =~= tv);
        assert(out@ =~= old(out)@ + done);
    }
    while i < ts.len()
        invariant
            i <= ts@.len(),
            tv == crate::parser::email_type_views(ts@),
            out@ == old(out)@ + done,
            done + email_type_lines(tv.skip(i as int), prefix@) == email_type_lines(tv, prefix@),
        decreases ts@.len() - i,
    {
        proof {
            assert(tv.skip(i as int).drop_first() =~= tv.skip(i + 1 as int));
            assert(tv.skip(i as int)[0] == tv[i as int]);
        }
        let ghost old_done = done;
        app_lit(out, prefix);
        app_lit(out, "- ");
        app_email_type(out, &ts[i]);
        app_lit(out, "\n");
        proof {
            done = old_done + (prefix@ + "- "@ + email_type_text(tv[i as int]) + "\n"@);
            assert(out@ =~= old(out)@ + done);
            assert(old_done + (prefix@ + "- "@ + email_type_text(tv[i as int]) + "\n"@
                + email_type_lines(tv.skip(i + 1 as int), prefix@)) =~= done + email_type_lines(
                tv.skip(i + 1 as int),
                prefix@,
            ));
        }
        i = i + 1;
    }
    proof {
        assert(tv.skip(tv.len() as int) =~= Seq::<EmailTypeView>::empty());
        assert(done + Seq::<char>::empty() =~= done);
    }
}

/// Append address kind list items, one per line.
fn app_address_type_lines(out: &mut Vec<char>, ts: &Vec<AddressType>, prefix: &str)
    ensures
        final(out)@ == old(out)@ + address_type_lines(
            ts@.map_values(|t: AddressType| t@),
            prefix@,
        ),
{
    let ghost tv = ts@.map_values(|t: AddressType| t@);
    let ghost done = Seq::<char>::empty();
    let mut i: usize = 0;
    proof {
        assert(tv.skip(0) =~= tv);
        assert(out@ =~= old(out)@ + done);
    }
    while i < ts.len()
        invariant
            i <= ts@.len(),
            tv == ts@.map_values(|t: AddressType| t@),
            out@ == old(out)@ + done,
            done + address_type_lines(tv.skip(i as int), prefix@) == address_type_lines(
                tv,
                prefix@,
            ),
        decreases ts@.len() - i,
    {
        proof {
            assert(tv.skip(i as int).drop_first() =~= tv.skip(i + 1 as int));
            assert(tv.skip(i as int)[0] == tv[i as int]);
        }
        let ghost old_done = done;
        app_lit(out, prefix);
        app_lit(out, "- ");
        app_address_type(out, &ts[i]);
        app_lit(out, "\n");
        proof {
            done = old_done + (prefix@ + "- "@ + address_type_text(tv[i as int]) + "\n"@);
            assert(out@ =~= old(out)@ + done);
            assert(old_done + (prefix@ + "- "@ + address_type_text(tv[i as int]) + "\n"@
                + address_type_lines(tv.skip(i + 1 as int), prefix@)) =~= done
                + address_type_lines(tv.skip(i + 1 as int), prefix@));
        }
        i = i + 1;
    }
    proof {
        assert(tv.skip(tv.len() as int) =~= Seq::<AddressTypeView>::empty());
        assert(done + Seq::<char>::empty() =~= done);
    }
}

/// Append string list items, one per line.
fn app_str_lines(out: &mut Vec<char>, ss: &Vec<String>, prefix: &str)
    ensures
        final(out)@ == old(out)@ + str_lines(crate::chars::seq_views(ss@), prefix@),
{
    let ghost sv = crate::chars::seq_views(ss@);
    let ghost done = Seq::<char>::empty();
    let mut i: usize = 0;
    proof {
        assert(sv.skip(0) =~= sv);
        assert(out@ =~= old(out)@ + done);
    }
    while i < ss.len()
        invariant
            i <= ss@.len(),
            sv == crate::chars::seq_views(ss@),
            out@ == old(out)@ + done,
            done + str_lines(sv.skip(i as int), prefix@) == str_lines(sv, prefix@),
        decreases ss@.len() - i,
    {
        proof {
            assert(sv.skip(i as int).drop_first() =~= sv.skip(i + 1 as int));
            assert(sv.skip(i as int)[0] == sv[i as int]);
        }
        let ghost old_done = done;
        app_lit(out, prefix);
        app_lit(out, "- ");
        app_quoted(out, ss[i].as_str());
        app_lit(out, "\n");
        proof {
            done = old_done + (prefix@ + "- "@ + quoted(sv[i as int]) + "\n"@);
            assert(out@ =~= old(out)@ + done);
            assert(old_done + (prefix@ + "- "@ + quoted(sv[i as int]) + "\n"@ + str_lines(
                sv.skip(i + 1 as int),
                prefix@,
            )) =~= done + str_lines(sv.skip(i + 1 as int), prefix@));
        }
        i = i + 1;
    }
    proof {
        assert(sv.skip(sv.len() as int) =~= Seq::<Seq<char>>::empty());
        assert(done + Seq::<char>::empty() =~= done);
    }
}

/// Append an optional list-of-strings field of the name block.
fn app_name_part(out: &mut Vec<char>, key: &str, o: &Option<Vec<String>>)
    ensures
        final(out)@ == old(out)@ + name_part_field(key@, crate::schema::opt_strs_view(*o)),
{
    match o {
        None => {
            app_lit(out, "  ");
            app_lit(out, key);
            app_lit(out, ": null\n");
            proof {
                assert(out@ =~= old(out)@ + ("  "@ + key@ + ": null\n"@));
            }
        },
        Some(ss) => {
            if ss.len() == 0 {
                app_lit(out, "  ");
                app_lit(out, key);
                app_lit(out, ": []\n");
                proof {
                    assert(crate::chars::seq_views(ss@).len() == 0);
                    assert(out@ =~= old(out)@ + ("  "@ + key@ + ": []\n"@));
                }
            } else {
                app_lit(out, "  ");
                app_lit(out, key);
                app_lit(out, ":\n");
                app_str_lines(out, ss, "  ");
                proof {
                    assert(out@ =~= old(out)@ + ("  "@ + key@ + ":\n"@ + str_lines(
                        crate::chars::seq_views(ss@),
                        "  "@,
                    )));
                }
            }
        },
    }
}

/// Append the name section.
fn app_name(out: &mut Vec<char>, o: &Option<Name>)
    ensures
        final(out)@ == old(out)@ + name_text(
            match *o {
                Some(n) => Some(n@),
                None => None,
            },
        ),
{
    match o {
        None => {
            app_lit(out, "name: null\n");
        },
        Some(n) => {
            let ghost acc = Seq::<char>::empty();
            app_lit(out, "name:\n");
            proof {
                acc = "name:\n"@;
                assert(out@ == old(out)@ + acc);
            }
            app_name_part(out, "givenName", &n.given_name);
            proof {
                lemma_assoc(old(out)@, acc, name_part_field("givenName"@, n@.given_name));
                acc = acc + name_part_field("givenName"@, n@.given_name);
            }
            app_name_part(out, "middleName", &n.middle_name);
            proof {
                lemma_assoc(old(out)@, acc, name_part_field("middleName"@, n@.middle_name));
                acc = acc + name_part_field("middleName"@, n@.middle_name);
            }
            app_name_part(out, "familyName", &n.family_name);
            proof {
                lemma_assoc(old(out)@, acc, name_part_field("familyName"@, n@.family_name));
                acc = acc + name_part_field("familyName"@, n@.family_name);
            }
            app_name_part(out, "honorificPrefix", &n.honorific_prefix);
            proof {
                lemma_assoc(
                    old(out)@,
                    acc,
                    name_part_field("honorificPrefix"@, n@.honorific_prefix),
                );
                acc = acc + name_part_field("honorificPrefix"@, n@.honorific_prefix);
            }
            app_name_part(out, "honorificSuffix", &n.honorific_suffix);
            proof {
                lemma_assoc(
                    old(out)@,
                    acc,
                    name_part_field("honorificSuffix"@, n@.honorific_suffix),
                );
                acc = acc + name_part_field("honorificSuffix"@, n@.honorific_suffix);
            }
            app_lit(out, "  displayName: ");
            proof {
                lemma_assoc(old(out)@, acc, "  displayName: "@);
                acc = acc + "  displayName: "@;
            }
            app_opt_str(out, &n.display_name);
            proof {
                lemma_assoc(old(out)@, acc, opt_str_text(n@.display_name));
                acc = acc + opt_str_text(n@.display_name);
            }
            app_lit(out, "\n");
            proof {
                lemma_assoc(old(out)@, acc, "\n"@);
                acc = acc + "\n"@;
            }
            app_lit(out, "  script: ");
            proof {
                lemma_assoc(old(out)@, acc, "  script: "@);
                acc = acc + "  script: "@;
            }
            app_opt_str(out, &n.script);
            proof {
                lemma_assoc(old(out)@, acc, opt_str_text(n@.script));
                acc = acc + opt_str_text(n@.script);
            }
            app_lit(out, "\n");
            proof {
                lemma_assoc(old(out)@, acc, "\n"@);
                acc = acc + "\n"@;
                assert(out@ == old(out)@ + acc);
                assert(acc == name_text(Some(n@)));
            }
        },
    }
}

/// Append one phone record.
fn app_phone(out: &mut Vec<char>, p: &Phone)
    ensures
        final(out)@ == old(out)@ + phone_text(p@),
{
    let ghost acc = Seq::<char>::empty();
    app_lit(out, "- number: ");
    proof {
        acc = "- number: "@;
        assert(out@ =~= old(out)@ + acc);
    }
    app_quoted(out, p.number.as_str());
    proof {
        acc = acc + quoted(p@.number);
        assert(out@ =~= old(out)@ + acc);
    }
    app_lit(out, "\n");
    proof {
        acc = acc + "\n"@;
        assert(out@ =~= old(out)@ + acc);
    }
    if p.types.len() == 0 {
        app_lit(out, "  type: []\n");
        proof {
            assert(crate::parser::phone_type_views(p.types@).len() == 0);
            assert(phone_types_field(p@.types, "  "@) =~= "  type: []\n"@) by {
                reveal_strlit("  ");
                reveal_strlit("type: []\n");
                reveal_strlit("  type: []\n");
            }
            acc = acc + phone_types_field(p@.types, "  "@);
            assert(out@ =~= old(out)@ + acc);
        }
    } else {
        app_lit(out, "  type:\n");
        app_phone_type_lines(out, &p.types, "  ");
        proof {
            assert(phone_types_field(p@.types, "  "@) =~= "  type:\n"@ + phone_type_lines(
                p@.types,
                "  "@,
            )) by {
                reveal_strlit("  ");
                reveal_strlit("type:\n");
                reveal_strlit("  type:\n");
            }
            acc = acc + phone_types_field(p@.types, "  "@);
            assert(out@ =~= old(out)@ + acc);
        }
    }
    app_lit(out, "  ext: ");
    proof {
        acc = acc + "  ext: "@;
        assert(out@ =~= old(out)@ + acc);
    }
    app_opt_str(out, &p.ext);
    proof {
        acc = acc + opt_str_text(p@.ext);
        assert(out@ =~= old(out)@ + acc);
    }
    app_lit(out, "\n");
    proof {
        acc = acc + "\n"@;
        assert(out@ =~= old(out)@ + acc);
    }
    app_lit(out, "  preferred: ");
    proof {
        acc = acc + "  preferred: "@;
        assert(out@ =~= old(out)@ + acc);
    }
    app_opt_bool(out, &p.preferred);
    proof {
        acc = acc + opt_bool_text(p@.preferred);
        assert(out@ =~= old(out)@ + acc);
    }
    app_lit(out, "\n");
    proof {
        acc = acc + "\n"@;
        assert(out@ =~= old(out)@ + acc);
    }
    app_lit(out, "  label: ");
    proof {
        acc = acc + "  label: "@;
        assert(out@ =~= old(out)@ + acc);
    }
    app_opt_str(out, &p.label);
    proof {
        acc = acc + opt_str_text(p@.label);
        assert(out@ =~= old(out)@ + acc);
    }
    app_lit(out, "\n");
    proof {
        acc = acc + "\n"@;
        assert(out@ =~= old(out)@ + acc);
        assert(acc == phone_text(p@));
    }
}

/// Append the phones section.
fn app_phones(out: &mut Vec<char>, o: &Option<Vec<Phone>>)
    ensures
        final(out)@ == old(out)@ + phones_text(
            match *o {
                Some(ps) => Some(crate::parser::phone_views(ps@)),
                None => None,
            },
        ),
{
    match o {
        None => {
            app_lit(out, "phones: null\n");
        },
        Some(ps) => {
            let ghost pv = crate::parser::phone_views(ps@);
            if ps.len() == 0 {
                app_lit(out, "phones: []\n");
            } else {
                app_lit(out, "phones:\n");
                let ghost mark = out@;
                let ghost done = Seq::<char>::empty();
                let mut i: usize = 0;
                proof {
                    assert(pv.skip(0) =~= pv);
                    assert(out@ =~= mark + done);
                }
                while i < ps.len()
                    invariant
                        i <= ps@.len(),
                        pv == crate::parser::phone_views(ps@),
                        out@ == mark + done,
                        done + phones_lines(pv.skip(i as int)) == phones_lines(pv),
                    decreases ps@.len() - i,
                {
                    proof {
                        assert(pv.skip(i as int).drop_first() =~= pv.skip(i + 1 as int));
                        assert(pv.skip(i as int)[0] == pv[i as int]);
                    }
                    let ghost old_done = done;
                    app_phone(out, &ps[i]);
                    proof {
                        done = old_done + phone_text(pv[i as int]);
                        assert(out@ =~= mark + done);
                        assert(old_done + (phone_text(pv[i as int]) + phones_lines(
                            pv.skip(i + 1 as int),
                        )) =~= done + phones_lines(pv.skip(i + 1 as int)));
                    }
                    i = i + 1;
                }
                proof {
                    assert(pv.skip(pv.len() as int) =~= Seq::<PhoneView>::empty());
                    assert(done + Seq::<char>::empty() =~= done);
                    assert(out@ =~= old(out)@ + ("phones:\n"@ + phones_lines(pv)));
                }
            }
        },
    }
}

/// Append one email record.
#[verifier::rlimit(100)]
fn app_email(out: &mut Vec<char>, em: &Email)
    ensures
        final(out)@ == old(out)@ + email_text(em@),
{
    app_lit(out, "- address: ");
    app_quoted(out, em.address.as_str());
    app_lit(out, "\n");
    if em.types.len() == 0 {
        app_lit(out, "  type: []\n");
        proof {
            assert(crate::parser::email_type_views(em.types@).len() == 0);
        }
    } else {
        app_lit(out, "  type:\n");
        app_email_type_lines(out, &em.types, "  ");
    }
    app_lit(out, "  preferred: ");
    app_opt_bool(out, &em.preferred);
    app_lit(out, "\n");
    proof {
        assert(out@ =~= old(out)@ + email_text(em@));
    }
}

/// Append the emails section.
fn app_emails(out: &mut Vec<char>, o: &Option<Vec<Email>>)
    ensures
        final(out)@ == old(out)@ + emails_text(
            match *o {
                Some(es) => Some(crate::parser::email_views(es@)),
                None => None,
            },
        ),
{
    match o {
        None => {
            app_lit(out, "emails: null\n");
        },
        Some(es) => {
            let ghost ev = crate::parser::email_views(es@);
            if es.len() == 0 {
                app_lit(out, "emails: []\n");
            } else {
                app_lit(out, "emails:\n");
                let ghost mark = out@;
                let ghost done = Seq::<char>::empty();
                let mut i: usize = 0;
                proof {
                    assert(ev.skip(0) =~= ev);
                    assert(out@ =~= mark + done);
                }
                while i < es.len()
                    invariant
                        i <= es@.len(),
                        ev == crate::parser::email_views(es@),
                        out@ == mark + done,
                        done + emails_lines(ev.skip(i as int)) == emails_lines(ev),
                    decreases es@.len() - i,
                {
                    proof {
                        assert(ev.skip(i as int).drop_first() =~= ev.skip(i + 1 as int));
                        assert(ev.skip(i as int)[0] == ev[i as int]);
                    }
                    let ghost old_done = done;
                    app_email(out, &es[i]);
                    proof {
                        done = old_done + email_text(ev[i as int]);
                        assert(out@ =~= mark + done);
                        assert(old_done + (email_text(ev[i as int]) + emails_lines(
                            ev.skip(i + 1 as int),
                        )) =~= done + emails_lines(ev.skip(i + 1 as int)));
                    }
                    i = i + 1;
                }
                proof {
                    assert(ev.skip(ev.len() as int) =~= Seq::<EmailView>::empty());
                    assert(done + Seq::<char>::empty() =~= done);
                    assert(out@ =~= old(out)@ + ("emails:\n"@ + emails_lines(ev)));
                }
            }
        },
    }
}


/// Append the components block of an address record.
fn app_components(out: &mut Vec<char>, c: &crate::schema::AddressComponents)
    ensures
        final(out)@ == old(out)@ + components_text(c@),
{
    let ghost acc = Seq::<char>::empty();
    app_lit(out, "  components:\n");
    proof {
        acc = "  components:\n"@;
        assert(out@ == old(out)@ + acc);
    }
    app_lit(out, "    street: ");
    proof {
        lemma_assoc(old(out)@, acc, "    street: "@);
        acc = acc + "    street: "@;
    }
    app_opt_str(out, &c.street);
    proof {
        lemma_assoc(old(out)@, acc, opt_str_text(c@.street));
        acc = acc + opt_str_text(c@.street);
    }
    app_lit(out, "\n");
    proof {
        lemma_assoc(old(out)@, acc, "\n"@);
        acc = acc + "\n"@;
    }
    app_lit(out, "    locality: ");
    proof {
        lemma_assoc(old(out)@, acc, "    locality: "@);
        acc = acc + "    locality: "@;
    }
    app_opt_str(out, &c.locality);
    proof {
        lemma_assoc(old(out)@, acc, opt_str_text(c@.locality));
        acc = acc + opt_str_text(c@.locality);
    }
    app_lit(out, "\n");
    proof {
        lemma_assoc(old(out)@, acc, "\n"@);
        acc = acc + "\n"@;
    }
    app_lit(out, "    region: ");
    proof {
        lemma_assoc(old(out)@, acc, "    region: "@);
        acc = acc + "    region: "@;
    }
    app_opt_str(out, &c.region);
    proof {
        lemma_assoc(old(out)@, acc, opt_str_text(c@.region));
        acc = acc + opt_str_text(c@.region);
    }
    app_lit(out, "\n");
    proof {
        lemma_assoc(old(out)@, acc, "\n"@);
        acc = acc + "\n"@;
    }
    app_lit(out, "    postalCode: ");
    proof {
        lemma_assoc(old(out)@, acc, "    postalCode: "@);
        acc = acc + "    postalCode: "@;
    }
    app_opt_str(out, &c.postal_code);
    proof {
        lemma_assoc(old(out)@, acc, opt_str_text(c@.postal_code));
        acc = acc + opt_str_text(c@.postal_code);
    }
    app_lit(out, "\n");
    proof {
        lemma_assoc(old(out)@, acc, "\n"@);
        acc = acc + "\n"@;
    }
    app_lit(out, "    country: ");
    proof {
        lemma_assoc(old(out)@, acc, "    country: "@);
        acc = acc + "    country: "@;
    }
    app_opt_str(out, &c.country);
    proof {
        lemma_assoc(old(out)@, acc, opt_str_text(c@.country));
        acc = acc + opt_str_text(c@.country);
    }
    app_lit(out, "\n");
    proof {
        lemma_assoc(old(out)@, acc, "\n"@);
        acc = acc + "\n"@;
        assert(out@ == old(out)@ + acc);
        assert(acc == components_text(c@));
    }
}

/// Append one address record.
fn app_address(out: &mut Vec<char>, a: &Address)
    ensures
        final(out)@ == old(out)@ + address_text(a@),
{
    let ghost acc = Seq::<char>::empty();
    app_lit(out, "- ");
    proof {
        acc = "- "@;
        assert(out@ =~= old(out)@ + acc);
    }
    if a.types.len() == 0 {
        app_lit(out, "type: []\n");
        proof {
            assert(a.types@.map_values(|t: AddressType| t@).len() == 0);
            acc = acc + "type: []\n"@;
            assert(out@ =~= old(out)@ + acc);
        }
    } else {
        app_lit(out, "type:\n");
        app_address_type_lines(out, &a.types, "  ");
        proof {
            acc = acc + ("type:\n"@ + address_type_lines(
                a@.types,
                "  "@,
            ));
            assert(out@ =~= old(out)@ + acc);
        }
    }
    app_lit(out, "  formatted: ");
    proof {
        acc = acc + "  formatted: "@;
        assert(out@ =~= old(out)@ + acc);
    }
    app_opt_str(out, &a.formatted);
    proof {
        acc = acc + opt_str_text(a@.formatted);
        assert(out@ =~= old(out)@ + acc);
    }
    app_lit(out, "\n");
    proof {
        acc = acc + "\n"@;
        assert(out@ =~= old(out)@ + acc);
    }
    match &a.components {
        None => {
            app_lit(out, "  components: null\n");
            proof {
                acc = acc + "  components: null\n"@;
                assert(out@ =~= old(out)@ + acc);
            }
        },
        Some(c) => {
            app_components(out, c);
            proof {
                acc = acc + components_text(c@);
                assert(out@ =~= old(out)@ + acc);
            }
        },
    }
    proof {
        assert(acc =~= address_text(a@));
        assert(out@ =~= old(out)@ + address_text(a@));
    }
}

/// Append the addresses section.
fn app_addresses(out: &mut Vec<char>, o: &Option<Vec<Address>>)
    ensures
        final(out)@ == old(out)@ + addresses_text(
            match *o {
                Some(xs) => Some(xs@.map_values(|a: Address| a@)),
                None => None,
            },
        ),
{
    match o {
        None => {
            app_lit(out, "addresses: null\n");
        },
        Some(xs) => {
            let ghost av = xs@.map_values(|a: Address| a@);
            if xs.len() == 0 {
                app_lit(out, "addresses: []\n");
            } else {
                app_lit(out, "addresses:\n");
                let ghost mark = out@;
                let ghost done = Seq::<char>::empty();
                let mut i: usize = 0;
                proof {
                    assert(av.skip(0) =~= av);
                    assert(out@ =~= mark + done);
                }
                while i < xs.len()
                    invariant
                        i <= xs@.len(),
                        av == xs@.map_values(|a: Address| a@),
                        out@ == mark + done,
                        done + addresses_lines(av.skip(i as int)) == addresses_lines(av),
                    decreases xs@.len() - i,
                {
                    proof {
                        assert(av.skip(i as int).drop_first() =~= av.skip(i + 1 as int));
                        assert(av.skip(i as int)[0] == av[i as int]);
                    }
                    let ghost old_done = done;
                    app_address(out, &xs[i]);
                    proof {
                        done = old_done + address_text(av[i as int]);
                        assert(out@ =~= mark + done);
                        assert(old_done + (address_text(av[i as int]) + addresses_lines(
                            av.skip(i + 1 as int),
                        )) =~= done + addresses_lines(av.skip(i + 1 as int)));
                    }
                    i = i + 1;
                }
                proof {
                    assert(av.skip(av.len() as int) =~= Seq::<AddressView>::empty());
                    assert(done + Seq::<char>::empty() =~= done);
                    assert(out@ =~= old(out)@ + ("addresses:\n"@ + addresses_lines(av)));
                }
            }
        },
    }
}

/// Append the metadata section.
#[verifier::rlimit(100)]
fn app_metadata(out: &mut Vec<char>, o: &Option<crate::schema::Metadata>)
    ensures
        final(out)@ == old(out)@ + metadata_text(
            match *o {
                Some(m) => Some(m@),
                None => None,
            },
        ),
{
    match o {
        None => {
            app_lit(out, "metadata: null\n");
        },
        Some(m) => {
            app_lit(out, "metadata:\n");
            app_lit(out, "  locale: ");
            app_opt_str(out, &m.locale);
            app_lit(out, "\n");
            app_lit(out, "  source: ");
            app_opt_str(out, &m.source);
            app_lit(out, "\n");
            proof {
                assert(out@ =~= old(out)@ + metadata_text(Some(m@)));
            }
        },
    }
}

/// Phone formatting styles of the canonical printer.
#[derive(Debug, Clone, PartialEq, Eq, Structural)]
pub enum PhonesStyle {
    Canonical,
    Shorthand,
    Auto,
}

/// The canonical YAML printer, with cosmetic knobs. The current styles all
/// render the canonical structured form.
pub struct Formatter {
    indent_size: usize,
    phones_style: PhonesStyle,
    relocalize_keys: Option<String>,
}

impl Formatter {
    /// A formatter with two-space indentation and the canonical phone style.
    pub fn new() -> (r: Self)
        ensures
            r.style() == PhonesStyle::Canonical,
    {
        Formatter { indent_size: 2, phones_style: PhonesStyle::Canonical, relocalize_keys: None }
    }

    /// The phone style this formatter renders.
    pub closed spec fn style(&self) -> PhonesStyle {
        self.phones_style
    }

    /// The same formatter with another phone style.
    pub fn with_phones_style(self, style: PhonesStyle) -> (r: Self)
        ensures
            r.style() == style,
    {
        Formatter { phones_style: style, ..self }
    }

    /// The same formatter with keys relocalized to the given locale. Key
    /// relocalization is currently the identity.
    pub fn with_relocalize_keys(self, locale: Option<String>) -> (r: Self)
        ensures
            r.style() == self.style(),
    {
        Formatter { relocalize_keys: locale, ..self }
    }

    /// Render a document as canonical YAML text.
    pub fn format(&self, ycard: &YCard) -> (r: Result<String, String>)
        ensures
            r matches Ok(t) && t@ == text_of_ycard(ycard@),
    {
        let mut out: Vec<char> = Vec::new();
        app_lit(&mut out, "version: ");
        let digits = crate::validate::dec_string_chars(ycard.version);
        let mut di: usize = 0;
        let ghost mark = out@;
        while di < digits.len()
            invariant
                di <= digits@.len(),
                digits@ == dec_of(ycard@.version as int),
                out@ == mark + digits@.take(di as int),
            decreases digits@.len() - di,
        {
            out.push(digits[di]);
            proof {
                assert(mark + digits@.take(di as int) + seq![digits@[di as int]] =~= mark
                    + digits@.take(di + 1 as int));
            }
            di = di + 1;
        }
        proof {
            assert(mark + digits@.take(digits@.len() as int) =~= mark + dec_of(
                ycard@.version as int,
            ));
        }
        app_lit(&mut out, "\n");
        app_lit(&mut out, "uid: ");
        app_opt_str(&mut out, &ycard.uid);
        app_lit(&mut out, "\n");
        app_name(&mut out, &ycard.name);
        app_phones(&mut out, &ycard.phones);
        app_emails(&mut out, &ycard.emails);
        app_addresses(&mut out, &ycard.addresses);
        app_metadata(&mut out, &ycard.metadata);
        proof {
            assert(out@ =~= text_of_ycard(ycard@));
        }
        let text = crate::chars::string_of_chars(&out);
        let styled = self.apply_phones_style(text);
        let relocalized = self.apply_key_relocalization(styled);
        Ok(relocalized)
    }

    /// Apply the phone style; every current style keeps the canonical form.
    fn apply_phones_style(&self, yaml: String) -> (r: String)
        ensures
            r@ == yaml@,
    {
        match self.phones_style {
            PhonesStyle::Canonical => yaml,
            PhonesStyle::Shorthand => self.convert_to_shorthand(yaml),
            PhonesStyle::Auto => yaml,
        }
    }

    /// The shorthand rendering; currently the canonical form is kept.
    fn convert_to_shorthand(&self, yaml: String) -> (r: String)
        ensures
            r@ == yaml@,
    {
        yaml
    }

    /// Relocalize keys to the configured locale; currently the canonical
    /// keys are kept.
    fn apply_key_relocalization(&self, yaml: String) -> (r: String)
        ensures
            r@ == yaml@,
    {
        if self.relocalize_keys.is_some() {
            yaml
        } else {
            yaml
        }
    }
}

impl Default for Formatter {
    /// The default formatter renders the canonical style.
    fn default() -> (r: Self)
        ensures
            r.style() == PhonesStyle::Canonical,
    {
        Formatter::new()
    }
}

/// Whether a phone kind list holds no custom tags.
pub open spec fn clean_phone_tags(ts: Seq<PhoneTypeView>) -> bool {
    forall|i: int| 0 <= i < ts.len() ==> !((#[trigger] ts[i]) is Custom)
}

/// Whether an email kind list holds no custom tags.
pub open spec fn clean_email_tags(ts: Seq<EmailTypeView>) -> bool {
    forall|i: int| 0 <= i < ts.len() ==> !((#[trigger] ts[i]) is Custom)
}

/// Whether an address kind list holds no custom tags.
pub open spec fn clean_address_tags(ts: Seq<AddressTypeView>) -> bool {
    forall|i: int| 0 <= i < ts.len() ==> !((#[trigger] ts[i]) is Custom)
}

/// Whether a document is free of custom kind tags — the inputs on which
/// the canonical encoding re-parses exactly.
pub open spec fn clean_ycard(c: YCardView) -> bool {
    &&& match c.phones {
        Some(ps) => forall|i: int| 0 <= i < ps.len() ==> clean_phone_tags((#[trigger] ps[i]).types),
        None => true,
    }
    &&& match c.emails {
        Some(es) => forall|i: int| 0 <= i < es.len() ==> clean_email_tags((#[trigger] es[i]).types),
        None => true,
    }
    &&& match c.addresses {
        Some(xs) => forall|i: int|
            0 <= i < xs.len() ==> clean_address_tags((#[trigger] xs[i]).types),
        None => true,
    }
}

/// How a document is carried by a generic value: each canonical field is
/// present under its canonical key and strict-decodes to the document's
/// field.
pub open spec fn encodes(c: YCardView, v: Yaml) -> bool {
    &&& v matches Yaml::Mapping(es)
    &&& yaml_get(es@, "version"@) matches Some(Yaml::Int(i)) && 0 <= i <= 255 && i == c.version
    &&& strict_opt_str(yaml_get(es@, "uid"@)) == Some(c.uid)
    &&& match c.name {
        None => yaml_get(es@, "name"@) matches Some(nv) && nv is Null,
        Some(n) => yaml_get(es@, "name"@) matches Some(nv) && !(nv is Null) && strict_name(nv)
            == Some(n),
    }
    &&& match c.phones {
        None => yaml_get(es@, "phones"@) matches Some(pv) && pv is Null,
        Some(ps) => yaml_get(es@, "phones"@) matches Some(Yaml::Sequence(items))
            && strict_phones(items@) == Some(ps),
    }
    &&& match c.emails {
        None => yaml_get(es@, "emails"@) matches Some(ev) && ev is Null,
        Some(ems) => yaml_get(es@, "emails"@) matches Some(Yaml::Sequence(items))
            && strict_emails(items@) == Some(ems),
    }
    &&& match c.addresses {
        None => yaml_get(es@, "addresses"@) matches Some(av) && av is Null,
        Some(xs) => yaml_get(es@, "addresses"@) matches Some(Yaml::Sequence(items))
            && strict_addresses(items@) == Some(xs),
    }
    &&& match c.metadata {
        None => yaml_get(es@, "metadata"@) matches Some(mv) && mv is Null,
        Some(m) => yaml_get(es@, "metadata"@) matches Some(mv) && !(mv is Null)
            && strict_metadata(mv) == Some(m),
    }
}

/// Law: strict parsing undoes the canonical encoding — a generic value that
/// carries a document yields that document back, field for field. Together
/// with the formatter's exact text and a YAML reading of it, this is the
/// format-then-reparse idempotence of the library; the text-to-value step
/// itself is the YAML reader's.
pub proof fn lemma_strict_decode_of_encoding(c: YCardView, v: Yaml)
    requires
        encodes(c, v),
    ensures
        spec_strict_decode(v) == Some(c),
{
    let cv2 = spec_strict_decode(v)->0;
    assert(spec_strict_decode(v) is Some);
    assert(cv2 =~~= c);
}

/// Push lemma: appending a string token extends a strict kind-list decode.
proof fn lemma_strict_phone_types_push(items: Seq<Yaml>, t: String)
    ensures
        strict_phone_types(items.push(Yaml::Str(t))) == (match strict_phone_types(items) {
            Some(r) => Some(r.push(strict_phone_type_of(t@))),
            None => None::<Seq<PhoneTypeView>>,
        }),
    decreases items.len(),
{
    if items.len() == 0 {
        assert(items.push(Yaml::Str(t)).drop_first() =~= Seq::<Yaml>::empty());
        assert(strict_phone_types(Seq::<Yaml>::empty()) == Some(Seq::<PhoneTypeView>::empty()));
        assert(seq![strict_phone_type_of(t@)] + Seq::<PhoneTypeView>::empty()
            =~= Seq::<PhoneTypeView>::empty().push(strict_phone_type_of(t@)));
    } else {
        assert(items.push(Yaml::Str(t)).drop_first() =~= items.drop_first().push(Yaml::Str(t)));
        lemma_strict_phone_types_push(items.drop_first(), t);
        match items[0] {
            Yaml::Str(h) => {
                match strict_phone_types(items.drop_first()) {
                    Some(r) => {
                        assert(seq![strict_phone_type_of(h@)] + r.push(strict_phone_type_of(t@))
                            =~= (seq![strict_phone_type_of(h@)] + r).push(
                            strict_phone_type_of(t@),
                        ));
                    },
                    None => {},
                }
            },
            _ => {},
        }
    }
}

/// Push lemma for strict email kind lists.
proof fn lemma_strict_email_types_push(items: Seq<Yaml>, t: String)
    ensures
        strict_email_types(items.push(Yaml::Str(t))) == (match strict_email_types(items) {
            Some(r) => Some(r.push(strict_email_type_of(t@))),
            None => None::<Seq<EmailTypeView>>,
        }),
    decreases items.len(),
{
    if items.len() == 0 {
        assert(items.push(Yaml::Str(t)).drop_first() =~= Seq::<Yaml>::empty());
        assert(seq![strict_email_type_of(t@)] + Seq::<EmailTypeView>::empty()
            =~= Seq::<EmailTypeView>::empty().push(strict_email_type_of(t@)));
    } else {
        assert(items.push(Yaml::Str(t)).drop_first() =~= items.drop_first().push(Yaml::Str(t)));
        lemma_strict_email_types_push(items.drop_first(), t);
        match items[0] {
            Yaml::Str(h) => {
                match strict_email_types(items.drop_first()) {
                    Some(r) => {
                        assert(seq![strict_email_type_of(h@)] + r.push(strict_email_type_of(t@))
                            =~= (seq![strict_email_type_of(h@)] + r).push(
                            strict_email_type_of(t@),
                        ));
                    },
                    None => {},
                }
            },
            _ => {},
        }
    }
}

/// Push lemma for strict string lists.
proof fn lemma_strict_strs_push(items: Seq<Yaml>, t: String)
    ensures
        strict_strs(items.push(Yaml::Str(t))) == (match strict_strs(items) {
            Some(r) => Some(r.push(t@)),
            None => None::<Seq<Seq<char>>>,
        }),
    decreases items.len(),
{
    if items.len() == 0 {
        assert(items.push(Yaml::Str(t)).drop_first() =~= Seq::<Yaml>::empty());
        assert(seq![t@] + Seq::<Seq<char>>::empty() =~= Seq::<Seq<char>>::empty().push(t@));
    } else {
        assert(items.push(Yaml::Str(t)).drop_first() =~= items.drop_first().push(Yaml::Str(t)));
        lemma_strict_strs_push(items.drop_first(), t);
        match items[0] {
            Yaml::Str(h) => {
                match strict_strs(items.drop_first()) {
                    Some(r) => {
                        assert(seq![h@] + r.push(t@) =~= (seq![h@] + r).push(t@));
                    },
                    None => {},
                }
            },
            _ => {},
        }
    }
}

/// Push lemma for strict phone lists.
#[verifier::rlimit(100)]
proof fn lemma_strict_phones_push(items: Seq<Yaml>, x: Yaml, p: PhoneView)
    requires
        strict_phone(x) == Some(p),
    ensures
        strict_phones(items.push(x)) == (match strict_phones(items) {
            Some(r) => Some(r.push(p)),
            None => None::<Seq<PhoneView>>,
        }),
    decreases items.len(),
{
    if items.len() == 0 {
        assert(items.push(x)[0] == x);
        assert(items.push(x).drop_first() =~= Seq::<Yaml>::empty());
        assert(strict_phone(items.push(x)[0]) == Some(p));
        assert(strict_phones(items.push(x).drop_first()) == Some(Seq::<PhoneView>::empty()));
        assert(strict_phones(items.push(x)) == Some(seq![p] + Seq::<PhoneView>::empty()));
        assert(seq![p] + Seq::<PhoneView>::empty() =~= Seq::<PhoneView>::empty().push(p));
        assert(strict_phones(items) == Some(Seq::<PhoneView>::empty()));
    } else {
        assert(items.push(x)[0] == items[0]);
        assert(items.push(x).drop_first() =~= items.drop_first().push(x));
        lemma_strict_phones_push(items.drop_first(), x, p);
        match strict_phone(items[0]) {
            Some(h) => {
                match strict_phones(items.drop_first()) {
                    Some(r) => {
                        assert(seq![h] + r.push(p) =~= (seq![h] + r).push(p));
                        assert(strict_phones(items.push(x)) == Some((seq![h] + r).push(p)));
                        assert(strict_phones(items) == Some(seq![h] + r));
                    },
                    None => {
                        assert(strict_phones(items.push(x)) is None);
                        assert(strict_phones(items) is None);
                    },
                }
            },
            None => {
                assert(strict_phones(items.push(x)) is None);
                assert(strict_phones(items) is None);
            },
        }
    }
}

/// Push lemma for strict email lists.
#[verifier::rlimit(100)]
proof fn lemma_strict_emails_push(items: Seq<Yaml>, x: Yaml, em: EmailView)
    requires
        strict_email(x) == Some(em),
    ensures
        strict_emails(items.push(x)) == (match strict_emails(items) {
            Some(r) => Some(r.push(em)),
            None => None::<Seq<EmailView>>,
        }),
    decreases items.len(),
{
    if items.len() == 0 {
        assert(items.push(x)[0] == x);
        assert(items.push(x).drop_first() =~= Seq::<Yaml>::empty());
        assert(strict_email(items.push(x)[0]) == Some(em));
        assert(strict_emails(items.push(x).drop_first()) == Some(Seq::<EmailView>::empty()));
        assert(strict_emails(items.push(x)) == Some(seq![em] + Seq::<EmailView>::empty()));
        assert(seq![em] + Seq::<EmailView>::empty() =~= Seq::<EmailView>::empty().push(em));
        assert(strict_emails(items) == Some(Seq::<EmailView>::empty()));
    } else {
        assert(items.push(x)[0] == items[0]);
        assert(items.push(x).drop_first() =~= items.drop_first().push(x));
        lemma_strict_emails_push(items.drop_first(), x, em);
        match strict_email(items[0]) {
            Some(h) => {
                match strict_emails(items.drop_first()) {
                    Some(r) => {
                        assert(seq![h] + r.push(em) =~= (seq![h] + r).push(em));
                        assert(strict_emails(items.push(x)) == Some((seq![h] + r).push(em)));
                        assert(strict_emails(items) == Some(seq![h] + r));
                    },
                    None => {
                        assert(strict_emails(items.push(x)) is None);
                        assert(strict_emails(items) is None);
                    },
                }
            },
            None => {
                assert(strict_emails(items.push(x)) is None);
                assert(strict_emails(items) is None);
            },
        }
    }
}

/// Push lemma for strict address kind lists.
proof fn lemma_strict_address_types_push(items: Seq<Yaml>, t: String)
    ensures
        strict_address_types(items.push(Yaml::Str(t))) == (match strict_address_types(items) {
            Some(r) => Some(r.push(strict_address_type_of(t@))),
            None => None::<Seq<AddressTypeView>>,
        }),
    decreases items.len(),
{
    if items.len() == 0 {
        assert(items.push(Yaml::Str(t)).drop_first() =~= Seq::<Yaml>::empty());
        assert(seq![strict_address_type_of(t@)] + Seq::<AddressTypeView>::empty()
            =~= Seq::<AddressTypeView>::empty().push(strict_address_type_of(t@)));
    } else {
        assert(items.push(Yaml::Str(t)).drop_first() =~= items.drop_first().push(Yaml::Str(t)));
        lemma_strict_address_types_push(items.drop_first(), t);
        match items[0] {
            Yaml::Str(h) => {
                match strict_address_types(items.drop_first()) {
                    Some(r) => {
                        assert(seq![strict_address_type_of(h@)] + r.push(
                            strict_address_type_of(t@),
                        ) =~= (seq![strict_address_type_of(h@)] + r).push(
                            strict_address_type_of(t@),
                        ));
                    },
                    None => {},
                }
            },
            _ => {},
        }
    }
}

/// Push lemma for strict address lists.
#[verifier::rlimit(100)]
proof fn lemma_strict_addresses_push(items: Seq<Yaml>, x: Yaml, a: AddressView)
    requires
        strict_address(x) == Some(a),
    ensures
        strict_addresses(items.push(x)) == (match strict_addresses(items) {
            Some(r) => Some(r.push(a)),
            None => None::<Seq<AddressView>>,
        }),
    decreases items.len(),
{
    if items.len() == 0 {
        assert(items.push(x)[0] == x);
        assert(items.push(x).drop_first() =~= Seq::<Yaml>::empty());
        assert(strict_address(items.push(x)[0]) == Some(a));
        assert(strict_addresses(items.push(x).drop_first()) == Some(Seq::<AddressView>::empty()));
        assert(strict_addresses(items.push(x)) == Some(seq![a] + Seq::<AddressView>::empty()));
        assert(seq![a] + Seq::<AddressView>::empty() =~= Seq::<AddressView>::empty().push(a));
        assert(strict_addresses(items) == Some(Seq::<AddressView>::empty()));
    } else {
        assert(items.push(x)[0] == items[0]);
        assert(items.push(x).drop_first() =~= items.drop_first().push(x));
        lemma_strict_addresses_push(items.drop_first(), x, a);
        match strict_address(items[0]) {
            Some(h) => {
                match strict_addresses(items.drop_first()) {
                    Some(r) => {
                        assert(seq![h] + r.push(a) =~= (seq![h] + r).push(a));
                        assert(strict_addresses(items.push(x)) == Some((seq![h] + r).push(a)));
                        assert(strict_addresses(items) == Some(seq![h] + r));
                    },
                    None => {
                        assert(strict_addresses(items.push(x)) is None);
                        assert(strict_addresses(items) is None);
                    },
                }
            },
            None => {
                assert(strict_addresses(items.push(x)) is None);
                assert(strict_addresses(items) is None);
            },
        }
    }
}

/// Where a mapping's first match for a key sits, the lookup yields it.
proof fn lemma_yaml_get_at(es: Seq<(Yaml, Yaml)>, j: int, k: Seq<char>)
    requires
        0 <= j < es.len(),
        forall|x: int|
            0 <= x < j ==> !((#[trigger] es[x]).0 matches Yaml::Str(kk) && kk@ == k),
        es[j].0 matches Yaml::Str(kj) && kj@ == k,
    ensures
        yaml_get(es, k) == Some(es[j].1),
    decreases j,
{
    if j == 0 {
    } else {
        assert(!(es[0].0 matches Yaml::Str(kk) && kk@ == k));
        assert(forall|x: int|
            0 <= x < j - 1 ==> es.drop_first()[x] == #[trigger] es[x + 1]);
        lemma_yaml_get_at(es.drop_first(), j - 1, k);
    }
}

/// The scalar carrying an optional string.
fn value_of_opt_str(o: &Option<String>) -> (r: Yaml)
    ensures
        strict_opt_str(Some(r)) == Some(crate::schema::opt_view(*o)),
{
    match o {
        Some(t) => Yaml::Str(t.clone()),
        None => Yaml::Null,
    }
}

/// The scalar carrying an optional boolean.
fn value_of_opt_bool(o: &Option<bool>) -> (r: Yaml)
    ensures
        strict_opt_bool(Some(r)) == Some(*o),
{
    match o {
        Some(b) => Yaml::Bool(*b),
        None => Yaml::Null,
    }
}

/// The value carrying an optional list of strings.
fn value_of_opt_strs(o: &Option<Vec<String>>) -> (r: Yaml)
    ensures
        strict_opt_strs(Some(r)) == Some(crate::schema::opt_strs_view(*o)),
{
    match o {
        None => Yaml::Null,
        Some(ss) => {
            let mut items: Vec<Yaml> = Vec::new();
            let mut i: usize = 0;
            proof {
                assert(strict_strs(items@) == Some(Seq::<Seq<char>>::empty()));
                assert(crate::chars::seq_views(ss@.take(0)) =~= Seq::<Seq<char>>::empty());
            }
            while i < ss.len()
                invariant
                    i <= ss@.len(),
                    strict_strs(items@) == Some(crate::chars::seq_views(ss@.take(i as int))),
                decreases ss@.len() - i,
            {
                let t = ss[i].clone();
                proof {
                    lemma_strict_strs_push(items@, t);
                }
                items.push(Yaml::Str(t));
                proof {
                    assert(crate::chars::seq_views(ss@.take(i as int)).push(ss@[i as int]@)
                        =~= crate::chars::seq_views(ss@.take(i + 1 as int)));
                }
                i = i + 1;
            }
            proof {
                assert(crate::chars::seq_views(ss@.take(ss@.len() as int))
                    =~= crate::chars::seq_views(ss@));
            }
            Yaml::Sequence(items)
        },
    }
}

/// The scalar token of a phone kind tag: the variant's lowercase name, or
/// the custom token itself.
pub open spec fn spec_phone_token(t: PhoneTypeView) -> Seq<char> {
    match t {
        PhoneTypeView::Home => "home"@,
        PhoneTypeView::Work => "work"@,
        PhoneTypeView::Mobile => "mobile"@,
        PhoneTypeView::Fax => "fax"@,
        PhoneTypeView::Pager => "pager"@,
        PhoneTypeView::Main => "main"@,
        PhoneTypeView::Other => "other"@,
        PhoneTypeView::Custom(s) => s,
    }
}

/// The scalar token of an email kind tag.
pub open spec fn spec_email_token(t: EmailTypeView) -> Seq<char> {
    match t {
        EmailTypeView::Home => "home"@,
        EmailTypeView::Work => "work"@,
        EmailTypeView::Other => "other"@,
        EmailTypeView::Custom(s) => s,
    }
}

/// A closed phone kind tag's token strict-decodes to the tag itself.
proof fn lemma_phone_token_round(t: PhoneTypeView)
    requires
        !(t is Custom),
    ensures
        strict_phone_type_of(spec_phone_token(t)) == t,
{
    reveal_strlit("home");
    reveal_strlit("work");
    reveal_strlit("mobile");
    reveal_strlit("fax");
    reveal_strlit("pager");
    reveal_strlit("main");
    reveal_strlit("other");
    assert("home"@[0] == 'h');
    assert("work"@[0] == 'w');
    assert("mobile"@[0] == 'm');
    assert("fax"@[0] == 'f');
    assert("pager"@[0] == 'p');
    assert("main"@[0] == 'm');
    assert("other"@[0] == 'o');
    assert("mobile"@[1] == 'o');
    assert("main"@[1] == 'a');
    assert("work"@ != "home"@);
    assert("mobile"@ != "home"@);
    assert("mobile"@ != "work"@);
    assert("fax"@ != "home"@);
    assert("fax"@ != "work"@);
    assert("fax"@ != "mobile"@);
    assert("pager"@ != "home"@);
    assert("pager"@ != "work"@);
    assert("pager"@ != "mobile"@);
    assert("pager"@ != "fax"@);
    assert("main"@ != "home"@);
    assert("main"@ != "work"@);
    assert("main"@ != "mobile"@);
    assert("main"@ != "fax"@);
    assert("main"@ != "pager"@);
    assert("other"@ != "home"@);
    assert("other"@ != "work"@);
    assert("other"@ != "mobile"@);
    assert("other"@ != "fax"@);
    assert("other"@ != "pager"@);
    assert("other"@ != "main"@);
    match t {
        PhoneTypeView::Home => {
            assert(strict_phone_type_of("home"@) == PhoneTypeView::Home);
        },
        PhoneTypeView::Work => {
            assert(strict_phone_type_of("work"@) == PhoneTypeView::Work);
        },
        PhoneTypeView::Mobile => {
            assert(strict_phone_type_of("mobile"@) == PhoneTypeView::Mobile);
        },
        PhoneTypeView::Fax => {
            assert(strict_phone_type_of("fax"@) == PhoneTypeView::Fax);
        },
        PhoneTypeView::Pager => {
            assert(strict_phone_type_of("pager"@) == PhoneTypeView::Pager);
        },
        PhoneTypeView::Main => {
            assert(strict_phone_type_of("main"@) == PhoneTypeView::Main);
        },
        PhoneTypeView::Other => {
            assert(strict_phone_type_of("other"@) == PhoneTypeView::Other);
        },
        PhoneTypeView::Custom(s) => {
        },
    }
}

/// The scalar token of an address kind tag.
pub open spec fn spec_address_token(t: AddressTypeView) -> Seq<char> {
    match t {
        AddressTypeView::Home => "home"@,
        AddressTypeView::Work => "work"@,
        AddressTypeView::Other => "other"@,
        AddressTypeView::Custom(s) => s,
    }
}

/// A closed address kind tag's token strict-decodes to the tag itself.
proof fn lemma_address_token_round(t: AddressTypeView)
    requires
        !(t is Custom),
    ensures
        strict_address_type_of(spec_address_token(t)) == t,
{
    reveal_strlit("home");
    reveal_strlit("work");
    reveal_strlit("other");
    assert("home"@[0] == 'h');
    assert("work"@[0] == 'w');
    assert("other"@[0] == 'o');
    assert("work"@ != "home"@);
    assert("other"@ != "home"@);
    assert("other"@ != "work"@);
    match t {
        AddressTypeView::Home => {
            assert(strict_address_type_of("home"@) == AddressTypeView::Home);
        },
        AddressTypeView::Work => {
            assert(strict_address_type_of("work"@) == AddressTypeView::Work);
        },
        AddressTypeView::Other => {
            assert(strict_address_type_of("other"@) == AddressTypeView::Other);
        },
        AddressTypeView::Custom(s) => {
        },
    }
}

/// A closed email kind tag's token strict-decodes to the tag itself.
proof fn lemma_email_token_round(t: EmailTypeView)
    requires
        !(t is Custom),
    ensures
        strict_email_type_of(spec_email_token(t)) == t,
{
    reveal_strlit("home");
    reveal_strlit("work");
    reveal_strlit("other");
    assert("home"@[0] == 'h');
    assert("work"@[0] == 'w');
    assert("other"@[0] == 'o');
    assert("work"@ != "home"@);
    assert("other"@ != "home"@);
    assert("other"@ != "work"@);
    match t {
        EmailTypeView::Home => {
            assert(strict_email_type_of("home"@) == EmailTypeView::Home);
        },
        EmailTypeView::Work => {
            assert(strict_email_type_of("work"@) == EmailTypeView::Work);
        },
        EmailTypeView::Other => {
            assert(strict_email_type_of("other"@) == EmailTypeView::Other);
        },
        EmailTypeView::Custom(s) => {
        },
    }
}

/// The scalar token of a phone kind tag.
fn token_of_phone_type(t: &PhoneType) -> (r: String)
    ensures
        r@ == spec_phone_token(t@),
{
    match t {
        PhoneType::Home => "home".to_owned(),
        PhoneType::Work => "work".to_owned(),
        PhoneType::Mobile => "mobile".to_owned(),
        PhoneType::Fax => "fax".to_owned(),
        PhoneType::Pager => "pager".to_owned(),
        PhoneType::Main => "main".to_owned(),
        PhoneType::Other => "other".to_owned(),
        PhoneType::Custom(s) => s.clone(),
    }
}

/// The scalar token of an email kind tag.
fn token_of_email_type(t: &EmailType) -> (r: String)
    ensures
        r@ == spec_email_token(t@),
{
    match t {
        EmailType::Home => "home".to_owned(),
        EmailType::Work => "work".to_owned(),
        EmailType::Other => "other".to_owned(),
        EmailType::Custom(s) => s.clone(),
    }
}

/// The scalar token of an address kind tag.
fn token_of_address_type(t: &AddressType) -> (r: String)
    ensures
        r@ == spec_address_token(t@),
{
    match t {
        AddressType::Home => "home".to_owned(),
        AddressType::Work => "work".to_owned(),
        AddressType::Other => "other".to_owned(),
        AddressType::Custom(s) => s.clone(),
    }
}

/// The value carrying one phone record.
fn value_of_phone(p: &Phone) -> (r: Yaml)
    ensures
        clean_phone_tags(p@.types) ==> strict_phone(r) == Some(p@),
{
    let mut tokens: Vec<Yaml> = Vec::new();
    let ghost tv = crate::parser::phone_type_views(p.types@);
    let mut i: usize = 0;
    proof {
        assert(strict_phone_types(tokens@) == Some(Seq::<PhoneTypeView>::empty()));
        assert(tv.take(0) =~= Seq::<PhoneTypeView>::empty());
    }
    while i < p.types.len()
        invariant
            i <= p.types@.len(),
            tv == crate::parser::phone_type_views(p.types@),
            clean_phone_tags(tv) ==> strict_phone_types(tokens@) == Some(tv.take(i as int)),
        decreases p.types@.len() - i,
    {
        let t = token_of_phone_type(&p.types[i]);
        proof {
            if clean_phone_tags(tv) {
                lemma_phone_token_round(tv[i as int]);
                lemma_strict_phone_types_push(tokens@, t);
                assert(tv.take(i as int).push(tv[i as int]) =~= tv.take(i + 1 as int));
            }
        }
        tokens.push(Yaml::Str(t));
        i = i + 1;
    }
    proof {
        assert(tv.take(tv.len() as int) =~= tv);
    }
    let mut es: Vec<(Yaml, Yaml)> = Vec::new();
    es.push((Yaml::Str("number".to_owned()), Yaml::Str(p.number.clone())));
    es.push((Yaml::Str("type".to_owned()), Yaml::Sequence(tokens)));
    es.push((Yaml::Str("ext".to_owned()), value_of_opt_str(&p.ext)));
    es.push((Yaml::Str("preferred".to_owned()), value_of_opt_bool(&p.preferred)));
    es.push((Yaml::Str("label".to_owned()), value_of_opt_str(&p.label)));
    proof {
        reveal_strlit("number");
        reveal_strlit("type");
        reveal_strlit("ext");
        reveal_strlit("preferred");
        reveal_strlit("label");
        assert("number"@.len() == 6 && "type"@.len() == 4 && "ext"@.len() == 3
            && "preferred"@.len() == 9 && "label"@.len() == 5);
        assert("type"@ != "number"@);
        assert("ext"@ != "number"@ && "ext"@ != "type"@);
        assert("preferred"@ != "number"@ && "preferred"@ != "type"@ && "preferred"@ != "ext"@);
        assert("label"@ != "number"@ && "label"@ != "type"@ && "label"@ != "ext"@ && "label"@
            != "preferred"@);
        assert(es@[0].0 matches Yaml::Str(k0) && k0@ == "number"@);
        assert(es@[1].0 matches Yaml::Str(k1) && k1@ == "type"@);
        assert(es@[2].0 matches Yaml::Str(k2) && k2@ == "ext"@);
        assert(es@[3].0 matches Yaml::Str(k3) && k3@ == "preferred"@);
        assert(es@[4].0 matches Yaml::Str(k4) && k4@ == "label"@);
        lemma_yaml_get_at(es@, 0, "number"@);
        lemma_yaml_get_at(es@, 1, "type"@);
        lemma_yaml_get_at(es@, 2, "ext"@);
        lemma_yaml_get_at(es@, 3, "preferred"@);
        lemma_yaml_get_at(es@, 4, "label"@);
    }
    Yaml::Mapping(es)
}

/// The value carrying one email record.
fn value_of_email(em: &Email) -> (r: Yaml)
    ensures
        clean_email_tags(em@.types) ==> strict_email(r) == Some(em@),
{
    let mut tokens: Vec<Yaml> = Vec::new();
    let ghost tv = crate::parser::email_type_views(em.types@);
    let mut i: usize = 0;
    proof {
        assert(strict_email_types(tokens@) == Some(Seq::<EmailTypeView>::empty()));
        assert(tv.take(0) =~= Seq::<EmailTypeView>::empty());
    }
    while i < em.types.len()
        invariant
            i <= em.types@.len(),
            tv == crate::parser::email_type_views(em.types@),
            clean_email_tags(tv) ==> strict_email_types(tokens@) == Some(tv.take(i as int)),
        decreases em.types@.len() - i,
    {
        let t = token_of_email_type(&em.types[i]);
        proof {
            if clean_email_tags(tv) {
                lemma_email_token_round(tv[i as int]);
                lemma_strict_email_types_push(tokens@, t);
                assert(tv.take(i as int).push(tv[i as int]) =~= tv.take(i + 1 as int));
            }
        }
        tokens.push(Yaml::Str(t));
        i = i + 1;
    }
    proof {
        assert(tv.take(tv.len() as int) =~= tv);
    }
    let mut es: Vec<(Yaml, Yaml)> = Vec::new();
    es.push((Yaml::Str("address".to_owned()), Yaml::Str(em.address.clone())));
    es.push((Yaml::Str("type".to_owned()), Yaml::Sequence(tokens)));
    es.push((Yaml::Str("preferred".to_owned()), value_of_opt_bool(&em.preferred)));
    proof {
        reveal_strlit("address");
        reveal_strlit("type");
        reveal_strlit("preferred");
        assert("address"@.len() == 7 && "type"@.len() == 4 && "preferred"@.len() == 9);
        assert("type"@ != "address"@);
        assert("preferred"@ != "address"@ && "preferred"@ != "type"@);
        assert(es@[0].0 matches Yaml::Str(k0) && k0@ == "address"@);
        assert(es@[1].0 matches Yaml::Str(k1) && k1@ == "type"@);
        assert(es@[2].0 matches Yaml::Str(k2) && k2@ == "preferred"@);
        lemma_yaml_get_at(es@, 0, "address"@);
        lemma_yaml_get_at(es@, 1, "type"@);
        lemma_yaml_get_at(es@, 2, "preferred"@);
    }
    Yaml::Mapping(es)
}

/// The value carrying a name.
fn value_of_name(n: &Name) -> (r: Yaml)
    ensures
        strict_name(r) == Some(n@),
        !(r is Null),
{
    let mut es: Vec<(Yaml, Yaml)> = Vec::new();
    es.push((Yaml::Str("givenName".to_owned()), value_of_opt_strs(&n.given_name)));
    es.push((Yaml::Str("middleName".to_owned()), value_of_opt_strs(&n.middle_name)));
    es.push((Yaml::Str("familyName".to_owned()), value_of_opt_strs(&n.family_name)));
    es.push((Yaml::Str("honorificPrefix".to_owned()), value_of_opt_strs(&n.honorific_prefix)));
    es.push((Yaml::Str("honorificSuffix".to_owned()), value_of_opt_strs(&n.honorific_suffix)));
    es.push((Yaml::Str("displayName".to_owned()), value_of_opt_str(&n.display_name)));
    es.push((Yaml::Str("script".to_owned()), value_of_opt_str(&n.script)));
    proof {
        reveal_strlit("givenName");
        reveal_strlit("middleName");
        reveal_strlit("familyName");
        reveal_strlit("honorificPrefix");
        reveal_strlit("honorificSuffix");
        reveal_strlit("displayName");
        reveal_strlit("script");
        assert("givenName"@.len() == 9 && "middleName"@.len() == 10 && "familyName"@.len() == 10
            && "honorificPrefix"@.len() == 15 && "honorificSuffix"@.len() == 15
            && "displayName"@.len() == 11 && "script"@.len() == 6);
        assert("givenName"@[0] == 'g' && "middleName"@[0] == 'm' && "familyName"@[0] == 'f');
        assert("honorificSuffix"@[9] == 'S' && "honorificPrefix"@[9] == 'P');
        assert("middleName"@ != "givenName"@);
        assert("familyName"@ != "givenName"@ && "familyName"@ != "middleName"@);
        assert("honorificPrefix"@ != "givenName"@ && "honorificPrefix"@ != "middleName"@
            && "honorificPrefix"@ != "familyName"@);
        assert("honorificSuffix"@ != "givenName"@ && "honorificSuffix"@ != "middleName"@
            && "honorificSuffix"@ != "familyName"@ && "honorificSuffix"@ != "honorificPrefix"@);
        assert("displayName"@ != "givenName"@ && "displayName"@ != "middleName"@
            && "displayName"@ != "familyName"@ && "displayName"@ != "honorificPrefix"@
            && "displayName"@ != "honorificSuffix"@);
        assert("script"@ != "givenName"@ && "script"@ != "middleName"@ && "script"@
            != "familyName"@ && "script"@ != "honorificPrefix"@ && "script"@
            != "honorificSuffix"@ && "script"@ != "displayName"@);
        assert(es@[0].0 matches Yaml::Str(k0) && k0@ == "givenName"@);
        assert(es@[1].0 matches Yaml::Str(k1) && k1@ == "middleName"@);
        assert(es@[2].0 matches Yaml::Str(k2) && k2@ == "familyName"@);
        assert(es@[3].0 matches Yaml::Str(k3) && k3@ == "honorificPrefix"@);
        assert(es@[4].0 matches Yaml::Str(k4) && k4@ == "honorificSuffix"@);
        assert(es@[5].0 matches Yaml::Str(k5) && k5@ == "displayName"@);
        assert(es@[6].0 matches Yaml::Str(k6) && k6@ == "script"@);
        lemma_yaml_get_at(es@, 0, "givenName"@);
        lemma_yaml_get_at(es@, 1, "middleName"@);
        lemma_yaml_get_at(es@, 2, "familyName"@);
        lemma_yaml_get_at(es@, 3, "honorificPrefix"@);
        lemma_yaml_get_at(es@, 4, "honorificSuffix"@);
        lemma_yaml_get_at(es@, 5, "displayName"@);
        lemma_yaml_get_at(es@, 6, "script"@);
    }
    Yaml::Mapping(es)
}

/// The value carrying address components.
fn value_of_components(c: &crate::schema::AddressComponents) -> (r: Yaml)
    ensures
        strict_components(r) == Some(c@),
        !(r is Null),
{
    let mut es: Vec<(Yaml, Yaml)> = Vec::new();
    es.push((Yaml::Str("street".to_owned()), value_of_opt_str(&c.street)));
    es.push((Yaml::Str("locality".to_owned()), value_of_opt_str(&c.locality)));
    es.push((Yaml::Str("region".to_owned()), value_of_opt_str(&c.region)));
    es.push((Yaml::Str("postalCode".to_owned()), value_of_opt_str(&c.postal_code)));
    es.push((Yaml::Str("country".to_owned()), value_of_opt_str(&c.country)));
    proof {
        reveal_strlit("street");
        reveal_strlit("locality");
        reveal_strlit("region");
        reveal_strlit("postalCode");
        reveal_strlit("country");
        assert("street"@.len() == 6 && "locality"@.len() == 8 && "region"@.len() == 6
            && "postalCode"@.len() == 10 && "country"@.len() == 7);
        assert("street"@[0] == 's' && "region"@[0] == 'r');
        assert("locality"@ != "street"@);
        assert("region"@ != "street"@);
        assert("region"@ != "locality"@);
        assert("postalCode"@ != "street"@ && "postalCode"@ != "locality"@ && "postalCode"@
            != "region"@);
        assert("country"@ != "street"@ && "country"@ != "locality"@ && "country"@ != "region"@
            && "country"@ != "postalCode"@);
        assert(es@[0].0 matches Yaml::Str(k0) && k0@ == "street"@);
        assert(es@[1].0 matches Yaml::Str(k1) && k1@ == "locality"@);
        assert(es@[2].0 matches Yaml::Str(k2) && k2@ == "region"@);
        assert(es@[3].0 matches Yaml::Str(k3) && k3@ == "postalCode"@);
        assert(es@[4].0 matches Yaml::Str(k4) && k4@ == "country"@);
        lemma_yaml_get_at(es@, 0, "street"@);
        lemma_yaml_get_at(es@, 1, "locality"@);
        lemma_yaml_get_at(es@, 2, "region"@);
        lemma_yaml_get_at(es@, 3, "postalCode"@);
        lemma_yaml_get_at(es@, 4, "country"@);
    }
    Yaml::Mapping(es)
}

/// The value carrying one address record.
fn value_of_address(a: &Address) -> (r: Yaml)
    ensures
        clean_address_tags(a@.types) ==> strict_address(r) == Some(a@),
{
    let mut tokens: Vec<Yaml> = Vec::new();
    let ghost tv = a.types@.map_values(|t: AddressType| t@);
    let mut i: usize = 0;
    proof {
        assert(strict_address_types(tokens@) == Some(Seq::<AddressTypeView>::empty()));
        assert(tv.take(0) =~= Seq::<AddressTypeView>::empty());
    }
    while i < a.types.len()
        invariant
            i <= a.types@.len(),
            tv == a.types@.map_values(|t: AddressType| t@),
            clean_address_tags(tv) ==> strict_address_types(tokens@) == Some(tv.take(i as int)),
        decreases a.types@.len() - i,
    {
        let t = token_of_address_type(&a.types[i]);
        proof {
            if clean_address_tags(tv) {
                lemma_address_token_round(tv[i as int]);
                lemma_strict_address_types_push(tokens@, t);
                assert(tv.take(i as int).push(tv[i as int]) =~= tv.take(i + 1 as int));
            }
        }
        tokens.push(Yaml::Str(t));
        i = i + 1;
    }
    proof {
        assert(tv.take(tv.len() as int) =~= tv);
    }
    let components_v = match &a.components {
        Some(c) => value_of_components(c),
        None => Yaml::Null,
    };
    let mut es: Vec<(Yaml, Yaml)> = Vec::new();
    es.push((Yaml::Str("type".to_owned()), Yaml::Sequence(tokens)));
    es.push((Yaml::Str("formatted".to_owned()), value_of_opt_str(&a.formatted)));
    es.push((Yaml::Str("components".to_owned()), components_v));
    proof {
        reveal_strlit("type");
        reveal_strlit("formatted");
        reveal_strlit("components");
        assert("type"@.len() == 4 && "formatted"@.len() == 9 && "components"@.len() == 10);
        assert("formatted"@ != "type"@);
        assert("components"@ != "type"@ && "components"@ != "formatted"@);
        assert(es@[0].0 matches Yaml::Str(k0) && k0@ == "type"@);
        assert(es@[1].0 matches Yaml::Str(k1) && k1@ == "formatted"@);
        assert(es@[2].0 matches Yaml::Str(k2) && k2@ == "components"@);
        lemma_yaml_get_at(es@, 0, "type"@);
        lemma_yaml_get_at(es@, 1, "formatted"@);
        lemma_yaml_get_at(es@, 2, "components"@);
    }
    Yaml::Mapping(es)
}

/// The value carrying metadata.
fn value_of_metadata(m: &crate::schema::Metadata) -> (r: Yaml)
    ensures
        strict_metadata(r) == Some(m@),
        !(r is Null),
{
    let mut es: Vec<(Yaml, Yaml)> = Vec::new();
    es.push((Yaml::Str("locale".to_owned()), value_of_opt_str(&m.locale)));
    es.push((Yaml::Str("source".to_owned()), value_of_opt_str(&m.source)));
    proof {
        reveal_strlit("locale");
        reveal_strlit("source");
        assert("source"@[0] == 's' && "locale"@[0] == 'l');
        assert("source"@ != "locale"@);
        assert(es@[0].0 matches Yaml::Str(k0) && k0@ == "locale"@);
        assert(es@[1].0 matches Yaml::Str(k1) && k1@ == "source"@);
        lemma_yaml_get_at(es@, 0, "locale"@);
        lemma_yaml_get_at(es@, 1, "source"@);
    }
    Yaml::Mapping(es)
}

/// The canonical generic-value form of a document: every field under its
/// canonical key. For a document without custom kind tags, strict decoding
/// undoes it — see [`lemma_strict_decode_of_encoding`].
pub fn doc_to_value(ycard: &YCard) -> (v: Yaml)
    ensures
        clean_ycard(ycard@) ==> encodes(ycard@, v),
{
    let version_v = Yaml::Int(ycard.version as i64);
    let uid_v = value_of_opt_str(&ycard.uid);
    let name_v = match &ycard.name {
        Some(n) => value_of_name(n),
        None => Yaml::Null,
    };
    let phones_v = match &ycard.phones {
        None => Yaml::Null,
        Some(ps) => {
            let mut items: Vec<Yaml> = Vec::new();
            let ghost pv = crate::parser::phone_views(ps@);
            let mut i: usize = 0;
            proof {
                assert(strict_phones(items@) == Some(Seq::<PhoneView>::empty()));
                assert(pv.take(0) =~= Seq::<PhoneView>::empty());
            }
            while i < ps.len()
                invariant
                    i <= ps@.len(),
                    pv == crate::parser::phone_views(ps@),
                    (forall|j: int|
                        0 <= j < pv.len() ==> clean_phone_tags(
                            (#[trigger] pv[j]).types,
                        )) ==> strict_phones(items@) == Some(pv.take(i as int)),
                decreases ps@.len() - i,
            {
                let x = value_of_phone(&ps[i]);
                proof {
                    if forall|j: int|
                        0 <= j < pv.len() ==> clean_phone_tags((#[trigger] pv[j]).types) {
                        lemma_strict_phones_push(items@, x, pv[i as int]);
                        assert(pv.take(i as int).push(pv[i as int]) =~= pv.take(i + 1 as int));
                    }
                }
                items.push(x);
                i = i + 1;
            }
            proof {
                assert(pv.take(pv.len() as int) =~= pv);
            }
            Yaml::Sequence(items)
        },
    };
    let emails_v = match &ycard.emails {
        None => Yaml::Null,
        Some(ems) => {
            let mut items: Vec<Yaml> = Vec::new();
            let ghost ev = crate::parser::email_views(ems@);
            let mut i: usize = 0;
            proof {
                assert(strict_emails(items@) == Some(Seq::<EmailView>::empty()));
                assert(ev.take(0) =~= Seq::<EmailView>::empty());
            }
            while i < ems.len()
                invariant
                    i <= ems@.len(),
                    ev == crate::parser::email_views(ems@),
                    (forall|j: int|
                        0 <= j < ev.len() ==> clean_email_tags(
                            (#[trigger] ev[j]).types,
                        )) ==> strict_emails(items@) == Some(ev.take(i as int)),
                decreases ems@.len() - i,
            {
                let x = value_of_email(&ems[i]);
                proof {
                    if forall|j: int|
                        0 <= j < ev.len() ==> clean_email_tags((#[trigger] ev[j]).types) {
                        lemma_strict_emails_push(items@, x, ev[i as int]);
                        assert(ev.take(i as int).push(ev[i as int]) =~= ev.take(i + 1 as int));
                    }
                }
                items.push(x);
                i = i + 1;
            }
            proof {
                assert(ev.take(ev.len() as int) =~= ev);
            }
            Yaml::Sequence(items)
        },
    };
    let addresses_v = match &ycard.addresses {
        None => Yaml::Null,
        Some(xs) => {
            let mut items: Vec<Yaml> = Vec::new();
            let ghost av = crate::parser::address_views(xs@);
            let mut i: usize = 0;
            proof {
                assert(strict_addresses(items@) == Some(Seq::<AddressView>::empty()));
                assert(av.take(0) =~= Seq::<AddressView>::empty());
            }
            while i < xs.len()
                invariant
                    i <= xs@.len(),
                    av == crate::parser::address_views(xs@),
                    (forall|j: int|
                        0 <= j < av.len() ==> clean_address_tags(
                            (#[trigger] av[j]).types,
                        )) ==> strict_addresses(items@) == Some(av.take(i as int)),
                decreases xs@.len() - i,
            {
                let x = value_of_address(&xs[i]);
                proof {
                    if forall|j: int|
                        0 <= j < av.len() ==> clean_address_tags((#[trigger] av[j]).types) {
                        lemma_strict_addresses_push(items@, x, av[i as int]);
                        assert(av.take(i as int).push(av[i as int]) =~= av.take(i + 1 as int));
                    }
                }
                items.push(x);
                i = i + 1;
            }
            proof {
                assert(av.take(av.len() as int) =~= av);
            }
            Yaml::Sequence(items)
        },
    };
    let metadata_v = match &ycard.metadata {
        Some(m) => value_of_metadata(m),
        None => Yaml::Null,
    };
    let mut es: Vec<(Yaml, Yaml)> = Vec::new();
    es.push((Yaml::Str("version".to_owned()), version_v));
    es.push((Yaml::Str("uid".to_owned()), uid_v));
    es.push((Yaml::Str("name".to_owned()), name_v));
    es.push((Yaml::Str("phones".to_owned()), phones_v));
    es.push((Yaml::Str("emails".to_owned()), emails_v));
    es.push((Yaml::Str("addresses".to_owned()), addresses_v));
    es.push((Yaml::Str("metadata".to_owned()), metadata_v));
    proof {
        reveal_strlit("version");
        reveal_strlit("uid");
        reveal_strlit("name");
        reveal_strlit("phones");
        reveal_strlit("emails");
        reveal_strlit("addresses");
        reveal_strlit("metadata");
        assert("version"@.len() == 7 && "uid"@.len() == 3 && "name"@.len() == 4
            && "phones"@.len() == 6 && "emails"@.len() == 6 && "addresses"@.len() == 9
            && "metadata"@.len() == 8);
        assert("emails"@[0] == 'e' && "phones"@[0] == 'p');
        assert("uid"@ != "version"@);
        assert("name"@ != "version"@ && "name"@ != "uid"@);
        assert("phones"@ != "version"@ && "phones"@ != "uid"@ && "phones"@ != "name"@);
        assert("emails"@ != "version"@ && "emails"@ != "uid"@ && "emails"@ != "name"@
            && "emails"@ != "phones"@);
        assert("addresses"@ != "version"@ && "addresses"@ != "uid"@ && "addresses"@ != "name"@
            && "addresses"@ != "phones"@ && "addresses"@ != "emails"@);
        assert("metadata"@ != "version"@ && "metadata"@ != "uid"@ && "metadata"@ != "name"@
            && "metadata"@ != "phones"@ && "metadata"@ != "emails"@ && "metadata"@
            != "addresses"@);
        assert(es@[0].0 matches Yaml::Str(k0) && k0@ == "version"@);
        assert(es@[1].0 matches Yaml::Str(k1) && k1@ == "uid"@);
        assert(es@[2].0 matches Yaml::Str(k2) && k2@ == "name"@);
        assert(es@[3].0 matches Yaml::Str(k3) && k3@ == "phones"@);
        assert(es@[4].0 matches Yaml::Str(k4) && k4@ == "emails"@);
        assert(es@[5].0 matches Yaml::Str(k5) && k5@ == "addresses"@);
        assert(es@[6].0 matches Yaml::Str(k6) && k6@ == "metadata"@);
        lemma_yaml_get_at(es@, 0, "version"@);
        lemma_yaml_get_at(es@, 1, "uid"@);
        lemma_yaml_get_at(es@, 2, "name"@);
        lemma_yaml_get_at(es@, 3, "phones"@);
        lemma_yaml_get_at(es@, 4, "emails"@);
        lemma_yaml_get_at(es@, 5, "addresses"@);
        lemma_yaml_get_at(es@, 6, "metadata"@);
    }
    Yaml::Mapping(es)
}

} // verus!

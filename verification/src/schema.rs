//! The canonical yCard document model: a versioned contact record with an
//! optional name, phone list, email list, address list and metadata.

use vstd::prelude::*;
use crate::types::{
    AddressType, AddressTypeView, EmailType, EmailTypeView, PhoneType, PhoneTypeView,
};

verus! {

/// A canonical yCard contact record.
#[derive(Debug, Clone, PartialEq)]
pub struct YCard {
    pub version: u8,
    pub uid: Option<String>,
    pub name: Option<Name>,
    pub phones: Option<Vec<Phone>>,
    pub emails: Option<Vec<Email>>,
    pub addresses: Option<Vec<Address>>,
    pub metadata: Option<Metadata>,
}

/// A personal name, split into ordered part lists plus an optional single
/// display form.
#[derive(Debug, Clone, PartialEq)]
pub struct Name {
    pub given_name: Option<Vec<String>>,
    pub middle_name: Option<Vec<String>>,
    pub family_name: Option<Vec<String>>,
    pub honorific_prefix: Option<Vec<String>>,
    pub honorific_suffix: Option<Vec<String>>,
    pub display_name: Option<String>,
    pub script: Option<String>,
}

/// A phone record; `number` is kept in the canonical `+<digits>` form.
#[derive(Debug, Clone, PartialEq)]
pub struct Phone {
    pub number: String,
    pub types: Vec<PhoneType>,
    pub ext: Option<String>,
    pub preferred: Option<bool>,
    pub label: Option<String>,
}

/// An email record.
#[derive(Debug, Clone, PartialEq)]
pub struct Email {
    pub address: String,
    pub types: Vec<EmailType>,
    pub preferred: Option<bool>,
}

/// A postal address, either as one formatted string or as components.
#[derive(Debug, Clone, PartialEq)]
pub struct Address {
    pub types: Vec<AddressType>,
    pub formatted: Option<String>,
    pub components: Option<AddressComponents>,
}

/// The structured parts of a postal address.
#[derive(Debug, Clone, PartialEq)]
pub struct AddressComponents {
    pub street: Option<String>,
    pub locality: Option<String>,
    pub region: Option<String>,
    pub postal_code: Option<String>,
    pub country: Option<String>,
}

/// Document metadata: an optional BCP-47 locale tag and a free-text source.
#[derive(Debug, Clone, PartialEq)]
pub struct Metadata {
    pub locale: Option<String>,
    pub source: Option<String>,
}


/// The abstract value of a [`YCard`].
#[verifier::ext_equal]
pub struct YCardView {
    pub version: u8,
    pub uid: Option<Seq<char>>,
    pub name: Option<NameView>,
    pub phones: Option<Seq<PhoneView>>,
    pub emails: Option<Seq<EmailView>>,
    pub addresses: Option<Seq<AddressView>>,
    pub metadata: Option<MetadataView>,
}

/// The abstract value of a [`Name`].
#[verifier::ext_equal]
pub struct NameView {
    pub given_name: Option<Seq<Seq<char>>>,
    pub middle_name: Option<Seq<Seq<char>>>,
    pub family_name: Option<Seq<Seq<char>>>,
    pub honorific_prefix: Option<Seq<Seq<char>>>,
    pub honorific_suffix: Option<Seq<Seq<char>>>,
    pub display_name: Option<Seq<char>>,
    pub script: Option<Seq<char>>,
}

/// The abstract value of a [`Phone`].
#[verifier::ext_equal]
pub struct PhoneView {
    pub number: Seq<char>,
    pub types: Seq<PhoneTypeView>,
    pub ext: Option<Seq<char>>,
    pub preferred: Option<bool>,
    pub label: Option<Seq<char>>,
}

/// The abstract value of an [`Email`].
#[verifier::ext_equal]
pub struct EmailView {
    pub address: Seq<char>,
    pub types: Seq<EmailTypeView>,
    pub preferred: Option<bool>,
}

/// The abstract value of an [`Address`].
#[verifier::ext_equal]
pub struct AddressView {
    pub types: Seq<AddressTypeView>,
    pub formatted: Option<Seq<char>>,
    pub components: Option<AddressComponentsView>,
}

/// The abstract value of an [`AddressComponents`].
#[verifier::ext_equal]
pub struct AddressComponentsView {
    pub street: Option<Seq<char>>,
    pub locality: Option<Seq<char>>,
    pub region: Option<Seq<char>>,
    pub postal_code: Option<Seq<char>>,
    pub country: Option<Seq<char>>,
}

/// The abstract value of a [`Metadata`].
#[verifier::ext_equal]
pub struct MetadataView {
    pub locale: Option<Seq<char>>,
    pub source: Option<Seq<char>>,
}

/// The view of an optional string.
pub open spec fn opt_view(o: Option<String>) -> Option<Seq<char>> {
    match o {
        Some(s) => Some(s@),
        None => None,
    }
}

/// The view of an optional list of strings.
pub open spec fn opt_strs_view(o: Option<Vec<String>>) -> Option<Seq<Seq<char>>> {
    match o {
        Some(v) => Some(v@.map_values(|s: String| s@)),
        None => None,
    }
}

impl View for Phone {
    type V = PhoneView;

    open spec fn view(&self) -> PhoneView {
        PhoneView {
            number: self.number@,
            types: self.types@.map_values(|t: PhoneType| t@),
            ext: opt_view(self.ext),
            preferred: self.preferred,
            label: opt_view(self.label),
        }
    }
}

impl View for Email {
    type V = EmailView;

    open spec fn view(&self) -> EmailView {
        EmailView {
            address: self.address@,
            types: self.types@.map_values(|t: EmailType| t@),
            preferred: self.preferred,
        }
    }
}

impl View for AddressComponents {
    type V = AddressComponentsView;

    open spec fn view(&self) -> AddressComponentsView {
        AddressComponentsView {
            street: opt_view(self.street),
            locality: opt_view(self.locality),
            region: opt_view(self.region),
            postal_code: opt_view(self.postal_code),
            country: opt_view(self.country),
        }
    }
}

impl View for Address {
    type V = AddressView;

    open spec fn view(&self) -> AddressView {
        AddressView {
            types: self.types@.map_values(|t: AddressType| t@),
            formatted: opt_view(self.formatted),
            components: match self.components {
                Some(c) => Some(c@),
                None => None,
            },
        }
    }
}

impl View for Name {
    type V = NameView;

    open spec fn view(&self) -> NameView {
        NameView {
            given_name: opt_strs_view(self.given_name),
            middle_name: opt_strs_view(self.middle_name),
            family_name: opt_strs_view(self.family_name),
            honorific_prefix: opt_strs_view(self.honorific_prefix),
            honorific_suffix: opt_strs_view(self.honorific_suffix),
            display_name: opt_view(self.display_name),
            script: opt_view(self.script),
        }
    }
}

impl View for Metadata {
    type V = MetadataView;

    open spec fn view(&self) -> MetadataView {
        MetadataView { locale: opt_view(self.locale), source: opt_view(self.source) }
    }
}

impl View for YCard {
    type V = YCardView;

    open spec fn view(&self) -> YCardView {
        YCardView {
            version: self.version,
            uid: opt_view(self.uid),
            name: match self.name {
                Some(n) => Some(n@),
                None => None,
            },
            phones: match self.phones {
                Some(ps) => Some(ps@.map_values(|p: Phone| p@)),
                None => None,
            },
            emails: match self.emails {
                Some(es) => Some(es@.map_values(|e: Email| e@)),
                None => None,
            },
            addresses: match self.addresses {
                Some(xs) => Some(xs@.map_values(|a: Address| a@)),
                None => None,
            },
            metadata: match self.metadata {
                Some(m) => Some(m@),
                None => None,
            },
        }
    }
}

/// The view of the default document.
pub open spec fn default_ycard_view() -> YCardView {
    YCardView {
        version: 1,
        uid: None,
        name: None,
        phones: None,
        emails: None,
        addresses: None,
        metadata: None,
    }
}

/// The view of a name with every part absent.
pub open spec fn empty_name_view() -> NameView {
    NameView {
        given_name: None,
        middle_name: None,
        family_name: None,
        honorific_prefix: None,
        honorific_suffix: None,
        display_name: None,
        script: None,
    }
}

/// The default document: version 1, everything else absent.
pub open spec fn default_ycard() -> YCard {
    YCard {
        version: 1,
        uid: None,
        name: None,
        phones: None,
        emails: None,
        addresses: None,
        metadata: None,
    }
}

impl Default for YCard {
    fn default() -> (r: Self)
        ensures
            r == default_ycard(),
    {
        YCard {
            version: 1,
            uid: None,
            name: None,
            phones: None,
            emails: None,
            addresses: None,
            metadata: None,
        }
    }
}

} // verus!

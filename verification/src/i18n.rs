//! The layered, BCP-47-aware alias store.
//!
//! An [`AliasManager`] holds an ordered list of alias packs — the baked-in
//! fallback pack first, explicitly loaded packs after it — and resolves raw
//! keys and type tokens to canonical names. Lookup walks the packs from the
//! most recently loaded to the oldest, and inside each pack walks the BCP-47
//! fallback chain of the locale. Key comparison is case-insensitive and
//! diacritic-insensitive through [`norm_key`].

use vstd::prelude::*;
use unicode_normalization::UnicodeNormalization;
use crate::chars::{
    chars_eq, chars_vec, lower_chars, lower_of, seq_views, strip_marks, strip_marks_vec,
};
use crate::yaml::{json_of, json_of_bytes, parse_json_bytes, parse_json_text, yaml_find, yaml_get, Yaml};

verus! {

/// The alias tables of one locale: raw token to canonical name, for keys and
/// for type tokens, with optional country names and honorific tokens.
///
/// Stored keys are expected in normalized form ([`norm_key`]); lookups
/// normalize the raw token before comparing.
#[derive(Debug, Clone)]
pub struct LocaleData {
    pub key_aliases: Vec<(String, String)>,
    pub type_aliases: Vec<(String, String)>,
    pub countries: Option<Vec<(String, String)>>,
    pub honorifics: Option<Vec<String>>,
}

/// One alias pack: a version tag and per-locale alias tables.
#[derive(Debug, Clone)]
pub struct AliasPack {
    pub version: String,
    pub locales: Vec<(String, LocaleData)>,
}

/// The layered alias store with its default locale.
#[derive(Debug, Clone)]
pub struct AliasManager {
    packs: Vec<AliasPack>,
    default_locale: String,
}

/// The abstract state of an [`AliasManager`].
pub struct AliasManagerView {
    pub packs: Seq<AliasPack>,
    pub default_locale: Seq<char>,
}

impl View for AliasManager {
    type V = AliasManagerView;

    closed spec fn view(&self) -> AliasManagerView {
        AliasManagerView { packs: self.packs@, default_locale: self.default_locale@ }
    }
}

/// The name that `unicode_normalization`'s `nfd` gives to a character
/// sequence: its Unicode canonical decomposition. The result depends on the
/// characters alone.
pub uninterp spec fn nfd_of(s: Seq<char>) -> Seq<char>;

/// Relies on `unicode_normalization::UnicodeNormalization::nfd`: the canonical
/// decomposition of the characters, a function of the characters alone.
/// ASCII characters have no canonical decompositions, so all-ASCII text is
/// left unchanged.
#[verifier::external_body]
fn nfd_vec(v: &Vec<char>) -> (r: Vec<char>)
    ensures
        r@ == nfd_of(v@),
        (forall|i: int| 0 <= i < v@.len() ==> (v@[i] as u32) < 128) ==> r@ == v@,
{
    v.iter().cloned().nfd().collect()
}

/// The normalized form under which keys are compared: Unicode canonical
/// decomposition, combining diacritical marks removed, lowercased.
pub open spec fn norm_key(s: Seq<char>) -> Seq<char> {
    lower_of(strip_marks(nfd_of(s)))
}

/// First-match lookup in an association list of strings.
pub open spec fn assoc_str(pairs: Seq<(String, String)>, k: Seq<char>) -> Option<Seq<char>>
    decreases pairs.len(),
{
    if pairs.len() == 0 {
        None
    } else if pairs[0].0@ == k {
        Some(pairs[0].1@)
    } else {
        assoc_str(pairs.drop_first(), k)
    }
}

/// First-match lookup of a locale's data in a pack's locale list.
pub open spec fn assoc_locale(locs: Seq<(String, LocaleData)>, loc: Seq<char>) -> Option<
    LocaleData,
>
    decreases locs.len(),
{
    if locs.len() == 0 {
        None
    } else if locs[0].0@ == loc {
        Some(locs[0].1)
    } else {
        assoc_locale(locs.drop_first(), loc)
    }
}

/// The index of the first `-` in a locale tag, or its length.
pub open spec fn dash_split(l: Seq<char>) -> int
    decreases l.len(),
{
    if l.len() == 0 {
        0
    } else if l[0] == '-' {
        0
    } else {
        1 + dash_split(l.drop_first())
    }
}

/// The language subtag: the part of the tag before the first `-`.
pub open spec fn lang_of(l: Seq<char>) -> Seq<char> {
    l.take(dash_split(l))
}

/// The BCP-47 fallback chain of a locale tag: the full tag, then the language
/// subtag where it is distinct, then `"root"` unless the tag itself is
/// `"root"`.
pub open spec fn locale_chain(l: Seq<char>) -> Seq<Seq<char>> {
    let base: Seq<Seq<char>> = seq![l];
    let with_lang: Seq<Seq<char>> = if lang_of(l) != l {
        base.push(lang_of(l))
    } else {
        base
    };
    if l != "root"@ {
        with_lang.push("root"@)
    } else {
        with_lang
    }
}

/// Key lookup in one pack under one locale.
pub open spec fn pack_key_lookup(p: AliasPack, loc: Seq<char>, nk: Seq<char>) -> Option<Seq<char>> {
    match assoc_locale(p.locales@, loc) {
        Some(ld) => assoc_str(ld.key_aliases@, nk),
        None => None,
    }
}

/// Type-token lookup in one pack under one locale.
pub open spec fn pack_type_lookup(p: AliasPack, loc: Seq<char>, nk: Seq<char>) -> Option<
    Seq<char>,
> {
    match assoc_locale(p.locales@, loc) {
        Some(ld) => assoc_str(ld.type_aliases@, nk),
        None => None,
    }
}

/// Key lookup in one pack, walking the fallback chain in order.
pub open spec fn chain_key_lookup(p: AliasPack, chain: Seq<Seq<char>>, nk: Seq<char>) -> Option<
    Seq<char>,
>
    decreases chain.len(),
{
    if chain.len() == 0 {
        None
    } else {
        match pack_key_lookup(p, chain[0], nk) {
            Some(a) => Some(a),
            None => chain_key_lookup(p, chain.drop_first(), nk),
        }
    }
}

/// Type-token lookup in one pack, walking the fallback chain in order.
pub open spec fn chain_type_lookup(p: AliasPack, chain: Seq<Seq<char>>, nk: Seq<char>) -> Option<
    Seq<char>,
>
    decreases chain.len(),
{
    if chain.len() == 0 {
        None
    } else {
        match pack_type_lookup(p, chain[0], nk) {
            Some(a) => Some(a),
            None => chain_type_lookup(p, chain.drop_first(), nk),
        }
    }
}

/// Key lookup over the layered packs, most recently loaded first.
pub open spec fn packs_key_lookup(
    packs: Seq<AliasPack>,
    chain: Seq<Seq<char>>,
    nk: Seq<char>,
) -> Option<Seq<char>>
    decreases packs.len(),
{
    if packs.len() == 0 {
        None
    } else {
        match chain_key_lookup(packs.last(), chain, nk) {
            Some(a) => Some(a),
            None => packs_key_lookup(packs.drop_last(), chain, nk),
        }
    }
}

/// Type-token lookup over the layered packs, most recently loaded first.
pub open spec fn packs_type_lookup(
    packs: Seq<AliasPack>,
    chain: Seq<Seq<char>>,
    nk: Seq<char>,
) -> Option<Seq<char>>
    decreases packs.len(),
{
    if packs.len() == 0 {
        None
    } else {
        match chain_type_lookup(packs.last(), chain, nk) {
            Some(a) => Some(a),
            None => packs_type_lookup(packs.drop_last(), chain, nk),
        }
    }
}

/// The locale a resolution call works under: the explicit argument, or the
/// store's default.
pub open spec fn effective_locale(m: AliasManagerView, locale: Option<&str>) -> Seq<char> {
    match locale {
        Some(l) => l@,
        None => m.default_locale,
    }
}

/// What `resolve_key_alias` returns: the layered lookup of the normalized key
/// along the fallback chain of the effective locale.
pub open spec fn spec_resolve_key(m: AliasManagerView, key: Seq<char>, locale: Option<&str>)
    -> Option<Seq<char>> {
    packs_key_lookup(m.packs, locale_chain(effective_locale(m, locale)), norm_key(key))
}

/// What `resolve_type_alias` returns.
pub open spec fn spec_resolve_type(m: AliasManagerView, tok: Seq<char>, locale: Option<&str>)
    -> Option<Seq<char>> {
    packs_type_lookup(m.packs, locale_chain(effective_locale(m, locale)), norm_key(tok))
}

/// First-match lookup in an association list, returning a copy of the value.
fn assoc_get(pairs: &Vec<(String, String)>, k: &String) -> (r: Option<String>)
    ensures
        r matches Some(a) ==> assoc_str(pairs@, k@) == Some(a@),
        r is None ==> assoc_str(pairs@, k@) is None,
{
    proof {
        assert(pairs@.skip(0) =~= pairs@);
    }
    let mut i: usize = 0;
    while i < pairs.len()
        invariant
            i <= pairs@.len(),
            assoc_str(pairs@, k@) == assoc_str(pairs@.skip(i as int), k@),
        decreases pairs@.len() - i,
    {
        proof {
            assert(pairs@.skip(i as int).drop_first() =~= pairs@.skip(i + 1 as int));
        }
        if pairs[i].0 == *k {
            return Some(pairs[i].1.clone());
        }
        i = i + 1;
    }
    None
}

/// First-match lookup of a locale's data, returning its index.
fn locale_index(locs: &Vec<(String, LocaleData)>, loc: &String) -> (r: Option<usize>)
    ensures
        r matches Some(i) ==> i < locs@.len() && assoc_locale(locs@, loc@) == Some(locs@[i as int].1)
            && locs@[i as int].0@ == loc@,
        r is None ==> assoc_locale(locs@, loc@) is None,
{
    proof {
        assert(locs@.skip(0) =~= locs@);
    }
    let mut i: usize = 0;
    while i < locs.len()
        invariant
            i <= locs@.len(),
            assoc_locale(locs@, loc@) == assoc_locale(locs@.skip(i as int), loc@),
            forall|j: int| 0 <= j < i ==> locs@[j].0@ != loc@,
        decreases locs@.len() - i,
    {
        proof {
            assert(locs@.skip(i as int).drop_first() =~= locs@.skip(i + 1 as int));
        }
        if locs[i].0 == *loc {
            return Some(i);
        }
        i = i + 1;
    }
    None
}


/// The views of an association list's pairs.
pub open spec fn pairs_views(ps: Seq<(String, String)>) -> Seq<(Seq<char>, Seq<char>)> {
    ps.map_values(|p: (String, String)| (p.0@, p.1@))
}

/// The key aliases of the baked-in fallback pack, under the "root" locale:
/// shorthand phone-kind keys, list keys, and name-part keys.
#[verifier::opaque]
pub open spec fn fallback_key_pairs() -> Seq<(Seq<char>, Seq<char>)> {
    seq![
        ("mobile"@, "phones.type:mobile"@),
        ("cell"@, "phones.type:mobile"@),
        ("movil"@, "phones.type:mobile"@),
        ("portable"@, "phones.type:mobile"@),
        ("home"@, "phones.type:home"@),
        ("casa"@, "phones.type:home"@),
        ("domicile"@, "phones.type:home"@),
        ("work"@, "phones.type:work"@),
        ("trabajo"@, "phones.type:work"@),
        ("travail"@, "phones.type:work"@),
        ("bureau"@, "phones.type:work"@),
        ("fax"@, "phones.type:fax"@),
        ("pager"@, "phones.type:pager"@),
        ("main"@, "phones.type:main"@),
        ("principal"@, "phones.type:main"@),
        ("phone"@, "phones"@),
        ("telephone"@, "phones"@),
        ("telefono"@, "phones"@),
        ("telefon"@, "phones"@),
        ("email"@, "emails"@),
        ("mail"@, "emails"@),
        ("correo"@, "emails"@),
        ("courriel"@, "emails"@),
        ("givenname"@, "name.givenName"@),
        ("firstname"@, "name.givenName"@),
        ("prenom"@, "name.givenName"@),
        ("familyname"@, "name.familyName"@),
        ("lastname"@, "name.familyName"@),
        ("surname"@, "name.familyName"@),
        ("nom"@, "name.familyName"@),
        ("displayname"@, "name.displayName"@),
    ]
}

/// The type aliases of the baked-in fallback pack, under the "root" locale.
#[verifier::opaque]
pub open spec fn fallback_type_pairs() -> Seq<(Seq<char>, Seq<char>)> {
    seq![
        ("movil"@, "mobile"@),
        ("cell"@, "mobile"@),
        ("portable"@, "mobile"@),
        ("casa"@, "home"@),
        ("domicile"@, "home"@),
        ("trabajo"@, "work"@),
        ("travail"@, "work"@),
        ("bureau"@, "work"@),
        ("principal"@, "main"@),
        ("otro"@, "other"@),
        ("autre"@, "other"@),
    ]
}

/// Whether a pack is the baked-in fallback pack: one "root" locale whose
/// tables are exactly the fallback alias pairs.
pub open spec fn is_fallback_pack(p: AliasPack) -> bool {
    &&& p.version@ == "1"@
    &&& p.locales@.len() == 1
    &&& p.locales@[0].0@ == "root"@
    &&& pairs_views(p.locales@[0].1.key_aliases@) == fallback_key_pairs()
    &&& pairs_views(p.locales@[0].1.type_aliases@) == fallback_type_pairs()
    &&& p.locales@[0].1.countries is None
    &&& p.locales@[0].1.honorifics is None
}


/// Whether every entry of a mapping is a string-to-string pair.
pub open spec fn all_str_pairs(entries: Seq<(Yaml, Yaml)>) -> bool {
    forall|i: int| 0 <= i < entries.len() ==> entries[i].0 is Str && entries[i].1 is Str
}

/// How a string-to-string mapping decodes into an association list: the same
/// pairs in the same order.
pub open spec fn str_pairs_decode(entries: Seq<(Yaml, Yaml)>, out: Seq<(String, String)>) -> bool {
    &&& out.len() == entries.len()
    &&& forall|i: int|
        #![trigger entries[i]]
        0 <= i < entries.len() ==> (entries[i].0 matches Yaml::Str(a) && entries[i].1 matches Yaml::Str(b)
            && out[i].0 == a && out[i].1 == b)
}

/// Whether every item of a sequence is a string.
pub open spec fn all_str_items(items: Seq<Yaml>) -> bool {
    forall|i: int| 0 <= i < items.len() ==> items[i] is Str
}

/// How a sequence of strings decodes: the same strings in the same order.
pub open spec fn strs_decode(items: Seq<Yaml>, out: Seq<String>) -> bool {
    &&& out.len() == items.len()
    &&& forall|i: int|
        #![trigger items[i]]
        0 <= i < items.len() ==> (items[i] matches Yaml::Str(a) && out[i] == a)
}

/// Whether a generic value has the shape of a locale's alias tables:
/// `keyAliases` and `typeAliases` string-to-string mappings, optional
/// `countries` mapping, optional `honorifics` string list.
pub open spec fn locale_shape_ok(v: Yaml) -> bool {
    &&& v matches Yaml::Mapping(es)
    &&& yaml_get(es@, "keyAliases"@) matches Some(Yaml::Mapping(kae)) && all_str_pairs(kae@)
    &&& yaml_get(es@, "typeAliases"@) matches Some(Yaml::Mapping(tae)) && all_str_pairs(tae@)
    &&& match yaml_get(es@, "countries"@) {
        Option::None => true,
        Option::Some(c) => c is Null || (c matches Yaml::Mapping(ce) && all_str_pairs(ce@)),
    }
    &&& match yaml_get(es@, "honorifics"@) {
        Option::None => true,
        Option::Some(h) => h is Null || (h matches Yaml::Sequence(hs) && all_str_items(hs@)),
    }
}

/// How a generic value decodes into a locale's alias tables.
pub open spec fn locale_data_decodes(v: Yaml, ld: LocaleData) -> bool {
    &&& v matches Yaml::Mapping(es)
    &&& yaml_get(es@, "keyAliases"@) matches Some(Yaml::Mapping(kae)) && str_pairs_decode(
        kae@,
        ld.key_aliases@,
    )
    &&& yaml_get(es@, "typeAliases"@) matches Some(Yaml::Mapping(tae)) && str_pairs_decode(
        tae@,
        ld.type_aliases@,
    )
    &&& match yaml_get(es@, "countries"@) {
        Option::None => ld.countries is None,
        Option::Some(c) => if c is Null {
            ld.countries is None
        } else {
            c matches Yaml::Mapping(ce) && ld.countries matches Some(cd) && str_pairs_decode(
                ce@,
                cd@,
            )
        },
    }
    &&& match yaml_get(es@, "honorifics"@) {
        Option::None => ld.honorifics is None,
        Option::Some(h) => if h is Null {
            ld.honorifics is None
        } else {
            h matches Yaml::Sequence(hs) && ld.honorifics matches Some(hd) && strs_decode(hs@, hd@)
        },
    }
}

/// Whether a generic value has the shape of an alias pack: a string
/// `version` and a `locales` mapping from tags to locale tables.
pub open spec fn pack_shape_ok(v: Yaml) -> bool {
    &&& v matches Yaml::Mapping(es)
    &&& yaml_get(es@, "version"@) matches Some(ver) && ver is Str
    &&& yaml_get(es@, "locales"@) matches Some(Yaml::Mapping(ls)) && forall|i: int|
        #![trigger ls@[i]]
        0 <= i < ls@.len() ==> ls@[i].0 is Str && locale_shape_ok(ls@[i].1)
}

/// How a generic value decodes into an alias pack.
pub open spec fn pack_decodes(v: Yaml, p: AliasPack) -> bool {
    &&& v matches Yaml::Mapping(es)
    &&& yaml_get(es@, "version"@) matches Some(Yaml::Str(ver)) && p.version == ver
    &&& yaml_get(es@, "locales"@) matches Some(Yaml::Mapping(ls)) && p.locales@.len() == ls@.len()
        && forall|i: int|
        #![trigger ls@[i]]
        0 <= i < ls@.len() ==> (ls@[i].0 matches Yaml::Str(lk) && p.locales@[i].0 == lk
            && locale_data_decodes(ls@[i].1, p.locales@[i].1))
}

/// Decode a string-to-string mapping into an association list.
fn decode_str_pairs(entries: &Vec<(Yaml, Yaml)>) -> (r: Option<Vec<(String, String)>>)
    ensures
        r matches Some(out) ==> str_pairs_decode(entries@, out@),
        r is None ==> !all_str_pairs(entries@),
{
    let mut out: Vec<(String, String)> = Vec::new();
    let mut i: usize = 0;
    while i < entries.len()
        invariant
            i <= entries@.len(),
            out@.len() == i,
            forall|j: int|
                #![trigger entries@[j]]
                0 <= j < i ==> (entries@[j].0 matches Yaml::Str(a)
                    && entries@[j].1 matches Yaml::Str(b) && out@[j].0 == a && out@[j].1 == b),
        decreases entries@.len() - i,
    {
        match (&entries[i].0, &entries[i].1) {
            (Yaml::Str(a), Yaml::Str(b)) => {
                out.push((a.clone(), b.clone()));
            },
            _ => {
                return None;
            },
        }
        i = i + 1;
    }
    Some(out)
}

/// Decode a sequence of strings.
fn decode_strs(items: &Vec<Yaml>) -> (r: Option<Vec<String>>)
    ensures
        r matches Some(out) ==> strs_decode(items@, out@),
        r is None ==> !all_str_items(items@),
{
    let mut out: Vec<String> = Vec::new();
    let mut i: usize = 0;
    while i < items.len()
        invariant
            i <= items@.len(),
            out@.len() == i,
            forall|j: int|
                #![trigger items@[j]]
                0 <= j < i ==> (items@[j] matches Yaml::Str(a) && out@[j] == a),
        decreases items@.len() - i,
    {
        match &items[i] {
            Yaml::Str(a) => {
                out.push(a.clone());
            },
            _ => {
                return None;
            },
        }
        i = i + 1;
    }
    Some(out)
}

/// Decode a generic value into a locale's alias tables.
fn decode_locale_data(v: &Yaml) -> (r: Option<LocaleData>)
    ensures
        r matches Some(ld) ==> locale_data_decodes(*v, ld),
        r is None ==> !locale_shape_ok(*v),
{
    let es = match v {
        Yaml::Mapping(es) => es,
        _ => {
            return None;
        },
    };
    let key_aliases = match yaml_find(es, "keyAliases") {
        Some(i) => match &es[i].1 {
            Yaml::Mapping(kae) => match decode_str_pairs(kae) {
                Some(x) => x,
                None => {
                    return None;
                },
            },
            _ => {
                return None;
            },
        },
        None => {
            return None;
        },
    };
    let type_aliases = match yaml_find(es, "typeAliases") {
        Some(i) => match &es[i].1 {
            Yaml::Mapping(tae) => match decode_str_pairs(tae) {
                Some(x) => x,
                None => {
                    return None;
                },
            },
            _ => {
                return None;
            },
        },
        None => {
            return None;
        },
    };
    let countries = match yaml_find(es, "countries") {
        None => None,
        Some(i) => match &es[i].1 {
            Yaml::Null => None,
            Yaml::Mapping(ce) => match decode_str_pairs(ce) {
                Some(x) => Some(x),
                None => {
                    return None;
                },
            },
            _ => {
                return None;
            },
        },
    };
    let honorifics = match yaml_find(es, "honorifics") {
        None => None,
        Some(i) => match &es[i].1 {
            Yaml::Null => None,
            Yaml::Sequence(hs) => match decode_strs(hs) {
                Some(x) => Some(x),
                None => {
                    return None;
                },
            },
            _ => {
                return None;
            },
        },
    };
    Some(LocaleData { key_aliases, type_aliases, countries, honorifics })
}

/// Decode a generic value into an alias pack.
#[verifier::loop_isolation(false)]
fn decode_pack(v: &Yaml) -> (r: Option<AliasPack>)
    ensures
        r matches Some(p) ==> pack_decodes(*v, p),
        r is None ==> !pack_shape_ok(*v),
{
    let es = match v {
        Yaml::Mapping(es) => es,
        _ => {
            return None;
        },
    };
    let version = match yaml_find(es, "version") {
        Some(i) => match &es[i].1 {
            Yaml::Str(t) => t.clone(),
            _ => {
                return None;
            },
        },
        None => {
            return None;
        },
    };
    let ls = match yaml_find(es, "locales") {
        Some(i) => match &es[i].1 {
            Yaml::Mapping(ls) => ls,
            _ => {
                return None;
            },
        },
        None => {
            return None;
        },
    };
    let mut locales: Vec<(String, LocaleData)> = Vec::new();
    let mut i: usize = 0;
    while i < ls.len()
        invariant
            i <= ls@.len(),
            locales@.len() == i,
            forall|j: int|
                #![trigger ls@[j]]
                0 <= j < i ==> (ls@[j].0 matches Yaml::Str(lk) && locales@[j].0 == lk
                    && locale_data_decodes(ls@[j].1, locales@[j].1)),
        decreases ls@.len() - i,
    {
        let tag = match &ls[i].0 {
            Yaml::Str(t) => t.clone(),
            _ => {
                return None;
            },
        };
        let ld = match decode_locale_data(&ls[i].1) {
            Some(ld) => ld,
            None => {
                return None;
            },
        };
        locales.push((tag, ld));
        i = i + 1;
    }
    Some(AliasPack { version, locales })
}

/// Append one alias pair built from string literals.
fn push_pair(v: &mut Vec<(String, String)>, a: &str, b: &str)
    ensures
        pairs_views(final(v)@) == pairs_views(old(v)@).push((a@, b@)),
{
    v.push((a.to_owned(), b.to_owned()));
    proof {
        assert(pairs_views(v@) =~= pairs_views(old(v)@).push((a@, b@)));
    }
}

/// Build the baked-in fallback pack.
fn fallback_pack() -> (p: AliasPack)
    ensures
        is_fallback_pack(p),
{
    let mut ka: Vec<(String, String)> = Vec::new();
    proof {
        assert(pairs_views(ka@) =~= Seq::<(Seq<char>, Seq<char>)>::empty());
    }
    push_pair(&mut ka, "mobile", "phones.type:mobile");
    push_pair(&mut ka, "cell", "phones.type:mobile");
    push_pair(&mut ka, "movil", "phones.type:mobile");
    push_pair(&mut ka, "portable", "phones.type:mobile");
    push_pair(&mut ka, "home", "phones.type:home");
    push_pair(&mut ka, "casa", "phones.type:home");
    push_pair(&mut ka, "domicile", "phones.type:home");
    push_pair(&mut ka, "work", "phones.type:work");
    push_pair(&mut ka, "trabajo", "phones.type:work");
    push_pair(&mut ka, "travail", "phones.type:work");
    push_pair(&mut ka, "bureau", "phones.type:work");
    push_pair(&mut ka, "fax", "phones.type:fax");
    push_pair(&mut ka, "pager", "phones.type:pager");
    push_pair(&mut ka, "main", "phones.type:main");
    push_pair(&mut ka, "principal", "phones.type:main");
    push_pair(&mut ka, "phone", "phones");
    push_pair(&mut ka, "telephone", "phones");
    push_pair(&mut ka, "telefono", "phones");
    push_pair(&mut ka, "telefon", "phones");
    push_pair(&mut ka, "email", "emails");
    push_pair(&mut ka, "mail", "emails");
    push_pair(&mut ka, "correo", "emails");
    push_pair(&mut ka, "courriel", "emails");
    push_pair(&mut ka, "givenname", "name.givenName");
    push_pair(&mut ka, "firstname", "name.givenName");
    push_pair(&mut ka, "prenom", "name.givenName");
    push_pair(&mut ka, "familyname", "name.familyName");
    push_pair(&mut ka, "lastname", "name.familyName");
    push_pair(&mut ka, "surname", "name.familyName");
    push_pair(&mut ka, "nom", "name.familyName");
    push_pair(&mut ka, "displayname", "name.displayName");
    proof {
        reveal(fallback_key_pairs);
        assert(pairs_views(ka@) =~= fallback_key_pairs());
    }
    let mut ta: Vec<(String, String)> = Vec::new();
    proof {
        assert(pairs_views(ta@) =~= Seq::<(Seq<char>, Seq<char>)>::empty());
    }
    push_pair(&mut ta, "movil", "mobile");
    push_pair(&mut ta, "cell", "mobile");
    push_pair(&mut ta, "portable", "mobile");
    push_pair(&mut ta, "casa", "home");
    push_pair(&mut ta, "domicile", "home");
    push_pair(&mut ta, "trabajo", "work");
    push_pair(&mut ta, "travail", "work");
    push_pair(&mut ta, "bureau", "work");
    push_pair(&mut ta, "principal", "main");
    push_pair(&mut ta, "otro", "other");
    push_pair(&mut ta, "autre", "other");
    proof {
        reveal(fallback_type_pairs);
        assert(pairs_views(ta@) =~= fallback_type_pairs());
    }
    let ld = LocaleData { key_aliases: ka, type_aliases: ta, countries: None, honorifics: None };
    let mut locs: Vec<(String, LocaleData)> = Vec::new();
    locs.push(("root".to_owned(), ld));
    AliasPack { version: "1".to_owned(), locales: locs }
}

impl AliasManager {

    /// A store holding only the baked-in fallback pack, with default locale
    /// "en".
    pub fn new() -> (r: Self)
        ensures
            r@.default_locale == "en"@,
            r@.packs.len() == 1,
            is_fallback_pack(r@.packs[0]),
    {
        let mut packs: Vec<AliasPack> = Vec::new();
        packs.push(fallback_pack());
        AliasManager { packs, default_locale: "en".to_owned() }
    }

    /// Discard every explicitly loaded pack; the fallback pack alone remains.
    pub fn clear_packs(&mut self)
        ensures
            final(self)@.packs.len() == 1,
            is_fallback_pack(final(self)@.packs[0]),
            final(self)@.default_locale == old(self)@.default_locale,
    {
        self.packs.clear();
        self.packs.push(fallback_pack());
    }

    /// The normalized comparison form of a key: canonical decomposition,
    /// combining marks removed, lowercased.
    pub fn normalize_key(&self, key: &str) -> (r: String)
        ensures
            r@ == norm_key(key@),
    {
        let cs = chars_vec(key);
        let decomposed = nfd_vec(&cs);
        let stripped = strip_marks_vec(&decomposed);
        let lowered = lower_chars(&stripped);
        crate::chars::string_of_chars(&lowered)
    }

    /// The BCP-47 fallback chain of a locale tag, in lookup order.
    pub fn build_locale_chain(&self, locale: &str) -> (r: Vec<String>)
        ensures
            seq_views(r@) == locale_chain(locale@),
    {
        let cs = chars_vec(locale);
        let mut dash: usize = 0;
        proof {
            assert(cs@.skip(0) =~= cs@);
        }
        while dash < cs.len() && cs[dash] != '-'
            invariant
                dash <= cs@.len(),
                dash_split(cs@) == dash + dash_split(cs@.skip(dash as int)),
                forall|j: int| 0 <= j < dash ==> cs@[j] != '-',
            decreases cs@.len() - dash,
        {
            proof {
                assert(cs@.skip(dash as int).drop_first() =~= cs@.skip(dash + 1 as int));
            }
            dash = dash + 1;
        }
        proof {
            assert(dash_split(cs@) == dash as int);
        }
        let mut r: Vec<String> = Vec::new();
        r.push(locale.to_owned());
        if dash < cs.len() {
            let mut lang: Vec<char> = Vec::new();
            let mut i: usize = 0;
            while i < dash
                invariant
                    i <= dash,
                    dash <= cs@.len(),
                    lang@ == cs@.take(i as int),
                decreases dash - i,
            {
                lang.push(cs[i]);
                proof {
                    assert(lang@ =~= cs@.take(i + 1 as int));
                }
                i = i + 1;
            }
            r.push(crate::chars::string_of_chars(&lang));
            proof {
                assert(lang_of(locale@) != locale@) by {
                    assert(lang_of(locale@).len() < locale@.len());
                }
            }
        } else {
            proof {
                assert(lang_of(locale@) =~= locale@);
            }
        }
        let root_chars = chars_vec("root");
        if !chars_eq(&cs, &root_chars) {
            r.push("root".to_owned());
        }
        proof {
            assert(seq_views(r@) =~= locale_chain(locale@));
        }
        r
    }

    /// Resolve a raw key to its canonical dotted name through the layered
    /// packs and the locale fallback chain; `None` where no pack defines an
    /// alias, in which case callers treat the raw key as already canonical.
    #[verifier::loop_isolation(false)]
    pub fn resolve_key_alias(&self, key: &str, locale: Option<&str>) -> (r: Option<String>)
        ensures
            r matches Some(a) ==> spec_resolve_key(self@, key@, locale) == Some(a@),
            r is None ==> spec_resolve_key(self@, key@, locale) is None,
    {
        let nk = self.normalize_key(key);
        let chain = match locale {
            Some(l) => self.build_locale_chain(l),
            None => {
                let d = self.default_locale.clone();
                self.build_locale_chain(d.as_str())
            },
        };
        let ghost gchain = locale_chain(effective_locale(self@, locale));
        proof {
            assert(seq_views(chain@) == gchain);
        }
        proof {
            assert(self@.packs.take(self.packs@.len() as int) =~= self@.packs);
        }
        let mut pi: usize = self.packs.len();
        while pi > 0
            invariant
                pi <= self.packs@.len(),
                seq_views(chain@) == gchain,
                nk@ == norm_key(key@),
                packs_key_lookup(self@.packs, gchain, nk@) == packs_key_lookup(
                    self@.packs.take(pi as int),
                    gchain,
                    nk@,
                ),
            decreases pi,
        {
            pi = pi - 1;
            let p = &self.packs[pi];
            proof {
                assert(self@.packs.take(pi + 1 as int).last() == self@.packs[pi as int]);
                assert(self@.packs.take(pi + 1 as int).drop_last() =~= self@.packs.take(pi as int));
            }
            proof {
                assert(gchain.skip(0) =~= gchain);
            }
            let mut ci: usize = 0;
            while ci < chain.len()
                invariant
                    ci <= chain@.len(),
                    seq_views(chain@) == gchain,
                    nk@ == norm_key(key@),
                    pi < self.packs@.len(),
                    chain_key_lookup(self@.packs[pi as int], gchain, nk@) == chain_key_lookup(
                        self@.packs[pi as int],
                        gchain.skip(ci as int),
                        nk@,
                    ),
                decreases chain@.len() - ci,
            {
                proof {
                    assert(gchain.skip(ci as int).drop_first() =~= gchain.skip(ci + 1 as int));
                    assert(gchain.skip(ci as int)[0] == chain@[ci as int]@);
                }
                if let Some(li) = locale_index(&p.locales, &chain[ci]) {
                    if let Some(a) = assoc_get(&p.locales[li].1.key_aliases, &nk) {
                        return Some(a);
                    }
                }
                ci = ci + 1;
            }
        }
        proof {
            assert(self@.packs.take(0) =~= Seq::<AliasPack>::empty());
        }
        None
    }

    /// Resolve a raw type token to its canonical token, as
    /// [`Self::resolve_key_alias`] does for keys.
    #[verifier::loop_isolation(false)]
    pub fn resolve_type_alias(&self, token: &str, locale: Option<&str>) -> (r: Option<String>)
        ensures
            r matches Some(a) ==> spec_resolve_type(self@, token@, locale) == Some(a@),
            r is None ==> spec_resolve_type(self@, token@, locale) is None,
    {
        let nk = self.normalize_key(token);
        let chain = match locale {
            Some(l) => self.build_locale_chain(l),
            None => {
                let d = self.default_locale.clone();
                self.build_locale_chain(d.as_str())
            },
        };
        let ghost gchain = locale_chain(effective_locale(self@, locale));
        proof {
            assert(seq_views(chain@) == gchain);
        }
        proof {
            assert(self@.packs.take(self.packs@.len() as int) =~= self@.packs);
        }
        let mut pi: usize = self.packs.len();
        while pi > 0
            invariant
                pi <= self.packs@.len(),
                seq_views(chain@) == gchain,
                nk@ == norm_key(token@),
                packs_type_lookup(self@.packs, gchain, nk@) == packs_type_lookup(
                    self@.packs.take(pi as int),
                    gchain,
                    nk@,
                ),
            decreases pi,
        {
            pi = pi - 1;
            let p = &self.packs[pi];
            proof {
                assert(self@.packs.take(pi + 1 as int).last() == self@.packs[pi as int]);
                assert(self@.packs.take(pi + 1 as int).drop_last() =~= self@.packs.take(pi as int));
            }
            proof {
                assert(gchain.skip(0) =~= gchain);
            }
            let mut ci: usize = 0;
            while ci < chain.len()
                invariant
                    ci <= chain@.len(),
                    seq_views(chain@) == gchain,
                    nk@ == norm_key(token@),
                    pi < self.packs@.len(),
                    chain_type_lookup(self@.packs[pi as int], gchain, nk@) == chain_type_lookup(
                        self@.packs[pi as int],
                        gchain.skip(ci as int),
                        nk@,
                    ),
                decreases chain@.len() - ci,
            {
                proof {
                    assert(gchain.skip(ci as int).drop_first() =~= gchain.skip(ci + 1 as int));
                    assert(gchain.skip(ci as int)[0] == chain@[ci as int]@);
                }
                if let Some(li) = locale_index(&p.locales, &chain[ci]) {
                    if let Some(a) = assoc_get(&p.locales[li].1.type_aliases, &nk) {
                        return Some(a);
                    }
                }
                ci = ci + 1;
            }
        }
        proof {
            assert(self@.packs.take(0) =~= Seq::<AliasPack>::empty());
        }
        None
    }


    /// Parse an alias pack from JSON text and append it as the newest layer.
    /// Either the whole pack is appended, or the store is unchanged.
    pub fn load_pack(&mut self, pack_json: &str) -> (r: Result<(), String>)
        ensures
            r is Ok ==> (json_of(pack_json@) matches Some(v) && pack_shape_ok(v)
                && final(self)@.packs.len() == old(self)@.packs.len() + 1
                && final(self)@.packs.take(old(self)@.packs.len() as int) == old(self)@.packs
                && pack_decodes(v, final(self)@.packs.last())
                && final(self)@.default_locale == old(self)@.default_locale),
            r is Err ==> final(self)@.packs == old(self)@.packs && final(self)@.default_locale
                == old(self)@.default_locale,
            r is Err ==> json_of(pack_json@) is None || (json_of(pack_json@) matches Some(v)
                && !pack_shape_ok(v)),
    {
        match parse_json_text(pack_json) {
            Err(e) => Err(e),
            Ok(v) => match decode_pack(&v) {
                Some(p) => {
                    self.packs.push(p);
                    proof {
                        assert(self@.packs.take(old(self)@.packs.len() as int) =~= old(self)@.packs);
                    }
                    Ok(())
                },
                None => Err("invalid alias pack".to_owned()),
            },
        }
    }

    /// As [`Self::load_pack`], reading the pack from JSON bytes.
    pub fn load_pack_bytes(&mut self, bytes: &[u8]) -> (r: Result<(), String>)
        ensures
            r is Ok ==> (json_of_bytes(bytes@) matches Some(v) && pack_shape_ok(v)
                && final(self)@.packs.len() == old(self)@.packs.len() + 1
                && final(self)@.packs.take(old(self)@.packs.len() as int) == old(self)@.packs
                && pack_decodes(v, final(self)@.packs.last())
                && final(self)@.default_locale == old(self)@.default_locale),
            r is Err ==> final(self)@.packs == old(self)@.packs && final(self)@.default_locale
                == old(self)@.default_locale,
            r is Err ==> json_of_bytes(bytes@) is None || (json_of_bytes(bytes@) matches Some(v)
                && !pack_shape_ok(v)),
    {
        match parse_json_bytes(bytes) {
            Err(e) => Err(e),
            Ok(v) => match decode_pack(&v) {
                Some(p) => {
                    self.packs.push(p);
                    proof {
                        assert(self@.packs.take(old(self)@.packs.len() as int) =~= old(self)@.packs);
                    }
                    Ok(())
                },
                None => Err("invalid alias pack".to_owned()),
            },
        }
    }

    /// Replace the default locale used when a call supplies none.
    pub fn set_default_locale(&mut self, locale: &str)
        ensures
            final(self)@.packs == old(self)@.packs,
            final(self)@.default_locale == locale@,
    {
        self.default_locale = locale.to_owned();
    }
}

impl Default for AliasManager {
    /// The default store equals a newly constructed one.
    fn default() -> (r: Self)
        ensures
            r@.default_locale == "en"@,
            r@.packs.len() == 1,
            is_fallback_pack(r@.packs[0]),
    {
        AliasManager::new()
    }
}

/// Helper for the unaliased-key law: a chain walk over one pack misses when
/// every locale of the chain misses.
proof fn lemma_chain_key_lookup_none(p: AliasPack, chain: Seq<Seq<char>>, nk: Seq<char>)
    requires
        forall|ci: int| 0 <= ci < chain.len() ==> pack_key_lookup(p, #[trigger] chain[ci], nk) is None,
    ensures
        chain_key_lookup(p, chain, nk) is None,
    decreases chain.len(),
{
    if chain.len() > 0 {
        assert(forall|ci: int|
            0 <= ci < chain.drop_first().len() ==> pack_key_lookup(
                p,
                #[trigger] chain.drop_first()[ci],
                nk,
            ) is None) by {
            assert(forall|ci: int|
                0 <= ci < chain.drop_first().len() ==> chain.drop_first()[ci] == #[trigger] chain[
                    ci + 1
                ]);
        }
        lemma_chain_key_lookup_none(p, chain.drop_first(), nk);
    }
}

/// Law: where no pack defines an alias for the key under any locale of the
/// fallback chain, resolution finds nothing, and the caller uses the raw key
/// unchanged.
pub proof fn lemma_resolve_key_unaliased(m: AliasManagerView, key: Seq<char>, locale: Option<&str>)
    requires
        forall|pi: int, ci: int|
            0 <= pi < m.packs.len() && 0 <= ci < locale_chain(effective_locale(m, locale)).len()
                ==> pack_key_lookup(
                #[trigger] m.packs[pi],
                #[trigger] locale_chain(effective_locale(m, locale))[ci],
                norm_key(key),
            ) is None,
    ensures
        spec_resolve_key(m, key, locale) is None,
{
    let chain = locale_chain(effective_locale(m, locale));
    let nk = norm_key(key);
    assert forall|pi: int| 0 <= pi < m.packs.len() implies chain_key_lookup(
        #[trigger] m.packs[pi],
        chain,
        nk,
    ) is None by {
        lemma_chain_key_lookup_none(m.packs[pi], chain, nk);
    }
    lemma_packs_key_lookup_none(m.packs, chain, nk);
}

/// Helper for the unaliased-key law: the layered walk misses when every pack
/// misses.
proof fn lemma_packs_key_lookup_none(packs: Seq<AliasPack>, chain: Seq<Seq<char>>, nk: Seq<char>)
    requires
        forall|pi: int|
            0 <= pi < packs.len() ==> chain_key_lookup(#[trigger] packs[pi], chain, nk) is None,
    ensures
        packs_key_lookup(packs, chain, nk) is None,
    decreases packs.len(),
{
    if packs.len() > 0 {
        lemma_packs_key_lookup_none(packs.drop_last(), chain, nk);
    }
}

/// Helper for the fallback-chain law: the dash index is within the tag.
proof fn lemma_dash_split_bounds(l: Seq<char>)
    ensures
        0 <= dash_split(l) <= l.len(),
        dash_split(l) < l.len() ==> l[dash_split(l)] == '-',
    decreases l.len(),
{
    if l.len() > 0 && l[0] != '-' {
        lemma_dash_split_bounds(l.drop_first());
    }
}

/// Law: the fallback chain of a tag with a language subtag, other than
/// "root", tries the full tag, then the language subtag, then "root", in
/// that order; lookup stops at the first hit by definition of
/// [`chain_key_lookup`].
pub proof fn lemma_locale_chain_order(l: Seq<char>)
    requires
        dash_split(l) < l.len(),
        l != "root"@,
    ensures
        locale_chain(l) =~= seq![l, l.take(dash_split(l)), "root"@],
{
    lemma_dash_split_bounds(l);
    assert(lang_of(l).len() < l.len());
}

/// Law: a tag without a language subtag, other than "root", falls back to
/// "root" alone.
pub proof fn lemma_locale_chain_plain(l: Seq<char>)
    requires
        dash_split(l) == l.len(),
        l != "root"@,
    ensures
        locale_chain(l) =~= seq![l, "root"@],
{
    assert(lang_of(l) =~= l);
}


/// Law, concretely: under the locale tag "fr-CA" resolution tries "fr-CA",
/// then "fr", then "root", in that order; the walk stops at the first hit by
/// definition of [`chain_key_lookup`].
pub proof fn lemma_locale_chain_fr_ca()
    ensures
        locale_chain("fr-CA"@) =~= seq!["fr-CA"@, "fr"@, "root"@],
{
    reveal_strlit("fr-CA");
    reveal_strlit("fr");
    reveal_strlit("root");
    let l = "fr-CA"@;
    assert(l.len() == 5);
    assert(l[0] == 'f' && l[1] == 'r' && l[2] == '-');
    assert(dash_split(l) == 2) by {
        reveal_with_fuel(dash_split, 4);
        assert(l.drop_first()[0] == 'r');
        assert(l.drop_first().drop_first()[0] == '-');
    }
    assert(lang_of(l) =~= "fr"@);
    assert(l != "root"@);
    assert(lang_of(l) != l);
}

/// Law: keys that normalize alike resolve alike, in every store state and
/// under every locale — resolution is case- and diacritic-insensitive.
pub proof fn lemma_resolve_key_norm_invariant(
    m: AliasManagerView,
    k1: Seq<char>,
    k2: Seq<char>,
    locale: Option<&str>,
)
    requires
        norm_key(k1) == norm_key(k2),
    ensures
        spec_resolve_key(m, k1, locale) == spec_resolve_key(m, k2, locale),
{
}

} // verus!

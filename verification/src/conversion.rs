//! The conversion request: what the submission form selects, the prompt that
//! asks an LLM for the document's metadata, the request assembled from its
//! answer, and the form that confirms it.
use vstd::prelude::*;

use crate::routes::{lang_path, lang_path_spec};
use crate::text::{
    comma_list, concat2, concat3, is_white_space, join, join_strings, lacks, law_comma_list_undoes_join,
    parse_comma_list, trim, trim_start,
};

verus! {

/// The document submission form, one optional field per checkbox.
#[derive(Debug, Clone)]
pub struct DocumentSubmissionForm {
    /// Selected authority (for users without pre-assigned authority)
    pub selected_authority_id: Option<String>,
    pub security_classification_level: String,
    // Target nations: NATO members and AUS/NZL
    pub alb: Option<String>,
    pub aus: Option<String>,
    pub bel: Option<String>,
    pub bgr: Option<String>,
    pub can: Option<String>,
    pub hrv: Option<String>,
    pub cze: Option<String>,
    pub dnk: Option<String>,
    pub est: Option<String>,
    pub fin: Option<String>,
    pub fra: Option<String>,
    pub deu: Option<String>,
    pub grc: Option<String>,
    pub hun: Option<String>,
    pub isl: Option<String>,
    pub ita: Option<String>,
    pub lva: Option<String>,
    pub ltu: Option<String>,
    pub lux: Option<String>,
    pub mne: Option<String>,
    pub nld: Option<String>,
    pub nzl: Option<String>,
    pub mkd: Option<String>,
    pub nor: Option<String>,
    pub pol: Option<String>,
    pub prt: Option<String>,
    pub rou: Option<String>,
    pub svk: Option<String>,
    pub svn: Option<String>,
    pub esp: Option<String>,
    pub swe: Option<String>,
    pub tur: Option<String>,
    pub gbr: Option<String>,
    pub usa: Option<String>,
    // Releasable to organizations
    pub nato: Option<String>,
    pub eu: Option<String>,
    pub un: Option<String>,
    pub fvey: Option<String>,
    pub aukus: Option<String>,
    pub quad: Option<String>,
    pub disclosure_category: String,
    // Handling restrictions
    pub cui: Option<String>,
    pub fouo: Option<String>,
    pub les: Option<String>,
    pub sbu: Option<String>,
    pub noforn: Option<String>,
    pub propin: Option<String>,
    pub orcon: Option<String>,
    pub handling_authority: String,
    pub content: String,
}

/// The codes whose checkbox is ticked, in the order of `codes`.
pub open spec fn selected_codes(flags: Seq<bool>, codes: Seq<Seq<char>>) -> Seq<Seq<char>>
    decreases flags.len(),
{
    if flags.len() == 0 {
        seq![]
    } else {
        let rest = selected_codes(flags.drop_last(), codes);
        if flags.last() {
            rest.push(codes[flags.len() - 1])
        } else {
            rest
        }
    }
}

/// Whether the checkbox at position `i` of the nation list is ticked.
pub open spec fn nation_ticked(f: DocumentSubmissionForm, i: int) -> bool {
    if i == 0 {
        f.alb is Some
    } else if i == 1 {
        f.aus is Some
    } else if i == 2 {
        f.bel is Some
    } else if i == 3 {
        f.bgr is Some
    } else if i == 4 {
        f.can is Some
    } else if i == 5 {
        f.hrv is Some
    } else if i == 6 {
        f.cze is Some
    } else if i == 7 {
        f.dnk is Some
    } else if i == 8 {
        f.est is Some
    } else if i == 9 {
        f.fin is Some
    } else if i == 10 {
        f.fra is Some
    } else if i == 11 {
        f.deu is Some
    } else if i == 12 {
        f.grc is Some
    } else if i == 13 {
        f.hun is Some
    } else if i == 14 {
        f.isl is Some
    } else if i == 15 {
        f.ita is Some
    } else if i == 16 {
        f.lva is Some
    } else if i == 17 {
        f.ltu is Some
    } else if i == 18 {
        f.lux is Some
    } else if i == 19 {
        f.mne is Some
    } else if i == 20 {
        f.nld is Some
    } else if i == 21 {
        f.nzl is Some
    } else if i == 22 {
        f.mkd is Some
    } else if i == 23 {
        f.nor is Some
    } else if i == 24 {
        f.pol is Some
    } else if i == 25 {
        f.prt is Some
    } else if i == 26 {
        f.rou is Some
    } else if i == 27 {
        f.svk is Some
    } else if i == 28 {
        f.svn is Some
    } else if i == 29 {
        f.esp is Some
    } else if i == 30 {
        f.swe is Some
    } else if i == 31 {
        f.tur is Some
    } else if i == 32 {
        f.gbr is Some
    } else if i == 33 {
        f.usa is Some
    } else {
        false
    }
}

/// The code at position `i` of the nations the form offers, as ISO 3166 alpha-3 codes.
pub open spec fn nation_code(i: int) -> Seq<char> {
    if i == 0 {
        "ALB"@
    } else if i == 1 {
        "AUS"@
    } else if i == 2 {
        "BEL"@
    } else if i == 3 {
        "BGR"@
    } else if i == 4 {
        "CAN"@
    } else if i == 5 {
        "HRV"@
    } else if i == 6 {
        "CZE"@
    } else if i == 7 {
        "DNK"@
    } else if i == 8 {
        "EST"@
    } else if i == 9 {
        "FIN"@
    } else if i == 10 {
        "FRA"@
    } else if i == 11 {
        "DEU"@
    } else if i == 12 {
        "GRC"@
    } else if i == 13 {
        "HUN"@
    } else if i == 14 {
        "ISL"@
    } else if i == 15 {
        "ITA"@
    } else if i == 16 {
        "LVA"@
    } else if i == 17 {
        "LTU"@
    } else if i == 18 {
        "LUX"@
    } else if i == 19 {
        "MNE"@
    } else if i == 20 {
        "NLD"@
    } else if i == 21 {
        "NZL"@
    } else if i == 22 {
        "MKD"@
    } else if i == 23 {
        "NOR"@
    } else if i == 24 {
        "POL"@
    } else if i == 25 {
        "PRT"@
    } else if i == 26 {
        "ROU"@
    } else if i == 27 {
        "SVK"@
    } else if i == 28 {
        "SVN"@
    } else if i == 29 {
        "ESP"@
    } else if i == 30 {
        "SWE"@
    } else if i == 31 {
        "TUR"@
    } else if i == 32 {
        "GBR"@
    } else if i == 33 {
        "USA"@
    } else {
        Seq::empty()
    }
}

pub open spec fn nation_flags(f: DocumentSubmissionForm) -> Seq<bool> {
    Seq::new(34, |i: int| nation_ticked(f, i))
}

pub open spec fn nation_codes() -> Seq<Seq<char>> {
    Seq::new(34, |i: int| nation_code(i))
}

fn nation_code_at(i: usize) -> (r: &'static str)
    requires
        i < 34,
    ensures
        r@ == nation_code(i as int),
{
    match i {
        0 => "ALB",
        1 => "AUS",
        2 => "BEL",
        3 => "BGR",
        4 => "CAN",
        5 => "HRV",
        6 => "CZE",
        7 => "DNK",
        8 => "EST",
        9 => "FIN",
        10 => "FRA",
        11 => "DEU",
        12 => "GRC",
        13 => "HUN",
        14 => "ISL",
        15 => "ITA",
        16 => "LVA",
        17 => "LTU",
        18 => "LUX",
        19 => "MNE",
        20 => "NLD",
        21 => "NZL",
        22 => "MKD",
        23 => "NOR",
        24 => "POL",
        25 => "PRT",
        26 => "ROU",
        27 => "SVK",
        28 => "SVN",
        29 => "ESP",
        30 => "SWE",
        31 => "TUR",
        32 => "GBR",
        33 => "USA",
        _ => "",
    }
}

impl DocumentSubmissionForm {
    fn nation_ticked_at(&self, i: usize) -> (r: bool)
        requires
            i < 34,
        ensures
            r == nation_ticked(*self, i as int),
    {
        match i {
            0 => self.alb.is_some(),
            1 => self.aus.is_some(),
            2 => self.bel.is_some(),
            3 => self.bgr.is_some(),
            4 => self.can.is_some(),
            5 => self.hrv.is_some(),
            6 => self.cze.is_some(),
            7 => self.dnk.is_some(),
            8 => self.est.is_some(),
            9 => self.fin.is_some(),
            10 => self.fra.is_some(),
            11 => self.deu.is_some(),
            12 => self.grc.is_some(),
            13 => self.hun.is_some(),
            14 => self.isl.is_some(),
            15 => self.ita.is_some(),
            16 => self.lva.is_some(),
            17 => self.ltu.is_some(),
            18 => self.lux.is_some(),
            19 => self.mne.is_some(),
            20 => self.nld.is_some(),
            21 => self.nzl.is_some(),
            22 => self.mkd.is_some(),
            23 => self.nor.is_some(),
            24 => self.pol.is_some(),
            25 => self.prt.is_some(),
            26 => self.rou.is_some(),
            27 => self.svk.is_some(),
            28 => self.svn.is_some(),
            29 => self.esp.is_some(),
            30 => self.swe.is_some(),
            31 => self.tur.is_some(),
            32 => self.gbr.is_some(),
            33 => self.usa.is_some(),
            _ => false,
        }
    }

    /// The codes of the nations whose checkbox is ticked, in the form's order.
    pub fn target_nations(&self) -> (r: Vec<String>)
        ensures
            r.deep_view() == selected_codes(nation_flags(*self), nation_codes()),
    {
        let mut r: Vec<String> = Vec::new();
        let ghost flags = nation_flags(*self);
        for i in 0..34usize
            invariant
                flags == nation_flags(*self),
                r.deep_view() == selected_codes(flags.take(i as int), nation_codes()),
        {
            assert(flags.take(i + 1).drop_last() =~= flags.take(i as int));
            assert(flags.take(i + 1).last() == nation_ticked(*self, i as int));
            if self.nation_ticked_at(i) {
                let code = nation_code_at(i).to_owned();
                r.push(code);
                assert(r.deep_view() =~= selected_codes(flags.take(i + 1), nation_codes()));
            }
        }
        assert(flags.take(34) =~= flags);
        r
    }
}

/// Whether the checkbox at position `i` of the organization list is ticked.
pub open spec fn organization_ticked(f: DocumentSubmissionForm, i: int) -> bool {
    if i == 0 {
        f.nato is Some
    } else if i == 1 {
        f.eu is Some
    } else if i == 2 {
        f.un is Some
    } else if i == 3 {
        f.fvey is Some
    } else if i == 4 {
        f.aukus is Some
    } else if i == 5 {
        f.quad is Some
    } else {
        false
    }
}

/// The code at position `i` of the organizations the form offers.
pub open spec fn organization_code(i: int) -> Seq<char> {
    if i == 0 {
        "NATO"@
    } else if i == 1 {
        "EU"@
    } else if i == 2 {
        "UN"@
    } else if i == 3 {
        "FVEY"@
    } else if i == 4 {
        "AUKUS"@
    } else if i == 5 {
        "QUAD"@
    } else {
        Seq::empty()
    }
}

pub open spec fn organization_flags(f: DocumentSubmissionForm) -> Seq<bool> {
    Seq::new(6, |i: int| organization_ticked(f, i))
}

pub open spec fn organization_codes() -> Seq<Seq<char>> {
    Seq::new(6, |i: int| organization_code(i))
}

fn organization_code_at(i: usize) -> (r: &'static str)
    requires
        i < 6,
    ensures
        r@ == organization_code(i as int),
{
    match i {
        0 => "NATO",
        1 => "EU",
        2 => "UN",
        3 => "FVEY",
        4 => "AUKUS",
        5 => "QUAD",
        _ => "",
    }
}

impl DocumentSubmissionForm {
    fn organization_ticked_at(&self, i: usize) -> (r: bool)
        requires
            i < 6,
        ensures
            r == organization_ticked(*self, i as int),
    {
        match i {
            0 => self.nato.is_some(),
            1 => self.eu.is_some(),
            2 => self.un.is_some(),
            3 => self.fvey.is_some(),
            4 => self.aukus.is_some(),
            5 => self.quad.is_some(),
            _ => false,
        }
    }

    /// The organizations whose checkbox is ticked, in the form's order.
    pub fn releasable_organizations(&self) -> (r: Vec<String>)
        ensures
            r.deep_view() == selected_codes(organization_flags(*self), organization_codes()),
    {
        let mut r: Vec<String> = Vec::new();
        let ghost flags = organization_flags(*self);
        for i in 0..6usize
            invariant
                flags == organization_flags(*self),
                r.deep_view() == selected_codes(flags.take(i as int), organization_codes()),
        {
            assert(flags.take(i + 1).drop_last() =~= flags.take(i as int));
            assert(flags.take(i + 1).last() == organization_ticked(*self, i as int));
            if self.organization_ticked_at(i) {
                let code = organization_code_at(i).to_owned();
                r.push(code);
                assert(r.deep_view() =~= selected_codes(flags.take(i + 1), organization_codes()));
            }
        }
        assert(flags.take(6) =~= flags);
        r
    }
}

/// Whether the checkbox at position `i` of the handling restriction list is ticked.
pub open spec fn restriction_ticked(f: DocumentSubmissionForm, i: int) -> bool {
    if i == 0 {
        f.cui is Some
    } else if i == 1 {
        f.fouo is Some
    } else if i == 2 {
        f.les is Some
    } else if i == 3 {
        f.sbu is Some
    } else if i == 4 {
        f.noforn is Some
    } else if i == 5 {
        f.propin is Some
    } else if i == 6 {
        f.orcon is Some
    } else {
        false
    }
}

/// The code at position `i` of the handling restrictions the form offers.
pub open spec fn restriction_code(i: int) -> Seq<char> {
    if i == 0 {
        "CUI"@
    } else if i == 1 {
        "FOUO"@
    } else if i == 2 {
        "LES"@
    } else if i == 3 {
        "SBU"@
    } else if i == 4 {
        "NOFORN"@
    } else if i == 5 {
        "PROPIN"@
    } else if i == 6 {
        "ORCON"@
    } else {
        Seq::empty()
    }
}

pub open spec fn restriction_flags(f: DocumentSubmissionForm) -> Seq<bool> {
    Seq::new(7, |i: int| restriction_ticked(f, i))
}

pub open spec fn restriction_codes() -> Seq<Seq<char>> {
    Seq::new(7, |i: int| restriction_code(i))
}

fn restriction_code_at(i: usize) -> (r: &'static str)
    requires
        i < 7,
    ensures
        r@ == restriction_code(i as int),
{
    match i {
        0 => "CUI",
        1 => "FOUO",
        2 => "LES",
        3 => "SBU",
        4 => "NOFORN",
        5 => "PROPIN",
        6 => "ORCON",
        _ => "",
    }
}

impl DocumentSubmissionForm {
    fn restriction_ticked_at(&self, i: usize) -> (r: bool)
        requires
            i < 7,
        ensures
            r == restriction_ticked(*self, i as int),
    {
        match i {
            0 => self.cui.is_some(),
            1 => self.fouo.is_some(),
            2 => self.les.is_some(),
            3 => self.sbu.is_some(),
            4 => self.noforn.is_some(),
            5 => self.propin.is_some(),
            6 => self.orcon.is_some(),
            _ => false,
        }
    }

    /// The handling restrictions whose checkbox is ticked, in the form's order.
    pub fn handling_restrictions(&self) -> (r: Vec<String>)
        ensures
            r.deep_view() == selected_codes(restriction_flags(*self), restriction_codes()),
    {
        let mut r: Vec<String> = Vec::new();
        let ghost flags = restriction_flags(*self);
        for i in 0..7usize
            invariant
                flags == restriction_flags(*self),
                r.deep_view() == selected_codes(flags.take(i as int), restriction_codes()),
        {
            assert(flags.take(i + 1).drop_last() =~= flags.take(i as int));
            assert(flags.take(i + 1).last() == restriction_ticked(*self, i as int));
            if self.restriction_ticked_at(i) {
                let code = restriction_code_at(i).to_owned();
                r.push(code);
                assert(r.deep_view() =~= selected_codes(flags.take(i + 1), restriction_codes()));
            }
        }
        assert(flags.take(7) =~= flags);
        r
    }
}


/// The security domains a document can belong to.
#[derive(Debug, Clone, Copy, PartialEq, Eq, Structural)]
pub enum Domain {
    INTEL,
    CYBER,
    OPERATIONS,
    LOGISTICS,
    COMMUNICATIONS,
    NUCLEAR,
    COUNTERTERRORISM,
    MARITIME,
    AEROSPACE,
    SPECIALOPS,
}

impl Domain {
    pub open spec fn name_spec(self) -> Seq<char> {
        match self {
            Domain::INTEL => "INTEL"@,
            Domain::CYBER => "CYBER"@,
            Domain::OPERATIONS => "OPERATIONS"@,
            Domain::LOGISTICS => "LOGISTICS"@,
            Domain::COMMUNICATIONS => "COMMUNICATIONS"@,
            Domain::NUCLEAR => "NUCLEAR"@,
            Domain::COUNTERTERRORISM => "COUNTERTERRORISM"@,
            Domain::MARITIME => "MARITIME"@,
            Domain::AEROSPACE => "AEROSPACE"@,
            Domain::SPECIALOPS => "SPECIALOPS"@,
        }
    }

    /// The domain's name as the API and the prompts spell it.
    pub fn name(self) -> (r: &'static str)
        ensures
            r@ == self.name_spec(),
    {
        match self {
            Domain::INTEL => "INTEL",
            Domain::CYBER => "CYBER",
            Domain::OPERATIONS => "OPERATIONS",
            Domain::LOGISTICS => "LOGISTICS",
            Domain::COMMUNICATIONS => "COMMUNICATIONS",
            Domain::NUCLEAR => "NUCLEAR",
            Domain::COUNTERTERRORISM => "COUNTERTERRORISM",
            Domain::MARITIME => "MARITIME",
            Domain::AEROSPACE => "AEROSPACE",
            Domain::SPECIALOPS => "SPECIALOPS",
        }
    }
}

/// The metadata an LLM extracts from a document.
#[derive(Debug, Clone)]
pub struct LLMFields {
    /// Document title
    pub title: String,
    /// Two sentence description of the document
    pub description: String,
    /// Single domain that best represents the content
    pub domain: Domain,
    /// Up to six tags that help understanding the context
    pub tags: Vec<Option<String>>,
    /// Unique home organization identifier for the document
    pub identifier: String,
    /// References the authority document under which release is permitted
    pub authorization_reference: Option<String>,
    pub releasable_to_countries: Option<Vec<Option<String>>>,
    pub releasable_to_organizations: Option<Vec<Option<String>>>,
    pub releasable_to_categories: Option<Vec<Option<String>>>,
    pub disclosure_category: Option<String>,
    pub handling_restrictions: Option<Vec<Option<String>>>,
    pub handling_authority: Option<String>,
    pub no_handling_restrictions: Option<bool>,
}

/// The title and description of the document being converted.
#[derive(Debug, Clone)]
pub struct InsertableDataObject {
    pub title: String,
    pub description: String,
}

/// A point in time: whole seconds since the Unix epoch and the nanoseconds past them.
#[derive(Debug, Clone, Copy, PartialEq, Eq, Structural)]
pub struct Timestamp {
    pub secs: i64,
    pub nanos: u32,
}

/// The metadata submitted with a conversion request. Organization ids are UUIDs,
/// held as their 128-bit value.
#[derive(Debug, Clone)]
pub struct InsertableMetadata {
    /// Global identifier
    pub identifier: String,
    pub authorization_reference: Option<String>,
    pub authorization_reference_date: Option<Timestamp>,
    pub originator_organization_id: u128,
    pub custodian_organization_id: u128,
    pub format: String,
    pub format_size: Option<i64>,
    pub security_classification: String,
    pub releasable_to_countries: Option<Vec<Option<String>>>,
    pub releasable_to_organizations: Option<Vec<Option<String>>>,
    pub releasable_to_categories: Option<Vec<Option<String>>>,
    pub disclosure_category: Option<String>,
    pub handling_restrictions: Option<Vec<Option<String>>>,
    pub handling_authority: Option<String>,
    pub no_handling_restrictions: Option<bool>,
    pub domain: Domain,
    pub tags: Vec<Option<String>>,
}

/// The data that asks the API for a security classification conversion.
#[derive(Debug, Clone)]
pub struct InsertableConversionRequest {
    pub user_id: String,
    pub authority_id: String,
    pub data_object: InsertableDataObject,
    pub metadata: InsertableMetadata,
    pub source_nation_classification: String,
    pub source_nation_code: String,
    pub target_nation_codes: Vec<String>,
}

/// What the submission reads of the issuing authority.
#[derive(Debug, Clone)]
pub struct AuthorityInfo {
    pub id: String,
    pub name: String,
    pub nation_code: String,
}

pub open spec fn prompt_head() -> Seq<char> {
    "Extract security metadata from this document as valid JSON.\n\nDocument: "@
}

pub open spec fn prompt_tail() -> Seq<char> {
    "\n\nRequirements:\n- title: Clear descriptive title (required string)\n- description: 2-sentence summary (required string)\n- domain: One of INTEL, CYBER, OPERATIONS, LOGISTICS, COMMUNICATIONS, NUCLEAR, COUNTERTERRORISM, MARITIME, AEROSPACE, SPECIALOPS\n- tags: Array of 3-6 classification tags (required array of strings)\n- identifier: Unique ID in format ORG-DOMAIN-DATE-XXXX (required string)\n- For optional arrays: use empty array [] if no values, never null\n- For optional strings: use null if no value\n\nOutput valid JSON matching this schema:\n{\n\"title\": \"string\",\n\"description\": \"string\",\n\"domain\": \"INTEL|CYBER|OPERATIONS|LOGISTICS|COMMUNICATIONS|NUCLEAR|COUNTERTERRORISM|MARITIME|AEROSPACE|SPECIALOPS\",\n\"tags\": [\"string\"],\n\"identifier\": \"string\",\n\"authorization_reference\": \"string or null\",\n\"releasable_to_countries\": [\"string\"] or null,\n\"releasable_to_organizations\": [\"string\"] or null,\n\"releasable_to_categories\": [\"string\"] or null,\n\"disclosure_category\": \"string or null\",\n\"handling_restrictions\": [\"string\"] or null,\n\"handling_authority\": \"string or null\",\n\"no_handling_restrictions\": true/false or null\n}\n\nOutput valid JSON only:"@
}

/// The prompt that asks an LLM for the metadata of `content` as JSON.
pub open spec fn extraction_prompt_spec(content: Seq<char>) -> Seq<char> {
    prompt_head() + content + prompt_tail()
}

/// The prompt that asks an LLM to extract the security metadata of `content` as JSON.
pub fn extraction_prompt(content: &str) -> (r: String)
    ensures
        r@ == extraction_prompt_spec(content@),
{
    concat3(
        "Extract security metadata from this document as valid JSON.\n\nDocument: ",
        content,
        "\n\nRequirements:\n- title: Clear descriptive title (required string)\n- description: 2-sentence summary (required string)\n- domain: One of INTEL, CYBER, OPERATIONS, LOGISTICS, COMMUNICATIONS, NUCLEAR, COUNTERTERRORISM, MARITIME, AEROSPACE, SPECIALOPS\n- tags: Array of 3-6 classification tags (required array of strings)\n- identifier: Unique ID in format ORG-DOMAIN-DATE-XXXX (required string)\n- For optional arrays: use empty array [] if no values, never null\n- For optional strings: use null if no value\n\nOutput valid JSON matching this schema:\n{\n\"title\": \"string\",\n\"description\": \"string\",\n\"domain\": \"INTEL|CYBER|OPERATIONS|LOGISTICS|COMMUNICATIONS|NUCLEAR|COUNTERTERRORISM|MARITIME|AEROSPACE|SPECIALOPS\",\n\"tags\": [\"string\"],\n\"identifier\": \"string\",\n\"authorization_reference\": \"string or null\",\n\"releasable_to_countries\": [\"string\"] or null,\n\"releasable_to_organizations\": [\"string\"] or null,\n\"releasable_to_categories\": [\"string\"] or null,\n\"disclosure_category\": \"string or null\",\n\"handling_restrictions\": [\"string\"] or null,\n\"handling_authority\": \"string or null\",\n\"no_handling_restrictions\": true/false or null\n}\n\nOutput valid JSON only:",
    )
}

/// The authority a submission is made for: the one in the session when it is
/// not empty, else the one chosen on the form when that is not empty.
pub open spec fn chosen_authority(session: Option<String>, selected: Option<String>) -> Option<Seq<char>> {
    match session {
        Some(s) if s@.len() > 0 => Some(s@),
        _ => match selected {
            Some(t) if t@.len() > 0 => Some(t@),
            _ => None,
        },
    }
}

/// The authority a submission is made for, or `None` when neither the session
/// nor the form names one.
pub fn resolve_authority_id(session: Option<String>, selected: Option<String>) -> (r: Option<String>)
    ensures
        r matches Some(a) <==> chosen_authority(session, selected) is Some,
        r matches Some(a) ==> Some(a@) == chosen_authority(session, selected),
{
    match session {
        Some(s) if !s.as_str().is_empty() => Some(s),
        _ => match selected {
            Some(t) if !t.as_str().is_empty() => Some(t),
            _ => None,
        },
    }
}


/// What the `uuid` crate reads from a string: the UUID's 128-bit value, or `None`
/// when the string is not a UUID in one of the forms the crate accepts.
pub uninterp spec fn uuid_value(s: Seq<char>) -> Option<u128>;

/// `uuid::Uuid::parse_str`, with the parsed UUID given as `Uuid::as_u128`. The
/// result is named by `uuid_value`; nothing more is claimed of which strings parse.
#[verifier::external_body]
fn parse_uuid(s: &str) -> (r: Option<u128>)
    ensures
        r == uuid_value(s@),
{
    match uuid::Uuid::parse_str(s) {
        Ok(u) => Some(u.as_u128()),
        Err(_) => None,
    }
}

/// `chrono::Utc::now`, as seconds and nanoseconds since the Unix epoch. Nothing
/// is claimed of the value: it is the machine's clock.
#[verifier::external_body]
fn utc_now() -> (r: Timestamp) {
    let now = chrono::Utc::now();
    Timestamp { secs: now.timestamp(), nanos: now.timestamp_subsec_nanos() }
}

/// `m` is the metadata made from the form, the authority's UUID `org`, the LLM's
/// fields and the date `today`.
pub open spec fn metadata_built_from(
    m: InsertableMetadata,
    form: DocumentSubmissionForm,
    org: u128,
    fields: LLMFields,
    today: Timestamp,
) -> bool {
    &&& m.identifier == fields.identifier
    &&& m.authorization_reference == fields.authorization_reference
    &&& m.authorization_reference_date == Some(today)
    &&& m.originator_organization_id == org
    &&& m.custodian_organization_id == org
    &&& m.format@ == "Markdown"@
    &&& m.format_size == Some((vstd::utf8::encode_utf8(form.content@).len() as usize) as i64)
    &&& m.security_classification@ == form.security_classification_level@
    &&& m.releasable_to_countries == fields.releasable_to_countries
    &&& m.releasable_to_organizations == fields.releasable_to_organizations
    &&& m.releasable_to_categories == fields.releasable_to_categories
    &&& m.disclosure_category == fields.disclosure_category
    &&& m.handling_restrictions == fields.handling_restrictions
    &&& m.handling_authority == fields.handling_authority
    &&& m.no_handling_restrictions == fields.no_handling_restrictions
    &&& m.domain == fields.domain
    &&& m.tags == fields.tags
}

/// `r` is the conversion request that `user_id` makes for `authority` with the
/// submitted form, the authority's UUID `org`, the LLM's fields and the date `today`.
pub open spec fn request_built_from(
    r: InsertableConversionRequest,
    form: DocumentSubmissionForm,
    user_id: Seq<char>,
    authority: AuthorityInfo,
    org: u128,
    fields: LLMFields,
    today: Timestamp,
) -> bool {
    &&& r.user_id@ == user_id
    &&& r.authority_id == authority.id
    &&& r.data_object.title == fields.title
    &&& r.data_object.description == fields.description
    &&& metadata_built_from(r.metadata, form, org, fields, today)
    &&& r.source_nation_classification@ == form.security_classification_level@
    &&& r.source_nation_code == authority.nation_code
    &&& r.target_nation_codes.deep_view() == selected_codes(nation_flags(form), nation_codes())
}

/// The conversion request made from the form, the authority (whose id reads as
/// the UUID `organization_id`) and the metadata the LLM extracted.
pub fn build_conversion_request(
    form: &DocumentSubmissionForm,
    user_id: String,
    authority: AuthorityInfo,
    organization_id: u128,
    fields: LLMFields,
    today: Timestamp,
) -> (r: InsertableConversionRequest)
    ensures
        request_built_from(r, *form, user_id@, authority, organization_id, fields, today),
{
    let target_nation_codes = form.target_nations();
    let format_size = form.content.as_str().len() as i64;
    let data_object = InsertableDataObject { title: fields.title, description: fields.description };
    let metadata = InsertableMetadata {
        identifier: fields.identifier,
        authorization_reference: fields.authorization_reference,
        authorization_reference_date: Some(today),
        originator_organization_id: organization_id,
        custodian_organization_id: organization_id,
        format: "Markdown".to_owned(),
        format_size: Some(format_size),
        security_classification: form.security_classification_level.clone(),
        releasable_to_countries: fields.releasable_to_countries,
        releasable_to_organizations: fields.releasable_to_organizations,
        releasable_to_categories: fields.releasable_to_categories,
        disclosure_category: fields.disclosure_category,
        handling_restrictions: fields.handling_restrictions,
        handling_authority: fields.handling_authority,
        no_handling_restrictions: fields.no_handling_restrictions,
        domain: fields.domain,
        tags: fields.tags,
    };
    InsertableConversionRequest {
        user_id,
        authority_id: authority.id,
        data_object,
        metadata,
        source_nation_classification: form.security_classification_level.clone(),
        source_nation_code: authority.nation_code,
        target_nation_codes,
    }
}

/// The first step of a document submission.
#[derive(Debug)]
pub enum SubmitStart {
    /// Send the visitor to this location.
    Redirect(String),
    /// Fetch the authority with this id, then go on with `submit_document_prompt`.
    FetchAuthority(String),
}

/// The first step of a document submission: an empty document sends the
/// visitor home; a submission that names no authority, in the session or on the
/// form, sends them back to the form; otherwise the named authority is fetched.
pub fn submit_document_start(
    lang: &str,
    form: &DocumentSubmissionForm,
    session_authority_id: Option<String>,
) -> (r: SubmitStart)
    ensures
        form.content@.len() == 0 ==> (r matches SubmitStart::Redirect(l) && l@ == lang_path_spec(
            lang@,
            ""@,
        )),
        form.content@.len() > 0 ==> match chosen_authority(
            session_authority_id,
            form.selected_authority_id,
        ) {
            Some(a) => r matches SubmitStart::FetchAuthority(id) && id@ == a,
            None => r matches SubmitStart::Redirect(l) && l@ == lang_path_spec(
                lang@,
                "/conversion_request?error=no_authority_selected"@,
            ),
        },
{
    if form.content.as_str().is_empty() {
        return SubmitStart::Redirect(lang_path(lang, ""));
    }
    match resolve_authority_id(session_authority_id, form.selected_authority_id.clone()) {
        Some(id) => SubmitStart::FetchAuthority(id),
        None => SubmitStart::Redirect(
            lang_path(lang, "/conversion_request?error=no_authority_selected"),
        ),
    }
}

/// The second step of a document submission: when the authority could not be
/// fetched the visitor goes back to the form (`Err` holds the location);
/// otherwise `Ok` holds the prompt to send to the LLM.
pub fn submit_document_prompt(lang: &str, form: &DocumentSubmissionForm, authority_found: bool) -> (r:
    Result<String, String>)
    ensures
        authority_found ==> (r matches Ok(p) && p@ == extraction_prompt_spec(form.content@)),
        !authority_found ==> (r matches Err(l) && l@ == lang_path_spec(
            lang@,
            "/conversion_request?error=authority_fetch_failed"@,
        )),
{
    if authority_found {
        Ok(extraction_prompt(form.content.as_str()))
    } else {
        Err(lang_path(lang, "/conversion_request?error=authority_fetch_failed"))
    }
}

/// The last step of a document submission: the conversion request to keep for
/// the validation page, and the location of that page. The request is dated
/// with the current time. `None` when the authority's id is not a UUID.
pub fn submit_document_finish(
    lang: &str,
    form: &DocumentSubmissionForm,
    user_id: String,
    authority: AuthorityInfo,
    fields: LLMFields,
) -> (r: Option<(InsertableConversionRequest, String)>)
    ensures
        r is None <==> uuid_value(authority.id@) is None,
        r matches Some((req, location)) ==> {
            &&& location@ == lang_path_spec(lang@, "/validate_conversion"@)
            &&& req.metadata.authorization_reference_date matches Some(today)
            &&& request_built_from(
                req,
                *form,
                user_id@,
                authority,
                uuid_value(authority.id@)->0,
                fields,
                today,
            )
        },
{
    let org = match parse_uuid(authority.id.as_str()) {
        Some(v) => v,
        None => {
            return None;
        },
    };
    let today = utc_now();
    let req = build_conversion_request(form, user_id, authority, org, fields, today);
    Some((req, lang_path(lang, "/validate_conversion")))
}


/// The values of a list whose entries may be missing, missing entries left out.
pub open spec fn present(items: Seq<Option<Seq<char>>>) -> Seq<Seq<char>>
    decreases items.len(),
{
    if items.len() == 0 {
        seq![]
    } else {
        let rest = present(items.drop_last());
        match items.last() {
            Some(t) => rest.push(t),
            None => rest,
        }
    }
}

/// The entries of an optional list, none when the list is absent.
pub open spec fn list_or_empty(list: Option<Vec<Option<String>>>) -> Seq<Option<Seq<char>>> {
    match list {
        Some(v) => v.deep_view(),
        None => seq![],
    }
}

/// How the validation page shows a list: its present entries joined with `", "`.
pub open spec fn shown_list(items: Seq<Option<Seq<char>>>) -> Seq<char> {
    join(present(items), ", "@)
}

/// The values of the entries of `items` that are present, in order.
pub fn present_values(items: &Vec<Option<String>>) -> (r: Vec<String>)
    ensures
        r.deep_view() == present(items.deep_view()),
{
    let mut kept_values: Vec<String> = Vec::new();
    let n = items.len();
    let ghost iv = items.deep_view();
    for i in 0..n
        invariant
            n == items.len(),
            iv == items.deep_view(),
            kept_values.deep_view() == present(iv.take(i as int)),
    {
        assert(iv.take(i + 1).drop_last() =~= iv.take(i as int));
        assert(iv.take(i + 1).last() == iv[i as int]);
        match &items[i] {
            Some(t) => {
                kept_values.push(t.clone());
                assert(kept_values.deep_view() =~= present(iv.take(i + 1)));
            },
            None => {},
        }
    }
    assert(iv.take(n as int) =~= iv);
    kept_values
}

/// The present entries of `items`, joined with `", "`.
pub fn join_present(items: &Vec<Option<String>>) -> (r: String)
    ensures
        r@ == shown_list(items.deep_view()),
{
    let kept = present_values(items);
    join_strings(&kept, ", ")
}

/// The present entries of an optional list, joined with `", "`; empty when the list is absent.
pub fn join_optional_list(list: &Option<Vec<Option<String>>>) -> (r: String)
    ensures
        r@ == shown_list(list_or_empty(*list)),
{
    match list {
        Some(v) => join_present(v),
        None => {
            assert(present(Seq::<Option<Seq<char>>>::empty()) =~= Seq::<Seq<char>>::empty());
            String::new()
        },
    }
}

/// The lists of a conversion request as the validation page shows them.
#[derive(Debug, Clone)]
pub struct ValidationLists {
    pub tags: String,
    pub releasable_to_countries: String,
    pub releasable_to_organizations: String,
    pub releasable_to_categories: String,
    pub handling_restrictions: String,
}

/// The metadata's lists, each shown as its present entries joined with `", "`.
pub fn validation_lists(metadata: &InsertableMetadata) -> (r: ValidationLists)
    ensures
        r.tags@ == shown_list(metadata.tags.deep_view()),
        r.releasable_to_countries@ == shown_list(list_or_empty(metadata.releasable_to_countries)),
        r.releasable_to_organizations@ == shown_list(
            list_or_empty(metadata.releasable_to_organizations),
        ),
        r.releasable_to_categories@ == shown_list(list_or_empty(metadata.releasable_to_categories)),
        r.handling_restrictions@ == shown_list(list_or_empty(metadata.handling_restrictions)),
{
    ValidationLists {
        tags: join_present(&metadata.tags),
        releasable_to_countries: join_optional_list(&metadata.releasable_to_countries),
        releasable_to_organizations: join_optional_list(&metadata.releasable_to_organizations),
        releasable_to_categories: join_optional_list(&metadata.releasable_to_categories),
        handling_restrictions: join_optional_list(&metadata.handling_restrictions),
    }
}

/// The form of the validation page, on which the visitor confirms the request.
#[derive(Debug, Clone)]
pub struct ValidationForm {
    // Data object
    pub title: String,
    pub description: String,
    // Metadata
    pub identifier: String,
    pub domain: String,
    pub tags: String,
    pub authorization_reference: Option<String>,
    pub disclosure_category: Option<String>,
    pub handling_authority: Option<String>,
    pub releasable_to_countries: String,
    pub releasable_to_organizations: String,
    pub releasable_to_categories: String,
    pub handling_restrictions: String,
    pub no_handling_restrictions: Option<String>,
    // Hidden fields (read-only)
    pub user_id: String,
    pub authority_id: String,
    pub source_nation_classification: String,
    pub source_nation_code: String,
    pub target_nation_codes: String,
    pub format: String,
    pub format_size: Option<i64>,
    pub security_classification: String,
    pub originator_organization_id: String,
    pub custodian_organization_id: String,
    pub authorization_reference_date: Option<String>,
}

/// What the API's conversion mutation takes.
#[derive(Debug, Clone)]
pub struct SubmitConversionInput {
    pub authority_id: String,
    pub data_object_title: String,
    pub data_object_description: String,
    pub metadata_domain: String,
    pub metadata_tags: Vec<String>,
    pub source_nation_code: String,
    pub target_nation_codes: Vec<String>,
}

/// The conversion input a confirmed validation form submits: its texts as they
/// are, its tags and target nations read as comma-separated lists.
pub fn conversion_input(form: &ValidationForm) -> (r: SubmitConversionInput)
    ensures
        r.authority_id == form.authority_id,
        r.data_object_title == form.title,
        r.data_object_description == form.description,
        r.metadata_domain == form.domain,
        r.metadata_tags.deep_view() == comma_list(form.tags@),
        r.source_nation_code == form.source_nation_code,
        r.target_nation_codes.deep_view() == comma_list(form.target_nation_codes@),
{
    let target_nation_codes = parse_comma_list(form.target_nation_codes.as_str());
    let metadata_tags = parse_comma_list(form.tags.as_str());
    SubmitConversionInput {
        authority_id: form.authority_id.clone(),
        data_object_title: form.title.clone(),
        data_object_description: form.description.clone(),
        metadata_domain: form.domain.clone(),
        metadata_tags,
        source_nation_code: form.source_nation_code.clone(),
        target_nation_codes,
    }
}

/// The error the confirmation page shows when the API refused the conversion
/// request: a fixed sentence, a colon, then the API's error text.
pub fn submission_error_message(error: &str) -> (r: String)
    ensures
        r@ == "Unable to submit conversion request: "@ + error@,
{
    concat2("Unable to submit conversion request: ", error)
}

/// A list shown on the validation page and read back from the confirmed form
/// is the list of its present entries, when each of those is non-empty and free
/// of commas and of surrounding white space.
pub proof fn law_confirmed_list_is_shown_list(items: Seq<Option<Seq<char>>>)
    requires
        forall|i: int|
            0 <= i < present(items).len() ==> (#[trigger] present(items)[i]).len() > 0 && lacks(
                present(items)[i],
                ',',
            ) && trim(present(items)[i]) == present(items)[i],
    ensures
        comma_list(shown_list(items)) == present(items),
{
    reveal_strlit(", ");
    assert(", "@ =~= seq![',', ' ']);
    law_comma_list_undoes_join(present(items));
}


/// Every character of `s` is an ASCII capital letter.
pub open spec fn capitals(s: Seq<char>) -> bool {
    forall|k: int| 0 <= k < s.len() ==> 65 <= (#[trigger] s[k] as u32) <= 90
}

proof fn lemma_capitals_are_plain(s: Seq<char>)
    requires
        s.len() > 0,
        capitals(s),
    ensures
        lacks(s, ','),
        trim(s) == s,
{
    assert(!is_white_space(s[0]));
    assert(!is_white_space(s[s.len() - 1]));
    assert(trim_start(s) == s);
    assert(s.last() == s[s.len() - 1]);
}

proof fn lemma_nation_codes_are_capitals(i: int)
    requires
        0 <= i < 34,
    ensures
        nation_code(i).len() == 3,
        capitals(nation_code(i)),
{
    reveal_strlit("ALB");
    reveal_strlit("AUS");
    reveal_strlit("BEL");
    reveal_strlit("BGR");
    reveal_strlit("CAN");
    reveal_strlit("HRV");
    reveal_strlit("CZE");
    reveal_strlit("DNK");
    reveal_strlit("EST");
    reveal_strlit("FIN");
    reveal_strlit("FRA");
    reveal_strlit("DEU");
    reveal_strlit("GRC");
    reveal_strlit("HUN");
    reveal_strlit("ISL");
    reveal_strlit("ITA");
    reveal_strlit("LVA");
    reveal_strlit("LTU");
    reveal_strlit("LUX");
    reveal_strlit("MNE");
    reveal_strlit("NLD");
    reveal_strlit("NZL");
    reveal_strlit("MKD");
    reveal_strlit("NOR");
    reveal_strlit("POL");
    reveal_strlit("PRT");
    reveal_strlit("ROU");
    reveal_strlit("SVK");
    reveal_strlit("SVN");
    reveal_strlit("ESP");
    reveal_strlit("SWE");
    reveal_strlit("TUR");
    reveal_strlit("GBR");
    reveal_strlit("USA");
}

proof fn lemma_selected_among(flags: Seq<bool>, codes: Seq<Seq<char>>, k: int)
    requires
        flags.len() <= codes.len(),
        0 <= k < selected_codes(flags, codes).len(),
    ensures
        exists|i: int| 0 <= i < flags.len() && selected_codes(flags, codes)[k] == codes[i],
    decreases flags.len(),
{
    let rest = selected_codes(flags.drop_last(), codes);
    if k < rest.len() {
        lemma_selected_among(flags.drop_last(), codes, k);
        let i = choose|i: int| 0 <= i < flags.drop_last().len() && rest[k] == codes[i];
        assert(selected_codes(flags, codes)[k] == codes[i]);
    } else {
        assert(selected_codes(flags, codes)[k] == codes[flags.len() - 1]);
    }
}

/// The nation codes a submission selects, joined with `", "` as the validation
/// page shows them, read back from the confirmed form are the same codes.
pub proof fn law_selected_nations_survive_validation(form: DocumentSubmissionForm)
    ensures
        comma_list(join(selected_codes(nation_flags(form), nation_codes()), ", "@))
            == selected_codes(nation_flags(form), nation_codes()),
{
    let sel = selected_codes(nation_flags(form), nation_codes());
    assert forall|k: int| 0 <= k < sel.len() implies (#[trigger] sel[k]).len() > 0 && lacks(
        sel[k],
        ',',
    ) && trim(sel[k]) == sel[k] by {
        lemma_selected_among(nation_flags(form), nation_codes(), k);
        let i = choose|i: int| 0 <= i < 34 && sel[k] == nation_codes()[i];
        lemma_nation_codes_are_capitals(i);
        lemma_capitals_are_plain(nation_code(i));
    }
    reveal_strlit(", ");
    assert(", "@ =~= seq![',', ' ']);
    law_comma_list_undoes_join(sel);
}

/// The three characters of a code, read as one number.
spec fn code_key(s: Seq<char>) -> int {
    (s[0] as int) * 65536 + (s[1] as int) * 256 + (s[2] as int)
}

spec fn nation_key(i: int) -> int {
    if i == 0 {
        4279362
    } else     if i == 1 {
        4281683
    } else     if i == 2 {
        4343116
    } else     if i == 3 {
        4343634
    } else     if i == 4 {
        4407630
    } else     if i == 5 {
        4739670
    } else     if i == 6 {
        4414021
    } else     if i == 7 {
        4476491
    } else     if i == 8 {
        4543316
    } else     if i == 9 {
        4606286
    } else     if i == 10 {
        4608577
    } else     if i == 11 {
        4474197
    } else     if i == 12 {
        4674115
    } else     if i == 13 {
        4740430
    } else     if i == 14 {
        4805452
    } else     if i == 15 {
        4805697
    } else     if i == 16 {
        5002817
    } else     if i == 17 {
        5002325
    } else     if i == 18 {
        5002584
    } else     if i == 19 {
        5066309
    } else     if i == 20 {
        5131332
    } else     if i == 21 {
        5134924
    } else     if i == 22 {
        5065540
    } else     if i == 23 {
        5132114
    } else     if i == 24 {
        5263180
    } else     if i == 25 {
        5263956
    } else     if i == 26 {
        5394261
    } else     if i == 27 {
        5461579
    } else     if i == 28 {
        5461582
    } else     if i == 29 {
        4543312
    } else     if i == 30 {
        5461829
    } else     if i == 31 {
        5526866
    } else     if i == 32 {
        4670034
    } else     if i == 33 {
        5591873
    } else {
        0
    }
}

proof fn lemma_nation_key(i: int)
    requires
        0 <= i < 34,
    ensures
        code_key(nation_code(i)) == nation_key(i),
{
    reveal_strlit("ALB");
    reveal_strlit("AUS");
    reveal_strlit("BEL");
    reveal_strlit("BGR");
    reveal_strlit("CAN");
    reveal_strlit("HRV");
    reveal_strlit("CZE");
    reveal_strlit("DNK");
    reveal_strlit("EST");
    reveal_strlit("FIN");
    reveal_strlit("FRA");
    reveal_strlit("DEU");
    reveal_strlit("GRC");
    reveal_strlit("HUN");
    reveal_strlit("ISL");
    reveal_strlit("ITA");
    reveal_strlit("LVA");
    reveal_strlit("LTU");
    reveal_strlit("LUX");
    reveal_strlit("MNE");
    reveal_strlit("NLD");
    reveal_strlit("NZL");
    reveal_strlit("MKD");
    reveal_strlit("NOR");
    reveal_strlit("POL");
    reveal_strlit("PRT");
    reveal_strlit("ROU");
    reveal_strlit("SVK");
    reveal_strlit("SVN");
    reveal_strlit("ESP");
    reveal_strlit("SWE");
    reveal_strlit("TUR");
    reveal_strlit("GBR");
    reveal_strlit("USA");
}

proof fn lemma_nation_codes_distinct(i: int, j: int)
    requires
        0 <= i < 34,
        0 <= j < 34,
        nation_code(i) == nation_code(j),
    ensures
        i == j,
{
    lemma_nation_key(i);
    lemma_nation_key(j);
}

proof fn lemma_selected_has(flags: Seq<bool>, codes: Seq<Seq<char>>, n: int)
    requires
        flags.len() <= codes.len(),
        0 <= n < flags.len(),
        flags[n],
    ensures
        selected_codes(flags, codes).contains(codes[n]),
    decreases flags.len(),
{
    let s = selected_codes(flags, codes);
    if n == flags.len() - 1 {
        assert(s[s.len() - 1] == codes[n]);
    } else {
        let d = flags.drop_last();
        lemma_selected_has(d, codes, n);
        let r = selected_codes(d, codes);
        let m = choose|m: int| 0 <= m < r.len() && r[m] == codes[n];
        assert(s[m] == r[m]);
    }
}

proof fn lemma_selected_from(flags: Seq<bool>, codes: Seq<Seq<char>>, k: int) -> (m: int)
    requires
        flags.len() <= codes.len(),
        0 <= k < selected_codes(flags, codes).len(),
    ensures
        0 <= m < flags.len(),
        flags[m],
        selected_codes(flags, codes)[k] == codes[m],
    decreases flags.len(),
{
    let d = flags.drop_last();
    let r = selected_codes(d, codes);
    if k < r.len() {
        let m = lemma_selected_from(d, codes, k);
        m
    } else {
        (flags.len() - 1) as int
    }
}

proof fn lemma_nation_box(f: DocumentSubmissionForm, n: int)
    requires
        0 <= n < 34,
    ensures
        selected_codes(nation_flags(f), nation_codes()).contains(nation_code(n)) <==> nation_ticked(
            f,
            n,
        ),
{
    let flags = nation_flags(f);
    let codes = nation_codes();
    let s = selected_codes(flags, codes);
    if nation_ticked(f, n) {
        assert(codes[n] == nation_code(n));
        lemma_selected_has(flags, codes, n);
    }
    if s.contains(nation_code(n)) {
        let k = choose|k: int| 0 <= k < s.len() && s[k] == nation_code(n);
        let m = lemma_selected_from(flags, codes, k);
        assert(codes[m] == nation_code(m));
        lemma_nation_codes_distinct(m, n);
    }
}

/// Each nation checkbox contributes its own ISO 3166 alpha-3 code: a code is
/// among the target nations exactly when the form's field of that nation is set.
pub proof fn law_each_nation_box_gives_its_code(f: DocumentSubmissionForm)
    ensures
        selected_codes(nation_flags(f), nation_codes()).contains("ALB"@) <==> f.alb is Some,
        selected_codes(nation_flags(f), nation_codes()).contains("AUS"@) <==> f.aus is Some,
        selected_codes(nation_flags(f), nation_codes()).contains("BEL"@) <==> f.bel is Some,
        selected_codes(nation_flags(f), nation_codes()).contains("BGR"@) <==> f.bgr is Some,
        selected_codes(nation_flags(f), nation_codes()).contains("CAN"@) <==> f.can is Some,
        selected_codes(nation_flags(f), nation_codes()).contains("HRV"@) <==> f.hrv is Some,
        selected_codes(nation_flags(f), nation_codes()).contains("CZE"@) <==> f.cze is Some,
        selected_codes(nation_flags(f), nation_codes()).contains("DNK"@) <==> f.dnk is Some,
        selected_codes(nation_flags(f), nation_codes()).contains("EST"@) <==> f.est is Some,
        selected_codes(nation_flags(f), nation_codes()).contains("FIN"@) <==> f.fin is Some,
        selected_codes(nation_flags(f), nation_codes()).contains("FRA"@) <==> f.fra is Some,
        selected_codes(nation_flags(f), nation_codes()).contains("DEU"@) <==> f.deu is Some,
        selected_codes(nation_flags(f), nation_codes()).contains("GRC"@) <==> f.grc is Some,
        selected_codes(nation_flags(f), nation_codes()).contains("HUN"@) <==> f.hun is Some,
        selected_codes(nation_flags(f), nation_codes()).contains("ISL"@) <==> f.isl is Some,
        selected_codes(nation_flags(f), nation_codes()).contains("ITA"@) <==> f.ita is Some,
        selected_codes(nation_flags(f), nation_codes()).contains("LVA"@) <==> f.lva is Some,
        selected_codes(nation_flags(f), nation_codes()).contains("LTU"@) <==> f.ltu is Some,
        selected_codes(nation_flags(f), nation_codes()).contains("LUX"@) <==> f.lux is Some,
        selected_codes(nation_flags(f), nation_codes()).contains("MNE"@) <==> f.mne is Some,
        selected_codes(nation_flags(f), nation_codes()).contains("NLD"@) <==> f.nld is Some,
        selected_codes(nation_flags(f), nation_codes()).contains("NZL"@) <==> f.nzl is Some,
        selected_codes(nation_flags(f), nation_codes()).contains("MKD"@) <==> f.mkd is Some,
        selected_codes(nation_flags(f), nation_codes()).contains("NOR"@) <==> f.nor is Some,
        selected_codes(nation_flags(f), nation_codes()).contains("POL"@) <==> f.pol is Some,
        selected_codes(nation_flags(f), nation_codes()).contains("PRT"@) <==> f.prt is Some,
        selected_codes(nation_flags(f), nation_codes()).contains("ROU"@) <==> f.rou is Some,
        selected_codes(nation_flags(f), nation_codes()).contains("SVK"@) <==> f.svk is Some,
        selected_codes(nation_flags(f), nation_codes()).contains("SVN"@) <==> f.svn is Some,
        selected_codes(nation_flags(f), nation_codes()).contains("ESP"@) <==> f.esp is Some,
        selected_codes(nation_flags(f), nation_codes()).contains("SWE"@) <==> f.swe is Some,
        selected_codes(nation_flags(f), nation_codes()).contains("TUR"@) <==> f.tur is Some,
        selected_codes(nation_flags(f), nation_codes()).contains("GBR"@) <==> f.gbr is Some,
        selected_codes(nation_flags(f), nation_codes()).contains("USA"@) <==> f.usa is Some,
{
    lemma_nation_box(f, 0);
    lemma_nation_box(f, 1);
    lemma_nation_box(f, 2);
    lemma_nation_box(f, 3);
    lemma_nation_box(f, 4);
    lemma_nation_box(f, 5);
    lemma_nation_box(f, 6);
    lemma_nation_box(f, 7);
    lemma_nation_box(f, 8);
    lemma_nation_box(f, 9);
    lemma_nation_box(f, 10);
    lemma_nation_box(f, 11);
    lemma_nation_box(f, 12);
    lemma_nation_box(f, 13);
    lemma_nation_box(f, 14);
    lemma_nation_box(f, 15);
    lemma_nation_box(f, 16);
    lemma_nation_box(f, 17);
    lemma_nation_box(f, 18);
    lemma_nation_box(f, 19);
    lemma_nation_box(f, 20);
    lemma_nation_box(f, 21);
    lemma_nation_box(f, 22);
    lemma_nation_box(f, 23);
    lemma_nation_box(f, 24);
    lemma_nation_box(f, 25);
    lemma_nation_box(f, 26);
    lemma_nation_box(f, 27);
    lemma_nation_box(f, 28);
    lemma_nation_box(f, 29);
    lemma_nation_box(f, 30);
    lemma_nation_box(f, 31);
    lemma_nation_box(f, 32);
    lemma_nation_box(f, 33);
}

/// A submission is made for the authority in the session whenever the session
/// holds a non-empty one, whatever the form selected.
pub proof fn law_session_authority_wins(session: Option<String>, selected: Option<String>)
    requires
        session matches Some(s) && s@.len() > 0,
    ensures
        chosen_authority(session, selected) == Some(session->0@),
{
}

/// When the session holds no authority, or an empty one, the submission is made
/// for the one selected on the form if it is not empty, and for none otherwise.
pub proof fn law_form_authority_without_session(session: Option<String>, selected: Option<String>)
    requires
        !(session matches Some(s) && s@.len() > 0),
    ensures
        selected matches Some(t) && t@.len() > 0 ==> chosen_authority(session, selected) == Some(
            selected->0@,
        ),
        !(selected matches Some(t) && t@.len() > 0) ==> chosen_authority(session, selected) is None,
{
}

spec fn organization_key(i: int) -> int {
    if i == 0 {
        78
    } else     if i == 1 {
        69
    } else     if i == 2 {
        85
    } else     if i == 3 {
        70
    } else     if i == 4 {
        65
    } else     if i == 5 {
        81
    } else {
        0
    }
}

proof fn lemma_organization_codes_distinct(i: int, j: int)
    requires
        0 <= i < 6,
        0 <= j < 6,
        organization_code(i) == organization_code(j),
    ensures
        i == j,
{
    reveal_strlit("NATO");
    reveal_strlit("EU");
    reveal_strlit("UN");
    reveal_strlit("FVEY");
    reveal_strlit("AUKUS");
    reveal_strlit("QUAD");
    assert(organization_code(i)[0] as int == organization_key(i));
    assert(organization_code(j)[0] as int == organization_key(j));
}

proof fn lemma_organization_box(f: DocumentSubmissionForm, n: int)
    requires
        0 <= n < 6,
    ensures
        selected_codes(organization_flags(f), organization_codes()).contains(organization_code(n)) <==> organization_ticked(f, n),
{
    let flags = organization_flags(f);
    let codes = organization_codes();
    let s = selected_codes(flags, codes);
    if organization_ticked(f, n) {
        assert(codes[n] == organization_code(n));
        lemma_selected_has(flags, codes, n);
    }
    if s.contains(organization_code(n)) {
        let k = choose|k: int| 0 <= k < s.len() && s[k] == organization_code(n);
        let m = lemma_selected_from(flags, codes, k);
        assert(codes[m] == organization_code(m));
        lemma_organization_codes_distinct(m, n);
    }
}

/// Each organization checkbox contributes its own code: a code is among the
/// selected organizations exactly when the form's field for it is set.
pub proof fn law_each_organization_box_gives_its_code(f: DocumentSubmissionForm)
    ensures
        selected_codes(organization_flags(f), organization_codes()).contains("NATO"@) <==> f.nato is Some,
        selected_codes(organization_flags(f), organization_codes()).contains("EU"@) <==> f.eu is Some,
        selected_codes(organization_flags(f), organization_codes()).contains("UN"@) <==> f.un is Some,
        selected_codes(organization_flags(f), organization_codes()).contains("FVEY"@) <==> f.fvey is Some,
        selected_codes(organization_flags(f), organization_codes()).contains("AUKUS"@) <==> f.aukus is Some,
        selected_codes(organization_flags(f), organization_codes()).contains("QUAD"@) <==> f.quad is Some,
{
    lemma_organization_box(f, 0);
    lemma_organization_box(f, 1);
    lemma_organization_box(f, 2);
    lemma_organization_box(f, 3);
    lemma_organization_box(f, 4);
    lemma_organization_box(f, 5);
}

spec fn restriction_key(i: int) -> int {
    if i == 0 {
        67
    } else     if i == 1 {
        70
    } else     if i == 2 {
        76
    } else     if i == 3 {
        83
    } else     if i == 4 {
        78
    } else     if i == 5 {
        80
    } else     if i == 6 {
        79
    } else {
        0
    }
}

proof fn lemma_restriction_codes_distinct(i: int, j: int)
    requires
        0 <= i < 7,
        0 <= j < 7,
        restriction_code(i) == restriction_code(j),
    ensures
        i == j,
{
    reveal_strlit("CUI");
    reveal_strlit("FOUO");
    reveal_strlit("LES");
    reveal_strlit("SBU");
    reveal_strlit("NOFORN");
    reveal_strlit("PROPIN");
    reveal_strlit("ORCON");
    assert(restriction_code(i)[0] as int == restriction_key(i));
    assert(restriction_code(j)[0] as int == restriction_key(j));
}

proof fn lemma_restriction_box(f: DocumentSubmissionForm, n: int)
    requires
        0 <= n < 7,
    ensures
        selected_codes(restriction_flags(f), restriction_codes()).contains(restriction_code(n)) <==> restriction_ticked(f, n),
{
    let flags = restriction_flags(f);
    let codes = restriction_codes();
    let s = selected_codes(flags, codes);
    if restriction_ticked(f, n) {
        assert(codes[n] == restriction_code(n));
        lemma_selected_has(flags, codes, n);
    }
    if s.contains(restriction_code(n)) {
        let k = choose|k: int| 0 <= k < s.len() && s[k] == restriction_code(n);
        let m = lemma_selected_from(flags, codes, k);
        assert(codes[m] == restriction_code(m));
        lemma_restriction_codes_distinct(m, n);
    }
}

/// Each handling restriction checkbox contributes its own code: a code is among the
/// selected handling restrictions exactly when the form's field for it is set.
pub proof fn law_each_restriction_box_gives_its_code(f: DocumentSubmissionForm)
    ensures
        selected_codes(restriction_flags(f), restriction_codes()).contains("CUI"@) <==> f.cui is Some,
        selected_codes(restriction_flags(f), restriction_codes()).contains("FOUO"@) <==> f.fouo is Some,
        selected_codes(restriction_flags(f), restriction_codes()).contains("LES"@) <==> f.les is Some,
        selected_codes(restriction_flags(f), restriction_codes()).contains("SBU"@) <==> f.sbu is Some,
        selected_codes(restriction_flags(f), restriction_codes()).contains("NOFORN"@) <==> f.noforn is Some,
        selected_codes(restriction_flags(f), restriction_codes()).contains("PROPIN"@) <==> f.propin is Some,
        selected_codes(restriction_flags(f), restriction_codes()).contains("ORCON"@) <==> f.orcon is Some,
{
    lemma_restriction_box(f, 0);
    lemma_restriction_box(f, 1);
    lemma_restriction_box(f, 2);
    lemma_restriction_box(f, 3);
    lemma_restriction_box(f, 4);
    lemma_restriction_box(f, 5);
    lemma_restriction_box(f, 6);
}

proof fn lemma_present_has(items: Seq<Option<Seq<char>>>, i: int)
    requires
        0 <= i < items.len(),
        items[i] is Some,
    ensures
        present(items).contains(items[i]->0),
    decreases items.len(),
{
    let p = present(items);
    if i == items.len() - 1 {
        assert(p[p.len() - 1] == items[i]->0);
    } else {
        let d = items.drop_last();
        lemma_present_has(d, i);
        let r = present(d);
        let m = choose|m: int| 0 <= m < r.len() && r[m] == d[i]->0;
        assert(p[m] == r[m]);
    }
}

proof fn lemma_present_from(items: Seq<Option<Seq<char>>>, k: int) -> (i: int)
    requires
        0 <= k < present(items).len(),
    ensures
        0 <= i < items.len(),
        items[i] == Some(present(items)[k]),
    decreases items.len(),
{
    let d = items.drop_last();
    let r = present(d);
    if k < r.len() {
        lemma_present_from(d, k)
    } else {
        (items.len() - 1) as int
    }
}

/// The present entries of a list: every value the list holds is among them,
/// and each of them is a value the list holds; the missing entries are left out.
pub proof fn law_present_entries(items: Seq<Option<Seq<char>>>)
    ensures
        forall|i: int|
            0 <= i < items.len() && #[trigger] items[i] is Some ==> present(items).contains(
                items[i]->0,
            ),
        forall|k: int|
            #![trigger present(items)[k]]
            0 <= k < present(items).len() ==> exists|i: int|
                #![trigger items[i]]
                0 <= i < items.len() && items[i] == Some(present(items)[k]),
        present(items).len() <= items.len(),
{
    assert forall|i: int| 0 <= i < items.len() && #[trigger] items[i] is Some implies present(
        items,
    ).contains(items[i]->0) by {
        lemma_present_has(items, i);
    }
    assert forall|k: int|
        #![trigger present(items)[k]]
        0 <= k < present(items).len() implies exists|i: int|
            #![trigger items[i]]
            0 <= i < items.len() && items[i] == Some(present(items)[k]) by {
        let i = lemma_present_from(items, k);
        assert(items[i] == Some(present(items)[k]));
    }
    lemma_present_len(items);
}

proof fn lemma_present_len(items: Seq<Option<Seq<char>>>)
    ensures
        present(items).len() <= items.len(),
    decreases items.len(),
{
    if items.len() > 0 {
        lemma_present_len(items.drop_last());
    }
}

} // verus!

//! Country and jurisdiction risk lookup.

use crate::bindings::{to_upper, upper_of};
use vstd::prelude::*;

verus! {

/// Country risk level, ordered from least to most severe.
#[derive(Debug, Clone, Copy, PartialEq, Eq, Structural, PartialOrd, Ord)]
pub enum CountryRiskLevel {
    Low,
    Medium,
    High,
    Prohibited,
}

/// Risk entry for one country.
#[derive(Debug, Clone)]
pub struct CountryRisk {
    pub country_code: String,
    pub country_name: String,
    pub risk_level: CountryRiskLevel,
    pub risk_score: u8,
    pub factors: Vec<String>,
    pub fatf_status: Option<String>,
    pub sanctions_programs: Vec<String>,
}

impl CountryRisk {
    /// Whether transactions touching this country are prohibited.
    pub fn is_prohibited(&self) -> (r: bool)
        ensures
            r == (self.risk_level == CountryRiskLevel::Prohibited),
    {
        self.risk_level == CountryRiskLevel::Prohibited
    }

    /// Whether enhanced due diligence is required (high or prohibited).
    pub fn requires_edd(&self) -> (r: bool)
        ensures
            r == (self.risk_level == CountryRiskLevel::High || self.risk_level
                == CountryRiskLevel::Prohibited),
    {
        match self.risk_level {
            CountryRiskLevel::High | CountryRiskLevel::Prohibited => true,
            _ => false,
        }
    }
}

/// Risk assessment of a jurisdiction (offshore centres, tax havens).
#[derive(Debug, Clone)]
pub struct JurisdictionRisk {
    pub jurisdiction: String,
    pub is_tax_haven: bool,
    pub is_offshore: bool,
    pub is_fatf_greylist: bool,
    pub is_fatf_blacklist: bool,
    /// 0 to 100.
    pub transparency_score: u8,
    /// 0 to 100.
    pub regulatory_strength: u8,
    pub overall_risk: CountryRiskLevel,
}

/// Combined jurisdiction score: flag weights plus a quarter of each missing
/// point of transparency and of regulatory strength, capped at 100.
pub open spec fn jurisdiction_score(j: JurisdictionRisk) -> int {
    let raw = (if j.is_tax_haven { 20int } else { 0 }) + (if j.is_offshore { 15int } else { 0 })
        + (if j.is_fatf_greylist { 30int } else { 0 }) + (if j.is_fatf_blacklist { 50int } else { 0 })
        + (100 - j.transparency_score) / 4 + (100 - j.regulatory_strength) / 4;
    if raw > 100 { 100 } else { raw }
}

impl JurisdictionRisk {
    /// Combined risk score of the jurisdiction, 0 to 100.
    pub fn risk_score(&self) -> (r: u8)
        requires
            self.transparency_score <= 100,
            self.regulatory_strength <= 100,
        ensures
            r == jurisdiction_score(*self),
    {
        let mut score: u8 = 0;
        if self.is_tax_haven {
            score = score.saturating_add(20);
        }
        if self.is_offshore {
            score = score.saturating_add(15);
        }
        if self.is_fatf_greylist {
            score = score.saturating_add(30);
        }
        if self.is_fatf_blacklist {
            score = score.saturating_add(50);
        }
        score = score.saturating_add((100 - self.transparency_score) / 4);
        score = score.saturating_add((100 - self.regulatory_strength) / 4);
        if score > 100 {
            100
        } else {
            score
        }
    }
}


/// Rows of the built-in country table: code, level and score.
pub open spec fn default_country_rows() -> Seq<(Seq<char>, CountryRiskLevel, u8)> {
    seq![        ("IR"@, CountryRiskLevel::Prohibited, 100u8),
        ("KP"@, CountryRiskLevel::Prohibited, 100u8),
        ("SY"@, CountryRiskLevel::Prohibited, 95u8),
        ("MM"@, CountryRiskLevel::High, 80u8),
        ("YE"@, CountryRiskLevel::High, 75u8),
        ("PK"@, CountryRiskLevel::Medium, 55u8),
        ("US"@, CountryRiskLevel::Low, 10u8),
        ("GB"@, CountryRiskLevel::Low, 10u8),
        ("DE"@, CountryRiskLevel::Low, 10u8)
    ]
}

/// FATF statuses of the built-in country table, row by row.
pub open spec fn default_fatf_statuses() -> Seq<Option<Seq<char>>> {
    seq![
        Some("Blacklist"@),
        Some("Blacklist"@),
        None,
        Some("Greylist"@),
        None,
        Some("Greylist"@),
        None,
        None,
        None
    ]
}

/// The characters of an optional string.
pub open spec fn opt_text(o: Option<String>) -> Option<Seq<char>> {
    match o {
        Some(s) => Some(s@),
        None => None,
    }
}

/// Names of the built-in jurisdiction table.
pub open spec fn default_jurisdiction_names() -> Seq<Seq<char>> {
    seq!["Cayman Islands"@, "British Virgin Islands"@, "Panama"@]
}

proof fn lemma_default_keys_distinct()
    ensures
        forall|i: int, j: int|
            0 <= i < default_country_rows().len() && 0 <= j < default_country_rows().len() && i
                != j ==> (#[trigger] default_country_rows()[i]).0 != (#[trigger] default_country_rows()[j]).0,
        forall|i: int, j: int|
            0 <= i < default_jurisdiction_names().len() && 0 <= j < default_jurisdiction_names().len()
                && i != j ==> #[trigger] default_jurisdiction_names()[i] != #[trigger] default_jurisdiction_names()[j],
{
    reveal_strlit("IR");
    reveal_strlit("KP");
    reveal_strlit("SY");
    reveal_strlit("MM");
    reveal_strlit("YE");
    reveal_strlit("PK");
    reveal_strlit("US");
    reveal_strlit("GB");
    reveal_strlit("DE");
    reveal_strlit("Cayman Islands");
    reveal_strlit("British Virgin Islands");
    reveal_strlit("Panama");
    let rows = default_country_rows();
    assert forall|i: int, j: int| 0 <= i < rows.len() && 0 <= j < rows.len() && i != j implies (
    #[trigger] rows[i]).0 != (#[trigger] rows[j]).0 by {
        assert(rows[i].0[0] != rows[j].0[0] || rows[i].0[1] != rows[j].0[1]);
    }
    let names = default_jurisdiction_names();
    assert forall|i: int, j: int| 0 <= i < names.len() && 0 <= j < names.len() && i != j implies #[trigger] names[i]
        != #[trigger] names[j] by {
        assert(names[i][0] != names[j][0] || names[i].len() != names[j].len());
    }
}

fn default_countries() -> (r: Vec<CountryRisk>)
    ensures
        r@.len() == default_country_rows().len(),
        forall|i: int|
            0 <= i < r@.len() ==> {
                &&& (#[trigger] r@[i]).country_code@ == default_country_rows()[i].0
                &&& r@[i].risk_level == default_country_rows()[i].1
                &&& r@[i].risk_score == default_country_rows()[i].2
                &&& opt_text(r@[i].fatf_status) == default_fatf_statuses()[i]
            },
{
    proof {
        reveal_strlit("Blacklist");
        reveal_strlit("Greylist");
    }
    proof { reveal_strlit("IR"); }
    proof { reveal_strlit("KP"); }
    proof { reveal_strlit("SY"); }
    proof { reveal_strlit("MM"); }
    proof { reveal_strlit("YE"); }
    proof { reveal_strlit("PK"); }
    proof { reveal_strlit("US"); }
    proof { reveal_strlit("GB"); }
    proof { reveal_strlit("DE"); }
    let r = vec![
        CountryRisk {
            country_code: "IR".to_owned(),
            country_name: "Iran".to_owned(),
            risk_level: CountryRiskLevel::Prohibited,
            risk_score: 100,
            factors: vec!["FATF Blacklist".to_owned(), "US Comprehensive Sanctions".to_owned()],
            fatf_status: Some("Blacklist".to_owned()),
            sanctions_programs: vec!["OFAC Iran Sanctions".to_owned()],
        },
        CountryRisk {
            country_code: "KP".to_owned(),
            country_name: "North Korea".to_owned(),
            risk_level: CountryRiskLevel::Prohibited,
            risk_score: 100,
            factors: vec!["FATF Blacklist".to_owned(), "UN Sanctions".to_owned()],
            fatf_status: Some("Blacklist".to_owned()),
            sanctions_programs: vec!["OFAC North Korea".to_owned(), "UN Sanctions".to_owned()],
        },
        CountryRisk {
            country_code: "SY".to_owned(),
            country_name: "Syria".to_owned(),
            risk_level: CountryRiskLevel::Prohibited,
            risk_score: 95,
            factors: vec!["US Comprehensive Sanctions".to_owned(), "EU Sanctions".to_owned()],
            fatf_status: None,
            sanctions_programs: vec!["OFAC Syria Sanctions".to_owned()],
        },
        CountryRisk {
            country_code: "MM".to_owned(),
            country_name: "Myanmar".to_owned(),
            risk_level: CountryRiskLevel::High,
            risk_score: 80,
            factors: vec!["FATF Greylist".to_owned(), "Targeted Sanctions".to_owned()],
            fatf_status: Some("Greylist".to_owned()),
            sanctions_programs: Vec::new(),
        },
        CountryRisk {
            country_code: "YE".to_owned(),
            country_name: "Yemen".to_owned(),
            risk_level: CountryRiskLevel::High,
            risk_score: 75,
            factors: vec!["Conflict Zone".to_owned(), "Targeted Sanctions".to_owned()],
            fatf_status: None,
            sanctions_programs: Vec::new(),
        },
        CountryRisk {
            country_code: "PK".to_owned(),
            country_name: "Pakistan".to_owned(),
            risk_level: CountryRiskLevel::Medium,
            risk_score: 55,
            factors: vec!["FATF Greylist".to_owned()],
            fatf_status: Some("Greylist".to_owned()),
            sanctions_programs: Vec::new(),
        },
        CountryRisk {
            country_code: "US".to_owned(),
            country_name: "United States".to_owned(),
            risk_level: CountryRiskLevel::Low,
            risk_score: 10,
            factors: Vec::new(),
            fatf_status: None,
            sanctions_programs: Vec::new(),
        },
        CountryRisk {
            country_code: "GB".to_owned(),
            country_name: "United Kingdom".to_owned(),
            risk_level: CountryRiskLevel::Low,
            risk_score: 10,
            factors: Vec::new(),
            fatf_status: None,
            sanctions_programs: Vec::new(),
        },
        CountryRisk {
            country_code: "DE".to_owned(),
            country_name: "Germany".to_owned(),
            risk_level: CountryRiskLevel::Low,
            risk_score: 10,
            factors: Vec::new(),
            fatf_status: None,
            sanctions_programs: Vec::new(),
        },
    ];
    r
}

fn default_jurisdictions() -> (r: Vec<JurisdictionRisk>)
    ensures
        r@.len() == default_jurisdiction_names().len(),
        forall|i: int|
            0 <= i < r@.len() ==> (#[trigger] r@[i]).jurisdiction@ == default_jurisdiction_names()[i]
                && r@[i].transparency_score <= 100 && r@[i].regulatory_strength <= 100,
{
    proof { reveal_strlit("Cayman Islands"); }
    proof { reveal_strlit("British Virgin Islands"); }
    proof { reveal_strlit("Panama"); }
    let r = vec![
        JurisdictionRisk {
            jurisdiction: "Cayman Islands".to_owned(),
            is_tax_haven: true,
            is_offshore: true,
            is_fatf_greylist: false,
            is_fatf_blacklist: false,
            transparency_score: 60,
            regulatory_strength: 70,
            overall_risk: CountryRiskLevel::Medium,
        },
        JurisdictionRisk {
            jurisdiction: "British Virgin Islands".to_owned(),
            is_tax_haven: true,
            is_offshore: true,
            is_fatf_greylist: false,
            is_fatf_blacklist: false,
            transparency_score: 50,
            regulatory_strength: 60,
            overall_risk: CountryRiskLevel::Medium,
        },
        JurisdictionRisk {
            jurisdiction: "Panama".to_owned(),
            is_tax_haven: true,
            is_offshore: true,
            is_fatf_greylist: true,
            is_fatf_blacklist: false,
            transparency_score: 40,
            regulatory_strength: 50,
            overall_risk: CountryRiskLevel::High,
        },
    ];
    r
}

/// Whether no two country entries share a code.
pub open spec fn codes_unique(rs: Seq<CountryRisk>) -> bool {
    forall|i: int, j: int|
        0 <= i < rs.len() && 0 <= j < rs.len() && i != j ==> rs[i].country_code@
            != rs[j].country_code@
}

/// Whether no two jurisdiction entries share a name.
pub open spec fn jurisdictions_unique(rs: Seq<JurisdictionRisk>) -> bool {
    forall|i: int, j: int|
        0 <= i < rs.len() && 0 <= j < rs.len() && i != j ==> rs[i].jurisdiction@
            != rs[j].jurisdiction@
}

/// The entry of `rs` whose code is `key`, if any.
pub open spec fn country_entry(rs: Seq<CountryRisk>, key: Seq<char>) -> Option<CountryRisk> {
    if exists|i: int| 0 <= i < rs.len() && rs[i].country_code@ == key {
        Some(rs[choose|i: int| 0 <= i < rs.len() && rs[i].country_code@ == key])
    } else {
        None
    }
}

/// The entry of `rs` whose name is `key`, if any.
pub open spec fn jurisdiction_entry(rs: Seq<JurisdictionRisk>, key: Seq<char>) -> Option<
    JurisdictionRisk,
> {
    if exists|i: int| 0 <= i < rs.len() && rs[i].jurisdiction@ == key {
        Some(rs[choose|i: int| 0 <= i < rs.len() && rs[i].jurisdiction@ == key])
    } else {
        None
    }
}

/// The table after storing `risk`: it replaces the entry with the same code,
/// or is appended.
pub open spec fn with_country(rs: Seq<CountryRisk>, risk: CountryRisk) -> Seq<CountryRisk> {
    if exists|i: int| 0 <= i < rs.len() && rs[i].country_code@ == risk.country_code@ {
        rs.update(
            choose|i: int| 0 <= i < rs.len() && rs[i].country_code@ == risk.country_code@,
            risk,
        )
    } else {
        rs.push(risk)
    }
}

/// The table after storing `risk`, keyed by jurisdiction name.
pub open spec fn with_jurisdiction(rs: Seq<JurisdictionRisk>, risk: JurisdictionRisk) -> Seq<
    JurisdictionRisk,
> {
    if exists|i: int| 0 <= i < rs.len() && rs[i].jurisdiction@ == risk.jurisdiction@ {
        rs.update(
            choose|i: int| 0 <= i < rs.len() && rs[i].jurisdiction@ == risk.jurisdiction@,
            risk,
        )
    } else {
        rs.push(risk)
    }
}

proof fn lemma_country_entry_at(rs: Seq<CountryRisk>, i: int)
    requires
        codes_unique(rs),
        0 <= i < rs.len(),
    ensures
        country_entry(rs, rs[i].country_code@) == Some(rs[i]),
{
}

proof fn lemma_jurisdiction_entry_at(rs: Seq<JurisdictionRisk>, i: int)
    requires
        jurisdictions_unique(rs),
        0 <= i < rs.len(),
    ensures
        jurisdiction_entry(rs, rs[i].jurisdiction@) == Some(rs[i]),
{
}

/// Score of a looked-up country; an unknown country counts as 50.
pub open spec fn score_or_default(c: Option<CountryRisk>) -> int {
    match c {
        Some(r) => r.risk_score as int,
        None => 50,
    }
}

/// Weighted combination of origin (40%) and destination (60%) scores.
pub open spec fn combined_geo_score(origin: int, dest: int) -> int {
    (origin * 40 + dest * 60) / 100
}

pub open spec fn entry_prohibited(c: Option<CountryRisk>) -> bool {
    c matches Some(r) && r.risk_level == CountryRiskLevel::Prohibited
}

pub open spec fn entry_requires_edd(c: Option<CountryRisk>) -> bool {
    c matches Some(r) && (r.risk_level == CountryRiskLevel::High || r.risk_level
        == CountryRiskLevel::Prohibited)
}

/// Level of a transaction between two countries: prohibited if either is,
/// else by the combined score (70 and up high, 40 and up medium).
pub open spec fn geo_level(prohibited: bool, combined: int) -> CountryRiskLevel {
    if prohibited {
        CountryRiskLevel::Prohibited
    } else if combined >= 70 {
        CountryRiskLevel::High
    } else if combined >= 40 {
        CountryRiskLevel::Medium
    } else {
        CountryRiskLevel::Low
    }
}

fn copy_strings(v: &Vec<String>) -> (r: Vec<String>)
    ensures
        r@ == v@,
{
    let mut r: Vec<String> = Vec::new();
    let mut i: usize = 0;
    while i < v.len()
        invariant
            i <= v@.len(),
            r@ == v@.subrange(0, i as int),
        decreases v@.len() - i,
    {
        r.push(v[i].clone());
        assert(r@ =~= v@.subrange(0, i + 1));
        i = i + 1;
    }
    assert(r@ =~= v@);
    r
}

pub(crate) fn copy_opt_string(o: &Option<String>) -> (r: Option<String>)
    ensures
        r == *o,
{
    match o {
        Some(s) => Some(s.clone()),
        None => None,
    }
}

/// Whether two country entries hold the same values.
pub open spec fn same_country(a: CountryRisk, b: CountryRisk) -> bool {
    &&& a.country_code == b.country_code
    &&& a.country_name == b.country_name
    &&& a.risk_level == b.risk_level
    &&& a.risk_score == b.risk_score
    &&& a.factors@ == b.factors@
    &&& a.fatf_status == b.fatf_status
    &&& a.sanctions_programs@ == b.sanctions_programs@
}

/// Whether two optional country entries hold the same values.
pub open spec fn same_entry(a: Option<CountryRisk>, b: Option<CountryRisk>) -> bool {
    match (a, b) {
        (Some(x), Some(y)) => same_country(x, y),
        (None, None) => true,
        _ => false,
    }
}

/// A field-by-field copy of a country entry.
fn copy_country(c: &CountryRisk) -> (r: CountryRisk)
    ensures
        same_country(r, *c),
{
    CountryRisk {
        country_code: c.country_code.clone(),
        country_name: c.country_name.clone(),
        risk_level: c.risk_level,
        risk_score: c.risk_score,
        factors: copy_strings(&c.factors),
        fatf_status: copy_opt_string(&c.fatf_status),
        sanctions_programs: copy_strings(&c.sanctions_programs),
    }
}

fn copy_opt_country(c: Option<&CountryRisk>) -> (r: Option<CountryRisk>)
    ensures
        r is Some == c is Some,
        r matches Some(x) ==> c matches Some(y) && same_country(x, *y),
{
    match c {
        Some(x) => Some(copy_country(x)),
        None => None,
    }
}

fn opt_score(c: Option<&CountryRisk>) -> (r: u8)
    ensures
        c matches Some(x) ==> r == x.risk_score,
        c is None ==> r == 50,
{
    match c {
        Some(x) => x.risk_score,
        None => 50,
    }
}

fn opt_prohibited(c: Option<&CountryRisk>) -> (r: bool)
    ensures
        r == (c matches Some(x) && x.risk_level == CountryRiskLevel::Prohibited),
{
    match c {
        Some(x) => x.is_prohibited(),
        None => false,
    }
}

fn opt_requires_edd(c: Option<&CountryRisk>) -> (r: bool)
    ensures
        r == (c matches Some(x) && (x.risk_level == CountryRiskLevel::High || x.risk_level
            == CountryRiskLevel::Prohibited)),
{
    match c {
        Some(x) => x.requires_edd(),
        None => false,
    }
}

/// Entries of `rs` at the given level, in table order.
pub open spec fn entries_at_level(rs: Seq<CountryRisk>, level: CountryRiskLevel) -> Seq<CountryRisk> {
    rs.filter(|c: CountryRisk| c.risk_level == level)
}

/// Country and jurisdiction risk tables.
pub struct GeographicRiskScorer {
    country_risks: Vec<CountryRisk>,
    jurisdiction_risks: Vec<JurisdictionRisk>,
}

/// Geographic risk of a transaction between two countries.
#[derive(Debug, Clone)]
pub struct TransactionGeographicRisk {
    pub origin_country: String,
    pub destination_country: String,
    pub origin_risk: Option<CountryRisk>,
    pub destination_risk: Option<CountryRisk>,
    pub combined_score: u8,
    pub risk_level: CountryRiskLevel,
    pub is_prohibited: bool,
    pub requires_edd: bool,
}

impl GeographicRiskScorer {
    /// The country table, in insertion order.
    pub closed spec fn countries(&self) -> Seq<CountryRisk> {
        self.country_risks@
    }

    /// The jurisdiction table, in insertion order.
    pub closed spec fn jurisdictions(&self) -> Seq<JurisdictionRisk> {
        self.jurisdiction_risks@
    }

    /// Keys are unique in both tables.
    pub open spec fn wf(&self) -> bool {
        codes_unique(self.countries()) && jurisdictions_unique(self.jurisdictions())
    }

    /// A scorer loaded with the built-in tables.
    pub fn new() -> (s: Self)
        ensures
            s.wf(),
            s.countries().len() == default_country_rows().len(),
            forall|i: int|
                0 <= i < s.countries().len() ==> {
                    &&& (#[trigger] s.countries()[i]).country_code@ == default_country_rows()[i].0
                    &&& s.countries()[i].risk_level == default_country_rows()[i].1
                    &&& s.countries()[i].risk_score == default_country_rows()[i].2
                    &&& opt_text(s.countries()[i].fatf_status) == default_fatf_statuses()[i]
                },
            s.jurisdictions().len() == default_jurisdiction_names().len(),
            forall|i: int|
                0 <= i < s.jurisdictions().len() ==> (#[trigger] s.jurisdictions()[i]).jurisdiction@
                    == default_jurisdiction_names()[i],
    {
        let mut s = GeographicRiskScorer { country_risks: Vec::new(), jurisdiction_risks: Vec::new() };
        s.load_default_risks();
        proof {
            reveal_strlit("IR");
            reveal_strlit("KP");
            reveal_strlit("SY");
            reveal_strlit("MM");
            reveal_strlit("YE");
            reveal_strlit("PK");
            reveal_strlit("US");
            reveal_strlit("GB");
            reveal_strlit("DE");
            reveal_strlit("Cayman Islands");
            reveal_strlit("British Virgin Islands");
            reveal_strlit("Panama");
            lemma_default_keys_distinct();
        }
        s
    }

    /// Replaces both tables with the built-in ones.
    fn load_default_risks(&mut self)
        ensures
            final(self).countries().len() == default_country_rows().len(),
            forall|i: int|
                0 <= i < final(self).countries().len() ==> {
                    &&& (#[trigger] final(self).countries()[i]).country_code@
                        == default_country_rows()[i].0
                    &&& final(self).countries()[i].risk_level == default_country_rows()[i].1
                    &&& final(self).countries()[i].risk_score == default_country_rows()[i].2
                    &&& opt_text(final(self).countries()[i].fatf_status) == default_fatf_statuses()[i]
                },
            final(self).jurisdictions().len() == default_jurisdiction_names().len(),
            forall|i: int|
                0 <= i < final(self).jurisdictions().len() ==> (#[trigger] final(self).jurisdictions()[i]).jurisdiction@
                    == default_jurisdiction_names()[i],
    {
        self.country_risks = default_countries();
        self.jurisdiction_risks = default_jurisdictions();
    }

    fn find_country(&self, key: &String) -> (r: Option<usize>)
        ensures
            r matches Some(i) ==> i < self.countries().len() && self.countries()[i as int].country_code@
                == key@,
            r is None ==> forall|i: int|
                0 <= i < self.countries().len() ==> self.countries()[i].country_code@ != key@,
    {
        let mut i: usize = 0;
        while i < self.country_risks.len()
            invariant
                i <= self.countries().len(),
                forall|j: int| 0 <= j < i ==> self.countries()[j].country_code@ != key@,
            decreases self.countries().len() - i,
        {
            if self.country_risks[i].country_code == *key {
                return Some(i);
            }
            i = i + 1;
        }
        None
    }

    fn find_jurisdiction(&self, key: &str) -> (r: Option<usize>)
        ensures
            r matches Some(i) ==> i < self.jurisdictions().len() && self.jurisdictions()[i as int].jurisdiction@
                == key@,
            r is None ==> forall|i: int|
                0 <= i < self.jurisdictions().len() ==> self.jurisdictions()[i].jurisdiction@ != key@,
    {
        let owned = key.to_owned();
        let mut i: usize = 0;
        while i < self.jurisdiction_risks.len()
            invariant
                owned@ == key@,
                i <= self.jurisdictions().len(),
                forall|j: int| 0 <= j < i ==> self.jurisdictions()[j].jurisdiction@ != key@,
            decreases self.jurisdictions().len() - i,
        {
            if self.jurisdiction_risks[i].jurisdiction == owned {
                return Some(i);
            }
            i = i + 1;
        }
        None
    }

    /// Stores a country entry, replacing any entry with the same code.
    pub fn add_country_risk(&mut self, risk: CountryRisk)
        requires
            old(self).wf(),
        ensures
            final(self).wf(),
            final(self).countries() == with_country(old(self).countries(), risk),
            final(self).jurisdictions() == old(self).jurisdictions(),
            country_entry(final(self).countries(), risk.country_code@) == Some(risk),
    {
        let ghost code = risk.country_code@;
        match self.find_country(&risk.country_code) {
            Some(i) => {
                self.country_risks[i] = risk;
                proof {
                    lemma_country_entry_at(self.countries(), i as int);
                }
            },
            None => {
                self.country_risks.push(risk);
                proof {
                    lemma_country_entry_at(self.countries(), self.countries().len() - 1);
                }
            },
        }
    }

    /// Stores a jurisdiction entry, replacing any entry with the same name.
    pub fn add_jurisdiction_risk(&mut self, risk: JurisdictionRisk)
        requires
            old(self).wf(),
        ensures
            final(self).wf(),
            final(self).jurisdictions() == with_jurisdiction(old(self).jurisdictions(), risk),
            final(self).countries() == old(self).countries(),
            jurisdiction_entry(final(self).jurisdictions(), risk.jurisdiction@) == Some(risk),
    {
        match self.find_jurisdiction(risk.jurisdiction.as_str()) {
            Some(i) => {
                self.jurisdiction_risks[i] = risk;
                proof {
                    lemma_jurisdiction_entry_at(self.jurisdictions(), i as int);
                }
            },
            None => {
                self.jurisdiction_risks.push(risk);
                proof {
                    lemma_jurisdiction_entry_at(self.jurisdictions(), self.jurisdictions().len() - 1);
                }
            },
        }
    }

    /// Looks up a country by ISO code, case-insensitively (the code is
    /// upper-cased first).
    pub fn get_country_risk(&self, country_code: &str) -> (r: Option<&CountryRisk>)
        requires
            self.wf(),
        ensures
            r is Some == country_entry(self.countries(), upper_of(country_code@)) is Some,
            r matches Some(c) ==> country_entry(self.countries(), upper_of(country_code@))
                == Some(*c),
    {
        let key = to_upper(country_code);
        match self.find_country(&key) {
            Some(i) => {
                proof {
                    lemma_country_entry_at(self.countries(), i as int);
                }
                Some(&self.country_risks[i])
            },
            None => None,
        }
    }

    /// Looks up a jurisdiction by exact name.
    pub fn get_jurisdiction_risk(&self, jurisdiction: &str) -> (r: Option<&JurisdictionRisk>)
        requires
            self.wf(),
        ensures
            r is Some == jurisdiction_entry(self.jurisdictions(), jurisdiction@) is Some,
            r matches Some(j) ==> jurisdiction_entry(self.jurisdictions(), jurisdiction@) == Some(
                *j,
            ),
    {
        match self.find_jurisdiction(jurisdiction) {
            Some(i) => {
                proof {
                    lemma_jurisdiction_entry_at(self.jurisdictions(), i as int);
                }
                Some(&self.jurisdiction_risks[i])
            },
            None => None,
        }
    }

    /// Geographic risk of a transaction from `origin` to `destination`.
    pub fn calculate_transaction_risk(&self, origin: &str, destination: &str) -> (r:
        TransactionGeographicRisk)
        requires
            self.wf(),
        ensures
            r.origin_country@ == origin@,
            r.destination_country@ == destination@,
            same_entry(r.origin_risk, country_entry(self.countries(), upper_of(origin@))),
            same_entry(r.destination_risk, country_entry(self.countries(), upper_of(destination@))),
            r.combined_score == combined_geo_score(
                score_or_default(country_entry(self.countries(), upper_of(origin@))),
                score_or_default(country_entry(self.countries(), upper_of(destination@))),
            ),
            r.is_prohibited == (entry_prohibited(
                country_entry(self.countries(), upper_of(origin@)),
            ) || entry_prohibited(country_entry(self.countries(), upper_of(destination@)))),
            r.requires_edd == (entry_requires_edd(
                country_entry(self.countries(), upper_of(origin@)),
            ) || entry_requires_edd(country_entry(self.countries(), upper_of(destination@)))),
            r.risk_level == geo_level(r.is_prohibited, r.combined_score as int),
    {
        let origin_risk = self.get_country_risk(origin);
        let dest_risk = self.get_country_risk(destination);
        let origin_score = opt_score(origin_risk);
        let dest_score = opt_score(dest_risk);
        let combined_score = ((origin_score as u16 * 40 + dest_score as u16 * 60) / 100) as u8;
        let is_prohibited = opt_prohibited(origin_risk) || opt_prohibited(dest_risk);
        let requires_edd = opt_requires_edd(origin_risk) || opt_requires_edd(dest_risk);
        let risk_level = if is_prohibited {
            CountryRiskLevel::Prohibited
        } else if combined_score >= 70 {
            CountryRiskLevel::High
        } else if combined_score >= 40 {
            CountryRiskLevel::Medium
        } else {
            CountryRiskLevel::Low
        };
        TransactionGeographicRisk {
            origin_country: origin.to_owned(),
            destination_country: destination.to_owned(),
            origin_risk: copy_opt_country(origin_risk),
            destination_risk: copy_opt_country(dest_risk),
            combined_score,
            risk_level,
            is_prohibited,
            requires_edd,
        }
    }

    fn countries_at_level(&self, level: CountryRiskLevel) -> (r: Vec<&CountryRisk>)
        ensures
            r@.len() == entries_at_level(self.countries(), level).len(),
            forall|i: int|
                0 <= i < r@.len() ==> *(#[trigger] r@[i]) == entries_at_level(
                    self.countries(),
                    level,
                )[i],
    {
        let ghost rs = self.countries();
        let mut r: Vec<&CountryRisk> = Vec::new();
        let mut i: usize = 0;
        while i < self.country_risks.len()
            invariant
                rs == self.countries(),
                i <= rs.len(),
                r@.len() == entries_at_level(rs.subrange(0, i as int), level).len(),
                forall|k: int|
                    0 <= k < r@.len() ==> *(#[trigger] r@[k]) == entries_at_level(
                        rs.subrange(0, i as int),
                        level,
                    )[k],
            decreases rs.len() - i,
        {
            let ghost before = rs.subrange(0, i as int);
            proof {
                reveal(Seq::filter);
            }
            assert(rs.subrange(0, i + 1).drop_last() =~= before);
            assert(rs.subrange(0, i + 1).last() == rs[i as int]);
            if self.country_risks[i].risk_level == level {
                r.push(&self.country_risks[i]);
                assert(entries_at_level(rs.subrange(0, i + 1), level) == entries_at_level(
                    before,
                    level,
                ).push(rs[i as int]));
            } else {
                assert(entries_at_level(rs.subrange(0, i + 1), level) == entries_at_level(
                    before,
                    level,
                ));
            }
            i = i + 1;
        }
        assert(rs.subrange(0, rs.len() as int) =~= rs);
        r
    }

    /// All prohibited countries, in table order.
    pub fn get_prohibited_countries(&self) -> (r: Vec<&CountryRisk>)
        ensures
            r@.len() == entries_at_level(self.countries(), CountryRiskLevel::Prohibited).len(),
            forall|i: int|
                0 <= i < r@.len() ==> *(#[trigger] r@[i]) == entries_at_level(
                    self.countries(),
                    CountryRiskLevel::Prohibited,
                )[i],
    {
        self.countries_at_level(CountryRiskLevel::Prohibited)
    }

    /// All high-risk countries, in table order.
    pub fn get_high_risk_countries(&self) -> (r: Vec<&CountryRisk>)
        ensures
            r@.len() == entries_at_level(self.countries(), CountryRiskLevel::High).len(),
            forall|i: int|
                0 <= i < r@.len() ==> *(#[trigger] r@[i]) == entries_at_level(
                    self.countries(),
                    CountryRiskLevel::High,
                )[i],
    {
        self.countries_at_level(CountryRiskLevel::High)
    }

    /// The FATF list status of a country, if it is known and listed.
    pub fn is_fatf_listed(&self, country_code: &str) -> (r: Option<String>)
        requires
            self.wf(),
        ensures
            r == (match country_entry(self.countries(), upper_of(country_code@)) {
                Some(c) => c.fatf_status,
                None => None,
            }),
    {
        match self.get_country_risk(country_code) {
            Some(c) => copy_opt_string(&c.fatf_status),
            None => None,
        }
    }
}

impl Default for GeographicRiskScorer {
    /// The same as `new`.
    fn default() -> (s: Self)
        ensures
            s.wf(),
            s.countries().len() == default_country_rows().len(),
            s.jurisdictions().len() == default_jurisdiction_names().len(),
    {
        GeographicRiskScorer::new()
    }
}

} // verus!

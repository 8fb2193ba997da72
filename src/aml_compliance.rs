//! AML checks on a single transaction and KYC completeness of a customer
//! record. Amounts are in cents.

use crate::fraud_patterns::{lookup_first, metadata_value};
use crate::validator::{Transaction, TransactionType};
use vstd::prelude::*;

verus! {

/// Thresholds of the AML checks, in cents.
#[derive(Debug, Clone, Copy)]
pub struct AMLThresholds {
    /// Currency Transaction Report threshold.
    pub ctr_threshold: i64,
    /// Suspicious Activity Report guideline.
    pub sar_threshold: i64,
    /// Lower end of the band just under the CTR threshold.
    pub structuring_threshold: i64,
}

impl Default for AMLThresholds {
    /// 10,000.00 for a CTR, 5,000.00 for a SAR, structuring from 9,500.00.
    fn default() -> (r: Self)
        ensures
            r.ctr_threshold == 1_000_000,
            r.sar_threshold == 500_000,
            r.structuring_threshold == 950_000,
    {
        AMLThresholds { ctr_threshold: 1_000_000, sar_threshold: 500_000, structuring_threshold: 950_000 }
    }
}

/// Kind of an AML red flag.
#[derive(Debug, Clone, Copy, PartialEq, Eq, Structural)]
pub enum RedFlagType {
    PotentialStructuring,
    HighValueTransaction,
    SanctionedEntity,
    RapidMovement,
    UnusualPattern,
    CashIntensive,
    CrossBorder,
}

/// Severity of an alert.
#[derive(Debug, Clone, Copy, PartialEq, Eq, Structural)]
pub enum AlertSeverity {
    Low,
    Medium,
    High,
    Critical,
}

/// One red flag.
#[derive(Debug, Clone)]
pub struct AMLRedFlag {
    pub flag_type: RedFlagType,
    pub description: String,
    pub severity: AlertSeverity,
}

/// Outcome of the AML checks of one transaction.
#[derive(Debug, Clone)]
pub struct AMLResult {
    pub compliant: bool,
    pub requires_ctr: bool,
    pub requires_sar: bool,
    pub red_flags: Vec<AMLRedFlag>,
    pub risk_score: u8,
}

/// `needle` occurs in `hay` as a run of consecutive characters.
pub open spec fn occurs_in(needle: Seq<char>, hay: Seq<char>) -> bool {
    exists|i: int| 0 <= i && i + needle.len() <= hay.len() && #[trigger] hay.subrange(i, i + needle.len()) == needle
}

/// Whether `needle` occurs in `hay`.
pub fn contains_text(hay: &str, needle: &str) -> (r: bool)
    ensures
        r == occurs_in(needle@, hay@),
{
    let n = hay.unicode_len();
    let m = needle.unicode_len();
    if m > n {
        assert forall|i: int| 0 <= i && i + needle@.len() <= hay@.len() implies #[trigger] hay@.subrange(
            i,
            i + needle@.len(),
        ) != needle@ by {}
        return false;
    }
    let mut i: usize = 0;
    while i <= n - m
        invariant
            n == hay@.len(),
            m == needle@.len(),
            m <= n,
            i <= n - m + 1,
            forall|k: int| 0 <= k < i ==> #[trigger] hay@.subrange(k, k + m) != needle@,
        decreases n - m + 1 - i,
    {
        let mut j: usize = 0;
        let mut same = true;
        while j < m
            invariant
                n == hay@.len(),
                m == needle@.len(),
                i + m <= n,
                j <= m,
                same == (forall|q: int| 0 <= q < j ==> hay@[i + q] == needle@[q]),
            decreases m - j,
        {
            if hay.get_char(i + j) != needle.get_char(j) {
                same = false;
            }
            j = j + 1;
        }
        if same {
            assert(hay@.subrange(i as int, i + m) =~= needle@);
            return true;
        }
        assert(hay@.subrange(i as int, i + m) != needle@) by {
            let q = choose|q: int| 0 <= q < m && hay@[i + q] != needle@[q];
            assert(hay@.subrange(i as int, i + m)[q] == hay@[i + q]);
        }
        i = i + 1;
    }
    assert forall|k: int| 0 <= k && k + needle@.len() <= hay@.len() implies #[trigger] hay@.subrange(
        k,
        k + needle@.len(),
    ) != needle@ by {
        assert(k < i);
    }
    false
}

/// Some listed entity occurs in `account`.
pub open spec fn names_listed(list: Seq<Seq<char>>, account: Seq<char>) -> bool {
    exists|i: int| 0 <= i < list.len() && occurs_in(#[trigger] list[i], account)
}

pub open spec fn opt_listed(list: Seq<Seq<char>>, o: Option<String>) -> bool {
    match o {
        Some(a) => names_listed(list, a@),
        None => false,
    }
}

pub open spec fn cross_border(t: Transaction) -> bool {
    match t.metadata {
        Some(md) => lookup_first(md@, "cross_border"@) == Some("true"@),
        None => false,
    }
}

pub open spec fn push_red(
    s: Seq<RedFlagType>,
    cond: bool,
    f: RedFlagType,
) -> Seq<RedFlagType> {
    if cond {
        s.push(f)
    } else {
        s
    }
}

/// The AML checks of a transaction against thresholds `th` and the listed
/// entities `list`.
pub open spec fn structuring_band(th: AMLThresholds, t: Transaction) -> bool {
    t.amount >= th.structuring_threshold && t.amount < th.ctr_threshold
}

pub open spec fn sanctioned(list: Seq<Seq<char>>, t: Transaction) -> bool {
    opt_listed(list, t.from_account) || opt_listed(list, t.to_account)
}

pub open spec fn cash_intensive(t: Transaction) -> bool {
    (t.transaction_type == TransactionType::Deposit || t.transaction_type
        == TransactionType::Withdrawal) && t.amount >= 500_000
}

/// The red flags, in order.
pub open spec fn expected_red_flags(th: AMLThresholds, list: Seq<Seq<char>>, t: Transaction) -> Seq<RedFlagType> {
    let f0 = push_red(Seq::empty(), structuring_band(th, t), RedFlagType::PotentialStructuring);
    let f1 = push_red(f0, t.amount >= th.ctr_threshold, RedFlagType::HighValueTransaction);
    let f2 = push_red(f1, sanctioned(list, t), RedFlagType::SanctionedEntity);
    let f3 = push_red(f2, cross_border(t), RedFlagType::CrossBorder);
    push_red(f3, cash_intensive(t), RedFlagType::CashIntensive)
}

/// The raw score: structuring 35, high value 15, then a listed entity sets
/// it to 100, then cross-border 20 and cash 25 more.
pub open spec fn aml_raw_score(th: AMLThresholds, list: Seq<Seq<char>>, t: Transaction) -> int {
    let s0 = (if structuring_band(th, t) { 35int } else { 0 }) + (if t.amount >= th.ctr_threshold {
        15int
    } else {
        0
    });
    let s1 = if sanctioned(list, t) {
        100int
    } else {
        s0
    };
    s1 + (if cross_border(t) { 20int } else { 0 }) + (if cash_intensive(t) { 25int } else { 0 })
}

/// AML checker with a list of sanctioned entity names.
pub struct AMLChecker {
    thresholds: AMLThresholds,
    sanctioned_entities: Vec<String>,
}

impl AMLChecker {
    pub closed spec fn thresholds(&self) -> AMLThresholds {
        self.thresholds
    }

    /// The listed entity names, in order.
    pub closed spec fn entities(&self) -> Seq<Seq<char>> {
        self.sanctioned_entities@.map_values(|s: String| s@)
    }

    /// A checker with the default thresholds and two listed entities.
    pub fn new() -> (c: Self)
        ensures
            c.thresholds().ctr_threshold == 1_000_000,
            c.thresholds().sar_threshold == 500_000,
            c.thresholds().structuring_threshold == 950_000,
            c.entities() == seq!["OFAC-SANCTIONED-001"@, "SANCTIONED-ENTITY-002"@],
    {
        let c = AMLChecker {
            thresholds: AMLThresholds::default(),
            sanctioned_entities: vec!["OFAC-SANCTIONED-001".to_owned(), "SANCTIONED-ENTITY-002".to_owned()],
        };
        assert(c.entities() =~= seq!["OFAC-SANCTIONED-001"@, "SANCTIONED-ENTITY-002"@]);
        c
    }

    fn is_potential_structuring(&self, transaction: &Transaction) -> (r: bool)
        ensures
            r == structuring_band(self.thresholds(), *transaction),
    {
        transaction.amount >= self.thresholds.structuring_threshold && transaction.amount
            < self.thresholds.ctr_threshold
    }

    fn is_sanctioned_entity(&self, entity: &str) -> (r: bool)
        ensures
            r == names_listed(self.entities(), entity@),
    {
        let mut i: usize = 0;
        while i < self.sanctioned_entities.len()
            invariant
                i <= self.entities().len(),
                forall|k: int| 0 <= k < i ==> !occurs_in(#[trigger] self.entities()[k], entity@),
            decreases self.entities().len() - i,
        {
            assert(self.entities()[i as int] == self.sanctioned_entities@[i as int]@);
            if contains_text(entity, self.sanctioned_entities[i].as_str()) {
                return true;
            }
            i = i + 1;
        }
        false
    }

    fn opt_sanctioned(&self, account: &Option<String>) -> (r: bool)
        ensures
            r == opt_listed(self.entities(), *account),
    {
        match account {
            Some(a) => self.is_sanctioned_entity(a.as_str()),
            None => false,
        }
    }

    /// Runs the AML checks on a transaction.
    pub fn check_compliance(&self, transaction: &Transaction) -> (r: AMLResult)
        ensures
            r.requires_ctr == (transaction.amount >= self.thresholds().ctr_threshold),
            r.requires_sar == (structuring_band(self.thresholds(), *transaction) || sanctioned(
                self.entities(),
                *transaction,
            )),
            r.red_flags@.map_values(|f: AMLRedFlag| f.flag_type) == expected_red_flags(
                self.thresholds(),
                self.entities(),
                *transaction,
            ),
            r.compliant == (aml_raw_score(self.thresholds(), self.entities(), *transaction) < 75),
            r.risk_score == if aml_raw_score(self.thresholds(), self.entities(), *transaction) > 100 {
                100
            } else {
                aml_raw_score(self.thresholds(), self.entities(), *transaction)
            },
    {
        let ghost th = self.thresholds();
        let ghost list = self.entities();
        let ghost t = *transaction;
        let amount = transaction.amount;
        let mut flags: Vec<AMLRedFlag> = Vec::new();
        let mut score: u8 = 0;
        let requires_ctr = amount >= self.thresholds.ctr_threshold;
        let mut requires_sar = false;
        let ghost f0 = push_red(Seq::empty(), structuring_band(th, t), RedFlagType::PotentialStructuring);
        let ghost f1 = push_red(f0, t.amount >= th.ctr_threshold, RedFlagType::HighValueTransaction);
        let ghost f2 = push_red(f1, sanctioned(list, t), RedFlagType::SanctionedEntity);
        let ghost f3 = push_red(f2, cross_border(t), RedFlagType::CrossBorder);

        if self.is_potential_structuring(transaction) {
            flags.push(
                AMLRedFlag {
                    flag_type: RedFlagType::PotentialStructuring,
                    description: "Amount just below CTR threshold (potential structuring)".to_owned(),
                    severity: AlertSeverity::High,
                },
            );
            score = score + 35;
            requires_sar = true;
        }
        assert(flags@.map_values(|f: AMLRedFlag| f.flag_type) =~= f0);
        if amount >= self.thresholds.ctr_threshold {
            flags.push(
                AMLRedFlag {
                    flag_type: RedFlagType::HighValueTransaction,
                    description: "High value transaction (CTR required)".to_owned(),
                    severity: AlertSeverity::Medium,
                },
            );
            score = score + 15;
        }
        assert(flags@.map_values(|f: AMLRedFlag| f.flag_type) =~= f1);
        let from_sanctioned = self.opt_sanctioned(&transaction.from_account);
        let to_sanctioned = self.opt_sanctioned(&transaction.to_account);
        if from_sanctioned || to_sanctioned {
            flags.push(
                AMLRedFlag {
                    flag_type: RedFlagType::SanctionedEntity,
                    description: "Transaction involves sanctioned entity".to_owned(),
                    severity: AlertSeverity::Critical,
                },
            );
            score = 100;
            requires_sar = true;
        }
        assert(flags@.map_values(|f: AMLRedFlag| f.flag_type) =~= f2);
        proof {
            reveal_strlit("cross_border");
            reveal_strlit("true");
        }
        let yes = "true".to_owned();
        let is_cross_border = match &transaction.metadata {
            Some(md) => match metadata_value(md, "cross_border") {
                Some(v) => *v == yes,
                None => false,
            },
            None => false,
        };
        if is_cross_border {
            flags.push(
                AMLRedFlag {
                    flag_type: RedFlagType::CrossBorder,
                    description: "Cross-border transaction requires additional due diligence".to_owned(),
                    severity: AlertSeverity::Medium,
                },
            );
            score = score + 20;
        }
        assert(flags@.map_values(|f: AMLRedFlag| f.flag_type) =~= f3);
        let kind = transaction.transaction_type;
        if (kind == TransactionType::Deposit || kind == TransactionType::Withdrawal) && amount >= 500_000 {
            flags.push(
                AMLRedFlag {
                    flag_type: RedFlagType::CashIntensive,
                    description: "Large cash transaction".to_owned(),
                    severity: AlertSeverity::High,
                },
            );
            score = score + 25;
        }
        assert(flags@.map_values(|f: AMLRedFlag| f.flag_type) =~= expected_red_flags(th, list, t));
        AMLResult {
            compliant: score < 75,
            requires_ctr,
            requires_sar,
            red_flags: flags,
            risk_score: if score > 100 {
                100
            } else {
                score
            },
        }
    }

    /// Lists an entity name, unless it is listed already.
    pub fn add_sanctioned_entity(&mut self, entity: String)
        ensures
            final(self).thresholds() == old(self).thresholds(),
            final(self).entities() == if old(self).entities().contains(entity@) {
                old(self).entities()
            } else {
                old(self).entities().push(entity@)
            },
    {
        let ghost es = self.entities();
        let mut i: usize = 0;
        while i < self.sanctioned_entities.len()
            invariant
                es == self.entities(),
                i <= es.len(),
                forall|k: int| 0 <= k < i ==> es[k] != entity@,
            decreases es.len() - i,
        {
            assert(es[i as int] == self.sanctioned_entities@[i as int]@);
            if self.sanctioned_entities[i] == entity {
                assert(es.contains(entity@));
                return;
            }
            i = i + 1;
        }
        let ghost v = entity@;
        self.sanctioned_entities.push(entity);
        assert(self.entities() =~= es.push(v));
    }

    /// Whether some listed name occurs in `entity`.
    pub fn check_sanctions_list(&self, entity: &str) -> (r: bool)
        ensures
            r == names_listed(self.entities(), entity@),
    {
        self.is_sanctioned_entity(entity)
    }
}

impl Default for AMLChecker {
    /// The same as `new`.
    fn default() -> (c: Self)
        ensures
            c.thresholds().ctr_threshold == 1_000_000,
            c.entities() == seq!["OFAC-SANCTIONED-001"@, "SANCTIONED-ENTITY-002"@],
    {
        AMLChecker::new()
    }
}

/// What a KYC check reads of a customer record: the names of the fields
/// present, the country when it is a string, and the politically exposed
/// person flag when it is a boolean.
#[derive(Debug, Clone)]
pub struct CustomerRecord {
    pub fields: Vec<String>,
    pub country: Option<String>,
    pub politically_exposed_person: Option<bool>,
}

/// Outcome of a KYC completeness check.
#[derive(Debug, Clone)]
pub struct KYCValidationResult {
    pub valid: bool,
    pub missing_fields: Vec<String>,
    pub warnings: Vec<String>,
    pub requires_enhanced_dd: bool,
}

/// The fields a KYC record must hold, in order.
pub open spec fn required_fields() -> Seq<Seq<char>> {
    seq!["full_name"@, "date_of_birth"@, "address"@, "id_number"@, "id_type"@]
}

/// Countries that require enhanced due diligence.
pub open spec fn high_risk_jurisdictions() -> Seq<Seq<char>> {
    seq!["KP"@, "IR"@, "SY"@, "CU"@, "SD"@]
}

pub open spec fn field_views(fields: Seq<String>) -> Seq<Seq<char>> {
    fields.map_values(|f: String| f@)
}

pub open spec fn high_risk_country(r: CustomerRecord) -> bool {
    match r.country {
        Some(c) => high_risk_jurisdictions().contains(c@),
        None => false,
    }
}

pub open spec fn politically_exposed(r: CustomerRecord) -> bool {
    r.politically_exposed_person == Some(true)
}

fn holds_text(v: &Vec<String>, x: &String) -> (r: bool)
    ensures
        r == field_views(v@).contains(x@),
{
    let mut i: usize = 0;
    while i < v.len()
        invariant
            i <= v@.len(),
            forall|k: int| 0 <= k < i ==> v@[k]@ != x@,
        decreases v@.len() - i,
    {
        if v[i] == *x {
            assert(field_views(v@)[i as int] == x@);
            return true;
        }
        i = i + 1;
    }
    assert forall|k: int| 0 <= k < field_views(v@).len() implies field_views(v@)[k] != x@ by {
        assert(field_views(v@)[k] == v@[k]@);
    }
    false
}

fn literal_list(a: &str, b: &str, c: &str, d: &str, e: &str) -> (r: Vec<String>)
    ensures
        field_views(r@) == seq![a@, b@, c@, d@, e@],
{
    let r = vec![a.to_owned(), b.to_owned(), c.to_owned(), d.to_owned(), e.to_owned()];
    assert(field_views(r@) =~= seq![a@, b@, c@, d@, e@]);
    r
}

/// KYC completeness checks.
pub struct KYCValidator;

impl KYCValidator {
    /// Whether a country code requires enhanced due diligence.
    pub fn is_high_risk_jurisdiction(country: &str) -> (r: bool)
        ensures
            r == high_risk_jurisdictions().contains(country@),
    {
        proof {
            reveal_strlit("KP");
            reveal_strlit("IR");
            reveal_strlit("SY");
            reveal_strlit("CU");
            reveal_strlit("SD");
        }
        let list = literal_list("KP", "IR", "SY", "CU", "SD");
        holds_text(&list, &country.to_owned())
    }

    /// Checks that the required fields are present, and whether the country
    /// or the politically exposed person flag calls for enhanced due
    /// diligence.
    pub fn validate_customer_record(record: &CustomerRecord) -> (r: KYCValidationResult)
        ensures
            field_views(r.missing_fields@) == required_fields().filter(
                |f: Seq<char>| !field_views(record.fields@).contains(f),
            ),
            r.warnings@.len() == (if high_risk_country(*record) { 1int } else { 0 }) + (if politically_exposed(
                *record,
            ) {
                1int
            } else {
                0
            }),
            r.requires_enhanced_dd == (r.warnings@.len() > 0),
            r.valid == (r.missing_fields@.len() == 0),
    {
        let required = literal_list("full_name", "date_of_birth", "address", "id_number", "id_type");
        let ghost present = field_views(record.fields@);
        let ghost req = field_views(required@);
        let mut missing: Vec<String> = Vec::new();
        let mut i: usize = 0;
        while i < required.len()
            invariant
                i <= required@.len(),
                req == field_views(required@),
                present == field_views(record.fields@),
                field_views(missing@) == req.subrange(0, i as int).filter(|f: Seq<char>| !field_views(record.fields@).contains(f)),
            decreases required@.len() - i,
        {
            proof {
                reveal(Seq::filter);
            }
            assert(req.subrange(0, i + 1).drop_last() =~= req.subrange(0, i as int));
            assert(req[i as int] == required@[i as int]@);
            let found = holds_text(&record.fields, &required[i]);
            if !found {
                let ghost before = field_views(missing@);
                missing.push(required[i].clone());
                assert(field_views(missing@) =~= before.push(req[i as int]));
                assert(req.subrange(0, i + 1).filter(|f: Seq<char>| !field_views(record.fields@).contains(f)) == req.subrange(0, i as int).filter(|f: Seq<char>| !field_views(record.fields@).contains(f)).push(
                    req[i as int],
                ));
            } else {
                assert(req.subrange(0, i + 1).filter(|f: Seq<char>| !field_views(record.fields@).contains(f)) == req.subrange(0, i as int).filter(|f: Seq<char>| !field_views(record.fields@).contains(f)));
            }
            i = i + 1;
        }
        assert(req.subrange(0, req.len() as int) =~= req);
        assert(req == required_fields());
        let mut warnings: Vec<String> = Vec::new();
        if let Some(country) = &record.country {
            if Self::is_high_risk_jurisdiction(country.as_str()) {
                warnings.push(
                    "Customer from high-risk jurisdiction - Enhanced Due Diligence required".to_owned(),
                );
            }
        }
        if let Some(pep) = record.politically_exposed_person {
            if pep {
                warnings.push("Politically Exposed Person - Enhanced Due Diligence required".to_owned());
            }
        }
        let requires_enhanced_dd = warnings.len() > 0;
        KYCValidationResult {
            valid: missing.len() == 0,
            missing_fields: missing,
            warnings,
            requires_enhanced_dd,
        }
    }
}

} // verus!

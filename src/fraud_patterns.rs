//! The fraud scorer: six additive signals over a per-account history that
//! grows with every scored transaction.

use crate::bindings::now_millis;
use crate::validator::{message_with, message_with2, Transaction, MS_PER_DAY, MS_PER_HOUR};
use vstd::prelude::*;

verus! {

/// Thresholds of the scorer. Amounts are in cents.
#[derive(Debug, Clone, Copy)]
pub struct FraudThresholds {
    /// Amount ceiling; above it a transaction is unusual.
    pub max_amount: i64,
    /// Entries of the last hour that make a velocity flag.
    pub max_transactions_per_hour: usize,
    /// Daily total the caller may compare `get_daily_total` against.
    pub max_daily_total: i64,
    /// Smallest amount that counts as a suspicious round amount.
    pub round_amount_threshold: i64,
}

impl Default for FraudThresholds {
    /// 50,000.00 ceiling, 10 per hour, 100,000.00 a day, round from 10,000.00.
    fn default() -> (r: Self)
        ensures
            r.max_amount == 5_000_000,
            r.max_transactions_per_hour == 10,
            r.max_daily_total == 10_000_000,
            r.round_amount_threshold == 1_000_000,
    {
        FraudThresholds {
            max_amount: 5_000_000,
            max_transactions_per_hour: 10,
            max_daily_total: 10_000_000,
            round_amount_threshold: 1_000_000,
        }
    }
}

/// Risk tier of a fraud score.
#[derive(Debug, Clone, Copy, PartialEq, Eq, Structural)]
pub enum RiskLevel {
    Low,
    Medium,
    High,
    Critical,
}

/// Kind of a fraud signal.
#[derive(Debug, Clone, Copy, PartialEq, Eq, Structural)]
pub enum FraudFlagType {
    VelocityExceeded,
    UnusualAmount,
    RoundAmount,
    HighRiskCountry,
    DuplicateTransaction,
    RapidSuccession,
    AmountProgression,
    TimeAnomaly,
    GeographicAnomaly,
}

/// One signal that fired, with its weight.
#[derive(Debug, Clone)]
pub struct FraudFlag {
    pub flag_type: FraudFlagType,
    pub description: String,
    pub severity: u8,
}

/// The score of one transaction: 0 to 100, its tier, and the signals.
#[derive(Debug, Clone)]
pub struct FraudScore {
    pub score: u8,
    pub risk_level: RiskLevel,
    pub flags: Vec<FraudFlag>,
}

/// What the scorer keeps of a transaction.
#[derive(Debug, Clone, Copy)]
pub struct AccountActivity {
    pub timestamp: i64,
    pub amount: i64,
}

struct AccountHistory {
    account: String,
    entries: Vec<AccountActivity>,
}

/// Entries strictly after `ts` less one hour.
pub open spec fn count_last_hour(h: Seq<AccountActivity>, ts: int) -> nat
    decreases h.len(),
{
    if h.len() == 0 {
        0
    } else {
        count_last_hour(h.drop_last(), ts) + if h.last().timestamp > ts - MS_PER_HOUR {
            1nat
        } else {
            0
        }
    }
}

/// Sum of the amounts of the entries strictly after `cutoff`.
pub open spec fn sum_after(h: Seq<AccountActivity>, cutoff: int) -> int
    decreases h.len(),
{
    if h.len() == 0 {
        0
    } else {
        sum_after(h.drop_last(), cutoff) + if h.last().timestamp > cutoff {
            h.last().amount as int
        } else {
            0
        }
    }
}

/// Sum of all amounts.
pub open spec fn sum_amounts(h: Seq<AccountActivity>) -> int
    decreases h.len(),
{
    if h.len() == 0 {
        0
    } else {
        sum_amounts(h.drop_last()) + h.last().amount
    }
}

/// The value under the first pair with `key`, if any.
pub open spec fn lookup_first(md: Seq<(String, String)>, key: Seq<char>) -> Option<Seq<char>>
    decreases md.len(),
{
    if md.len() == 0 {
        None
    } else if md[0].0@ == key {
        Some(md[0].1@)
    } else {
        lookup_first(md.subrange(1, md.len() as int), key)
    }
}

/// Tier of a score: up to 25 low, 50 medium, 75 high, else critical.
pub open spec fn level_of(score: int) -> RiskLevel {
    if score <= 25 {
        RiskLevel::Low
    } else if score <= 50 {
        RiskLevel::Medium
    } else if score <= 75 {
        RiskLevel::High
    } else {
        RiskLevel::Critical
    }
}

/// The per-account histories after recording `a` for `account`: appended to
/// the account's entries, or a new account with that one entry.
pub open spec fn recorded(
    hs: Seq<(Seq<char>, Seq<AccountActivity>)>,
    account: Seq<char>,
    a: AccountActivity,
) -> Seq<(Seq<char>, Seq<AccountActivity>)> {
    if exists|i: int| 0 <= i < hs.len() && hs[i].0 == account {
        let i = choose|i: int| 0 <= i < hs.len() && hs[i].0 == account;
        hs.update(i, (account, hs[i].1.push(a)))
    } else {
        hs.push((account, seq![a]))
    }
}

/// The entries of `account`, or none.
pub open spec fn entries_of(hs: Seq<(Seq<char>, Seq<AccountActivity>)>, account: Seq<char>) -> Seq<
    AccountActivity,
> {
    if exists|i: int| 0 <= i < hs.len() && hs[i].0 == account {
        hs[choose|i: int| 0 <= i < hs.len() && hs[i].0 == account].1
    } else {
        Seq::empty()
    }
}

/// Accounts are unique and none has an empty history.
pub open spec fn histories_wf(hs: Seq<(Seq<char>, Seq<AccountActivity>)>) -> bool {
    &&& forall|i: int, j: int| 0 <= i < hs.len() && 0 <= j < hs.len() && i != j ==> hs[i].0 != hs[j].0
    &&& forall|i: int| 0 <= i < hs.len() ==> (#[trigger] hs[i]).1.len() > 0
}

proof fn lemma_entries_at(hs: Seq<(Seq<char>, Seq<AccountActivity>)>, i: int)
    requires
        histories_wf(hs),
        0 <= i < hs.len(),
    ensures
        entries_of(hs, hs[i].0) == hs[i].1,
{
}

/// Histories kept by a cleanup: entries after `cutoff`, accounts left
/// empty dropped, order kept.
pub open spec fn pruned(hs: Seq<(Seq<char>, Seq<AccountActivity>)>, cutoff: int) -> Seq<
    (Seq<char>, Seq<AccountActivity>),
>
    decreases hs.len(),
{
    if hs.len() == 0 {
        hs
    } else {
        let rest = pruned(hs.drop_last(), cutoff);
        let kept = hs.last().1.filter(|a: AccountActivity| a.timestamp > cutoff);
        if kept.len() > 0 {
            rest.push((hs.last().0, kept))
        } else {
            rest
        }
    }
}

/// The histories a cleanup at `now` keeps.
pub open spec fn pruned_at(hs: Seq<(Seq<char>, Seq<AccountActivity>)>, now: i64) -> Seq<
    (Seq<char>, Seq<AccountActivity>),
> {
    pruned(hs, now - MS_PER_DAY)
}

/// An account's total over the 24 hours before `now`.
pub open spec fn daily_total_at(
    hs: Seq<(Seq<char>, Seq<AccountActivity>)>,
    account: Seq<char>,
    now: i64,
) -> int {
    sum_after(entries_of(hs, account), now - MS_PER_DAY)
}

/// The flags a score reports, as (kind, severity), in order.
pub open spec fn push_flag(
    s: Seq<(FraudFlagType, u8)>,
    cond: bool,
    f: FraudFlagType,
    sev: u8,
) -> Seq<(FraudFlagType, u8)> {
    if cond {
        s.push((f, sev))
    } else {
        s
    }
}

/// The signals of a transaction over `h`, the history of its source account
/// before it, with the denylist `deny`.
pub open spec fn velocity_signal(th: FraudThresholds, h: Seq<AccountActivity>, t: Transaction) -> bool {
    t.from_account is Some && count_last_hour(h, t.timestamp as int) >= th.max_transactions_per_hour
}

pub open spec fn ceiling_signal(th: FraudThresholds, t: Transaction) -> bool {
    t.amount > th.max_amount
}

/// More than five times the average of a non-empty history.
pub open spec fn average_signal(h: Seq<AccountActivity>, t: Transaction) -> bool {
    h.len() > 0 && t.amount * h.len() > 5 * sum_amounts(h)
}

pub open spec fn round_signal(th: FraudThresholds, t: Transaction) -> bool {
    t.amount >= th.round_amount_threshold && t.amount % 100_000 == 0
}

pub open spec fn country_signal(deny: Seq<Seq<char>>, t: Transaction) -> bool {
    match t.metadata {
        Some(md) => match lookup_first(md@, "country"@) {
            Some(c) => deny.contains(c),
            None => false,
        },
        None => false,
    }
}

/// Less than 30 seconds after the last entry.
pub open spec fn rapid_signal(h: Seq<AccountActivity>, t: Transaction) -> bool {
    h.len() > 0 && t.timestamp - h.last().timestamp < 30_000
}

/// The three latest amounts, oldest to newest, strictly increase.
pub open spec fn progression_signal(h: Seq<AccountActivity>) -> bool {
    h.len() >= 3 && h[h.len() - 3].amount < h[h.len() - 2].amount && h[h.len() - 2].amount < h[h.len()
        - 1].amount
}

pub open spec fn expected_flags(
    th: FraudThresholds,
    deny: Seq<Seq<char>>,
    h: Seq<AccountActivity>,
    t: Transaction,
) -> Seq<(FraudFlagType, u8)> {
    let f0 = push_flag(Seq::empty(), velocity_signal(th, h, t), FraudFlagType::VelocityExceeded, 25);
    let f1 = push_flag(f0, ceiling_signal(th, t), FraudFlagType::UnusualAmount, 30);
    let f2 = push_flag(f1, average_signal(h, t), FraudFlagType::UnusualAmount, 20);
    let f3 = push_flag(f2, round_signal(th, t), FraudFlagType::RoundAmount, 15);
    let f4 = push_flag(f3, country_signal(deny, t), FraudFlagType::HighRiskCountry, 35);
    let f5 = push_flag(f4, rapid_signal(h, t), FraudFlagType::RapidSuccession, 10);
    push_flag(f5, progression_signal(h), FraudFlagType::AmountProgression, 20)
}

/// Sum of the severities of the signals that fire.
pub open spec fn raw_score(
    th: FraudThresholds,
    deny: Seq<Seq<char>>,
    h: Seq<AccountActivity>,
    t: Transaction,
) -> int {
    (if velocity_signal(th, h, t) { 25int } else { 0 }) + (if ceiling_signal(th, t) { 30int } else { 0 })
        + (if average_signal(h, t) { 20int } else { 0 }) + (if round_signal(th, t) { 15int } else { 0 })
        + (if country_signal(deny, t) { 35int } else { 0 }) + (if rapid_signal(h, t) { 10int } else { 0 })
        + (if progression_signal(h) { 20int } else { 0 })
}

pub open spec fn flag_view(f: FraudFlag) -> (FraudFlagType, u8) {
    (f.flag_type, f.severity)
}

/// The entries behind an optional reference; none without one.
pub open spec fn opt_entries(h: Option<&Vec<AccountActivity>>) -> Seq<AccountActivity> {
    match h {
        Some(v) => v@,
        None => Seq::empty(),
    }
}

/// Fraud scorer with a per-account history.
pub struct FraudDetector {
    history: Vec<AccountHistory>,
    high_risk_countries: Vec<String>,
    thresholds: FraudThresholds,
}

/// What one scoring of `t` does: `pre` before, `post` after, `r` the score.
pub open spec fn scoring_step(pre: FraudDetector, t: Transaction, post: FraudDetector, r: FraudScore) -> bool {
    let h = pre.history_for(t);
    let raw = raw_score(pre.thresholds(), pre.denylist(), h, t);
    &&& post.thresholds() == pre.thresholds()
    &&& post.denylist() == pre.denylist()
    &&& post.wf()
    &&& post.histories() == match t.from_account {
        Some(a) => recorded(
            pre.histories(),
            a@,
            AccountActivity { timestamp: t.timestamp, amount: t.amount },
        ),
        None => pre.histories(),
    }
    &&& r.flags@.map_values(|f: FraudFlag| flag_view(f)) == expected_flags(
        pre.thresholds(),
        pre.denylist(),
        h,
        t,
    )
    &&& r.score == if raw > 100 { 100 } else { raw }
    &&& r.risk_level == level_of(r.score as int)
}

impl FraudDetector {
    /// The per-account histories, in order of first appearance.
    pub closed spec fn histories(&self) -> Seq<(Seq<char>, Seq<AccountActivity>)> {
        self.history@.map_values(|a: AccountHistory| (a.account@, a.entries@))
    }

    /// Country codes that raise the high-risk-country signal.
    pub closed spec fn denylist(&self) -> Seq<Seq<char>> {
        self.high_risk_countries@.map_values(|c: String| c@)
    }

    pub closed spec fn thresholds(&self) -> FraudThresholds {
        self.thresholds
    }

    pub open spec fn wf(&self) -> bool {
        histories_wf(self.histories())
    }

    /// The history of a transaction's source account; none without one.
    pub open spec fn history_for(&self, t: Transaction) -> Seq<AccountActivity> {
        match t.from_account {
            Some(a) => entries_of(self.histories(), a@),
            None => Seq::empty(),
        }
    }

    /// A scorer with the default thresholds, the denylist KP, IR, SY, and
    /// no history.
    pub fn new() -> (d: Self)
        ensures
            d.wf(),
            d.histories().len() == 0,
            d.denylist() == seq!["KP"@, "IR"@, "SY"@],
            d.thresholds().max_amount == 5_000_000,
            d.thresholds().max_transactions_per_hour == 10,
            d.thresholds().max_daily_total == 10_000_000,
            d.thresholds().round_amount_threshold == 1_000_000,
    {
        let d = FraudDetector {
            history: Vec::new(),
            high_risk_countries: vec!["KP".to_owned(), "IR".to_owned(), "SY".to_owned()],
            thresholds: FraudThresholds::default(),
        };
        assert(d.histories() =~= Seq::empty());
        assert(d.denylist() =~= seq!["KP"@, "IR"@, "SY"@]);
        d
    }

    /// A scorer with the given thresholds, the default denylist and no
    /// history.
    pub fn with_thresholds(thresholds: FraudThresholds) -> (d: Self)
        ensures
            d.wf(),
            d.histories().len() == 0,
            d.denylist() == seq!["KP"@, "IR"@, "SY"@],
            d.thresholds() == thresholds,
    {
        let mut d = Self::new();
        d.thresholds = thresholds;
        d
    }

    fn find_account(&self, account: &String) -> (r: Option<usize>)
        ensures
            r matches Some(i) ==> i < self.histories().len() && self.histories()[i as int].0
                == account@,
            r is None ==> forall|i: int|
                0 <= i < self.histories().len() ==> self.histories()[i].0 != account@,
    {
        let mut i: usize = 0;
        while i < self.history.len()
            invariant
                i <= self.histories().len(),
                forall|j: int| 0 <= j < i ==> self.histories()[j].0 != account@,
            decreases self.histories().len() - i,
        {
            if self.history[i].account == *account {
                return Some(i);
            }
            i = i + 1;
        }
        None
    }

    /// The entries of a transaction's source account, if it has any.
    fn entries_for(&self, transaction: &Transaction) -> (r: Option<&Vec<AccountActivity>>)
        requires
            self.wf(),
        ensures
            r matches Some(v) ==> v@ == self.history_for(*transaction) && v@.len() > 0,
            r is None ==> self.history_for(*transaction).len() == 0,
    {
        match &transaction.from_account {
            Some(a) => match self.find_account(a) {
                Some(i) => {
                    proof {
                        lemma_entries_at(self.histories(), i as int);
                    }
                    Some(&self.history[i].entries)
                },
                None => None,
            },
            None => None,
        }
    }
}

fn flag(flag_type: FraudFlagType, description: String, severity: u8) -> (r: FraudFlag)
    ensures
        flag_view(r) == (flag_type, severity),
{
    FraudFlag { flag_type, description, severity }
}

/// Entries of `h` after `ts` less one hour.
fn count_recent(h: &Vec<AccountActivity>, ts: i64) -> (r: usize)
    ensures
        r == count_last_hour(h@, ts as int),
{
    let cutoff: i128 = ts as i128 - MS_PER_HOUR as i128;
    let mut count: usize = 0;
    let mut i: usize = 0;
    while i < h.len()
        invariant
            i <= h@.len(),
            cutoff == ts - MS_PER_HOUR,
            count == count_last_hour(h@.subrange(0, i as int), ts as int),
            count <= i,
        decreases h@.len() - i,
    {
        assert(h@.subrange(0, i + 1).drop_last() =~= h@.subrange(0, i as int));
        if h[i].timestamp as i128 > cutoff {
            count = count + 1;
        }
        i = i + 1;
    }
    assert(h@.subrange(0, h@.len() as int) =~= h@);
    count
}

/// Sum of the amounts of `h`.
fn total_amount(h: &Vec<AccountActivity>) -> (r: i128)
    ensures
        r == sum_amounts(h@),
        -(h@.len() as int) * 0x8000_0000_0000_0000 <= r <= (h@.len() as int) * 0x8000_0000_0000_0000,
{
    let mut sum: i128 = 0;
    let mut i: usize = 0;
    let n = h.len();
    while i < n
        invariant
            n == h@.len(),
            i <= n,
            sum == sum_amounts(h@.subrange(0, i as int)),
            -(i as int) * 0x8000_0000_0000_0000 <= sum <= (i as int) * 0x8000_0000_0000_0000,
        decreases n - i,
    {
        assert(h@.subrange(0, i + 1).drop_last() =~= h@.subrange(0, i as int));
        sum = sum + h[i].amount as i128;
        i = i + 1;
    }
    assert(h@.subrange(0, h@.len() as int) =~= h@);
    sum
}

/// The value under the first pair with `key`, if any.
pub fn metadata_value<'a>(md: &'a Vec<(String, String)>, key: &str) -> (r: Option<&'a String>)
    ensures
        match r {
            Some(v) => lookup_first(md@, key@) == Some(v@),
            None => lookup_first(md@, key@) is None,
        },
{
    let owned = key.to_owned();
    let mut i: usize = 0;
    assert(md@.subrange(0, md@.len() as int) =~= md@);
    while i < md.len()
        invariant
            owned@ == key@,
            i <= md@.len(),
            lookup_first(md@, key@) == lookup_first(md@.subrange(i as int, md@.len() as int), key@),
        decreases md@.len() - i,
    {
        let ghost rest = md@.subrange(i as int, md@.len() as int);
        assert(rest[0] == md@[i as int]);
        assert(rest.subrange(1, rest.len() as int) =~= md@.subrange(i + 1, md@.len() as int));
        if md[i].0 == owned {
            return Some(&md[i].1);
        }
        i = i + 1;
    }
    None
}

impl FraudDetector {
    fn check_velocity(&self, h: Option<&Vec<AccountActivity>>, transaction: &Transaction) -> (r:
        Option<FraudFlag>)
        requires
            h matches Some(v) ==> v@.len() > 0,
        ensures
            r is Some == velocity_signal(self.thresholds(), opt_entries(h), *transaction),
            r matches Some(f) ==> flag_view(f) == (FraudFlagType::VelocityExceeded, 25u8),
    {
        if transaction.from_account.is_some() {
            let recent: usize = match h {
                Some(entries) => count_recent(entries, transaction.timestamp),
                None => 0,
            };
            let limit = self.thresholds.max_transactions_per_hour;
            if recent >= limit {
                return Some(
                    flag(
                        FraudFlagType::VelocityExceeded,
                        message_with2(
                            "",
                            recent as i128,
                            " transactions in last hour, limit ",
                            limit as i128,
                        ),
                        25,
                    ),
                );
            }
        }
        None
    }

    fn check_amount_ceiling(&self, transaction: &Transaction) -> (r: Option<FraudFlag>)
        ensures
            r is Some == ceiling_signal(self.thresholds(), *transaction),
            r matches Some(f) ==> flag_view(f) == (FraudFlagType::UnusualAmount, 30u8),
    {
        if transaction.amount > self.thresholds.max_amount {
            Some(
                flag(
                    FraudFlagType::UnusualAmount,
                    message_with2(
                        "Amount ",
                        transaction.amount as i128,
                        " exceeds threshold ",
                        self.thresholds.max_amount as i128,
                    ),
                    30,
                ),
            )
        } else {
            None
        }
    }

    fn check_amount_average(&self, h: Option<&Vec<AccountActivity>>, transaction: &Transaction) -> (r:
        Option<FraudFlag>)
        requires
            h matches Some(v) ==> v@.len() > 0,
        ensures
            r is Some == average_signal(opt_entries(h), *transaction),
            r matches Some(f) ==> flag_view(f) == (FraudFlagType::UnusualAmount, 20u8),
    {
        if let Some(entries) = h {
            let n = entries.len();
            let sum = total_amount(entries);
            assert(n <= usize::MAX);
            let a = transaction.amount;
            assert(-0x8000_0000_0000_0000 * 0xffff_ffff_ffff_ffff <= (a as int) * (n as int)
                <= 0x7fff_ffff_ffff_ffff * 0xffff_ffff_ffff_ffff) by (nonlinear_arith)
                requires
                    -0x8000_0000_0000_0000 <= a < 0x8000_0000_0000_0000,
                    0 <= n <= 0xffff_ffff_ffff_ffff,
            ;
            let scaled: i128 = transaction.amount as i128 * n as i128;
            // Five times the sum; a product that overflows lies beyond any
            // scaled amount, on the side of its sign.
            let above = match sum.checked_mul(5) {
                Some(s5) => scaled > s5,
                None => sum < 0,
            };
            if above {
                return Some(
                    flag(
                        FraudFlagType::UnusualAmount,
                        message_with(
                            "Amount ",
                            transaction.amount as i128,
                            " is more than 5x the account average",
                        ),
                        20,
                    ),
                );
            }
        }
        None
    }

    fn check_round_amount(&self, transaction: &Transaction) -> (r: Option<FraudFlag>)
        ensures
            r is Some == round_signal(self.thresholds(), *transaction),
            r matches Some(f) ==> flag_view(f) == (FraudFlagType::RoundAmount, 15u8),
    {
        if transaction.amount >= self.thresholds.round_amount_threshold && transaction.amount
            % 100_000 == 0 {
            Some(
                flag(
                    FraudFlagType::RoundAmount,
                    message_with(
                        "Suspicious round amount: ",
                        transaction.amount as i128,
                        " (potential structuring)",
                    ),
                    15,
                ),
            )
        } else {
            None
        }
    }

    fn is_high_risk_country(&self, country: &String) -> (r: bool)
        ensures
            r == self.denylist().contains(country@),
    {
        let mut i: usize = 0;
        while i < self.high_risk_countries.len()
            invariant
                i <= self.high_risk_countries@.len(),
                forall|j: int| 0 <= j < i ==> self.high_risk_countries@[j]@ != country@,
            decreases self.high_risk_countries@.len() - i,
        {
            if self.high_risk_countries[i] == *country {
                assert(self.denylist()[i as int] == country@);
                return true;
            }
            i = i + 1;
        }
        assert forall|j: int| 0 <= j < self.denylist().len() implies self.denylist()[j] != country@ by {
            assert(self.denylist()[j] == self.high_risk_countries@[j]@);
        }
        false
    }

    fn check_high_risk_country(&self, transaction: &Transaction) -> (r: Option<FraudFlag>)
        ensures
            r is Some == country_signal(self.denylist(), *transaction),
            r matches Some(f) ==> flag_view(f) == (FraudFlagType::HighRiskCountry, 35u8),
    {
        proof {
            reveal_strlit("country");
        }
        if let Some(md) = &transaction.metadata {
            if let Some(country) = metadata_value(md, "country") {
                if self.is_high_risk_country(country) {
                    return Some(
                        flag(
                            FraudFlagType::HighRiskCountry,
                            "Transaction from high-risk country: ".to_owned().concat(
                                country.as_str(),
                            ),
                            35,
                        ),
                    );
                }
            }
        }
        None
    }

    fn check_rapid_succession(&self, h: Option<&Vec<AccountActivity>>, transaction: &Transaction) -> (r:
        Option<FraudFlag>)
        requires
            h matches Some(v) ==> v@.len() > 0,
        ensures
            r is Some == rapid_signal(opt_entries(h), *transaction),
            r matches Some(f) ==> flag_view(f) == (FraudFlagType::RapidSuccession, 10u8),
    {
        if let Some(entries) = h {
            let last = entries[entries.len() - 1];
            let gap: i128 = transaction.timestamp as i128 - last.timestamp as i128;
            if gap < 30_000 {
                return Some(
                    flag(
                        FraudFlagType::RapidSuccession,
                        message_with("Transaction within ", gap, " ms of previous"),
                        10,
                    ),
                );
            }
        }
        None
    }

    fn check_amount_progression(&self, h: Option<&Vec<AccountActivity>>) -> (r: Option<FraudFlag>)
        requires
            h matches Some(v) ==> v@.len() > 0,
        ensures
            r is Some == progression_signal(opt_entries(h)),
            r matches Some(f) ==> flag_view(f) == (FraudFlagType::AmountProgression, 20u8),
    {
        if let Some(entries) = h {
            let n = entries.len();
            if n >= 3 && entries[n - 3].amount < entries[n - 2].amount && entries[n - 2].amount
                < entries[n - 1].amount {
                return Some(
                    flag(
                        FraudFlagType::AmountProgression,
                        "Incrementing amounts detected (potential account testing)".to_owned(),
                        20,
                    ),
                );
            }
        }
        None
    }
}

impl FraudDetector {
    /// Records a transaction under its source account, if it has one.
    fn add_to_history(&mut self, transaction: &Transaction)
        requires
            old(self).wf(),
        ensures
            final(self).wf(),
            final(self).thresholds() == old(self).thresholds(),
            final(self).denylist() == old(self).denylist(),
            final(self).histories() == match transaction.from_account {
                Some(a) => recorded(
                    old(self).histories(),
                    a@,
                    AccountActivity { timestamp: transaction.timestamp, amount: transaction.amount },
                ),
                None => old(self).histories(),
            },
    {
        if let Some(account) = &transaction.from_account {
            let activity = AccountActivity {
                timestamp: transaction.timestamp,
                amount: transaction.amount,
            };
            let ghost hs = self.histories();
            match self.find_account(account) {
                Some(i) => {
                    self.history[i].entries.push(activity);
                    assert(self.histories() =~= hs.update(
                        i as int,
                        (account@, hs[i as int].1.push(activity)),
                    ));
                },
                None => {
                    let mut entries: Vec<AccountActivity> = Vec::new();
                    entries.push(activity);
                    assert(entries@ =~= seq![activity]);
                    self.history.push(AccountHistory { account: account.clone(), entries });
                    assert(self.histories() =~= hs.push((account@, seq![activity])));
                },
            }
        }
    }

    /// Scores a transaction from six signals over its source account's
    /// history, then records it in that history.
    pub fn calculate_fraud_score(&mut self, transaction: &Transaction) -> (r: FraudScore)
        requires
            old(self).wf(),
        ensures
            scoring_step(*old(self), *transaction, *final(self), r),
    {
        let ghost pre = *self;
        let ghost t = *transaction;
        let ghost th = self.thresholds();
        let ghost deny = self.denylist();
        let ghost h = self.history_for(t);
        let mut score: u8 = 0;
        let mut flags: Vec<FraudFlag> = Vec::new();
        let ghost f0 = push_flag(Seq::empty(), velocity_signal(th, h, t), FraudFlagType::VelocityExceeded, 25);
        let ghost f1 = push_flag(f0, ceiling_signal(th, t), FraudFlagType::UnusualAmount, 30);
        let ghost f2 = push_flag(f1, average_signal(h, t), FraudFlagType::UnusualAmount, 20);
        let ghost f3 = push_flag(f2, round_signal(th, t), FraudFlagType::RoundAmount, 15);
        let ghost f4 = push_flag(f3, country_signal(deny, t), FraudFlagType::HighRiskCountry, 35);
        let ghost f5 = push_flag(f4, rapid_signal(h, t), FraudFlagType::RapidSuccession, 10);
        {
            let entries = self.entries_for(transaction);
            assert(opt_entries(entries) == h);
            if let Some(f) = self.check_velocity(entries, transaction) {
                score = score + f.severity;
                flags.push(f);
            }
            assert(flags@.map_values(|f: FraudFlag| flag_view(f)) =~= f0);
            if let Some(f) = self.check_amount_ceiling(transaction) {
                score = score + f.severity;
                flags.push(f);
            }
            assert(flags@.map_values(|f: FraudFlag| flag_view(f)) =~= f1);
            if let Some(f) = self.check_amount_average(entries, transaction) {
                score = score + f.severity;
                flags.push(f);
            }
            assert(flags@.map_values(|f: FraudFlag| flag_view(f)) =~= f2);
            if let Some(f) = self.check_round_amount(transaction) {
                score = score + f.severity;
                flags.push(f);
            }
            assert(flags@.map_values(|f: FraudFlag| flag_view(f)) =~= f3);
            if let Some(f) = self.check_high_risk_country(transaction) {
                score = score + f.severity;
                flags.push(f);
            }
            assert(flags@.map_values(|f: FraudFlag| flag_view(f)) =~= f4);
            if let Some(f) = self.check_rapid_succession(entries, transaction) {
                score = score + f.severity;
                flags.push(f);
            }
            assert(flags@.map_values(|f: FraudFlag| flag_view(f)) =~= f5);
            if let Some(f) = self.check_amount_progression(entries) {
                score = score + f.severity;
                flags.push(f);
            }
            assert(flags@.map_values(|f: FraudFlag| flag_view(f)) =~= expected_flags(th, deny, h, t));
        }
        assert(score == raw_score(th, deny, h, t));
        let capped: u8 = if score > 100 {
            100
        } else {
            score
        };
        let risk_level = if capped <= 25 {
            RiskLevel::Low
        } else if capped <= 50 {
            RiskLevel::Medium
        } else if capped <= 75 {
            RiskLevel::High
        } else {
            RiskLevel::Critical
        };
        self.add_to_history(transaction);
        FraudScore { score: capped, risk_level, flags }
    }
}

/// Entries of `es` after `cutoff`.
fn keep_after(es: &Vec<AccountActivity>, cutoff: i128) -> (r: Vec<AccountActivity>)
    ensures
        r@ == es@.filter(|a: AccountActivity| a.timestamp > cutoff),
{
    let mut kept: Vec<AccountActivity> = Vec::new();
    let mut i: usize = 0;
    while i < es.len()
        invariant
            i <= es@.len(),
            kept@ == es@.subrange(0, i as int).filter(|a: AccountActivity| a.timestamp > cutoff),
        decreases es@.len() - i,
    {
        proof {
            reveal(Seq::filter);
        }
        assert(es@.subrange(0, i + 1).drop_last() =~= es@.subrange(0, i as int));
        if es[i].timestamp as i128 > cutoff {
            kept.push(es[i]);
        }
        i = i + 1;
    }
    assert(es@.subrange(0, es@.len() as int) =~= es@);
    kept
}

/// Sum of the amounts of the entries of `h` after `cutoff`.
fn sum_recent(h: &Vec<AccountActivity>, cutoff: i128) -> (r: i128)
    ensures
        r == sum_after(h@, cutoff as int),
{
    let mut sum: i128 = 0;
    let mut i: usize = 0;
    let n = h.len();
    while i < n
        invariant
            n == h@.len(),
            i <= n,
            sum == sum_after(h@.subrange(0, i as int), cutoff as int),
            -(i as int) * 0x8000_0000_0000_0000 <= sum <= (i as int) * 0x8000_0000_0000_0000,
        decreases n - i,
    {
        assert(h@.subrange(0, i + 1).drop_last() =~= h@.subrange(0, i as int));
        if h[i].timestamp as i128 > cutoff {
            sum = sum + h[i].amount as i128;
        }
        i = i + 1;
    }
    assert(h@.subrange(0, h@.len() as int) =~= h@);
    sum
}

impl FraudDetector {
    /// Drops the entries more than 24 hours older than `now`, and the
    /// accounts left without entries.
    pub fn cleanup_history_at(&mut self, now: i64)
        requires
            old(self).wf(),
        ensures
            final(self).wf(),
            final(self).histories() == pruned(old(self).histories(), now - MS_PER_DAY),
            final(self).thresholds() == old(self).thresholds(),
            final(self).denylist() == old(self).denylist(),
    {
        let cutoff: i128 = now as i128 - MS_PER_DAY as i128;
        let ghost hs = self.histories();
        let mut kept: Vec<AccountHistory> = Vec::new();
        let mut i: usize = 0;
        while i < self.history.len()
            invariant
                hs == self.histories(),
                histories_wf(hs),
                cutoff == now - MS_PER_DAY,
                i <= hs.len(),
                kept@.map_values(|a: AccountHistory| (a.account@, a.entries@)) == pruned(
                    hs.subrange(0, i as int),
                    cutoff as int,
                ),
                histories_wf(kept@.map_values(|a: AccountHistory| (a.account@, a.entries@))),
                forall|k: int|
                    0 <= k < kept@.len() ==> exists|j: int|
                        0 <= j < i && #[trigger] hs[j].0 == (#[trigger] kept@[k]).account@,
            decreases hs.len() - i,
        {
            let ghost before = kept@.map_values(|a: AccountHistory| (a.account@, a.entries@));
            assert(hs.subrange(0, i + 1).drop_last() =~= hs.subrange(0, i as int));
            let entries = keep_after(&self.history[i].entries, cutoff);
            if entries.len() > 0 {
                let ghost key = hs[i as int].0;
                assert forall|k: int| 0 <= k < kept@.len() implies kept@[k].account@ != key by {
                    let j = choose|j: int| 0 <= j < i && #[trigger] hs[j].0 == kept@[k].account@;
                    assert(hs[j].0 != hs[i as int].0);
                }
                kept.push(AccountHistory { account: self.history[i].account.clone(), entries });
                assert(kept@.map_values(|a: AccountHistory| (a.account@, a.entries@)) =~= before.push(
                    (key, entries@),
                ));
                assert forall|k: int| 0 <= k < kept@.len() implies exists|j: int|
                    0 <= j < i + 1 && #[trigger] hs[j].0 == (#[trigger] kept@[k]).account@ by {
                    if k < kept@.len() - 1 {
                        let j = choose|j: int| 0 <= j < i && #[trigger] hs[j].0 == kept@[k].account@;
                        assert(hs[j].0 == kept@[k].account@);
                    } else {
                        assert(hs[i as int].0 == kept@[k].account@);
                    }
                }
            }
            i = i + 1;
        }
        assert(hs.subrange(0, hs.len() as int) =~= hs);
        self.history = kept;
    }

    /// Drops the entries more than 24 hours old, by the clock.
    pub fn cleanup_history(&mut self)
        requires
            old(self).wf(),
        ensures
            final(self).wf(),
            exists|now: i64|
                final(self).histories() == #[trigger] pruned_at(old(self).histories(), now),
            final(self).thresholds() == old(self).thresholds(),
            final(self).denylist() == old(self).denylist(),
    {
        let now = now_millis();
        self.cleanup_history_at(now);
        assert(self.histories() == pruned_at(old(self).histories(), now));
    }

    /// Number of entries of an account.
    pub fn get_transaction_count(&self, account: &str) -> (r: usize)
        requires
            self.wf(),
        ensures
            r == entries_of(self.histories(), account@).len(),
    {
        let key = account.to_owned();
        match self.find_account(&key) {
            Some(i) => {
                proof {
                    lemma_entries_at(self.histories(), i as int);
                }
                self.history[i].entries.len()
            },
            None => 0,
        }
    }

    /// Sum, in cents, of an account's amounts after `now` less 24 hours.
    pub fn get_daily_total_at(&self, account: &str, now: i64) -> (r: i128)
        requires
            self.wf(),
        ensures
            r == sum_after(entries_of(self.histories(), account@), now - MS_PER_DAY),
    {
        let key = account.to_owned();
        match self.find_account(&key) {
            Some(i) => {
                proof {
                    lemma_entries_at(self.histories(), i as int);
                }
                sum_recent(&self.history[i].entries, now as i128 - MS_PER_DAY as i128)
            },
            None => 0,
        }
    }

    /// Sum, in cents, of an account's amounts over the last 24 hours, by
    /// the clock.
    pub fn get_daily_total(&self, account: &str) -> (r: i128)
        requires
            self.wf(),
        ensures
            exists|now: i64| r == #[trigger] daily_total_at(self.histories(), account@, now),
    {
        let now = now_millis();
        let r = self.get_daily_total_at(account, now);
        assert(r == daily_total_at(self.histories(), account@, now));
        r
    }
}

impl Default for FraudDetector {
    /// The same as `new`.
    fn default() -> (d: Self)
        ensures
            d.wf(),
            d.histories().len() == 0,
            d.denylist() == seq!["KP"@, "IR"@, "SY"@],
            d.thresholds().max_amount == 5_000_000,
            d.thresholds().max_transactions_per_hour == 10,
            d.thresholds().max_daily_total == 10_000_000,
            d.thresholds().round_amount_threshold == 1_000_000,
    {
        FraudDetector::new()
    }
}

} // verus!

//! The validation pipeline: structural checks, duplicate and velocity
//! checks, pattern and time-of-day scoring, and business rules, aggregated
//! into one decision record per transaction.

use crate::text::{int_text, int_to_text};
use crate::bindings::{now_millis, regex_accepts, regex_compiles, regex_is_match};
use vstd::prelude::*;

verus! {

/// Milliseconds in a day.
pub const MS_PER_DAY: i64 = 86_400_000;

/// Milliseconds in an hour.
pub const MS_PER_HOUR: i64 = 3_600_000;

/// Milliseconds in a minute.
pub const MS_PER_MINUTE: i64 = 60_000;

/// Pattern of a well-formed account number: four groups of four upper-case
/// letters or digits.
pub const ACCOUNT_PATTERN: &'static str = "^[A-Z0-9]{4}-[A-Z0-9]{4}-[A-Z0-9]{4}-[A-Z0-9]{4}$";

/// Milliseconds since midnight (UTC) of an instant in milliseconds since
/// the Unix epoch.
pub open spec fn ms_of_day(ms: int) -> int {
    ms % (MS_PER_DAY as int)
}

/// Milliseconds since midnight (UTC) of a timestamp.
pub fn time_of_day(ms: i64) -> (r: u64)
    ensures
        r as int == ms_of_day(ms as int),
        r < MS_PER_DAY,
{
    let day: u64 = 86_400_000;
    let r: u64 = if ms >= 0 {
        (ms as u64) % day
    } else {
        let m: u64 = (-(ms + 1)) as u64;
        day - 1 - m % day
    };
    proof {
        if ms < 0 {
            let m = -(ms + 1);
            assert((ms as int) % (MS_PER_DAY as int) == MS_PER_DAY - 1 - m % (MS_PER_DAY as int))
                by (nonlinear_arith)
                requires
                    m == -(ms + 1),
                    ms < 0,
            ;
        }
    }
    r
}

/// Within 06:00 to 22:00 UTC, both ends included.
pub open spec fn in_outer_window(ts: i64) -> bool {
    6 * MS_PER_HOUR <= ms_of_day(ts as int) <= 22 * MS_PER_HOUR
}

/// Within 09:00 to 17:00 UTC, both ends included.
pub open spec fn in_inner_window(ts: i64) -> bool {
    9 * MS_PER_HOUR <= ms_of_day(ts as int) <= 17 * MS_PER_HOUR
}

/// Kind of a transaction.
#[derive(Debug, Clone, Copy, PartialEq, Eq, Structural)]
pub enum TransactionType {
    Deposit,
    Withdrawal,
    Transfer,
    Payment,
    WireTransfer,
}

impl TransactionType {
    /// The lower-case name of the kind, as it appears in reports.
    pub fn name(&self) -> (r: &'static str)
        ensures
            r@ == kind_name(*self),
    {
        match self {
            TransactionType::Deposit => "deposit",
            TransactionType::Withdrawal => "withdrawal",
            TransactionType::Transfer => "transfer",
            TransactionType::Payment => "payment",
            TransactionType::WireTransfer => "wire_transfer",
        }
    }
}

pub open spec fn kind_name(t: TransactionType) -> Seq<char> {
    match t {
        TransactionType::Deposit => "deposit"@,
        TransactionType::Withdrawal => "withdrawal"@,
        TransactionType::Transfer => "transfer"@,
        TransactionType::Payment => "payment"@,
        TransactionType::WireTransfer => "wire_transfer"@,
    }
}

/// A financial transaction. Amounts are in cents (hundredths of the
/// currency unit) and may be negative; timestamps are milliseconds since
/// the Unix epoch, UTC. Validity is decided by the pipeline, not here.
#[derive(Debug, Clone)]
pub struct Transaction {
    pub transaction_id: String,
    pub transaction_type: TransactionType,
    pub amount: i64,
    pub currency: String,
    pub from_account: Option<String>,
    pub to_account: Option<String>,
    pub timestamp: i64,
    pub user_id: String,
    /// Key-value pairs; a lookup takes the first pair with the key.
    pub metadata: Option<Vec<(String, String)>>,
}

/// A typed validation error, with a message or the offending identifier.
#[derive(Debug, Clone)]
pub enum ValidationError {
    InvalidAmount(String),
    InvalidAccount(String),
    DuplicateTransaction(String),
    FraudDetected(String),
    ComplianceFailed(String),
    BusinessRuleViolation(String),
    VelocityViolation(String),
    RiskThresholdExceeded(String),
}

/// The kind of an error, as a small number: the order of the variants.
pub open spec fn error_kind(e: ValidationError) -> nat {
    match e {
        ValidationError::InvalidAmount(_) => 0,
        ValidationError::InvalidAccount(_) => 1,
        ValidationError::DuplicateTransaction(_) => 2,
        ValidationError::FraudDetected(_) => 3,
        ValidationError::ComplianceFailed(_) => 4,
        ValidationError::BusinessRuleViolation(_) => 5,
        ValidationError::VelocityViolation(_) => 6,
        ValidationError::RiskThresholdExceeded(_) => 7,
    }
}

/// Sub-scores of a transaction's risk and their capped total.
#[derive(Debug, Clone, Copy)]
pub struct RiskBreakdown {
    pub amount_risk: u8,
    pub velocity_risk: u8,
    pub pattern_risk: u8,
    pub time_risk: u8,
    pub total_score: u8,
}

/// The saturating sum of four sub-scores, capped at 100.
pub open spec fn capped_total(a: u8, v: u8, p: u8, t: u8) -> int {
    let sum = a as int + v as int + p as int + t as int;
    if sum > 100 {
        100
    } else {
        sum
    }
}

impl RiskBreakdown {
    /// All sub-scores and the total at zero.
    pub fn new() -> (r: Self)
        ensures
            r.amount_risk == 0 && r.velocity_risk == 0 && r.pattern_risk == 0 && r.time_risk == 0
                && r.total_score == 0,
    {
        RiskBreakdown { amount_risk: 0, velocity_risk: 0, pattern_risk: 0, time_risk: 0, total_score: 0 }
    }

    /// Sets the total to the saturating sum of the sub-scores, capped at 100.
    pub fn calculate_total(&mut self)
        ensures
            final(self).total_score == capped_total(
                old(self).amount_risk,
                old(self).velocity_risk,
                old(self).pattern_risk,
                old(self).time_risk,
            ),
            final(self).amount_risk == old(self).amount_risk,
            final(self).velocity_risk == old(self).velocity_risk,
            final(self).pattern_risk == old(self).pattern_risk,
            final(self).time_risk == old(self).time_risk,
    {
        let t = self.amount_risk.saturating_add(self.velocity_risk).saturating_add(
            self.pattern_risk,
        ).saturating_add(self.time_risk);
        self.total_score = if t > 100 {
            100
        } else {
            t
        };
    }
}

/// The decision record of one validation.
#[derive(Debug, Clone)]
pub struct ValidationResult {
    pub transaction_id: String,
    pub is_valid: bool,
    pub errors: Vec<ValidationError>,
    pub warnings: Vec<String>,
    pub fraud_score: u8,
    pub risk_breakdown: RiskBreakdown,
    /// Named compliance checks and their outcomes, in the order run.
    pub compliance_checks: Vec<(String, bool)>,
    /// Milliseconds since the Unix epoch, UTC.
    pub validated_at: i64,
}

/// Name of the risk tier of a score.
pub open spec fn risk_level_name(score: u8) -> Seq<char> {
    if score <= 25 {
        "Low"@
    } else if score <= 50 {
        "Medium"@
    } else if score <= 75 {
        "High"@
    } else {
        "Critical"@
    }
}

impl ValidationResult {
    /// Valid, without errors, and scored under 50.
    pub fn is_approved(&self) -> (r: bool)
        ensures
            r == (self.is_valid && self.errors@.len() == 0 && self.fraud_score < 50),
    {
        self.is_valid && self.errors.len() == 0 && self.fraud_score < 50
    }

    /// Scored 50 or more, or carrying any warning.
    pub fn requires_manual_review(&self) -> (r: bool)
        ensures
            r == (self.fraud_score >= 50 || self.warnings@.len() > 0),
    {
        self.fraud_score >= 50 || self.warnings.len() > 0
    }

    /// Risk tier of the fraud score: Low, Medium, High or Critical.
    pub fn risk_level(&self) -> (r: &'static str)
        ensures
            r@ == risk_level_name(self.fraud_score),
    {
        if self.fraud_score <= 25 {
            "Low"
        } else if self.fraud_score <= 50 {
            "Medium"
        } else if self.fraud_score <= 75 {
            "High"
        } else {
            "Critical"
        }
    }
}

/// Configuration of a validator. Amounts are in cents.
#[derive(Debug, Clone, Copy)]
pub struct ValidatorConfig {
    pub max_transaction_amount: i64,
    pub min_transaction_amount: i64,
    /// 0 to 100; a total score above it is an error.
    pub fraud_threshold: u8,
    pub enable_duplicate_check: bool,
    pub enable_aml_check: bool,
    pub velocity_check_window_minutes: i64,
    pub max_transactions_per_window: usize,
    pub max_amount_per_window: i64,
}

impl Default for ValidatorConfig {
    /// Amounts from one cent to 1,000,000.00, threshold 70, both checks on,
    /// at most 10 transactions or 100,000.00 per 60-minute window.
    fn default() -> (r: Self)
        ensures
            r.max_transaction_amount == 100_000_000,
            r.min_transaction_amount == 1,
            r.fraud_threshold == 70,
            r.enable_duplicate_check,
            r.enable_aml_check,
            r.velocity_check_window_minutes == 60,
            r.max_transactions_per_window == 10,
            r.max_amount_per_window == 10_000_000,
    {
        ValidatorConfig {
            max_transaction_amount: 100_000_000,
            min_transaction_amount: 1,
            fraud_threshold: 70,
            enable_duplicate_check: true,
            enable_aml_check: true,
            velocity_check_window_minutes: 60,
            max_transactions_per_window: 10,
            max_amount_per_window: 10_000_000,
        }
    }
}

/// One entry of the validator's own history: who, when, how much.
#[derive(Debug, Clone)]
pub struct TransactionHistory {
    pub user_id: String,
    pub timestamp: i64,
    pub amount: i64,
}

// ---- amount ----

/// An amount that is not positive, or outside the configured bounds.
pub open spec fn amount_invalid(c: ValidatorConfig, amount: i64) -> bool {
    amount <= 0 || amount < c.min_transaction_amount || amount > c.max_transaction_amount
}

/// Amount tiers: above 100,000.00 is 40, above 50,000.00 is 30, above
/// 10,000.00 is 15.
pub open spec fn amount_risk_of(amount: i64) -> u8 {
    if amount > 10_000_000 {
        40
    } else if amount > 5_000_000 {
        30
    } else if amount > 1_000_000 {
        15
    } else {
        0
    }
}

// ---- accounts ----

/// A masked account number: it begins with four asterisks.
pub open spec fn is_masked(s: Seq<char>) -> bool {
    s.len() >= 4 && s[0] == '*' && s[1] == '*' && s[2] == '*' && s[3] == '*'
}

/// A well-formed account: masked, or matched by the account pattern.
pub open spec fn account_ok(s: Seq<char>) -> bool {
    is_masked(s) || (regex_compiles(ACCOUNT_PATTERN@) && regex_accepts(ACCOUNT_PATTERN@, s))
}

pub open spec fn opt_account_ok(o: Option<String>) -> bool {
    match o {
        Some(s) => account_ok(s@),
        None => true,
    }
}

pub open spec fn accounts_invalid(t: Transaction) -> bool {
    !opt_account_ok(t.from_account) || !opt_account_ok(t.to_account)
}

// ---- duplicates ----

/// The ids seen before, as character sequences.
pub open spec fn id_views(ids: Seq<String>) -> Seq<Seq<char>> {
    ids.map_values(|s: String| s@)
}

/// A duplicate: the check is on and the id was seen before.
pub open spec fn is_duplicate(c: ValidatorConfig, seen: Seq<Seq<char>>, id: Seq<char>) -> bool {
    c.enable_duplicate_check && seen.contains(id)
}

/// The seen ids after a validation: a new id is recorded when the check
/// is on, whatever the other checks find.
pub open spec fn seen_after(c: ValidatorConfig, seen: Seq<Seq<char>>, id: Seq<char>) -> Seq<
    Seq<char>,
> {
    if c.enable_duplicate_check && !seen.contains(id) {
        seen.push(id)
    } else {
        seen
    }
}

// ---- velocity ----

/// Start of the trailing velocity window of a transaction.
pub open spec fn window_start(c: ValidatorConfig, ts: i64) -> int {
    ts - c.velocity_check_window_minutes * (MS_PER_MINUTE as int)
}

pub open spec fn in_window(e: TransactionHistory, user: Seq<char>, start: int) -> bool {
    e.user_id@ == user && e.timestamp >= start
}

/// Number of the user's entries at or after `start`.
pub open spec fn window_count(h: Seq<TransactionHistory>, user: Seq<char>, start: int) -> nat
    decreases h.len(),
{
    if h.len() == 0 {
        0
    } else {
        window_count(h.drop_last(), user, start) + if in_window(h.last(), user, start) {
            1nat
        } else {
            0
        }
    }
}

/// Sum of the amounts of the user's entries at or after `start`.
pub open spec fn window_sum(h: Seq<TransactionHistory>, user: Seq<char>, start: int) -> int
    decreases h.len(),
{
    if h.len() == 0 {
        0
    } else {
        window_sum(h.drop_last(), user, start) + if in_window(h.last(), user, start) {
            h.last().amount as int
        } else {
            0
        }
    }
}

/// Count tier: at the limit 30, at half of it 15.
pub open spec fn count_risk(c: ValidatorConfig, n: nat) -> int {
    if n >= c.max_transactions_per_window {
        30
    } else if n >= c.max_transactions_per_window / 2 {
        15
    } else {
        0
    }
}

/// Amount tier: at the limit 25, at three quarters of it 10.
pub open spec fn sum_risk(c: ValidatorConfig, total: int) -> int {
    if total >= c.max_amount_per_window {
        25
    } else if 4 * total >= 3 * c.max_amount_per_window {
        10
    } else {
        0
    }
}

pub open spec fn velocity_violation(c: ValidatorConfig, n: nat, total: int) -> bool {
    n >= c.max_transactions_per_window || total >= c.max_amount_per_window
}

/// Number of warnings of the velocity check: one per tier that warns.
pub open spec fn velocity_warning_count(c: ValidatorConfig, n: nat, total: int) -> int {
    (if n < c.max_transactions_per_window && n >= c.max_transactions_per_window / 2 {
        1int
    } else {
        0
    }) + (if total < c.max_amount_per_window && 4 * total >= 3 * c.max_amount_per_window {
        1int
    } else {
        0
    })
}

/// Count of a transaction's window, over the history before it.
pub open spec fn recent_count(c: ValidatorConfig, h: Seq<TransactionHistory>, t: Transaction) -> nat {
    window_count(h, t.user_id@, window_start(c, t.timestamp))
}

/// Amount of a transaction's window, itself included.
pub open spec fn recent_total(c: ValidatorConfig, h: Seq<TransactionHistory>, t: Transaction) -> int {
    window_sum(h, t.user_id@, window_start(c, t.timestamp)) + t.amount
}

// ---- patterns and time ----

/// A large round amount: a multiple of 1,000.00, at least 10,000.00.
pub open spec fn is_round_amount(amount: i64) -> bool {
    amount % 100_000 == 0 && amount >= 1_000_000
}

/// Outside 06:00 to 22:00 UTC.
pub open spec fn off_hours(ts: i64) -> bool {
    !in_outer_window(ts)
}

pub open spec fn pattern_risk_of(t: Transaction) -> int {
    (if is_round_amount(t.amount) {
        20int
    } else {
        0
    }) + (if t.amount > 5_000_000 {
        30int
    } else {
        0
    }) + (if t.transaction_type == TransactionType::WireTransfer {
        15int
    } else {
        0
    }) + (if off_hours(t.timestamp) {
        10int
    } else {
        0
    })
}

pub open spec fn opt_push(s: Seq<Seq<char>>, cond: bool, w: Seq<char>) -> Seq<Seq<char>> {
    if cond {
        s.push(w)
    } else {
        s
    }
}

/// The warnings of the pattern pass, in order.
pub open spec fn pattern_warnings(t: Transaction) -> Seq<Seq<char>> {
    let w0 = opt_push(Seq::empty(), is_round_amount(t.amount), "Large round number transaction"@);
    let w1 = opt_push(w0, t.amount > 5_000_000, "High-value transaction requires review"@);
    let w2 = opt_push(
        w1,
        t.transaction_type == TransactionType::WireTransfer,
        "Wire transfer flagged for review"@,
    );
    opt_push(w2, off_hours(t.timestamp), "Transaction outside business hours"@)
}

/// Time-of-day risk: outside 06:00-22:00 UTC is 20, outside 09:00-17:00
/// (but within the first window) is 10.
pub open spec fn time_risk_of(ts: i64) -> int {
    if !in_outer_window(ts) {
        20
    } else if !in_inner_window(ts) {
        10
    } else {
        0
    }
}

// ---- business rules ----

pub open spec fn business_invalid(t: Transaction) -> bool {
    ||| t.transaction_type == TransactionType::Transfer && (t.from_account is None
        || t.to_account is None)
    ||| t.transaction_type == TransactionType::Deposit && t.to_account is None
    ||| t.transaction_type == TransactionType::Withdrawal && t.from_account is None
}

pub open spec fn opt_push_kind(s: Seq<nat>, cond: bool, k: nat) -> Seq<nat> {
    if cond {
        s.push(k)
    } else {
        s
    }
}

/// The outcome of the compliance hook on a transaction. The hook stands in
/// for an outside AML service; callers learn its outcome only from the
/// record a validation returns.
pub closed spec fn aml_check_passes(t: Transaction) -> bool {
    true
}

/// The kinds of the errors a validation reports, in order: amount, account,
/// duplicate, velocity, compliance, business rule, risk threshold.
pub open spec fn expected_error_kinds(
    c: ValidatorConfig,
    seen: Seq<Seq<char>>,
    h: Seq<TransactionHistory>,
    t: Transaction,
    total: int,
) -> Seq<nat> {
    let k0 = opt_push_kind(Seq::empty(), amount_invalid(c, t.amount), 0);
    let k1 = opt_push_kind(k0, accounts_invalid(t), 1);
    let k2 = opt_push_kind(k1, is_duplicate(c, seen, t.transaction_id@), 2);
    let k3 = opt_push_kind(
        k2,
        velocity_violation(c, recent_count(c, h, t), recent_total(c, h, t)),
        6,
    );
    let kc = opt_push_kind(k3, c.enable_aml_check && !aml_check_passes(t), 4);
    let k4 = opt_push_kind(kc, business_invalid(t), 5);
    opt_push_kind(k4, total > c.fraud_threshold, 7)
}

/// The velocity sub-score of a transaction.
pub open spec fn velocity_risk_of(c: ValidatorConfig, h: Seq<TransactionHistory>, t: Transaction) -> int {
    count_risk(c, recent_count(c, h, t)) + sum_risk(c, recent_total(c, h, t))
}

/// The total score of a transaction: the capped sum of its sub-scores.
pub open spec fn total_of(c: ValidatorConfig, h: Seq<TransactionHistory>, t: Transaction) -> int {
    capped_total(
        amount_risk_of(t.amount),
        velocity_risk_of(c, h, t) as u8,
        pattern_risk_of(t) as u8,
        time_risk_of(t.timestamp) as u8,
    )
}

/// The kinds of a list of errors, in order.
pub open spec fn error_kinds(es: Seq<ValidationError>) -> Seq<nat> {
    es.map_values(|e: ValidationError| error_kind(e))
}

/// The history entry a validation records.
pub open spec fn entry_of(t: Transaction) -> TransactionHistory {
    TransactionHistory { user_id: t.user_id, timestamp: t.timestamp, amount: t.amount }
}

/// The message of an invalid-amount error: the offending amount, and the
/// bound it breaks.
pub open spec fn amount_message(c: ValidatorConfig, amount: i64) -> Seq<char> {
    if amount <= 0 {
        "Amount "@ + int_text(amount as int) + " must be positive"@
    } else if amount < c.min_transaction_amount {
        "Amount "@ + int_text(amount as int) + " below minimum "@ + int_text(
            c.min_transaction_amount as int,
        )
    } else {
        "Amount "@ + int_text(amount as int) + " exceeds maximum "@ + int_text(
            c.max_transaction_amount as int,
        )
    }
}

/// Every invalid-amount error among `es` carries the amount's message.
pub open spec fn amount_errors_name(es: Seq<ValidationError>, c: ValidatorConfig, amount: i64) -> bool {
    forall|i: int|
        0 <= i < es.len() && (#[trigger] es[i]) is InvalidAmount ==> (es[i] matches ValidationError::InvalidAmount(
            m,
        ) && m@ == amount_message(c, amount))
}

/// The compliance outcomes recorded: the hook's, under "AML", when enabled.
pub open spec fn compliance_recorded(
    c: ValidatorConfig,
    t: Transaction,
    checks: Seq<(String, bool)>,
) -> bool {
    if c.enable_aml_check {
        checks.len() == 1 && checks[0].0@ == "AML"@ && checks[0].1 == aml_check_passes(t)
    } else {
        checks.len() == 0
    }
}

/// What one validation of `t` does: `pre` is the validator before, `post`
/// after, and `r` the decision record.
pub open spec fn validation_step(
    pre: TransactionValidator,
    t: Transaction,
    post: TransactionValidator,
    r: ValidationResult,
) -> bool {
    let c = pre.config();
    let h = pre.history();
    let total = total_of(c, h, t);
    let n = recent_count(c, h, t);
    let sum = recent_total(c, h, t);
    let vw = velocity_warning_count(c, n, sum);
    &&& post.config() == c
    &&& post.seen() == seen_after(c, pre.seen(), t.transaction_id@)
    &&& post.history() == h.push(entry_of(t))
    &&& r.transaction_id == t.transaction_id
    &&& r.risk_breakdown.amount_risk == amount_risk_of(t.amount)
    &&& r.risk_breakdown.velocity_risk == velocity_risk_of(c, h, t)
    &&& r.risk_breakdown.pattern_risk == pattern_risk_of(t)
    &&& r.risk_breakdown.time_risk == time_risk_of(t.timestamp)
    &&& r.risk_breakdown.total_score == total
    &&& r.risk_breakdown.total_score == capped_total(
        r.risk_breakdown.amount_risk,
        r.risk_breakdown.velocity_risk,
        r.risk_breakdown.pattern_risk,
        r.risk_breakdown.time_risk,
    )
    &&& r.fraud_score == r.risk_breakdown.total_score
    &&& error_kinds(r.errors@) == expected_error_kinds(c, pre.seen(), h, t, total)
    &&& forall|i: int|
        0 <= i < r.errors@.len() && (#[trigger] r.errors@[i]) is DuplicateTransaction
            ==> r.errors@[i] == ValidationError::DuplicateTransaction(t.transaction_id)
    &&& r.is_valid == (r.errors@.len() == 0)
    &&& r.warnings@.len() == vw + pattern_warnings(t).len()
    &&& r.warnings@.subrange(vw, r.warnings@.len() as int).map_values(|w: String| w@)
        == pattern_warnings(t)
    &&& compliance_recorded(c, t, r.compliance_checks@)
    &&& amount_errors_name(r.errors@, c, t.amount)
}

/// A run of validations over `ts`: `states` are the validator's states
/// between the calls, from `pre` to `post`.
pub open spec fn batch_run(
    pre: TransactionValidator,
    ts: Seq<Transaction>,
    post: TransactionValidator,
    rs: Seq<ValidationResult>,
    states: Seq<TransactionValidator>,
) -> bool {
    &&& states.len() == ts.len() + 1
    &&& rs.len() == ts.len()
    &&& states[0] == pre
    &&& states[ts.len() as int] == post
    &&& forall|i: int|
        0 <= i < ts.len() ==> validation_step(states[i], ts[i], states[i + 1], #[trigger] rs[i])
}

/// Entries at or after `before`.
pub open spec fn kept_history(h: Seq<TransactionHistory>, before: i64) -> Seq<TransactionHistory> {
    h.filter(|e: TransactionHistory| e.timestamp >= before)
}

/// `prefix`, the decimal text of `n`, then `suffix`.
pub(crate) fn message_with(prefix: &str, n: i128, suffix: &str) -> (r: String)
    ensures
        r@ == prefix@ + int_text(n as int) + suffix@,
{
    let text = int_to_text(n);
    prefix.to_owned().concat(text.as_str()).concat(suffix)
}

/// `prefix`, `n`, `middle`, `m`, with each number in decimal.
pub(crate) fn message_with2(prefix: &str, n: i128, middle: &str, m: i128) -> (r: String)
    ensures
        r@ == prefix@ + int_text(n as int) + middle@ + int_text(m as int),
{
    let first = message_with(prefix, n, middle);
    let text = int_to_text(m);
    first.concat(text.as_str())
}

/// Whether an account number begins with four asterisks.
pub fn is_masked_account(s: &str) -> (r: bool)
    ensures
        r == is_masked(s@),
{
    if s.unicode_len() < 4 {
        false
    } else {
        s.get_char(0) == '*' && s.get_char(1) == '*' && s.get_char(2) == '*' && s.get_char(3)
            == '*'
    }
}

/// Whether an account number is masked or matches the account pattern.
pub fn is_valid_account_format(s: &str) -> (r: bool)
    ensures
        r == account_ok(s@),
{
    if is_masked_account(s) {
        true
    } else {
        match regex_is_match(ACCOUNT_PATTERN, s) {
            Some(b) => b,
            None => false,
        }
    }
}

/// The pipeline's state: configuration, ids seen, and its own history.
pub struct TransactionValidator {
    config: ValidatorConfig,
    processed_transactions: Vec<String>,
    transaction_history: Vec<TransactionHistory>,
}

/// Counters of a validator's state.
#[derive(Debug, Clone, Copy)]
pub struct ValidatorStats {
    pub total_processed: usize,
    pub total_transactions_in_history: usize,
}

impl TransactionValidator {
    pub closed spec fn config(&self) -> ValidatorConfig {
        self.config
    }

    /// Ids recorded by the duplicate check, in order.
    pub closed spec fn seen(&self) -> Seq<Seq<char>> {
        id_views(self.processed_transactions@)
    }

    /// The pipeline's history, oldest first.
    pub closed spec fn history(&self) -> Seq<TransactionHistory> {
        self.transaction_history@
    }

    /// A validator with the default configuration and no state.
    pub fn new() -> (v: Self)
        ensures
            v.config().max_transaction_amount == 100_000_000,
            v.config().min_transaction_amount == 1,
            v.config().fraud_threshold == 70,
            v.config().enable_duplicate_check,
            v.config().enable_aml_check,
            v.config().velocity_check_window_minutes == 60,
            v.config().max_transactions_per_window == 10,
            v.config().max_amount_per_window == 10_000_000,
            v.seen().len() == 0,
            v.history().len() == 0,
    {
        let v = TransactionValidator {
            config: ValidatorConfig::default(),
            processed_transactions: Vec::new(),
            transaction_history: Vec::new(),
        };
        assert(v.seen() =~= Seq::empty());
        v
    }

    /// A validator with the given configuration and no state.
    pub fn with_config(config: ValidatorConfig) -> (v: Self)
        ensures
            v.config() == config,
            v.seen().len() == 0,
            v.history().len() == 0,
    {
        let v = TransactionValidator {
            config,
            processed_transactions: Vec::new(),
            transaction_history: Vec::new(),
        };
        assert(v.seen() =~= Seq::empty());
        v
    }

    fn calculate_amount_risk(&self, amount: i64) -> (r: u8)
        ensures
            r == amount_risk_of(amount),
    {
        if amount > 10_000_000 {
            40
        } else if amount > 5_000_000 {
            30
        } else if amount > 1_000_000 {
            15
        } else {
            0
        }
    }

    fn calculate_time_risk(&self, timestamp: i64) -> (r: u8)
        ensures
            r == time_risk_of(timestamp),
    {
        let m = time_of_day(timestamp);
        if !(6 * 3_600_000 <= m && m <= 22 * 3_600_000) {
            20
        } else if !(9 * 3_600_000 <= m && m <= 17 * 3_600_000) {
            10
        } else {
            0
        }
    }

    fn validate_amount(&self, transaction: &Transaction) -> (r: Result<(), ValidationError>)
        ensures
            r is Err == amount_invalid(self.config(), transaction.amount),
            r matches Err(e) ==> (e matches ValidationError::InvalidAmount(m) && m@ == amount_message(
                self.config(),
                transaction.amount,
            )),
    {
        let amount = transaction.amount;
        if amount <= 0 {
            return Err(
                ValidationError::InvalidAmount(message_with("Amount ", amount as i128, " must be positive")),
            );
        }
        if amount < self.config.min_transaction_amount {
            return Err(
                ValidationError::InvalidAmount(
                    message_with2(
                        "Amount ",
                        amount as i128,
                        " below minimum ",
                        self.config.min_transaction_amount as i128,
                    ),
                ),
            );
        }
        if amount > self.config.max_transaction_amount {
            return Err(
                ValidationError::InvalidAmount(
                    message_with2(
                        "Amount ",
                        amount as i128,
                        " exceeds maximum ",
                        self.config.max_transaction_amount as i128,
                    ),
                ),
            );
        }
        Ok(())
    }

    fn validate_accounts(&self, transaction: &Transaction) -> (r: Result<(), ValidationError>)
        ensures
            r is Err == accounts_invalid(*transaction),
            r matches Err(e) ==> e is InvalidAccount,
    {
        if let Some(from_account) = &transaction.from_account {
            if !is_valid_account_format(from_account.as_str()) {
                return Err(
                    ValidationError::InvalidAccount(
                        "Invalid from_account format: ".to_owned().concat(from_account.as_str()),
                    ),
                );
            }
        }
        if let Some(to_account) = &transaction.to_account {
            if !is_valid_account_format(to_account.as_str()) {
                return Err(
                    ValidationError::InvalidAccount(
                        "Invalid to_account format: ".to_owned().concat(to_account.as_str()),
                    ),
                );
            }
        }
        Ok(())
    }

    fn has_seen(&self, id: &String) -> (r: bool)
        ensures
            r == self.seen().contains(id@),
    {
        let mut i: usize = 0;
        while i < self.processed_transactions.len()
            invariant
                i <= self.processed_transactions@.len(),
                forall|j: int| 0 <= j < i ==> self.processed_transactions@[j]@ != id@,
            decreases self.processed_transactions@.len() - i,
        {
            if self.processed_transactions[i] == *id {
                assert(self.seen()[i as int] == id@);
                return true;
            }
            i = i + 1;
        }
        assert forall|j: int| 0 <= j < self.seen().len() implies self.seen()[j] != id@ by {
            assert(self.seen()[j] == self.processed_transactions@[j]@);
        }
        false
    }
    /// Count and amount of the user's entries in the window of `transaction`,
    /// over the history before it.
    fn window_totals(&self, transaction: &Transaction) -> (r: (usize, i128))
        ensures
            r.0 == recent_count(self.config(), self.history(), *transaction),
            r.1 == window_sum(
                self.history(),
                transaction.user_id@,
                window_start(self.config(), transaction.timestamp),
            ),
            r.0 <= self.history().len(),
            -(self.history().len() as int) * 0x8000_0000_0000_0000 <= r.1 <= (
            self.history().len() as int) * 0x8000_0000_0000_0000,
    {
        let ghost h = self.history();
        let ghost user = transaction.user_id@;
        let start: i128 = transaction.timestamp as i128 - (
        self.config.velocity_check_window_minutes as i128) * 60_000;
        let ghost gs = window_start(self.config(), transaction.timestamp);
        assert(start == gs);
        let mut count: usize = 0;
        let mut sum: i128 = 0;
        let mut i: usize = 0;
        while i < self.transaction_history.len()
            invariant
                h == self.history(),
                user == transaction.user_id@,
                start == gs,
                i <= h.len(),
                count == window_count(h.subrange(0, i as int), user, gs),
                count <= i,
                sum == window_sum(h.subrange(0, i as int), user, gs),
                -(i as int) * 0x8000_0000_0000_0000 <= sum <= (i as int) * 0x8000_0000_0000_0000,
            decreases h.len() - i,
        {
            let e = &self.transaction_history[i];
            assert(h.subrange(0, i + 1).drop_last() =~= h.subrange(0, i as int));
            if e.user_id == transaction.user_id && e.timestamp as i128 >= start {
                count = count + 1;
                sum = sum + e.amount as i128;
            }
            i = i + 1;
        }
        assert(h.subrange(0, h.len() as int) =~= h);
        (count, sum)
    }

    /// The velocity sub-score, the violation if any, and the warnings.
    fn check_velocity(&self, transaction: &Transaction) -> (r: (u8, Option<ValidationError>, Vec<String>))
        ensures
            r.0 == velocity_risk_of(self.config(), self.history(), *transaction),
            r.1 is Some == velocity_violation(
                self.config(),
                recent_count(self.config(), self.history(), *transaction),
                recent_total(self.config(), self.history(), *transaction),
            ),
            r.1 matches Some(e) ==> e is VelocityViolation,
            r.2@.len() == velocity_warning_count(
                self.config(),
                recent_count(self.config(), self.history(), *transaction),
                recent_total(self.config(), self.history(), *transaction),
            ),
    {
        let (count, sum) = self.window_totals(transaction);
        let n = self.transaction_history.len();
        assert(n == self.history().len());
        let total: i128 = sum + transaction.amount as i128;
        let max_count = self.config.max_transactions_per_window;
        let max_amount = self.config.max_amount_per_window as i128;
        let window = self.config.velocity_check_window_minutes as i128;
        let mut risk: u8 = 0;
        let mut error: Option<ValidationError> = None;
        let mut warnings: Vec<String> = Vec::new();
        if count >= max_count {
            risk = 30;
            error = Some(
                ValidationError::VelocityViolation(
                    message_with(
                        "Too many transactions: ",
                        count as i128 + 1,
                        " in window of ",
                    ).concat(int_to_text(window).as_str()).concat(" minutes"),
                ),
            );
        } else if count >= max_count / 2 {
            risk = 15;
            warnings.push(
                message_with(
                    "High transaction velocity: ",
                    count as i128 + 1,
                    " transactions in window",
                ),
            );
        }
        // Four times the total against three times the limit; a product
        // that overflows is beyond any limit, by its sign.
        let three_quarters: bool = match total.checked_mul(4) {
            Some(t4) => t4 >= 3 * max_amount,
            None => total > 0,
        };
        if total >= max_amount {
            risk = risk + 25;
            error = Some(
                ValidationError::VelocityViolation(
                    message_with2("Total amount ", total, " exceeds window limit ", max_amount),
                ),
            );
        } else if three_quarters {
            risk = risk + 10;
            warnings.push(message_with2("Approaching amount limit: ", total, " of ", max_amount));
        }
        (risk, error, warnings)
    }

    /// The pipeline's own pattern pass: score and warnings.
    fn check_fraud_patterns(&self, transaction: &Transaction) -> (r: (u8, Vec<String>))
        ensures
            r.0 == pattern_risk_of(*transaction),
            r.1@.map_values(|w: String| w@) == pattern_warnings(*transaction),
    {
        let mut score: u8 = 0;
        let mut warnings: Vec<String> = Vec::new();
        let amount = transaction.amount;
        let ghost t = *transaction;
        let ghost w0 = opt_push(Seq::empty(), is_round_amount(amount), "Large round number transaction"@);
        let ghost w1 = opt_push(w0, amount > 5_000_000, "High-value transaction requires review"@);
        let ghost w2 = opt_push(w1, t.transaction_type == TransactionType::WireTransfer, "Wire transfer flagged for review"@);
        if amount % 100_000 == 0 && amount >= 1_000_000 {
            score = score + 20;
            warnings.push("Large round number transaction".to_owned());
        }
        assert(warnings@.map_values(|w: String| w@) =~= w0);
        if amount > 5_000_000 {
            score = score + 30;
            warnings.push("High-value transaction requires review".to_owned());
        }
        assert(warnings@.map_values(|w: String| w@) =~= w1);
        if transaction.transaction_type == TransactionType::WireTransfer {
            score = score + 15;
            warnings.push("Wire transfer flagged for review".to_owned());
        }
        assert(warnings@.map_values(|w: String| w@) =~= w2);
        let m = time_of_day(transaction.timestamp);
        if !(6 * 3_600_000 <= m && m <= 22 * 3_600_000) {
            score = score + 10;
            warnings.push("Transaction outside business hours".to_owned());
        }
        assert(warnings@.map_values(|w: String| w@) =~= pattern_warnings(t));
        (score, warnings)
    }

    /// The compliance hook. It stands in for an outside AML service; this
    /// library's hook passes every transaction.
    fn check_aml_compliance(&self, transaction: &Transaction) -> (r: bool)
        ensures
            r == aml_check_passes(*transaction),
    {
        true
    }

    fn check_business_rules(&self, transaction: &Transaction) -> (r: Result<(), ValidationError>)
        ensures
            r is Err == business_invalid(*transaction),
            r matches Err(e) ==> e is BusinessRuleViolation,
    {
        let kind = transaction.transaction_type;
        if kind == TransactionType::Transfer && (transaction.from_account.is_none()
            || transaction.to_account.is_none()) {
            return Err(
                ValidationError::BusinessRuleViolation(
                    "Transfers must specify both from and to accounts".to_owned(),
                ),
            );
        }
        if kind == TransactionType::Deposit && transaction.to_account.is_none() {
            return Err(
                ValidationError::BusinessRuleViolation("Deposits must specify to_account".to_owned()),
            );
        }
        if kind == TransactionType::Withdrawal && transaction.from_account.is_none() {
            return Err(
                ValidationError::BusinessRuleViolation(
                    "Withdrawals must specify from_account".to_owned(),
                ),
            );
        }
        Ok(())
    }
    /// Validates one transaction. Every check runs; every violation is an
    /// error in the record, and the record is valid when there is none.
    /// The id is recorded as seen (duplicate check on) and the transaction
    /// appended to the history, whatever the checks find.
    pub fn validate(&mut self, transaction: &Transaction) -> (r: ValidationResult)
        ensures
            validation_step(*old(self), *transaction, *final(self), r),
    {
        let ghost pre = *self;
        let ghost c = self.config();
        let ghost h = self.history();
        let ghost seen0 = self.seen();
        let ghost t = *transaction;
        let mut errors: Vec<ValidationError> = Vec::new();
        let mut warnings: Vec<String> = Vec::new();
        let mut compliance_checks: Vec<(String, bool)> = Vec::new();
        let mut risk_breakdown = RiskBreakdown::new();

        let ghost k0 = opt_push_kind(Seq::empty(), amount_invalid(c, t.amount), 0);
        if let Err(e) = self.validate_amount(transaction) {
            errors.push(e);
        }
        assert(error_kinds(errors@) =~= k0);
        assert(amount_errors_name(errors@, c, t.amount));
        risk_breakdown.amount_risk = self.calculate_amount_risk(transaction.amount);

        let ghost k1 = opt_push_kind(k0, accounts_invalid(t), 1);
        if let Err(e) = self.validate_accounts(transaction) {
            errors.push(e);
        }
        assert(error_kinds(errors@) =~= k1);
        assert(amount_errors_name(errors@, c, t.amount));

        let ghost k2 = opt_push_kind(k1, is_duplicate(c, seen0, t.transaction_id@), 2);
        let ghost before_dup = errors@;
        if self.config.enable_duplicate_check {
            if self.has_seen(&transaction.transaction_id) {
                errors.push(ValidationError::DuplicateTransaction(transaction.transaction_id.clone()));
            } else {
                self.processed_transactions.push(transaction.transaction_id.clone());
                assert(self.seen() =~= seen0.push(t.transaction_id@));
            }
        }
        assert(error_kinds(errors@) =~= k2);
        assert(amount_errors_name(errors@, c, t.amount));
        assert(self.seen() == seen_after(c, seen0, t.transaction_id@));

        let ghost k3 = opt_push_kind(
            k2,
            velocity_violation(c, recent_count(c, h, t), recent_total(c, h, t)),
            6,
        );
        let ghost before_velocity = errors@;
        let (velocity_risk, velocity_error, mut velocity_warnings) = self.check_velocity(transaction);
        risk_breakdown.velocity_risk = velocity_risk;
        if let Some(e) = velocity_error {
            errors.push(e);
        }
        assert(error_kinds(errors@) =~= k3);
        assert(amount_errors_name(errors@, c, t.amount));
        warnings.append(&mut velocity_warnings);
        let ghost vw = warnings@.len();

        self.transaction_history.push(
            TransactionHistory {
                user_id: transaction.user_id.clone(),
                timestamp: transaction.timestamp,
                amount: transaction.amount,
            },
        );

        let (pattern_risk, mut pattern_warns) = self.check_fraud_patterns(transaction);
        risk_breakdown.pattern_risk = pattern_risk;
        let ghost pw = pattern_warns@;
        warnings.append(&mut pattern_warns);
        assert(warnings@.subrange(vw as int, warnings@.len() as int) =~= pw);

        risk_breakdown.time_risk = self.calculate_time_risk(transaction.timestamp);
        risk_breakdown.calculate_total();
        let fraud_score = risk_breakdown.total_score;
        assert(fraud_score == total_of(c, h, t));

        if self.config.enable_aml_check {
            let aml_ok = self.check_aml_compliance(transaction);
            compliance_checks.push(("AML".to_owned(), aml_ok));
            if !aml_ok {
                errors.push(
                    ValidationError::ComplianceFailed("AML compliance check failed".to_owned()),
                );
            }
        }
        let ghost kc = opt_push_kind(k3, c.enable_aml_check && !aml_check_passes(t), 4);
        assert(error_kinds(errors@) =~= kc);
        assert(amount_errors_name(errors@, c, t.amount));

        let ghost k4 = opt_push_kind(kc, business_invalid(t), 5);
        let ghost before_rules = errors@;
        if let Err(e) = self.check_business_rules(transaction) {
            errors.push(e);
        }
        assert(error_kinds(errors@) =~= k4);
        assert(amount_errors_name(errors@, c, t.amount));

        let ghost before_threshold = errors@;
        if fraud_score > self.config.fraud_threshold {
            errors.push(
                ValidationError::RiskThresholdExceeded(
                    message_with2(
                        "Risk score ",
                        fraud_score as i128,
                        " exceeds threshold ",
                        self.config.fraud_threshold as i128,
                    ),
                ),
            );
        }
        assert(error_kinds(errors@) =~= expected_error_kinds(c, seen0, h, t, total_of(c, h, t)));
        assert(amount_errors_name(errors@, c, t.amount));
        assert forall|i: int|
            0 <= i < errors@.len() && (#[trigger] errors@[i]) is DuplicateTransaction implies errors@[i]
                == ValidationError::DuplicateTransaction(t.transaction_id) by {
            assert(error_kinds(errors@)[i] == error_kind(errors@[i]));
            assert(error_kind(errors@[i]) == 2);
            if i < before_dup.len() {
                assert(error_kinds(before_dup)[i] == error_kinds(errors@)[i]);
            } else if i > before_dup.len() {
                assert(i >= before_velocity.len());
            }
        }
        proof {
            reveal_strlit("AML");
        }
        let is_valid = errors.len() == 0;
        ValidationResult {
            transaction_id: transaction.transaction_id.clone(),
            is_valid,
            errors,
            warnings,
            fraud_score,
            risk_breakdown,
            compliance_checks,
            validated_at: now_millis(),
        }
    }
    /// Validates a sequence of transactions in order; each call sees the
    /// state the previous ones left.
    pub fn validate_batch(&mut self, transactions: &[Transaction]) -> (r: Vec<ValidationResult>)
        ensures
            r@.len() == transactions@.len(),
            exists|states: Seq<TransactionValidator>|
                batch_run(*old(self), transactions@, *final(self), r@, states),
    {
        let ghost pre = *self;
        let ghost mut states: Seq<TransactionValidator> = seq![*self];
        let mut results: Vec<ValidationResult> = Vec::new();
        let mut i: usize = 0;
        while i < transactions.len()
            invariant
                i <= transactions@.len(),
                results@.len() == i,
                states.len() == i + 1,
                states[0] == pre,
                states[i as int] == *self,
                forall|j: int|
                    0 <= j < i ==> validation_step(
                        states[j],
                        transactions@[j],
                        states[j + 1],
                        #[trigger] results@[j],
                    ),
            decreases transactions@.len() - i,
        {
            let result = self.validate(&transactions[i]);
            results.push(result);
            proof {
                states = states.push(*self);
            }
            i = i + 1;
        }
        assert(batch_run(pre, transactions@, *self, results@, states));
        results
    }

    /// Counters of the validator's state.
    pub fn get_stats(&self) -> (r: ValidatorStats)
        ensures
            r.total_processed == self.seen().len(),
            r.total_transactions_in_history == self.history().len(),
    {
        ValidatorStats {
            total_processed: self.processed_transactions.len(),
            total_transactions_in_history: self.transaction_history.len(),
        }
    }

    /// Drops the history entries older than `before`.
    pub fn clear_old_history(&mut self, before: i64)
        ensures
            final(self).history() == kept_history(old(self).history(), before),
            final(self).config() == old(self).config(),
            final(self).seen() == old(self).seen(),
    {
        let ghost h = self.history();
        let mut kept: Vec<TransactionHistory> = Vec::new();
        let mut i: usize = 0;
        while i < self.transaction_history.len()
            invariant
                h == self.history(),
                i <= h.len(),
                kept@ == kept_history(h.subrange(0, i as int), before),
            decreases h.len() - i,
        {
            let e = &self.transaction_history[i];
            proof {
                reveal(Seq::filter);
            }
            assert(h.subrange(0, i + 1).drop_last() =~= h.subrange(0, i as int));
            if e.timestamp >= before {
                kept.push(
                    TransactionHistory {
                        user_id: e.user_id.clone(),
                        timestamp: e.timestamp,
                        amount: e.amount,
                    },
                );
            }
            i = i + 1;
        }
        assert(h.subrange(0, h.len() as int) =~= h);
        self.transaction_history = kept;
    }
}

impl Default for TransactionValidator {
    /// The same as `new`.
    fn default() -> (v: Self)
        ensures
            v.config().max_transaction_amount == 100_000_000,
            v.config().min_transaction_amount == 1,
            v.config().fraud_threshold == 70,
            v.config().enable_duplicate_check,
            v.config().enable_aml_check,
            v.config().velocity_check_window_minutes == 60,
            v.config().max_transactions_per_window == 10,
            v.config().max_amount_per_window == 10_000_000,
            v.seen().len() == 0,
            v.history().len() == 0,
    {
        TransactionValidator::new()
    }
}

proof fn lemma_kinds_contain(es: Seq<ValidationError>, ks: Seq<nat>, k: nat) -> (i: int)
    requires
        error_kinds(es) == ks,
        ks.contains(k),
    ensures
        0 <= i < es.len(),
        error_kind(es[i]) == k,
{
    let i = choose|i: int| 0 <= i < ks.len() && ks[i] == k;
    assert(error_kinds(es)[i] == error_kind(es[i]));
    i
}

/// A validation of a transaction whose amount is zero or negative is
/// invalid and reports an invalid-amount error.
pub proof fn lemma_nonpositive_amount_invalid(
    pre: TransactionValidator,
    t: Transaction,
    post: TransactionValidator,
    r: ValidationResult,
)
    requires
        validation_step(pre, t, post, r),
        t.amount <= 0,
    ensures
        !r.is_valid,
        exists|i: int| 0 <= i < r.errors@.len() && (#[trigger] r.errors@[i]) is InvalidAmount,
{
    let c = pre.config();
    let ks = expected_error_kinds(c, pre.seen(), pre.history(), t, total_of(c, pre.history(), t));
    let k0 = opt_push_kind(Seq::empty(), amount_invalid(c, t.amount), 0);
    assert(k0[0] == 0);
    assert(ks[0] == 0);
    let i = lemma_kinds_contain(r.errors@, ks, 0);
}

/// Validating a transaction id a second time, with the duplicate check on,
/// makes the second validation invalid with a duplicate error naming the
/// id, whether or not the first was valid.
pub proof fn lemma_second_submission_duplicate(
    v0: TransactionValidator,
    t1: Transaction,
    v1: TransactionValidator,
    r1: ValidationResult,
    t2: Transaction,
    v2: TransactionValidator,
    r2: ValidationResult,
)
    requires
        validation_step(v0, t1, v1, r1),
        validation_step(v1, t2, v2, r2),
        t1.transaction_id@ == t2.transaction_id@,
        v0.config().enable_duplicate_check,
    ensures
        !r2.is_valid,
        exists|i: int|
            0 <= i < r2.errors@.len() && #[trigger] r2.errors@[i]
                == ValidationError::DuplicateTransaction(t2.transaction_id),
{
    let c = v1.config();
    let id = t2.transaction_id@;
    let seen0 = v0.seen();
    if !seen0.contains(id) {
        assert(v1.seen() == seen0.push(id));
        assert(v1.seen()[seen0.len() as int] == id);
    }
    assert(v1.seen().contains(id));
    let h = v1.history();
    let ks = expected_error_kinds(c, v1.seen(), h, t2, total_of(c, h, t2));
    let k0 = opt_push_kind(Seq::empty(), amount_invalid(c, t2.amount), 0);
    let k1 = opt_push_kind(k0, accounts_invalid(t2), 1);
    let k2 = opt_push_kind(k1, is_duplicate(c, v1.seen(), id), 2);
    assert(k2[k2.len() - 1] == 2);
    assert(ks.subrange(0, k2.len() as int) =~= k2);
    assert(ks[k2.len() - 1] == 2);
    let i = lemma_kinds_contain(r2.errors@, ks, 2);
    assert(r2.errors@[i] is DuplicateTransaction);
}

/// A multiple of 1,000.00 of at least 10,000.00 always adds the round-amount
/// pattern: 20 to the pattern score and its warning.
pub proof fn lemma_round_amount_flagged(
    pre: TransactionValidator,
    t: Transaction,
    post: TransactionValidator,
    r: ValidationResult,
)
    requires
        validation_step(pre, t, post, r),
        t.amount % 100_000 == 0,
        t.amount >= 1_000_000,
    ensures
        r.risk_breakdown.pattern_risk >= 20,
        exists|i: int|
            0 <= i < r.warnings@.len() && (#[trigger] r.warnings@[i])@
                == "Large round number transaction"@,
{
    let c = pre.config();
    let h = pre.history();
    let vw = velocity_warning_count(c, recent_count(c, h, t), recent_total(c, h, t));
    let pw = pattern_warnings(t);
    let w0 = opt_push(Seq::empty(), is_round_amount(t.amount), "Large round number transaction"@);
    assert(w0[0] == "Large round number transaction"@);
    assert(pw[0] == w0[0]);
    let tail = r.warnings@.subrange(vw, r.warnings@.len() as int);
    assert(tail.map_values(|w: String| w@)[0] == tail[0]@);
    assert(r.warnings@[vw] == tail[0]);
}

/// The user's entries in the window, after one more is appended.
proof fn lemma_window_count_push(
    h: Seq<TransactionHistory>,
    e: TransactionHistory,
    user: Seq<char>,
    start: int,
)
    ensures
        window_count(h.push(e), user, start) == window_count(h, user, start) + if in_window(
            e,
            user,
            start,
        ) {
            1nat
        } else {
            0
        },
{
    assert(h.push(e).drop_last() =~= h);
}

/// After a run of validations, the history is the one before with an
/// entry per transaction; the configuration stays.
proof fn lemma_run_history(
    pre: TransactionValidator,
    ts: Seq<Transaction>,
    post: TransactionValidator,
    rs: Seq<ValidationResult>,
    states: Seq<TransactionValidator>,
    k: int,
    user: Seq<char>,
    start: int,
)
    requires
        batch_run(pre, ts, post, rs, states),
        0 <= k <= ts.len(),
        forall|i: int| 0 <= i < k ==> in_window(entry_of(#[trigger] ts[i]), user, start),
    ensures
        states[k].config() == pre.config(),
        window_count(states[k].history(), user, start) >= k,
    decreases k,
{
    if k > 0 {
        lemma_run_history(pre, ts, post, rs, states, k - 1, user, start);
        assert(validation_step(states[k - 1], ts[k - 1], states[k], rs[k - 1]));
        lemma_window_count_push(states[k - 1].history(), entry_of(ts[k - 1]), user, start);
    }
}

/// A user who submits as many transactions as the window allows, all
/// within the window of one more, gets a velocity violation and a nonzero
/// velocity score on that one more.
pub proof fn lemma_velocity_limit_reached(
    pre: TransactionValidator,
    ts: Seq<Transaction>,
    post: TransactionValidator,
    rs: Seq<ValidationResult>,
    states: Seq<TransactionValidator>,
)
    requires
        batch_run(pre, ts, post, rs, states),
        ts.len() == pre.config().max_transactions_per_window + 1,
        forall|i: int|
            0 <= i < ts.len() - 1 ==> (#[trigger] ts[i]).user_id@ == ts[ts.len() - 1].user_id@
                && ts[i].timestamp >= window_start(pre.config(), ts[ts.len() - 1].timestamp),
    ensures
        rs[ts.len() - 1].risk_breakdown.velocity_risk >= 30,
        !rs[ts.len() - 1].is_valid,
        exists|i: int|
            0 <= i < rs[ts.len() - 1].errors@.len() && (#[trigger] rs[
                ts.len() - 1
            ].errors@[i]) is VelocityViolation,
{
    let n = ts.len() - 1;
    let last = ts[n];
    let c = pre.config();
    let user = last.user_id@;
    let start = window_start(c, last.timestamp);
    assert forall|i: int| 0 <= i < n implies in_window(entry_of(#[trigger] ts[i]), user, start) by {
    }
    lemma_run_history(pre, ts, post, rs, states, n, user, start);
    assert(validation_step(states[n], last, states[n + 1], rs[n]));
    let h = states[n].history();
    assert(recent_count(c, h, last) >= c.max_transactions_per_window);
    let ks = expected_error_kinds(c, states[n].seen(), h, last, total_of(c, h, last));
    let k0 = opt_push_kind(Seq::empty(), amount_invalid(c, last.amount), 0);
    let k1 = opt_push_kind(k0, accounts_invalid(last), 1);
    let k2 = opt_push_kind(k1, is_duplicate(c, states[n].seen(), last.transaction_id@), 2);
    let k3 = opt_push_kind(k2, true, 6);
    assert(ks.subrange(0, k3.len() as int) =~= k3);
    assert(ks[k3.len() - 1] == 6);
    let i = lemma_kinds_contain(rs[n].errors@, ks, 6);
    assert(rs[n].errors@[i] is VelocityViolation);
}

} // verus!

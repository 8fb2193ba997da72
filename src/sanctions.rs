//! Sanctions screening of names against the entries of the enabled lists.
//! Confidence is in basis points: 10,000 is certainty.

use crate::aml_compliance::{contains_text, occurs_in};
use crate::text::{int_text, int_to_text};
use crate::bindings::{now_millis, split_words, to_upper, upper_of, whitespace_words};
use crate::geographic_risk::copy_opt_string;
use vstd::prelude::*;

verus! {

/// A sanctions list.
#[derive(Debug, Clone, Eq, Hash)]
pub enum SanctionsList {
    /// US Office of Foreign Assets Control.
    OFAC,
    /// European Union.
    EU,
    /// United Nations.
    UN,
    /// UK Office of Financial Sanctions Implementation.
    UKOFSI,
    /// A list of the caller's own.
    Custom(String),
}

/// Two lists are the same: the same kind, and for custom lists the same name.
pub open spec fn same_list(a: SanctionsList, b: SanctionsList) -> bool {
    match (a, b) {
        (SanctionsList::OFAC, SanctionsList::OFAC) => true,
        (SanctionsList::EU, SanctionsList::EU) => true,
        (SanctionsList::UN, SanctionsList::UN) => true,
        (SanctionsList::UKOFSI, SanctionsList::UKOFSI) => true,
        (SanctionsList::Custom(x), SanctionsList::Custom(y)) => x@ == y@,
        _ => false,
    }
}

impl PartialEq for SanctionsList {
    fn eq(&self, other: &SanctionsList) -> (r: bool) {
        match (self, other) {
            (SanctionsList::OFAC, SanctionsList::OFAC) => true,
            (SanctionsList::EU, SanctionsList::EU) => true,
            (SanctionsList::UN, SanctionsList::UN) => true,
            (SanctionsList::UKOFSI, SanctionsList::UKOFSI) => true,
            (SanctionsList::Custom(x), SanctionsList::Custom(y)) => String::eq(x, y),
            _ => false,
        }
    }
}

impl vstd::std_specs::cmp::PartialEqSpecImpl for SanctionsList {
    open spec fn obeys_eq_spec() -> bool {
        true
    }

    open spec fn eq_spec(&self, other: &SanctionsList) -> bool {
        same_list(*self, *other)
    }
}

/// Display name of a list.
pub open spec fn list_name(l: SanctionsList) -> Seq<char> {
    match l {
        SanctionsList::OFAC => "OFAC SDN"@,
        SanctionsList::EU => "EU Consolidated"@,
        SanctionsList::UN => "UN Security Council"@,
        SanctionsList::UKOFSI => "UK OFSI"@,
        SanctionsList::Custom(name) => name@,
    }
}

impl SanctionsList {
    /// The list's display name; a custom list's own name.
    pub fn name(&self) -> (r: &str)
        ensures
            r@ == list_name(*self),
    {
        match self {
            SanctionsList::OFAC => "OFAC SDN",
            SanctionsList::EU => "EU Consolidated",
            SanctionsList::UN => "UN Security Council",
            SanctionsList::UKOFSI => "UK OFSI",
            SanctionsList::Custom(name) => name.as_str(),
        }
    }
}

/// How a screened name matched an entry.
#[derive(Debug, Clone, Copy, PartialEq, Eq, Structural)]
pub enum MatchType {
    Exact,
    Partial,
    Fuzzy,
    Alias,
}

/// Characters of `s1`, counted with repetition, that occur in `s2`.
pub open spec fn chars_shared(s1: Seq<char>, s2: Seq<char>) -> nat
    decreases s1.len(),
{
    if s1.len() == 0 {
        0
    } else {
        chars_shared(s1.drop_last(), s2) + if s2.contains(s1.last()) {
            1nat
        } else {
            0
        }
    }
}

/// The words of `ws` without repeats, each where it first occurs.
pub open spec fn distinct_words(ws: Seq<Seq<char>>) -> Seq<Seq<char>>
    decreases ws.len(),
{
    if ws.len() == 0 {
        ws
    } else {
        let d = distinct_words(ws.drop_last());
        if d.contains(ws.last()) {
            d
        } else {
            d.push(ws.last())
        }
    }
}

/// Words of `d1` that also occur in `d2`.
pub open spec fn words_shared(d1: Seq<Seq<char>>, d2: Seq<Seq<char>>) -> nat {
    d1.filter(|w: Seq<char>| d2.contains(w)).len()
}

/// Words of `d2` that do not occur in `d1`.
pub open spec fn words_apart(d1: Seq<Seq<char>>, d2: Seq<Seq<char>>) -> nat {
    d2.filter(|w: Seq<char>| !d1.contains(w)).len()
}

pub open spec fn max_nat(a: nat, b: nat) -> nat {
    if a >= b {
        a
    } else {
        b
    }
}

pub open spec fn min_nat(a: nat, b: nat) -> nat {
    if a <= b {
        a
    } else {
        b
    }
}

/// Similarity of two names, in basis points: 40% the share of characters
/// of the first found in the second (over the longer length), 60% the share
/// of distinct words in common (over the distinct words of both), each
/// rounded down; 0 when either name is empty.
pub open spec fn similarity(s1: Seq<char>, s2: Seq<char>) -> int {
    if s1.len() == 0 || s2.len() == 0 {
        0
    } else {
        let m = max_nat(s1.len(), s2.len());
        let d1 = distinct_words(whitespace_words(s1));
        let d2 = distinct_words(whitespace_words(s2));
        let common = words_shared(d1, d2);
        let total = d1.len() + words_apart(d1, d2);
        let chars_part = (4000 * chars_shared(s1, s2) / m) as int;
        let words_part = if total > 0 {
            (6000 * common / total) as int
        } else {
            0
        };
        chars_part + words_part
    }
}

/// Confidence of a partial match: 70% plus 20% of the shorter length over
/// the longer, rounded down.
pub open spec fn partial_confidence(s1: Seq<char>, s2: Seq<char>) -> int {
    7000 + (2000 * min_nat(s1.len(), s2.len()) / max_nat(s1.len(), s2.len())) as int
}

proof fn lemma_chars_shared_bound(s1: Seq<char>, s2: Seq<char>)
    ensures
        chars_shared(s1, s2) <= s1.len(),
    decreases s1.len(),
{
    if s1.len() > 0 {
        lemma_chars_shared_bound(s1.drop_last(), s2);
    }
}

pub open spec fn views_of(v: Seq<String>) -> Seq<Seq<char>> {
    v.map_values(|w: String| w@)
}

fn char_in(s: &str, c: char) -> (r: bool)
    ensures
        r == s@.contains(c),
{
    let n = s.unicode_len();
    let mut i: usize = 0;
    while i < n
        invariant
            n == s@.len(),
            i <= n,
            forall|k: int| 0 <= k < i ==> s@[k] != c,
        decreases n - i,
    {
        if s.get_char(i) == c {
            return true;
        }
        i = i + 1;
    }
    false
}

fn count_shared_chars(s1: &str, s2: &str) -> (r: usize)
    ensures
        r == chars_shared(s1@, s2@),
{
    let n = s1.unicode_len();
    let mut count: usize = 0;
    let mut i: usize = 0;
    while i < n
        invariant
            n == s1@.len(),
            i <= n,
            count == chars_shared(s1@.subrange(0, i as int), s2@),
            count <= i,
        decreases n - i,
    {
        assert(s1@.subrange(0, i + 1).drop_last() =~= s1@.subrange(0, i as int));
        if char_in(s2, s1.get_char(i)) {
            count = count + 1;
        }
        i = i + 1;
    }
    assert(s1@.subrange(0, n as int) =~= s1@);
    count
}

fn word_in(v: &Vec<String>, w: &String) -> (r: bool)
    ensures
        r == views_of(v@).contains(w@),
{
    let mut i: usize = 0;
    while i < v.len()
        invariant
            i <= v@.len(),
            forall|k: int| 0 <= k < i ==> v@[k]@ != w@,
        decreases v@.len() - i,
    {
        if v[i] == *w {
            assert(views_of(v@)[i as int] == w@);
            return true;
        }
        i = i + 1;
    }
    assert forall|k: int| 0 <= k < views_of(v@).len() implies views_of(v@)[k] != w@ by {
        assert(views_of(v@)[k] == v@[k]@);
    }
    false
}

fn distinct(ws: &Vec<String>) -> (r: Vec<String>)
    ensures
        views_of(r@) == distinct_words(views_of(ws@)),
{
    let ghost vs = views_of(ws@);
    let mut d: Vec<String> = Vec::new();
    let mut i: usize = 0;
    while i < ws.len()
        invariant
            vs == views_of(ws@),
            i <= ws@.len(),
            views_of(d@) == distinct_words(vs.subrange(0, i as int)),
        decreases ws@.len() - i,
    {
        assert(vs.subrange(0, i + 1).drop_last() =~= vs.subrange(0, i as int));
        assert(vs[i as int] == ws@[i as int]@);
        if !word_in(&d, &ws[i]) {
            let ghost before = views_of(d@);
            d.push(ws[i].clone());
            assert(views_of(d@) =~= before.push(vs[i as int]));
        }
        i = i + 1;
    }
    assert(vs.subrange(0, vs.len() as int) =~= vs);
    d
}

/// How many words of `d1` occur in `d2` (`inside`), or do not (`!inside`).
fn count_words(d1: &Vec<String>, d2: &Vec<String>, inside: bool) -> (r: usize)
    ensures
        inside ==> r == views_of(d1@).filter(|w: Seq<char>| views_of(d2@).contains(w)).len(),
        !inside ==> r == views_of(d1@).filter(|w: Seq<char>| !views_of(d2@).contains(w)).len(),
{
    let ghost vs = views_of(d1@);
    let ghost other = views_of(d2@);
    let mut count: usize = 0;
    let mut i: usize = 0;
    while i < d1.len()
        invariant
            vs == views_of(d1@),
            other == views_of(d2@),
            i <= d1@.len(),
            count <= i,
            inside ==> count == vs.subrange(0, i as int).filter(|w: Seq<char>| other.contains(w)).len(),
            !inside ==> count == vs.subrange(0, i as int).filter(|w: Seq<char>| !other.contains(w)).len(),
        decreases d1@.len() - i,
    {
        proof {
            reveal(Seq::filter);
        }
        assert(vs.subrange(0, i + 1).drop_last() =~= vs.subrange(0, i as int));
        assert(vs[i as int] == d1@[i as int]@);
        let found = word_in(d2, &d1[i]);
        if found == inside {
            count = count + 1;
        }
        i = i + 1;
    }
    assert(vs.subrange(0, vs.len() as int) =~= vs);
    count
}

/// Similarity of two names, in basis points.
pub fn similarity_bp(s1: &str, s2: &str) -> (r: u16)
    ensures
        r == similarity(s1@, s2@),
        r <= 10_000,
{
    let n1 = s1.unicode_len();
    let n2 = s2.unicode_len();
    if n1 == 0 || n2 == 0 {
        return 0;
    }
    let m = if n1 >= n2 {
        n1
    } else {
        n2
    };
    let common_chars = count_shared_chars(s1, s2);
    proof {
        lemma_chars_shared_bound(s1@, s2@);
    }
    let w1 = split_words(s1);
    let w2 = split_words(s2);
    let d1 = distinct(&w1);
    let d2 = distinct(&w2);
    assert(views_of(w1@) == whitespace_words(s1@));
    assert(views_of(w2@) == whitespace_words(s2@));
    let common = count_words(&d1, &d2, true);
    let apart = count_words(&d2, &d1, false);
    proof {
        views_of(d1@).lemma_filter_len(|w: Seq<char>| views_of(d2@).contains(w));
        views_of(d2@).lemma_filter_len(|w: Seq<char>| !views_of(d1@).contains(w));
    }
    let total = d1.len() as u128 + apart as u128;
    let chars_part = (4000 * common_chars as u128) / m as u128;
    assert(chars_part <= 4000) by (nonlinear_arith)
        requires
            chars_part as int == (4000 * common_chars as int) / (m as int),
            common_chars <= m,
            m > 0,
    ;
    let words_part = if total > 0 {
        let wp = (6000 * common as u128) / total;
        assert(wp <= 6000) by (nonlinear_arith)
            requires
                wp as int == (6000 * common as int) / (total as int),
                common <= total,
                total > 0,
        ;
        wp
    } else {
        0
    };
    (chars_part + words_part) as u16
}

/// Confidence of a partial match, in basis points.
pub fn partial_confidence_bp(s1: &str, s2: &str) -> (r: u16)
    requires
        s1@.len() > 0 || s2@.len() > 0,
    ensures
        r == partial_confidence(s1@, s2@),
{
    let n1 = s1.unicode_len();
    let n2 = s2.unicode_len();
    let (lo, hi) = if n1 <= n2 {
        (n1, n2)
    } else {
        (n2, n1)
    };
    let part = (2000 * lo as u128) / hi as u128;
    assert(part <= 2000) by (nonlinear_arith)
        requires
            part as int == (2000 * lo as int) / (hi as int),
            lo <= hi,
            hi > 0,
    ;
    7000 + part as u16
}

/// One screening match.
#[derive(Debug, Clone)]
pub struct SanctionsMatch {
    pub matched_name: String,
    pub list: SanctionsList,
    pub match_type: MatchType,
    /// Basis points; 10,000 is certainty.
    pub confidence: u16,
    pub entry_id: String,
    pub program: Option<String>,
    pub country: Option<String>,
}

/// The outcome of screening one name.
#[derive(Debug, Clone)]
pub struct SanctionsResult {
    pub screened_value: String,
    pub is_match: bool,
    /// Highest confidence first; equal ones in the order found.
    pub matches: Vec<SanctionsMatch>,
    /// Milliseconds since the Unix epoch, UTC.
    pub screening_time: i64,
    pub lists_checked: Vec<SanctionsList>,
}

/// Confidence from which a match counts as high.
pub const HIGH_CONFIDENCE: u16 = 9000;

impl SanctionsResult {
    /// Whether some match has a confidence of 9,000 or more.
    pub fn has_high_confidence_match(&self) -> (r: bool)
        ensures
            r == exists|i: int|
                0 <= i < self.matches@.len() && (#[trigger] self.matches@[i]).confidence >= HIGH_CONFIDENCE,
    {
        let mut i: usize = 0;
        while i < self.matches.len()
            invariant
                i <= self.matches@.len(),
                forall|k: int| 0 <= k < i ==> (#[trigger] self.matches@[k]).confidence < HIGH_CONFIDENCE,
            decreases self.matches@.len() - i,
        {
            if self.matches[i].confidence >= HIGH_CONFIDENCE {
                return true;
            }
            i = i + 1;
        }
        false
    }

    /// A match of the highest confidence (the last such one), if any.
    pub fn highest_confidence(&self) -> (r: Option<&SanctionsMatch>)
        ensures
            r is None == (self.matches@.len() == 0),
            r matches Some(m) ==> exists|i: int|
                0 <= i < self.matches@.len() && (#[trigger] self.matches@[i]) == *m && forall|k: int|
                    0 <= k < self.matches@.len() ==> (#[trigger] self.matches@[k]).confidence <= m.confidence,
    {
        if self.matches.len() == 0 {
            return None;
        }
        let mut best: usize = 0;
        let mut i: usize = 1;
        while i < self.matches.len()
            invariant
                1 <= i <= self.matches@.len(),
                best < i,
                forall|k: int| 0 <= k < i ==> (#[trigger] self.matches@[k]).confidence <= self.matches@[best as int].confidence,
            decreases self.matches@.len() - i,
        {
            if self.matches[i].confidence >= self.matches[best].confidence {
                best = i;
            }
            i = i + 1;
        }
        Some(&self.matches[best])
    }

    /// The matches with a confidence of `threshold` or more, in order.
    pub fn matches_above_threshold(&self, threshold: u16) -> (r: Vec<&SanctionsMatch>)
        ensures
            r@.len() == self.matches@.filter(|m: SanctionsMatch| m.confidence >= threshold).len(),
            forall|k: int|
                0 <= k < r@.len() ==> *(#[trigger] r@[k]) == self.matches@.filter(
                    |m: SanctionsMatch| m.confidence >= threshold,
                )[k],
    {
        let ghost ms = self.matches@;
        let mut r: Vec<&SanctionsMatch> = Vec::new();
        let mut i: usize = 0;
        while i < self.matches.len()
            invariant
                ms == self.matches@,
                i <= ms.len(),
                r@.len() == ms.subrange(0, i as int).filter(|m: SanctionsMatch| m.confidence >= threshold).len(),
                forall|k: int|
                    0 <= k < r@.len() ==> *(#[trigger] r@[k]) == ms.subrange(0, i as int).filter(
                        |m: SanctionsMatch| m.confidence >= threshold,
                    )[k],
            decreases ms.len() - i,
        {
            proof {
                reveal(Seq::filter);
            }
            assert(ms.subrange(0, i + 1).drop_last() =~= ms.subrange(0, i as int));
            if self.matches[i].confidence >= threshold {
                r.push(&self.matches[i]);
            }
            i = i + 1;
        }
        assert(ms.subrange(0, ms.len() as int) =~= ms);
        r
    }
}

/// A listed entity.
#[derive(Debug, Clone)]
pub struct SanctionedEntity {
    pub id: String,
    pub name: String,
    pub aliases: Vec<String>,
    pub list: SanctionsList,
    pub program: Option<String>,
    pub country: Option<String>,
}

/// A candidate match: the entity's number, the kind, the confidence.
pub ghost struct Candidate {
    pub entity: int,
    pub match_type: MatchType,
    pub confidence: int,
}

/// Whether `list` is among the enabled lists.
pub open spec fn list_enabled(enabled: Seq<SanctionsList>, list: SanctionsList) -> bool {
    exists|i: int| 0 <= i < enabled.len() && same_list(#[trigger] enabled[i], list)
}

/// Some alias of the entity, upper-cased, equals `n`.
pub open spec fn alias_matches(aliases: Seq<String>, n: Seq<char>) -> bool {
    exists|i: int| 0 <= i < aliases.len() && upper_of((#[trigger] aliases[i])@) == n
}

/// Some candidate so far is of an entity with the id `id`.
pub open spec fn id_seen(es: Seq<SanctionedEntity>, acc: Seq<Candidate>, id: Seq<char>) -> bool {
    exists|j: int| 0 <= j < acc.len() && es[(#[trigger] acc[j]).entity].id@ == id
}

pub open spec fn cand(i: int, t: MatchType, c: int) -> Candidate {
    Candidate { entity: i, match_type: t, confidence: c }
}

/// The candidates after entity `i` is screened for `n`: an exact match
/// alone; else an alias match, a fuzzy match at or above `th`, and a
/// partial match (one name inside the other) unless the entity's id
/// already matched.
pub open spec fn entity_candidates(
    es: Seq<SanctionedEntity>,
    i: int,
    n: Seq<char>,
    th: int,
    enabled: Seq<SanctionsList>,
    acc: Seq<Candidate>,
) -> Seq<Candidate> {
    let e = es[i];
    if !list_enabled(enabled, e.list) {
        acc
    } else if e.name@ == n {
        acc.push(cand(i, MatchType::Exact, 10_000))
    } else {
        let a1 = if alias_matches(e.aliases@, n) {
            acc.push(cand(i, MatchType::Alias, 9_500))
        } else {
            acc
        };
        let a2 = if similarity(n, e.name@) >= th {
            a1.push(cand(i, MatchType::Fuzzy, similarity(n, e.name@)))
        } else {
            a1
        };
        if (occurs_in(n, e.name@) || occurs_in(e.name@, n)) && !id_seen(es, a2, e.id@) {
            a2.push(cand(i, MatchType::Partial, partial_confidence(n, e.name@)))
        } else {
            a2
        }
    }
}

/// The candidates of the first `k` entities, in entity order.
pub open spec fn candidates(
    es: Seq<SanctionedEntity>,
    k: int,
    n: Seq<char>,
    th: int,
    enabled: Seq<SanctionsList>,
) -> Seq<Candidate>
    decreases k,
{
    if k <= 0 {
        Seq::empty()
    } else {
        entity_candidates(es, k - 1, n, th, enabled, candidates(es, k - 1, n, th, enabled))
    }
}

/// Where `c` goes in a list sorted by decreasing confidence: after every
/// element of at least its confidence.
pub open spec fn slot(s: Seq<Candidate>, c: int) -> int
    decreases s.len(),
{
    if s.len() == 0 {
        0
    } else if s.last().confidence >= c {
        s.len() as int
    } else {
        slot(s.drop_last(), c)
    }
}

/// Sorting by decreasing confidence, keeping the order of equal ones.
pub open spec fn sorted_desc(s: Seq<Candidate>) -> Seq<Candidate>
    decreases s.len(),
{
    if s.len() == 0 {
        s
    } else {
        let r = sorted_desc(s.drop_last());
        r.insert(slot(r, s.last().confidence), s.last())
    }
}

/// `m` reports candidate `c` of the entities `es`.
pub open spec fn reports(m: SanctionsMatch, es: Seq<SanctionedEntity>, c: Candidate) -> bool {
    let e = es[c.entity];
    &&& 0 <= c.entity < es.len()
    &&& m.matched_name@ == e.name@
    &&& same_list(m.list, e.list)
    &&& m.match_type == c.match_type
    &&& m.confidence == c.confidence
    &&& m.entry_id@ == e.id@
    &&& m.program == e.program
    &&& m.country == e.country
}

/// A candidate as plain values.
pub open spec fn cand_of(t: (usize, MatchType, u16)) -> Candidate {
    cand(t.0 as int, t.1, t.2 as int)
}

/// A field-by-field copy of a list.
fn copy_list(l: &SanctionsList) -> (r: SanctionsList)
    ensures
        r == *l,
{
    match l {
        SanctionsList::OFAC => SanctionsList::OFAC,
        SanctionsList::EU => SanctionsList::EU,
        SanctionsList::UN => SanctionsList::UN,
        SanctionsList::UKOFSI => SanctionsList::UKOFSI,
        SanctionsList::Custom(name) => SanctionsList::Custom(name.clone()),
    }
}

fn entity(
    id: &str,
    name: &str,
    aliases: Vec<String>,
    list: SanctionsList,
    program: Option<String>,
    country: Option<String>,
) -> (r: SanctionedEntity)
    ensures
        r.id@ == id@,
        r.name@ == name@,
        r.aliases == aliases,
        r.list == list,
        r.program == program,
        r.country == country,
{
    SanctionedEntity { id: id.to_owned(), name: name.to_owned(), aliases, list, program, country }
}

/// Screens names against the entries of the enabled lists.
pub struct SanctionsScreener {
    entities: Vec<SanctionedEntity>,
    enabled_lists: Vec<SanctionsList>,
    fuzzy_threshold: u16,
}

/// The outcome `r` of screening `name` with the entries `es`, the enabled
/// lists `enabled` and the fuzzy threshold `th`.
pub open spec fn screened(
    es: Seq<SanctionedEntity>,
    enabled: Seq<SanctionsList>,
    th: int,
    name: Seq<char>,
    r: SanctionsResult,
) -> bool {
    let sorted = sorted_desc(candidates(es, es.len() as int, upper_of(name), th, enabled));
    &&& r.screened_value@ == name
    &&& r.matches@.len() == sorted.len()
    &&& forall|k: int| 0 <= k < sorted.len() ==> reports(#[trigger] r.matches@[k], es, sorted[k])
    &&& r.is_match == (r.matches@.len() > 0)
    &&& r.lists_checked@ == enabled
}

impl SanctionsScreener {
    /// The entries, in order of addition.
    pub closed spec fn entities(&self) -> Seq<SanctionedEntity> {
        self.entities@
    }

    /// The enabled lists, each once, in order of enabling.
    pub closed spec fn enabled(&self) -> Seq<SanctionsList> {
        self.enabled_lists@
    }

    /// The fuzzy-match threshold, in basis points.
    pub closed spec fn threshold(&self) -> int {
        self.fuzzy_threshold as int
    }

    /// A screener with three entries, one on each of the OFAC, EU and UN
    /// lists, those three lists enabled, and a fuzzy threshold of 8,500.
    pub fn new() -> (s: Self)
        ensures
            s.entities().len() == 3,
            s.entities()[0].name@ == "SANCTIONED ENTITY ONE"@,
            s.entities()[1].name@ == "RESTRICTED COMPANY EU"@,
            s.entities()[2].name@ == "UN LISTED ORGANIZATION"@,
            s.enabled() == seq![SanctionsList::OFAC, SanctionsList::EU, SanctionsList::UN],
            s.threshold() == 8_500,
    {
        let mut screener = SanctionsScreener { entities: Vec::new(), enabled_lists: Vec::new(), fuzzy_threshold: 8_500 };
        let mut enabled_lists: Vec<SanctionsList> = Vec::new();
        enabled_lists.push(SanctionsList::OFAC);
        enabled_lists.push(SanctionsList::EU);
        enabled_lists.push(SanctionsList::UN);
        assert(enabled_lists@ =~= seq![SanctionsList::OFAC, SanctionsList::EU, SanctionsList::UN]);
        screener.enabled_lists = enabled_lists;
        screener.load_default_entries();
        screener
    }

    /// Replaces the entries with the three built-in ones.
    fn load_default_entries(&mut self)
        ensures
            final(self).entities().len() == 3,
            final(self).entities()[0].name@ == "SANCTIONED ENTITY ONE"@,
            final(self).entities()[1].name@ == "RESTRICTED COMPANY EU"@,
            final(self).entities()[2].name@ == "UN LISTED ORGANIZATION"@,
            final(self).enabled() == old(self).enabled(),
            final(self).threshold() == old(self).threshold(),
    {
        let mut entities: Vec<SanctionedEntity> = Vec::new();
        entities.push(
            entity(
                "OFAC-001",
                "SANCTIONED ENTITY ONE",
                vec!["ENTITY ONE".to_owned(), "E1 LTD".to_owned()],
                SanctionsList::OFAC,
                Some("SDGT".to_owned()),
                Some("XX".to_owned()),
            ),
        );
        entities.push(
            entity(
                "EU-001",
                "RESTRICTED COMPANY EU",
                vec!["RC EU".to_owned()],
                SanctionsList::EU,
                Some("COUNCIL REGULATION".to_owned()),
                Some("YY".to_owned()),
            ),
        );
        entities.push(
            entity(
                "UN-001",
                "UN LISTED ORGANIZATION",
                vec!["ULO".to_owned()],
                SanctionsList::UN,
                Some("1267".to_owned()),
                None,
            ),
        );
        self.entities = entities;
    }

    fn is_enabled(&self, list: &SanctionsList) -> (r: bool)
        ensures
            r == list_enabled(self.enabled(), *list),
    {
        let mut i: usize = 0;
        while i < self.enabled_lists.len()
            invariant
                i <= self.enabled().len(),
                forall|k: int| 0 <= k < i ==> !same_list(self.enabled()[k], *list),
            decreases self.enabled().len() - i,
        {
            if self.enabled_lists[i] == *list {
                return true;
            }
            i = i + 1;
        }
        false
    }

    /// Enables a list, unless it is enabled already.
    pub fn enable_list(&mut self, list: SanctionsList)
        ensures
            final(self).enabled() == if list_enabled(old(self).enabled(), list) {
                old(self).enabled()
            } else {
                old(self).enabled().push(list)
            },
            final(self).entities() == old(self).entities(),
            final(self).threshold() == old(self).threshold(),
    {
        if !self.is_enabled(&list) {
            self.enabled_lists.push(list);
        }
    }

    /// Disables a list.
    pub fn disable_list(&mut self, list: &SanctionsList)
        ensures
            final(self).enabled() == old(self).enabled().filter(|l: SanctionsList| !same_list(l, *list)),
            final(self).entities() == old(self).entities(),
            final(self).threshold() == old(self).threshold(),
    {
        let ghost old_lists = self.enabled();
        let mut kept: Vec<SanctionsList> = Vec::new();
        let mut i: usize = 0;
        while i < self.enabled_lists.len()
            invariant
                old_lists == self.enabled(),
                i <= old_lists.len(),
                kept@ == old_lists.subrange(0, i as int).filter(|l: SanctionsList| !same_list(l, *list)),
            decreases old_lists.len() - i,
        {
            proof {
                reveal(Seq::filter);
            }
            assert(old_lists.subrange(0, i + 1).drop_last() =~= old_lists.subrange(0, i as int));
            if !(self.enabled_lists[i] == *list) {
                kept.push(copy_list(&self.enabled_lists[i]));
            }
            i = i + 1;
        }
        assert(old_lists.subrange(0, old_lists.len() as int) =~= old_lists);
        self.enabled_lists = kept;
    }

    /// Sets the fuzzy-match threshold, capped at 10,000.
    pub fn set_fuzzy_threshold(&mut self, threshold: u16)
        ensures
            final(self).threshold() == if threshold > 10_000 {
                10_000
            } else {
                threshold as int
            },
            final(self).entities() == old(self).entities(),
            final(self).enabled() == old(self).enabled(),
    {
        self.fuzzy_threshold = if threshold > 10_000 {
            10_000
        } else {
            threshold
        };
    }
}

impl SanctionsScreener {
    /// Whether some candidate so far is of an entity with the id `id`.
    fn id_among(&self, cands: &Vec<(usize, MatchType, u16)>, id: &String) -> (r: bool)
        requires
            forall|j: int| 0 <= j < cands@.len() ==> (#[trigger] cands@[j]).0 < self.entities().len(),
        ensures
            r == id_seen(self.entities(), cands@.map_values(|t: (usize, MatchType, u16)| cand_of(t)), id@),
    {
        let ghost cs = cands@.map_values(|t: (usize, MatchType, u16)| cand_of(t));
        let mut j: usize = 0;
        while j < cands.len()
            invariant
                cs == cands@.map_values(|t: (usize, MatchType, u16)| cand_of(t)),
                forall|q: int| 0 <= q < cands@.len() ==> (#[trigger] cands@[q]).0 < self.entities().len(),
                j <= cands@.len(),
                forall|q: int| 0 <= q < j ==> self.entities()[(#[trigger] cs[q]).entity].id@ != id@,
            decreases cands@.len() - j,
        {
            assert(cs[j as int] == cand_of(cands@[j as int]));
            if self.entities[cands[j].0].id == *id {
                return true;
            }
            j = j + 1;
        }
        false
    }

    /// Whether some alias of entity `i`, upper-cased, equals `n`.
    fn alias_found(&self, i: usize, n: &String) -> (r: bool)
        requires
            i < self.entities().len(),
        ensures
            r == alias_matches(self.entities()[i as int].aliases@, n@),
    {
        let aliases = &self.entities[i].aliases;
        let mut k: usize = 0;
        while k < aliases.len()
            invariant
                aliases@ == self.entities()[i as int].aliases@,
                k <= aliases@.len(),
                forall|q: int| 0 <= q < k ==> upper_of((#[trigger] aliases@[q])@) != n@,
            decreases aliases@.len() - k,
        {
            if to_upper(aliases[k].as_str()) == *n {
                return true;
            }
            k = k + 1;
        }
        false
    }

    /// The candidates of all entries for the upper-cased name `n`.
    fn gather(&self, n: &String) -> (r: Vec<(usize, MatchType, u16)>)
        ensures
            r@.map_values(|t: (usize, MatchType, u16)| cand_of(t)) == candidates(
                self.entities(),
                self.entities().len() as int,
                n@,
                self.threshold(),
                self.enabled(),
            ),
            forall|j: int| 0 <= j < r@.len() ==> (#[trigger] r@[j]).0 < self.entities().len(),
    {
        let ghost es = self.entities();
        let ghost th = self.threshold();
        let ghost en = self.enabled();
        let mut cands: Vec<(usize, MatchType, u16)> = Vec::new();
        let mut i: usize = 0;
        while i < self.entities.len()
            invariant
                es == self.entities(),
                th == self.threshold(),
                en == self.enabled(),
                i <= es.len(),
                cands@.map_values(|t: (usize, MatchType, u16)| cand_of(t)) == candidates(es, i as int, n@, th, en),
                forall|j: int| 0 <= j < cands@.len() ==> (#[trigger] cands@[j]).0 < es.len(),
            decreases es.len() - i,
        {
            let ghost acc = cands@.map_values(|t: (usize, MatchType, u16)| cand_of(t));
            let e = &self.entities[i];
            if self.is_enabled(&e.list) {
                if e.name == *n {
                    cands.push((i, MatchType::Exact, 10_000));
                    assert(cands@.map_values(|t: (usize, MatchType, u16)| cand_of(t)) =~= acc.push(
                        cand(i as int, MatchType::Exact, 10_000),
                    ));
                } else {
                    if self.alias_found(i, n) {
                        cands.push((i, MatchType::Alias, 9_500));
                    }
                    let ghost a1 = cands@.map_values(|t: (usize, MatchType, u16)| cand_of(t));
                    assert(a1 =~= if alias_matches(es[i as int].aliases@, n@) {
                        acc.push(cand(i as int, MatchType::Alias, 9_500))
                    } else {
                        acc
                    });
                    let sim = similarity_bp(n.as_str(), e.name.as_str());
                    if sim >= self.fuzzy_threshold {
                        cands.push((i, MatchType::Fuzzy, sim));
                    }
                    let ghost a2 = cands@.map_values(|t: (usize, MatchType, u16)| cand_of(t));
                    assert(a2 =~= if similarity(n@, es[i as int].name@) >= th {
                        a1.push(cand(i as int, MatchType::Fuzzy, similarity(n@, es[i as int].name@)))
                    } else {
                        a1
                    });
                    if contains_text(e.name.as_str(), n.as_str()) || contains_text(n.as_str(), e.name.as_str()) {
                        if !self.id_among(&cands, &e.id) {
                            proof {
                                if n@.len() == 0 && e.name@.len() == 0 {
                                    assert(n@ =~= e.name@);
                                }
                            }
                            let conf = partial_confidence_bp(n.as_str(), e.name.as_str());
                            cands.push((i, MatchType::Partial, conf));
                            assert(cands@.map_values(|t: (usize, MatchType, u16)| cand_of(t)) =~= a2.push(
                                cand(i as int, MatchType::Partial, partial_confidence(n@, es[i as int].name@)),
                            ));
                        }
                    }
                }
            }
            i = i + 1;
        }
        cands
    }

    /// Where a candidate of confidence `c` goes in `sorted`.
    fn slot_of(sorted: &Vec<(usize, MatchType, u16)>, c: u16) -> (r: usize)
        ensures
            r == slot(sorted@.map_values(|t: (usize, MatchType, u16)| cand_of(t)), c as int),
            r <= sorted@.len(),
    {
        let ghost s = sorted@.map_values(|t: (usize, MatchType, u16)| cand_of(t));
        let mut j: usize = sorted.len();
        assert(s.subrange(0, j as int) =~= s);
        while j > 0 && sorted[j - 1].2 < c
            invariant
                s == sorted@.map_values(|t: (usize, MatchType, u16)| cand_of(t)),
                j <= sorted@.len(),
                slot(s, c as int) == slot(s.subrange(0, j as int), c as int),
            decreases j,
        {
            assert(s.subrange(0, j as int).drop_last() =~= s.subrange(0, j - 1));
            j = j - 1;
        }
        j
    }

    /// Sorts candidates by decreasing confidence, equal ones in order.
    fn sort_candidates(cands: &Vec<(usize, MatchType, u16)>) -> (r: Vec<(usize, MatchType, u16)>)
        ensures
            r@.map_values(|t: (usize, MatchType, u16)| cand_of(t)) == sorted_desc(
                cands@.map_values(|t: (usize, MatchType, u16)| cand_of(t)),
            ),
            forall|j: int| 0 <= j < r@.len() ==> exists|q: int| 0 <= q < cands@.len() && #[trigger] r@[j] == cands@[q],
    {
        let ghost cs = cands@.map_values(|t: (usize, MatchType, u16)| cand_of(t));
        let mut sorted: Vec<(usize, MatchType, u16)> = Vec::new();
        let mut i: usize = 0;
        while i < cands.len()
            invariant
                cs == cands@.map_values(|t: (usize, MatchType, u16)| cand_of(t)),
                i <= cands@.len(),
                sorted@.map_values(|t: (usize, MatchType, u16)| cand_of(t)) == sorted_desc(cs.subrange(0, i as int)),
                forall|j: int| 0 <= j < sorted@.len() ==> exists|q: int| 0 <= q < cands@.len() && #[trigger] sorted@[j] == cands@[q],
            decreases cands@.len() - i,
        {
            let ghost before = sorted@;
            assert(cs.subrange(0, i + 1).drop_last() =~= cs.subrange(0, i as int));
            assert(cs.subrange(0, i + 1).last() == cand_of(cands@[i as int]));
            let pos = Self::slot_of(&sorted, cands[i].2);
            sorted.insert(pos, cands[i]);
            assert(sorted@.map_values(|t: (usize, MatchType, u16)| cand_of(t)) =~= before.map_values(
                |t: (usize, MatchType, u16)| cand_of(t),
            ).insert(pos as int, cand_of(cands@[i as int])));
            assert forall|j: int| 0 <= j < sorted@.len() implies exists|q: int| 0 <= q < cands@.len() && #[trigger] sorted@[j] == cands@[q] by {
                if j < pos {
                    assert(sorted@[j] == before[j]);
                } else if j == pos {
                    assert(sorted@[j] == cands@[i as int]);
                } else {
                    assert(sorted@[j] == before[j - 1]);
                }
            }
            i = i + 1;
        }
        assert(cs.subrange(0, cs.len() as int) =~= cs);
        sorted
    }

    fn copy_lists(&self) -> (r: Vec<SanctionsList>)
        ensures
            r@ == self.enabled(),
    {
        let mut r: Vec<SanctionsList> = Vec::new();
        let mut i: usize = 0;
        while i < self.enabled_lists.len()
            invariant
                i <= self.enabled().len(),
                r@ == self.enabled().subrange(0, i as int),
            decreases self.enabled().len() - i,
        {
            r.push(copy_list(&self.enabled_lists[i]));
            assert(r@ =~= self.enabled().subrange(0, i + 1));
            i = i + 1;
        }
        assert(r@ =~= self.enabled());
        r
    }

    /// Screens a name (upper-cased first) against the entries of the
    /// enabled lists: exact, alias, fuzzy and partial matches, highest
    /// confidence first.
    pub fn screen(&self, name: &str) -> (r: SanctionsResult)
        ensures
            screened(self.entities(), self.enabled(), self.threshold(), name@, r),
    {
        let n = to_upper(name);
        let cands = self.gather(&n);
        let sorted = Self::sort_candidates(&cands);
        let ghost es = self.entities();
        let ghost ss = sorted@.map_values(|t: (usize, MatchType, u16)| cand_of(t));
        let mut matches: Vec<SanctionsMatch> = Vec::new();
        let mut k: usize = 0;
        while k < sorted.len()
            invariant
                es == self.entities(),
                ss == sorted@.map_values(|t: (usize, MatchType, u16)| cand_of(t)),
                forall|j: int| 0 <= j < sorted@.len() ==> (#[trigger] sorted@[j]).0 < es.len(),
                k <= sorted@.len(),
                matches@.len() == k,
                forall|j: int| 0 <= j < k ==> reports(#[trigger] matches@[j], es, ss[j]),
            decreases sorted@.len() - k,
        {
            let (idx, kind, conf) = sorted[k];
            assert(ss[k as int] == cand_of(sorted@[k as int]));
            let e = &self.entities[idx];
            matches.push(
                SanctionsMatch {
                    matched_name: e.name.clone(),
                    list: copy_list(&e.list),
                    match_type: kind,
                    confidence: conf,
                    entry_id: e.id.clone(),
                    program: copy_opt_string(&e.program),
                    country: copy_opt_string(&e.country),
                },
            );
            k = k + 1;
        }
        let is_match = matches.len() > 0;
        SanctionsResult {
            screened_value: name.to_owned(),
            is_match,
            matches,
            screening_time: now_millis(),
            lists_checked: self.copy_lists(),
        }
    }
}

impl SanctionsScreener {
    /// Adds an entry: its name and aliases upper-cased, its id the list's
    /// name, a dash and the number of entries before it.
    pub fn add_entity(&mut self, name: &str, aliases: Vec<String>, list: SanctionsList)
        ensures
            final(self).entities().len() == old(self).entities().len() + 1,
            final(self).entities().drop_last() == old(self).entities(),
            final(self).entities().last().id@ == list_name(list) + "-"@ + int_text(
                old(self).entities().len() as int,
            ),
            final(self).entities().last().name@ == upper_of(name@),
            final(self).entities().last().aliases@.map_values(|a: String| a@) == aliases@.map_values(
                |a: String| upper_of(a@),
            ),
            final(self).entities().last().list == list,
            final(self).entities().last().program is None,
            final(self).entities().last().country is None,
            final(self).enabled() == old(self).enabled(),
            final(self).threshold() == old(self).threshold(),
    {
        let ghost old_entities = self.entities();
        let count = self.entities.len();
        let id = list.name().to_owned().concat("-").concat(int_to_text(count as i128).as_str());
        let mut upper: Vec<String> = Vec::new();
        let mut i: usize = 0;
        while i < aliases.len()
            invariant
                i <= aliases@.len(),
                upper@.map_values(|a: String| a@) == aliases@.subrange(0, i as int).map_values(
                    |a: String| upper_of(a@),
                ),
            decreases aliases@.len() - i,
        {
            let ghost before = upper@.map_values(|a: String| a@);
            let u = to_upper(aliases[i].as_str());
            assert(u@ == upper_of(aliases@[i as int]@));
            upper.push(u);
            assert(upper@.map_values(|a: String| a@) =~= before.push(upper_of(aliases@[i as int]@)));
            assert(aliases@.subrange(0, i + 1).map_values(|a: String| upper_of(a@)) =~= aliases@.subrange(
                0,
                i as int,
            ).map_values(|a: String| upper_of(a@)).push(upper_of(aliases@[i as int]@)));
            assert(upper@.map_values(|a: String| a@) =~= aliases@.subrange(0, i + 1).map_values(
                |a: String| upper_of(a@),
            ));
            i = i + 1;
        }
        assert(aliases@.subrange(0, aliases@.len() as int) =~= aliases@);
        self.entities.push(
            SanctionedEntity {
                id,
                name: to_upper(name),
                aliases: upper,
                list,
                program: None,
                country: None,
            },
        );
        assert(self.entities().drop_last() =~= old_entities);
        proof {
            reveal_strlit("-");
        }
    }

    /// Screens each name in turn.
    pub fn screen_batch(&self, names: &[&str]) -> (r: Vec<SanctionsResult>)
        ensures
            r@.len() == names@.len(),
            forall|k: int|
                0 <= k < names@.len() ==> screened(
                    self.entities(),
                    self.enabled(),
                    self.threshold(),
                    names@[k]@,
                    #[trigger] r@[k],
                ),
    {
        let mut results: Vec<SanctionsResult> = Vec::new();
        let mut k: usize = 0;
        while k < names.len()
            invariant
                k <= names@.len(),
                results@.len() == k,
                forall|j: int|
                    0 <= j < k ==> screened(
                        self.entities(),
                        self.enabled(),
                        self.threshold(),
                        names@[j]@,
                        #[trigger] results@[j],
                    ),
            decreases names@.len() - k,
        {
            results.push(self.screen(names[k]));
            k = k + 1;
        }
        results
    }
}

impl Default for SanctionsScreener {
    /// The same as `new`.
    fn default() -> (s: Self)
        ensures
            s.entities().len() == 3,
            s.enabled() == seq![SanctionsList::OFAC, SanctionsList::EU, SanctionsList::UN],
            s.threshold() == 8_500,
    {
        SanctionsScreener::new()
    }
}

} // verus!

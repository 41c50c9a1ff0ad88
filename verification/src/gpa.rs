//! Score-mapping tables: conversion of a subject's total score into a grade
//! point and a letter level, under one of two regimes.
//!
//! A table is an ordered list of entries, each carrying an inclusive score
//! range and the grade point for it. Lookup rounds the score to one decimal
//! place (halves up) and returns the first entry whose range contains the
//! rounded score; when no entry matches, or the score is undetermined, the
//! lookup yields "undetermined" (`None`, or an empty level string).
//!
//! Numeric fields are fixed-point: a stored `9690` stands for `96.9`.
use vstd::prelude::*;

use crate::frac::Frac;
use crate::frac::fits_i128;
use crate::frac::round_scaled;
use crate::strutil::seq_contains;
use crate::strutil::str_contains;

verus! {

/// Which of the two score-mapping regimes applies to a subject.
#[derive(Clone, Copy, Debug, PartialEq, Eq, Structural)]
pub enum ScoreMappingId {
    Weighted,
    NonWeighted,
}

impl ScoreMappingId {
    /// Human-readable name of the regime.
    pub fn name(&self) -> (r: String)
        ensures
            self is Weighted ==> r@ == "Weighted"@,
            self is NonWeighted ==> r@ == "Non-Weighted"@,
    {
        match self {
            ScoreMappingId::Weighted => String::from_str("Weighted"),
            ScoreMappingId::NonWeighted => String::from_str("Non-Weighted"),
        }
    }
}

/// One row of a score-mapping table: an inclusive score range (fixed-point,
/// hundredths) with its letter level and grade point (hundredths).
#[derive(Clone, Debug)]
pub struct ScoreMappingConfig {
    pub display_name: String,
    pub min_value: i64,
    pub max_value: i64,
    pub gpa: i64,
}

/// All numeric fields of every entry stay within ten thousand value units
/// (one million hundredths), the room the aggregation arithmetic needs.
pub open spec fn table_entries_bounded(list: Seq<ScoreMappingConfig>) -> bool {
    forall|i: int|
        0 <= i < list.len() ==> {
            &&& -1_000_000 <= (#[trigger] list[i]).min_value <= 1_000_000
            &&& -1_000_000 <= list[i].max_value <= 1_000_000
            &&& -1_000_000 <= list[i].gpa <= 1_000_000
        }
}

/// The rounded score `t` (in tenths) falls in the inclusive range of `c`.
pub open spec fn entry_matches(c: ScoreMappingConfig, t: int) -> bool {
    c.min_value <= 10 * t && 10 * t <= c.max_value
}

/// Index of the first entry of `list` whose range contains the rounded
/// score `t`, scanning in table order.
pub open spec fn first_match(list: Seq<ScoreMappingConfig>, t: int) -> Option<int>
    decreases list.len(),
{
    if list.len() == 0 {
        None
    } else if entry_matches(list[0], t) {
        Some(0int)
    } else {
        match first_match(list.skip(1), t) {
            Some(i) => Some(i + 1),
            None => None,
        }
    }
}

/// What `first_match` finds is the first matching entry: it matches, and no
/// earlier entry does; `None` means no entry matches at all.
pub proof fn lemma_first_match_is_first(list: Seq<ScoreMappingConfig>, t: int)
    ensures
        match first_match(list, t) {
            Some(i) => 0 <= i < list.len() && entry_matches(list[i], t) && forall|j: int|
                0 <= j < i ==> !entry_matches(list[j], t),
            None => forall|j: int| 0 <= j < list.len() ==> !entry_matches(#[trigger] list[j], t),
        },
    decreases list.len(),
{
    if list.len() > 0 && !entry_matches(list[0], t) {
        lemma_first_match_is_first(list.skip(1), t);
        assert forall|j: int| 1 <= j < list.len() implies #[trigger] list[j] == list.skip(1)[j - 1]
        by {}
    }
}

/// The total score rounded to tenths, halves up; the value every table
/// lookup buckets by.
pub open spec fn rounded_tenths(f: Frac) -> int {
    round_scaled(f.num as int, f.den as int, 10)
}

/// Grade point for a total score under a table: the `gpa` field of the first
/// matching entry, or undetermined.
pub open spec fn spec_gpa_from_score(total: Option<Frac>, list: Seq<ScoreMappingConfig>) -> Option<
    i64,
> {
    match total {
        None => None,
        Some(f) => match first_match(list, rounded_tenths(f)) {
            Some(i) => Some(list[i].gpa),
            None => None,
        },
    }
}

/// Letter level for a total score under a table: the display name of the
/// first matching entry, or the empty string.
pub open spec fn spec_level_from_score(total: Option<Frac>, list: Seq<ScoreMappingConfig>) -> Seq<
    char,
> {
    match total {
        None => Seq::empty(),
        Some(f) => match first_match(list, rounded_tenths(f)) {
            Some(i) => list[i].display_name@,
            None => Seq::empty(),
        },
    }
}

/// Rounds the score to one decimal place and scans the table in order for
/// the first entry whose inclusive range contains it.
fn lookup(f: &Frac, list: &Vec<ScoreMappingConfig>) -> (r: Option<usize>)
    requires
        f.score_bounded(),
    ensures
        match r {
            Some(i) => first_match(list@, rounded_tenths(*f)) == Some(i as int) && i < list@.len(),
            None => first_match(list@, rounded_tenths(*f)) is None,
        },
{
    proof {
        crate::frac::lemma_score_bounded_round_fits(*f, 10);
        lemma_first_match_is_first(list@, rounded_tenths(*f));
    }
    let t = f.round_half_up(10);
    let t10: i128 = 10 * t;
    let mut i: usize = 0;
    while i < list.len()
        invariant
            t == rounded_tenths(*f),
            t10 == 10 * t,
            fits_i128(10 * t),
            forall|j: int| 0 <= j < i ==> !entry_matches(#[trigger] list@[j], t as int),
            i <= list@.len(),
            match first_match(list@, t as int) {
                Some(k) => 0 <= k < list@.len() && entry_matches(list@[k], t as int) && forall|
                    j: int,
                |
                    0 <= j < k ==> !entry_matches(list@[j], t as int),
                None => forall|j: int|
                    0 <= j < list@.len() ==> !entry_matches(#[trigger] list@[j], t as int),
            },
        decreases list@.len() - i,
    {
        let c = &list[i];
        if (c.min_value as i128) <= t10 && t10 <= (c.max_value as i128) {
            return Some(i);
        }
        i += 1;
    }
    None
}

/// Grade point for a total score: the first matching table entry's grade
/// point, or `None` when the score is undetermined or no entry matches.
pub fn gpa_from_score(total_score: &Option<Frac>, list: &Vec<ScoreMappingConfig>) -> (r: Option<
    i64,
>)
    requires
        match *total_score {
            Some(f) => f.score_bounded(),
            None => true,
        },
    ensures
        r == spec_gpa_from_score(*total_score, list@),
{
    match total_score {
        None => None,
        Some(f) => match lookup(f, list) {
            Some(i) => Some(list[i].gpa),
            None => None,
        },
    }
}

/// Letter level for a total score: the first matching table entry's display
/// name, or the empty string when the score is undetermined or unmatched.
pub fn score_level_from_score(total_score: &Option<Frac>, list: &Vec<ScoreMappingConfig>) -> (r:
    String)
    requires
        match *total_score {
            Some(f) => f.score_bounded(),
            None => true,
        },
    ensures
        r@ == spec_level_from_score(*total_score, list@),
{
    match total_score {
        None => String::new(),
        Some(f) => match lookup(f, list) {
            Some(i) => list[i].display_name.clone(),
            None => String::new(),
        },
    }
}

/// Grade point and letter level always agree on the bucket: for one score
/// and one table, the grade point is determined exactly when the level is
/// non-empty, and both come from the same (first matching) entry.
pub proof fn lemma_gpa_level_consistent(total: Option<Frac>, list: Seq<ScoreMappingConfig>)
    ensures
        match total {
            None => spec_gpa_from_score(total, list) is None && spec_level_from_score(total, list)
                =~= Seq::empty(),
            Some(f) => match first_match(list, rounded_tenths(f)) {
                Some(i) => spec_gpa_from_score(total, list) == Some(list[i].gpa)
                    && spec_level_from_score(total, list) == list[i].display_name@,
                None => spec_gpa_from_score(total, list) is None && spec_level_from_score(
                    total,
                    list,
                ) =~= Seq::empty(),
            },
        },
{
}

/// A subject is graded under the weighted regime exactly when its name marks
/// it as an advanced course: it contains "AP", "A Level" or "AS".
pub open spec fn spec_is_weighted(name: Seq<char>) -> bool {
    seq_contains(name, "AP"@) || seq_contains(name, "A Level"@) || seq_contains(name, "AS"@)
}

/// Whether a subject name denotes an advanced (weighted-regime) course.
pub fn is_weighted_subject(subject_name: &str) -> (r: bool)
    ensures
        r == spec_is_weighted(subject_name@),
{
    str_contains(subject_name, "AP") || str_contains(subject_name, "A Level") || str_contains(
        subject_name,
        "AS",
    )
}

/// The table a subject's scores are mapped under: the weighted table for
/// advanced courses, the non-weighted one otherwise.
pub open spec fn regime_table(
    name: Seq<char>,
    weighted: Seq<ScoreMappingConfig>,
    non_weighted: Seq<ScoreMappingConfig>,
) -> Seq<ScoreMappingConfig> {
    if spec_is_weighted(name) {
        weighted
    } else {
        non_weighted
    }
}

/// The exact score a perfect result maps from: 100, used for the maximum
/// achievable grade point.
pub open spec fn perfect_score() -> Frac {
    Frac { num: 100, den: 1 }
}

/// The score-mapping regime a subject falls under, from its name.
pub fn get_score_mapping_list_id(subject_detail: &crate::subject::SubjectDetail) -> (r:
    ScoreMappingId)
    ensures
        r == (if spec_is_weighted(subject_detail.subject_name@) {
            ScoreMappingId::Weighted
        } else {
            ScoreMappingId::NonWeighted
        }),
{
    if is_weighted_subject(subject_detail.subject_name.as_str()) {
        ScoreMappingId::Weighted
    } else {
        ScoreMappingId::NonWeighted
    }
}

/// The table a stored regime id selects.
pub open spec fn id_table(
    id: ScoreMappingId,
    weighted: Seq<ScoreMappingConfig>,
    non_weighted: Seq<ScoreMappingConfig>,
) -> Seq<ScoreMappingConfig> {
    match id {
        ScoreMappingId::Weighted => weighted,
        ScoreMappingId::NonWeighted => non_weighted,
    }
}

/// Which GPA metric an aggregation sum ranges over.
pub enum GpaMetric {
    Weighted,
    Unweighted,
    Max,
    UnweightedMax,
}

/// The grade-point value one subject contributes under a metric.
pub open spec fn metric_value(s: crate::subject::Subject, m: GpaMetric) -> Option<i64> {
    match m {
        GpaMetric::Weighted => s.gpa,
        GpaMetric::Unweighted => s.unweighted_gpa,
        GpaMetric::Max => s.max_gpa,
        GpaMetric::UnweightedMax => s.unweighted_max_gpa,
    }
}

/// Numerator of a metric: the weight-scaled sum of the determined grade
/// points, each metric filtering on its own value alone.
pub open spec fn metric_num(s: Seq<crate::subject::Subject>, m: GpaMetric) -> int
    decreases s.len(),
{
    if s.len() == 0 {
        0
    } else {
        metric_num(s.drop_last(), m) + match metric_value(s.last(), m) {
            Some(g) => (g * s.last().weight) as int,
            None => 0int,
        }
    }
}

/// Denominator of a metric: the summed weights of the subjects whose value
/// is determined under that metric.
pub open spec fn metric_den(s: Seq<crate::subject::Subject>, m: GpaMetric) -> int
    decreases s.len(),
{
    if s.len() == 0 {
        0
    } else {
        metric_den(s.drop_last(), m) + match metric_value(s.last(), m) {
            Some(g) => s.last().weight as int,
            None => 0int,
        }
    }
}

/// An aggregated metric equals the exact weighted mean, or is undetermined
/// exactly when no subject was eligible for it.
pub open spec fn metric_result_is(
    r: Option<Frac>,
    s: Seq<crate::subject::Subject>,
    m: GpaMetric,
) -> bool {
    if metric_den(s, m) == 0 {
        r is None
    } else {
        match r {
            Some(f) => f.num == metric_num(s, m) && f.den == metric_den(s, m)
                && f.score_bounded(),
            None => false,
        }
    }
}

/// The overall GPA figures of one semester's subjects, each an exact
/// fraction in grade-point hundredths, or undetermined.
pub struct CalculatedGPA {
    pub weighted_gpa: Option<Frac>,
    pub unweighted_gpa: Option<Frac>,
    pub max_gpa: Option<Frac>,
    pub unweighted_max_gpa: Option<Frac>,
}

/// Aggregates all scored subjects into overall GPA figures: for each
/// metric, the weight-scaled mean `Σ(value · weight) / Σ(weight)` over the
/// subjects whose value is determined under that metric — each metric
/// filters independently. A metric with no eligible subject is
/// undetermined, never zero.
pub fn calculate_gpa(subjects: &Vec<crate::subject::Subject>) -> (r: CalculatedGPA)
    requires
        forall|i: int| 0 <= i < subjects@.len() ==> (#[trigger] subjects@[i]).wf(),
    ensures
        metric_result_is(r.weighted_gpa, subjects@, GpaMetric::Weighted),
        metric_result_is(r.unweighted_gpa, subjects@, GpaMetric::Unweighted),
        metric_result_is(r.max_gpa, subjects@, GpaMetric::Max),
        metric_result_is(r.unweighted_max_gpa, subjects@, GpaMetric::UnweightedMax),
{
    let ghost s = subjects@;
    let mut wnum: i128 = 0;
    let mut wden: i128 = 0;
    let mut unum: i128 = 0;
    let mut uden: i128 = 0;
    let mut mnum: i128 = 0;
    let mut mden: i128 = 0;
    let mut umnum: i128 = 0;
    let mut umden: i128 = 0;
    let mut i: usize = 0;
    while i < subjects.len()
        invariant
            s == subjects@,
            forall|j: int| 0 <= j < s.len() ==> (#[trigger] s[j]).wf(),
            i <= s.len(),
            wnum == metric_num(s.take(i as int), GpaMetric::Weighted),
            wden == metric_den(s.take(i as int), GpaMetric::Weighted),
            unum == metric_num(s.take(i as int), GpaMetric::Unweighted),
            uden == metric_den(s.take(i as int), GpaMetric::Unweighted),
            mnum == metric_num(s.take(i as int), GpaMetric::Max),
            mden == metric_den(s.take(i as int), GpaMetric::Max),
            umnum == metric_num(s.take(i as int), GpaMetric::UnweightedMax),
            umden == metric_den(s.take(i as int), GpaMetric::UnweightedMax),
            0 <= wden <= 10_000 * i && -(1_000_000 * wden) <= wnum <= 1_000_000 * wden,
            0 <= uden <= 10_000 * i && -(1_000_000 * uden) <= unum <= 1_000_000 * uden,
            0 <= mden <= 10_000 * i && -(1_000_000 * mden) <= mnum <= 1_000_000 * mden,
            0 <= umden <= 10_000 * i && -(1_000_000 * umden) <= umnum <= 1_000_000 * umden,
        decreases s.len() - i,
    {
        proof {
            assert(s.take(i + 1).drop_last() =~= s.take(i as int));
            assert(s.take(i + 1).last() == s[i as int]);
            assert(s[i as int].wf());
        }
        let sub = &subjects[i];
        let w: i128 = sub.weight as i128;
        if let Option::Some(g) = sub.gpa {
            proof {
                lemma_weighted_term_bound(g as int, sub.weight as int);
            }
            wnum += (g as i128) * w;
            wden += w;
        }
        if let Option::Some(g) = sub.unweighted_gpa {
            proof {
                lemma_weighted_term_bound(g as int, sub.weight as int);
            }
            unum += (g as i128) * w;
            uden += w;
        }
        if let Option::Some(g) = sub.max_gpa {
            proof {
                lemma_weighted_term_bound(g as int, sub.weight as int);
            }
            mnum += (g as i128) * w;
            mden += w;
        }
        if let Option::Some(g) = sub.unweighted_max_gpa {
            proof {
                lemma_weighted_term_bound(g as int, sub.weight as int);
            }
            umnum += (g as i128) * w;
            umden += w;
        }
        i += 1;
    }
    proof {
        assert(s.take(s.len() as int) =~= s);
        lemma_metric_result_frac(wnum, wden, s.len() as int);
        lemma_metric_result_frac(unum, uden, s.len() as int);
        lemma_metric_result_frac(mnum, mden, s.len() as int);
        lemma_metric_result_frac(umnum, umden, s.len() as int);
    }
    CalculatedGPA {
        weighted_gpa: if wden == 0 {
            Option::None
        } else {
            Option::Some(Frac { num: wnum, den: wden })
        },
        unweighted_gpa: if uden == 0 {
            Option::None
        } else {
            Option::Some(Frac { num: unum, den: uden })
        },
        max_gpa: if mden == 0 {
            Option::None
        } else {
            Option::Some(Frac { num: mnum, den: mden })
        },
        unweighted_max_gpa: if umden == 0 {
            Option::None
        } else {
            Option::Some(Frac { num: umnum, den: umden })
        },
    }
}

/// One aggregation term stays within the product of its bounds.
proof fn lemma_weighted_term_bound(g: int, w: int)
    requires
        -1_000_000 <= g <= 1_000_000,
        0 <= w <= 10_000,
    ensures
        -(1_000_000 * w) <= g * w <= 1_000_000 * w,
        -10_000_000_000 <= g * w <= 10_000_000_000,
{
    assert(-(1_000_000 * w) <= g * w <= 1_000_000 * w && -10_000_000_000 <= g * w
        <= 10_000_000_000) by (nonlinear_arith)
        requires
            -1_000_000 <= g <= 1_000_000,
            0 <= w <= 10_000,
    ;
}

/// A bounded aggregation sum forms a score-bounded fraction.
proof fn lemma_metric_result_frac(num: i128, den: i128, n: int)
    requires
        0 <= n,
        0 <= den <= 10_000 * n,
        -(1_000_000 * den) <= num <= 1_000_000 * den,
        n <= usize::MAX as int,
    ensures
        den != 0 ==> (Frac { num, den }).score_bounded(),
{
    if den != 0 {
        assert(-(crate::frac::SCORE_VAL_LIMIT * den) <= num <= crate::frac::SCORE_VAL_LIMIT * den)
            by (nonlinear_arith)
            requires
                0 < den,
                -(1_000_000 * den) <= num <= 1_000_000 * den,
        ;
    }
}

/// With no subject determined under a metric, both aggregation sums are
/// zero, so the aggregated figure is undetermined rather than zero.
pub proof fn lemma_gpa_undetermined_without_eligible(
    s: Seq<crate::subject::Subject>,
    m: GpaMetric,
)
    requires
        forall|i: int| 0 <= i < s.len() ==> metric_value(#[trigger] s[i], m) is None,
    ensures
        metric_den(s, m) == 0,
        metric_num(s, m) == 0,
    decreases s.len(),
{
    if s.len() > 0 {
        lemma_gpa_undetermined_without_eligible(s.drop_last(), m);
    }
}

/// One table row has exactly these contents.
pub open spec fn entry_is(
    c: ScoreMappingConfig,
    name: Seq<char>,
    min_value: i64,
    max_value: i64,
    gpa: i64,
) -> bool {
    c.display_name@ == name && c.min_value == min_value && c.max_value == max_value && c.gpa
        == gpa
}

/// The packaged non-weighted table, row by row.
pub open spec fn is_default_non_weighted(s: Seq<ScoreMappingConfig>) -> bool {
    &&& s.len() == 13
    &&& entry_is(s[0], "A+"@, 9700, 10000, 430)
    &&& entry_is(s[1], "A"@, 9300, 9690, 400)
    &&& entry_is(s[2], "A-"@, 9000, 9290, 370)
    &&& entry_is(s[3], "B+"@, 8700, 8990, 330)
    &&& entry_is(s[4], "B"@, 8300, 8690, 300)
    &&& entry_is(s[5], "B-"@, 8000, 8290, 270)
    &&& entry_is(s[6], "C+"@, 7700, 7990, 230)
    &&& entry_is(s[7], "C"@, 7300, 7690, 200)
    &&& entry_is(s[8], "C-"@, 7000, 7290, 170)
    &&& entry_is(s[9], "D+"@, 6700, 6990, 130)
    &&& entry_is(s[10], "D"@, 6300, 6690, 100)
    &&& entry_is(s[11], "D-"@, 6000, 6290, 70)
    &&& entry_is(s[12], "F"@, 0, 5990, 0)
}

/// The packaged weighted table, row by row.
pub open spec fn is_default_weighted(s: Seq<ScoreMappingConfig>) -> bool {
    &&& s.len() == 13
    &&& entry_is(s[0], "A+"@, 9700, 10000, 480)
    &&& entry_is(s[1], "A"@, 9300, 9690, 450)
    &&& entry_is(s[2], "A-"@, 9000, 9290, 420)
    &&& entry_is(s[3], "B+"@, 8700, 8990, 380)
    &&& entry_is(s[4], "B"@, 8300, 8690, 350)
    &&& entry_is(s[5], "B-"@, 8000, 8290, 320)
    &&& entry_is(s[6], "C+"@, 7700, 7990, 280)
    &&& entry_is(s[7], "C"@, 7300, 7690, 250)
    &&& entry_is(s[8], "C-"@, 7000, 7290, 220)
    &&& entry_is(s[9], "D+"@, 6700, 6990, 180)
    &&& entry_is(s[10], "D"@, 6300, 6690, 150)
    &&& entry_is(s[11], "D-"@, 6000, 6290, 120)
    &&& entry_is(s[12], "F"@, 0, 5990, 0)
}

/// Builds one table row.
fn entry(display_name: &str, min_value: i64, max_value: i64, gpa: i64) -> (c: ScoreMappingConfig)
    ensures
        entry_is(c, display_name@, min_value, max_value, gpa),
{
    ScoreMappingConfig {
        display_name: String::from_str(display_name),
        min_value,
        max_value,
        gpa,
    }
}

/// The two score-mapping tables of a run, loaded once and shared
/// read-only.
pub struct ScoreMappingTables {
    pub weighted: Vec<ScoreMappingConfig>,
    pub non_weighted: Vec<ScoreMappingConfig>,
}

impl ScoreMappingTables {
    /// The table a regime id selects.
    pub fn get(&self, id: &ScoreMappingId) -> (r: &Vec<ScoreMappingConfig>)
        ensures
            r@ == id_table(*id, self.weighted@, self.non_weighted@),
    {
        match id {
            ScoreMappingId::Weighted => &self.weighted,
            ScoreMappingId::NonWeighted => &self.non_weighted,
        }
    }
}

/// The packaged default score-mapping configuration: thirteen letter
/// levels from A+ down to F for each regime, the weighted regime granting
/// half a grade point more except at F.
pub fn default_score_mapping_lists() -> (r: ScoreMappingTables)
    ensures
        is_default_weighted(r.weighted@),
        is_default_non_weighted(r.non_weighted@),
        table_entries_bounded(r.weighted@),
        table_entries_bounded(r.non_weighted@),
{
    let mut weighted: Vec<ScoreMappingConfig> = Vec::new();
    weighted.push(entry("A+", 9700, 10000, 480));
    weighted.push(entry("A", 9300, 9690, 450));
    weighted.push(entry("A-", 9000, 9290, 420));
    weighted.push(entry("B+", 8700, 8990, 380));
    weighted.push(entry("B", 8300, 8690, 350));
    weighted.push(entry("B-", 8000, 8290, 320));
    weighted.push(entry("C+", 7700, 7990, 280));
    weighted.push(entry("C", 7300, 7690, 250));
    weighted.push(entry("C-", 7000, 7290, 220));
    weighted.push(entry("D+", 6700, 6990, 180));
    weighted.push(entry("D", 6300, 6690, 150));
    weighted.push(entry("D-", 6000, 6290, 120));
    weighted.push(entry("F", 0, 5990, 0));
    let mut non_weighted: Vec<ScoreMappingConfig> = Vec::new();
    non_weighted.push(entry("A+", 9700, 10000, 430));
    non_weighted.push(entry("A", 9300, 9690, 400));
    non_weighted.push(entry("A-", 9000, 9290, 370));
    non_weighted.push(entry("B+", 8700, 8990, 330));
    non_weighted.push(entry("B", 8300, 8690, 300));
    non_weighted.push(entry("B-", 8000, 8290, 270));
    non_weighted.push(entry("C+", 7700, 7990, 230));
    non_weighted.push(entry("C", 7300, 7690, 200));
    non_weighted.push(entry("C-", 7000, 7290, 170));
    non_weighted.push(entry("D+", 6700, 6990, 130));
    non_weighted.push(entry("D", 6300, 6690, 100));
    non_weighted.push(entry("D-", 6000, 6290, 70));
    non_weighted.push(entry("F", 0, 5990, 0));
    ScoreMappingTables { weighted, non_weighted }
}

} // verus!

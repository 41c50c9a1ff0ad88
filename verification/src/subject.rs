//! Subjects and their evaluation-project trees: proportion normalization
//! and the bottom-up subject score.
//!
//! An evaluation project carries a raw proportion (fixed-point hundredths of
//! a percent point: `4000` is 40%) and a score (hundredths: `9050` is 90.5).
//! A project whose `score_is_null` flag is set keeps its place in the tree
//! but counts neither towards its siblings' normalization denominator nor
//! towards the subject total.
use vstd::prelude::*;

use crate::frac::Frac;
use crate::gpa::ScoreMappingConfig;
use crate::gpa::ScoreMappingId;
use crate::frac::round_scaled;
use crate::gpa::gpa_from_score;
use crate::gpa::id_table;
use crate::gpa::is_weighted_subject;
use crate::gpa::perfect_score;
use crate::gpa::regime_table;
use crate::gpa::score_level_from_score;
use crate::gpa::spec_gpa_from_score;
use crate::gpa::spec_is_weighted;
use crate::gpa::spec_level_from_score;
use crate::gpa::table_entries_bounded;

verus! {

/// Greatest raw proportion of one project: 100 percent, in hundredths.
pub const MAX_PROPORTION: i64 = 10_000;

/// Greatest magnitude of a raw score or grade point, in hundredths.
pub const MAX_RAW_SCORE: i64 = 1_000_000;

/// Greatest number of sibling projects at one tree level that the exact
/// normalization arithmetic admits.
pub const MAX_SIBLINGS: usize = 1_000;

/// Greatest nesting depth of evaluation projects (the root level counts as
/// one) that the exact normalization arithmetic admits.
pub const MAX_TREE_LEVELS: u32 = 4;

/// One graded (or ungraded) task inside an evaluation project.
pub struct LearningTask {
    pub name: String,
    /// Achieved score in hundredths; `None` for an ungraded task.
    pub score: Option<i64>,
    /// Full score of the task, in hundredths.
    pub total_score: i64,
}

/// A node of the evaluation tree: a graded component of a subject, possibly
/// with nested sub-projects.
pub struct EvaluationProject {
    pub evaluation_project_e_name: String,
    /// Raw proportion in hundredths of a percent point; never mutated.
    pub proportion: i64,
    /// Score in hundredths.
    pub score: i64,
    pub score_level: String,
    /// Grade point reported by the portal for this project, in hundredths.
    pub gpa: i64,
    /// The project is ungraded and excluded from reductions.
    pub score_is_null: bool,
    pub learning_task_and_exam_list: Vec<LearningTask>,
    pub evaluation_project_list: Vec<EvaluationProject>,
    /// Derived: proportion rescaled to the whole subject; meaningful only
    /// after normalization, `None` when undetermined.
    pub adjusted_proportion: Option<Frac>,
}

/// Field bounds of one project and, recursively, of its sub-projects, with
/// at most `levels` tree levels (itself included) below and including it.
pub open spec fn project_ok(p: EvaluationProject, levels: nat) -> bool
    decreases p,
{
    &&& 1 <= levels
    &&& 0 <= p.proportion <= MAX_PROPORTION
    &&& -MAX_RAW_SCORE <= p.score <= MAX_RAW_SCORE
    &&& -MAX_RAW_SCORE <= p.gpa <= MAX_RAW_SCORE
    &&& (levels == 1 ==> p.evaluation_project_list@.len() == 0)
    &&& projects_ok(p.evaluation_project_list@, (levels - 1) as nat)
}

/// Field bounds of one level of sibling projects and everything below.
pub open spec fn projects_ok(s: Seq<EvaluationProject>, levels: nat) -> bool
    decreases s,
{
    &&& s.len() <= MAX_SIBLINGS
    &&& forall|i: int| 0 <= i < s.len() ==> project_ok(#[trigger] s[i], levels)
}

/// Sum of the raw proportions of the non-null projects of one sibling set:
/// the normalization denominator.
pub open spec fn sib_total(s: Seq<EvaluationProject>) -> int
    decreases s.len(),
{
    if s.len() == 0 {
        0
    } else {
        sib_total(s.drop_last()) + if s.last().score_is_null {
            0int
        } else {
            s.last().proportion as int
        }
    }
}

/// Number of non-null projects in one sibling set.
pub open spec fn eligible_count(s: Seq<EvaluationProject>) -> int
    decreases s.len(),
{
    if s.len() == 0 {
        0
    } else {
        eligible_count(s.drop_last()) + if s.last().score_is_null {
            0int
        } else {
            1int
        }
    }
}

/// Sum of `score * proportion` over the non-null projects of one sibling
/// set: the numerator of the subject total score.
pub open spec fn score_dot(s: Seq<EvaluationProject>) -> int
    decreases s.len(),
{
    if s.len() == 0 {
        0
    } else {
        score_dot(s.drop_last()) + if s.last().score_is_null {
            0int
        } else {
            (s.last().score * s.last().proportion) as int
        }
    }
}

/// The frame a sibling set is normalized into: the fraction its non-null
/// proportions must sum to — 100 at the root, the parent's own adjusted
/// proportion below — or `None` when that is already undetermined.
pub open spec fn frame_view(frame: Option<(i128, i128)>) -> Option<(int, int)> {
    match frame {
        None => None,
        Some((n, d)) => Some((n as int, d as int)),
    }
}

/// The adjusted proportion a project receives: its raw proportion divided
/// by the sibling total, scaled into the frame; undetermined when the frame
/// is undetermined or the sibling total is zero.
pub open spec fn expected_adjusted(p: int, total: int, frame: Option<(int, int)>) -> Option<
    (int, int),
> {
    match frame {
        None => None,
        Some((fnum, fden)) => if total == 0 {
            None
        } else {
            Some((p * fnum, total * fden))
        },
    }
}

/// An optional fraction holds exactly the optional ratio `e`.
pub open spec fn frac_opt_is(a: Option<Frac>, e: Option<(int, int)>) -> bool {
    match (a, e) {
        (Option::None, Option::None) => true,
        (Option::Some(f), Option::Some((n, d))) => f.num == n && f.den == d,
        _ => false,
    }
}

/// `n` is `o` with adjusted proportions filled in for the frame, raw fields
/// untouched, recursively down the tree.
pub open spec fn normalized_one(
    n: EvaluationProject,
    o: EvaluationProject,
    frame: Option<(int, int)>,
    total: int,
) -> bool
    decreases o,
{
    &&& n.evaluation_project_e_name == o.evaluation_project_e_name
    &&& n.proportion == o.proportion
    &&& n.score == o.score
    &&& n.score_level == o.score_level
    &&& n.gpa == o.gpa
    &&& n.score_is_null == o.score_is_null
    &&& n.learning_task_and_exam_list == o.learning_task_and_exam_list
    &&& frac_opt_is(
        n.adjusted_proportion,
        expected_adjusted(o.proportion as int, total, frame),
    )
    &&& normalized_from(
        n.evaluation_project_list@,
        o.evaluation_project_list@,
        expected_adjusted(o.proportion as int, total, frame),
    )
}

/// `new` is `old` with adjusted proportions filled in for the frame, level
/// by level: each sibling set is normalized against its own non-null total
/// and scaled into its parent's share.
pub open spec fn normalized_from(
    new: Seq<EvaluationProject>,
    old: Seq<EvaluationProject>,
    frame: Option<(int, int)>,
) -> bool
    decreases old,
{
    &&& new.len() == old.len()
    &&& forall|i: int|
        0 <= i < old.len() ==> normalized_one(#[trigger] new[i], old[i], frame, sib_total(old))
}

/// Frame numerator magnitude that normalization can meet with `levels`
/// levels still to process.
pub open spec fn frame_num_limit(levels: nat) -> int {
    if levels >= 4 {
        100
    } else if levels == 3 {
        1_000_000
    } else if levels == 2 {
        10_000_000_000
    } else {
        100_000_000_000_000
    }
}

/// Frame denominator magnitude that normalization can meet with `levels`
/// levels still to process.
pub open spec fn frame_den_limit(levels: nat) -> int {
    if levels >= 4 {
        1
    } else if levels == 3 {
        10_000_000
    } else if levels == 2 {
        100_000_000_000_000
    } else {
        1_000_000_000_000_000_000_000
    }
}

/// Sums the raw proportions of the non-null projects of one sibling set.
fn level_total(projects: &Vec<EvaluationProject>, Ghost(levels): Ghost<nat>) -> (total: i64)
    requires
        projects_ok(projects@, levels),
    ensures
        total == sib_total(projects@),
        0 <= total <= 10_000_000,
{
    let mut total: i64 = 0;
    let mut i: usize = 0;
    while i < projects.len()
        invariant
            projects_ok(projects@, levels),
            i <= projects@.len(),
            total == sib_total(projects@.take(i as int)),
            0 <= total <= MAX_PROPORTION * i,
        decreases projects@.len() - i,
    {
        proof {
            assert(projects@.take(i + 1).drop_last() =~= projects@.take(i as int));
            assert(projects@.take(i + 1).last() == projects@[i as int]);
            assert(project_ok(projects@[i as int], levels));
        }
        if !projects[i].score_is_null {
            total += projects[i].proportion;
        }
        i += 1;
    }
    proof {
        assert(projects@.take(projects@.len() as int) =~= projects@);
    }
    total
}

/// Normalizes one sibling set into `frame` and recurses into sub-projects,
/// each scaled into its parent's adjusted share.
fn normalize_level(
    projects: Vec<EvaluationProject>,
    frame: Option<(i128, i128)>,
    Ghost(levels): Ghost<nat>,
) -> (r: Vec<EvaluationProject>)
    requires
        projects_ok(projects@, levels),
        1 <= levels <= MAX_TREE_LEVELS,
        match frame {
            Option::Some((fnum, fden)) => {
                &&& -frame_num_limit(levels) <= fnum <= frame_num_limit(levels)
                &&& 0 < fden <= frame_den_limit(levels)
            },
            Option::None => true,
        },
    ensures
        normalized_from(r@, projects@, frame_view(frame)),
    decreases levels,
{
    let ghost orig = projects@;
    let ghost total_g = sib_total(orig);
    let total: i64 = level_total(&projects, Ghost(levels));

    let mut input = projects;
    let mut out: Vec<EvaluationProject> = Vec::new();
    let mut i: usize = 0;
    while input.len() > 0
        invariant
            projects_ok(orig, levels),
            1 <= levels <= MAX_TREE_LEVELS,
            match frame {
                Option::Some((fnum, fden)) => {
                    &&& -frame_num_limit(levels) <= fnum <= frame_num_limit(levels)
                    &&& 0 < fden <= frame_den_limit(levels)
                },
                Option::None => true,
            },
            total == sib_total(orig),
            total_g == sib_total(orig),
            0 <= total <= 10_000_000,
            i + input@.len() == orig.len(),
            input@ =~= orig.skip(i as int),
            out@.len() == i,
            forall|j: int|
                0 <= j < i ==> normalized_one(
                    #[trigger] out@[j],
                    orig[j],
                    frame_view(frame),
                    total_g,
                ),
        decreases input@.len(),
    {
        let p = input.remove(0);
        proof {
            assert(orig.skip(i as int)[0] == orig[i as int]);
            assert(p == orig[i as int]);
            assert(project_ok(orig[i as int], levels));
            assert(input@ =~= orig.skip(i + 1));
        }
        let ghost fl = frame_num_limit(levels);
        let ghost dl = frame_den_limit(levels);
        let ghost e = expected_adjusted(orig[i as int].proportion as int, total_g, frame_view(frame));
        proof {
            assert(fl <= 100_000_000_000_000 && 1 <= dl <= 1_000_000_000_000_000_000_000);
        }
        let mut adjusted: Option<Frac> = Option::None;
        if let Option::Some((fnum, fden)) = frame {
            if total != 0 {
                proof {
                    assert(-(1_000_000_000_000_000_000int) <= (p.proportion as int) * (
                    fnum as int) <= 1_000_000_000_000_000_000int && 0 < (total as int) * (
                    fden as int) <= 10_000_000_000_000_000_000_000_000_000int)
                        by (nonlinear_arith)
                        requires
                            0 <= p.proportion <= 10_000,
                            0 < total <= 10_000_000,
                            -fl <= fnum <= fl,
                            0 < fden <= dl,
                            fl <= 100_000_000_000_000,
                            dl <= 1_000_000_000_000_000_000_000,
                    ;
                }
                let num: i128 = (p.proportion as i128) * fnum;
                let den: i128 = (total as i128) * fden;
                proof {
                    assert(num as int == (orig[i as int].proportion as int) * (fnum as int));
                    assert(den as int == total_g * (fden as int));
                    assert(frame_view(frame) == Some(((fnum as int), (fden as int))));
                    assert(e == Some((
                        (orig[i as int].proportion as int) * (fnum as int),
                        total_g * (fden as int),
                    )));
                }
                adjusted = Option::Some(Frac { num, den });
                proof {
                    assert(frac_opt_is(adjusted, e));
                }
            } else {
                proof {
                    assert(e is None);
                }
            }
        } else {
            proof {
                assert(e is None);
            }
        }
        let ghost adjusted_g = adjusted;
        proof {
            assert(frac_opt_is(adjusted_g, e));
        }
        let child_frame: Option<(i128, i128)> = match &adjusted {
            Option::Some(f) => Option::Some((f.num, f.den)),
            Option::None => Option::None,
        };
        proof {
            assert(frame_view(child_frame) == e);
        }
        let subs: Vec<EvaluationProject> = if p.evaluation_project_list.len() == 0 {
            p.evaluation_project_list
        } else {
            proof {
                assert(2 <= levels);
                let ghost fl1 = frame_num_limit((levels - 1) as nat);
                let ghost dl1 = frame_den_limit((levels - 1) as nat);
                assert(fl1 == 10_000 * fl && dl1 == 10_000_000 * dl);
                if let Option::Some((fnum, fden)) = frame {
                    if total != 0 {
                        assert(-fl1 <= (p.proportion as int) * (fnum as int) <= fl1 && 0 < (
                        total as int) * (fden as int) <= dl1) by (nonlinear_arith)
                            requires
                                0 <= p.proportion <= 10_000,
                                0 < total <= 10_000_000,
                                -fl <= fnum <= fl,
                                0 < fden <= dl,
                                fl1 == 10_000 * fl,
                                dl1 == 10_000_000 * dl,
                        ;
                    }
                }
            }
            normalize_level(p.evaluation_project_list, child_frame, Ghost((levels - 1) as nat))
        };
        proof {
            assert(normalized_from(subs@, orig[i as int].evaluation_project_list@, e));
        }
        let q = EvaluationProject {
            evaluation_project_e_name: p.evaluation_project_e_name,
            proportion: p.proportion,
            score: p.score,
            score_level: p.score_level,
            gpa: p.gpa,
            score_is_null: p.score_is_null,
            learning_task_and_exam_list: p.learning_task_and_exam_list,
            evaluation_project_list: subs,
            adjusted_proportion: adjusted,
        };
        proof {
            assert(q.adjusted_proportion == adjusted_g);
            assert(normalized_one(q, orig[i as int], frame_view(frame), total_g));
        }
        out.push(q);
        i += 1;
    }
    proof {
        assert(orig.skip(orig.len() as int) =~= Seq::empty());
        assert(out@.len() == orig.len());
    }
    out
}

/// Recomputes every adjusted proportion of the tree: at the root the
/// non-null proportions are rescaled to sum to 100; inside, each sibling
/// set is rescaled to sum to its parent's adjusted share. Null projects
/// receive an adjusted proportion too, but stay excluded from every
/// denominator. A level whose non-null total is zero gets undetermined
/// adjusted proportions throughout, and so does everything below it.
pub fn normalize_evaluation_projects(projects: Vec<EvaluationProject>) -> (r: Vec<
    EvaluationProject,
>)
    requires
        projects_ok(projects@, MAX_TREE_LEVELS as nat),
    ensures
        normalized_from(r@, projects@, Some((100int, 1int))),
{
    normalize_level(projects, Option::Some((100, 1)), Ghost(MAX_TREE_LEVELS as nat))
}

/// Field bounds of one sibling level alone, all the subject scorer needs.
pub open spec fn level_fields_ok(s: Seq<EvaluationProject>) -> bool {
    forall|i: int|
        0 <= i < s.len() ==> {
            &&& 0 <= (#[trigger] s[i]).proportion <= MAX_PROPORTION
            &&& -MAX_RAW_SCORE <= s[i].score <= MAX_RAW_SCORE
        }
}

/// The subject total score from the root projects: the proportion-weighted
/// mean of the non-null scores, as the exact ratio
/// `Σ score·proportion / (100 · Σ proportion)`; undetermined when no project
/// is eligible or the proportions of the eligible ones sum to zero.
pub open spec fn spec_total_score(s: Seq<EvaluationProject>) -> Option<(int, int)> {
    if eligible_count(s) == 0 || sib_total(s) == 0 {
        None
    } else {
        Some((score_dot(s), 100 * sib_total(s)))
    }
}

/// Sibling sums depend only on the raw proportion, score and null flag of
/// each element.
pub proof fn lemma_sums_pointwise(a: Seq<EvaluationProject>, b: Seq<EvaluationProject>)
    requires
        a.len() == b.len(),
        forall|i: int|
            0 <= i < a.len() ==> (#[trigger] a[i]).proportion == b[i].proportion && a[i].score
                == b[i].score && a[i].score_is_null == b[i].score_is_null,
    ensures
        sib_total(a) == sib_total(b),
        score_dot(a) == score_dot(b),
        eligible_count(a) == eligible_count(b),
    decreases a.len(),
{
    if a.len() > 0 {
        assert(a.drop_last().len() == b.drop_last().len());
        lemma_sums_pointwise(a.drop_last(), b.drop_last());
    }
}

/// Reduces the root projects of a (normalized or raw) tree to the subject's
/// bottom-up total score: `Σ score * adjusted_proportion / 100` folded
/// without a starting value, so that an empty or all-null reduction is
/// undetermined rather than zero.
pub fn subject_total_score(projects: &Vec<EvaluationProject>) -> (r: Option<Frac>)
    requires
        level_fields_ok(projects@),
    ensures
        frac_opt_is(r, spec_total_score(projects@)),
        r matches Some(f) ==> f.score_bounded(),
{
    let ghost s = projects@;
    let mut dot: i128 = 0;
    let mut total: i128 = 0;
    let mut any: bool = false;
    let mut i: usize = 0;
    while i < projects.len()
        invariant
            level_fields_ok(s),
            s == projects@,
            i <= s.len(),
            total == sib_total(s.take(i as int)),
            dot == score_dot(s.take(i as int)),
            any == (eligible_count(s.take(i as int)) != 0),
            0 <= eligible_count(s.take(i as int)),
            0 <= total <= 10_000 * i,
            -(1_000_000 * total) <= dot <= 1_000_000 * total,
        decreases s.len() - i,
    {
        proof {
            assert(s.take(i + 1).drop_last() =~= s.take(i as int));
            assert(s.take(i + 1).last() == s[i as int]);
        }
        let p = &projects[i];
        if !p.score_is_null {
            proof {
                assert(-(1_000_000 * (p.proportion as int)) <= (p.score as int) * (
                p.proportion as int) <= 1_000_000 * (p.proportion as int)) by (nonlinear_arith)
                    requires
                        0 <= p.proportion,
                        -1_000_000 <= p.score <= 1_000_000,
                ;
            }
            dot += (p.score as i128) * (p.proportion as i128);
            total += p.proportion as i128;
            any = true;
        }
        i += 1;
    }
    proof {
        assert(s.take(s.len() as int) =~= s);
    }
    if !any || total == 0 {
        None
    } else {
        let den: i128 = 100 * total;
        proof {
            assert(total <= 10_000 * s.len() && s.len() <= usize::MAX as int);
            assert(-(crate::frac::SCORE_VAL_LIMIT * den) <= dot <= crate::frac::SCORE_VAL_LIMIT
                * den) by (nonlinear_arith)
                requires
                    0 < total,
                    den == 100 * total,
                    -(1_000_000 * total) <= dot <= 1_000_000 * total,
            ;
        }
        Some(Frac { num: dot, den })
    }
}

/// Identity and foreign-key fields of one subject, fetched once and
/// immutable afterwards.
pub struct SubjectDetail {
    pub subject_name: String,
    pub class_id: u64,
    pub subject_id: u64,
    pub semester_id: u64,
}

/// A fully scored subject: the aggregate root the report is built from.
///
/// Constructed bottom-up from its evaluation tree, then adjusted exactly
/// twice: once by the elective-weight resolution and once, optionally, by
/// the dynamic-score overlay. Undetermined metrics are `None`.
pub struct Subject {
    pub subject_name: String,
    pub subject_id: u64,
    pub class_id: u64,
    /// Total score in value units (`84` is a score of 84), exact.
    pub total_score: Option<Frac>,
    /// Difference between the overlay score and the rounded bottom-up
    /// score; zero until an overlay applies.
    pub extra_credit: Option<Frac>,
    pub in_gpa: bool,
    pub evaluation_projects: Vec<EvaluationProject>,
    pub score_mapping_list_id: ScoreMappingId,
    /// Grade points in hundredths (`430` is 4.3); `None` is undetermined.
    pub gpa: Option<i64>,
    pub max_gpa: Option<i64>,
    pub unweighted_gpa: Option<i64>,
    pub unweighted_max_gpa: Option<i64>,
    pub score_level: String,
    pub elective: bool,
    /// GPA contribution weight in hundredths: `100` full, `50` discounted.
    pub weight: i64,
}

impl Subject {
    /// Numeric sanity of a scored subject: every fraction is in the range
    /// the aggregation arithmetic handles, grade points are within table
    /// bounds and the weight is at most full.
    pub open spec fn wf(self) -> bool {
        &&& match self.total_score {
            Some(f) => f.score_bounded(),
            None => true,
        }
        &&& match self.extra_credit {
            Some(f) => 0 < f.den <= 100_000_000 && -1_000_000_000_000_000_000 <= f.num
                <= 1_000_000_000_000_000_000,
            None => true,
        }
        &&& match self.gpa {
            Some(g) => -1_000_000 <= g <= 1_000_000,
            None => true,
        }
        &&& match self.max_gpa {
            Some(g) => -1_000_000 <= g <= 1_000_000,
            None => true,
        }
        &&& match self.unweighted_gpa {
            Some(g) => -1_000_000 <= g <= 1_000_000,
            None => true,
        }
        &&& match self.unweighted_max_gpa {
            Some(g) => -1_000_000 <= g <= 1_000_000,
            None => true,
        }
        &&& 0 <= self.weight <= 10_000
    }

    /// Builds a subject bottom-up: normalizes its evaluation tree, reduces
    /// it to a total score, and derives grade points, the maximum
    /// achievable grade points (a perfect 100), and the letter level from
    /// the regime the subject's name selects. Elective weighting and the
    /// dynamic-score overlay come later; until then the subject counts into
    /// GPA with full weight and no extra credit.
    pub fn new(
        detail: &SubjectDetail,
        evaluation_projects: Vec<EvaluationProject>,
        weighted: &Vec<ScoreMappingConfig>,
        non_weighted: &Vec<ScoreMappingConfig>,
    ) -> (s: Subject)
        requires
            projects_ok(evaluation_projects@, MAX_TREE_LEVELS as nat),
            table_entries_bounded(weighted@),
            table_entries_bounded(non_weighted@),
        ensures
            s.subject_name == detail.subject_name,
            s.subject_id == detail.subject_id,
            s.class_id == detail.class_id,
            normalized_from(s.evaluation_projects@, evaluation_projects@, Some((100int, 1int))),
            frac_opt_is(s.total_score, spec_total_score(evaluation_projects@)),
            s.score_mapping_list_id == (if spec_is_weighted(detail.subject_name@) {
                ScoreMappingId::Weighted
            } else {
                ScoreMappingId::NonWeighted
            }),
            s.gpa == spec_gpa_from_score(
                s.total_score,
                regime_table(detail.subject_name@, weighted@, non_weighted@),
            ),
            s.unweighted_gpa == spec_gpa_from_score(s.total_score, non_weighted@),
            s.max_gpa == spec_gpa_from_score(
                Some(perfect_score()),
                regime_table(detail.subject_name@, weighted@, non_weighted@),
            ),
            s.unweighted_max_gpa == spec_gpa_from_score(Some(perfect_score()), non_weighted@),
            s.score_level@ == spec_level_from_score(
                s.total_score,
                regime_table(detail.subject_name@, weighted@, non_weighted@),
            ),
            s.elective == false,
            s.weight == 100,
            s.in_gpa == true,
            s.extra_credit matches Some(f) && f.num == 0 && f.den == 1,
            s.wf(),
    {
        let ghost raw = evaluation_projects@;
        let normalized = normalize_evaluation_projects(evaluation_projects);
        proof {
            assert forall|i: int| 0 <= i < raw.len() implies (#[trigger] normalized@[i]).proportion
                == raw[i].proportion && normalized@[i].score == raw[i].score
                && normalized@[i].score_is_null == raw[i].score_is_null by {
                assert(normalized_one(normalized@[i], raw[i], Some((100int, 1int)), sib_total(raw)));
            }
            lemma_sums_pointwise(normalized@, raw);
            assert(level_fields_ok(normalized@));
        }
        let total_score = subject_total_score(&normalized);
        let id = if is_weighted_subject(detail.subject_name.as_str()) {
            ScoreMappingId::Weighted
        } else {
            ScoreMappingId::NonWeighted
        };
        let own_table: &Vec<ScoreMappingConfig> = match id {
            ScoreMappingId::Weighted => weighted,
            ScoreMappingId::NonWeighted => non_weighted,
        };
        let gpa = gpa_from_score(&total_score, own_table);
        let unweighted_gpa = gpa_from_score(&total_score, non_weighted);
        let perfect: Option<Frac> = Some(Frac::from_int(100));
        proof {
            assert(perfect matches Some(f) && f.score_bounded() && f == perfect_score());
        }
        let max_gpa = gpa_from_score(&perfect, own_table);
        let unweighted_max_gpa = gpa_from_score(&perfect, non_weighted);
        let score_level = score_level_from_score(&total_score, own_table);
        proof {
            lemma_gpa_in_table_bounds(total_score, own_table@);
            lemma_gpa_in_table_bounds(total_score, non_weighted@);
            lemma_gpa_in_table_bounds(perfect, own_table@);
            lemma_gpa_in_table_bounds(perfect, non_weighted@);
        }
        Subject {
            subject_name: detail.subject_name.clone(),
            subject_id: detail.subject_id,
            class_id: detail.class_id,
            total_score,
            extra_credit: Some(Frac::from_int(0)),
            in_gpa: true,
            evaluation_projects: normalized,
            score_mapping_list_id: id,
            gpa,
            max_gpa,
            unweighted_gpa,
            unweighted_max_gpa,
            score_level,
            elective: false,
            weight: 100,
        }
    }
}

/// A grade point read from a bounded table is itself bounded.
pub proof fn lemma_gpa_in_table_bounds(total: Option<Frac>, list: Seq<ScoreMappingConfig>)
    requires
        table_entries_bounded(list),
    ensures
        match spec_gpa_from_score(total, list) {
            Some(g) => -1_000_000 <= g <= 1_000_000,
            None => true,
        },
{
    if total is Some {
        crate::gpa::lemma_first_match_is_first(list, crate::gpa::rounded_tenths(total.unwrap()));
    }
}

/// `id` is one of the elective class ids.
pub open spec fn spec_contains_id(ids: Seq<u64>, id: u64) -> bool {
    exists|i: int| 0 <= i < ids.len() && ids[i] == id
}

/// Membership of a class id in the elective set.
pub(crate) fn contains_id(ids: &Vec<u64>, id: u64) -> (r: bool)
    ensures
        r == spec_contains_id(ids@, id),
{
    let mut i: usize = 0;
    while i < ids.len()
        invariant
            i <= ids@.len(),
            forall|j: int| 0 <= j < i ==> ids@[j] != id,
        decreases ids@.len() - i,
    {
        if ids[i] == id {
            return true;
        }
        i += 1;
    }
    false
}

/// Resolves a subject's elective status and GPA weight: the subject is
/// elective exactly when its class id is in the schedule-derived elective
/// set, and its weight is discounted to one half when it is elective or
/// when it is the always-discounted subject "C-Humanities" (whose weight
/// override is independent of its elective flag). Runs once, after the
/// class id is known and before GPA aggregation.
pub fn adjust_weights(subject: &mut Subject, elective_class_ids: &Vec<u64>)
    ensures
        final(subject).elective == spec_contains_id(elective_class_ids@, old(subject).class_id),
        final(subject).weight == (if spec_contains_id(elective_class_ids@, old(subject).class_id)
            || old(subject).subject_name@ == "C-Humanities"@ {
            50int
        } else {
            100int
        }),
        final(subject).subject_name == old(subject).subject_name,
        final(subject).subject_id == old(subject).subject_id,
        final(subject).class_id == old(subject).class_id,
        final(subject).total_score == old(subject).total_score,
        final(subject).extra_credit == old(subject).extra_credit,
        final(subject).in_gpa == old(subject).in_gpa,
        final(subject).evaluation_projects == old(subject).evaluation_projects,
        final(subject).score_mapping_list_id == old(subject).score_mapping_list_id,
        final(subject).gpa == old(subject).gpa,
        final(subject).max_gpa == old(subject).max_gpa,
        final(subject).unweighted_gpa == old(subject).unweighted_gpa,
        final(subject).unweighted_max_gpa == old(subject).unweighted_max_gpa,
        final(subject).score_level == old(subject).score_level,
        old(subject).wf() ==> final(subject).wf(),
{
    let elective = contains_id(elective_class_ids, subject.class_id);
    let special = crate::strutil::str_eq(subject.subject_name.as_str(), "C-Humanities");
    subject.elective = elective;
    subject.weight = if elective || special {
        50
    } else {
        100
    };
}

/// The server-computed dynamic score of one class: the authoritative
/// overlay source. At most one entry is expected per class id; scores are
/// fixed-point hundredths.
#[derive(Clone, Copy, Debug)]
pub struct SubjectDynamicScore {
    pub class_id: u64,
    /// Achieved score, absent when the server has not released one.
    pub subject_score: Option<i64>,
    /// Full score the achieved score is measured against.
    pub subject_total_score: i64,
    pub is_in_grade: bool,
}

/// Every dynamic-score entry stays within the magnitudes the overlay
/// arithmetic handles.
pub open spec fn dynamic_scores_bounded(ds: Seq<SubjectDynamicScore>) -> bool {
    forall|i: int|
        0 <= i < ds.len() ==> {
            &&& match (#[trigger] ds[i]).subject_score {
                Some(v) => -MAX_RAW_SCORE <= v <= MAX_RAW_SCORE,
                None => true,
            }
            &&& -MAX_RAW_SCORE <= ds[i].subject_total_score <= MAX_RAW_SCORE
        }
}

/// Index of the first dynamic-score entry for `class_id`; later duplicates
/// are never consulted.
pub open spec fn find_dynamic(ds: Seq<SubjectDynamicScore>, class_id: u64) -> Option<int>
    decreases ds.len(),
{
    if ds.len() == 0 {
        None
    } else if ds[0].class_id == class_id {
        Some(0int)
    } else {
        match find_dynamic(ds.skip(1), class_id) {
            Some(i) => Some(i + 1),
            None => None,
        }
    }
}

/// What `find_dynamic` finds is the first entry for the class id.
pub proof fn lemma_find_dynamic_is_first(ds: Seq<SubjectDynamicScore>, class_id: u64)
    ensures
        match find_dynamic(ds, class_id) {
            Some(i) => 0 <= i < ds.len() && ds[i].class_id == class_id && forall|j: int|
                0 <= j < i ==> ds[j].class_id != class_id,
            None => forall|j: int| 0 <= j < ds.len() ==> (#[trigger] ds[j]).class_id != class_id,
        },
    decreases ds.len(),
{
    if ds.len() > 0 && ds[0].class_id != class_id {
        lemma_find_dynamic_is_first(ds.skip(1), class_id);
        assert forall|j: int| 1 <= j < ds.len() implies #[trigger] ds[j] == ds.skip(1)[j - 1] by {}
    }
}

/// The authoritative score a dynamic entry carries, rescaled to a percent
/// frame: `subject_score / subject_total_score * 100`; undetermined when
/// the score is absent or the full score is zero.
pub open spec fn spec_new_score(rec: SubjectDynamicScore) -> Option<(int, int)> {
    match rec.subject_score {
        None => None,
        Some(ss) => spec_ratio_percent(ss as int, rec.subject_total_score as int),
    }
}

/// `achieved / full * 100` as an exact ratio with positive denominator;
/// undetermined when the full score is zero.
pub open spec fn spec_ratio_percent(achieved: int, full: int) -> Option<(int, int)> {
    if full == 0 {
        None
    } else if full > 0 {
        Some((achieved * 100, full))
    } else {
        Some((-(achieved * 100), -full))
    }
}

/// The extra credit an overlay grants: the overlay score minus the
/// bottom-up total rounded to one decimal place (the delta is against the
/// rounded display value on purpose); undetermined when either side is.
pub open spec fn spec_extra_credit(new_score: Option<(int, int)>, old_total: Option<Frac>) -> Option<
    (int, int),
> {
    match (new_score, old_total) {
        (Option::Some((n, d)), Option::Some(f)) => Some(
            (n * 10 - round_scaled(f.num as int, f.den as int, 10) * d, d * 10),
        ),
        _ => None,
    }
}

/// Finds the first dynamic-score entry for a class id, if any.
fn find_dynamic_index(ds: &Vec<SubjectDynamicScore>, class_id: u64) -> (r: Option<usize>)
    ensures
        match r {
            Some(k) => find_dynamic(ds@, class_id) == Some(k as int) && k < ds@.len(),
            None => find_dynamic(ds@, class_id) is None,
        },
{
    proof {
        lemma_find_dynamic_is_first(ds@, class_id);
    }
    let mut k: usize = 0;
    while k < ds.len()
        invariant
            k <= ds@.len(),
            forall|j: int| 0 <= j < k ==> (#[trigger] ds@[j]).class_id != class_id,
            match find_dynamic(ds@, class_id) {
                Some(i) => 0 <= i < ds@.len() && ds@[i].class_id == class_id && forall|j: int|
                    0 <= j < i ==> ds@[j].class_id != class_id,
                None => forall|j: int|
                    0 <= j < ds@.len() ==> (#[trigger] ds@[j]).class_id != class_id,
            },
        decreases ds@.len() - k,
    {
        if ds[k].class_id == class_id {
            return Some(k);
        }
        k += 1;
    }
    None
}

/// Applies the authoritative dynamic-score overlay to one subject: the
/// first entry whose class id matches (if any) supersedes the bottom-up
/// total score, sets the extra credit against the previously rounded
/// total, recomputes grade points and level from the new score under the
/// subject's own regime table and the non-weighted table, and adopts the
/// server's in-grade flag. Without a matching entry the subject is left
/// exactly as computed bottom-up.
pub fn overlay_subject(
    subject: &mut Subject,
    dynamic_scores: &Vec<SubjectDynamicScore>,
    weighted: &Vec<ScoreMappingConfig>,
    non_weighted: &Vec<ScoreMappingConfig>,
)
    requires
        old(subject).wf(),
        dynamic_scores_bounded(dynamic_scores@),
        table_entries_bounded(weighted@),
        table_entries_bounded(non_weighted@),
    ensures
        final(subject).wf(),
        match find_dynamic(dynamic_scores@, old(subject).class_id) {
            None => *final(subject) == *old(subject),
            Some(k) => {
                &&& frac_opt_is(final(subject).total_score, spec_new_score(dynamic_scores@[k]))
                &&& frac_opt_is(
                    final(subject).extra_credit,
                    spec_extra_credit(spec_new_score(dynamic_scores@[k]), old(subject).total_score),
                )
                &&& final(subject).gpa == spec_gpa_from_score(
                    final(subject).total_score,
                    id_table(old(subject).score_mapping_list_id, weighted@, non_weighted@),
                )
                &&& final(subject).unweighted_gpa == spec_gpa_from_score(
                    final(subject).total_score,
                    non_weighted@,
                )
                &&& final(subject).score_level@ == spec_level_from_score(
                    final(subject).total_score,
                    id_table(old(subject).score_mapping_list_id, weighted@, non_weighted@),
                )
                &&& final(subject).in_gpa == dynamic_scores@[k].is_in_grade
                &&& final(subject).subject_name == old(subject).subject_name
                &&& final(subject).subject_id == old(subject).subject_id
                &&& final(subject).class_id == old(subject).class_id
                &&& final(subject).evaluation_projects == old(subject).evaluation_projects
                &&& final(subject).score_mapping_list_id == old(subject).score_mapping_list_id
                &&& final(subject).max_gpa == old(subject).max_gpa
                &&& final(subject).unweighted_max_gpa == old(subject).unweighted_max_gpa
                &&& final(subject).elective == old(subject).elective
                &&& final(subject).weight == old(subject).weight
            },
        },
{
    let found = find_dynamic_index(dynamic_scores, subject.class_id);
    let k: usize = match found {
        Option::None => {
            return ;
        },
        Option::Some(k) => k,
    };
    let rec = dynamic_scores[k];
    proof {
        assert(find_dynamic(dynamic_scores@, old(subject).class_id) == Some(k as int));
    }
    let new_score: Option<Frac> = match rec.subject_score {
        Option::None => Option::None,
        Option::Some(ss) => {
            let st = rec.subject_total_score;
            if st == 0 {
                Option::None
            } else if st > 0 {
                Option::Some(Frac { num: (ss as i128) * 100, den: st as i128 })
            } else {
                Option::Some(Frac { num: -((ss as i128) * 100), den: -(st as i128) })
            }
        },
    };
    proof {
        assert(frac_opt_is(new_score, spec_new_score(rec)));
        match new_score {
            Option::Some(f) => {
                assert(f.score_bounded()) by (nonlinear_arith)
                    requires
                        f.den >= 1,
                        -100_000_000 <= f.num <= 100_000_000,
                        f.den <= 1_000_000,
                        f.score_bounded() == (0 < f.den <= crate::frac::SCORE_DEN_LIMIT && -(
                        crate::frac::SCORE_VAL_LIMIT * f.den) <= f.num <= crate::frac::SCORE_VAL_LIMIT
                            * f.den),
                ;
            },
            Option::None => {},
        }
    }
    let rounded_old: Option<i128> = match &subject.total_score {
        Option::None => Option::None,
        Option::Some(f) => {
            proof {
                crate::frac::lemma_score_bounded_round_fits(*f, 10);
            }
            Option::Some(f.round_half_up(10))
        },
    };
    let extra: Option<Frac> = match (&new_score, &rounded_old) {
        (Option::Some(f_new), Option::Some(t)) => {
            let tf = Frac { num: *t, den: 10 };
            proof {
                assert(-10_000_000_000 <= tf.num <= 10_000_000_000);
                assert(1 <= f_new.den <= 1_000_000 && -100_000_000 <= f_new.num <= 100_000_000);
                assert(-1_000_000_000_000int <= f_new.num * tf.den <= 1_000_000_000_000int
                    && -100_000_000_000_000_000int <= tf.num * f_new.den
                    <= 100_000_000_000_000_000int && 1 <= f_new.den * tf.den <= 100_000_000int)
                    by (nonlinear_arith)
                    requires
                        -10_000_000_000 <= tf.num <= 10_000_000_000,
                        tf.den == 10,
                        1 <= f_new.den <= 1_000_000,
                        -100_000_000 <= f_new.num <= 100_000_000,
                ;
            }
            Option::Some(f_new.sub(&tf))
        },
        _ => Option::None,
    };
    let own_table: &Vec<ScoreMappingConfig> = match subject.score_mapping_list_id {
        ScoreMappingId::Weighted => weighted,
        ScoreMappingId::NonWeighted => non_weighted,
    };
    let gpa = gpa_from_score(&new_score, own_table);
    let unweighted_gpa = gpa_from_score(&new_score, non_weighted);
    let score_level = score_level_from_score(&new_score, own_table);
    proof {
        lemma_gpa_in_table_bounds(new_score, own_table@);
        lemma_gpa_in_table_bounds(new_score, non_weighted@);
    }
    subject.total_score = new_score;
    subject.extra_credit = extra;
    subject.gpa = gpa;
    subject.unweighted_gpa = unweighted_gpa;
    subject.score_level = score_level;
    subject.in_gpa = rec.is_in_grade;
}

/// No project of the sibling set is null.
pub open spec fn all_non_null(s: Seq<EvaluationProject>) -> bool {
    forall|i: int| 0 <= i < s.len() ==> !(#[trigger] s[i]).score_is_null
}

/// Sum of the adjusted-proportion numerators over a sibling set,
/// undetermined ones contributing nothing.
pub open spec fn adjusted_num_sum(s: Seq<EvaluationProject>) -> int
    decreases s.len(),
{
    if s.len() == 0 {
        0
    } else {
        adjusted_num_sum(s.drop_last()) + match s.last().adjusted_proportion {
            Some(f) => f.num as int,
            None => 0int,
        }
    }
}

/// Sum of the adjusted-proportion numerators over the non-null projects of
/// a sibling set.
pub open spec fn adjusted_num_sum_eligible(s: Seq<EvaluationProject>) -> int
    decreases s.len(),
{
    if s.len() == 0 {
        0
    } else {
        adjusted_num_sum_eligible(s.drop_last()) + if s.last().score_is_null {
            0int
        } else {
            match s.last().adjusted_proportion {
                Some(f) => f.num as int,
                None => 0int,
            }
        }
    }
}

/// Folding the pointwise shape of normalized adjusted proportions into the
/// eligible sum: the non-null numerators add up to the frame numerator
/// scaled by the non-null proportion total.
proof fn lemma_adjusted_sums_rec(new: Seq<EvaluationProject>, old: Seq<EvaluationProject>, fnum: int)
    requires
        new.len() == old.len(),
        forall|i: int|
            0 <= i < new.len() ==> (#[trigger] new[i]).score_is_null == old[i].score_is_null && (
            new[i].adjusted_proportion matches Some(f) && f.num == old[i].proportion * fnum),
    ensures
        adjusted_num_sum_eligible(new) == fnum * sib_total(old),
    decreases new.len(),
{
    if new.len() == 0 {
        assert(fnum * 0 == 0) by (nonlinear_arith);
    } else {
        lemma_adjusted_sums_rec(new.drop_last(), old.drop_last(), fnum);
        let p: int = if old.last().score_is_null {
            0
        } else {
            old.last().proportion as int
        };
        assert(fnum * (sib_total(old.drop_last()) + p) == fnum * sib_total(old.drop_last()) + p
            * fnum) by (nonlinear_arith);
    }
}

/// With every entry non-null, the two adjusted sums agree.
proof fn lemma_adjusted_sum_all_eligible(s: Seq<EvaluationProject>)
    requires
        all_non_null(s),
    ensures
        adjusted_num_sum(s) == adjusted_num_sum_eligible(s),
    decreases s.len(),
{
    if s.len() > 0 {
        lemma_adjusted_sum_all_eligible(s.drop_last());
    }
}

/// Normalization meets its frame exactly: in a normalized sibling set whose
/// non-null proportion total is not zero, every project — null or not —
/// carries an adjusted proportion over the common denominator
/// `sib_total · fden`, with numerator `proportion · fnum`, and the non-null
/// numerators sum to exactly `fnum · sib_total`: the non-null adjusted
/// proportions sum to exactly the frame value `fnum / fden`, while null
/// projects stay out of the denominator yet still receive their (unused)
/// adjusted proportion.
pub proof fn lemma_adjusted_sum_matches_frame(
    new: Seq<EvaluationProject>,
    old: Seq<EvaluationProject>,
    fnum: int,
    fden: int,
)
    requires
        normalized_from(new, old, Some((fnum, fden))),
        sib_total(old) != 0,
    ensures
        forall|i: int|
            0 <= i < new.len() ==> ((#[trigger] new[i]).adjusted_proportion matches Some(f)
                && f.num == old[i].proportion * fnum && f.den == sib_total(old) * fden),
        adjusted_num_sum_eligible(new) == fnum * sib_total(old),
{
    assert forall|i: int| 0 <= i < new.len() implies ((#[trigger] new[i]).adjusted_proportion
        matches Some(f) && f.num == old[i].proportion * fnum && f.den == sib_total(old) * fden
        && new[i].score_is_null == old[i].score_is_null) by {
        assert(normalized_one(new[i], old[i], Some((fnum, fden)), sib_total(old)));
    }
    lemma_adjusted_sums_rec(new, old, fnum);
}

/// At the root frame, for a sibling set where all entries are non-null and
/// the raw proportions do not sum to zero, the adjusted proportions sum to
/// exactly 100: their numerators total `100 · sib_total` over the common
/// denominator `sib_total`.
pub proof fn lemma_root_adjusted_sum_is_100(
    new: Seq<EvaluationProject>,
    old: Seq<EvaluationProject>,
)
    requires
        normalized_from(new, old, Some((100int, 1int))),
        all_non_null(old),
        sib_total(old) != 0,
    ensures
        forall|i: int|
            0 <= i < new.len() ==> ((#[trigger] new[i]).adjusted_proportion matches Some(f)
                && f.den == sib_total(old)),
        adjusted_num_sum(new) == 100 * sib_total(old),
{
    lemma_adjusted_sum_matches_frame(new, old, 100, 1);
    assert(all_non_null(new)) by {
        assert forall|i: int| 0 <= i < new.len() implies !(#[trigger] new[i]).score_is_null by {
            assert(normalized_one(new[i], old[i], Some((100int, 1int)), sib_total(old)));
        }
    }
    lemma_adjusted_sum_all_eligible(new);
}

/// A single null sibling is excluded from the normalization denominator —
/// `sib_total` ranges over the others alone — but still receives a
/// computed adjusted proportion over that same denominator, and the
/// remaining (non-null) adjusted proportions still sum to exactly the
/// frame.
pub proof fn lemma_null_sibling_excluded_but_assigned(
    new: Seq<EvaluationProject>,
    old: Seq<EvaluationProject>,
    k: int,
)
    requires
        normalized_from(new, old, Some((100int, 1int))),
        0 <= k < old.len(),
        old[k].score_is_null,
        sib_total(old) != 0,
    ensures
        (new[k].adjusted_proportion matches Some(f) && f.num == old[k].proportion * 100 && f.den
            == sib_total(old)),
        adjusted_num_sum_eligible(new) == 100 * sib_total(old),
{
    lemma_adjusted_sum_matches_frame(new, old, 100, 1);
}

/// A reduction with no eligible project is undetermined: the empty subject
/// and the all-null subject both score "unreleased", never zero.
pub proof fn lemma_score_undefined_without_eligible(s: Seq<EvaluationProject>)
    requires
        eligible_count(s) == 0,
    ensures
        spec_total_score(s) is None,
{
}

/// A sibling set whose projects are all null has no eligible project.
pub proof fn lemma_all_null_no_eligible(s: Seq<EvaluationProject>)
    requires
        forall|i: int| 0 <= i < s.len() ==> (#[trigger] s[i]).score_is_null,
    ensures
        eligible_count(s) == 0,
        spec_total_score(s) is None,
    decreases s.len(),
{
    if s.len() > 0 {
        lemma_all_null_no_eligible(s.drop_last());
    }
}

/// The share of one learning task: its achieved score over its full score,
/// as a percentage; undetermined for an ungraded task or a zero full
/// score.
pub open spec fn spec_task_percent(task: LearningTask) -> Option<(int, int)> {
    match task.score {
        None => None,
        Some(achieved) => spec_ratio_percent(achieved as int, task.total_score as int),
    }
}

/// Computes a learning task's percentage score for display.
pub fn learning_task_percent(task: &LearningTask) -> (r: Option<Frac>)
    requires
        match task.score {
            Some(v) => -MAX_RAW_SCORE <= v <= MAX_RAW_SCORE,
            None => true,
        },
        -MAX_RAW_SCORE <= task.total_score <= MAX_RAW_SCORE,
    ensures
        frac_opt_is(r, spec_task_percent(*task)),
        r matches Some(f) ==> f.score_bounded(),
{
    match task.score {
        Option::None => Option::None,
        Option::Some(achieved) => {
            let full = task.total_score;
            let r: Option<Frac> = if full == 0 {
                Option::None
            } else if full > 0 {
                Option::Some(Frac { num: (achieved as i128) * 100, den: full as i128 })
            } else {
                Option::Some(Frac { num: -((achieved as i128) * 100), den: -(full as i128) })
            };
            proof {
                match r {
                    Option::Some(f) => {
                        assert(-(crate::frac::SCORE_VAL_LIMIT * f.den) <= f.num
                            <= crate::frac::SCORE_VAL_LIMIT * f.den) by (nonlinear_arith)
                            requires
                                f.den >= 1,
                                -100_000_000 <= f.num <= 100_000_000,
                        ;
                    },
                    Option::None => {},
                }
            }
            r
        },
    }
}

/// Subject ids as fetched, with later duplicates removed and first-seen
/// order kept.
pub open spec fn spec_dedup_ids(s: Seq<u64>) -> Seq<u64>
    decreases s.len(),
{
    if s.len() == 0 {
        s
    } else if spec_dedup_ids(s.drop_last()).contains(s.last()) {
        spec_dedup_ids(s.drop_last())
    } else {
        spec_dedup_ids(s.drop_last()).push(s.last())
    }
}

/// Removes duplicate subject ids, keeping the first occurrence of each in
/// fetch order.
pub fn dedup_subject_ids(ids: &Vec<u64>) -> (r: Vec<u64>)
    ensures
        r@ == spec_dedup_ids(ids@),
{
    let mut out: Vec<u64> = Vec::new();
    let mut i: usize = 0;
    while i < ids.len()
        invariant
            i <= ids@.len(),
            out@ == spec_dedup_ids(ids@.take(i as int)),
        decreases ids@.len() - i,
    {
        proof {
            assert(ids@.take(i + 1).drop_last() =~= ids@.take(i as int));
            assert(ids@.take(i + 1).last() == ids@[i as int]);
        }
        if !contains_id(&out, ids[i]) {
            out.push(ids[i]);
        } else {
            proof {
                assert(out@.contains(ids@[i as int])) by {
                    let j = choose|j: int| 0 <= j < out@.len() && out@[j] == ids@[i as int];
                    assert(out@[j] == ids@[i as int]);
                }
            }
        }
        i += 1;
    }
    proof {
        assert(ids@.take(ids@.len() as int) =~= ids@);
    }
    out
}

/// Sum of `score · adjusted-proportion numerator` over the non-null
/// projects of a sibling set.
pub open spec fn adjusted_score_dot(s: Seq<EvaluationProject>) -> int
    decreases s.len(),
{
    if s.len() == 0 {
        0
    } else {
        adjusted_score_dot(s.drop_last()) + if s.last().score_is_null {
            0int
        } else {
            match s.last().adjusted_proportion {
                Some(f) => (s.last().score * f.num) as int,
                None => 0int,
            }
        }
    }
}

/// Folds the pointwise adjusted shape into the score-weighted sum.
proof fn lemma_adjusted_score_dot_rec(
    new: Seq<EvaluationProject>,
    old: Seq<EvaluationProject>,
)
    requires
        new.len() == old.len(),
        forall|i: int|
            0 <= i < new.len() ==> (#[trigger] new[i]).score_is_null == old[i].score_is_null
                && new[i].score == old[i].score && (new[i].adjusted_proportion matches Some(f)
                && f.num == old[i].proportion * 100),
    ensures
        adjusted_score_dot(new) == 100 * score_dot(old),
    decreases new.len(),
{
    if new.len() == 0 {
    } else {
        lemma_adjusted_score_dot_rec(new.drop_last(), old.drop_last());
        if !old.last().score_is_null {
            let sc = old.last().score as int;
            let p = old.last().proportion as int;
            assert(sc * (p * 100) == 100 * (sc * p) && 100 * (score_dot(old.drop_last()) + sc * p)
                == 100 * score_dot(old.drop_last()) + 100 * (sc * p)) by (nonlinear_arith);
        } else {
            assert(100 * score_dot(old) == 100 * score_dot(old.drop_last())) by (nonlinear_arith)
                requires
                    score_dot(old) == score_dot(old.drop_last()),
            ;
        }
    }
}

/// The subject total is the scorer's defining reduction: over a
/// normalized root level, the sum of `score · adjusted_proportion / 100` of
/// the non-null projects equals the total score exactly. Both sides here
/// are scaled onto integers: each adjusted proportion has denominator
/// `sib_total` and scores are hundredths, so
/// `adjusted_score_dot / (10000 · sib_total)` — the left-hand value — equals
/// `score_dot / (100 · sib_total)` — the total score — exactly when
/// `adjusted_score_dot == 100 · score_dot`.
pub proof fn lemma_total_score_is_adjusted_reduction(
    new: Seq<EvaluationProject>,
    old: Seq<EvaluationProject>,
)
    requires
        normalized_from(new, old, Some((100int, 1int))),
        sib_total(old) != 0,
    ensures
        adjusted_score_dot(new) == 100 * score_dot(old),
        eligible_count(old) != 0 ==> (spec_total_score(old) matches Some((n, d)) && n == score_dot(
            old,
        ) && d == 100 * sib_total(old)),
{
    assert forall|i: int| 0 <= i < new.len() implies ((#[trigger] new[i]).score_is_null == old[i].score_is_null
        && new[i].score == old[i].score && (new[i].adjusted_proportion matches Some(f) && f.num
        == old[i].proportion * 100)) by {
        assert(normalized_one(new[i], old[i], Some((100int, 1int)), sib_total(old)));
    }
    lemma_adjusted_score_dot_rec(new, old);
}

} // verus!

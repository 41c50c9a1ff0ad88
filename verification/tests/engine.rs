//! End-to-end tests of the aggregation engine: normalization, scoring,
//! elective weighting, the dynamic-score overlay and GPA aggregation.
use tls_xb::frac::Frac;
use tls_xb::gpa::calculate_gpa;
use tls_xb::gpa::default_score_mapping_lists;
use tls_xb::gpa::ScoreMappingId;
use tls_xb::subject::adjust_weights;
use tls_xb::subject::dedup_subject_ids;
use tls_xb::subject::learning_task_percent;
use tls_xb::subject::normalize_evaluation_projects;
use tls_xb::subject::overlay_subject;
use tls_xb::subject::subject_total_score;
use tls_xb::subject::EvaluationProject;
use tls_xb::subject::LearningTask;
use tls_xb::subject::Subject;
use tls_xb::subject::SubjectDetail;
use tls_xb::subject::SubjectDynamicScore;

fn project(proportion: i64, score: i64, score_is_null: bool) -> EvaluationProject {
    EvaluationProject {
        evaluation_project_e_name: String::new(),
        proportion,
        score,
        score_level: String::new(),
        gpa: 0,
        score_is_null,
        learning_task_and_exam_list: Vec::new(),
        evaluation_project_list: Vec::new(),
        adjusted_proportion: None,
    }
}

fn frac_is(f: &Frac, value_num: i128, value_den: i128) -> bool {
    f.num * value_den == value_num * f.den
}

#[test]
fn adjusted_proportions_sum_to_100_when_all_non_null() {
    let projects = vec![project(4000, 9000, false), project(6000, 8000, false)];
    let normalized = normalize_evaluation_projects(projects);
    let a0 = normalized[0].adjusted_proportion.as_ref().unwrap();
    let a1 = normalized[1].adjusted_proportion.as_ref().unwrap();
    assert!(frac_is(a0, 40, 1));
    assert!(frac_is(a1, 60, 1));
    // Exact sum over the common denominator: 100.
    assert_eq!(a0.den, a1.den);
    assert_eq!(a0.num + a1.num, 100 * a0.den);
}

#[test]
fn null_sibling_excluded_from_denominator_but_assigned() {
    let projects = vec![project(4000, 9000, false), project(6000, 8000, true)];
    let normalized = normalize_evaluation_projects(projects);
    let a0 = normalized[0].adjusted_proportion.as_ref().unwrap();
    let a1 = normalized[1].adjusted_proportion.as_ref().unwrap();
    assert!(frac_is(a0, 100, 1));
    // The null project still receives a computed (unused) share: 60/40*100.
    assert!(frac_is(a1, 150, 1));
}

#[test]
fn sub_projects_scale_into_parent_share() {
    let mut parent = project(5000, 9000, false);
    parent.evaluation_project_list =
        vec![project(3000, 9000, false), project(1000, 8000, false)];
    let projects = vec![parent, project(5000, 8000, false)];
    let normalized = normalize_evaluation_projects(projects);
    let parent_adj = normalized[0].adjusted_proportion.as_ref().unwrap();
    assert!(frac_is(parent_adj, 50, 1));
    let s0 = normalized[0].evaluation_project_list[0]
        .adjusted_proportion
        .as_ref()
        .unwrap();
    let s1 = normalized[0].evaluation_project_list[1]
        .adjusted_proportion
        .as_ref()
        .unwrap();
    // 3/4 and 1/4 of the parent's 50.
    assert!(frac_is(s0, 75, 2));
    assert!(frac_is(s1, 25, 2));
}

#[test]
fn zero_total_yields_undetermined_adjusted_proportions() {
    let projects = vec![project(0, 9000, false), project(0, 8000, false)];
    let normalized = normalize_evaluation_projects(projects);
    assert!(normalized[0].adjusted_proportion.is_none());
    assert!(normalized[1].adjusted_proportion.is_none());
}

#[test]
fn total_score_weights_scores_by_proportion() {
    let projects = vec![project(4000, 9000, false), project(6000, 8000, false)];
    let total = subject_total_score(&projects).unwrap();
    // 90 * 0.4 + 80 * 0.6 = 84.
    assert!(frac_is(&total, 84, 1));
}

#[test]
fn total_score_skips_null_projects() {
    let projects = vec![project(4000, 9000, false), project(6000, 8000, true)];
    let total = subject_total_score(&projects).unwrap();
    assert!(frac_is(&total, 90, 1));
}

#[test]
fn empty_and_all_null_reductions_are_undetermined() {
    let empty: Vec<EvaluationProject> = Vec::new();
    assert!(subject_total_score(&empty).is_none());
    let all_null = vec![project(4000, 9000, true), project(6000, 8000, true)];
    assert!(subject_total_score(&all_null).is_none());
}

fn math_subject() -> Subject {
    let tables = default_score_mapping_lists();
    let detail = SubjectDetail {
        subject_name: "Math".to_string(),
        class_id: 7,
        subject_id: 11,
        semester_id: 3,
    };
    let projects = vec![project(4000, 9000, false), project(6000, 8000, false)];
    Subject::new(&detail, projects, &tables.weighted, &tables.non_weighted)
}

#[test]
fn subject_new_builds_bottom_up_metrics() {
    let subject = math_subject();
    assert_eq!(subject.subject_name, "Math");
    assert_eq!(subject.class_id, 7);
    assert_eq!(subject.score_mapping_list_id, ScoreMappingId::NonWeighted);
    let total = subject.total_score.as_ref().unwrap();
    assert!(frac_is(total, 84, 1));
    // 84.0 falls in the B row of the non-weighted table.
    assert_eq!(subject.gpa, Some(300));
    assert_eq!(subject.unweighted_gpa, Some(300));
    assert_eq!(subject.score_level, "B");
    // A perfect 100 falls in the A+ row.
    assert_eq!(subject.max_gpa, Some(430));
    assert_eq!(subject.unweighted_max_gpa, Some(430));
    assert!(subject.in_gpa);
    assert!(!subject.elective);
    assert_eq!(subject.weight, 100);
    let extra = subject.extra_credit.as_ref().unwrap();
    assert!(frac_is(extra, 0, 1));
}

#[test]
fn weighted_subject_uses_weighted_table() {
    let tables = default_score_mapping_lists();
    let detail = SubjectDetail {
        subject_name: "AP Chemistry".to_string(),
        class_id: 9,
        subject_id: 12,
        semester_id: 3,
    };
    let projects = vec![project(10000, 9000, false)];
    let subject = Subject::new(&detail, projects, &tables.weighted, &tables.non_weighted);
    assert_eq!(subject.score_mapping_list_id, ScoreMappingId::Weighted);
    // 90.0 is A- : 4.2 weighted, 3.7 unweighted.
    assert_eq!(subject.gpa, Some(420));
    assert_eq!(subject.unweighted_gpa, Some(370));
    assert_eq!(subject.max_gpa, Some(480));
    assert_eq!(subject.unweighted_max_gpa, Some(430));
    assert_eq!(subject.score_level, "A-");
}

#[test]
fn elective_membership_sets_flag_and_weight() {
    let mut subject = math_subject();
    adjust_weights(&mut subject, &vec![5]);
    assert!(!subject.elective);
    assert_eq!(subject.weight, 100);
    subject.class_id = 5;
    adjust_weights(&mut subject, &vec![5]);
    assert!(subject.elective);
    assert_eq!(subject.weight, 50);
}

#[test]
fn humanities_weight_override_is_independent_of_elective_flag() {
    let tables = default_score_mapping_lists();
    let detail = SubjectDetail {
        subject_name: "C-Humanities".to_string(),
        class_id: 6,
        subject_id: 13,
        semester_id: 3,
    };
    let projects = vec![project(10000, 9000, false)];
    let mut subject = Subject::new(&detail, projects, &tables.weighted, &tables.non_weighted);
    adjust_weights(&mut subject, &vec![5]);
    assert!(!subject.elective);
    assert_eq!(subject.weight, 50);
}

#[test]
fn overlay_supersedes_bottom_up_score() {
    let tables = default_score_mapping_lists();
    let mut subject = math_subject();
    let dynamic = vec![SubjectDynamicScore {
        class_id: 7,
        subject_score: Some(17000),
        subject_total_score: 20000,
        is_in_grade: false,
    }];
    overlay_subject(&mut subject, &dynamic, &tables.weighted, &tables.non_weighted);
    let total = subject.total_score.as_ref().unwrap();
    assert!(frac_is(total, 85, 1));
    let extra = subject.extra_credit.as_ref().unwrap();
    // 85.0 against the previously rounded 84.0.
    assert!(frac_is(extra, 1, 1));
    // 85.0 is B in the non-weighted table.
    assert_eq!(subject.gpa, Some(300));
    assert_eq!(subject.score_level, "B");
    assert!(!subject.in_gpa);
    // The maximum achievable figures are not recomputed.
    assert_eq!(subject.max_gpa, Some(430));
}

#[test]
fn overlay_without_match_leaves_subject_untouched() {
    let tables = default_score_mapping_lists();
    let mut subject = math_subject();
    let dynamic = vec![SubjectDynamicScore {
        class_id: 999,
        subject_score: Some(17000),
        subject_total_score: 20000,
        is_in_grade: false,
    }];
    overlay_subject(&mut subject, &dynamic, &tables.weighted, &tables.non_weighted);
    assert!(frac_is(subject.total_score.as_ref().unwrap(), 84, 1));
    assert!(subject.in_gpa);
    assert!(frac_is(subject.extra_credit.as_ref().unwrap(), 0, 1));
}

#[test]
fn overlay_first_match_wins() {
    let tables = default_score_mapping_lists();
    let mut subject = math_subject();
    let dynamic = vec![
        SubjectDynamicScore {
            class_id: 7,
            subject_score: Some(17000),
            subject_total_score: 20000,
            is_in_grade: true,
        },
        SubjectDynamicScore {
            class_id: 7,
            subject_score: Some(10000),
            subject_total_score: 20000,
            is_in_grade: false,
        },
    ];
    overlay_subject(&mut subject, &dynamic, &tables.weighted, &tables.non_weighted);
    assert!(frac_is(subject.total_score.as_ref().unwrap(), 85, 1));
    assert!(subject.in_gpa);
}

#[test]
fn overlay_with_absent_score_is_undetermined() {
    let tables = default_score_mapping_lists();
    let mut subject = math_subject();
    let dynamic = vec![SubjectDynamicScore {
        class_id: 7,
        subject_score: None,
        subject_total_score: 20000,
        is_in_grade: true,
    }];
    overlay_subject(&mut subject, &dynamic, &tables.weighted, &tables.non_weighted);
    assert!(subject.total_score.is_none());
    assert!(subject.extra_credit.is_none());
    assert_eq!(subject.gpa, None);
    assert_eq!(subject.score_level, "");
}

#[test]
fn aggregate_weights_grade_points() {
    let a = math_subject();  // gpa 3.00, weight 100
    let mut b = math_subject();
    b.gpa = Some(400);
    b.unweighted_gpa = Some(400);
    b.weight = 50;
    let result = calculate_gpa(&vec![a, b]);
    // (300*100 + 400*50) / 150 = 333.33..
    let w = result.weighted_gpa.as_ref().unwrap();
    assert_eq!(w.num, 300 * 100 + 400 * 50);
    assert_eq!(w.den, 150);
    let mut c = math_subject();
    c.gpa = None;
    let result = calculate_gpa(&vec![c]);
    assert!(result.weighted_gpa.is_none());
    // The unweighted metric filters independently.
    assert!(result.unweighted_gpa.is_some());
}

#[test]
fn aggregate_of_nothing_is_undetermined() {
    let result = calculate_gpa(&Vec::new());
    assert!(result.weighted_gpa.is_none());
    assert!(result.unweighted_gpa.is_none());
    assert!(result.max_gpa.is_none());
    assert!(result.unweighted_max_gpa.is_none());
}

#[test]
fn learning_task_percent_is_share_of_full_score() {
    let task = LearningTask {
        name: "Quiz".to_string(),
        score: Some(4500),
        total_score: 5000,
    };
    let p = learning_task_percent(&task).unwrap();
    assert!(frac_is(&p, 90, 1));
    let ungraded = LearningTask {
        name: "Quiz".to_string(),
        score: None,
        total_score: 5000,
    };
    assert!(learning_task_percent(&ungraded).is_none());
}

#[test]
fn dedup_keeps_first_occurrences_in_order() {
    let ids = vec![3, 1, 3, 2, 1];
    assert_eq!(dedup_subject_ids(&ids), vec![3, 1, 2]);
}

#[test]
fn three_level_trees_normalize_through_every_level() {
    let mut grandchild_parent = project(6000, 9000, false);
    grandchild_parent.evaluation_project_list =
        vec![project(2000, 9000, false), project(2000, 9500, false)];
    let mut parent = project(5000, 9000, false);
    parent.evaluation_project_list = vec![grandchild_parent, project(3000, 8000, false)];
    let projects = vec![parent, project(5000, 8000, false)];
    let normalized = normalize_evaluation_projects(projects);
    let level2 = &normalized[0].evaluation_project_list[0];
    // 6000 of 9000 within the parent's 50: a third of the subject.
    assert!(frac_is(level2.adjusted_proportion.as_ref().unwrap(), 100, 3));
    let level3 = &level2.evaluation_project_list[0];
    // Half of the third.
    assert!(frac_is(level3.adjusted_proportion.as_ref().unwrap(), 100, 6));
}

#[test]
fn overlay_with_zero_full_score_is_undetermined() {
    let tables = default_score_mapping_lists();
    let mut subject = math_subject();
    let dynamic = vec![SubjectDynamicScore {
        class_id: 7,
        subject_score: Some(17000),
        subject_total_score: 0,
        is_in_grade: true,
    }];
    overlay_subject(&mut subject, &dynamic, &tables.weighted, &tables.non_weighted);
    assert!(subject.total_score.is_none());
    assert_eq!(subject.gpa, None);
    assert!(subject.in_gpa);
}

#[test]
fn fraction_helpers_behave() {
    let f = Frac { num: 100, den: 3 };
    let g = f.try_div_int(2).unwrap();
    assert_eq!((g.num, g.den), (100, 6));
    assert!(f.try_div_int(0).is_none());
    let a = Frac { num: 85, den: 1 };
    let b = Frac { num: 840, den: 10 };
    let d = a.sub(&b);
    // 85 - 84.0 == 1.
    assert!(frac_is(&d, 1, 1));
}

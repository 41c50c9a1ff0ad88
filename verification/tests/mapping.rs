//! Tests of the score-mapping tables: regime selection, rounding and
//! first-match lookup.
use tls_xb::frac::Frac;
use tls_xb::gpa::default_score_mapping_lists;
use tls_xb::gpa::get_score_mapping_list_id;
use tls_xb::gpa::gpa_from_score;
use tls_xb::gpa::is_weighted_subject;
use tls_xb::gpa::score_level_from_score;
use tls_xb::gpa::ScoreMappingConfig;
use tls_xb::gpa::ScoreMappingId;
use tls_xb::subject::SubjectDetail;

fn hundredths(value_hundredths: i128) -> Option<Frac> {
    Some(Frac { num: value_hundredths, den: 100 })
}

#[test]
fn regime_follows_subject_name() {
    assert!(is_weighted_subject("AP Chemistry"));
    assert!(is_weighted_subject("Math A Level"));
    assert!(is_weighted_subject("AS Physics"));
    assert!(!is_weighted_subject("Biology"));
    let detail = SubjectDetail {
        subject_name: "AP Chemistry".to_string(),
        class_id: 1,
        subject_id: 2,
        semester_id: 3,
    };
    assert_eq!(get_score_mapping_list_id(&detail), ScoreMappingId::Weighted);
    let detail = SubjectDetail {
        subject_name: "Biology".to_string(),
        class_id: 1,
        subject_id: 2,
        semester_id: 3,
    };
    assert_eq!(get_score_mapping_list_id(&detail), ScoreMappingId::NonWeighted);
}

#[test]
fn boundary_scores_round_half_up_to_one_decimal() {
    let tables = default_score_mapping_lists();
    // 89.95 and 89.96 round to 90.0: the A- bucket of the non-weighted table.
    assert_eq!(gpa_from_score(&hundredths(8995), &tables.non_weighted), Some(370));
    assert_eq!(gpa_from_score(&hundredths(8996), &tables.non_weighted), Some(370));
    // 89.94 rounds to 89.9: still B+.
    assert_eq!(gpa_from_score(&hundredths(8994), &tables.non_weighted), Some(330));
    assert_eq!(
        score_level_from_score(&hundredths(8995), &tables.non_weighted),
        "A-"
    );
    assert_eq!(
        score_level_from_score(&hundredths(8994), &tables.non_weighted),
        "B+"
    );
}

#[test]
fn gpa_and_level_select_the_same_bucket() {
    let tables = default_score_mapping_lists();
    let cases: [i128; 6] = [10000, 9695, 9000, 7300, 5990, 0];
    for score in cases {
        let total = hundredths(score);
        let gpa = gpa_from_score(&total, &tables.weighted);
        let level = score_level_from_score(&total, &tables.weighted);
        assert_eq!(gpa.is_some(), !level.is_empty());
        if let Some(g) = gpa {
            let row = tables
                .weighted
                .iter()
                .find(|c| c.display_name == level)
                .unwrap();
            assert_eq!(row.gpa, g);
        }
    }
}

#[test]
fn undetermined_and_unmatched_scores_map_to_nothing() {
    let tables = default_score_mapping_lists();
    assert_eq!(gpa_from_score(&None, &tables.non_weighted), None);
    assert_eq!(score_level_from_score(&None, &tables.non_weighted), "");
    // 250.0 is outside every configured range.
    assert_eq!(gpa_from_score(&hundredths(25000), &tables.non_weighted), None);
    assert_eq!(score_level_from_score(&hundredths(25000), &tables.non_weighted), "");
}

#[test]
fn first_matching_entry_wins_in_table_order() {
    // Overlapping ranges on purpose: the earlier row decides.
    let table = vec![
        ScoreMappingConfig {
            display_name: "High".to_string(),
            min_value: 5000,
            max_value: 10000,
            gpa: 400,
        },
        ScoreMappingConfig {
            display_name: "All".to_string(),
            min_value: 0,
            max_value: 10000,
            gpa: 100,
        },
    ];
    assert_eq!(gpa_from_score(&hundredths(7000), &table), Some(400));
    assert_eq!(score_level_from_score(&hundredths(7000), &table), "High");
    assert_eq!(gpa_from_score(&hundredths(1000), &table), Some(100));
}

#[test]
fn default_tables_hold_thirteen_rows_each() {
    let tables = default_score_mapping_lists();
    assert_eq!(tables.weighted.len(), 13);
    assert_eq!(tables.non_weighted.len(), 13);
    assert_eq!(tables.non_weighted[0].display_name, "A+");
    assert_eq!(tables.non_weighted[0].min_value, 9700);
    assert_eq!(tables.non_weighted[0].max_value, 10000);
    assert_eq!(tables.non_weighted[0].gpa, 430);
    assert_eq!(tables.weighted[0].gpa, 480);
    assert_eq!(tables.weighted[12].display_name, "F");
    assert_eq!(tables.weighted[12].gpa, 0);
    assert_eq!(tables.get(&ScoreMappingId::Weighted)[1].gpa, 450);
    assert_eq!(tables.get(&ScoreMappingId::NonWeighted)[1].gpa, 400);
}

#[test]
fn regime_names_render() {
    assert_eq!(ScoreMappingId::Weighted.name(), "Weighted");
    assert_eq!(ScoreMappingId::NonWeighted.name(), "Non-Weighted");
}

#[test]
fn rounding_is_half_up_at_one_decimal() {
    let f = Frac { num: 8995, den: 100 };
    assert_eq!(f.round_half_up(10), 900);
    let f = Frac { num: 8994, den: 100 };
    assert_eq!(f.round_half_up(10), 899);
    // Halves round towards positive infinity, also below zero.
    let f = Frac { num: -45, den: 100 };
    assert_eq!(f.round_half_up(10), -4);
    let f = Frac { num: -55, den: 100 };
    assert_eq!(f.round_half_up(10), -5);
    let f = Frac { num: 84, den: 1 };
    assert_eq!(f.try_round_half_up(100), Some(8400));
}

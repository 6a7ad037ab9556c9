use wellness_core::errors::EvalError;
use wellness_core::psych_tests::{
    questions_for_test, validate_optional_range_string, validate_range_string, NewPsychTest,
    PsychTest, TestQuestion, TestQuestions, TestScore, UpdatePsychTest,
};
use wellness_core::score::Interpretation;

fn table(entries: &[(&str, &str)]) -> Vec<(String, String)> {
    entries.iter().map(|(k, v)| (k.to_string(), v.to_string())).collect()
}

#[test]
fn validator_accepts_well_formed_tables() {
    assert!(validate_range_string(&table(&[("0-9", "low"), ("10-20", "high")])));
    assert!(validate_range_string(&table(&[])));
}

#[test]
fn validator_rejects_any_malformed_key() {
    assert!(!validate_range_string(&table(&[("0-9", "low"), ("x", "bad")])));
    assert!(!validate_range_string(&table(&[("1-2-3", "bad")])));
}

#[test]
fn optional_validator_accepts_absent_tables() {
    assert!(validate_optional_range_string(&None));
    assert!(validate_optional_range_string(&Some(table(&[("0-9", "low")]))));
    assert!(!validate_optional_range_string(&Some(table(&[("", "bad")]))));
}

#[test]
fn new_test_validate_checks_its_interpretation_table() {
    let good = NewPsychTest {
        name: "GAD-7".to_string(),
        description: None,
        instructions: None,
        logo: None,
        points_reference: vec![(0, "never".to_string()), (3, "daily".to_string())],
        points_interpretation: table(&[("0-4", "minimal"), ("5-9", "mild")]),
    };
    assert!(good.validate());
    let bad = NewPsychTest { points_interpretation: table(&[("5", "bad")]), ..good };
    assert!(!bad.validate());
}

#[test]
fn update_test_validate_checks_a_supplied_table_only() {
    let absent = UpdatePsychTest {
        name: Some("GAD-7".to_string()),
        description: None,
        instructions: None,
        logo: None,
        points_reference: None,
        points_interpretation: None,
    };
    assert!(absent.validate());
    let present = UpdatePsychTest {
        points_interpretation: Some(table(&[("oops", "bad")])),
        ..absent
    };
    assert!(!present.validate());
}

fn sample_test() -> PsychTest {
    PsychTest {
        id: 1,
        name: "GAD-7".to_string(),
        description: None,
        instructions: None,
        logo: None,
        points_reference: vec![],
        points_interpretation: table(&[("10-20", "A"), ("21-30", "B")]),
    }
}

#[test]
fn evaluate_score_walks_the_stored_table() {
    let t = sample_test();
    assert_eq!(t.evaluate_score(15), Ok(Interpretation::Matched("A".to_string())));
    assert_eq!(t.evaluate_score(35), Ok(Interpretation::NoMatch));
}

#[test]
fn evaluate_score_surfaces_corrupt_stored_keys() {
    let mut t = sample_test();
    t.points_interpretation = table(&[("10-20", "A"), ("bad", "B")]);
    assert_eq!(t.evaluate_score(35), Err(EvalError::ConfigCorrupt));
}

#[test]
fn submitted_questions_attach_to_their_test() {
    let body = TestQuestions {
        questions: vec![
            TestQuestion { text: "Feeling nervous?".to_string() },
            TestQuestion { text: "Trouble relaxing?".to_string() },
        ],
    };
    let rows = questions_for_test(7, &body);
    assert_eq!(rows.len(), 2);
    assert!(rows.iter().all(|q| q.test_id == 7));
    assert_eq!(rows[0].text, "Feeling nervous?");
    assert_eq!(rows[1].text, "Trouble relaxing?");
}

#[test]
fn submitted_scores_reinterpret_as_unsigned() {
    assert_eq!(TestScore { score: 15 }.as_score(), 15);
    assert_eq!(TestScore { score: 0 }.as_score(), 0);
    // The evaluate operation reinterprets the signed body field, so a
    // negative score wraps.
    assert_eq!(TestScore { score: -1 }.as_score(), u32::MAX);
}

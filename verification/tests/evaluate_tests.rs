use evidence_backend::csv::records_from_text;
use evidence_backend::evaluate::{
    accuracy_line, case_from_record, escape_md, evaluation_cases, hit, join_lines, report_lines, report_row,
    required, score_case, tally, yn, CaseOutcome, EvalCase, EvalError, SearchResult,
};

fn result(file: &str, text: &str) -> SearchResult {
    SearchResult { file_name: file.to_string(), row_text: text.to_string() }
}

#[test]
fn hits_within_k() {
    let rs = vec![result("a.xlsx", "pump A"), result("b.xlsx", "valve B"), result("c.xlsx", "pump C")];
    assert!(hit(&rs, "a.xlsx", "pump", 1));
    assert!(!hit(&rs, "b.xlsx", "valve", 1));
    assert!(hit(&rs, "b.xlsx", "valve", 3));
    assert!(!hit(&rs, "b.xlsx", "pump", 5));
    assert!(hit(&rs, "c.xlsx", "", 5));
    assert!(!hit(&rs, "c.xlsx", "pump", 0));
    assert!(!hit(&[], "a", "b", 5));
}

#[test]
fn hit_monotone_example() {
    let rs = vec![result("x", "1"), result("y", "2"), result("z", "3"), result("w", "4")];
    for k in 0..6 {
        if hit(&rs, "z", "3", k) {
            assert!(hit(&rs, "z", "3", k + 1));
        }
    }
}

#[test]
fn yn_and_escape() {
    assert_eq!(yn(true), "Y");
    assert_eq!(yn(false), "N");
    assert_eq!(escape_md("a|b||c"), "a\\|b\\|\\|c");
    assert_eq!(escape_md("plain"), "plain");
}

#[test]
fn required_fields() {
    let recs = records_from_text("query,family\npump,\n").unwrap();
    assert_eq!(required(&recs[0], "query").ok().as_deref(), Some("pump"));
    match required(&recs[0], "expected_file") {
        Err(e) => {
            assert!(matches!(&e, EvalError::MissingField(k) if k == "expected_file"));
            assert_eq!(e.message(), "missing field: expected_file");
        }
        Ok(_) => panic!("field is missing"),
    }
}

#[test]
fn cases_from_gold() {
    let recs = records_from_text(
        "query,family,expected_file,expected_substring\npump,,a.xlsx,P-1\nvalve,F2,b.xlsx,V-2\n",
    )
    .unwrap();
    let cases = evaluation_cases(&recs).unwrap();
    assert_eq!(cases.len(), 2);
    assert_eq!(cases[0].query, "pump");
    assert_eq!(cases[0].family, None);
    assert_eq!(cases[1].family.as_deref(), Some("F2"));
    assert_eq!(cases[1].expected_substring, "V-2");
    let c = case_from_record(&recs[1]).unwrap();
    assert_eq!(c.expected_file, "b.xlsx");
}

#[test]
fn gold_errors() {
    let none = records_from_text("query,expected_file,expected_substring\n").unwrap();
    match evaluation_cases(&none) {
        Err(e) => {
            assert!(matches!(e, EvalError::EmptyGold));
            assert_eq!(e.message(), "gold file is empty");
        }
        Ok(_) => panic!("empty gold file"),
    }
    let recs = records_from_text("query,expected_file\npump,a.xlsx\n").unwrap();
    assert!(matches!(evaluation_cases(&recs), Err(EvalError::MissingField(k)) if k == "expected_substring"));
    let recs = records_from_text("family\nF\n").unwrap();
    assert!(matches!(evaluation_cases(&recs), Err(EvalError::MissingField(k)) if k == "query"));
}

fn case(file: &str, sub: &str) -> EvalCase {
    EvalCase {
        query: "q|1".to_string(),
        family: None,
        expected_file: file.to_string(),
        expected_substring: sub.to_string(),
    }
}

#[test]
fn scoring_and_tally() {
    let rs = vec![result("x", "a"), result("y", "b"), result("z", "c"), result("t", "d")];
    let o1 = score_case(&rs, &case("x", "a"));
    let o2 = score_case(&rs, &case("z", "c"));
    let o3 = score_case(&rs, &case("t", "d"));
    let o4 = score_case(&rs, &case("none", "a"));
    assert_eq!(o1, CaseOutcome { hit1: true, hit3: true, hit5: true });
    assert_eq!(o2, CaseOutcome { hit1: false, hit3: true, hit5: true });
    assert_eq!(o3, CaseOutcome { hit1: false, hit3: false, hit5: true });
    assert_eq!(o4, CaseOutcome { hit1: false, hit3: false, hit5: false });
    let t = tally(&vec![o1, o2, o3, o4]);
    assert_eq!((t.top1, t.top3, t.top5, t.cases), (1, 2, 3, 4));
    assert!(t.top1 <= t.top3 && t.top3 <= t.top5 && t.top5 <= t.cases);
}

#[test]
fn report_pieces() {
    let o = CaseOutcome { hit1: false, hit3: true, hit5: true };
    assert_eq!(report_row(&case("a|b.xlsx", "s"), o), "| q\\|1 | N | Y | Y | a\\|b.xlsx |");
    assert_eq!(accuracy_line("- top1_accuracy: ", "33.3", 1, 3), "- top1_accuracy: 33.3% (1/3)");
    assert_eq!(accuracy_line("top5_accuracy=", "100.0", 3, 3), "top5_accuracy=100.0% (3/3)");
}

#[test]
fn full_report() {
    let acc = vec![
        "- top1_accuracy: 50.0% (1/2)".to_string(),
        "- top3_accuracy: 50.0% (1/2)".to_string(),
        "- top5_accuracy: 100.0% (2/2)".to_string(),
    ];
    let rows = vec!["| a | Y | Y | Y | f |".to_string(), "| b | N | N | Y | g |".to_string()];
    let lines = report_lines("db.sqlite", "gold.csv", 2, &acc, &rows);
    let text = join_lines(&lines);
    let expected = "# Evaluation Report\n\n- db: db.sqlite\n- gold: gold.csv\n- cases: 2\n\
- top1_accuracy: 50.0% (1/2)\n- top3_accuracy: 50.0% (1/2)\n- top5_accuracy: 100.0% (2/2)\n\n\n\
| Query | Top1 | Top3 | Top5 | Expected File |\n|---|---:|---:|---:|---|\n| a | Y | Y | Y | f |\n| b | N | N | Y | g |";
    assert_eq!(text, expected);
    assert_eq!(join_lines(&lines), lines.join("\n"));
    assert_eq!(join_lines(&vec![]), "");
}

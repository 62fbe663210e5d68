use evidence_backend::app::{command_plan, ingest_manifest, ingest_xlsx, tally_run, Step};
use evidence_backend::config::{default_worker_count, AppConfig};
use evidence_backend::app::{
    after_document, manifest_summary, rebuild_summary, retry_decision, retry_line, search_head, search_row_lines,
    AttemptOutcome, DbAction, DocumentOutcome, RetryAction, SearchRow, WorkerMessage,
};
use evidence_backend::csv::parse_csv;
use evidence_backend::evaluate::{escape_md, search_request, search_requests, EvalCase};

#[test]
fn retry_lines() {
    assert_eq!(retry_line(42, 1), "retrying document_id=42 after lock attempt=1/6 delay_ms=150");
    assert_eq!(retry_line(-1, 5), "retrying document_id=-1 after lock attempt=5/6 delay_ms=750");
    assert_eq!(retry_decision(5, AttemptOutcome::Failed { locked: true }), RetryAction::Retry { delay_ms: 750 });
}

#[test]
fn after_success() {
    let (actions, message) =
        after_document(3, 17, "a.xlsx", DocumentOutcome::Ingested { section_count: 2, row_count: 9 });
    assert_eq!(actions.len(), 2);
    assert!(matches!(actions[0], DbAction::MarkParsed { document_id: 17 }));
    assert!(matches!(actions[1], DbAction::SyncProfile { document_id: 17 }));
    assert!(matches!(&message, WorkerMessage::Success { worker_id: 3, document_id: 17, path, section_count: 2, row_count: 9 } if path == "a.xlsx"));
}

#[test]
fn after_failure() {
    let (actions, message) = after_document(0, 5, "b.docx", DocumentOutcome::Failed { error: "bad zip".to_string() });
    assert_eq!(actions.len(), 2);
    assert!(matches!(&actions[0], DbAction::MarkError { document_id: 5, message } if message == "bad zip"));
    assert!(matches!(actions[1], DbAction::SyncProfile { document_id: 5 }));
    assert!(matches!(&message, WorkerMessage::Failure { worker_id: 0, document_id: 5, error } if error == "bad zip"));
}

#[test]
fn manifest_and_rebuild_lines() {
    assert_eq!(
        manifest_summary("m.csv", 10, 8, 7),
        vec!["ingest-manifest complete", "manifest=m.csv", "rows=10", "upserted=8", "document_profiles_synced=7"]
    );
    assert_eq!(rebuild_summary(12), vec!["rebuild-document-index complete", "document_profiles_synced=12"]);
}

#[test]
fn search_lines() {
    assert_eq!(search_head("pump", 2), vec!["search keyword=pump", "result_count=2"]);
    let row = SearchRow {
        document_id: 4,
        file_name: "f.xlsx".to_string(),
        document_family: "F".to_string(),
        original_path: "p/f.xlsx".to_string(),
        sheet_name: "S1".to_string(),
        row_index: 12,
        equipment_no: Some("E-1".to_string()),
        work_name: None,
        part_name: Some("valve".to_string()),
        normalized_date: None,
        row_text: "text".to_string(),
    };
    assert_eq!(
        search_row_lines(0, &row, "1.5"),
        vec![
            "--- result 1 ---",
            "document_id=4",
            "file_name=f.xlsx",
            "document_family=F",
            "original_path=p/f.xlsx",
            "sheet_name=S1",
            "row_index=12",
            "score=1.5",
            "equipment_no=E-1",
            "work_name=",
            "part_name=valve",
            "normalized_date=",
            "row_text=text",
        ]
    );
}

#[test]
fn requests_for_cases() {
    let c1 = EvalCase {
        query: "pump".to_string(),
        family: None,
        expected_file: "a".to_string(),
        expected_substring: "b".to_string(),
    };
    let c2 = EvalCase { family: Some("F".to_string()), query: "valve".to_string(), ..c1.clone() };
    let r = search_request(&c2);
    assert_eq!((r.keyword.as_str(), r.family.as_deref(), r.limit), ("valve", Some("F"), 5));
    let rs = search_requests(&vec![c1, c2]);
    assert_eq!(rs.len(), 2);
    assert_eq!((rs[0].keyword.as_str(), rs[0].family.as_deref(), rs[0].limit), ("pump", None, 5));
    assert_eq!(rs[1].keyword, "valve");
}

#[test]
fn trailing_line_end_example() {
    for t in ["a,b\nc", "\"x\"", "a\r", "", "a,", "\"q\"\"\""] {
        assert_eq!(parse_csv(t), parse_csv(&format!("{t}\n")), "{t:?}");
    }
    assert_eq!(parse_csv("\"a\",\"b\"\n\"c\""), parse_csv("\"a\",\"b\"\n\"c\"\n"));
}

fn unescape(s: &str) -> String {
    let c: Vec<char> = s.chars().collect();
    let mut out = Vec::new();
    let mut i = c.len();
    while i > 0 {
        if i >= 2 && c[i - 1] == '|' && c[i - 2] == '\\' {
            out.push('|');
            i -= 2;
        } else {
            out.push(c[i - 1]);
            i -= 1;
        }
    }
    out.iter().rev().collect()
}

#[test]
fn escape_unescape_example() {
    for s in ["a|b", "\\|", "||", "plain", "\\", "\\\\|x|"] {
        let e = escape_md(s);
        assert_eq!(e.chars().count(), s.chars().count() + s.matches('|').count());
        assert_eq!(unescape(&e), s);
    }
}

fn config_for(words: &[&str]) -> AppConfig {
    AppConfig::from_args_with_separator(words.iter().map(|w| w.to_string()).collect(), '/').unwrap()
}

#[test]
fn manifest_and_ingest_plans() {
    let c = config_for(&["prog", "--db", "x.db", "--manifest", "m.csv"]);
    let steps = ingest_manifest(&c);
    assert_eq!(steps.len(), 6);
    assert!(matches!(&steps[0], Step::OpenDatabase { path } if path == "x.db"));
    assert!(matches!(&steps[2], Step::ReadManifest { path } if path == "m.csv"));
    assert!(matches!(steps[5], Step::ReportManifest));
    let steps = ingest_xlsx(&c, Some("F"), Some(3), None, Some(9));
    assert_eq!(steps.len(), 5);
    assert!(matches!(&steps[2], Step::ListIngestible { family: Some(f), limit: Some(3), document_id: Some(9) } if f == "F"));
    assert!(matches!(steps[4], Step::IngestListed { jobs: None }));
}

#[test]
fn command_plans() {
    let steps = command_plan(&config_for(&["prog", "--db", "x.db", "build-index"]));
    assert_eq!(steps.len(), 5 + 6 + 5);
    assert!(matches!(&steps[0], Step::EnsureParentDir { path } if path == "x.db"));
    assert!(matches!(steps[6], Step::ApplySchema));
    assert!(matches!(steps[13], Step::ListIngestible { family: None, limit: None, document_id: None }));
    let steps = command_plan(&config_for(&["prog", "search", "--keyword", "k", "--limit", "7"]));
    assert_eq!(steps.len(), 2);
    assert!(matches!(&steps[1], Step::SearchRows { keyword, family: None, limit: 7 } if keyword == "k"));
    let steps = command_plan(&config_for(&["prog", "evaluate", "--gold", "g.csv"]));
    assert_eq!(steps.len(), 3);
    assert!(matches!(&steps[1], Step::ReadGold { path } if path == "g.csv"));
    assert!(matches!(steps[2], Step::ScoreGold));
    let steps = command_plan(&config_for(&["prog"]));
    assert_eq!(steps.len(), 5);
    assert!(matches!(&steps[0], Step::Print { line } if line == "evidence_backend bootstrap"));
    let steps = command_plan(&config_for(&["prog", "rebuild-document-index"]));
    assert!(matches!(steps[3], Step::ReportRebuild));
}

#[test]
fn run_tally() {
    let msgs = vec![
        WorkerMessage::Success { worker_id: 0, document_id: 1, path: "a".to_string(), section_count: 1, row_count: 2 },
        WorkerMessage::Failure { worker_id: 1, document_id: 2, error: "x".to_string() },
        WorkerMessage::Success { worker_id: 1, document_id: 3, path: "b".to_string(), section_count: 0, row_count: 0 },
    ];
    let (t, lines) = tally_run(&msgs);
    assert_eq!((t.success, t.failed), (2, 1));
    assert_eq!(lines[1], "[worker 1] failed document_id=2 error=x");
    assert_eq!(lines[2], "[worker 1] ingested document_id=3 sections=0 rows=0 path=b");
}

#[test]
fn worker_default() {
    assert_eq!(default_worker_count(Some(8)), 8);
    assert_eq!(default_worker_count(None), 1);
}

#[test]
fn trailing_crlf_example() {
    for t in ["a,b\nc", "\"x\"", "a\r", "", "a,", "\"q\"\"\"", "\"open"] {
        assert_eq!(parse_csv(t), parse_csv(&format!("{t}\r\n")), "{t:?}");
        assert_eq!(parse_csv(t), parse_csv(&format!("{t}\r")), "{t:?}");
    }
}

#[test]
fn escape_replace_example() {
    for s in ["a|b", "\\|", "||", "plain", "\\", "\\\\|x|"] {
        let e = escape_md(s);
        assert_eq!(e.replace("\\|", "|"), s);
        let c: Vec<char> = e.chars().collect();
        for k in 0..c.len() {
            if c[k] == '|' {
                assert!(k >= 1 && c[k - 1] == '\\');
            }
        }
    }
    assert_eq!(escape_md("a|b"), "a\\|b");
}

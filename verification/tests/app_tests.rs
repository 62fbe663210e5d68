use evidence_backend::app::{
    boot_message, failure_line, ingest_format, ingest_summary, init_db, is_locked_error, retry_decision,
    run_query, serve, success_line, worker_count, AttemptOutcome, DocumentFormat, IngestError, IngestTally,
    RetryAction, Step, WorkerMessage, MAX_ATTEMPTS,
};
use evidence_backend::config::AppConfig;

fn config() -> AppConfig {
    let words: Vec<String> = ["prog", "--db", "d/e.db", "--manifest", "m.csv", "serve", "--bind", "h:1"]
        .iter()
        .map(|w| w.to_string())
        .collect();
    AppConfig::from_args_with_separator(words, '/').unwrap()
}

#[test]
fn serve_steps() {
    let steps = serve(&config());
    assert_eq!(steps.len(), 5);
    assert!(matches!(&steps[0], Step::EnsureParentDir { path } if path == "d/e.db"));
    assert!(matches!(&steps[1], Step::OpenDatabase { path } if path == "d/e.db"));
    assert!(matches!(steps[2], Step::ApplySchema));
    assert!(matches!(steps[3], Step::CloseDatabase));
    assert!(matches!(steps[4], Step::ServeHttp));
}

#[test]
fn init_db_steps() {
    let steps = init_db(&config());
    assert_eq!(steps.len(), 5);
    assert!(matches!(&steps[0], Step::EnsureParentDir { path } if path == "d/e.db"));
    assert!(matches!(steps[2], Step::ApplySchema));
    assert!(matches!(&steps[3], Step::Print { line } if line == "init-db complete"));
    assert!(matches!(&steps[4], Step::Print { line } if line == "db_path=d/e.db"));
}

#[test]
fn query_steps() {
    let steps = run_query(&config(), "select count(*) from documents");
    assert_eq!(steps.len(), 2);
    assert!(matches!(&steps[0], Step::OpenDatabase { path } if path == "d/e.db"));
    assert!(matches!(&steps[1], Step::RunSelect { sql } if sql == "select count(*) from documents"));
}

#[test]
fn boot_lines() {
    let lines = boot_message(&config());
    assert_eq!(
        lines,
        vec![
            "evidence_backend bootstrap".to_string(),
            "db_path=d/e.db".to_string(),
            "staged_manifest=m.csv".to_string(),
            "staged_files_root=../../data/rag_stage/files".to_string(),
            "http_bind=h:1".to_string(),
        ]
    );
}

#[test]
fn locked_errors() {
    assert!(is_locked_error("database is locked"));
    assert!(is_locked_error("Error: DATABASE IS LOCKED (code 5)"));
    assert!(!is_locked_error("database is busy"));
    assert!(!is_locked_error(""));
}

#[test]
fn retry_rule() {
    assert_eq!(retry_decision(1, AttemptOutcome::Succeeded), RetryAction::Finish);
    assert_eq!(retry_decision(1, AttemptOutcome::Failed { locked: true }), RetryAction::Retry { delay_ms: 150 });
    assert_eq!(retry_decision(5, AttemptOutcome::Failed { locked: true }), RetryAction::Retry { delay_ms: 750 });
    assert_eq!(retry_decision(6, AttemptOutcome::Failed { locked: true }), RetryAction::GiveUp);
    assert_eq!(retry_decision(2, AttemptOutcome::Failed { locked: false }), RetryAction::GiveUp);
    assert_eq!(retry_decision(6, AttemptOutcome::Succeeded), RetryAction::Finish);
}

#[test]
fn retry_bounded_example() {
    // a database that stays locked: six attempts, 2250 ms of waiting in all
    let mut attempts = 0;
    let mut waited = 0u64;
    let mut attempt = 1;
    loop {
        attempts += 1;
        match retry_decision(attempt, AttemptOutcome::Failed { locked: true }) {
            RetryAction::Retry { delay_ms } => {
                waited += delay_ms;
                attempt += 1;
            }
            _ => break,
        }
    }
    assert_eq!(attempts, MAX_ATTEMPTS);
    assert_eq!(waited, 2250);
}

#[test]
fn formats() {
    assert_eq!(ingest_format(".xlsx").ok(), Some(DocumentFormat::Spreadsheet));
    assert_eq!(ingest_format(".XLSM").ok(), Some(DocumentFormat::Spreadsheet));
    assert_eq!(ingest_format(".docx").ok(), Some(DocumentFormat::OfficeXml));
    assert_eq!(ingest_format(".PpTx").ok(), Some(DocumentFormat::OfficeXml));
    assert_eq!(ingest_format(".pptm").ok(), Some(DocumentFormat::OfficeXml));
    match ingest_format(".PDF") {
        Err(e) => {
            assert!(matches!(&e, IngestError::UnsupportedExtension(x) if x == ".pdf"));
            assert_eq!(e.message(), "unsupported extension for ingest: .pdf");
        }
        Ok(_) => panic!("pdf is not ingested"),
    }
    assert!(ingest_format("xlsx").is_err());
}

#[test]
fn workers() {
    assert_eq!(worker_count(Some(4), 8, 10), 4);
    assert_eq!(worker_count(None, 8, 10), 8);
    assert_eq!(worker_count(Some(0), 8, 10), 1);
    assert_eq!(worker_count(Some(16), 8, 3), 3);
    assert_eq!(worker_count(Some(16), 8, 0), 1);
    assert_eq!(worker_count(None, 0, 0), 1);
}

#[test]
fn summary_lines() {
    let lines = ingest_summary(Some("F"), Some(10), 4, Some(-3), 7, 1);
    assert_eq!(
        lines,
        vec![
            "ingest-documents complete",
            "family=F",
            "limit=10",
            "jobs=4",
            "document_id=-3",
            "success=7",
            "failed=1"
        ]
    );
    let lines = ingest_summary(None, None, 1, None, 0, 0);
    assert_eq!(lines[1], "family=");
    assert_eq!(lines[2], "limit=");
    assert_eq!(lines[4], "document_id=");
}

#[test]
fn worker_lines() {
    assert_eq!(
        success_line(2, 15, 3, 120, "a/b.xlsx"),
        "[worker 2] ingested document_id=15 sections=3 rows=120 path=a/b.xlsx"
    );
    assert_eq!(failure_line(0, 9, "bad zip"), "[worker 0] failed document_id=9 error=bad zip");
    let mut t = IngestTally::new();
    let l1 = t.record(&WorkerMessage::Success {
        worker_id: 1,
        document_id: 2,
        path: "p".to_string(),
        section_count: 3,
        row_count: 4,
    });
    let l2 = t.record(&WorkerMessage::Failure { worker_id: 1, document_id: 5, error: "e".to_string() });
    assert_eq!(l1, "[worker 1] ingested document_id=2 sections=3 rows=4 path=p");
    assert_eq!(l2, "[worker 1] failed document_id=5 error=e");
    assert_eq!(t, IngestTally { success: 1, failed: 1 });
}

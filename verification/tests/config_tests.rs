use evidence_backend::config::{default_data_path, AppConfig, Command, ConfigError, Flag};
use evidence_backend::number::IntErrorKind;

fn args(words: &[&str]) -> Vec<String> {
    words.iter().map(|w| w.to_string()).collect()
}

fn parse(words: &[&str]) -> Result<AppConfig, ConfigError> {
    AppConfig::from_args_with_separator(args(words), '/')
}

#[test]
fn serve_with_bind() {
    let c = parse(&["prog", "serve", "--bind", "127.0.0.1:8080"]).unwrap();
    assert_eq!(c.http_bind, "127.0.0.1:8080");
    assert!(matches!(c.command, Command::Serve));
    let c = parse(&["prog", "serve", "--bind", "0.0.0.0:9000"]).unwrap();
    assert_eq!(c.http_bind, "0.0.0.0:9000");
}

#[test]
fn defaults_with_slash() {
    let c = parse(&["prog"]).unwrap();
    assert_eq!(c.db_path, "../../data/backend/evidence.db");
    assert_eq!(c.staged_manifest, "../../data/rag_stage/manifests/manifest.csv");
    assert_eq!(c.staged_files_root, "../../data/rag_stage/files");
    assert_eq!(c.http_bind, "127.0.0.1:8080");
    assert!(matches!(c.command, Command::PrintConfig));
    let c = parse(&[]).unwrap();
    assert!(matches!(c.command, Command::PrintConfig));
}

#[test]
fn defaults_with_backslash() {
    let c = AppConfig::from_args_with_separator(args(&["prog"]), '\\').unwrap();
    assert_eq!(c.db_path, "..\\..\\data\\backend\\evidence.db");
}

#[test]
fn default_follows_platform_separator() {
    let c = AppConfig::default();
    let sep = std::path::MAIN_SEPARATOR;
    assert_eq!(c.db_path, format!("..{sep}..{sep}data{sep}backend{sep}evidence.db"));
    let d = AppConfig::from_args(args(&["prog"])).unwrap();
    assert_eq!(d.db_path, c.db_path);
}

#[test]
fn data_path_joins_parts() {
    assert_eq!(default_data_path(&["a", "b.txt"], '/'), "../../data/a/b.txt");
    assert_eq!(default_data_path(&[], '/'), "../../data");
}

#[test]
fn global_paths() {
    let c = parse(&["prog", "--db", "x.db", "--manifest", "m.csv", "--files-root", "root", "init-db"]).unwrap();
    assert_eq!(c.db_path, "x.db");
    assert_eq!(c.staged_manifest, "m.csv");
    assert_eq!(c.staged_files_root, "root");
    assert!(matches!(c.command, Command::InitDb));
    let c = parse(&["prog", "init-db", "--db", "y.db"]).unwrap();
    assert_eq!(c.db_path, "y.db");
}

#[test]
fn missing_values() {
    assert!(matches!(parse(&["prog", "--db"]), Err(ConfigError::MissingValue(Flag::Db))));
    assert!(matches!(parse(&["prog", "--manifest"]), Err(ConfigError::MissingValue(Flag::Manifest))));
    assert!(matches!(parse(&["prog", "--files-root"]), Err(ConfigError::MissingValue(Flag::FilesRoot))));
    assert!(matches!(parse(&["prog", "serve", "--bind"]), Err(ConfigError::MissingValue(Flag::Bind))));
    assert!(matches!(parse(&["prog", "evaluate", "--gold"]), Err(ConfigError::MissingValue(Flag::Gold))));
    assert!(matches!(
        parse(&["prog", "ingest-documents", "--document-id"]),
        Err(ConfigError::MissingValue(Flag::DocumentId))
    ));
    let e = parse(&["prog", "--db"]).unwrap_err();
    assert_eq!(e.message(), "missing value after --db");
}

#[test]
fn simple_commands() {
    assert!(matches!(parse(&["prog", "print-config"]).unwrap().command, Command::PrintConfig));
    assert!(matches!(parse(&["prog", "ingest-manifest"]).unwrap().command, Command::IngestManifest));
    assert!(matches!(
        parse(&["prog", "rebuild-document-index"]).unwrap().command,
        Command::RebuildDocumentIndex
    ));
    assert!(matches!(parse(&["prog", "build-index"]).unwrap().command, Command::BuildIndex));
    assert!(matches!(parse(&["prog", "init-db", "build-index"]).unwrap().command, Command::BuildIndex));
}

#[test]
fn ingest_documents_options() {
    let c = parse(&["prog", "ingest-documents", "--family", "F", "--limit", "10", "--jobs", "4", "--document-id", "-7"])
        .unwrap();
    match c.command {
        Command::IngestDocuments { family, limit, jobs, document_id } => {
            assert_eq!(family.as_deref(), Some("F"));
            assert_eq!(limit, Some(10));
            assert_eq!(jobs, Some(4));
            assert_eq!(document_id, Some(-7));
        }
        _ => panic!("wrong command"),
    }
    let c = parse(&["prog", "ingest-xlsx"]).unwrap();
    assert!(matches!(
        c.command,
        Command::IngestDocuments { family: None, limit: None, jobs: None, document_id: None }
    ));
    let c = parse(&["prog", "ingest-xlsx", "--limit", "3", "--db", "z.db"]).unwrap();
    assert_eq!(c.db_path, "z.db");
    assert!(matches!(c.command, Command::IngestDocuments { limit: Some(3), .. }));
}

#[test]
fn invalid_numbers() {
    assert!(matches!(
        parse(&["prog", "ingest-documents", "--limit", "ten"]),
        Err(ConfigError::InvalidNumber(Flag::Limit, IntErrorKind::InvalidDigit))
    ));
    assert!(matches!(
        parse(&["prog", "ingest-documents", "--jobs", ""]),
        Err(ConfigError::InvalidNumber(Flag::Jobs, IntErrorKind::Empty))
    ));
    assert!(matches!(
        parse(&["prog", "ingest-documents", "--limit", "-1"]),
        Err(ConfigError::InvalidNumber(Flag::Limit, IntErrorKind::InvalidDigit))
    ));
    assert!(matches!(
        parse(&["prog", "ingest-documents", "--document-id", "9223372036854775808"]),
        Err(ConfigError::InvalidNumber(Flag::DocumentId, IntErrorKind::PosOverflow))
    ));
    assert!(matches!(
        parse(&["prog", "search", "--keyword", "k", "--limit", "x"]),
        Err(ConfigError::InvalidNumber(Flag::Limit, IntErrorKind::InvalidDigit))
    ));
    let e = parse(&["prog", "ingest-documents", "--limit", "ten"]).unwrap_err();
    assert_eq!(e.message(), "invalid digit found in string");
}

#[test]
fn evaluate_gold() {
    let c = parse(&["prog", "evaluate"]).unwrap();
    assert!(matches!(&c.command, Command::Evaluate { gold_path } if gold_path == "eval/evaluation_gold.csv"));
    let c = parse(&["prog", "evaluate", "--gold", "g.csv"]).unwrap();
    assert!(matches!(&c.command, Command::Evaluate { gold_path } if gold_path == "g.csv"));
}

#[test]
fn search_options() {
    let c = parse(&["prog", "search", "--keyword", "pump", "--family", "A", "--limit", "5"]).unwrap();
    match c.command {
        Command::Search { keyword, family, limit } => {
            assert_eq!(keyword, "pump");
            assert_eq!(family.as_deref(), Some("A"));
            assert_eq!(limit, 5);
        }
        _ => panic!("wrong command"),
    }
    let c = parse(&["prog", "search", "--keyword", "pump"]).unwrap();
    assert!(matches!(c.command, Command::Search { limit: 20, family: None, .. }));
}

#[test]
fn search_requires_keyword() {
    assert!(matches!(parse(&["prog", "search"]), Err(ConfigError::MissingKeyword)));
    assert!(matches!(parse(&["prog", "search", "--keyword", " \t "]), Err(ConfigError::MissingKeyword)));
    assert!(matches!(parse(&["prog", "search", "--keyword", "\u{3000}"]), Err(ConfigError::MissingKeyword)));
    assert!(matches!(parse(&["prog", "search", "--help"]), Err(ConfigError::MissingKeyword)));
    assert_eq!(parse(&["prog", "search"]).unwrap_err().message(), "search requires --keyword");
}

#[test]
fn query_command() {
    let c = parse(&["prog", "query", "select 1"]).unwrap();
    assert!(matches!(&c.command, Command::Query { sql } if sql == "select 1"));
    assert!(matches!(parse(&["prog", "query"]), Err(ConfigError::MissingSql)));
    assert_eq!(parse(&["prog", "query"]).unwrap_err().message(), "query requires a SQL string argument");
}

#[test]
fn help_and_unknown() {
    assert!(matches!(parse(&["prog", "--help"]), Err(ConfigError::HelpRequested)));
    assert!(matches!(parse(&["prog", "serve", "-h"]), Err(ConfigError::HelpRequested)));
    let e = parse(&["prog", "frobnicate"]).unwrap_err();
    assert!(matches!(&e, ConfigError::UnknownArgument(a) if a == "frobnicate"));
    assert_eq!(e.message(), "unknown argument: frobnicate");
    // an option of another subcommand is not taken
    assert!(matches!(parse(&["prog", "serve", "--gold", "x"]), Err(ConfigError::UnknownArgument(_))));
}

#[test]
fn law_search_has_keyword_examples() {
    for words in [
        &["prog", "search", "--keyword", "a"][..],
        &["prog", "search", "--keyword", "", "--keyword", "b"][..],
        &["prog", "search", "--keyword", "a", "init-db"][..],
    ] {
        if let Ok(c) = parse(words) {
            if let Command::Search { keyword, .. } = c.command {
                assert!(!keyword.trim().is_empty());
            }
        }
    }
}

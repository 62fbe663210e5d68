//! The decisions of the program's commands: what each command does, in which
//! order, when a database action is tried again, which documents a worker
//! ingests and how, and how an evaluation is scored and reported. The caller
//! performs the file, database and network work and hands the outcomes back.
use vstd::prelude::*;

use crate::config::{AppConfig, ConfigView};
use crate::text::{ascii_lower_seq, contains, occurs_in, owned, to_ascii_lowercase};

verus! {

// ---------------------------------------------------------------------------
// Command plans
// ---------------------------------------------------------------------------

/// One operation of a command that the caller performs on the outside world.
#[derive(Debug, Clone)]
pub enum Step {
    /// Create the directory that will hold the database file at `path`.
    EnsureParentDir { path: String },
    /// Open the database file at `path`.
    OpenDatabase { path: String },
    /// Create the tables and indexes that are missing.
    ApplySchema,
    /// Close the database opened before.
    CloseDatabase,
    /// Run the web server with the configuration.
    ServeHttp,
    /// Run a read-only SQL query and print its rows.
    RunSelect { sql: String },
    /// Print one line of output.
    Print { line: String },
    /// Read the records of the staged manifest CSV file at `path`.
    ReadManifest { path: String },
    /// Insert or update the documents that the manifest records describe.
    UpsertDocuments,
    /// Bring the search profile of every document up to date.
    SyncAllProfiles,
    /// Print `manifest_summary` of the manifest read and the counts of the two steps before.
    ReportManifest,
    /// Print `rebuild_summary` of the count of the step before.
    ReportRebuild,
    /// List the documents to ingest, limited to a family, a number or one document.
    ListIngestible { family: Option<String>, limit: Option<usize>, document_id: Option<i64> },
    /// Ingest the listed documents with `worker_count(jobs, ..)` workers, each
    /// document followed by `after_document`, and print `ingest_summary`.
    IngestListed { jobs: Option<usize> },
    /// Search the rows, and print `search_head` and `search_row_lines` of the results.
    SearchRows { keyword: String, family: Option<String>, limit: usize },
    /// Read the cases of the gold CSV file at `path`.
    ReadGold { path: String },
    /// Search once per case (`search_requests`), score and tally the results,
    /// write the report and print the accuracies.
    ScoreGold,
}

/// `Step` with its texts taken as character sequences.
pub enum StepView {
    EnsureParentDir { path: Seq<char> },
    OpenDatabase { path: Seq<char> },
    ApplySchema,
    CloseDatabase,
    ServeHttp,
    RunSelect { sql: Seq<char> },
    Print { line: Seq<char> },
    ReadManifest { path: Seq<char> },
    UpsertDocuments,
    SyncAllProfiles,
    ReportManifest,
    ReportRebuild,
    ListIngestible { family: Option<Seq<char>>, limit: Option<usize>, document_id: Option<i64> },
    IngestListed { jobs: Option<usize> },
    SearchRows { keyword: Seq<char>, family: Option<Seq<char>>, limit: usize },
    ReadGold { path: Seq<char> },
    ScoreGold,
}

impl View for Step {
    type V = StepView;

    open spec fn view(&self) -> StepView {
        match self {
            Step::EnsureParentDir { path } => StepView::EnsureParentDir { path: path@ },
            Step::OpenDatabase { path } => StepView::OpenDatabase { path: path@ },
            Step::ApplySchema => StepView::ApplySchema,
            Step::CloseDatabase => StepView::CloseDatabase,
            Step::ServeHttp => StepView::ServeHttp,
            Step::RunSelect { sql } => StepView::RunSelect { sql: sql@ },
            Step::Print { line } => StepView::Print { line: line@ },
            Step::ReadManifest { path } => StepView::ReadManifest { path: path@ },
            Step::UpsertDocuments => StepView::UpsertDocuments,
            Step::SyncAllProfiles => StepView::SyncAllProfiles,
            Step::ReportManifest => StepView::ReportManifest,
            Step::ReportRebuild => StepView::ReportRebuild,
            Step::ListIngestible { family, limit, document_id } => StepView::ListIngestible {
                family: crate::config::opt_view(*family),
                limit: *limit,
                document_id: *document_id,
            },
            Step::IngestListed { jobs } => StepView::IngestListed { jobs: *jobs },
            Step::SearchRows { keyword, family, limit } => StepView::SearchRows {
                keyword: keyword@,
                family: crate::config::opt_view(*family),
                limit: *limit,
            },
            Step::ReadGold { path } => StepView::ReadGold { path: path@ },
            Step::ScoreGold => StepView::ScoreGold,
        }
    }
}

/// The steps of a plan, taken by their views.
pub open spec fn steps_view(steps: Seq<Step>) -> Seq<StepView> {
    steps.map_values(|s: Step| s@)
}

/// What `serve` does: prepare the database file and its schema, close it,
/// and run the web server.
pub open spec fn serve_plan(cfg: ConfigView) -> Seq<StepView> {
    seq![
        StepView::EnsureParentDir { path: cfg.db_path },
        StepView::OpenDatabase { path: cfg.db_path },
        StepView::ApplySchema,
        StepView::CloseDatabase,
        StepView::ServeHttp,
    ]
}

/// The steps of `serve`, in order. The caller performs each one and stops at
/// the first that fails, reporting its error.
pub fn serve(config: &AppConfig) -> (steps: Vec<Step>)
    ensures
        steps_view(steps@) == serve_plan(config@),
{
    let mut steps: Vec<Step> = Vec::new();
    steps.push(Step::EnsureParentDir { path: config.db_path.clone() });
    steps.push(Step::OpenDatabase { path: config.db_path.clone() });
    steps.push(Step::ApplySchema);
    steps.push(Step::CloseDatabase);
    steps.push(Step::ServeHttp);
    assert(steps_view(steps@) =~= serve_plan(config@));
    steps
}

/// What `init-db` does: prepare the database file and its schema, then report.
pub open spec fn init_db_plan(cfg: ConfigView) -> Seq<StepView> {
    seq![
        StepView::EnsureParentDir { path: cfg.db_path },
        StepView::OpenDatabase { path: cfg.db_path },
        StepView::ApplySchema,
        StepView::Print { line: "init-db complete"@ },
        StepView::Print { line: "db_path="@ + cfg.db_path },
    ]
}

/// The steps of `init-db`, in order; the caller stops at the first failure.
pub fn init_db(config: &AppConfig) -> (steps: Vec<Step>)
    ensures
        steps_view(steps@) == init_db_plan(config@),
{
    let mut steps: Vec<Step> = Vec::new();
    steps.push(Step::EnsureParentDir { path: config.db_path.clone() });
    steps.push(Step::OpenDatabase { path: config.db_path.clone() });
    steps.push(Step::ApplySchema);
    steps.push(Step::Print { line: owned("init-db complete") });
    steps.push(Step::Print { line: crate::text::str_concat("db_path=", config.db_path.as_str()) });
    assert(steps_view(steps@) =~= init_db_plan(config@));
    steps
}

/// What `query` does: open the database and run the query.
pub open spec fn query_plan(cfg: ConfigView, sql: Seq<char>) -> Seq<StepView> {
    seq![StepView::OpenDatabase { path: cfg.db_path }, StepView::RunSelect { sql }]
}

/// The steps of `query`, in order; the caller stops at the first failure.
pub fn run_query(config: &AppConfig, sql: &str) -> (steps: Vec<Step>)
    ensures
        steps_view(steps@) == query_plan(config@, sql@),
{
    let mut steps: Vec<Step> = Vec::new();
    steps.push(Step::OpenDatabase { path: config.db_path.clone() });
    steps.push(Step::RunSelect { sql: owned(sql) });
    assert(steps_view(steps@) =~= query_plan(config@, sql@));
    steps
}

/// An optional borrowed text taken by its characters.
pub open spec fn opt_str_view(o: Option<&str>) -> Option<Seq<char>> {
    match o {
        Some(s) => Some(s@),
        None => None,
    }
}

fn owned_opt(o: Option<&str>) -> (r: Option<String>)
    ensures
        crate::config::opt_view(r) == opt_str_view(o),
{
    match o {
        Some(s) => Some(owned(s)),
        None => None,
    }
}

fn clone_opt(o: &Option<String>) -> (r: Option<String>)
    ensures
        crate::config::opt_view(r) == crate::config::opt_view(*o),
{
    match o {
        Some(s) => Some(s.clone()),
        None => None,
    }
}

fn append_steps(a: &mut Vec<Step>, b: Vec<Step>)
    ensures
        steps_view(final(a)@) == steps_view(old(a)@) + steps_view(b@),
{
    let ghost av = steps_view(a@);
    let ghost bv = steps_view(b@);
    let mut b = b;
    a.append(&mut b);
    assert(steps_view(a@) =~= av + bv);
}

/// What `ingest-manifest` does: read the manifest, store its documents,
/// refresh every profile and report the counts.
pub open spec fn manifest_plan(cfg: ConfigView) -> Seq<StepView> {
    seq![
        StepView::OpenDatabase { path: cfg.db_path },
        StepView::ApplySchema,
        StepView::ReadManifest { path: cfg.staged_manifest },
        StepView::UpsertDocuments,
        StepView::SyncAllProfiles,
        StepView::ReportManifest,
    ]
}

/// The steps of `ingest-manifest`, in order; the caller stops at the first failure.
pub fn ingest_manifest(config: &AppConfig) -> (steps: Vec<Step>)
    ensures
        steps_view(steps@) == manifest_plan(config@),
{
    let mut steps: Vec<Step> = Vec::new();
    steps.push(Step::OpenDatabase { path: config.db_path.clone() });
    steps.push(Step::ApplySchema);
    steps.push(Step::ReadManifest { path: config.staged_manifest.clone() });
    steps.push(Step::UpsertDocuments);
    steps.push(Step::SyncAllProfiles);
    steps.push(Step::ReportManifest);
    assert(steps_view(steps@) =~= manifest_plan(config@));
    steps
}

/// What `rebuild-document-index` does: refresh every profile and report the count.
pub open spec fn rebuild_plan(cfg: ConfigView) -> Seq<StepView> {
    seq![
        StepView::OpenDatabase { path: cfg.db_path },
        StepView::ApplySchema,
        StepView::SyncAllProfiles,
        StepView::ReportRebuild,
    ]
}

/// The steps of `rebuild-document-index`, in order; the caller stops at the first failure.
pub fn rebuild_document_index(config: &AppConfig) -> (steps: Vec<Step>)
    ensures
        steps_view(steps@) == rebuild_plan(config@),
{
    let mut steps: Vec<Step> = Vec::new();
    steps.push(Step::OpenDatabase { path: config.db_path.clone() });
    steps.push(Step::ApplySchema);
    steps.push(Step::SyncAllProfiles);
    steps.push(Step::ReportRebuild);
    assert(steps_view(steps@) =~= rebuild_plan(config@));
    steps
}

/// What `ingest-documents` does: list the documents, close the listing
/// connection and ingest them with workers.
pub open spec fn ingest_plan(
    cfg: ConfigView,
    family: Option<Seq<char>>,
    limit: Option<usize>,
    jobs: Option<usize>,
    document_id: Option<i64>,
) -> Seq<StepView> {
    seq![
        StepView::OpenDatabase { path: cfg.db_path },
        StepView::ApplySchema,
        StepView::ListIngestible { family, limit, document_id },
        StepView::CloseDatabase,
        StepView::IngestListed { jobs },
    ]
}

fn ingest_steps(
    config: &AppConfig,
    family: Option<String>,
    limit: Option<usize>,
    jobs: Option<usize>,
    document_id: Option<i64>,
) -> (steps: Vec<Step>)
    ensures
        steps_view(steps@) == ingest_plan(
            config@,
            crate::config::opt_view(family),
            limit,
            jobs,
            document_id,
        ),
{
    let ghost fv = crate::config::opt_view(family);
    let mut steps: Vec<Step> = Vec::new();
    steps.push(Step::OpenDatabase { path: config.db_path.clone() });
    steps.push(Step::ApplySchema);
    steps.push(Step::ListIngestible { family, limit, document_id });
    steps.push(Step::CloseDatabase);
    steps.push(Step::IngestListed { jobs });
    assert(steps_view(steps@) =~= ingest_plan(config@, fv, limit, jobs, document_id));
    steps
}

/// The steps of `ingest-documents` (also called `ingest-xlsx`), in order; the
/// caller stops at the first failure.
pub fn ingest_xlsx(
    config: &AppConfig,
    family: Option<&str>,
    limit: Option<usize>,
    jobs: Option<usize>,
    document_id: Option<i64>,
) -> (steps: Vec<Step>)
    ensures
        steps_view(steps@) == ingest_plan(config@, opt_str_view(family), limit, jobs, document_id),
{
    ingest_steps(config, owned_opt(family), limit, jobs, document_id)
}

/// What `search` does: open the database and search the rows.
pub open spec fn search_plan(
    cfg: ConfigView,
    keyword: Seq<char>,
    family: Option<Seq<char>>,
    limit: usize,
) -> Seq<StepView> {
    seq![
        StepView::OpenDatabase { path: cfg.db_path },
        StepView::SearchRows { keyword, family, limit },
    ]
}

fn search_steps(config: &AppConfig, keyword: String, family: Option<String>, limit: usize) -> (steps: Vec<Step>)
    ensures
        steps_view(steps@) == search_plan(config@, keyword@, crate::config::opt_view(family), limit),
{
    let ghost kv = keyword@;
    let ghost fv = crate::config::opt_view(family);
    let mut steps: Vec<Step> = Vec::new();
    steps.push(Step::OpenDatabase { path: config.db_path.clone() });
    steps.push(Step::SearchRows { keyword, family, limit });
    assert(steps_view(steps@) =~= search_plan(config@, kv, fv, limit));
    steps
}

/// The steps of `search`, in order; the caller stops at the first failure.
pub fn search(config: &AppConfig, keyword: &str, family: Option<&str>, limit: usize) -> (steps: Vec<Step>)
    ensures
        steps_view(steps@) == search_plan(config@, keyword@, opt_str_view(family), limit),
{
    search_steps(config, owned(keyword), owned_opt(family), limit)
}

/// What `evaluate` does: open the database, read the gold file, then score it.
pub open spec fn evaluate_plan(cfg: ConfigView, gold_path: Seq<char>) -> Seq<StepView> {
    seq![
        StepView::OpenDatabase { path: cfg.db_path },
        StepView::ReadGold { path: gold_path },
        StepView::ScoreGold,
    ]
}

/// The steps of `evaluate`, in order; the caller stops at the first failure.
pub fn evaluate(config: &AppConfig, gold_path: &str) -> (steps: Vec<Step>)
    ensures
        steps_view(steps@) == evaluate_plan(config@, gold_path@),
{
    let mut steps: Vec<Step> = Vec::new();
    steps.push(Step::OpenDatabase { path: config.db_path.clone() });
    steps.push(Step::ReadGold { path: owned(gold_path) });
    steps.push(Step::ScoreGold);
    assert(steps_view(steps@) =~= evaluate_plan(config@, gold_path@));
    steps
}

/// What `build-index` does: `init-db`, then `ingest-manifest`, then
/// `ingest-documents` over every document.
pub open spec fn build_index_plan(cfg: ConfigView) -> Seq<StepView> {
    init_db_plan(cfg) + manifest_plan(cfg) + ingest_plan(cfg, None, None, None, None)
}

/// The steps of `print-config`: print the configuration's lines.
pub open spec fn print_config_plan(cfg: ConfigView) -> Seq<StepView> {
    boot_lines(cfg).map_values(|l: Seq<char>| StepView::Print { line: l })
}

/// The steps that the configured command performs, in order.
pub open spec fn command_plan_spec(cfg: ConfigView) -> Seq<StepView> {
    match cfg.command {
        crate::config::CommandView::PrintConfig => print_config_plan(cfg),
        crate::config::CommandView::Serve => serve_plan(cfg),
        crate::config::CommandView::InitDb => init_db_plan(cfg),
        crate::config::CommandView::IngestManifest => manifest_plan(cfg),
        crate::config::CommandView::IngestDocuments { family, limit, jobs, document_id } =>
            ingest_plan(cfg, family, limit, jobs, document_id),
        crate::config::CommandView::RebuildDocumentIndex => rebuild_plan(cfg),
        crate::config::CommandView::BuildIndex => build_index_plan(cfg),
        crate::config::CommandView::Evaluate { gold_path } => evaluate_plan(cfg, gold_path),
        crate::config::CommandView::Search { keyword, family, limit } => search_plan(
            cfg,
            keyword,
            family,
            limit,
        ),
        crate::config::CommandView::Query { sql } => query_plan(cfg, sql),
    }
}

/// The steps that the configured command performs, in order: the program
/// performs each and stops at the first that fails, reporting its error.
pub fn command_plan(config: &AppConfig) -> (steps: Vec<Step>)
    ensures
        steps_view(steps@) == command_plan_spec(config@),
{
    match &config.command {
        crate::config::Command::PrintConfig => {
            let lines = boot_message(config);
            let mut steps: Vec<Step> = Vec::new();
            let n = lines.len();
            for i in 0..n
                invariant
                    n == lines.len(),
                    lines_view(lines@) == boot_lines(config@),
                    steps_view(steps@) == print_config_plan(config@).take(i as int),
            {
                let ghost before = steps_view(steps@);
                let line = lines[i].clone();
                assert(line@ == lines_view(lines@)[i as int]);
                let ghost sv = StepView::Print { line: boot_lines(config@)[i as int] };
                steps.push(Step::Print { line });
                assert(steps_view(steps@) =~= before.push(sv));
                assert(print_config_plan(config@).take(i + 1) =~= print_config_plan(config@).take(
                    i as int,
                ).push(sv));
            }
            assert(print_config_plan(config@).take(n as int) =~= print_config_plan(config@));
            steps
        },
        crate::config::Command::Serve => serve(config),
        crate::config::Command::InitDb => init_db(config),
        crate::config::Command::IngestManifest => ingest_manifest(config),
        crate::config::Command::IngestDocuments { family, limit, jobs, document_id } => ingest_steps(
            config,
            clone_opt(family),
            *limit,
            *jobs,
            *document_id,
        ),
        crate::config::Command::RebuildDocumentIndex => rebuild_document_index(config),
        crate::config::Command::BuildIndex => {
            let mut steps = init_db(config);
            append_steps(&mut steps, ingest_manifest(config));
            append_steps(&mut steps, ingest_steps(config, None, None, None, None));
            steps
        },
        crate::config::Command::Evaluate { gold_path } => evaluate(config, gold_path.as_str()),
        crate::config::Command::Search { keyword, family, limit } => search_steps(
            config,
            keyword.clone(),
            clone_opt(family),
            *limit,
        ),
        crate::config::Command::Query { sql } => run_query(config, sql.as_str()),
    }
}

/// The lines that `print-config` writes.
pub open spec fn boot_lines(cfg: ConfigView) -> Seq<Seq<char>> {
    seq![
        "evidence_backend bootstrap"@,
        "db_path="@ + cfg.db_path,
        "staged_manifest="@ + cfg.staged_manifest,
        "staged_files_root="@ + cfg.staged_files_root,
        "http_bind="@ + cfg.http_bind,
    ]
}

/// The text lines of a list of `String`s.
pub open spec fn lines_view(lines: Seq<String>) -> Seq<Seq<char>> {
    lines.map_values(|l: String| l@)
}

/// The lines that `print-config` writes, in order.
pub fn boot_message(config: &AppConfig) -> (lines: Vec<String>)
    ensures
        lines_view(lines@) == boot_lines(config@),
{
    let mut lines: Vec<String> = Vec::new();
    lines.push(owned("evidence_backend bootstrap"));
    lines.push(crate::text::str_concat("db_path=", config.db_path.as_str()));
    lines.push(crate::text::str_concat("staged_manifest=", config.staged_manifest.as_str()));
    lines.push(crate::text::str_concat("staged_files_root=", config.staged_files_root.as_str()));
    lines.push(crate::text::str_concat("http_bind=", config.http_bind.as_str()));
    assert(lines_view(lines@) =~= boot_lines(config@));
    lines
}

// ---------------------------------------------------------------------------
// Trying a database action again while the database is locked
// ---------------------------------------------------------------------------

/// How many times a database action is tried before its error is reported.
pub const MAX_ATTEMPTS: usize = 6;

/// The text that SQLite reports when another connection holds the lock.
pub open spec fn locked_marker() -> Seq<char> {
    "database is locked"@
}

/// Whether an error message, compared without regard to ASCII case, says
/// that the database is locked.
pub fn is_locked_error(message: &str) -> (locked: bool)
    ensures
        locked == occurs_in(ascii_lower_seq(message@), locked_marker()),
{
    let lower = to_ascii_lowercase(message);
    contains(lower.as_str(), "database is locked")
}

/// How one attempt of a database action ended.
#[derive(Debug, Clone, Copy, PartialEq, Eq)]
pub enum AttemptOutcome {
    Succeeded,
    /// Failed; `locked` when the error says that the database is locked.
    Failed { locked: bool },
}

/// What to do after an attempt.
#[derive(Debug, Clone, Copy, PartialEq, Eq)]
pub enum RetryAction {
    /// Hand the result back.
    Finish,
    /// Wait `delay_ms` milliseconds and try again.
    Retry { delay_ms: u64 },
    /// Hand the error back.
    GiveUp,
}

/// The decision after attempt number `attempt` (counted from 1).
pub open spec fn retry_rule(attempt: int, outcome: AttemptOutcome) -> RetryAction {
    match outcome {
        AttemptOutcome::Succeeded => RetryAction::Finish,
        AttemptOutcome::Failed { locked } => {
            if locked && attempt < MAX_ATTEMPTS {
                RetryAction::Retry { delay_ms: (150 * attempt) as u64 }
            } else {
                RetryAction::GiveUp
            }
        },
    }
}

/// The decision after attempt number `attempt` (counted from 1): a success is
/// handed back, a lock error before the last attempt waits 150 ms times the
/// attempt number and tries again, any other error is handed back.
pub fn retry_decision(attempt: usize, outcome: AttemptOutcome) -> (action: RetryAction)
    requires
        1 <= attempt <= MAX_ATTEMPTS,
    ensures
        action == retry_rule(attempt as int, outcome),
{
    match outcome {
        AttemptOutcome::Succeeded => RetryAction::Finish,
        AttemptOutcome::Failed { locked } => {
            if locked && attempt < MAX_ATTEMPTS {
                RetryAction::Retry { delay_ms: 150 * (attempt as u64) }
            } else {
                RetryAction::GiveUp
            }
        },
    }
}

/// Runs the retry rule over the outcomes of successive attempts, starting at
/// attempt `attempt`: the number of attempts made and the total wait.
pub open spec fn retry_run(outcomes: Seq<AttemptOutcome>, attempt: int) -> (int, int)
    decreases outcomes.len(),
{
    if outcomes.len() == 0 {
        (0, 0)
    } else {
        match retry_rule(attempt, outcomes[0]) {
            RetryAction::Retry { delay_ms } => {
                let rest = retry_run(outcomes.drop_first(), attempt + 1);
                (rest.0 + 1, rest.1 + delay_ms)
            },
            _ => (1, 0),
        }
    }
}

/// Whatever the attempts give, an action is tried at most six times and the
/// waits between them add up to at most 2250 ms.
pub proof fn law_retry_bounded(outcomes: Seq<AttemptOutcome>)
    ensures
        retry_run(outcomes, 1).0 <= MAX_ATTEMPTS,
        retry_run(outcomes, 1).1 <= 2250,
{
    lemma_retry_run(outcomes, 1);
    assert(MAX_ATTEMPTS == 6);
    assert(75 * (6 - 1) * (6 - 1 + 1) == 2250) by (nonlinear_arith);
}

proof fn lemma_retry_run(outcomes: Seq<AttemptOutcome>, attempt: int)
    requires
        1 <= attempt <= MAX_ATTEMPTS,
    ensures
        retry_run(outcomes, attempt).0 <= MAX_ATTEMPTS + 1 - attempt,
        retry_run(outcomes, attempt).1 <= 75 * (MAX_ATTEMPTS - attempt) * (MAX_ATTEMPTS - 1
            + attempt),
    decreases outcomes.len(),
{
    if outcomes.len() > 0 {
        if let RetryAction::Retry { delay_ms } = retry_rule(attempt, outcomes[0]) {
            lemma_retry_run(outcomes.drop_first(), attempt + 1);
            assert(75 * (MAX_ATTEMPTS - attempt - 1) * (MAX_ATTEMPTS + attempt) + 150 * attempt
                == 75 * (MAX_ATTEMPTS - attempt) * (MAX_ATTEMPTS - 1 + attempt)) by (nonlinear_arith);
        }
    }
}

// ---------------------------------------------------------------------------
// Ingesting documents
// ---------------------------------------------------------------------------

/// The reader that a document's format needs.
#[derive(Debug, Clone, Copy, PartialEq, Eq)]
pub enum DocumentFormat {
    /// `.xlsx` and `.xlsm` workbooks.
    Spreadsheet,
    /// `.docx` documents and `.pptx` / `.pptm` presentations.
    OfficeXml,
}

/// A document that cannot be ingested.
#[derive(Debug, Clone)]
pub enum IngestError {
    /// The extension, lower-cased, is none that a reader handles.
    UnsupportedExtension(String),
}

impl IngestError {
    /// The error's message.
    pub fn message(&self) -> (s: String)
        ensures
            match self {
                IngestError::UnsupportedExtension(e) => s@ == "unsupported extension for ingest: "@
                    + e@,
            },
    {
        match self {
            IngestError::UnsupportedExtension(e) => crate::text::str_concat(
                "unsupported extension for ingest: ",
                e.as_str(),
            ),
        }
    }
}

/// The format that a lower-cased extension names.
pub open spec fn format_of(lower: Seq<char>) -> Option<DocumentFormat> {
    if lower == ".xlsx"@ || lower == ".xlsm"@ {
        Some(DocumentFormat::Spreadsheet)
    } else if lower == ".docx"@ || lower == ".pptx"@ || lower == ".pptm"@ {
        Some(DocumentFormat::OfficeXml)
    } else {
        None
    }
}

/// The reader for a document with this extension (compared without regard to
/// ASCII case); an unknown extension is refused with its lower-cased form.
pub fn ingest_format(extension: &str) -> (res: Result<DocumentFormat, IngestError>)
    ensures
        match res {
            Ok(f) => format_of(ascii_lower_seq(extension@)) == Some(f),
            Err(IngestError::UnsupportedExtension(e)) => format_of(ascii_lower_seq(extension@))
                is None && e@ == ascii_lower_seq(extension@),
        },
{
    let lower = to_ascii_lowercase(extension);
    let l = lower.as_str();
    if crate::text::str_eq(l, ".xlsx") || crate::text::str_eq(l, ".xlsm") {
        Ok(DocumentFormat::Spreadsheet)
    } else if crate::text::str_eq(l, ".docx") || crate::text::str_eq(l, ".pptx")
        || crate::text::str_eq(l, ".pptm") {
        Ok(DocumentFormat::OfficeXml)
    } else {
        Err(IngestError::UnsupportedExtension(lower))
    }
}

/// The number of workers: the requested number (or the default), at least one,
/// and no more than the documents (but at least one).
pub open spec fn worker_rule(jobs: Option<usize>, default_workers: usize, documents: usize) -> int {
    let requested: int = match jobs {
        Some(j) => j as int,
        None => default_workers as int,
    };
    let wanted = if requested < 1 {
        1
    } else {
        requested
    };
    let cap = if documents < 1 {
        1
    } else {
        documents as int
    };
    if wanted < cap {
        wanted
    } else {
        cap
    }
}

/// How many workers ingest `documents` documents.
pub fn worker_count(jobs: Option<usize>, default_workers: usize, documents: usize) -> (n: usize)
    ensures
        n == worker_rule(jobs, default_workers, documents),
        1 <= n,
        n <= documents || n == 1,
{
    let requested = match jobs {
        Some(j) => j,
        None => default_workers,
    };
    let wanted = if requested < 1 {
        1
    } else {
        requested
    };
    let cap = if documents < 1 {
        1
    } else {
        documents
    };
    if wanted < cap {
        wanted
    } else {
        cap
    }
}

/// `"key="` followed by an optional text, or nothing when it is absent.
pub open spec fn optional_field(key: Seq<char>, v: Option<Seq<char>>) -> Seq<char> {
    match v {
        Some(t) => key + t,
        None => key,
    }
}

/// The lines that end an ingest run.
pub open spec fn ingest_summary_lines(
    family: Option<Seq<char>>,
    limit: Option<usize>,
    workers: usize,
    document_id: Option<i64>,
    success: usize,
    failed: usize,
) -> Seq<Seq<char>> {
    seq![
        "ingest-documents complete"@,
        optional_field("family="@, family),
        optional_field(
            "limit="@,
            match limit {
                Some(l) => Some(crate::text::decimal(l as nat)),
                None => None,
            },
        ),
        "jobs="@ + crate::text::decimal(workers as nat),
        optional_field(
            "document_id="@,
            match document_id {
                Some(d) => Some(crate::text::signed_decimal(d as int)),
                None => None,
            },
        ),
        "success="@ + crate::text::decimal(success as nat),
        "failed="@ + crate::text::decimal(failed as nat),
    ]
}

/// `key` followed by the decimal writing of `n`.
fn key_number(key: &str, n: usize) -> (s: String)
    ensures
        s@ == key@ + crate::text::decimal(n as nat),
{
    let mut s = owned(key);
    let d = crate::text::usize_to_string(n);
    s.append(d.as_str());
    s
}

/// The lines that end an ingest run, in order.
pub fn ingest_summary(
    family: Option<&str>,
    limit: Option<usize>,
    workers: usize,
    document_id: Option<i64>,
    success: usize,
    failed: usize,
) -> (lines: Vec<String>)
    ensures
        lines_view(lines@) == ingest_summary_lines(
            match family {
                Some(f) => Some(f@),
                None => None,
            },
            limit,
            workers,
            document_id,
            success,
            failed,
        ),
{
    let mut lines: Vec<String> = Vec::new();
    lines.push(owned("ingest-documents complete"));
    lines.push(
        match family {
            Some(f) => crate::text::str_concat("family=", f),
            None => owned("family="),
        },
    );
    lines.push(
        match limit {
            Some(l) => key_number("limit=", l),
            None => owned("limit="),
        },
    );
    lines.push(key_number("jobs=", workers));
    lines.push(
        match document_id {
            Some(d) => {
                let mut s = owned("document_id=");
                let t = crate::text::i64_to_string(d);
                s.append(t.as_str());
                s
            },
            None => owned("document_id="),
        },
    );
    lines.push(key_number("success=", success));
    lines.push(key_number("failed=", failed));
    assert(lines_view(lines@) =~= ingest_summary_lines(
        match family {
            Some(f) => Some(f@),
            None => None,
        },
        limit,
        workers,
        document_id,
        success,
        failed,
    ));
    lines
}


/// The line that reports a document ingested by a worker.
pub open spec fn success_line_spec(
    worker: usize,
    document_id: i64,
    sections: usize,
    rows: usize,
    path: Seq<char>,
) -> Seq<char> {
    "[worker "@ + crate::text::decimal(worker as nat) + "] ingested document_id="@
        + crate::text::signed_decimal(document_id as int) + " sections="@ + crate::text::decimal(
        sections as nat,
    ) + " rows="@ + crate::text::decimal(rows as nat) + " path="@ + path
}

/// The line that reports a document ingested by a worker.
pub fn success_line(worker: usize, document_id: i64, sections: usize, rows: usize, path: &str) -> (line: String)
    ensures
        line@ == success_line_spec(worker, document_id, sections, rows, path@),
{
    let mut line = key_number("[worker ", worker);
    line.append("] ingested document_id=");
    let d = crate::text::i64_to_string(document_id);
    line.append(d.as_str());
    line.append(" sections=");
    let sc = crate::text::usize_to_string(sections);
    line.append(sc.as_str());
    line.append(" rows=");
    let rc = crate::text::usize_to_string(rows);
    line.append(rc.as_str());
    line.append(" path=");
    line.append(path);
    line
}

/// The line that reports a document that a worker failed to ingest.
pub open spec fn failure_line_spec(worker: usize, document_id: i64, error: Seq<char>) -> Seq<char> {
    "[worker "@ + crate::text::decimal(worker as nat) + "] failed document_id="@
        + crate::text::signed_decimal(document_id as int) + " error="@ + error
}

/// The line that reports a document that a worker failed to ingest.
pub fn failure_line(worker: usize, document_id: i64, error: &str) -> (line: String)
    ensures
        line@ == failure_line_spec(worker, document_id, error@),
{
    let mut line = key_number("[worker ", worker);
    line.append("] failed document_id=");
    let d = crate::text::i64_to_string(document_id);
    line.append(d.as_str());
    line.append(" error=");
    line.append(error);
    line
}

/// How one document's ingest ended, as a worker reports it.
#[derive(Debug, Clone)]
pub enum WorkerMessage {
    Success { worker_id: usize, document_id: i64, path: String, section_count: usize, row_count: usize },
    Failure { worker_id: usize, document_id: i64, error: String },
}

/// The counts of documents ingested and failed.
#[derive(Debug, Clone, Copy, PartialEq, Eq)]
pub struct IngestTally {
    pub success: usize,
    pub failed: usize,
}

impl IngestTally {
    /// No document yet.
    pub fn new() -> (t: IngestTally)
        ensures
            t.success == 0 && t.failed == 0,
    {
        IngestTally { success: 0, failed: 0 }
    }

    /// Counts one worker message and gives the line that reports it.
    pub fn record(&mut self, message: &WorkerMessage) -> (line: String)
        requires
            old(self).success < usize::MAX,
            old(self).failed < usize::MAX,
        ensures
            match message {
                WorkerMessage::Success { worker_id, document_id, path, section_count, row_count } => {
                    &&& final(self).success == old(self).success + 1
                    &&& final(self).failed == old(self).failed
                    &&& line@ == success_line_spec(
                        *worker_id,
                        *document_id,
                        *section_count,
                        *row_count,
                        path@,
                    )
                },
                WorkerMessage::Failure { worker_id, document_id, error } => {
                    &&& final(self).success == old(self).success
                    &&& final(self).failed == old(self).failed + 1
                    &&& line@ == failure_line_spec(*worker_id, *document_id, error@)
                },
            },
    {
        match message {
            WorkerMessage::Success { worker_id, document_id, path, section_count, row_count } => {
                self.success = self.success + 1;
                success_line(*worker_id, *document_id, *section_count, *row_count, path.as_str())
            },
            WorkerMessage::Failure { worker_id, document_id, error } => {
                self.failed = self.failed + 1;
                failure_line(*worker_id, *document_id, error.as_str())
            },
        }
    }
}

/// The line written before a locked attempt is tried again.
pub open spec fn retry_line_spec(document_id: i64, attempt: usize) -> Seq<char> {
    "retrying document_id="@ + crate::text::signed_decimal(document_id as int)
        + " after lock attempt="@ + crate::text::decimal(attempt as nat) + "/"@
        + crate::text::decimal(MAX_ATTEMPTS as nat) + " delay_ms="@ + crate::text::decimal(
        (150 * attempt) as nat,
    )
}

/// The line written before attempt `attempt + 1` of a document that met a
/// locked database: the document, the attempt out of six and the wait, which
/// is the one that `retry_decision` gives.
pub fn retry_line(document_id: i64, attempt: usize) -> (line: String)
    requires
        1 <= attempt < MAX_ATTEMPTS,
    ensures
        line@ == retry_line_spec(document_id, attempt),
        retry_rule(attempt as int, (AttemptOutcome::Failed { locked: true })) == (RetryAction::Retry {
            delay_ms: (150 * attempt) as u64,
        }),
{
    let mut line = owned("retrying document_id=");
    let d = crate::text::i64_to_string(document_id);
    line.append(d.as_str());
    line.append(" after lock attempt=");
    let a = crate::text::usize_to_string(attempt);
    line.append(a.as_str());
    line.append("/");
    let m = crate::text::usize_to_string(MAX_ATTEMPTS);
    line.append(m.as_str());
    line.append(" delay_ms=");
    let w = crate::text::usize_to_string(150 * attempt);
    line.append(w.as_str());
    line
}

/// A database change that follows the ingest of one document. Each is tried
/// under the retry rule (`retry_decision`); one that still fails ends the worker.
#[derive(Debug, Clone)]
pub enum DbAction {
    /// Record that the document was parsed.
    MarkParsed { document_id: i64 },
    /// Record the error that parsing the document met.
    MarkError { document_id: i64, message: String },
    /// Bring the document's search profile up to date.
    SyncProfile { document_id: i64 },
}

/// `DbAction` with its text taken as a character sequence.
pub enum DbActionView {
    MarkParsed { document_id: i64 },
    MarkError { document_id: i64, message: Seq<char> },
    SyncProfile { document_id: i64 },
}

impl View for DbAction {
    type V = DbActionView;

    open spec fn view(&self) -> DbActionView {
        match self {
            DbAction::MarkParsed { document_id } => DbActionView::MarkParsed {
                document_id: *document_id,
            },
            DbAction::MarkError { document_id, message } => DbActionView::MarkError {
                document_id: *document_id,
                message: message@,
            },
            DbAction::SyncProfile { document_id } => DbActionView::SyncProfile {
                document_id: *document_id,
            },
        }
    }
}

/// How reading one document ended.
#[derive(Debug, Clone)]
pub enum DocumentOutcome {
    /// The document was read, with this many sections and rows.
    Ingested { section_count: usize, row_count: usize },
    /// Reading failed with this message.
    Failed { error: String },
}

/// What follows the ingest of document `document_id` at `path` by worker
/// `worker_id`: the database changes, in order, and the message for the report.
pub open spec fn after_document_spec(
    worker_id: usize,
    document_id: i64,
    path: Seq<char>,
    outcome: DocumentOutcome,
    actions: Seq<DbActionView>,
    message: WorkerMessage,
) -> bool {
    match outcome {
        DocumentOutcome::Ingested { section_count, row_count } => {
            &&& actions == seq![
                DbActionView::MarkParsed { document_id },
                DbActionView::SyncProfile { document_id },
            ]
            &&& message matches WorkerMessage::Success {
                worker_id: w,
                document_id: d,
                path: p,
                section_count: s,
                row_count: r,
            }
            &&& w == worker_id && d == document_id && p@ == path && s == section_count && r
                == row_count
        },
        DocumentOutcome::Failed { error } => {
            &&& actions == seq![
                DbActionView::MarkError { document_id, message: error@ },
                DbActionView::SyncProfile { document_id },
            ]
            &&& message matches WorkerMessage::Failure { worker_id: w, document_id: d, error: e }
            &&& w == worker_id && d == document_id && e@ == error@
        },
    }
}

/// The database changes that follow one document's ingest, and the message
/// that reports it: a success marks the document parsed, a failure records
/// its error; either way its profile is brought up to date afterwards.
pub fn after_document(worker_id: usize, document_id: i64, path: &str, outcome: DocumentOutcome) -> (res: (
    Vec<DbAction>,
    WorkerMessage,
))
    ensures
        after_document_spec(
            worker_id,
            document_id,
            path@,
            outcome,
            res.0@.map_values(|a: DbAction| a@),
            res.1,
        ),
{
    let mut actions: Vec<DbAction> = Vec::new();
    match outcome {
        DocumentOutcome::Ingested { section_count, row_count } => {
            actions.push(DbAction::MarkParsed { document_id });
            actions.push(DbAction::SyncProfile { document_id });
            assert(actions@.map_values(|a: DbAction| a@) =~= seq![
                DbActionView::MarkParsed { document_id },
                DbActionView::SyncProfile { document_id },
            ]);
            let message = WorkerMessage::Success {
                worker_id,
                document_id,
                path: owned(path),
                section_count,
                row_count,
            };
            (actions, message)
        },
        DocumentOutcome::Failed { error } => {
            actions.push(DbAction::MarkError { document_id, message: error.clone() });
            actions.push(DbAction::SyncProfile { document_id });
            assert(actions@.map_values(|a: DbAction| a@) =~= seq![
                DbActionView::MarkError { document_id, message: error@ },
                DbActionView::SyncProfile { document_id },
            ]);
            let message = WorkerMessage::Failure { worker_id, document_id, error };
            (actions, message)
        },
    }
}

/// The lines that end `ingest-manifest`.
pub open spec fn manifest_lines_spec(manifest: Seq<char>, rows: usize, upserted: usize, synced: usize) -> Seq<Seq<char>> {
    seq![
        "ingest-manifest complete"@,
        "manifest="@ + manifest,
        "rows="@ + crate::text::decimal(rows as nat),
        "upserted="@ + crate::text::decimal(upserted as nat),
        "document_profiles_synced="@ + crate::text::decimal(synced as nat),
    ]
}

/// The lines that end `ingest-manifest`, in order.
pub fn manifest_summary(manifest: &str, rows: usize, upserted: usize, synced: usize) -> (lines: Vec<String>)
    ensures
        lines_view(lines@) == manifest_lines_spec(manifest@, rows, upserted, synced),
{
    let mut lines: Vec<String> = Vec::new();
    lines.push(owned("ingest-manifest complete"));
    lines.push(crate::text::str_concat("manifest=", manifest));
    lines.push(key_number("rows=", rows));
    lines.push(key_number("upserted=", upserted));
    lines.push(key_number("document_profiles_synced=", synced));
    assert(lines_view(lines@) =~= manifest_lines_spec(manifest@, rows, upserted, synced));
    lines
}

/// The lines that end `rebuild-document-index`.
pub open spec fn rebuild_lines_spec(synced: usize) -> Seq<Seq<char>> {
    seq![
        "rebuild-document-index complete"@,
        "document_profiles_synced="@ + crate::text::decimal(synced as nat),
    ]
}

/// The lines that end `rebuild-document-index`, in order.
pub fn rebuild_summary(synced: usize) -> (lines: Vec<String>)
    ensures
        lines_view(lines@) == rebuild_lines_spec(synced),
{
    let mut lines: Vec<String> = Vec::new();
    lines.push(owned("rebuild-document-index complete"));
    lines.push(key_number("document_profiles_synced=", synced));
    assert(lines_view(lines@) =~= rebuild_lines_spec(synced));
    lines
}

/// One row that `search` prints, by the fields it prints (the score is
/// printed from its own formatting).
#[derive(Debug, Clone)]
pub struct SearchRow {
    pub document_id: i64,
    pub file_name: String,
    pub document_family: String,
    pub original_path: String,
    pub sheet_name: String,
    pub row_index: i64,
    pub equipment_no: Option<String>,
    pub work_name: Option<String>,
    pub part_name: Option<String>,
    pub normalized_date: Option<String>,
    pub row_text: String,
}

/// The lines that open the output of `search`.
pub open spec fn search_head_spec(keyword: Seq<char>, count: usize) -> Seq<Seq<char>> {
    seq!["search keyword="@ + keyword, "result_count="@ + crate::text::decimal(count as nat)]
}

/// The lines that open the output of `search`, in order.
pub fn search_head(keyword: &str, count: usize) -> (lines: Vec<String>)
    ensures
        lines_view(lines@) == search_head_spec(keyword@, count),
{
    let mut lines: Vec<String> = Vec::new();
    lines.push(crate::text::str_concat("search keyword=", keyword));
    lines.push(key_number("result_count=", count));
    assert(lines_view(lines@) =~= search_head_spec(keyword@, count));
    lines
}

/// The lines that `search` prints for the result at position `index` (from 0).
pub open spec fn search_row_spec(index: usize, r: SearchRow, score: Seq<char>) -> Seq<Seq<char>> {
    seq![
        "--- result "@ + crate::text::decimal((index + 1) as nat) + " ---"@,
        "document_id="@ + crate::text::signed_decimal(r.document_id as int),
        "file_name="@ + r.file_name@,
        "document_family="@ + r.document_family@,
        "original_path="@ + r.original_path@,
        "sheet_name="@ + r.sheet_name@,
        "row_index="@ + crate::text::signed_decimal(r.row_index as int),
        "score="@ + score,
        optional_field("equipment_no="@, crate::config::opt_view(r.equipment_no)),
        optional_field("work_name="@, crate::config::opt_view(r.work_name)),
        optional_field("part_name="@, crate::config::opt_view(r.part_name)),
        optional_field("normalized_date="@, crate::config::opt_view(r.normalized_date)),
        "row_text="@ + r.row_text@,
    ]
}

fn key_optional(key: &str, v: &Option<String>) -> (s: String)
    ensures
        s@ == optional_field(key@, crate::config::opt_view(*v)),
{
    match v {
        Some(t) => crate::text::str_concat(key, t.as_str()),
        None => owned(key),
    }
}

fn key_signed(key: &str, n: i64) -> (s: String)
    ensures
        s@ == key@ + crate::text::signed_decimal(n as int),
{
    let mut s = owned(key);
    let d = crate::text::i64_to_string(n);
    s.append(d.as_str());
    s
}

/// The lines that `search` prints for the result at position `index` (from
/// 0), with its score already formatted as `score`.
pub fn search_row_lines(index: usize, r: &SearchRow, score: &str) -> (lines: Vec<String>)
    requires
        index < usize::MAX,
    ensures
        lines_view(lines@) == search_row_spec(index, *r, score@),
{
    let mut lines: Vec<String> = Vec::new();
    let mut head = key_number("--- result ", index + 1);
    head.append(" ---");
    lines.push(head);
    lines.push(key_signed("document_id=", r.document_id));
    lines.push(crate::text::str_concat("file_name=", r.file_name.as_str()));
    lines.push(crate::text::str_concat("document_family=", r.document_family.as_str()));
    lines.push(crate::text::str_concat("original_path=", r.original_path.as_str()));
    lines.push(crate::text::str_concat("sheet_name=", r.sheet_name.as_str()));
    lines.push(key_signed("row_index=", r.row_index));
    lines.push(crate::text::str_concat("score=", score));
    lines.push(key_optional("equipment_no=", &r.equipment_no));
    lines.push(key_optional("work_name=", &r.work_name));
    lines.push(key_optional("part_name=", &r.part_name));
    lines.push(key_optional("normalized_date=", &r.normalized_date));
    lines.push(crate::text::str_concat("row_text=", r.row_text.as_str()));
    assert(lines_view(lines@) =~= search_row_spec(index, *r, score@));
    lines
}

/// The line that reports one worker message.
pub open spec fn message_line_spec(m: WorkerMessage) -> Seq<char> {
    match m {
        WorkerMessage::Success { worker_id, document_id, path, section_count, row_count } =>
            success_line_spec(worker_id, document_id, section_count, row_count, path@),
        WorkerMessage::Failure { worker_id, document_id, error } => failure_line_spec(
            worker_id,
            document_id,
            error@,
        ),
    }
}

/// How many of the messages report a success.
pub open spec fn count_success(ms: Seq<WorkerMessage>) -> nat
    decreases ms.len(),
{
    if ms.len() == 0 {
        0
    } else {
        count_success(ms.drop_last()) + if ms.last() is Success {
            1nat
        } else {
            0nat
        }
    }
}

/// How many of the messages report a failure.
pub open spec fn count_failure(ms: Seq<WorkerMessage>) -> nat
    decreases ms.len(),
{
    if ms.len() == 0 {
        0
    } else {
        count_failure(ms.drop_last()) + if ms.last() is Failure {
            1nat
        } else {
            0nat
        }
    }
}

/// The totals of an ingest run and the line of each message, in the order the
/// messages arrived.
pub fn tally_run(messages: &Vec<WorkerMessage>) -> (res: (IngestTally, Vec<String>))
    ensures
        res.0.success == count_success(messages@),
        res.0.failed == count_failure(messages@),
        res.0.success + res.0.failed == messages@.len(),
        res.1.len() == messages@.len(),
        forall|i: int|
            0 <= i < messages@.len() ==> (#[trigger] res.1@[i])@ == message_line_spec(
                messages@[i],
            ),
{
    let mut t = IngestTally::new();
    let mut lines: Vec<String> = Vec::new();
    let n = messages.len();
    for i in 0..n
        invariant
            n == messages.len(),
            t.success == count_success(messages@.take(i as int)),
            t.failed == count_failure(messages@.take(i as int)),
            t.success + t.failed == i,
            lines.len() == i,
            forall|j: int| 0 <= j < i ==> (#[trigger] lines@[j])@ == message_line_spec(messages@[j]),
    {
        assert(messages@.take(i + 1).drop_last() =~= messages@.take(i as int));
        assert(messages@.take(i + 1).last() == messages@[i as int]);
        let line = t.record(&messages[i]);
        lines.push(line);
    }
    assert(messages@.take(n as int) =~= messages@);
    (t, lines)
}

/// How many attempts in a row, from the first, failed on a locked database.
pub open spec fn leading_locked(o: Seq<AttemptOutcome>) -> nat
    decreases o.len(),
{
    if o.len() > 0 && o[0] == (AttemptOutcome::Failed { locked: true }) {
        1 + leading_locked(o.drop_first())
    } else {
        0
    }
}

/// The waits before attempts `a + 1` to `a + k`: 150 ms times each attempt number.
pub open spec fn delay_sum(a: int, k: nat) -> int
    decreases k,
{
    if k == 0 {
        0
    } else {
        150 * a + delay_sum(a + 1, (k - 1) as nat)
    }
}

proof fn lemma_delay_sum(a: int, k: nat)
    ensures
        delay_sum(a, k) == 75 * (k as int) * (2 * a + k - 1),
    decreases k,
{
    let ki = k as int;
    if k > 0 {
        lemma_delay_sum(a + 1, (k - 1) as nat);
        assert(150 * a + 75 * (ki - 1) * (2 * (a + 1) + (ki - 1) - 1) == 75 * ki * (2 * a + ki - 1))
            by (nonlinear_arith);
    } else {
        assert(75 * ki * (2 * a + ki - 1) == 0) by (nonlinear_arith)
            requires
                ki == 0,
        ;
    }
}

proof fn lemma_retry_exact(o: Seq<AttemptOutcome>, a: int)
    requires
        1 <= a <= MAX_ATTEMPTS,
        o.len() >= MAX_ATTEMPTS + 1 - a,
    ensures
        ({
            let m = if leading_locked(o) + 1 < MAX_ATTEMPTS + 1 - a {
                leading_locked(o) + 1int
            } else {
                MAX_ATTEMPTS + 1 - a
            };
            retry_run(o, a) == (m, delay_sum(a, (m - 1) as nat))
        }),
    decreases o.len(),
{
    if o[0] == (AttemptOutcome::Failed { locked: true }) && a < MAX_ATTEMPTS {
        lemma_retry_exact(o.drop_first(), a + 1);
    }
}

/// With one result per attempt, an action is tried exactly once more than the
/// lock errors it meets from the first attempt on, but at most six times, and
/// the waits add up to 150 ms times the numbers of the attempts that are tried
/// again: 75·(m−1)·m ms for m attempts.
pub proof fn law_retry_exact(o: Seq<AttemptOutcome>)
    requires
        o.len() >= MAX_ATTEMPTS,
    ensures
        ({
            let m = if leading_locked(o) + 1 < MAX_ATTEMPTS {
                leading_locked(o) + 1int
            } else {
                MAX_ATTEMPTS as int
            };
            &&& retry_run(o, 1).0 == m
            &&& retry_run(o, 1).1 == delay_sum(1, (m - 1) as nat)
            &&& retry_run(o, 1).1 == 75 * (m - 1) * m
        }),
{
    lemma_retry_exact(o, 1);
    let m = retry_run(o, 1).0;
    lemma_delay_sum(1, (m - 1) as nat);
}

/// An `ingest-documents` command lists documents with its own family, limit
/// and document, and ingests them with its own number of jobs: exactly the
/// steps that `ingest_xlsx` gives for the same arguments.
pub proof fn law_ingest_command_plan(cfg: ConfigView)
    ensures
        cfg.command matches crate::config::CommandView::IngestDocuments {
            family,
            limit,
            jobs,
            document_id,
        } ==> command_plan_spec(cfg) == seq![
            StepView::OpenDatabase { path: cfg.db_path },
            StepView::ApplySchema,
            StepView::ListIngestible { family: family, limit: limit, document_id: document_id },
            StepView::CloseDatabase,
            StepView::IngestListed { jobs: jobs },
        ],
{
}

/// A `search` command searches with its own keyword, family and limit.
pub proof fn law_search_command_plan(cfg: ConfigView)
    ensures
        cfg.command matches crate::config::CommandView::Search { keyword, family, limit }
            ==> command_plan_spec(cfg) == seq![
            StepView::OpenDatabase { path: cfg.db_path },
            StepView::SearchRows { keyword: keyword, family: family, limit: limit },
        ],
{
}

/// An `evaluate` command reads its own gold file.
pub proof fn law_evaluate_command_plan(cfg: ConfigView)
    ensures
        cfg.command matches crate::config::CommandView::Evaluate { gold_path } ==> command_plan_spec(
            cfg,
        ) == seq![
            StepView::OpenDatabase { path: cfg.db_path },
            StepView::ReadGold { path: gold_path },
            StepView::ScoreGold,
        ],
{
}

/// A successful attempt always hands the result back, whatever the attempt.
pub proof fn law_success_finishes(attempt: int)
    requires
        1 <= attempt <= MAX_ATTEMPTS,
    ensures
        retry_rule(attempt, AttemptOutcome::Succeeded) == RetryAction::Finish,
{
}

/// How a run of attempts ends: `Some(true)` when an attempt succeeded,
/// `Some(false)` when the error was handed back, `None` when the outcomes
/// ran out first.
pub open spec fn retry_result(o: Seq<AttemptOutcome>, attempt: int) -> Option<bool>
    decreases o.len(),
{
    if o.len() == 0 {
        None
    } else {
        match retry_rule(attempt, o[0]) {
            RetryAction::Finish => Some(true),
            RetryAction::GiveUp => Some(false),
            RetryAction::Retry { .. } => retry_result(o.drop_first(), attempt + 1),
        }
    }
}

proof fn lemma_retry_result(o: Seq<AttemptOutcome>, a: int)
    requires
        1 <= a <= MAX_ATTEMPTS,
        o.len() >= MAX_ATTEMPTS + 1 - a,
    ensures
        retry_result(o, a) == Some(
            leading_locked(o) < MAX_ATTEMPTS + 1 - a && o[leading_locked(o) as int]
                == AttemptOutcome::Succeeded,
        ),
    decreases o.len(),
{
    if o[0] == (AttemptOutcome::Failed { locked: true }) && a < MAX_ATTEMPTS {
        let r = o.drop_first();
        lemma_retry_result(r, a + 1);
        assert(leading_locked(o) == 1 + leading_locked(r));
        if leading_locked(r) < MAX_ATTEMPTS - a {
            assert(o[leading_locked(o) as int] == r[leading_locked(r) as int]);
        }
    } else if o[0] == (AttemptOutcome::Failed { locked: true }) {
        assert(leading_locked(o) >= 1);
    } else {
        assert(leading_locked(o) == 0);
    }
}

/// With one result per attempt, a run succeeds exactly when, after the lock
/// errors met from the first attempt on, and within six attempts, an attempt
/// succeeds; any other run hands its error back.
pub proof fn law_retry_result(o: Seq<AttemptOutcome>)
    requires
        o.len() >= MAX_ATTEMPTS,
    ensures
        retry_result(o, 1) == Some(
            leading_locked(o) < MAX_ATTEMPTS && o[leading_locked(o) as int]
                == AttemptOutcome::Succeeded,
        ),
{
    lemma_retry_result(o, 1);
}

/// The steps of every command without options, spelled out: `print-config`
/// prints the five configuration lines; `serve`, `init-db`, `query`,
/// `ingest-manifest`, `rebuild-document-index` and `build-index` work on the
/// configured database file, manifest and query in the order shown.
pub proof fn law_fixed_command_plans(cfg: ConfigView)
    ensures
        cfg.command == crate::config::CommandView::PrintConfig ==> command_plan_spec(cfg) == seq![
            StepView::Print { line: "evidence_backend bootstrap"@ },
            StepView::Print { line: "db_path="@ + cfg.db_path },
            StepView::Print { line: "staged_manifest="@ + cfg.staged_manifest },
            StepView::Print { line: "staged_files_root="@ + cfg.staged_files_root },
            StepView::Print { line: "http_bind="@ + cfg.http_bind },
        ],
        cfg.command == crate::config::CommandView::Serve ==> command_plan_spec(cfg) == seq![
            StepView::EnsureParentDir { path: cfg.db_path },
            StepView::OpenDatabase { path: cfg.db_path },
            StepView::ApplySchema,
            StepView::CloseDatabase,
            StepView::ServeHttp,
        ],
        cfg.command == crate::config::CommandView::InitDb ==> command_plan_spec(cfg) == seq![
            StepView::EnsureParentDir { path: cfg.db_path },
            StepView::OpenDatabase { path: cfg.db_path },
            StepView::ApplySchema,
            StepView::Print { line: "init-db complete"@ },
            StepView::Print { line: "db_path="@ + cfg.db_path },
        ],
        cfg.command matches crate::config::CommandView::Query { sql } ==> command_plan_spec(cfg)
            == seq![
            StepView::OpenDatabase { path: cfg.db_path },
            StepView::RunSelect { sql: sql },
        ],
        cfg.command == crate::config::CommandView::IngestManifest ==> command_plan_spec(cfg) == seq![
            StepView::OpenDatabase { path: cfg.db_path },
            StepView::ApplySchema,
            StepView::ReadManifest { path: cfg.staged_manifest },
            StepView::UpsertDocuments,
            StepView::SyncAllProfiles,
            StepView::ReportManifest,
        ],
        cfg.command == crate::config::CommandView::RebuildDocumentIndex ==> command_plan_spec(cfg)
            == seq![
            StepView::OpenDatabase { path: cfg.db_path },
            StepView::ApplySchema,
            StepView::SyncAllProfiles,
            StepView::ReportRebuild,
        ],
        cfg.command == crate::config::CommandView::BuildIndex ==> command_plan_spec(cfg) == seq![
            StepView::EnsureParentDir { path: cfg.db_path },
            StepView::OpenDatabase { path: cfg.db_path },
            StepView::ApplySchema,
            StepView::Print { line: "init-db complete"@ },
            StepView::Print { line: "db_path="@ + cfg.db_path },
            StepView::OpenDatabase { path: cfg.db_path },
            StepView::ApplySchema,
            StepView::ReadManifest { path: cfg.staged_manifest },
            StepView::UpsertDocuments,
            StepView::SyncAllProfiles,
            StepView::ReportManifest,
            StepView::OpenDatabase { path: cfg.db_path },
            StepView::ApplySchema,
            StepView::ListIngestible { family: None, limit: None, document_id: None },
            StepView::CloseDatabase,
            StepView::IngestListed { jobs: None },
        ],
{
    if cfg.command == crate::config::CommandView::PrintConfig {
        assert(print_config_plan(cfg) =~= seq![
            StepView::Print { line: "evidence_backend bootstrap"@ },
            StepView::Print { line: "db_path="@ + cfg.db_path },
            StepView::Print { line: "staged_manifest="@ + cfg.staged_manifest },
            StepView::Print { line: "staged_files_root="@ + cfg.staged_files_root },
            StepView::Print { line: "http_bind="@ + cfg.http_bind },
        ]);
    }
    if cfg.command == crate::config::CommandView::BuildIndex {
        assert(build_index_plan(cfg) =~= seq![
            StepView::EnsureParentDir { path: cfg.db_path },
            StepView::OpenDatabase { path: cfg.db_path },
            StepView::ApplySchema,
            StepView::Print { line: "init-db complete"@ },
            StepView::Print { line: "db_path="@ + cfg.db_path },
            StepView::OpenDatabase { path: cfg.db_path },
            StepView::ApplySchema,
            StepView::ReadManifest { path: cfg.staged_manifest },
            StepView::UpsertDocuments,
            StepView::SyncAllProfiles,
            StepView::ReportManifest,
            StepView::OpenDatabase { path: cfg.db_path },
            StepView::ApplySchema,
            StepView::ListIngestible { family: None, limit: None, document_id: None },
            StepView::CloseDatabase,
            StepView::IngestListed { jobs: None },
        ]);
    }
}

/// A failure that is not a lock error is handed back at once; a lock error is
/// tried again after 150 ms times the attempt number, except at the sixth
/// attempt, where it is handed back.
pub proof fn law_failure_rule(attempt: int)
    requires
        1 <= attempt <= MAX_ATTEMPTS,
    ensures
        retry_rule(attempt, AttemptOutcome::Failed { locked: false }) == RetryAction::GiveUp,
        attempt < MAX_ATTEMPTS ==> retry_rule(attempt, AttemptOutcome::Failed { locked: true })
            == (RetryAction::Retry { delay_ms: (150 * attempt) as u64 }),
        attempt == MAX_ATTEMPTS ==> retry_rule(attempt, AttemptOutcome::Failed { locked: true })
            == RetryAction::GiveUp,
{
}
} // verus!

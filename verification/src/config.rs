//! The application's configuration and its command line.
use vstd::prelude::*;

use crate::number::{IntErrorKind, parse_i64, parse_i64_spec, parse_usize, parse_usize_spec};
use crate::text::{str_concat, is_blank, is_blank_seq, owned, push_char, str_eq};

verus! {

/// What the program was asked to do.
#[allow(inconsistent_fields)]
#[derive(Debug, Clone)]
pub enum Command {
    PrintConfig,
    Serve,
    InitDb,
    IngestManifest,
    IngestDocuments {
        family: Option<String>,
        limit: Option<usize>,
        jobs: Option<usize>,
        document_id: Option<i64>,
    },
    RebuildDocumentIndex,
    BuildIndex,
    Evaluate { gold_path: String },
    Search { keyword: String, family: Option<String>, limit: usize },
    Query { sql: String },
}

/// The paths, address and command that the program runs with.
#[derive(Debug, Clone)]
pub struct AppConfig {
    pub db_path: String,
    pub staged_manifest: String,
    pub staged_files_root: String,
    pub http_bind: String,
    pub command: Command,
}

/// `Command` with its texts taken as character sequences.
#[allow(inconsistent_fields)]
pub enum CommandView {
    PrintConfig,
    Serve,
    InitDb,
    IngestManifest,
    IngestDocuments {
        family: Option<Seq<char>>,
        limit: Option<usize>,
        jobs: Option<usize>,
        document_id: Option<i64>,
    },
    RebuildDocumentIndex,
    BuildIndex,
    Evaluate { gold_path: Seq<char> },
    Search { keyword: Seq<char>, family: Option<Seq<char>>, limit: usize },
    Query { sql: Seq<char> },
}

/// `AppConfig` with its texts taken as character sequences.
pub struct ConfigView {
    pub db_path: Seq<char>,
    pub staged_manifest: Seq<char>,
    pub staged_files_root: Seq<char>,
    pub http_bind: Seq<char>,
    pub command: CommandView,
}

/// An optional text taken by its characters.
pub open spec fn opt_view(o: Option<String>) -> Option<Seq<char>> {
    match o {
        Some(s) => Some(s@),
        None => None,
    }
}

impl View for Command {
    type V = CommandView;

    open spec fn view(&self) -> CommandView {
        match self {
            Command::PrintConfig => CommandView::PrintConfig,
            Command::Serve => CommandView::Serve,
            Command::InitDb => CommandView::InitDb,
            Command::IngestManifest => CommandView::IngestManifest,
            Command::IngestDocuments { family, limit, jobs, document_id } =>
                CommandView::IngestDocuments {
                family: opt_view(*family),
                limit: *limit,
                jobs: *jobs,
                document_id: *document_id,
            },
            Command::RebuildDocumentIndex => CommandView::RebuildDocumentIndex,
            Command::BuildIndex => CommandView::BuildIndex,
            Command::Evaluate { gold_path } => CommandView::Evaluate { gold_path: gold_path@ },
            Command::Search { keyword, family, limit } => CommandView::Search {
                keyword: keyword@,
                family: opt_view(*family),
                limit: *limit,
            },
            Command::Query { sql } => CommandView::Query { sql: sql@ },
        }
    }
}

impl View for AppConfig {
    type V = ConfigView;

    open spec fn view(&self) -> ConfigView {
        ConfigView {
            db_path: self.db_path@,
            staged_manifest: self.staged_manifest@,
            staged_files_root: self.staged_files_root@,
            http_bind: self.http_bind@,
            command: self.command@,
        }
    }
}

/// An option of the command line that takes a value.
#[derive(Debug, Clone, Copy, PartialEq, Eq)]
pub enum Flag {
    Db,
    Manifest,
    FilesRoot,
    Bind,
    Family,
    Limit,
    Jobs,
    DocumentId,
    Gold,
    Keyword,
}

/// How each option is written.
pub open spec fn flag_text(f: Flag) -> Seq<char> {
    match f {
        Flag::Db => "--db"@,
        Flag::Manifest => "--manifest"@,
        Flag::FilesRoot => "--files-root"@,
        Flag::Bind => "--bind"@,
        Flag::Family => "--family"@,
        Flag::Limit => "--limit"@,
        Flag::Jobs => "--jobs"@,
        Flag::DocumentId => "--document-id"@,
        Flag::Gold => "--gold"@,
        Flag::Keyword => "--keyword"@,
    }
}

impl Flag {
    /// How the option is written.
    pub fn text(&self) -> (s: &'static str)
        ensures
            s@ == flag_text(*self),
    {
        match self {
            Flag::Db => "--db",
            Flag::Manifest => "--manifest",
            Flag::FilesRoot => "--files-root",
            Flag::Bind => "--bind",
            Flag::Family => "--family",
            Flag::Limit => "--limit",
            Flag::Jobs => "--jobs",
            Flag::DocumentId => "--document-id",
            Flag::Gold => "--gold",
            Flag::Keyword => "--keyword",
        }
    }
}

/// Why a command line was not accepted.
#[derive(Debug, Clone)]
pub enum ConfigError {
    /// An option came last, without its value.
    MissingValue(Flag),
    /// An option's value is not a number of the needed type.
    InvalidNumber(Flag, IntErrorKind),
    /// `search` was given no keyword, or only white space.
    MissingKeyword,
    /// `query` came last, without its SQL text.
    MissingSql,
    /// A word that is neither a command nor an option.
    UnknownArgument(String),
    /// `--help` or `-h`: the caller prints the usage text and stops.
    HelpRequested,
}

/// `ConfigError` with its text taken as a character sequence.
pub enum ConfigErrorView {
    MissingValue(Flag),
    InvalidNumber(Flag, IntErrorKind),
    MissingKeyword,
    MissingSql,
    UnknownArgument(Seq<char>),
    HelpRequested,
}

impl View for ConfigError {
    type V = ConfigErrorView;

    open spec fn view(&self) -> ConfigErrorView {
        match self {
            ConfigError::MissingValue(f) => ConfigErrorView::MissingValue(*f),
            ConfigError::InvalidNumber(f, k) => ConfigErrorView::InvalidNumber(*f, *k),
            ConfigError::MissingKeyword => ConfigErrorView::MissingKeyword,
            ConfigError::MissingSql => ConfigErrorView::MissingSql,
            ConfigError::UnknownArgument(a) => ConfigErrorView::UnknownArgument(a@),
            ConfigError::HelpRequested => ConfigErrorView::HelpRequested,
        }
    }
}

/// The message that each error is reported with.
pub open spec fn config_error_message(e: ConfigErrorView) -> Seq<char> {
    match e {
        ConfigErrorView::MissingValue(f) => "missing value after "@ + flag_text(f),
        ConfigErrorView::InvalidNumber(_, k) => crate::number::int_error_message(k),
        ConfigErrorView::MissingKeyword => "search requires --keyword"@,
        ConfigErrorView::MissingSql => "query requires a SQL string argument"@,
        ConfigErrorView::UnknownArgument(a) => "unknown argument: "@ + a,
        ConfigErrorView::HelpRequested => "help requested"@,
    }
}

impl ConfigError {
    /// The message that the error is reported with.
    pub fn message(&self) -> (s: String)
        ensures
            s@ == config_error_message(self@),
    {
        match self {
            ConfigError::MissingValue(f) => str_concat("missing value after ", f.text()),
            ConfigError::InvalidNumber(_, k) => k.message(),
            ConfigError::MissingKeyword => owned("search requires --keyword"),
            ConfigError::MissingSql => owned("query requires a SQL string argument"),
            ConfigError::UnknownArgument(a) => str_concat("unknown argument: ", a.as_str()),
            ConfigError::HelpRequested => owned("help requested"),
        }
    }
}

/// The path that joins `parts` with the separator `sep`, as `PathBuf::push`
/// builds it from parts that hold no separator.
pub open spec fn join_path(parts: Seq<Seq<char>>, sep: char) -> Seq<char>
    decreases parts.len(),
{
    if parts.len() == 0 {
        seq![]
    } else if parts.len() == 1 {
        parts[0]
    } else {
        join_path(parts.drop_last(), sep).push(sep) + parts.last()
    }
}

/// `../../data` followed by `parts`.
pub open spec fn data_path_parts(parts: Seq<Seq<char>>) -> Seq<Seq<char>> {
    seq![".."@, ".."@, "data"@] + parts
}

/// The separator that `PathBuf` joins components with on this platform
/// (`std::path::MAIN_SEPARATOR`). Trusted, with no claim on its value: it
/// depends on the platform.
#[verifier::external_body]
fn path_separator() -> (c: char) {
    std::path::MAIN_SEPARATOR
}

/// A path under the data directory `../../data`, joined with `sep`.
pub fn default_data_path(parts: &[&str], sep: char) -> (path: String)
    ensures
        path@ == join_path(data_path_parts(parts@.map_values(|p: &str| p@)), sep),
{
    let ghost all = data_path_parts(parts@.map_values(|p: &str| p@));
    let mut path = owned("..");
    assert(join_path(all.take(1), sep) == ".."@);
    push_char(&mut path, sep);
    path.append("..");
    assert(all.take(2).drop_last() =~= all.take(1));
    assert(path@ =~= join_path(all.take(2), sep));
    push_char(&mut path, sep);
    path.append("data");
    assert(all.take(3).drop_last() =~= all.take(2));
    assert(path@ =~= join_path(all.take(3), sep));
    let n = parts.len();
    for k in 0..n
        invariant
            n == parts@.len(),
            all == data_path_parts(parts@.map_values(|p: &str| p@)),
            path@ == join_path(all.take(3 + k), sep),
    {
        push_char(&mut path, sep);
        path.append(parts[k]);
        assert(all.take(3 + k + 1).drop_last() =~= all.take(3 + k));
        assert(all.take(3 + k + 1).last() == parts@[k as int]@);
    }
    assert(all.take(3 + n) =~= all);
    path
}

/// The address that the web server listens on unless told otherwise.
pub open spec fn default_bind() -> Seq<char> {
    "127.0.0.1:8080"@
}

/// The configuration that the program starts from, with paths joined by `sep`.
pub open spec fn default_config(sep: char) -> ConfigView {
    ConfigView {
        db_path: join_path(data_path_parts(seq!["backend"@, "evidence.db"@]), sep),
        staged_manifest: join_path(
            data_path_parts(seq!["rag_stage"@, "manifests"@, "manifest.csv"@]),
            sep,
        ),
        staged_files_root: join_path(data_path_parts(seq!["rag_stage"@, "files"@]), sep),
        http_bind: default_bind(),
        command: CommandView::PrintConfig,
    }
}

/// The gold file that `evaluate` reads unless told otherwise.
pub open spec fn default_gold_path(sep: char) -> Seq<char> {
    join_path(seq!["eval"@, "evaluation_gold.csv"@], sep)
}

impl AppConfig {
    /// The configuration that the program starts from, with paths joined by `sep`.
    pub fn defaults_for(sep: char) -> (c: AppConfig)
        ensures
            c@ == default_config(sep),
    {
        let a: [&str; 2] = ["backend", "evidence.db"];
        let b: [&str; 3] = ["rag_stage", "manifests", "manifest.csv"];
        let d: [&str; 2] = ["rag_stage", "files"];
        assert(a@.map_values(|p: &str| p@) =~= seq!["backend"@, "evidence.db"@]);
        assert(b@.map_values(|p: &str| p@) =~= seq!["rag_stage"@, "manifests"@, "manifest.csv"@]);
        assert(d@.map_values(|p: &str| p@) =~= seq!["rag_stage"@, "files"@]);
        AppConfig {
            db_path: default_data_path(a.as_slice(), sep),
            staged_manifest: default_data_path(b.as_slice(), sep),
            staged_files_root: default_data_path(d.as_slice(), sep),
            http_bind: owned("127.0.0.1:8080"),
            command: Command::PrintConfig,
        }
    }
}

impl Default for AppConfig {
    /// The configuration that the program starts from, on this platform.
    fn default() -> (c: AppConfig)
        ensures
            exists|sep: char| c@ == default_config(sep),
    {
        let sep = path_separator();
        AppConfig::defaults_for(sep)
    }
}


/// `cfg` with another command.
pub open spec fn with_command(cfg: ConfigView, c: CommandView) -> ConfigView {
    ConfigView {
        db_path: cfg.db_path,
        staged_manifest: cfg.staged_manifest,
        staged_files_root: cfg.staged_files_root,
        http_bind: cfg.http_bind,
        command: c,
    }
}

/// `cfg` with another database path.
pub open spec fn with_db_path(cfg: ConfigView, v: Seq<char>) -> ConfigView {
    ConfigView {
        db_path: v,
        staged_manifest: cfg.staged_manifest,
        staged_files_root: cfg.staged_files_root,
        http_bind: cfg.http_bind,
        command: cfg.command,
    }
}

/// `cfg` with another manifest path.
pub open spec fn with_manifest(cfg: ConfigView, v: Seq<char>) -> ConfigView {
    ConfigView {
        db_path: cfg.db_path,
        staged_manifest: v,
        staged_files_root: cfg.staged_files_root,
        http_bind: cfg.http_bind,
        command: cfg.command,
    }
}

/// `cfg` with another root for staged files.
pub open spec fn with_files_root(cfg: ConfigView, v: Seq<char>) -> ConfigView {
    ConfigView {
        db_path: cfg.db_path,
        staged_manifest: cfg.staged_manifest,
        staged_files_root: v,
        http_bind: cfg.http_bind,
        command: cfg.command,
    }
}

/// `cfg` with another listening address.
pub open spec fn with_bind(cfg: ConfigView, v: Seq<char>) -> ConfigView {
    ConfigView {
        db_path: cfg.db_path,
        staged_manifest: cfg.staged_manifest,
        staged_files_root: cfg.staged_files_root,
        http_bind: v,
        command: cfg.command,
    }
}

/// Whether `tok` is an option of the subcommand being read, `draft`.
pub open spec fn takes_option(draft: CommandView, tok: Seq<char>) -> bool {
    match draft {
        CommandView::Serve => tok == "--bind"@,
        CommandView::IngestDocuments { .. } => tok == "--family"@ || tok == "--limit"@ || tok
            == "--jobs"@ || tok == "--document-id"@,
        CommandView::Evaluate { .. } => tok == "--gold"@,
        CommandView::Search { .. } => tok == "--keyword"@ || tok == "--family"@ || tok
            == "--limit"@,
        _ => false,
    }
}

/// The option that a subcommand's option word names.
pub open spec fn option_flag(tok: Seq<char>) -> Flag {
    if tok == "--bind"@ {
        Flag::Bind
    } else if tok == "--family"@ {
        Flag::Family
    } else if tok == "--limit"@ {
        Flag::Limit
    } else if tok == "--jobs"@ {
        Flag::Jobs
    } else if tok == "--document-id"@ {
        Flag::DocumentId
    } else if tok == "--gold"@ {
        Flag::Gold
    } else {
        Flag::Keyword
    }
}

/// The configuration and subcommand after the subcommand option `tok` with value `val`.
pub open spec fn apply_option(
    cfg: ConfigView,
    draft: CommandView,
    tok: Seq<char>,
    val: Seq<char>,
) -> Result<(ConfigView, CommandView), ConfigErrorView> {
    match draft {
        CommandView::Serve => Ok((with_bind(cfg, val), draft)),
        CommandView::IngestDocuments { family, limit, jobs, document_id } => {
            if tok == "--family"@ {
                Ok(
                    (
                        cfg,
                        CommandView::IngestDocuments { family: Some(val), limit, jobs, document_id },
                    ),
                )
            } else if tok == "--limit"@ {
                match parse_usize_spec(val) {
                    Ok(v) => Ok(
                        (
                            cfg,
                            CommandView::IngestDocuments {
                                family,
                                limit: Some(v as usize),
                                jobs,
                                document_id,
                            },
                        ),
                    ),
                    Err(k) => Err(ConfigErrorView::InvalidNumber(Flag::Limit, k)),
                }
            } else if tok == "--jobs"@ {
                match parse_usize_spec(val) {
                    Ok(v) => Ok(
                        (
                            cfg,
                            CommandView::IngestDocuments {
                                family,
                                limit,
                                jobs: Some(v as usize),
                                document_id,
                            },
                        ),
                    ),
                    Err(k) => Err(ConfigErrorView::InvalidNumber(Flag::Jobs, k)),
                }
            } else {
                match parse_i64_spec(val) {
                    Ok(v) => Ok(
                        (
                            cfg,
                            CommandView::IngestDocuments {
                                family,
                                limit,
                                jobs,
                                document_id: Some(v as i64),
                            },
                        ),
                    ),
                    Err(k) => Err(ConfigErrorView::InvalidNumber(Flag::DocumentId, k)),
                }
            }
        },
        CommandView::Evaluate { .. } => Ok((cfg, CommandView::Evaluate { gold_path: val })),
        CommandView::Search { keyword, family, limit } => {
            if tok == "--keyword"@ {
                Ok((cfg, CommandView::Search { keyword: val, family, limit }))
            } else if tok == "--family"@ {
                Ok((cfg, CommandView::Search { keyword, family: Some(val), limit }))
            } else {
                match parse_usize_spec(val) {
                    Ok(v) => Ok((cfg, CommandView::Search { keyword, family, limit: v as usize })),
                    Err(k) => Err(ConfigErrorView::InvalidNumber(Flag::Limit, k)),
                }
            }
        },
        _ => Ok((cfg, draft)),
    }
}

/// The configuration once the subcommand being read, `draft`, is complete.
pub open spec fn close_command(cfg: ConfigView, draft: CommandView) -> Result<
    ConfigView,
    ConfigErrorView,
> {
    match draft {
        CommandView::Search { keyword, .. } => {
            if is_blank_seq(keyword) {
                Err(ConfigErrorView::MissingKeyword)
            } else {
                Ok(with_command(cfg, draft))
            }
        },
        _ => Ok(with_command(cfg, draft)),
    }
}

/// One step on the word `args[i]` outside any subcommand: the next position,
/// configuration, whether a subcommand is now open, and the subcommand being read.
pub open spec fn top_step(args: Seq<Seq<char>>, i: int, cfg: ConfigView, sep: char) -> Result<
    (int, ConfigView, bool, CommandView),
    ConfigErrorView,
> {
    let a = args[i];
    let has_value = i + 1 < args.len();
    if a == "--db"@ {
        if has_value {
            Ok((i + 2, with_db_path(cfg, args[i + 1]), false, CommandView::PrintConfig))
        } else {
            Err(ConfigErrorView::MissingValue(Flag::Db))
        }
    } else if a == "--manifest"@ {
        if has_value {
            Ok((i + 2, with_manifest(cfg, args[i + 1]), false, CommandView::PrintConfig))
        } else {
            Err(ConfigErrorView::MissingValue(Flag::Manifest))
        }
    } else if a == "--files-root"@ {
        if has_value {
            Ok((i + 2, with_files_root(cfg, args[i + 1]), false, CommandView::PrintConfig))
        } else {
            Err(ConfigErrorView::MissingValue(Flag::FilesRoot))
        }
    } else if a == "serve"@ {
        Ok((i + 1, cfg, true, CommandView::Serve))
    } else if a == "print-config"@ {
        Ok((i + 1, with_command(cfg, CommandView::PrintConfig), false, CommandView::PrintConfig))
    } else if a == "init-db"@ {
        Ok((i + 1, with_command(cfg, CommandView::InitDb), false, CommandView::PrintConfig))
    } else if a == "ingest-manifest"@ {
        Ok((i + 1, with_command(cfg, CommandView::IngestManifest), false, CommandView::PrintConfig))
    } else if a == "ingest-documents"@ || a == "ingest-xlsx"@ {
        Ok(
            (
                i + 1,
                cfg,
                true,
                CommandView::IngestDocuments {
                    family: None,
                    limit: None,
                    jobs: None,
                    document_id: None,
                },
            ),
        )
    } else if a == "rebuild-document-index"@ {
        Ok(
            (
                i + 1,
                with_command(cfg, CommandView::RebuildDocumentIndex),
                false,
                CommandView::PrintConfig,
            ),
        )
    } else if a == "build-index"@ {
        Ok((i + 1, with_command(cfg, CommandView::BuildIndex), false, CommandView::PrintConfig))
    } else if a == "evaluate"@ {
        Ok((i + 1, cfg, true, CommandView::Evaluate { gold_path: default_gold_path(sep) }))
    } else if a == "search"@ {
        Ok((i + 1, cfg, true, CommandView::Search { keyword: seq![], family: None, limit: 20 }))
    } else if a == "query"@ {
        if has_value {
            Ok(
                (
                    i + 2,
                    with_command(cfg, CommandView::Query { sql: args[i + 1] }),
                    false,
                    CommandView::PrintConfig,
                ),
            )
        } else {
            Err(ConfigErrorView::MissingSql)
        }
    } else if a == "--help"@ || a == "-h"@ {
        Err(ConfigErrorView::HelpRequested)
    } else {
        Err(ConfigErrorView::UnknownArgument(a))
    }
}

/// The result of reading the words `args[i..]` in the state `(cfg, open, draft)`.
pub open spec fn parse_from(
    args: Seq<Seq<char>>,
    i: int,
    cfg: ConfigView,
    open: bool,
    draft: CommandView,
    sep: char,
) -> Result<ConfigView, ConfigErrorView>
    decreases args.len() - i, (if open {
        1int
    } else {
        0int
    }),
{
    if i < 0 {
        Ok(cfg)
    } else if open {
        if i < args.len() && takes_option(draft, args[i]) {
            if i + 1 < args.len() {
                match apply_option(cfg, draft, args[i], args[i + 1]) {
                    Ok((c, d)) => parse_from(args, i + 2, c, true, d, sep),
                    Err(e) => Err(e),
                }
            } else {
                Err(ConfigErrorView::MissingValue(option_flag(args[i])))
            }
        } else {
            match close_command(cfg, draft) {
                Ok(c) => parse_from(args, i, c, false, CommandView::PrintConfig, sep),
                Err(e) => Err(e),
            }
        }
    } else if i >= args.len() {
        Ok(cfg)
    } else {
        match top_step(args, i, cfg, sep) {
            Ok((j, c, o, d)) => parse_from(args, j, c, o, d, sep),
            Err(e) => Err(e),
        }
    }
}

/// What a command line means: `args[0]` names the program, the rest are read
/// in order from the default configuration, with paths joined by `sep`.
pub open spec fn spec_from_args(args: Seq<Seq<char>>, sep: char) -> Result<ConfigView, ConfigErrorView> {
    parse_from(args, 1, default_config(sep), false, CommandView::PrintConfig, sep)
}

fn is_word(a: &String, lit: &str) -> (b: bool)
    ensures
        b == (a@ == lit@),
{
    str_eq(a.as_str(), lit)
}

fn takes_option_exec(draft: &Command, tok: &String) -> (b: bool)
    ensures
        b == takes_option(draft@, tok@),
{
    match draft {
        Command::Serve => is_word(tok, "--bind"),
        Command::IngestDocuments { .. } => is_word(tok, "--family") || is_word(tok, "--limit")
            || is_word(tok, "--jobs") || is_word(tok, "--document-id"),
        Command::Evaluate { .. } => is_word(tok, "--gold"),
        Command::Search { .. } => is_word(tok, "--keyword") || is_word(tok, "--family") || is_word(
            tok,
            "--limit",
        ),
        _ => false,
    }
}

fn option_flag_exec(tok: &String) -> (f: Flag)
    ensures
        f == option_flag(tok@),
{
    if is_word(tok, "--bind") {
        Flag::Bind
    } else if is_word(tok, "--family") {
        Flag::Family
    } else if is_word(tok, "--limit") {
        Flag::Limit
    } else if is_word(tok, "--jobs") {
        Flag::Jobs
    } else if is_word(tok, "--document-id") {
        Flag::DocumentId
    } else if is_word(tok, "--gold") {
        Flag::Gold
    } else {
        Flag::Keyword
    }
}

fn apply_option_exec(config: AppConfig, draft: Command, tok: &String, val: &String) -> (res: Result<
    (AppConfig, Command),
    ConfigError,
>)
    ensures
        match res {
            Ok((c, d)) => apply_option(config@, draft@, tok@, val@) == Ok::<
                (ConfigView, CommandView),
                ConfigErrorView,
            >((c@, d@)),
            Err(e) => apply_option(config@, draft@, tok@, val@) == Err::<
                (ConfigView, CommandView),
                ConfigErrorView,
            >(e@),
        },
{
    let ghost cv = config@;
    let ghost dv = draft@;
    match draft {
        Command::Serve => {
            let mut c = config;
            c.http_bind = val.clone();
            assert(c@ == with_bind(cv, val@));
            Ok((c, Command::Serve))
        },
        Command::IngestDocuments { family, limit, jobs, document_id } => {
            if is_word(tok, "--family") {
                Ok(
                    (
                        config,
                        Command::IngestDocuments {
                            family: Some(val.clone()),
                            limit,
                            jobs,
                            document_id,
                        },
                    ),
                )
            } else if is_word(tok, "--limit") {
                match parse_usize(val.as_str()) {
                    Ok(v) => Ok(
                        (config, Command::IngestDocuments { family, limit: Some(v), jobs, document_id }),
                    ),
                    Err(k) => Err(ConfigError::InvalidNumber(Flag::Limit, k)),
                }
            } else if is_word(tok, "--jobs") {
                match parse_usize(val.as_str()) {
                    Ok(v) => Ok(
                        (config, Command::IngestDocuments { family, limit, jobs: Some(v), document_id }),
                    ),
                    Err(k) => Err(ConfigError::InvalidNumber(Flag::Jobs, k)),
                }
            } else {
                match parse_i64(val.as_str()) {
                    Ok(v) => Ok(
                        (config, Command::IngestDocuments { family, limit, jobs, document_id: Some(v) }),
                    ),
                    Err(k) => Err(ConfigError::InvalidNumber(Flag::DocumentId, k)),
                }
            }
        },
        Command::Evaluate { .. } => Ok((config, Command::Evaluate { gold_path: val.clone() })),
        Command::Search { keyword, family, limit } => {
            if is_word(tok, "--keyword") {
                Ok((config, Command::Search { keyword: val.clone(), family, limit }))
            } else if is_word(tok, "--family") {
                Ok((config, Command::Search { keyword, family: Some(val.clone()), limit }))
            } else {
                match parse_usize(val.as_str()) {
                    Ok(v) => Ok((config, Command::Search { keyword, family, limit: v })),
                    Err(k) => Err(ConfigError::InvalidNumber(Flag::Limit, k)),
                }
            }
        },
        other => Ok((config, other)),
    }
}

fn close_exec(config: AppConfig, draft: Command) -> (res: Result<AppConfig, ConfigError>)
    ensures
        match res {
            Ok(c) => close_command(config@, draft@) == Ok::<ConfigView, ConfigErrorView>(c@),
            Err(e) => close_command(config@, draft@) == Err::<ConfigView, ConfigErrorView>(e@),
        },
{
    let ghost cv = config@;
    let ghost dv = draft@;
    if let Command::Search { keyword, .. } = &draft {
        if is_blank(keyword.as_str()) {
            return Err(ConfigError::MissingKeyword);
        }
    }
    let mut c = config;
    c.command = draft;
    assert(c@ == with_command(cv, dv));
    Ok(c)
}

fn top_step_exec(args: &Vec<String>, i: usize, config: AppConfig, sep: char) -> (res: Result<
    (usize, AppConfig, bool, Command),
    ConfigError,
>)
    requires
        i < args.len(),
    ensures
        match res {
            Ok((j, c, o, d)) => top_step(args.deep_view(), i as int, config@, sep) == Ok::<
                (int, ConfigView, bool, CommandView),
                ConfigErrorView,
            >((j as int, c@, o, d@)),
            Err(e) => top_step(args.deep_view(), i as int, config@, sep) == Err::<
                (int, ConfigView, bool, CommandView),
                ConfigErrorView,
            >(e@),
        },
{
    let ghost cv = config@;
    let ghost av = args.deep_view();
    let a = &args[i];
    let has_value = i + 1 < args.len();
    let mut c = config;
    if is_word(a, "--db") {
        if has_value {
            c.db_path = args[i + 1].clone();
            assert(c@ == with_db_path(cv, av[i + 1]));
            Ok((i + 2, c, false, Command::PrintConfig))
        } else {
            Err(ConfigError::MissingValue(Flag::Db))
        }
    } else if is_word(a, "--manifest") {
        if has_value {
            c.staged_manifest = args[i + 1].clone();
            assert(c@ == with_manifest(cv, av[i + 1]));
            Ok((i + 2, c, false, Command::PrintConfig))
        } else {
            Err(ConfigError::MissingValue(Flag::Manifest))
        }
    } else if is_word(a, "--files-root") {
        if has_value {
            c.staged_files_root = args[i + 1].clone();
            assert(c@ == with_files_root(cv, av[i + 1]));
            Ok((i + 2, c, false, Command::PrintConfig))
        } else {
            Err(ConfigError::MissingValue(Flag::FilesRoot))
        }
    } else if is_word(a, "serve") {
        Ok((i + 1, c, true, Command::Serve))
    } else if is_word(a, "print-config") {
        c.command = Command::PrintConfig;
        assert(c@ == with_command(cv, CommandView::PrintConfig));
        Ok((i + 1, c, false, Command::PrintConfig))
    } else if is_word(a, "init-db") {
        c.command = Command::InitDb;
        assert(c@ == with_command(cv, CommandView::InitDb));
        Ok((i + 1, c, false, Command::PrintConfig))
    } else if is_word(a, "ingest-manifest") {
        c.command = Command::IngestManifest;
        assert(c@ == with_command(cv, CommandView::IngestManifest));
        Ok((i + 1, c, false, Command::PrintConfig))
    } else if is_word(a, "ingest-documents") || is_word(a, "ingest-xlsx") {
        Ok(
            (
                i + 1,
                c,
                true,
                Command::IngestDocuments { family: None, limit: None, jobs: None, document_id: None },
            ),
        )
    } else if is_word(a, "rebuild-document-index") {
        c.command = Command::RebuildDocumentIndex;
        assert(c@ == with_command(cv, CommandView::RebuildDocumentIndex));
        Ok((i + 1, c, false, Command::PrintConfig))
    } else if is_word(a, "build-index") {
        c.command = Command::BuildIndex;
        assert(c@ == with_command(cv, CommandView::BuildIndex));
        Ok((i + 1, c, false, Command::PrintConfig))
    } else if is_word(a, "evaluate") {
        let gold = default_gold(sep);
        Ok((i + 1, c, true, Command::Evaluate { gold_path: gold }))
    } else if is_word(a, "search") {
        let keyword = String::new();
        Ok((i + 1, c, true, Command::Search { keyword, family: None, limit: 20 }))
    } else if is_word(a, "query") {
        if has_value {
            c.command = Command::Query { sql: args[i + 1].clone() };
            assert(c@ == with_command(cv, CommandView::Query { sql: av[i + 1] }));
            Ok((i + 2, c, false, Command::PrintConfig))
        } else {
            Err(ConfigError::MissingSql)
        }
    } else if is_word(a, "--help") || is_word(a, "-h") {
        Err(ConfigError::HelpRequested)
    } else {
        Err(ConfigError::UnknownArgument(a.clone()))
    }
}

/// The gold file that `evaluate` reads unless told otherwise, joined with `sep`.
pub fn default_gold(sep: char) -> (p: String)
    ensures
        p@ == default_gold_path(sep),
{
    let mut p = owned("eval");
    push_char(&mut p, sep);
    p.append("evaluation_gold.csv");
    let ghost parts = seq!["eval"@, "evaluation_gold.csv"@];
    assert(parts.drop_last() =~= seq!["eval"@]);
    assert(join_path(seq!["eval"@], sep) == "eval"@);
    assert(parts.last() == "evaluation_gold.csv"@);
    assert(p@ =~= join_path(parts, sep));
    p
}

impl AppConfig {
    /// Reads the command line `args` (whose first word names the program),
    /// with default paths joined by `sep`.
    pub fn from_args_with_separator(args: Vec<String>, sep: char) -> (res: Result<
        AppConfig,
        ConfigError,
    >)
        ensures
            match res {
                Ok(c) => spec_from_args(args.deep_view(), sep) == Ok::<
                    ConfigView,
                    ConfigErrorView,
                >(c@),
                Err(e) => spec_from_args(args.deep_view(), sep) == Err::<
                    ConfigView,
                    ConfigErrorView,
                >(e@),
            },
    {
        let ghost av = args.deep_view();
        let n = args.len();
        let mut config = AppConfig::defaults_for(sep);
        if n <= 1 {
            return Ok(config);
        }
        let mut open = false;
        let mut draft = Command::PrintConfig;
        let mut i: usize = 1;
        loop
            invariant
                av == args.deep_view(),
                n == args.len(),
                1 <= i <= n,
                spec_from_args(av, sep) == parse_from(av, i as int, config@, open, draft@, sep),
            decreases 2 * (n - i) + (if open {
                1int
            } else {
                0int
            }),
        {
            if open {
                if i < n && takes_option_exec(&draft, &args[i]) {
                    if i + 1 < n {
                        match apply_option_exec(config, draft, &args[i], &args[i + 1]) {
                            Ok((c, d)) => {
                                config = c;
                                draft = d;
                            },
                            Err(e) => {
                                return Err(e);
                            },
                        }
                        i = i + 2;
                        continue ;
                    } else {
                        return Err(ConfigError::MissingValue(option_flag_exec(&args[i])));
                    }
                } else {
                    match close_exec(config, draft) {
                        Ok(c) => {
                            config = c;
                        },
                        Err(e) => {
                            return Err(e);
                        },
                    }
                    draft = Command::PrintConfig;
                    open = false;
                    assert(spec_from_args(av, sep) == parse_from(
                        av,
                        i as int,
                        config@,
                        open,
                        draft@,
                        sep,
                    ));
                }
            }
            if i >= n {
                return Ok(config);
            }
            match top_step_exec(&args, i, config, sep) {
                Ok((j, c, o, d)) => {
                    i = j;
                    config = c;
                    open = o;
                    draft = d;
                },
                Err(e) => {
                    return Err(e);
                },
            }
        }
    }

    /// Reads the command line `args` (whose first word names the program).
    /// The default paths are joined with the platform's separator.
    pub fn from_args(args: Vec<String>) -> (res: Result<AppConfig, ConfigError>)
        ensures
            exists|sep: char|
                #![trigger spec_from_args(args.deep_view(), sep)]
                match res {
                    Ok(c) => spec_from_args(args.deep_view(), sep) == Ok::<
                        ConfigView,
                        ConfigErrorView,
                    >(c@),
                    Err(e) => spec_from_args(args.deep_view(), sep) == Err::<
                        ConfigView,
                        ConfigErrorView,
                    >(e@),
                },
    {
        let sep = path_separator();
        AppConfig::from_args_with_separator(args, sep)
    }
}

/// A configuration whose command, if it is `search`, has a keyword that is
/// not blank.
pub open spec fn search_keyword_ok(cfg: ConfigView) -> bool {
    match cfg.command {
        CommandView::Search { keyword, .. } => !is_blank_seq(keyword),
        _ => true,
    }
}

proof fn lemma_parse_keeps_keyword(
    args: Seq<Seq<char>>,
    i: int,
    cfg: ConfigView,
    open: bool,
    draft: CommandView,
    sep: char,
)
    requires
        search_keyword_ok(cfg),
    ensures
        parse_from(args, i, cfg, open, draft, sep) matches Ok(c) ==> search_keyword_ok(c),
    decreases args.len() - i, (if open {
        1int
    } else {
        0int
    }),
{
    if i < 0 {
    } else if open {
        if i < args.len() && takes_option(draft, args[i]) {
            if i + 1 < args.len() {
                if let Ok((c, d)) = apply_option(cfg, draft, args[i], args[i + 1]) {
                    lemma_parse_keeps_keyword(args, i + 2, c, true, d, sep);
                }
            }
        } else {
            if let Ok(c) = close_command(cfg, draft) {
                lemma_parse_keeps_keyword(args, i, c, false, CommandView::PrintConfig, sep);
            }
        }
    } else if i >= args.len() {
    } else {
        if let Ok((j, c, o, d)) = top_step(args, i, cfg, sep) {
            lemma_parse_keeps_keyword(args, j, c, o, d, sep);
        }
    }
}

/// A command line that is accepted as `search` always carries a keyword that
/// is not blank.
pub proof fn law_search_has_keyword(args: Seq<Seq<char>>, sep: char)
    ensures
        spec_from_args(args, sep) matches Ok(c) ==> search_keyword_ok(c),
{
    lemma_parse_keeps_keyword(args, 1, default_config(sep), false, CommandView::PrintConfig, sep);
}

/// A command line with nothing after the program's name gives the default
/// configuration, which prints the configuration.
pub proof fn law_no_arguments_default(args: Seq<Seq<char>>, sep: char)
    requires
        args.len() <= 1,
    ensures
        spec_from_args(args, sep) == Ok::<ConfigView, ConfigErrorView>(default_config(sep)),
{
}

/// The number of ingest workers when none is asked for: the parallelism that
/// the platform reports (`std::thread::available_parallelism`), or one when it
/// reports none.
pub fn default_worker_count(available: Option<usize>) -> (n: usize)
    ensures
        n == match available {
            Some(k) => k,
            None => 1,
        },
{
    match available {
        Some(k) => k,
        None => 1,
    }
}

/// The configuration after the global option `f` (one of `--db`, `--manifest`,
/// `--files-root`) with value `v`.
pub open spec fn set_path(c: ConfigView, f: Flag, v: Seq<char>) -> ConfigView {
    match f {
        Flag::Db => with_db_path(c, v),
        Flag::Manifest => with_manifest(c, v),
        _ => with_files_root(c, v),
    }
}

/// A flag that names one of the three global paths.
pub open spec fn is_path_flag(f: Flag) -> bool {
    f == Flag::Db || f == Flag::Manifest || f == Flag::FilesRoot
}

proof fn lemma_option_words()
    ensures
        "--db"@.len() == 4,
        "--manifest"@.len() == 10,
        "--files-root"@.len() == 12,
        "--bind"@.len() == 6,
        "--family"@.len() == 8,
        "--limit"@.len() == 7,
        "--jobs"@.len() == 6,
        "--document-id"@.len() == 13,
        "--gold"@.len() == 6,
        "--keyword"@.len() == 9,
{
    reveal_strlit("--db");
    reveal_strlit("--manifest");
    reveal_strlit("--files-root");
    reveal_strlit("--bind");
    reveal_strlit("--family");
    reveal_strlit("--limit");
    reveal_strlit("--jobs");
    reveal_strlit("--document-id");
    reveal_strlit("--gold");
    reveal_strlit("--keyword");
}

proof fn lemma_path_flag_step(args: Seq<Seq<char>>, i: int, cfg: ConfigView, sep: char, f: Flag, v: Seq<char>)
    requires
        is_path_flag(f),
        0 <= i,
        i + 2 == args.len(),
        args[i] == flag_text(f),
        args[i + 1] == v,
    ensures
        parse_from(args, i, cfg, false, CommandView::PrintConfig, sep) == Ok::<
            ConfigView,
            ConfigErrorView,
        >(set_path(cfg, f, v)),
        forall|d: CommandView| !takes_option(d, #[trigger] args[i]),
{
    lemma_option_words();
    assert(top_step(args, i, cfg, sep) == Ok::<(int, ConfigView, bool, CommandView), ConfigErrorView>(
        (i + 2, set_path(cfg, f, v), false, CommandView::PrintConfig),
    ));
    assert(parse_from(args, i + 2, set_path(cfg, f, v), false, CommandView::PrintConfig, sep) == Ok::<
        ConfigView,
        ConfigErrorView,
    >(set_path(cfg, f, v)));
}

proof fn lemma_append_path(
    args: Seq<Seq<char>>,
    i: int,
    cfg: ConfigView,
    open: bool,
    draft: CommandView,
    sep: char,
    f: Flag,
    v: Seq<char>,
)
    requires
        is_path_flag(f),
        0 <= i <= args.len(),
        parse_from(args, i, cfg, open, draft, sep) is Ok,
    ensures
        parse_from(args + seq![flag_text(f), v], i, cfg, open, draft, sep) == Ok::<
            ConfigView,
            ConfigErrorView,
        >(set_path(parse_from(args, i, cfg, open, draft, sep)->Ok_0, f, v)),
    decreases args.len() - i, (if open {
        1int
    } else {
        0int
    }),
{
    let a2 = args + seq![flag_text(f), v];
    assert(a2.len() == args.len() + 2);
    assert(a2[args.len() as int] == flag_text(f));
    assert(a2[args.len() as int + 1] == v);
    if i < args.len() {
        assert(a2[i] == args[i]);
    }
    if i + 1 < args.len() {
        assert(a2[i + 1] == args[i + 1]);
    }
    if open {
        if i < args.len() && takes_option(draft, args[i]) {
            if i + 1 < args.len() {
                if let Ok((c, d)) = apply_option(cfg, draft, args[i], args[i + 1]) {
                    lemma_append_path(args, i + 2, c, true, d, sep, f, v);
                }
            }
        } else if i < args.len() {
            if let Ok(c) = close_command(cfg, draft) {
                lemma_append_path(args, i, c, false, CommandView::PrintConfig, sep, f, v);
            }
        } else {
            if let Ok(c) = close_command(cfg, draft) {
                lemma_path_flag_step(a2, i, c, sep, f, v);
                assert(!takes_option(draft, a2[i]));
                assert(parse_from(args, i, c, false, CommandView::PrintConfig, sep) == Ok::<
                    ConfigView,
                    ConfigErrorView,
                >(c));
            }
        }
    } else if i >= args.len() {
        lemma_path_flag_step(a2, i, cfg, sep, f, v);
    } else {
        if let Ok((j, c, o, d)) = top_step(args, i, cfg, sep) {
            assert(top_step(a2, i, cfg, sep) == top_step(args, i, cfg, sep));
            lemma_append_path(args, j, c, o, d, sep, f, v);
        }
    }
}

/// A global path option added at the end of an accepted command line sets
/// that path and changes nothing else: the other paths, the listening address
/// and the command stay as they were.
pub proof fn law_path_option_changes_only_its_path(args: Seq<Seq<char>>, sep: char, v: Seq<char>)
    requires
        args.len() >= 1,
    ensures
        spec_from_args(args, sep) matches Ok(c) ==> {
            &&& spec_from_args(args + seq!["--db"@, v], sep) matches Ok(d)
            &&& d.db_path == v && d.staged_manifest == c.staged_manifest && d.staged_files_root
                == c.staged_files_root && d.http_bind == c.http_bind && d.command == c.command
        },
        spec_from_args(args, sep) matches Ok(c) ==> {
            &&& spec_from_args(args + seq!["--manifest"@, v], sep) matches Ok(d)
            &&& d.db_path == c.db_path && d.staged_manifest == v && d.staged_files_root
                == c.staged_files_root && d.http_bind == c.http_bind && d.command == c.command
        },
        spec_from_args(args, sep) matches Ok(c) ==> {
            &&& spec_from_args(args + seq!["--files-root"@, v], sep) matches Ok(d)
            &&& d.db_path == c.db_path && d.staged_manifest == c.staged_manifest
                && d.staged_files_root == v && d.http_bind == c.http_bind && d.command == c.command
        },
{
    if spec_from_args(args, sep) is Ok {
        let d = default_config(sep);
        lemma_append_path(args, 1, d, false, CommandView::PrintConfig, sep, Flag::Db, v);
        lemma_append_path(args, 1, d, false, CommandView::PrintConfig, sep, Flag::Manifest, v);
        lemma_append_path(args, 1, d, false, CommandView::PrintConfig, sep, Flag::FilesRoot, v);
    }
}

/// `w` is a command word without options that selects `cmd`.
pub open spec fn selects(w: Seq<char>, cmd: CommandView, sep: char) -> bool {
    &&& forall|d: CommandView| !takes_option(d, w)
    &&& forall|a: Seq<Seq<char>>, j: int, c: ConfigView|
        0 <= j < a.len() && a[j] == w ==> #[trigger] top_step(a, j, c, sep) == Ok::<
            (int, ConfigView, bool, CommandView),
            ConfigErrorView,
        >((j + 1, with_command(c, cmd), false, CommandView::PrintConfig))
}

proof fn lemma_append_word(
    args: Seq<Seq<char>>,
    i: int,
    cfg: ConfigView,
    open: bool,
    draft: CommandView,
    sep: char,
    w: Seq<char>,
    cmd: CommandView,
)
    requires
        selects(w, cmd, sep),
        0 <= i <= args.len(),
        parse_from(args, i, cfg, open, draft, sep) is Ok,
    ensures
        parse_from(args.push(w), i, cfg, open, draft, sep) == Ok::<ConfigView, ConfigErrorView>(
            with_command(parse_from(args, i, cfg, open, draft, sep)->Ok_0, cmd),
        ),
    decreases args.len() - i, (if open {
        1int
    } else {
        0int
    }),
{
    let a2 = args.push(w);
    assert(a2[args.len() as int] == w);
    if i < args.len() {
        assert(a2[i] == args[i]);
    }
    if i + 1 < args.len() {
        assert(a2[i + 1] == args[i + 1]);
    }
    if open {
        if i < args.len() && takes_option(draft, args[i]) {
            if i + 1 < args.len() {
                if let Ok((c, d)) = apply_option(cfg, draft, args[i], args[i + 1]) {
                    lemma_append_word(args, i + 2, c, true, d, sep, w, cmd);
                    assert(apply_option(cfg, draft, a2[i], a2[i + 1]) == apply_option(cfg, draft, args[i], args[i + 1]));
                    assert(parse_from(a2, i, cfg, open, draft, sep) == parse_from(a2, i + 2, c, true, d, sep));
                }
            }
        } else if i < args.len() {
            if let Ok(c) = close_command(cfg, draft) {
                lemma_append_word(args, i, c, false, CommandView::PrintConfig, sep, w, cmd);
                assert(!takes_option(draft, a2[i]));
                assert(parse_from(a2, i, cfg, open, draft, sep) == parse_from(a2, i, c, false, CommandView::PrintConfig, sep));
            }
        } else {
            if let Ok(c) = close_command(cfg, draft) {
                assert(!takes_option(draft, a2[i]));
                assert(top_step(a2, i, c, sep) == Ok::<(int, ConfigView, bool, CommandView), ConfigErrorView>(
                    (i + 1, with_command(c, cmd), false, CommandView::PrintConfig),
                ));
                assert(parse_from(a2, i + 1, with_command(c, cmd), false, CommandView::PrintConfig, sep)
                    == Ok::<ConfigView, ConfigErrorView>(with_command(c, cmd)));
                assert(parse_from(a2, i, c, false, CommandView::PrintConfig, sep) == Ok::<
                    ConfigView,
                    ConfigErrorView,
                >(with_command(c, cmd)));
                assert(parse_from(args, i, c, false, CommandView::PrintConfig, sep) == Ok::<
                    ConfigView,
                    ConfigErrorView,
                >(c));
            }
        }
    } else if i >= args.len() {
        assert(top_step(a2, i, cfg, sep) == Ok::<(int, ConfigView, bool, CommandView), ConfigErrorView>(
            (i + 1, with_command(cfg, cmd), false, CommandView::PrintConfig),
        ));
        assert(parse_from(a2, i + 1, with_command(cfg, cmd), false, CommandView::PrintConfig, sep)
            == Ok::<ConfigView, ConfigErrorView>(with_command(cfg, cmd)));
        assert(parse_from(a2, i, cfg, false, draft, sep) == Ok::<ConfigView, ConfigErrorView>(
            with_command(cfg, cmd),
        ));
    } else {
        if let Ok((j, c, o, d)) = top_step(args, i, cfg, sep) {
            assert(top_step(a2, i, cfg, sep) == top_step(args, i, cfg, sep));
            lemma_append_word(args, j, c, o, d, sep, w, cmd);
            assert(parse_from(a2, i, cfg, open, draft, sep) == parse_from(a2, j, c, o, d, sep));
        }
    }
}

proof fn lemma_selects(w: Seq<char>, cmd: CommandView, sep: char)
    requires
        w.len() > 0,
        w[0] != '-',
        w != "serve"@,
        w != "ingest-documents"@,
        w != "ingest-xlsx"@,
        w != "evaluate"@,
        w != "search"@,
        w != "query"@,
        w == "print-config"@ ==> cmd == CommandView::PrintConfig,
        w == "init-db"@ ==> cmd == CommandView::InitDb,
        w == "ingest-manifest"@ ==> cmd == CommandView::IngestManifest,
        w == "rebuild-document-index"@ ==> cmd == CommandView::RebuildDocumentIndex,
        w == "build-index"@ ==> cmd == CommandView::BuildIndex,
        w == "print-config"@ || w == "init-db"@ || w == "ingest-manifest"@ || w
            == "rebuild-document-index"@ || w == "build-index"@,
    ensures
        selects(w, cmd, sep),
{
    lemma_option_words();
    reveal_strlit("--db");
    reveal_strlit("--manifest");
    reveal_strlit("--files-root");
    reveal_strlit("--bind");
    reveal_strlit("--family");
    reveal_strlit("--limit");
    reveal_strlit("--jobs");
    reveal_strlit("--document-id");
    reveal_strlit("--gold");
    reveal_strlit("--keyword");
    reveal_strlit("--help");
    reveal_strlit("-h");
    assert(w != "--db"@ && w != "--manifest"@ && w != "--files-root"@ && w != "--bind"@ && w
        != "--family"@ && w != "--limit"@ && w != "--jobs"@ && w != "--document-id"@ && w
        != "--gold"@ && w != "--keyword"@ && w != "--help"@ && w != "-h"@) by {
        assert("--db"@[0] == '-' && "--manifest"@[0] == '-' && "--files-root"@[0] == '-');
        assert("--bind"@[0] == '-' && "--family"@[0] == '-' && "--limit"@[0] == '-');
        assert("--jobs"@[0] == '-' && "--document-id"@[0] == '-' && "--gold"@[0] == '-');
        assert("--keyword"@[0] == '-' && "--help"@[0] == '-' && "-h"@[0] == '-');
    }
    assert forall|d: CommandView| !takes_option(d, w) by {}
    assert forall|a: Seq<Seq<char>>, j: int, c: ConfigView|
        0 <= j < a.len() && a[j] == w implies #[trigger] top_step(a, j, c, sep) == Ok::<
            (int, ConfigView, bool, CommandView),
            ConfigErrorView,
        >((j + 1, with_command(c, cmd), false, CommandView::PrintConfig)) by {}
}

proof fn lemma_command_words(sep: char)
    ensures
        selects("print-config"@, CommandView::PrintConfig, sep),
        selects("init-db"@, CommandView::InitDb, sep),
        selects("ingest-manifest"@, CommandView::IngestManifest, sep),
        selects("rebuild-document-index"@, CommandView::RebuildDocumentIndex, sep),
        selects("build-index"@, CommandView::BuildIndex, sep),
{
    reveal_strlit("print-config");
    reveal_strlit("init-db");
    reveal_strlit("ingest-manifest");
    reveal_strlit("rebuild-document-index");
    reveal_strlit("build-index");
    reveal_strlit("serve");
    reveal_strlit("ingest-documents");
    reveal_strlit("ingest-xlsx");
    reveal_strlit("evaluate");
    reveal_strlit("search");
    reveal_strlit("query");
    lemma_selects("print-config"@, CommandView::PrintConfig, sep);
    lemma_selects("init-db"@, CommandView::InitDb, sep);
    assert("ingest-manifest"@ != "ingest-documents"@ && "ingest-manifest"@ != "ingest-xlsx"@) by {
        assert("ingest-manifest"@[7] != "ingest-documents"@[7]);
    }
    lemma_selects("ingest-manifest"@, CommandView::IngestManifest, sep);
    lemma_selects("rebuild-document-index"@, CommandView::RebuildDocumentIndex, sep);
    lemma_selects("build-index"@, CommandView::BuildIndex, sep);
}

/// A command word without options added at the end of an accepted command
/// line selects its command and changes nothing else: the paths and the
/// listening address stay as they were.
pub proof fn law_command_word_selects(args: Seq<Seq<char>>, sep: char)
    requires
        args.len() >= 1,
    ensures
        spec_from_args(args, sep) matches Ok(c) ==> spec_from_args(args.push("init-db"@), sep)
            == Ok::<ConfigView, ConfigErrorView>(
            ConfigView {
                db_path: c.db_path,
                staged_manifest: c.staged_manifest,
                staged_files_root: c.staged_files_root,
                http_bind: c.http_bind,
                command: CommandView::InitDb,
            },
        ),
        spec_from_args(args, sep) matches Ok(c) ==> spec_from_args(args.push("print-config"@), sep)
            == Ok::<ConfigView, ConfigErrorView>(
            ConfigView {
                db_path: c.db_path,
                staged_manifest: c.staged_manifest,
                staged_files_root: c.staged_files_root,
                http_bind: c.http_bind,
                command: CommandView::PrintConfig,
            },
        ),
        spec_from_args(args, sep) matches Ok(c) ==> spec_from_args(
            args.push("ingest-manifest"@),
            sep,
        ) == Ok::<ConfigView, ConfigErrorView>(
            ConfigView {
                db_path: c.db_path,
                staged_manifest: c.staged_manifest,
                staged_files_root: c.staged_files_root,
                http_bind: c.http_bind,
                command: CommandView::IngestManifest,
            },
        ),
        spec_from_args(args, sep) matches Ok(c) ==> spec_from_args(
            args.push("rebuild-document-index"@),
            sep,
        ) == Ok::<ConfigView, ConfigErrorView>(
            ConfigView {
                db_path: c.db_path,
                staged_manifest: c.staged_manifest,
                staged_files_root: c.staged_files_root,
                http_bind: c.http_bind,
                command: CommandView::RebuildDocumentIndex,
            },
        ),
        spec_from_args(args, sep) matches Ok(c) ==> spec_from_args(args.push("build-index"@), sep)
            == Ok::<ConfigView, ConfigErrorView>(
            ConfigView {
                db_path: c.db_path,
                staged_manifest: c.staged_manifest,
                staged_files_root: c.staged_files_root,
                http_bind: c.http_bind,
                command: CommandView::BuildIndex,
            },
        ),
{
    if spec_from_args(args, sep) is Ok {
        lemma_command_words(sep);
        let d = default_config(sep);
        lemma_append_word(args, 1, d, false, CommandView::PrintConfig, sep, "init-db"@, CommandView::InitDb);
        lemma_append_word(args, 1, d, false, CommandView::PrintConfig, sep, "print-config"@, CommandView::PrintConfig);
        lemma_append_word(args, 1, d, false, CommandView::PrintConfig, sep, "ingest-manifest"@, CommandView::IngestManifest);
        lemma_append_word(
            args,
            1,
            d,
            false,
            CommandView::PrintConfig,
            sep,
            "rebuild-document-index"@,
            CommandView::RebuildDocumentIndex,
        );
        lemma_append_word(args, 1, d, false, CommandView::PrintConfig, sep, "build-index"@, CommandView::BuildIndex);
    }
}

proof fn lemma_top_words()
    ensures
        "serve"@.len() == 5,
        "print-config"@.len() == 12,
        "init-db"@.len() == 7,
        "ingest-manifest"@.len() == 15,
        "ingest-documents"@.len() == 16,
        "ingest-xlsx"@.len() == 11,
        "rebuild-document-index"@.len() == 22,
        "build-index"@.len() == 11,
        "evaluate"@.len() == 8,
        "search"@.len() == 6,
        "query"@.len() == 5,
{
    reveal_strlit("serve");
    reveal_strlit("print-config");
    reveal_strlit("init-db");
    reveal_strlit("ingest-manifest");
    reveal_strlit("ingest-documents");
    reveal_strlit("ingest-xlsx");
    reveal_strlit("rebuild-document-index");
    reveal_strlit("build-index");
    reveal_strlit("evaluate");
    reveal_strlit("search");
    reveal_strlit("query");
}

/// `ingest-documents` with all four options gives each option's value to its
/// own field: the family, the limit, the number of jobs and the document.
pub proof fn law_ingest_options(
    prog: Seq<char>,
    f: Seq<char>,
    l: Seq<char>,
    j: Seq<char>,
    d: Seq<char>,
    sep: char,
)
    requires
        parse_usize_spec(l) is Ok,
        parse_usize_spec(j) is Ok,
        parse_i64_spec(d) is Ok,
    ensures
        spec_from_args(
            seq![
                prog,
                "ingest-documents"@,
                "--family"@,
                f,
                "--limit"@,
                l,
                "--jobs"@,
                j,
                "--document-id"@,
                d,
            ],
            sep,
        ) == Ok::<ConfigView, ConfigErrorView>(
            ConfigView {
                db_path: default_config(sep).db_path,
                staged_manifest: default_config(sep).staged_manifest,
                staged_files_root: default_config(sep).staged_files_root,
                http_bind: default_config(sep).http_bind,
                command: CommandView::IngestDocuments {
                    family: Some(f),
                    limit: Some(parse_usize_spec(l)->Ok_0 as usize),
                    jobs: Some(parse_usize_spec(j)->Ok_0 as usize),
                    document_id: Some(parse_i64_spec(d)->Ok_0 as i64),
                },
            },
        ),
{
    lemma_option_words();
    lemma_top_words();
    let args = seq![
        prog,
        "ingest-documents"@,
        "--family"@,
        f,
        "--limit"@,
        l,
        "--jobs"@,
        j,
        "--document-id"@,
        d,
    ];
    let c0 = default_config(sep);
    let lv = parse_usize_spec(l)->Ok_0 as usize;
    let jv = parse_usize_spec(j)->Ok_0 as usize;
    let dv = parse_i64_spec(d)->Ok_0 as i64;
    let d1 = CommandView::IngestDocuments { family: None, limit: None, jobs: None, document_id: None };
    let d2 = CommandView::IngestDocuments { family: Some(f), limit: None, jobs: None, document_id: None };
    let d3 = CommandView::IngestDocuments { family: Some(f), limit: Some(lv), jobs: None, document_id: None };
    let d4 = CommandView::IngestDocuments { family: Some(f), limit: Some(lv), jobs: Some(jv), document_id: None };
    let d5 = CommandView::IngestDocuments {
        family: Some(f),
        limit: Some(lv),
        jobs: Some(jv),
        document_id: Some(dv),
    };
    assert(args[1] == "ingest-documents"@);
    assert(top_step(args, 1, c0, sep) == Ok::<(int, ConfigView, bool, CommandView), ConfigErrorView>(
        (2, c0, true, d1),
    ));
    assert(args[2] == "--family"@ && args[3] == f);
    assert(apply_option(c0, d1, args[2], args[3]) == Ok::<(ConfigView, CommandView), ConfigErrorView>((c0, d2)));
    assert(args[4] == "--limit"@ && args[5] == l);
    assert(apply_option(c0, d2, args[4], args[5]) == Ok::<(ConfigView, CommandView), ConfigErrorView>((c0, d3)));
    assert(args[6] == "--jobs"@ && args[7] == j);
    assert(apply_option(c0, d3, args[6], args[7]) == Ok::<(ConfigView, CommandView), ConfigErrorView>((c0, d4)));
    assert(args[8] == "--document-id"@ && args[9] == d);
    assert(apply_option(c0, d4, args[8], args[9]) == Ok::<(ConfigView, CommandView), ConfigErrorView>((c0, d5)));
    let c5 = with_command(c0, d5);
    assert(parse_from(args, 10, c5, false, CommandView::PrintConfig, sep) == Ok::<ConfigView, ConfigErrorView>(c5));
    assert(parse_from(args, 10, c0, true, d5, sep) == Ok::<ConfigView, ConfigErrorView>(c5));
    assert(parse_from(args, 8, c0, true, d4, sep) == Ok::<ConfigView, ConfigErrorView>(c5));
    assert(parse_from(args, 6, c0, true, d3, sep) == Ok::<ConfigView, ConfigErrorView>(c5));
    assert(parse_from(args, 4, c0, true, d2, sep) == Ok::<ConfigView, ConfigErrorView>(c5));
    assert(parse_from(args, 2, c0, true, d1, sep) == Ok::<ConfigView, ConfigErrorView>(c5));
    assert(parse_from(args, 1, c0, false, CommandView::PrintConfig, sep) == Ok::<ConfigView, ConfigErrorView>(c5));
}

/// `search` with a keyword that is not blank, a family and a limit searches
/// for that keyword, in that family, with that limit.
pub proof fn law_search_options(prog: Seq<char>, k: Seq<char>, f: Seq<char>, l: Seq<char>, sep: char)
    requires
        !is_blank_seq(k),
        parse_usize_spec(l) is Ok,
    ensures
        spec_from_args(
            seq![prog, "search"@, "--keyword"@, k, "--family"@, f, "--limit"@, l],
            sep,
        ) == Ok::<ConfigView, ConfigErrorView>(
            ConfigView {
                db_path: default_config(sep).db_path,
                staged_manifest: default_config(sep).staged_manifest,
                staged_files_root: default_config(sep).staged_files_root,
                http_bind: default_config(sep).http_bind,
                command: CommandView::Search {
                    keyword: k,
                    family: Some(f),
                    limit: parse_usize_spec(l)->Ok_0 as usize,
                },
            },
        ),
{
    lemma_option_words();
    lemma_top_words();
    let args = seq![prog, "search"@, "--keyword"@, k, "--family"@, f, "--limit"@, l];
    let c0 = default_config(sep);
    let lv = parse_usize_spec(l)->Ok_0 as usize;
    let d1 = CommandView::Search { keyword: seq![], family: None, limit: 20 };
    let d2 = CommandView::Search { keyword: k, family: None, limit: 20 };
    let d3 = CommandView::Search { keyword: k, family: Some(f), limit: 20 };
    let d4 = CommandView::Search { keyword: k, family: Some(f), limit: lv };
    assert(args[1] == "search"@);
    assert(top_step(args, 1, c0, sep) == Ok::<(int, ConfigView, bool, CommandView), ConfigErrorView>(
        (2, c0, true, d1),
    ));
    assert(args[2] == "--keyword"@ && args[3] == k);
    assert(apply_option(c0, d1, args[2], args[3]) == Ok::<(ConfigView, CommandView), ConfigErrorView>((c0, d2)));
    assert(args[4] == "--family"@ && args[5] == f);
    assert(apply_option(c0, d2, args[4], args[5]) == Ok::<(ConfigView, CommandView), ConfigErrorView>((c0, d3)));
    assert(args[6] == "--limit"@ && args[7] == l);
    assert(apply_option(c0, d3, args[6], args[7]) == Ok::<(ConfigView, CommandView), ConfigErrorView>((c0, d4)));
    let c4 = with_command(c0, d4);
    assert(close_command(c0, d4) == Ok::<ConfigView, ConfigErrorView>(c4));
    assert(parse_from(args, 8, c4, false, CommandView::PrintConfig, sep) == Ok::<ConfigView, ConfigErrorView>(c4));
    assert(parse_from(args, 8, c0, true, d4, sep) == Ok::<ConfigView, ConfigErrorView>(c4));
    assert(parse_from(args, 6, c0, true, d3, sep) == Ok::<ConfigView, ConfigErrorView>(c4));
    assert(parse_from(args, 4, c0, true, d2, sep) == Ok::<ConfigView, ConfigErrorView>(c4));
    assert(parse_from(args, 2, c0, true, d1, sep) == Ok::<ConfigView, ConfigErrorView>(c4));
    assert(parse_from(args, 1, c0, false, CommandView::PrintConfig, sep) == Ok::<ConfigView, ConfigErrorView>(c4));
}
} // verus!

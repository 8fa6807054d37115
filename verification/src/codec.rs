//! The config-file text format: a line-based key-value document with four
//! two-space-indented sections and one top-level flag. This module renders a
//! `Config` into that format and parses it back, with an exact contract on
//! both directions and a fatal error taxonomy for the parser.

use vstd::prelude::*;

use crate::config::{
    CompressionConfig, CompressionConfigV, Config, ConfigV, LoggingConfig, LoggingConfigV,
    ServerConfig, ServerConfigV, StorageConfig, StorageConfigV,
};
use crate::config::{default_config, spec_default_config};
use crate::text::{
    dec_str, find_first_colon, first_colon, join_lines, lemma_dec_str_digits,
    lemma_dec_val_dec_str, lemma_digits_no_nl, lemma_first_colon_at, lemma_join_lines_push,
    lemma_lines_of_join, lemma_lines_split, lemma_no_nl_concat, lines_of, no_nl, parse_capped,
    parse_capped_str, push_uint, split_lines, str_eq,
};

verus! {

/// A required configuration field, named for diagnostics.
#[derive(Debug, Clone, Copy, PartialEq, Eq, Structural)]
pub enum Field {
    ServerPort,
    ServerHost,
    StoragePath,
    StorageAllocatedMb,
    CompressionAutomatic,
    CompressionFormat,
    CompressionLevel,
    LoggingLevel,
    LoggingVerbosity,
    LoggingLogPath,
    EulaAcceptance,
}

/// Why a configuration document was rejected. Every variant is fatal: the
/// bootstrap sequence has no degraded or partially-parsed mode.
#[derive(Debug, Clone, Copy, PartialEq, Eq, Structural)]
pub enum ParseError {
    /// A line that fits no shape of the format (1-based line number).
    BadSyntax { line: usize },
    /// A known field whose value has the wrong type.
    BadValue { line: usize },
    /// A known field assigned twice.
    DuplicateField { line: usize },
    /// A required field absent from the whole document.
    MissingField { field: Field },
}

/// The dotted schema name of a required field.
pub open spec fn spec_field_name(f: Field) -> Seq<char> {
    match f {
        Field::ServerPort => "server.port"@,
        Field::ServerHost => "server.host"@,
        Field::StoragePath => "storage.path"@,
        Field::StorageAllocatedMb => "storage.allocated_mb"@,
        Field::CompressionAutomatic => "compression.automatic"@,
        Field::CompressionFormat => "compression.format"@,
        Field::CompressionLevel => "compression.level"@,
        Field::LoggingLevel => "logging.level"@,
        Field::LoggingVerbosity => "logging.verbosity"@,
        Field::LoggingLogPath => "logging.log_path"@,
        Field::EulaAcceptance => "eula_acceptance"@,
    }
}

impl Field {
    /// The dotted schema name of the field, for diagnostics.
    pub fn name(&self) -> (r: String)
        ensures
            r@ == spec_field_name(*self),
    {
        match self {
            Field::ServerPort => String::from_str("server.port"),
            Field::ServerHost => String::from_str("server.host"),
            Field::StoragePath => String::from_str("storage.path"),
            Field::StorageAllocatedMb => String::from_str("storage.allocated_mb"),
            Field::CompressionAutomatic => String::from_str("compression.automatic"),
            Field::CompressionFormat => String::from_str("compression.format"),
            Field::CompressionLevel => String::from_str("compression.level"),
            Field::LoggingLevel => String::from_str("logging.level"),
            Field::LoggingVerbosity => String::from_str("logging.verbosity"),
            Field::LoggingLogPath => String::from_str("logging.log_path"),
            Field::EulaAcceptance => String::from_str("eula_acceptance"),
        }
    }
}

/// The fatal diagnostic a parse error carries.
pub open spec fn spec_error_message(e: ParseError) -> Seq<char> {
    match e {
        ParseError::BadSyntax { line } => "config.yml: malformed line "@ + dec_str(line as nat),
        ParseError::BadValue { line } => "config.yml: invalid value on line "@ + dec_str(
            line as nat,
        ),
        ParseError::DuplicateField { line } => "config.yml: duplicate field on line "@ + dec_str(
            line as nat,
        ),
        ParseError::MissingField { field } => "config.yml: missing required field: "@
            + spec_field_name(field),
    }
}

impl ParseError {
    /// The fatal diagnostic for this error, naming the failing line or the
    /// absent field.
    pub fn message(&self) -> (r: String)
        ensures
            r@ == spec_error_message(*self),
    {
        match self {
            ParseError::BadSyntax { line } => {
                let mut out = String::from_str("config.yml: malformed line ");
                push_uint(&mut out, *line as u64);
                out
            },
            ParseError::BadValue { line } => {
                let mut out = String::from_str("config.yml: invalid value on line ");
                push_uint(&mut out, *line as u64);
                out
            },
            ParseError::DuplicateField { line } => {
                let mut out = String::from_str("config.yml: duplicate field on line ");
                push_uint(&mut out, *line as u64);
                out
            },
            ParseError::MissingField { field } => {
                let mut out = String::from_str("config.yml: missing required field: ");
                let name = field.name();
                out.append(name.as_str());
                out
            },
        }
    }
}

/// The rendering of a boolean in the file format.
pub open spec fn bool_str(b: bool) -> Seq<char> {
    if b {
        "true"@
    } else {
        "false"@
    }
}

/// The lines of the document body for a configuration value: four sections
/// in declaration order, then the top-level acceptance flag.
pub open spec fn spec_config_lines(c: ConfigV) -> Seq<Seq<char>> {
    seq![
        "server:"@,
        "  port: "@ + dec_str(c.server.port as nat),
        "  host: "@ + c.server.host,
        "storage:"@,
        "  path: "@ + c.storage.path,
        "  allocated_mb: "@ + dec_str(c.storage.allocated_mb as nat),
        "compression:"@,
        "  automatic: "@ + bool_str(c.compression.automatic),
        "  format: "@ + c.compression.format,
        "  level: "@ + dec_str(c.compression.level as nat),
        "logging:"@,
        "  level: "@ + c.logging.level,
        "  verbosity: "@ + dec_str(c.logging.verbosity as nat),
        "  log_path: "@ + c.logging.log_path,
        "eula_acceptance: "@ + bool_str(c.eula_acceptance),
    ]
}

/// The document body for a configuration value: its lines, each
/// newline-terminated.
pub open spec fn spec_render_config(c: ConfigV) -> Seq<char> {
    join_lines(spec_config_lines(c))
}

/// Renders a configuration into the file format, without the header comment.
pub fn render_config(c: &Config) -> (r: String)
    ensures
        r@ == spec_render_config(c@),
{
    let ghost ls = spec_config_lines(c@);
    proof {
        reveal_strlit("\n");
        assert("\n"@ =~= seq!['\n']);
        assert(ls.take(0) =~~= Seq::<Seq<char>>::empty());
        assert(join_lines(Seq::<Seq<char>>::empty()) == Seq::<char>::empty());
    }
    let mut out = String::new();
    out.append("server:");
    out.append("\n");
    proof {
        assert(ls.take(1) =~~= ls.take(0).push(ls[0]));
        lemma_join_lines_push(ls.take(0), ls[0]);
        assert(out@ =~= join_lines(ls.take(0)) + ls[0] + seq!['\n']);
        assert(out@ == join_lines(ls.take(1)));
    }
    out.append("  port: ");
    push_uint(&mut out, c.server.port as u64);
    out.append("\n");
    proof {
        assert(ls.take(2) =~~= ls.take(1).push(ls[1]));
        lemma_join_lines_push(ls.take(1), ls[1]);
        assert(out@ =~= join_lines(ls.take(1)) + ls[1] + seq!['\n']);
        assert(out@ == join_lines(ls.take(2)));
    }
    out.append("  host: ");
    out.append(c.server.host.as_str());
    out.append("\n");
    proof {
        assert(ls.take(3) =~~= ls.take(2).push(ls[2]));
        lemma_join_lines_push(ls.take(2), ls[2]);
        assert(out@ =~= join_lines(ls.take(2)) + ls[2] + seq!['\n']);
        assert(out@ == join_lines(ls.take(3)));
    }
    out.append("storage:");
    out.append("\n");
    proof {
        assert(ls.take(4) =~~= ls.take(3).push(ls[3]));
        lemma_join_lines_push(ls.take(3), ls[3]);
        assert(out@ =~= join_lines(ls.take(3)) + ls[3] + seq!['\n']);
        assert(out@ == join_lines(ls.take(4)));
    }
    out.append("  path: ");
    out.append(c.storage.path.as_str());
    out.append("\n");
    proof {
        assert(ls.take(5) =~~= ls.take(4).push(ls[4]));
        lemma_join_lines_push(ls.take(4), ls[4]);
        assert(out@ =~= join_lines(ls.take(4)) + ls[4] + seq!['\n']);
        assert(out@ == join_lines(ls.take(5)));
    }
    out.append("  allocated_mb: ");
    push_uint(&mut out, c.storage.allocated_mb as u64);
    out.append("\n");
    proof {
        assert(ls.take(6) =~~= ls.take(5).push(ls[5]));
        lemma_join_lines_push(ls.take(5), ls[5]);
        assert(out@ =~= join_lines(ls.take(5)) + ls[5] + seq!['\n']);
        assert(out@ == join_lines(ls.take(6)));
    }
    out.append("compression:");
    out.append("\n");
    proof {
        assert(ls.take(7) =~~= ls.take(6).push(ls[6]));
        lemma_join_lines_push(ls.take(6), ls[6]);
        assert(out@ =~= join_lines(ls.take(6)) + ls[6] + seq!['\n']);
        assert(out@ == join_lines(ls.take(7)));
    }
    out.append("  automatic: ");
    if c.compression.automatic {
        out.append("true");
    } else {
        out.append("false");
    }
    out.append("\n");
    proof {
        assert(ls.take(8) =~~= ls.take(7).push(ls[7]));
        lemma_join_lines_push(ls.take(7), ls[7]);
        assert(out@ =~= join_lines(ls.take(7)) + ls[7] + seq!['\n']);
        assert(out@ == join_lines(ls.take(8)));
    }
    out.append("  format: ");
    out.append(c.compression.format.as_str());
    out.append("\n");
    proof {
        assert(ls.take(9) =~~= ls.take(8).push(ls[8]));
        lemma_join_lines_push(ls.take(8), ls[8]);
        assert(out@ =~= join_lines(ls.take(8)) + ls[8] + seq!['\n']);
        assert(out@ == join_lines(ls.take(9)));
    }
    out.append("  level: ");
    push_uint(&mut out, c.compression.level as u64);
    out.append("\n");
    proof {
        assert(ls.take(10) =~~= ls.take(9).push(ls[9]));
        lemma_join_lines_push(ls.take(9), ls[9]);
        assert(out@ =~= join_lines(ls.take(9)) + ls[9] + seq!['\n']);
        assert(out@ == join_lines(ls.take(10)));
    }
    out.append("logging:");
    out.append("\n");
    proof {
        assert(ls.take(11) =~~= ls.take(10).push(ls[10]));
        lemma_join_lines_push(ls.take(10), ls[10]);
        assert(out@ =~= join_lines(ls.take(10)) + ls[10] + seq!['\n']);
        assert(out@ == join_lines(ls.take(11)));
    }
    out.append("  level: ");
    out.append(c.logging.level.as_str());
    out.append("\n");
    proof {
        assert(ls.take(12) =~~= ls.take(11).push(ls[11]));
        lemma_join_lines_push(ls.take(11), ls[11]);
        assert(out@ =~= join_lines(ls.take(11)) + ls[11] + seq!['\n']);
        assert(out@ == join_lines(ls.take(12)));
    }
    out.append("  verbosity: ");
    push_uint(&mut out, c.logging.verbosity as u64);
    out.append("\n");
    proof {
        assert(ls.take(13) =~~= ls.take(12).push(ls[12]));
        lemma_join_lines_push(ls.take(12), ls[12]);
        assert(out@ =~= join_lines(ls.take(12)) + ls[12] + seq!['\n']);
        assert(out@ == join_lines(ls.take(13)));
    }
    out.append("  log_path: ");
    out.append(c.logging.log_path.as_str());
    out.append("\n");
    proof {
        assert(ls.take(14) =~~= ls.take(13).push(ls[13]));
        lemma_join_lines_push(ls.take(13), ls[13]);
        assert(out@ =~= join_lines(ls.take(13)) + ls[13] + seq!['\n']);
        assert(out@ == join_lines(ls.take(14)));
    }
    out.append("eula_acceptance: ");
    if c.eula_acceptance {
        out.append("true");
    } else {
        out.append("false");
    }
    out.append("\n");
    proof {
        assert(ls.take(15) =~~= ls.take(14).push(ls[14]));
        lemma_join_lines_push(ls.take(14), ls[14]);
        assert(out@ =~= join_lines(ls.take(14)) + ls[14] + seq!['\n']);
        assert(out@ == join_lines(ls.take(15)));
        assert(ls.take(15) =~~= ls);
    }
    out
}

/// The human-readable header written above the generated configuration.
pub open spec fn spec_config_header() -> Seq<char> {
    "\n# =================================================\n# Archiva Configuration File\n# Generated Dynamically - documentation available on github\n# Edit carefully - changes take effect on restart.\n# =================================================\n\n"@
}

/// The whole generated `config.yml` document: header comment, then the
/// default configuration in the file format.
pub open spec fn spec_config_document() -> Seq<char> {
    spec_config_header() + spec_render_config(spec_default_config())
}

/// The document written to disk when no configuration file exists yet.
pub fn config_document() -> (r: String)
    ensures
        r@ == spec_config_document(),
{
    let mut out = String::from_str(
        "\n# =================================================\n# Archiva Configuration File\n# Generated Dynamically - documentation available on github\n# Edit carefully - changes take effect on restart.\n# =================================================\n\n",
    );
    let body = render_config(&default_config());
    out.append(body.as_str());
    out
}

/// Where in the document the parser currently stands: before any section,
/// inside one of the four known sections, or inside an unknown block whose
/// indented lines are skipped.
#[derive(Debug, Clone, Copy, PartialEq, Eq, Structural)]
pub enum Section {
    Top,
    Server,
    Storage,
    Compression,
    Logging,
    Unknown,
}

/// The parser's accumulator: each required field, possibly still unset, and
/// the current section.
pub struct PState {
    pub section: Section,
    pub port: Option<u16>,
    pub host: Option<Seq<char>>,
    pub path: Option<Seq<char>>,
    pub allocated_mb: Option<u32>,
    pub automatic: Option<bool>,
    pub format: Option<Seq<char>>,
    pub level: Option<u8>,
    pub log_level: Option<Seq<char>>,
    pub verbosity: Option<u8>,
    pub log_path: Option<Seq<char>>,
    pub eula: Option<bool>,
}

/// The accumulator before any line is read.
pub open spec fn init_pstate() -> PState {
    PState {
        section: Section::Top,
        port: None,
        host: None,
        path: None,
        allocated_mb: None,
        automatic: None,
        format: None,
        level: None,
        log_level: None,
        verbosity: None,
        log_path: None,
        eula: None,
    }
}

pub open spec fn parse_u16v(v: Seq<char>) -> Option<u16> {
    match parse_capped(v) {
        Some(n) => if n <= 0xFFFF {
            Some(n as u16)
        } else {
            None
        },
        None => None,
    }
}

pub open spec fn parse_u32v(v: Seq<char>) -> Option<u32> {
    match parse_capped(v) {
        Some(n) => Some(n as u32),
        None => None,
    }
}

pub open spec fn parse_u8v(v: Seq<char>) -> Option<u8> {
    match parse_capped(v) {
        Some(n) => if n <= 0xFF {
            Some(n as u8)
        } else {
            None
        },
        None => None,
    }
}

/// A string value: a matching pair of double or single quotes is stripped;
/// anything else is taken verbatim.
pub open spec fn unquote(v: Seq<char>) -> Seq<char> {
    if v.len() >= 2 && ((v[0] == '"' && v.last() == '"') || (v[0] == '\'' && v.last() == '\'')) {
        v.subrange(1, v.len() - 1)
    } else {
        v
    }
}

pub open spec fn parse_boolv(v: Seq<char>) -> Option<bool> {
    if v == "true"@ || v == "True"@ || v == "TRUE"@ {
        Some(true)
    } else if v == "false"@ || v == "False"@ || v == "FALSE"@ {
        Some(false)
    } else {
        None
    }
}

/// The section a top-level header names; anything unrecognized is skipped.
pub open spec fn section_of(key: Seq<char>) -> Section {
    if key == "server"@ {
        Section::Server
    } else if key == "storage"@ {
        Section::Storage
    } else if key == "compression"@ {
        Section::Compression
    } else if key == "logging"@ {
        Section::Logging
    } else {
        Section::Unknown
    }
}

/// A field line inside the current section: known keys are type-checked and
/// set at most once; unknown keys are ignored.
pub open spec fn parse_field(n: usize, key: Seq<char>, v: Seq<char>, st: PState) -> Result<
    PState,
    ParseError,
> {
    match st.section {
        Section::Server => {
            if key == "port"@ {
                if st.port is Some {
                    Err(ParseError::DuplicateField { line: n })
                } else {
                    match parse_u16v(v) {
                        Some(x) => Ok(PState { port: Some(x), ..st }),
                        None => Err(ParseError::BadValue { line: n }),
                    }
                }
            } else if key == "host"@ {
                if st.host is Some {
                    Err(ParseError::DuplicateField { line: n })
                } else {
                    Ok(PState { host: Some(unquote(v)), ..st })
                }
            } else {
                Ok(st)
            }
        },
        Section::Storage => {
            if key == "path"@ {
                if st.path is Some {
                    Err(ParseError::DuplicateField { line: n })
                } else {
                    Ok(PState { path: Some(unquote(v)), ..st })
                }
            } else if key == "allocated_mb"@ {
                if st.allocated_mb is Some {
                    Err(ParseError::DuplicateField { line: n })
                } else {
                    match parse_u32v(v) {
                        Some(x) => Ok(PState { allocated_mb: Some(x), ..st }),
                        None => Err(ParseError::BadValue { line: n }),
                    }
                }
            } else {
                Ok(st)
            }
        },
        Section::Compression => {
            if key == "automatic"@ {
                if st.automatic is Some {
                    Err(ParseError::DuplicateField { line: n })
                } else {
                    match parse_boolv(v) {
                        Some(x) => Ok(PState { automatic: Some(x), ..st }),
                        None => Err(ParseError::BadValue { line: n }),
                    }
                }
            } else if key == "format"@ {
                if st.format is Some {
                    Err(ParseError::DuplicateField { line: n })
                } else {
                    Ok(PState { format: Some(unquote(v)), ..st })
                }
            } else if key == "level"@ {
                if st.level is Some {
                    Err(ParseError::DuplicateField { line: n })
                } else {
                    match parse_u8v(v) {
                        Some(x) => Ok(PState { level: Some(x), ..st }),
                        None => Err(ParseError::BadValue { line: n }),
                    }
                }
            } else {
                Ok(st)
            }
        },
        Section::Logging => {
            if key == "level"@ {
                if st.log_level is Some {
                    Err(ParseError::DuplicateField { line: n })
                } else {
                    Ok(PState { log_level: Some(unquote(v)), ..st })
                }
            } else if key == "verbosity"@ {
                if st.verbosity is Some {
                    Err(ParseError::DuplicateField { line: n })
                } else {
                    match parse_u8v(v) {
                        Some(x) => Ok(PState { verbosity: Some(x), ..st }),
                        None => Err(ParseError::BadValue { line: n }),
                    }
                }
            } else if key == "log_path"@ {
                if st.log_path is Some {
                    Err(ParseError::DuplicateField { line: n })
                } else {
                    Ok(PState { log_path: Some(unquote(v)), ..st })
                }
            } else {
                Ok(st)
            }
        },
        Section::Top => Err(ParseError::BadSyntax { line: n }),
        Section::Unknown => Ok(st),
    }
}

/// One line of the document. Empty lines and comment lines are skipped; an
/// indented line is a field of the current section; anything else is either
/// a section header, the top-level acceptance flag, or a syntax error.
pub open spec fn parse_line(n: usize, l: Seq<char>, st: PState) -> Result<PState, ParseError> {
    if l.len() == 0 {
        Ok(st)
    } else if l[0] == '#' {
        Ok(st)
    } else if l[0] == ' ' {
        if st.section == Section::Unknown {
            Ok(st)
        } else if l.len() < 3 || l[1] != ' ' || l[2] == ' ' {
            Err(ParseError::BadSyntax { line: n })
        } else {
            let p = l.skip(2);
            let ci = first_colon(p);
            if ci <= 0 {
                Err(ParseError::BadSyntax { line: n })
            } else if ci == p.len() - 1 {
                Err(ParseError::BadSyntax { line: n })
            } else if p[ci + 1] != ' ' {
                Err(ParseError::BadSyntax { line: n })
            } else {
                parse_field(n, p.take(ci), p.skip(ci + 2), st)
            }
        }
    } else {
        let ci = first_colon(l);
        if ci <= 0 {
            Err(ParseError::BadSyntax { line: n })
        } else if ci == l.len() - 1 {
            Ok(PState { section: section_of(l.take(ci)), ..st })
        } else if l[ci + 1] != ' ' {
            Err(ParseError::BadSyntax { line: n })
        } else {
            let key = l.take(ci);
            let v = l.skip(ci + 2);
            if key == "eula_acceptance"@ {
                if st.eula is Some {
                    Err(ParseError::DuplicateField { line: n })
                } else {
                    match parse_boolv(v) {
                        Some(b) => Ok(PState { section: Section::Top, eula: Some(b), ..st }),
                        None => Err(ParseError::BadValue { line: n }),
                    }
                }
            } else {
                Ok(PState { section: Section::Unknown, ..st })
            }
        }
    }
}

/// The 1-based number of the line at index `i`, saturating at the type width.
pub open spec fn line_no(i: int) -> usize {
    if i + 1 <= usize::MAX {
        (i + 1) as usize
    } else {
        usize::MAX
    }
}

/// Folds `parse_line` over the lines from index `i` on.
pub open spec fn parse_lines_from(lines: Seq<Seq<char>>, i: int, st: PState) -> Result<
    PState,
    ParseError,
>
    decreases lines.len() - i,
{
    if i < 0 || i >= lines.len() {
        Ok(st)
    } else {
        match parse_line(line_no(i), lines[i], st) {
            Ok(st2) => parse_lines_from(lines, i + 1, st2),
            Err(e) => Err(e),
        }
    }
}

/// The final check: every required field must have been set, reported in
/// schema order; success yields the assembled configuration.
pub open spec fn finish_pstate(st: PState) -> Result<ConfigV, ParseError> {
    if st.port is None {
        Err(ParseError::MissingField { field: Field::ServerPort })
    } else if st.host is None {
        Err(ParseError::MissingField { field: Field::ServerHost })
    } else if st.path is None {
        Err(ParseError::MissingField { field: Field::StoragePath })
    } else if st.allocated_mb is None {
        Err(ParseError::MissingField { field: Field::StorageAllocatedMb })
    } else if st.automatic is None {
        Err(ParseError::MissingField { field: Field::CompressionAutomatic })
    } else if st.format is None {
        Err(ParseError::MissingField { field: Field::CompressionFormat })
    } else if st.level is None {
        Err(ParseError::MissingField { field: Field::CompressionLevel })
    } else if st.log_level is None {
        Err(ParseError::MissingField { field: Field::LoggingLevel })
    } else if st.verbosity is None {
        Err(ParseError::MissingField { field: Field::LoggingVerbosity })
    } else if st.log_path is None {
        Err(ParseError::MissingField { field: Field::LoggingLogPath })
    } else if st.eula is None {
        Err(ParseError::MissingField { field: Field::EulaAcceptance })
    } else {
        Ok(
            ConfigV {
                server: ServerConfigV { port: st.port->Some_0, host: st.host->Some_0 },
                storage: StorageConfigV {
                    path: st.path->Some_0,
                    allocated_mb: st.allocated_mb->Some_0,
                },
                compression: CompressionConfigV {
                    automatic: st.automatic->Some_0,
                    format: st.format->Some_0,
                    level: st.level->Some_0,
                },
                logging: LoggingConfigV {
                    level: st.log_level->Some_0,
                    verbosity: st.verbosity->Some_0,
                    log_path: st.log_path->Some_0,
                },
                eula_acceptance: st.eula->Some_0,
            },
        )
    }
}

/// What a whole document means: fold every line, then demand completeness.
pub open spec fn spec_parse_config(s: Seq<char>) -> Result<ConfigV, ParseError> {
    match parse_lines_from(lines_of(s), 0, init_pstate()) {
        Ok(st) => finish_pstate(st),
        Err(e) => Err(e),
    }
}

/// A configuration that the file format can carry: no string field spans
/// more than one line.
/// A string the file format carries unchanged: it spans one line and does
/// not look like a quoted scalar.
pub open spec fn wf_string(s: Seq<char>) -> bool {
    no_nl(s) && unquote(s) == s
}

pub open spec fn wf_config(c: ConfigV) -> bool {
    wf_string(c.server.host) && wf_string(c.storage.path) && wf_string(c.compression.format)
        && wf_string(c.logging.level) && wf_string(c.logging.log_path)
}

/// Every rendered line of a well-formed configuration is newline-free.
proof fn lemma_config_lines_no_nl(c: ConfigV)
    requires
        wf_config(c),
    ensures
        forall|i: int|
            0 <= i < spec_config_lines(c).len() ==> no_nl(#[trigger] spec_config_lines(c)[i]),
{
    let ls = spec_config_lines(c);
    reveal_strlit("server:");
    reveal_strlit("  port: ");
    reveal_strlit("  host: ");
    reveal_strlit("storage:");
    reveal_strlit("  path: ");
    reveal_strlit("  allocated_mb: ");
    reveal_strlit("compression:");
    reveal_strlit("  automatic: ");
    reveal_strlit("  format: ");
    reveal_strlit("  level: ");
    reveal_strlit("logging:");
    reveal_strlit("  verbosity: ");
    reveal_strlit("  log_path: ");
    reveal_strlit("eula_acceptance: ");
    reveal_strlit("true");
    reveal_strlit("false");
    lemma_dec_str_digits(c.server.port as nat);
    lemma_digits_no_nl(dec_str(c.server.port as nat));
    lemma_dec_str_digits(c.storage.allocated_mb as nat);
    lemma_digits_no_nl(dec_str(c.storage.allocated_mb as nat));
    lemma_dec_str_digits(c.compression.level as nat);
    lemma_digits_no_nl(dec_str(c.compression.level as nat));
    lemma_dec_str_digits(c.logging.verbosity as nat);
    lemma_digits_no_nl(dec_str(c.logging.verbosity as nat));
    assert(no_nl(bool_str(c.compression.automatic)));
    assert(no_nl(bool_str(c.eula_acceptance)));
    assert(no_nl(ls[0]));
    lemma_no_nl_concat("  port: "@, dec_str(c.server.port as nat));
    lemma_no_nl_concat("  host: "@, c.server.host);
    assert(no_nl(ls[3]));
    lemma_no_nl_concat("  path: "@, c.storage.path);
    lemma_no_nl_concat("  allocated_mb: "@, dec_str(c.storage.allocated_mb as nat));
    assert(no_nl(ls[6]));
    lemma_no_nl_concat("  automatic: "@, bool_str(c.compression.automatic));
    lemma_no_nl_concat("  format: "@, c.compression.format);
    lemma_no_nl_concat("  level: "@, dec_str(c.compression.level as nat));
    assert(no_nl(ls[10]));
    lemma_no_nl_concat("  level: "@, c.logging.level);
    lemma_no_nl_concat("  verbosity: "@, dec_str(c.logging.verbosity as nat));
    lemma_no_nl_concat("  log_path: "@, c.logging.log_path);
    lemma_no_nl_concat("eula_acceptance: "@, bool_str(c.eula_acceptance));
}

/// A top-level section header `key:` switches the parser to that section.
proof fn lemma_parse_header_line(n: usize, st: PState, l: Seq<char>, key: Seq<char>)
    requires
        l.len() == key.len() + 1,
        key.len() >= 1,
        l[0] != '#',
        l[0] != ' ',
        forall|j: int| 0 <= j < key.len() ==> l[j] == #[trigger] key[j],
        forall|j: int| 0 <= j < key.len() ==> #[trigger] key[j] != ':',
        l[key.len() as int] == ':',
    ensures
        parse_line(n, l, st) == Ok::<PState, ParseError>(
            PState { section: section_of(key), ..st },
        ),
{
    assert forall|j: int| 0 <= j < key.len() implies l[j] != ':' by {
        assert(l[j] == key[j]);
    }
    lemma_first_colon_at(l, key.len() as int);
    assert(first_colon(l) == key.len());
    assert(first_colon(l) == l.len() - 1);
    assert(l.take(key.len() as int) =~= key);
}

/// A two-space-indented `key: value` line reaches `parse_field` with the key
/// and the verbatim value.
proof fn lemma_parse_field_line(n: usize, st: PState, lit: Seq<char>, key: Seq<char>, v: Seq<char>)
    requires
        st.section != Section::Unknown,
        key.len() >= 1,
        lit.len() == key.len() + 4,
        lit[0] == ' ',
        lit[1] == ' ',
        lit[2] != ' ',
        forall|j: int| 0 <= j < key.len() ==> lit[j + 2] == #[trigger] key[j],
        forall|j: int| 0 <= j < key.len() ==> #[trigger] key[j] != ':',
        lit[key.len() as int + 2] == ':',
        lit[key.len() as int + 3] == ' ',
    ensures
        parse_line(n, lit + v, st) == parse_field(n, key, v, st),
{
    let l = lit + v;
    assert(l[0] == ' ');
    assert(l.len() >= 3);
    assert(l[1] == ' ');
    assert(l[2] == lit[2]);
    let p = l.skip(2);
    assert(p.len() == key.len() + 2 + v.len());
    assert forall|j: int| 0 <= j < key.len() implies p[j] != ':' by {
        assert(p[j] == lit[j + 2]);
        assert(lit[j + 2] == key[j]);
    }
    assert(p[key.len() as int] == lit[key.len() as int + 2]);
    lemma_first_colon_at(p, key.len() as int);
    assert(first_colon(p) == key.len());
    assert(first_colon(p) != p.len() - 1);
    assert(p[key.len() as int + 1] == lit[key.len() as int + 3]);
    assert(p.take(key.len() as int) =~= key);
    assert(p.skip(key.len() as int + 2) =~= v);
}

/// The top-level acceptance flag line sets the flag once, from a boolean
/// value.
proof fn lemma_parse_eula_line(n: usize, st: PState, v: Seq<char>)
    requires
        st.eula is None,
    ensures
        parse_line(n, "eula_acceptance: "@ + v, st) == (match parse_boolv(v) {
            Some(b) => Ok::<PState, ParseError>(
                PState { section: Section::Top, eula: Some(b), ..st },
            ),
            None => Err::<PState, ParseError>(ParseError::BadValue { line: n }),
        }),
{
    reveal_strlit("eula_acceptance: ");
    reveal_strlit("eula_acceptance");
    let lit = "eula_acceptance: "@;
    let l = lit + v;
    assert(lit.len() == 17);
    assert(l[0] == 'e');
    assert(forall|j: int| 0 <= j < 15 ==> l[j] == lit[j]);
    assert(forall|j: int| 0 <= j < 15 ==> lit[j] != ':');
    assert(l[15] == lit[15]);
    assert(l[15] == ':');
    lemma_first_colon_at(l, 15);
    assert(l.len() == 17 + v.len());
    assert(first_colon(l) != l.len() - 1);
    assert(l[16] == lit[16]);
    assert(l[16] == ' ');
    assert(l.take(15) =~= "eula_acceptance"@);
    assert(l.skip(17) =~= v);
}

/// The parser state once every required field has been filled from a
/// configuration value.
pub open spec fn parsed_pstate(c: ConfigV) -> PState {
    PState {
        section: Section::Top,
        port: Some(c.server.port),
        host: Some(c.server.host),
        path: Some(c.storage.path),
        allocated_mb: Some(c.storage.allocated_mb),
        automatic: Some(c.compression.automatic),
        format: Some(c.compression.format),
        level: Some(c.compression.level),
        log_level: Some(c.logging.level),
        verbosity: Some(c.logging.verbosity),
        log_path: Some(c.logging.log_path),
        eula: Some(c.eula_acceptance),
    }
}

/// The parser's walk over the fifteen rendered lines of a configuration —
/// standing at any offset of a larger document — followed by the final empty
/// line: it fills every field with the rendered value.
#[verifier::rlimit(100)]
proof fn lemma_fold_config_lines(c: ConfigV, LL: Seq<Seq<char>>, k: int)
    requires
        0 <= k,
        k + 16 == LL.len(),
        LL[k + 0] == spec_config_lines(c)[0],
        LL[k + 1] == spec_config_lines(c)[1],
        LL[k + 2] == spec_config_lines(c)[2],
        LL[k + 3] == spec_config_lines(c)[3],
        LL[k + 4] == spec_config_lines(c)[4],
        LL[k + 5] == spec_config_lines(c)[5],
        LL[k + 6] == spec_config_lines(c)[6],
        LL[k + 7] == spec_config_lines(c)[7],
        LL[k + 8] == spec_config_lines(c)[8],
        LL[k + 9] == spec_config_lines(c)[9],
        LL[k + 10] == spec_config_lines(c)[10],
        LL[k + 11] == spec_config_lines(c)[11],
        LL[k + 12] == spec_config_lines(c)[12],
        LL[k + 13] == spec_config_lines(c)[13],
        LL[k + 14] == spec_config_lines(c)[14],
        LL[k + 15] == Seq::<char>::empty(),
        unquote(c.server.host) == c.server.host,
        unquote(c.storage.path) == c.storage.path,
        unquote(c.compression.format) == c.compression.format,
        unquote(c.logging.level) == c.logging.level,
        unquote(c.logging.log_path) == c.logging.log_path,
    ensures
        parse_lines_from(LL, k, init_pstate()) == Ok::<PState, ParseError>(parsed_pstate(c)),
{
    reveal_strlit("server:");
    reveal_strlit("server");
    reveal_strlit("  port: ");
    reveal_strlit("port");
    reveal_strlit("  host: ");
    reveal_strlit("host");
    reveal_strlit("storage:");
    reveal_strlit("storage");
    reveal_strlit("  path: ");
    reveal_strlit("path");
    reveal_strlit("  allocated_mb: ");
    reveal_strlit("allocated_mb");
    reveal_strlit("compression:");
    reveal_strlit("compression");
    reveal_strlit("  automatic: ");
    reveal_strlit("automatic");
    reveal_strlit("  format: ");
    reveal_strlit("format");
    reveal_strlit("  level: ");
    reveal_strlit("level");
    reveal_strlit("logging:");
    reveal_strlit("logging");
    reveal_strlit("  verbosity: ");
    reveal_strlit("verbosity");
    reveal_strlit("  log_path: ");
    reveal_strlit("log_path");
    reveal_strlit("true");
    reveal_strlit("True");
    reveal_strlit("TRUE");
    reveal_strlit("false");
    lemma_dec_str_digits(c.server.port as nat);
    lemma_dec_val_dec_str(c.server.port as nat);
    lemma_dec_str_digits(c.storage.allocated_mb as nat);
    lemma_dec_val_dec_str(c.storage.allocated_mb as nat);
    lemma_dec_str_digits(c.compression.level as nat);
    lemma_dec_val_dec_str(c.compression.level as nat);
    lemma_dec_str_digits(c.logging.verbosity as nat);
    lemma_dec_val_dec_str(c.logging.verbosity as nat);
    assert(parse_boolv(bool_str(c.compression.automatic)) == Some(c.compression.automatic));
    assert(parse_boolv(bool_str(c.eula_acceptance)) == Some(c.eula_acceptance));

    let s0 = init_pstate();
    lemma_parse_header_line(line_no(k + 0), s0, "server:"@, "server"@);
    assert(section_of("server"@) == Section::Server);
    let s1 = PState { section: Section::Server, ..s0 };
    assert(parse_line(line_no(k + 0), LL[k + 0], s0) == Ok::<PState, ParseError>(s1));

    lemma_parse_field_line(line_no(k + 1), s1, "  port: "@, "port"@, dec_str(c.server.port as nat));
    let s2 = PState { port: Some(c.server.port), ..s1 };
    assert(parse_u16v(dec_str(c.server.port as nat)) == Some(c.server.port));
    assert(parse_line(line_no(k + 1), LL[k + 1], s1) == Ok::<PState, ParseError>(s2));

    lemma_parse_field_line(line_no(k + 2), s2, "  host: "@, "host"@, c.server.host);
    let s3 = PState { host: Some(c.server.host), ..s2 };
    assert("host"@[0] == 'h' && "port"@[0] == 'p');
    assert("host"@ != "port"@);
    assert(parse_line(line_no(k + 2), LL[k + 2], s2) == Ok::<PState, ParseError>(s3));

    lemma_parse_header_line(line_no(k + 3), s3, "storage:"@, "storage"@);
    assert(section_of("storage"@) == Section::Storage);
    let s4 = PState { section: Section::Storage, ..s3 };
    assert(parse_line(line_no(k + 3), LL[k + 3], s3) == Ok::<PState, ParseError>(s4));

    lemma_parse_field_line(line_no(k + 4), s4, "  path: "@, "path"@, c.storage.path);
    let s5 = PState { path: Some(c.storage.path), ..s4 };
    assert(parse_line(line_no(k + 4), LL[k + 4], s4) == Ok::<PState, ParseError>(s5));

    lemma_parse_field_line(line_no(k + 5),
        s5,
        "  allocated_mb: "@,
        "allocated_mb"@,
        dec_str(c.storage.allocated_mb as nat),
    );
    let s6 = PState { allocated_mb: Some(c.storage.allocated_mb), ..s5 };
    assert(parse_u32v(dec_str(c.storage.allocated_mb as nat)) == Some(c.storage.allocated_mb));
    assert(parse_line(line_no(k + 5), LL[k + 5], s5) == Ok::<PState, ParseError>(s6));

    lemma_parse_header_line(line_no(k + 6), s6, "compression:"@, "compression"@);
    assert(section_of("compression"@) == Section::Compression);
    let s7 = PState { section: Section::Compression, ..s6 };
    assert(parse_line(line_no(k + 6), LL[k + 6], s6) == Ok::<PState, ParseError>(s7));

    lemma_parse_field_line(line_no(k + 7), s7, "  automatic: "@, "automatic"@, bool_str(c.compression.automatic));
    let s8 = PState { automatic: Some(c.compression.automatic), ..s7 };
    assert(parse_line(line_no(k + 7), LL[k + 7], s7) == Ok::<PState, ParseError>(s8));

    lemma_parse_field_line(line_no(k + 8), s8, "  format: "@, "format"@, c.compression.format);
    let s9 = PState { format: Some(c.compression.format), ..s8 };
    assert(parse_line(line_no(k + 8), LL[k + 8], s8) == Ok::<PState, ParseError>(s9));

    lemma_parse_field_line(line_no(k + 9), s9, "  level: "@, "level"@, dec_str(c.compression.level as nat));
    let s10 = PState { level: Some(c.compression.level), ..s9 };
    assert(parse_u8v(dec_str(c.compression.level as nat)) == Some(c.compression.level));
    assert(parse_line(line_no(k + 9), LL[k + 9], s9) == Ok::<PState, ParseError>(s10));

    lemma_parse_header_line(line_no(k + 10), s10, "logging:"@, "logging"@);
    assert("logging"@.len() == 7 && "server"@.len() == 6 && "compression"@.len() == 11);
    assert("logging"@[0] == 'l' && "storage"@[0] == 's');
    assert("logging"@ != "server"@ && "logging"@ != "storage"@ && "logging"@
        != "compression"@);
    assert(section_of("logging"@) == Section::Logging);
    let s11 = PState { section: Section::Logging, ..s10 };
    assert(parse_line(line_no(k + 10), LL[k + 10], s10) == Ok::<PState, ParseError>(s11));

    lemma_parse_field_line(line_no(k + 11), s11, "  level: "@, "level"@, c.logging.level);
    let s12 = PState { log_level: Some(c.logging.level), ..s11 };
    assert(parse_line(line_no(k + 11), LL[k + 11], s11) == Ok::<PState, ParseError>(s12));

    lemma_parse_field_line(line_no(k + 12), s12, "  verbosity: "@, "verbosity"@, dec_str(c.logging.verbosity as nat));
    let s13 = PState { verbosity: Some(c.logging.verbosity), ..s12 };
    assert(parse_u8v(dec_str(c.logging.verbosity as nat)) == Some(c.logging.verbosity));
    assert(parse_line(line_no(k + 12), LL[k + 12], s12) == Ok::<PState, ParseError>(s13));

    lemma_parse_field_line(line_no(k + 13), s13, "  log_path: "@, "log_path"@, c.logging.log_path);
    let s14 = PState { log_path: Some(c.logging.log_path), ..s13 };
    assert(parse_line(line_no(k + 13), LL[k + 13], s13) == Ok::<PState, ParseError>(s14));

    lemma_parse_eula_line(line_no(k + 14), s14, bool_str(c.eula_acceptance));
    let s15 = PState { section: Section::Top, eula: Some(c.eula_acceptance), ..s14 };
    assert(parse_line(line_no(k + 14), LL[k + 14], s14) == Ok::<PState, ParseError>(s15));

    assert(parse_line(line_no(k + 15), LL[k + 15], s15) == Ok::<PState, ParseError>(s15));

    assert(parse_lines_from(LL, k + 16, s15) == Ok::<PState, ParseError>(s15));
    assert(parse_lines_from(LL, k + 15, s15) == Ok::<PState, ParseError>(s15));
    assert(parse_lines_from(LL, k + 14, s14) == Ok::<PState, ParseError>(s15));
    assert(parse_lines_from(LL, k + 13, s13) == Ok::<PState, ParseError>(s15));
    assert(parse_lines_from(LL, k + 12, s12) == Ok::<PState, ParseError>(s15));
    assert(parse_lines_from(LL, k + 11, s11) == Ok::<PState, ParseError>(s15));
    assert(parse_lines_from(LL, k + 10, s10) == Ok::<PState, ParseError>(s15));
    assert(parse_lines_from(LL, k + 9, s9) == Ok::<PState, ParseError>(s15));
    assert(parse_lines_from(LL, k + 8, s8) == Ok::<PState, ParseError>(s15));
    assert(parse_lines_from(LL, k + 7, s7) == Ok::<PState, ParseError>(s15));
    assert(parse_lines_from(LL, k + 6, s6) == Ok::<PState, ParseError>(s15));
    assert(parse_lines_from(LL, k + 5, s5) == Ok::<PState, ParseError>(s15));
    assert(parse_lines_from(LL, k + 4, s4) == Ok::<PState, ParseError>(s15));
    assert(parse_lines_from(LL, k + 3, s3) == Ok::<PState, ParseError>(s15));
    assert(parse_lines_from(LL, k + 2, s2) == Ok::<PState, ParseError>(s15));
    assert(parse_lines_from(LL, k + 1, s1) == Ok::<PState, ParseError>(s15));
    assert(parse_lines_from(LL, k + 0, s0) == Ok::<PState, ParseError>(s15));

    assert(s15 == parsed_pstate(c));
}

/// Round-trip law: any well-formed configuration, rendered into the file
/// format and parsed back, is recovered field for field.
pub proof fn lemma_render_parse_round_trip(c: ConfigV)
    requires
        wf_config(c),
    ensures
        spec_parse_config(spec_render_config(c)) == Ok::<ConfigV, ParseError>(c),
{
    let ls = spec_config_lines(c);
    lemma_config_lines_no_nl(c);
    lemma_lines_of_join(ls);
    let L = ls.push(Seq::<char>::empty());
    assert(lines_of(spec_render_config(c)) == L);
    assert(L.len() == 16);
    lemma_fold_config_lines(c, L, 0);
    assert(ServerConfigV { port: c.server.port, host: c.server.host } == c.server);
    assert(StorageConfigV { path: c.storage.path, allocated_mb: c.storage.allocated_mb }
        == c.storage);
    assert(CompressionConfigV {
        automatic: c.compression.automatic,
        format: c.compression.format,
        level: c.compression.level,
    } == c.compression);
    assert(LoggingConfigV {
        level: c.logging.level,
        verbosity: c.logging.verbosity,
        log_path: c.logging.log_path,
    } == c.logging);
    assert(finish_pstate(parsed_pstate(c)) == Ok::<ConfigV, ParseError>(c));
}

/// The generated default document — header comments included — parses back
/// to exactly the default configuration.
#[verifier::rlimit(100)]
pub proof fn lemma_default_document_parses()
    ensures
        spec_parse_config(spec_config_document()) == Ok::<ConfigV, ParseError>(
            spec_default_config(),
        ),
{
    let c = spec_default_config();
    reveal_strlit("localhost");
    reveal_strlit("./storage");
    reveal_strlit("zip");
    reveal_strlit("info");
    reveal_strlit("./");
    assert(no_nl("localhost"@));
    assert(no_nl("./storage"@));
    assert(no_nl("zip"@));
    assert(no_nl("info"@));
    assert(no_nl("./"@));
    assert(unquote("localhost"@) == "localhost"@);
    assert(unquote("./storage"@) == "./storage"@);
    assert(unquote("zip"@) == "zip"@);
    assert(unquote("info"@) == "info"@);
    assert(unquote("./"@) == "./"@);
    assert(wf_config(c));
    let ls = spec_config_lines(c);
    lemma_config_lines_no_nl(c);
    lemma_lines_of_join(ls);
    let r = spec_render_config(c);

    reveal_strlit(
        "\n# =================================================\n# Archiva Configuration File\n# Generated Dynamically - documentation available on github\n# Edit carefully - changes take effect on restart.\n# =================================================\n\n",
    );
    reveal_strlit("# =================================================");
    reveal_strlit("# Archiva Configuration File");
    reveal_strlit("# Generated Dynamically - documentation available on github");
    reveal_strlit("# Edit carefully - changes take effect on restart.");
    let e = Seq::<char>::empty();
    let nl = seq!['\n'];
    let h1 = "# ================================================="@;
    let h2 = "# Archiva Configuration File"@;
    let h3 = "# Generated Dynamically - documentation available on github"@;
    let h4 = "# Edit carefully - changes take effect on restart."@;
    let doc = spec_config_document();
    let rest6 = e + nl + r;
    let rest5 = h1 + nl + rest6;
    let rest4 = h4 + nl + rest5;
    let rest3 = h3 + nl + rest4;
    let rest2 = h2 + nl + rest3;
    let rest1 = h1 + nl + rest2;
    assert(doc =~= e + nl + rest1);
    assert(no_nl(e));
    assert(no_nl(h1));
    assert(no_nl(h2));
    assert(no_nl(h3));
    assert(no_nl(h4));
    lemma_lines_split(e, rest1);
    lemma_lines_split(h1, rest2);
    lemma_lines_split(h2, rest3);
    lemma_lines_split(h3, rest4);
    lemma_lines_split(h4, rest5);
    lemma_lines_split(h1, rest6);
    lemma_lines_split(e, r);
    let LL = seq![e, h1, h2, h3, h4, h1, e] + ls.push(e);
    assert(lines_of(doc) =~~= LL);
    assert(LL.len() == 23);

    let s0 = init_pstate();
    assert(h1[0] == '#');
    assert(h2[0] == '#');
    assert(h3[0] == '#');
    assert(h4[0] == '#');
    assert(LL[0] == e);
    assert(LL[1] == h1);
    assert(LL[2] == h2);
    assert(LL[3] == h3);
    assert(LL[4] == h4);
    assert(LL[5] == h1);
    assert(LL[6] == e);
    assert(parse_line(line_no(0), LL[0], s0) == Ok::<PState, ParseError>(s0));
    assert(parse_line(line_no(1), LL[1], s0) == Ok::<PState, ParseError>(s0));
    assert(parse_line(line_no(2), LL[2], s0) == Ok::<PState, ParseError>(s0));
    assert(parse_line(line_no(3), LL[3], s0) == Ok::<PState, ParseError>(s0));
    assert(parse_line(line_no(4), LL[4], s0) == Ok::<PState, ParseError>(s0));
    assert(parse_line(line_no(5), LL[5], s0) == Ok::<PState, ParseError>(s0));
    assert(parse_line(line_no(6), LL[6], s0) == Ok::<PState, ParseError>(s0));

    assert(LL[7] == ls[0]);
    assert(LL[8] == ls[1]);
    assert(LL[9] == ls[2]);
    assert(LL[10] == ls[3]);
    assert(LL[11] == ls[4]);
    assert(LL[12] == ls[5]);
    assert(LL[13] == ls[6]);
    assert(LL[14] == ls[7]);
    assert(LL[15] == ls[8]);
    assert(LL[16] == ls[9]);
    assert(LL[17] == ls[10]);
    assert(LL[18] == ls[11]);
    assert(LL[19] == ls[12]);
    assert(LL[20] == ls[13]);
    assert(LL[21] == ls[14]);
    assert(LL[22] == e);
    lemma_fold_config_lines(c, LL, 7);

    assert(parse_lines_from(LL, 6, s0) == parse_lines_from(LL, 7, s0));
    assert(parse_lines_from(LL, 5, s0) == parse_lines_from(LL, 6, s0));
    assert(parse_lines_from(LL, 4, s0) == parse_lines_from(LL, 5, s0));
    assert(parse_lines_from(LL, 3, s0) == parse_lines_from(LL, 4, s0));
    assert(parse_lines_from(LL, 2, s0) == parse_lines_from(LL, 3, s0));
    assert(parse_lines_from(LL, 1, s0) == parse_lines_from(LL, 2, s0));
    assert(parse_lines_from(LL, 0, s0) == parse_lines_from(LL, 1, s0));
    assert(parse_lines_from(LL, 0, s0) == Ok::<PState, ParseError>(parsed_pstate(c)));
    assert(finish_pstate(parsed_pstate(c)) == Ok::<ConfigV, ParseError>(c));
}

pub open spec fn opt_str_view(o: Option<String>) -> Option<Seq<char>> {
    match o {
        Some(s) => Some(s@),
        None => None,
    }
}

/// Executable twin of `PState`.
struct PartialConfig {
    section: Section,
    port: Option<u16>,
    host: Option<String>,
    path: Option<String>,
    allocated_mb: Option<u32>,
    automatic: Option<bool>,
    format: Option<String>,
    level: Option<u8>,
    log_level: Option<String>,
    verbosity: Option<u8>,
    log_path: Option<String>,
    eula: Option<bool>,
}

impl View for PartialConfig {
    type V = PState;

    closed spec fn view(&self) -> PState {
        PState {
            section: self.section,
            port: self.port,
            host: opt_str_view(self.host),
            path: opt_str_view(self.path),
            allocated_mb: self.allocated_mb,
            automatic: self.automatic,
            format: opt_str_view(self.format),
            level: self.level,
            log_level: opt_str_view(self.log_level),
            verbosity: self.verbosity,
            log_path: opt_str_view(self.log_path),
            eula: self.eula,
        }
    }
}

fn new_partial() -> (st: PartialConfig)
    ensures
        st@ == init_pstate(),
{
    PartialConfig {
        section: Section::Top,
        port: None,
        host: None,
        path: None,
        allocated_mb: None,
        automatic: None,
        format: None,
        level: None,
        log_level: None,
        verbosity: None,
        log_path: None,
        eula: None,
    }
}

/// Parses the value of a 16-bit field.
fn parse_u16_str(v: &str) -> (r: Option<u16>)
    ensures
        r == parse_u16v(v@),
{
    match parse_capped_str(v) {
        Some(n) => if n <= 0xFFFF {
            Some(n as u16)
        } else {
            None
        },
        None => None,
    }
}

/// Parses the value of a 32-bit field.
fn parse_u32_str(v: &str) -> (r: Option<u32>)
    ensures
        r == parse_u32v(v@),
{
    match parse_capped_str(v) {
        Some(n) => Some(n as u32),
        None => None,
    }
}

/// Parses the value of an 8-bit field.
fn parse_u8_str(v: &str) -> (r: Option<u8>)
    ensures
        r == parse_u8v(v@),
{
    match parse_capped_str(v) {
        Some(n) => if n <= 0xFF {
            Some(n as u8)
        } else {
            None
        },
        None => None,
    }
}

/// Strips one matching pair of quotes from a string value, if present.
fn unquote_str(v: &str) -> (r: String)
    ensures
        r@ == unquote(v@),
{
    let n = v.unicode_len();
    if n >= 2 {
        let c0 = v.get_char(0);
        let cl = v.get_char(n - 1);
        if (c0 == '"' && cl == '"') || (c0 == '\'' && cl == '\'') {
            let inner = v.substring_char(1, n - 1);
            return inner.to_owned();
        }
    }
    v.to_owned()
}

/// Parses the value of a boolean field.
fn parse_bool_str(v: &str) -> (r: Option<bool>)
    ensures
        r == parse_boolv(v@),
{
    if str_eq(v, "true") || str_eq(v, "True") || str_eq(v, "TRUE") {
        Some(true)
    } else if str_eq(v, "false") || str_eq(v, "False") || str_eq(v, "FALSE") {
        Some(false)
    } else {
        None
    }
}

/// A field line's key and value, handed to the current section.
fn handle_field(n: usize, key: &str, v: &str, st: &mut PartialConfig) -> (r: Result<
    (),
    ParseError,
>)
    ensures
        r is Ok ==> parse_field(n, key@, v@, old(st)@) == Ok::<PState, ParseError>(final(st)@),
        r matches Err(e) ==> parse_field(n, key@, v@, old(st)@) == Err::<PState, ParseError>(e)
            && final(st)@ == old(st)@,
{
    match st.section {
        Section::Server => {
            if str_eq(key, "port") {
                if st.port.is_some() {
                    Err(ParseError::DuplicateField { line: n })
                } else {
                    match parse_u16_str(v) {
                        Some(x) => {
                            st.port = Some(x);
                            Ok(())
                        },
                        None => Err(ParseError::BadValue { line: n }),
                    }
                }
            } else if str_eq(key, "host") {
                if st.host.is_some() {
                    Err(ParseError::DuplicateField { line: n })
                } else {
                    st.host = Some(unquote_str(v));
                    Ok(())
                }
            } else {
                Ok(())
            }
        },
        Section::Storage => {
            if str_eq(key, "path") {
                if st.path.is_some() {
                    Err(ParseError::DuplicateField { line: n })
                } else {
                    st.path = Some(unquote_str(v));
                    Ok(())
                }
            } else if str_eq(key, "allocated_mb") {
                if st.allocated_mb.is_some() {
                    Err(ParseError::DuplicateField { line: n })
                } else {
                    match parse_u32_str(v) {
                        Some(x) => {
                            st.allocated_mb = Some(x);
                            Ok(())
                        },
                        None => Err(ParseError::BadValue { line: n }),
                    }
                }
            } else {
                Ok(())
            }
        },
        Section::Compression => {
            if str_eq(key, "automatic") {
                if st.automatic.is_some() {
                    Err(ParseError::DuplicateField { line: n })
                } else {
                    match parse_bool_str(v) {
                        Some(x) => {
                            st.automatic = Some(x);
                            Ok(())
                        },
                        None => Err(ParseError::BadValue { line: n }),
                    }
                }
            } else if str_eq(key, "format") {
                if st.format.is_some() {
                    Err(ParseError::DuplicateField { line: n })
                } else {
                    st.format = Some(unquote_str(v));
                    Ok(())
                }
            } else if str_eq(key, "level") {
                if st.level.is_some() {
                    Err(ParseError::DuplicateField { line: n })
                } else {
                    match parse_u8_str(v) {
                        Some(x) => {
                            st.level = Some(x);
                            Ok(())
                        },
                        None => Err(ParseError::BadValue { line: n }),
                    }
                }
            } else {
                Ok(())
            }
        },
        Section::Logging => {
            if str_eq(key, "level") {
                if st.log_level.is_some() {
                    Err(ParseError::DuplicateField { line: n })
                } else {
                    st.log_level = Some(unquote_str(v));
                    Ok(())
                }
            } else if str_eq(key, "verbosity") {
                if st.verbosity.is_some() {
                    Err(ParseError::DuplicateField { line: n })
                } else {
                    match parse_u8_str(v) {
                        Some(x) => {
                            st.verbosity = Some(x);
                            Ok(())
                        },
                        None => Err(ParseError::BadValue { line: n }),
                    }
                }
            } else if str_eq(key, "log_path") {
                if st.log_path.is_some() {
                    Err(ParseError::DuplicateField { line: n })
                } else {
                    st.log_path = Some(unquote_str(v));
                    Ok(())
                }
            } else {
                Ok(())
            }
        },
        Section::Top => Err(ParseError::BadSyntax { line: n }),
        Section::Unknown => Ok(()),
    }
}

/// One line of the document, applied to the accumulator.
fn handle_line(n: usize, l: &str, st: &mut PartialConfig) -> (r: Result<(), ParseError>)
    ensures
        r is Ok ==> parse_line(n, l@, old(st)@) == Ok::<PState, ParseError>(final(st)@),
        r matches Err(e) ==> parse_line(n, l@, old(st)@) == Err::<PState, ParseError>(e),
{
    let len = l.unicode_len();
    if len == 0 {
        return Ok(());
    }
    let c0 = l.get_char(0);
    if c0 == '#' {
        return Ok(());
    }
    if c0 == ' ' {
        if st.section == Section::Unknown {
            return Ok(());
        }
        if len < 3 || l.get_char(1) != ' ' || l.get_char(2) == ' ' {
            return Err(ParseError::BadSyntax { line: n });
        }
        let p = l.substring_char(2, len);
        proof {
            assert(p@ =~= l@.skip(2));
        }
        let plen = len - 2;
        match find_first_colon(p) {
            None => Err(ParseError::BadSyntax { line: n }),
            Some(ci) => {
                if ci == 0 {
                    Err(ParseError::BadSyntax { line: n })
                } else if ci == plen - 1 {
                    Err(ParseError::BadSyntax { line: n })
                } else if p.get_char(ci + 1) != ' ' {
                    Err(ParseError::BadSyntax { line: n })
                } else {
                    let key = p.substring_char(0, ci);
                    let v = p.substring_char(ci + 2, plen);
                    proof {
                        assert(key@ =~= p@.take(ci as int));
                        assert(v@ =~= p@.skip(ci + 2));
                    }
                    handle_field(n, key, v, st)
                }
            },
        }
    } else {
        match find_first_colon(l) {
            None => Err(ParseError::BadSyntax { line: n }),
            Some(ci) => {
                if ci == 0 {
                    Err(ParseError::BadSyntax { line: n })
                } else if ci == len - 1 {
                    let key = l.substring_char(0, ci);
                    proof {
                        assert(key@ =~= l@.take(ci as int));
                    }
                    if str_eq(key, "server") {
                        st.section = Section::Server;
                    } else if str_eq(key, "storage") {
                        st.section = Section::Storage;
                    } else if str_eq(key, "compression") {
                        st.section = Section::Compression;
                    } else if str_eq(key, "logging") {
                        st.section = Section::Logging;
                    } else {
                        st.section = Section::Unknown;
                    }
                    Ok(())
                } else if l.get_char(ci + 1) != ' ' {
                    Err(ParseError::BadSyntax { line: n })
                } else {
                    let key = l.substring_char(0, ci);
                    let v = l.substring_char(ci + 2, len);
                    proof {
                        assert(key@ =~= l@.take(ci as int));
                        assert(v@ =~= l@.skip(ci + 2));
                    }
                    if str_eq(key, "eula_acceptance") {
                        if st.eula.is_some() {
                            Err(ParseError::DuplicateField { line: n })
                        } else {
                            match parse_bool_str(v) {
                                Some(b) => {
                                    st.eula = Some(b);
                                    st.section = Section::Top;
                                    Ok(())
                                },
                                None => Err(ParseError::BadValue { line: n }),
                            }
                        }
                    } else {
                        st.section = Section::Unknown;
                        Ok(())
                    }
                }
            },
        }
    }
}

/// Completes parsing: demands every required field, in schema order.
fn finish_partial(st: PartialConfig) -> (r: Result<Config, ParseError>)
    ensures
        r matches Ok(c) ==> finish_pstate(st@) == Ok::<ConfigV, ParseError>(c@),
        r matches Err(e) ==> finish_pstate(st@) == Err::<ConfigV, ParseError>(e),
{
    let PartialConfig {
        section: _,
        port,
        host,
        path,
        allocated_mb,
        automatic,
        format,
        level,
        log_level,
        verbosity,
        log_path,
        eula,
    } = st;
    let port = match port {
        Some(x) => x,
        None => {
            return Err(ParseError::MissingField { field: Field::ServerPort });
        },
    };
    let host = match host {
        Some(x) => x,
        None => {
            return Err(ParseError::MissingField { field: Field::ServerHost });
        },
    };
    let path = match path {
        Some(x) => x,
        None => {
            return Err(ParseError::MissingField { field: Field::StoragePath });
        },
    };
    let allocated_mb = match allocated_mb {
        Some(x) => x,
        None => {
            return Err(ParseError::MissingField { field: Field::StorageAllocatedMb });
        },
    };
    let automatic = match automatic {
        Some(x) => x,
        None => {
            return Err(ParseError::MissingField { field: Field::CompressionAutomatic });
        },
    };
    let format = match format {
        Some(x) => x,
        None => {
            return Err(ParseError::MissingField { field: Field::CompressionFormat });
        },
    };
    let level = match level {
        Some(x) => x,
        None => {
            return Err(ParseError::MissingField { field: Field::CompressionLevel });
        },
    };
    let log_level = match log_level {
        Some(x) => x,
        None => {
            return Err(ParseError::MissingField { field: Field::LoggingLevel });
        },
    };
    let verbosity = match verbosity {
        Some(x) => x,
        None => {
            return Err(ParseError::MissingField { field: Field::LoggingVerbosity });
        },
    };
    let log_path = match log_path {
        Some(x) => x,
        None => {
            return Err(ParseError::MissingField { field: Field::LoggingLogPath });
        },
    };
    let eula = match eula {
        Some(x) => x,
        None => {
            return Err(ParseError::MissingField { field: Field::EulaAcceptance });
        },
    };
    Ok(
        Config {
            server: ServerConfig { port, host },
            storage: StorageConfig { path, allocated_mb },
            compression: CompressionConfig { automatic, format, level },
            logging: LoggingConfig { level: log_level, verbosity, log_path },
            eula_acceptance: eula,
        },
    )
}

/// Parses a configuration document. The result is exactly what
/// `spec_parse_config` assigns to the text: `Ok` holds the configuration the
/// document denotes, and every malformed or incomplete document is refused
/// with the first error the line fold meets.
pub fn parse_config(text: &str) -> (r: Result<Config, ParseError>)
    ensures
        r matches Ok(c) ==> spec_parse_config(text@) == Ok::<ConfigV, ParseError>(c@),
        r matches Err(e) ==> spec_parse_config(text@) == Err::<ConfigV, ParseError>(e),
        r is Ok == spec_parse_config(text@) is Ok,
{
    let lines = split_lines(text);
    let ghost lv = lines_of(text@);
    let mut st = new_partial();
    let mut i: usize = 0;
    while i < lines.len()
        invariant
            lines@.map_values(|l: String| l@) == lv,
            lv == lines_of(text@),
            0 <= i <= lines.len(),
            parse_lines_from(lv, 0, init_pstate()) == parse_lines_from(lv, i as int, st@),
        decreases lines.len() - i,
    {
        let n: usize = if i < usize::MAX {
            i + 1
        } else {
            usize::MAX
        };
        proof {
            assert(n == line_no(i as int));
            assert(lines@.map_values(|l: String| l@)[i as int] == lines@[i as int]@);
        }
        let line = &lines[i];
        match handle_line(n, line.as_str(), &mut st) {
            Ok(()) => {},
            Err(e) => {
                return Err(e);
            },
        }
        i += 1;
    }
    finish_partial(st)
}

} // verus!

//! Tests of the config-file emitter and parser.

use archiva_bootstrap::codec::{config_document, render_config, Field, ParseError};
use archiva_bootstrap::config::default_config;
use archiva_bootstrap::parse_config;

#[test]
fn default_config_values() {
    let c = default_config();
    assert_eq!(c.server.port, 4514);
    assert_eq!(c.server.host, "localhost");
    assert_eq!(c.storage.path, "./storage");
    assert_eq!(c.storage.allocated_mb, 25000);
    assert!(c.compression.automatic);
    assert_eq!(c.compression.format, "zip");
    assert_eq!(c.compression.level, 6);
    assert_eq!(c.logging.level, "info");
    assert_eq!(c.logging.verbosity, 3);
    assert_eq!(c.logging.log_path, "./");
    assert!(!c.eula_acceptance);
}

#[test]
fn render_default_exact() {
    let body = render_config(&default_config());
    assert_eq!(
        body,
        "server:\n  port: 4514\n  host: localhost\n\
         storage:\n  path: ./storage\n  allocated_mb: 25000\n\
         compression:\n  automatic: true\n  format: zip\n  level: 6\n\
         logging:\n  level: info\n  verbosity: 3\n  log_path: ./\n\
         eula_acceptance: false\n"
    );
}

#[test]
fn default_round_trip() {
    let d = default_config();
    let body = render_config(&d);
    let parsed = parse_config(&body).expect("rendered default must parse");
    assert_eq!(parsed, d);
}

#[test]
fn generated_document_round_trip() {
    let doc = config_document();
    let parsed = parse_config(&doc).expect("generated document must parse");
    assert_eq!(parsed, default_config());
    assert!(!parsed.eula_acceptance);
}

#[test]
fn generated_document_has_header_comment() {
    let doc = config_document();
    assert!(doc.starts_with("\n# ="));
    assert!(doc.contains("# Archiva Configuration File"));
    assert!(doc.ends_with("eula_acceptance: false\n"));
}

#[test]
fn missing_port_is_fatal() {
    let doc = "server:\n  host: localhost\n\
               storage:\n  path: ./storage\n  allocated_mb: 25000\n\
               compression:\n  automatic: true\n  format: zip\n  level: 6\n\
               logging:\n  level: info\n  verbosity: 3\n  log_path: ./\n\
               eula_acceptance: false\n";
    let err = parse_config(doc).expect_err("missing server.port must be refused");
    assert_eq!(err, ParseError::MissingField { field: Field::ServerPort });
    assert_eq!(err.message(), "config.yml: missing required field: server.port");
}

#[test]
fn missing_whole_section_is_fatal() {
    let doc = "server:\n  port: 4514\n  host: localhost\n\
               storage:\n  path: ./storage\n  allocated_mb: 25000\n\
               compression:\n  automatic: true\n  format: zip\n  level: 6\n\
               eula_acceptance: false\n";
    let err = parse_config(doc).expect_err("missing logging section must be refused");
    assert_eq!(err, ParseError::MissingField { field: Field::LoggingLevel });
}

#[test]
fn missing_eula_flag_is_fatal() {
    let doc = "server:\n  port: 4514\n  host: localhost\n\
               storage:\n  path: ./storage\n  allocated_mb: 25000\n\
               compression:\n  automatic: true\n  format: zip\n  level: 6\n\
               logging:\n  level: info\n  verbosity: 3\n  log_path: ./\n";
    let err = parse_config(doc).expect_err("missing eula_acceptance must be refused");
    assert_eq!(err, ParseError::MissingField { field: Field::EulaAcceptance });
    assert_eq!(err.message(), "config.yml: missing required field: eula_acceptance");
}

#[test]
fn non_numeric_port_is_fatal() {
    let doc = "server:\n  port: abc\n  host: localhost\neula_acceptance: false\n";
    let err = parse_config(doc).expect_err("non-numeric port must be refused");
    assert_eq!(err, ParseError::BadValue { line: 2 });
    assert_eq!(err.message(), "config.yml: invalid value on line 2");
}

#[test]
fn port_out_of_range_is_fatal() {
    let doc = "server:\n  port: 65536\n";
    let err = parse_config(doc).expect_err("port above 16 bits must be refused");
    assert_eq!(err, ParseError::BadValue { line: 2 });
}

#[test]
fn port_at_max_is_accepted() {
    let doc = "server:\n  port: 65535\n  host: h\n\
               storage:\n  path: p\n  allocated_mb: 4294967295\n\
               compression:\n  automatic: false\n  format: f\n  level: 255\n\
               logging:\n  level: l\n  verbosity: 0\n  log_path: q\n\
               eula_acceptance: true\n";
    let c = parse_config(doc).expect("all values at their width limits must parse");
    assert_eq!(c.server.port, 65535);
    assert_eq!(c.storage.allocated_mb, 4294967295);
    assert_eq!(c.compression.level, 255);
    assert!(c.eula_acceptance);
}

#[test]
fn allocated_mb_out_of_range_is_fatal() {
    let doc = "storage:\n  allocated_mb: 4294967296\n";
    let err = parse_config(doc).expect_err("a value above 32 bits must be refused");
    assert_eq!(err, ParseError::BadValue { line: 2 });
}

#[test]
fn level_out_of_range_is_fatal() {
    let doc = "compression:\n  level: 256\n";
    let err = parse_config(doc).expect_err("a level above 8 bits must be refused");
    assert_eq!(err, ParseError::BadValue { line: 2 });
}

#[test]
fn leading_zeros_are_accepted() {
    let doc = "server:\n  port: 04514\n  host: localhost\n\
               storage:\n  path: ./storage\n  allocated_mb: 25000\n\
               compression:\n  automatic: true\n  format: zip\n  level: 6\n\
               logging:\n  level: info\n  verbosity: 3\n  log_path: ./\n\
               eula_acceptance: false\n";
    let c = parse_config(doc).expect("leading zeros denote the same number");
    assert_eq!(c.server.port, 4514);
}

#[test]
fn bad_boolean_is_fatal() {
    let doc = "eula_acceptance: yes\n";
    let err = parse_config(doc).expect_err("only true and false are booleans");
    assert_eq!(err, ParseError::BadValue { line: 1 });
}

#[test]
fn duplicate_field_is_fatal() {
    let doc = "server:\n  port: 1\n  port: 2\n";
    let err = parse_config(doc).expect_err("a field assigned twice must be refused");
    assert_eq!(err, ParseError::DuplicateField { line: 3 });
    assert_eq!(err.message(), "config.yml: duplicate field on line 3");
}

#[test]
fn malformed_line_is_fatal() {
    let doc = "garbage\n";
    let err = parse_config(doc).expect_err("a line without a colon must be refused");
    assert_eq!(err, ParseError::BadSyntax { line: 1 });
    assert_eq!(err.message(), "config.yml: malformed line 1");
}

#[test]
fn indented_line_outside_section_is_fatal() {
    let doc = "  port: 4514\n";
    let err = parse_config(doc).expect_err("a field outside any section must be refused");
    assert_eq!(err, ParseError::BadSyntax { line: 1 });
}

#[test]
fn unknown_field_is_ignored() {
    let doc = "server:\n  port: 4514\n  host: localhost\n  nonsense: 1\n\
               storage:\n  path: ./storage\n  allocated_mb: 25000\n\
               compression:\n  automatic: true\n  format: zip\n  level: 6\n\
               logging:\n  level: info\n  verbosity: 3\n  log_path: ./\n\
               eula_acceptance: false\n";
    let c = parse_config(doc).expect("unknown fields are skipped");
    assert_eq!(c, default_config());
}

#[test]
fn unknown_section_is_skipped() {
    let doc = "extra:\n  anything: at all\n\
               server:\n  port: 4514\n  host: localhost\n\
               storage:\n  path: ./storage\n  allocated_mb: 25000\n\
               compression:\n  automatic: true\n  format: zip\n  level: 6\n\
               logging:\n  level: info\n  verbosity: 3\n  log_path: ./\n\
               eula_acceptance: false\n";
    let c = parse_config(doc).expect("unknown sections are skipped");
    assert_eq!(c, default_config());
}

#[test]
fn comments_and_blank_lines_are_skipped() {
    let doc = "# leading comment\n\nserver:\n# inside\n  port: 1\n  host: h\n\
               storage:\n  path: p\n  allocated_mb: 2\n\
               compression:\n  automatic: false\n  format: f\n  level: 3\n\
               logging:\n  level: l\n  verbosity: 4\n  log_path: q\n\
               eula_acceptance: true\n\n";
    let c = parse_config(doc).expect("comments and blank lines carry nothing");
    assert_eq!(c.server.port, 1);
    assert_eq!(c.logging.verbosity, 4);
}

#[test]
fn string_fields_keep_their_text() {
    let doc = "server:\n  port: 8080\n  host: archive.example.org\n\
               storage:\n  path: /var/lib/archiva data\n  allocated_mb: 1\n\
               compression:\n  automatic: false\n  format: tar.gz\n  level: 9\n\
               logging:\n  level: warn: hot\n  verbosity: 1\n  log_path: ./logs\n\
               eula_acceptance: true\n";
    let c = parse_config(doc).expect("string values are taken verbatim");
    assert_eq!(c.server.host, "archive.example.org");
    assert_eq!(c.storage.path, "/var/lib/archiva data");
    assert_eq!(c.compression.format, "tar.gz");
    assert_eq!(c.logging.level, "warn: hot");
}

#[test]
fn arbitrary_config_round_trip() {
    let doc = "server:\n  port: 8080\n  host: archive.example.org\n\
               storage:\n  path: ./a/b/c\n  allocated_mb: 512\n\
               compression:\n  automatic: false\n  format: tar\n  level: 9\n\
               logging:\n  level: debug\n  verbosity: 7\n  log_path: ./logs\n\
               eula_acceptance: true\n";
    let c = parse_config(doc).expect("the document must parse");
    let rendered = render_config(&c);
    assert_eq!(rendered, doc);
    let c2 = parse_config(&rendered).expect("the rendering must parse");
    assert_eq!(c2, c);
}

#[test]
fn error_lines_count_comments_and_blanks() {
    let doc = "# comment\n\nserver:\n  port: x\n";
    let err = parse_config(doc).expect_err("a bad value must be refused");
    assert_eq!(err, ParseError::BadValue { line: 4 });
}

#[test]
fn quoted_string_values_are_unquoted() {
    let doc = "server:\n  port: 4514\n  host: \"localhost\"\n\
               storage:\n  path: './storage'\n  allocated_mb: 25000\n\
               compression:\n  automatic: true\n  format: zip\n  level: 6\n\
               logging:\n  level: info\n  verbosity: 3\n  log_path: ./\n\
               eula_acceptance: false\n";
    let c = parse_config(doc).expect("quoted scalars must parse");
    assert_eq!(c, default_config());
}

#[test]
fn lone_or_mismatched_quotes_stay_verbatim() {
    let doc = "server:\n  port: 1\n  host: \"x'\n\
               storage:\n  path: 'y\n  allocated_mb: 2\n\
               compression:\n  automatic: true\n  format: \"\n  level: 3\n\
               logging:\n  level: l\n  verbosity: 4\n  log_path: q\n\
               eula_acceptance: true\n";
    let c = parse_config(doc).expect("unmatched quotes are ordinary characters");
    assert_eq!(c.server.host, "\"x'");
    assert_eq!(c.storage.path, "'y");
    assert_eq!(c.compression.format, "\"");
}

#[test]
fn capitalized_booleans_are_accepted() {
    let doc = "server:\n  port: 4514\n  host: localhost\n\
               storage:\n  path: ./storage\n  allocated_mb: 25000\n\
               compression:\n  automatic: FALSE\n  format: zip\n  level: 6\n\
               logging:\n  level: info\n  verbosity: 3\n  log_path: ./\n\
               eula_acceptance: True\n";
    let c = parse_config(doc).expect("YAML boolean spellings must parse");
    assert!(!c.compression.automatic);
    assert!(c.eula_acceptance);
}

#[test]
fn quoted_number_is_not_a_number() {
    let doc = "server:\n  port: \"4514\"\n";
    let err = parse_config(doc).expect_err("a quoted scalar is not an integer");
    assert_eq!(err, ParseError::BadValue { line: 2 });
}

#[test]
fn generated_document_is_valid_yaml() {
    let doc = config_document();
    let v: serde_yaml::Value = serde_yaml::from_str(&doc).expect("the document must be YAML");
    assert_eq!(v["server"]["port"].as_u64(), Some(4514));
    assert_eq!(v["server"]["host"].as_str(), Some("localhost"));
    assert_eq!(v["storage"]["path"].as_str(), Some("./storage"));
    assert_eq!(v["storage"]["allocated_mb"].as_u64(), Some(25000));
    assert_eq!(v["compression"]["automatic"].as_bool(), Some(true));
    assert_eq!(v["compression"]["format"].as_str(), Some("zip"));
    assert_eq!(v["compression"]["level"].as_u64(), Some(6));
    assert_eq!(v["logging"]["level"].as_str(), Some("info"));
    assert_eq!(v["logging"]["verbosity"].as_u64(), Some(3));
    assert_eq!(v["logging"]["log_path"].as_str(), Some("./"));
    assert_eq!(v["eula_acceptance"].as_bool(), Some(false));
}

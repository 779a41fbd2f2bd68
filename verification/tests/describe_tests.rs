use qwert::describe::{arg_schema_of, build_schemas, describe_text};

#[test]
fn all_schemas_includes_canonical_nouns() {
    let schemas = build_schemas(None).unwrap();
    let names: Vec<&str> = schemas.iter().map(|s| s.name.as_str()).collect();
    assert!(names.contains(&"file read"));
    assert!(names.contains(&"file write"));
    assert!(names.contains(&"file list"));
    assert!(names.contains(&"note render"));
    assert!(names.contains(&"note backlinks"));
    assert!(names.contains(&"note revision"));
    assert!(names.contains(&"note scan"));
    assert!(names.contains(&"vault search"));
    assert!(names.contains(&"vault status"));
    assert!(names.contains(&"vault scan"));
    assert!(names.contains(&"appearance contrast"));
    assert!(names.contains(&"appearance set"));
    assert!(names.contains(&"appearance template"));
    assert!(names.contains(&"appearance status"));
}

#[test]
fn hidden_aliases_not_in_all_schemas() {
    let schemas = build_schemas(None).unwrap();
    let names: Vec<&str> = schemas.iter().map(|s| s.name.as_str()).collect();
    assert!(!names.contains(&"read"));
    assert!(!names.contains(&"write"));
    assert!(!names.contains(&"search"));
    assert!(!names.contains(&"status"));
    assert!(!names.contains(&"revision"));
    assert!(!names.contains(&"generate-man"));
}

#[test]
fn noun_filter_file_returns_all_verbs() {
    let schemas = build_schemas(Some("file")).unwrap();
    let names: Vec<&str> = schemas.iter().map(|s| s.name.as_str()).collect();
    assert_eq!(names, vec!["file read", "file write", "file list"]);
}

#[test]
fn noun_verb_returns_single_schema() {
    let schemas = build_schemas(Some("file read")).unwrap();
    assert_eq!(schemas.len(), 1);
    assert_eq!(schemas[0].name, "file read");
}

#[test]
fn unknown_noun_returns_err() {
    let result = build_schemas(Some("unknown"));
    assert!(result.is_err());
    assert_eq!(result.unwrap_err(), "unknown subcommand: unknown");
}

#[test]
fn unknown_verb_returns_err() {
    let result = build_schemas(Some("file unknown_verb"));
    assert!(result.is_err());
    assert_eq!(result.unwrap_err(), "unknown verb: unknown_verb");
}

#[test]
fn file_read_has_path_positional() {
    let schemas = build_schemas(Some("file read")).unwrap();
    let schema = &schemas[0];
    let path_arg = schema.args.iter().find(|a| a.name == "path").unwrap();
    assert_eq!(path_arg.kind, "positional");
    assert!(path_arg.required);
}

#[test]
fn file_read_has_format_option_with_default_raw() {
    let schemas = build_schemas(Some("file read")).unwrap();
    let schema = &schemas[0];
    let fmt_arg = schema.args.iter().find(|a| a.name == "format").unwrap();
    assert_eq!(fmt_arg.kind, "option");
    assert_eq!(fmt_arg.default.as_deref(), Some("raw"));
}

#[test]
fn note_revision_has_dry_run_flag() {
    let schemas = build_schemas(Some("note revision")).unwrap();
    let schema = &schemas[0];
    let dry = schema.args.iter().find(|a| a.name == "dry-run").unwrap();
    assert_eq!(dry.kind, "flag");
}

#[test]
fn file_write_has_if_match_option() {
    let schemas = build_schemas(Some("file write")).unwrap();
    let schema = &schemas[0];
    let if_match = schema.args.iter().find(|a| a.name == "if-match").unwrap();
    assert_eq!(if_match.kind, "option");
}

#[test]
fn leaf_nouns_are_their_own_schema() {
    let schemas = build_schemas(Some("describe")).unwrap();
    assert_eq!(schemas.len(), 1);
    assert_eq!(schemas[0].name, "describe");
    assert_eq!(schemas[0].args.len(), 2);
    let all = build_schemas(None).unwrap();
    assert_eq!(all.len(), 16);
    assert_eq!(all.last().unwrap().name, "describe");
}

#[test]
fn specifier_words_are_whitespace_separated() {
    let schemas = build_schemas(Some("  vault \t search ")).unwrap();
    assert_eq!(schemas[0].name, "vault search");
    assert_eq!(build_schemas(Some("a b c")).unwrap_err(), "invalid subcommand specifier: a b c");
    assert_eq!(build_schemas(Some("read")).unwrap_err(), "unknown subcommand: read");
    assert_eq!(build_schemas(Some("read x")).unwrap_err(), "unknown noun: read");
    assert_eq!(build_schemas(Some("mcp x")).unwrap_err(), "unknown verb: x");
}

#[test]
fn describe_text_lists_arguments() {
    let schemas = build_schemas(Some("file read")).unwrap();
    assert_eq!(
        describe_text(&schemas),
        "file read\n  Read a file and output its contents\n  <path> (required)\n  --format [default: raw]\n\n"
    );
}

#[test]
fn noun_schemas_are_the_full_list_filtered() {
    let all = build_schemas(None).unwrap();
    for n in ["file", "note", "vault", "appearance", "mcp", "describe"] {
        let prefix = format!("{n} ");
        let expected: Vec<_> = all.iter().filter(|s| s.name == n || s.name.starts_with(&prefix)).cloned().collect();
        assert_eq!(build_schemas(Some(n)).unwrap(), expected, "{n}");
    }
}

#[test]
fn arg_schema_skips_help_version_and_vault() {
    for id in ["help", "version", "vault"] {
        assert!(arg_schema_of(id, false, true, Some(id), None, None, false).is_none(), "{id}");
    }
}

#[test]
fn arg_schema_names_and_kinds() {
    let p = arg_schema_of("path", true, false, None, None, Some("Note path"), true).unwrap();
    assert_eq!((p.name.as_str(), p.kind.as_str(), p.required), ("path", "positional", true));
    assert_eq!(p.description.as_deref(), Some("Note path"));
    let f = arg_schema_of("dry_run", false, true, Some("dry-run"), None, None, false).unwrap();
    assert_eq!((f.name.as_str(), f.kind.as_str()), ("dry-run", "flag"));
    let o = arg_schema_of("format", false, false, None, Some("json"), None, false).unwrap();
    assert_eq!((o.name.as_str(), o.kind.as_str(), o.default.as_deref()), ("format", "option", Some("json")));
}

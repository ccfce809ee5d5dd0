use unify::cli::{is_explicit_config, Cli};
use unify::config::{
    base_layers, cli_to_partial, default_global_config_content, default_project_config_content,
    detect_languages, finish_layers, find_project_config, language_indicators, languages_to_apply,
    needs_defaults_note, CodeBlockLang, Config, ConfigError, OutputFormat, PartialConfig,
};

fn strings(v: &[&str]) -> Vec<String> {
    v.iter().map(|s| s.to_string()).collect()
}

fn cli() -> Cli {
    Cli {
        command: None,
        output: None,
        config: ".unify.toml".to_string(),
        dir: None,
        language: None,
        max_size: None,
        follow_symlinks: false,
        format: None,
        dry_run: false,
        paths: Vec::new(),
    }
}

#[test]
fn format_names_and_aliases() {
    assert_eq!(OutputFormat::from_str_loose("plain").unwrap(), OutputFormat::Plain);
    assert_eq!(OutputFormat::from_str_loose("TXT").unwrap(), OutputFormat::Plain);
    assert_eq!(OutputFormat::from_str_loose("text").unwrap(), OutputFormat::Plain);
    assert_eq!(OutputFormat::from_str_loose("Markdown").unwrap(), OutputFormat::Markdown);
    assert_eq!(OutputFormat::from_str_loose("md").unwrap(), OutputFormat::Markdown);
    assert_eq!(OutputFormat::from_str_loose("XML").unwrap(), OutputFormat::Xml);
    assert_eq!(OutputFormat::from_str_loose("json").unwrap(), OutputFormat::Json);
}

#[test]
fn unknown_format_is_refused_with_lowercased_name() {
    match OutputFormat::from_str_loose("YAML") {
        Err(ConfigError::UnknownFormat(name)) => assert_eq!(name, "yaml"),
        other => panic!("unexpected {:?}", other),
    }
}

#[test]
fn config_error_messages() {
    let e = OutputFormat::from_str_loose("yaml").unwrap_err();
    assert_eq!(e.message(), "Unknown output format: 'yaml'. Use: plain, markdown, xml, json");
    let e = OutputFormat::from_str_loose("YAML").unwrap_err();
    assert_eq!(e.message(), "Unknown output format: 'yaml'. Use: plain, markdown, xml, json");
    let mut p = PartialConfig::default();
    p.max_file_size = Some("lots".to_string());
    let e = Config::from_partial(p).unwrap_err();
    assert_eq!(e.message(), "Invalid max_file_size: 'lots'. Use e.g. '512KB', '2MB'");
}

#[test]
fn merge_overrides_replaces_and_appends() {
    let mut base = PartialConfig::default();
    base.ignores = Some(strings(&["a/"]));
    base.extra_ignores = Some(strings(&["x"]));
    base.output = Some("one.txt".to_string());
    base.toc = Some(false);
    let mut top = PartialConfig::default();
    top.ignores = Some(strings(&["b/"]));
    top.extra_ignores = Some(strings(&["y"]));
    top.toc = Some(true);
    base.merge(&top);
    assert_eq!(base.ignores, Some(strings(&["b/"])));
    assert_eq!(base.extra_ignores, Some(strings(&["x", "y"])));
    assert_eq!(base.output.as_deref(), Some("one.txt"));
    assert_eq!(base.toc, Some(true));
}

#[test]
fn merge_with_empty_layer_changes_nothing() {
    let mut a = PartialConfig::default();
    a.language = Some(strings(&["rust"]));
    a.extra_ignores = Some(strings(&["z"]));
    a.merge(&PartialConfig::default());
    assert_eq!(a.language, Some(strings(&["rust"])));
    assert_eq!(a.extra_ignores, Some(strings(&["z"])));
    assert!(a.ignores.is_none());
}

#[test]
fn merge_is_associative_on_example() {
    let mut a = PartialConfig::default();
    a.extra_ignores = Some(strings(&["1"]));
    let mut b = PartialConfig::default();
    b.extra_ignores = Some(strings(&["2"]));
    b.output = Some("b".to_string());
    let mut c = PartialConfig::default();
    c.extra_ignores = Some(strings(&["3"]));
    let mut left = a.copy();
    left.merge(&b);
    left.merge(&c);
    let mut bc = b.copy();
    bc.merge(&c);
    let mut right = a.copy();
    right.merge(&bc);
    assert_eq!(left.extra_ignores, right.extra_ignores);
    assert_eq!(left.output, right.output);
}

#[test]
fn resolve_applies_format_aware_defaults() {
    let c = Config::from_partial(PartialConfig::default()).unwrap();
    assert_eq!(c.format, OutputFormat::Plain);
    assert_eq!(c.header_template, "// File: {relative_path}\n");
    assert_eq!(c.footer_template, "\n");
    assert_eq!(c.output, "unified.txt");
    assert!(!c.wrap_code_block && c.recursive && !c.follow_symlinks && c.skip_binary && !c.toc);
    assert!(matches!(c.code_block_lang, CodeBlockLang::Auto));
    assert_eq!(c.max_file_size, None);

    let mut p = PartialConfig::default();
    p.format = Some(OutputFormat::Markdown);
    let m = Config::from_partial(p).unwrap();
    assert_eq!(m.header_template, "\n## {relative_path}\n\n");
    assert_eq!(m.output, "unified.md");
    assert!(m.wrap_code_block);

    let mut p = PartialConfig::default();
    p.format = Some(OutputFormat::Xml);
    let x = Config::from_partial(p).unwrap();
    assert_eq!(x.footer_template, "]]>\n</file>\n\n");
    assert_eq!(x.output, "unified.xml");

    let mut p = PartialConfig::default();
    p.format = Some(OutputFormat::Json);
    let j = Config::from_partial(p).unwrap();
    assert_eq!(j.header_template, "");
    assert_eq!(j.output, "unified.json");
}

#[test]
fn resolve_joins_ignores_and_extra_ignores() {
    let mut p = PartialConfig::default();
    p.ignores = Some(strings(&[".git/"]));
    p.extra_ignores = Some(strings(&["target/", "*.log"]));
    let c = Config::from_partial(p).unwrap();
    assert_eq!(c.ignores, strings(&[".git/", "target/", "*.log"]));
}

#[test]
fn max_file_size_is_parsed() {
    let mut p = PartialConfig::default();
    p.max_file_size = Some("1MB".to_string());
    let c = Config::from_partial(p).unwrap();
    assert_eq!(c.max_file_size, Some(1_000_000));
    let mut p = PartialConfig::default();
    p.max_file_size = Some("512".to_string());
    assert_eq!(Config::from_partial(p).unwrap().max_file_size, Some(512));
}

#[test]
fn invalid_max_file_size_is_refused() {
    let mut p = PartialConfig::default();
    p.max_file_size = Some("lots".to_string());
    match Config::from_partial(p) {
        Err(ConfigError::InvalidMaxFileSize(s)) => assert_eq!(s, "lots"),
        other => panic!("unexpected {:?}", other),
    }
}

#[test]
fn cli_overrides_layer() {
    let mut c = cli();
    c.language = Some(strings(&["rust", "js"]));
    c.follow_symlinks = true;
    c.format = Some("MD".to_string());
    c.output = Some("out.md".to_string());
    let p = cli_to_partial(&c).unwrap();
    assert_eq!(p.language, Some(strings(&["rust", "js"])));
    assert_eq!(p.follow_symlinks, Some(true));
    assert_eq!(p.format, Some(OutputFormat::Markdown));
    assert_eq!(p.output.as_deref(), Some("out.md"));
    assert!(p.ignores.is_none() && p.max_file_size.is_none());

    let mut bad = cli();
    bad.format = Some("pdf".to_string());
    assert!(matches!(cli_to_partial(&bad), Err(ConfigError::UnknownFormat(_))));
}

#[test]
fn cli_layer_wins_over_project_and_extends() {
    let mut project = PartialConfig::default();
    project.output = Some("project.txt".to_string());
    project.ignores = Some(strings(&["p/"]));
    let mut c = cli();
    c.output = Some("cli.txt".to_string());
    let overrides = cli_to_partial(&c).unwrap();
    let merged = base_layers(&None, &Some(project), &overrides);
    assert_eq!(merged.output.as_deref(), Some("cli.txt"));
    let mut extends = PartialConfig::default();
    extends.output = Some("extends.txt".to_string());
    let done = finish_layers(merged, &Vec::new(), &vec![extends], &overrides, None);
    assert_eq!(done.output.as_deref(), Some("cli.txt"));
    assert_eq!(done.ignores, Some(strings(&["p/"])));
}

#[test]
fn language_presets_append_ignores() {
    let mut merged = PartialConfig::default();
    merged.ignores = Some(strings(&[".git/"]));
    let mut rust = PartialConfig::default();
    rust.ignores = Some(strings(&["target/"]));
    let mut py = PartialConfig::default();
    py.ignores = Some(strings(&["__pycache__/"]));
    let done = finish_layers(merged, &vec![rust, py], &Vec::new(), &PartialConfig::default(), None);
    assert_eq!(done.ignores, Some(strings(&[".git/"])));
    assert_eq!(done.extra_ignores, Some(strings(&["target/", "__pycache__/"])));
    let c = Config::from_partial(done).unwrap();
    assert_eq!(c.ignores, strings(&[".git/", "target/", "__pycache__/"]));
}

#[test]
fn output_fallback_only_when_unset() {
    let done = finish_layers(
        PartialConfig::default(),
        &Vec::new(),
        &Vec::new(),
        &PartialConfig::default(),
        Some("env.txt".to_string()),
    );
    assert_eq!(done.output.as_deref(), Some("env.txt"));
    let mut set = PartialConfig::default();
    set.output = Some("mine.txt".to_string());
    let done = finish_layers(set, &Vec::new(), &Vec::new(), &PartialConfig::default(), Some("env.txt".to_string()));
    assert_eq!(done.output.as_deref(), Some("mine.txt"));
}

#[test]
fn configured_languages_take_precedence_over_detection() {
    let mut m = PartialConfig::default();
    m.language = Some(strings(&["go"]));
    assert_eq!(languages_to_apply(&m, &strings(&["rust"])), strings(&["go"]));
    m.language = Some(Vec::new());
    assert_eq!(languages_to_apply(&m, &strings(&["rust"])), strings(&["rust"]));
    assert_eq!(languages_to_apply(&PartialConfig::default(), &Vec::new()), Vec::<String>::new());
}

#[test]
fn detection_deduplicates_in_indicator_order() {
    let table = language_indicators();
    let mut found = vec![false; table.len()];
    let pos = |name: &str| table.iter().position(|(f, _)| *f == name).unwrap();
    found[pos("setup.py")] = true;
    found[pos("pyproject.toml")] = true;
    found[pos("Cargo.toml")] = true;
    found[pos("Makefile")] = true;
    assert_eq!(detect_languages(&found, true), strings(&["rust", "python", "c", "csharp"]));
    assert_eq!(detect_languages(&vec![false; table.len()], false), Vec::<String>::new());
}

#[test]
fn nearest_existing_config_is_found() {
    let cands = strings(&["/a/b/.unify.toml", "/a/.unify.toml", "/.unify.toml"]);
    assert_eq!(find_project_config(&cands, &vec![false, true, true]).as_deref(), Some("/a/.unify.toml"));
    assert_eq!(find_project_config(&cands, &vec![false, false, false]), None);
}

#[test]
fn explicit_config_detection() {
    let mut c = cli();
    assert!(!is_explicit_config(&c));
    c.config = "other.toml".to_string();
    assert!(is_explicit_config(&c));
    c.config = ".unify.toml/".to_string();
    assert!(!is_explicit_config(&c));
    c.config = "sub/.unify.toml".to_string();
    assert!(is_explicit_config(&c));
}

#[test]
fn defaults_note_condition() {
    assert!(needs_defaults_note(false, &PartialConfig::default(), &Vec::new()));
    assert!(!needs_defaults_note(true, &PartialConfig::default(), &Vec::new()));
    assert!(!needs_defaults_note(false, &PartialConfig::default(), &strings(&["rust"])));
}

#[test]
fn project_config_template() {
    let text = default_project_config_content(&strings(&["rust", "python"]));
    assert!(text.starts_with("language = [\"rust\", \"python\"]\n\nignores = [\n"));
    assert!(text.ends_with("# footer_template = \"\\n\"\n"));
    let bare = default_project_config_content(&Vec::new());
    assert!(bare.starts_with("\nignores = ["));
    let parsed: Vec<&str> = text.lines().collect();
    assert_eq!(parsed[0], "language = [\"rust\", \"python\"]");
    assert_eq!(parsed[parsed.len() - 2], "header_template = \"// File: {relative_path}\\n\"");
}

#[test]
fn global_config_template() {
    let text = default_global_config_content();
    assert!(text.starts_with("# Unify global configuration\n"));
    assert!(text.ends_with("header_template = \"// File: {relative_path}\\n\"\n"));
}

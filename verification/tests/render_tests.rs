use unify::config::{CodeBlockLang, Config, OutputFormat, PartialConfig};
use unify::paths::{file_name_extension, path_extension};
use unify::render::{
    anchor_for, estimate_tokens, expand_template, fence_for_content, generate_toc, json_records,
    render_text_output, resolve_code_lang, FileInfo,
};

fn file(rel: &str, content: &str) -> FileInfo {
    FileInfo {
        path: format!("/work/{}", rel),
        relative_path: rel.to_string(),
        size: content.len() as u64,
        lines: content.lines().count(),
        content: content.to_string(),
    }
}

fn config(format: OutputFormat) -> Config {
    let mut p = PartialConfig::default();
    p.format = Some(format);
    Config::from_partial(p).unwrap()
}

#[test]
fn token_estimate() {
    assert_eq!(estimate_tokens(0), 0);
    assert_eq!(estimate_tokens(7), 1);
    assert_eq!(estimate_tokens(4000), 1000);
}

#[test]
fn fence_is_three_backticks_by_default() {
    assert_eq!(fence_for_content("fn main() {}\n"), "```");
    assert_eq!(fence_for_content(""), "```");
    assert_eq!(fence_for_content("``x``"), "```");
}

#[test]
fn fence_outgrows_content_fences() {
    assert_eq!(fence_for_content("a\n```rust\nb\n```\n"), "````");
    assert_eq!(fence_for_content("  `````\n"), "``````");
    assert_eq!(fence_for_content("x ````` y"), "```");
}

#[test]
fn extension_matches_std() {
    for p in ["a.rs", "dir/b.tar.gz", ".bashrc", "..x", "noext", "dir/", "x.", "/", "a/.."] {
        let std_ext = std::path::Path::new(p).extension().map(|e| e.to_string_lossy().into_owned());
        assert_eq!(path_extension(p), std_ext, "{}", p);
    }
    assert_eq!(file_name_extension("main.rs").as_deref(), Some("rs"));
    assert_eq!(file_name_extension(".hidden"), None);
}

#[test]
fn template_directory_and_name_of_top_level_file() {
    assert_eq!(expand_template("{dir}|{file_name}", "/w/main.rs", "main.rs", "", 0), "|main.rs");
    assert_eq!(expand_template("{dir}", "/w/a/b/c.txt", "a/b/c.txt", "", 0), "a/b");
}

#[test]
fn code_lang_strategies() {
    assert_eq!(resolve_code_lang("src/lib.rs", &CodeBlockLang::Auto), "rs");
    assert_eq!(resolve_code_lang("Makefile", &CodeBlockLang::Auto), "");
    assert_eq!(resolve_code_lang("src/lib.rs", &CodeBlockLang::NoTag), "");
    assert_eq!(resolve_code_lang("src/lib.rs", &CodeBlockLang::Custom("text".to_string())), "text");
}

#[test]
fn template_variables_are_expanded() {
    let out = expand_template(
        "{relative_path}|{file_name}|{extension}|{lines}|{dir}|{size}",
        "/work/src/main.rs",
        "src/main.rs",
        "a\nb\nc",
        2048,
    );
    assert_eq!(out, format!("src/main.rs|main.rs|rs|3|src|{}", bytesize::ByteSize(2048)));
    assert_eq!(expand_template("plain text", "/w/a", "a", "x", 1), "plain text");
}

#[test]
fn anchors_are_github_style() {
    assert_eq!(anchor_for("Src/My File.rs"), "srcmy-filers");
}

#[test]
fn markdown_toc() {
    let files = vec![file("src/a.rs", "x\n"), file("b.md", "")];
    assert_eq!(
        generate_toc(&files, OutputFormat::Markdown),
        "# Table of Contents\n\n- [src/a.rs](#srcars)\n- [b.md](#bmd)\n\n---\n"
    );
    assert_eq!(generate_toc(&files, OutputFormat::Xml), "");
}

#[test]
fn plain_toc() {
    let files = vec![file("a.txt", "one\ntwo\n")];
    let toc = generate_toc(&files, OutputFormat::Plain);
    assert_eq!(
        toc,
        format!("=== Table of Contents ===\n\n  1. a.txt ({}, 2 lines)\n\n", bytesize::ByteSize(8))
    );
}

#[test]
fn plain_document() {
    let files = vec![file("a.txt", "hello"), file("b.txt", "bye\n")];
    let out = render_text_output(&files, &config(OutputFormat::Plain));
    assert_eq!(out, "// File: a.txt\nhello\n\n// File: b.txt\nbye\n\n");
}

#[test]
fn markdown_document_with_toc_and_fences() {
    let files = vec![file("src/x.rs", "let a = 1;\n```\n")];
    let mut c = config(OutputFormat::Markdown);
    c.toc = true;
    let out = render_text_output(&files, &c);
    assert_eq!(
        out,
        "# Table of Contents\n\n- [src/x.rs](#srcxrs)\n\n---\n\n## src/x.rs\n\n````rs\nlet a = 1;\n```\n````\n\n"
    );
}

#[test]
fn empty_toc_is_left_out() {
    let mut c = config(OutputFormat::Markdown);
    c.toc = true;
    assert_eq!(render_text_output(&Vec::new(), &c), "");
}

#[test]
fn xml_document_escapes_cdata_end() {
    let files = vec![file("d.xml", "a]]>b")];
    let mut c = config(OutputFormat::Xml);
    c.header_template = "<file path=\"{relative_path}\">\n<![CDATA[\n".to_string();
    let out = render_text_output(&files, &c);
    assert_eq!(
        out,
        "<?xml version=\"1.0\" encoding=\"UTF-8\"?>\n<files>\n<file path=\"d.xml\">\n<![CDATA[\na]]]]><![CDATA[>b\n]]>\n</file>\n\n</files>\n"
    );
}

#[test]
fn json_records_carry_extension() {
    let files = vec![file("src/a.rs", "x\ny\n"), file("README", "r")];
    let recs = json_records(&files);
    assert_eq!(recs.len(), 2);
    assert_eq!(recs[0].path, "src/a.rs");
    assert_eq!(recs[0].extension, "rs");
    assert_eq!(recs[0].lines, 2);
    assert_eq!(recs[0].size, 4);
    assert_eq!(recs[1].extension, "");
    assert_eq!(recs[1].content, "r");
}

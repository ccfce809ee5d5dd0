//! Rendering of the unified document: code fences that cannot collide with file content,
//! template expansion, the table of contents, and the plain, markdown and XML documents.
use vstd::prelude::*;

use crate::config::{Config, ConfigModel, LangTagModel, OutputFormat, CodeBlockLang, or_default};
use crate::paths::{extension_of, parent_of, file_name_of, path_extension, path_file_name, path_parent};
use crate::sizes::{byte_size_display, byte_size_text};
use crate::text::{
    chars_of, copy_string, decimal, decimal_string, line_count, lines, lowercase, push_char,
    push_text, replace_all, replace_text, split_lines, to_lowercase, trim_start, trim_start_chars,
};

verus! {

// ---------------------------------------------------------------------------
// File info collected during the walk
// ---------------------------------------------------------------------------

/// A file to be unified.
#[derive(Debug)]
pub struct FileInfo {
    /// Path of the file as walked.
    pub path: String,
    /// Path relative to the working directory (the walked path where it is not below it).
    pub relative_path: String,
    /// Size in bytes.
    pub size: u64,
    /// Number of lines.
    pub lines: usize,
    /// Text content.
    pub content: String,
}

/// The value of a `FileInfo`.
pub struct FileModel {
    pub path: Seq<char>,
    pub relative_path: Seq<char>,
    pub size: u64,
    pub lines: usize,
    pub content: Seq<char>,
}

impl View for FileInfo {
    type V = FileModel;

    open spec fn view(&self) -> FileModel {
        FileModel {
            path: self.path@,
            relative_path: self.relative_path@,
            size: self.size,
            lines: self.lines,
            content: self.content@,
        }
    }
}

/// The values of a list of files.
pub open spec fn files_view(v: Seq<FileInfo>) -> Seq<FileModel> {
    v.map_values(|f: FileInfo| f@)
}

// ---------------------------------------------------------------------------
// Token estimate
// ---------------------------------------------------------------------------

/// Estimated token count of a text of `char_count` characters: about four characters a token.
pub fn estimate_tokens(char_count: usize) -> (r: usize)
    ensures
        r == char_count / 4,
{
    char_count / 4
}

// ---------------------------------------------------------------------------
// Fence collision handling
// ---------------------------------------------------------------------------

/// Number of backticks that begin `s`.
pub open spec fn backtick_run(s: Seq<char>) -> nat
    decreases s.len(),
{
    if s.len() > 0 && s[0] == '`' {
        1 + backtick_run(s.drop_first())
    } else {
        0
    }
}

/// Number of backticks that begin a line once its leading white space is removed.
pub open spec fn line_run(line: Seq<char>) -> nat {
    backtick_run(trim_start(line))
}

/// The longest such run over a list of lines (0 for none).
pub open spec fn max_line_run(ls: Seq<Seq<char>>) -> nat
    decreases ls.len(),
{
    if ls.len() == 0 {
        0
    } else {
        let a = max_line_run(ls.drop_last());
        let b = line_run(ls.last());
        if a >= b {
            a
        } else {
            b
        }
    }
}

/// Length of the code fence for `content`: three backticks, or one more than the longest
/// run of backticks that begins one of its lines, where that run has three or more.
pub open spec fn fence_len(content: Seq<char>) -> nat {
    let m = max_line_run(lines(content));
    if m >= 3 {
        m + 1
    } else {
        3
    }
}

/// The code fence for `content`.
pub open spec fn fence_text(content: Seq<char>) -> Seq<char> {
    Seq::new(fence_len(content), |i: int| '`')
}

proof fn lemma_max_line_run_bounds(ls: Seq<Seq<char>>, k: int)
    requires
        0 <= k < ls.len(),
    ensures
        line_run(ls[k]) <= max_line_run(ls),
    decreases ls.len(),
{
    if k < ls.len() - 1 {
        lemma_max_line_run_bounds(ls.drop_last(), k);
        assert(ls.drop_last()[k] == ls[k]);
    }
}

/// The fence never collides: it is at least three backticks long and longer than every run
/// of backticks that begins a line of the content (after its indentation) with three or more.
pub proof fn lemma_fence_is_longer(content: Seq<char>, k: int)
    requires
        0 <= k < lines(content).len(),
    ensures
        fence_len(content) >= 3,
        line_run(lines(content)[k]) >= 3 ==> line_run(lines(content)[k]) < fence_len(content),
{
    lemma_max_line_run_bounds(lines(content), k);
}

/// The number of backticks that begin `s`.
fn count_backticks(s: &[char]) -> (r: usize)
    ensures
        r == backtick_run(s@),
{
    let n = s.len();
    let mut i: usize = 0;
    assert(s@.skip(0) =~= s@);
    while i < n && s[i] == '`'
        invariant
            n == s@.len(),
            i <= n,
            backtick_run(s@) == i + backtick_run(s@.skip(i as int)),
        decreases n - i,
    {
        assert(s@.skip(i as int).drop_first() =~= s@.skip(i + 1));
        i = i + 1;
    }
    i
}

/// The code fence that safely wraps `content`.
pub fn fence_for_content(content: &str) -> (r: String)
    ensures
        r@ == fence_text(content@),
{
    let cs = chars_of(content);
    let ls = split_lines(cs.as_slice());
    let ghost all = lines(content@);
    let n = ls.len();
    let mut max_run: usize = 0;
    assert(all.take(0) =~= Seq::<Seq<char>>::empty());
    for k in 0..n
        invariant
            n == all.len(),
            cs@ == content@,
            ls@.len() == n,
            forall|j: int| 0 <= j < n ==> #[trigger] ls@[j]@ == all[j],
            max_run == max_line_run(all.take(k as int)),
    {
        let trimmed = trim_start_chars(ls[k].as_slice());
        let run = count_backticks(trimmed.as_slice());
        assert(all.take(k + 1).drop_last() =~= all.take(k as int));
        assert(all.take(k + 1).last() == all[k as int]);
        if run > max_run {
            max_run = run;
        }
    }
    assert(all.take(n as int) =~= all);
    let mut out = String::new();
    let mut i: usize = 0;
    while i < max_run || i < 3
        invariant
            i <= 3 || i <= max_run,
            out@ == Seq::new(i as nat, |j: int| '`'),
        decreases (if max_run > 3 { max_run } else { 3 }) - i,
    {
        push_char(&mut out, '`');
        assert(out@ =~= Seq::new((i + 1) as nat, |j: int| '`'));
        i = i + 1;
    }
    if max_run >= 3 {
        push_char(&mut out, '`');
        assert(out@ =~= fence_text(content@));
    } else {
        assert(out@ =~= fence_text(content@));
    }
    out
}

// ---------------------------------------------------------------------------
// Code block language
// ---------------------------------------------------------------------------

/// The language tag on the code fence of the file at `path`.
pub open spec fn code_lang(path: Seq<char>, strategy: LangTagModel) -> Seq<char> {
    match strategy {
        LangTagModel::Auto => or_default(extension_of(path), Seq::empty()),
        LangTagModel::NoTag => Seq::empty(),
        LangTagModel::Custom(l) => l,
    }
}

/// The language tag on the code fence of the file at `path`: its extension, nothing, or a
/// fixed tag.
pub fn resolve_code_lang(path: &str, strategy: &CodeBlockLang) -> (r: String)
    ensures
        r@ == code_lang(path@, strategy@),
{
    match strategy {
        CodeBlockLang::Auto => match path_extension(path) {
            Some(e) => e,
            None => String::new(),
        },
        CodeBlockLang::NoTag => String::new(),
        CodeBlockLang::Custom(lang) => copy_string(lang),
    }
}

// ---------------------------------------------------------------------------
// Template expansion
// ---------------------------------------------------------------------------

/// `template` with its variables replaced, in this order: `{relative_path}`, `{file_name}`,
/// `{extension}`, `{lines}`, `{size}`, `{dir}`. A value inserted earlier is subject to the
/// later replacements.
pub open spec fn expanded(
    template: Seq<char>,
    path: Seq<char>,
    relative: Seq<char>,
    content: Seq<char>,
    size: u64,
) -> Seq<char> {
    let t1 = replace_all(template, "{relative_path}"@, relative);
    let t2 = replace_all(t1, "{file_name}"@, or_default(file_name_of(path), Seq::empty()));
    let t3 = replace_all(t2, "{extension}"@, or_default(extension_of(path), Seq::empty()));
    let t4 = replace_all(t3, "{lines}"@, decimal(lines(content).len()));
    let t5 = replace_all(t4, "{size}"@, byte_size_text(size));
    replace_all(t5, "{dir}"@, or_default(parent_of(relative), Seq::empty()))
}

/// A template without `{` has no variables: expanding it gives it back.
pub proof fn lemma_plain_template_unchanged(
    template: Seq<char>,
    path: Seq<char>,
    relative: Seq<char>,
    content: Seq<char>,
    size: u64,
)
    requires
        forall|i: int| 0 <= i < template.len() ==> template[i] != '{',
    ensures
        expanded(template, path, relative, content, size) == template,
{
    reveal_strlit("{relative_path}");
    reveal_strlit("{file_name}");
    reveal_strlit("{extension}");
    reveal_strlit("{lines}");
    reveal_strlit("{size}");
    reveal_strlit("{dir}");
    lemma_no_brace_absent(template, "{relative_path}"@);
    crate::text::lemma_replace_absent(template, "{relative_path}"@, relative);
    lemma_no_brace_absent(template, "{file_name}"@);
    crate::text::lemma_replace_absent(
        template,
        "{file_name}"@,
        or_default(file_name_of(path), Seq::empty()),
    );
    lemma_no_brace_absent(template, "{extension}"@);
    crate::text::lemma_replace_absent(
        template,
        "{extension}"@,
        or_default(extension_of(path), Seq::empty()),
    );
    lemma_no_brace_absent(template, "{lines}"@);
    crate::text::lemma_replace_absent(template, "{lines}"@, decimal(lines(content).len()));
    lemma_no_brace_absent(template, "{size}"@);
    crate::text::lemma_replace_absent(template, "{size}"@, byte_size_text(size));
    lemma_no_brace_absent(template, "{dir}"@);
    crate::text::lemma_replace_absent(
        template,
        "{dir}"@,
        or_default(parent_of(relative), Seq::empty()),
    );
}

proof fn lemma_no_brace_absent(s: Seq<char>, pat: Seq<char>)
    requires
        forall|i: int| 0 <= i < s.len() ==> s[i] != '{',
        pat.len() > 0,
        pat[0] == '{',
    ensures
        !crate::text::contains(s, pat),
{
    assert forall|i: int| !crate::text::occurs_at(s, pat, i) by {
        if crate::text::occurs_at(s, pat, i) {
            assert(s.subrange(i, i + pat.len())[0] == s[i]);
        }
    }
}

/// Expands the template variables for the file at `path` (shown as `relative`), with the
/// given content and size.
pub fn expand_template(template: &str, path: &str, relative: &str, content: &str, size: u64) -> (r: String)
    ensures
        r@ == expanded(template@, path@, relative@, content@, size),
{
    proof {
        reveal_strlit("{relative_path}");
        reveal_strlit("{file_name}");
        reveal_strlit("{extension}");
        reveal_strlit("{lines}");
        reveal_strlit("{size}");
        reveal_strlit("{dir}");
    }
    let file_name = match path_file_name(path) {
        Some(n) => n,
        None => String::new(),
    };
    let extension = match path_extension(path) {
        Some(e) => e,
        None => String::new(),
    };
    let line_total = line_count(content);
    let line_text = decimal_string(line_total as u64);
    let size_text = byte_size_display(size);
    let dir = match path_parent(relative) {
        Some(d) => d,
        None => String::new(),
    };
    let t1 = replace_text(template, "{relative_path}", relative);
    let t2 = replace_text(t1.as_str(), "{file_name}", file_name.as_str());
    let t3 = replace_text(t2.as_str(), "{extension}", extension.as_str());
    let t4 = replace_text(t3.as_str(), "{lines}", line_text.as_str());
    let t5 = replace_text(t4.as_str(), "{size}", size_text.as_str());
    replace_text(t5.as_str(), "{dir}", dir.as_str())
}

// ---------------------------------------------------------------------------
// Table of contents
// ---------------------------------------------------------------------------

/// The markdown anchor of a relative path (GitHub style): lowercased, `/` and `.` removed,
/// spaces made `-`.
pub open spec fn anchor_of(relative: Seq<char>) -> Seq<char> {
    replace_all(
        replace_all(replace_all(lowercase(relative), "/"@, Seq::empty()), "."@, Seq::empty()),
        " "@,
        "-"@,
    )
}

/// One markdown table-of-contents entry.
pub open spec fn markdown_toc_entry(f: FileModel) -> Seq<char> {
    "- ["@ + f.relative_path + "](#"@ + anchor_of(f.relative_path) + ")\n"@
}

/// One plain table-of-contents entry, numbered `number`.
pub open spec fn plain_toc_entry(number: nat, f: FileModel) -> Seq<char> {
    "  "@ + decimal(number) + ". "@ + f.relative_path + " ("@ + byte_size_text(f.size) + ", "@
        + decimal(f.lines as nat) + " lines)\n"@
}

/// The markdown entries of a list of files.
pub open spec fn markdown_toc_entries(files: Seq<FileModel>) -> Seq<char>
    decreases files.len(),
{
    if files.len() == 0 {
        Seq::empty()
    } else {
        markdown_toc_entries(files.drop_last()) + markdown_toc_entry(files.last())
    }
}

/// The plain entries of a list of files, numbered from 1.
pub open spec fn plain_toc_entries(files: Seq<FileModel>) -> Seq<char>
    decreases files.len(),
{
    if files.len() == 0 {
        Seq::empty()
    } else {
        plain_toc_entries(files.drop_last()) + plain_toc_entry(files.len(), files.last())
    }
}

/// The table of contents for `files` in `format`; XML and JSON have none.
pub open spec fn toc_text(files: Seq<FileModel>, format: OutputFormat) -> Seq<char> {
    match format {
        OutputFormat::Markdown => "# Table of Contents\n\n"@ + markdown_toc_entries(files)
            + "\n---\n"@,
        OutputFormat::Plain => "=== Table of Contents ===\n\n"@ + plain_toc_entries(files) + "\n"@,
        _ => Seq::empty(),
    }
}

/// The markdown anchor of a relative path.
pub fn anchor_for(relative: &str) -> (r: String)
    ensures
        r@ == anchor_of(relative@),
{
    proof {
        reveal_strlit("/");
        reveal_strlit(".");
        reveal_strlit(" ");
        reveal_strlit("");
        assert(""@ =~= Seq::<char>::empty());
    }
    let lower = to_lowercase(relative);
    let a = replace_text(lower.as_str(), "/", "");
    let b = replace_text(a.as_str(), ".", "");
    replace_text(b.as_str(), " ", "-")
}

/// The table of contents for `files` in `format`.
pub fn generate_toc(files: &Vec<FileInfo>, format: OutputFormat) -> (r: String)
    ensures
        r@ == toc_text(files_view(files@), format),
{
    let ghost fs = files_view(files@);
    let n = files.len();
    match format {
        OutputFormat::Markdown => {
            let mut toc = String::new();
            push_text(&mut toc, "# Table of Contents\n\n");
            let ghost start = toc@;
            assert(fs.take(0) =~= Seq::<FileModel>::empty());
            for i in 0..n
                invariant
                    n == fs.len(),
                    fs == files_view(files@),
                    toc@ == start + markdown_toc_entries(fs.take(i as int)),
            {
                let f = &files[i];
                push_text(&mut toc, "- [");
                push_text(&mut toc, f.relative_path.as_str());
                push_text(&mut toc, "](#");
                let anchor = anchor_for(f.relative_path.as_str());
                push_text(&mut toc, anchor.as_str());
                push_text(&mut toc, ")\n");
                proof {
                    assert(fs.take(i + 1).drop_last() =~= fs.take(i as int));
                    assert(fs.take(i + 1).last() == f@);
                    assert(toc@ =~= start + markdown_toc_entries(fs.take(i + 1)));
                }
            }
            assert(fs.take(n as int) =~= fs);
            push_text(&mut toc, "\n---\n");
            assert(toc@ =~= toc_text(fs, format));
            toc
        },
        OutputFormat::Plain => {
            let mut toc = String::new();
            push_text(&mut toc, "=== Table of Contents ===\n\n");
            let ghost start = toc@;
            assert(fs.take(0) =~= Seq::<FileModel>::empty());
            for i in 0..n
                invariant
                    n == fs.len(),
                    fs == files_view(files@),
                    toc@ == start + plain_toc_entries(fs.take(i as int)),
            {
                let f = &files[i];
                push_text(&mut toc, "  ");
                let number = decimal_string((i + 1) as u64);
                push_text(&mut toc, number.as_str());
                push_text(&mut toc, ". ");
                push_text(&mut toc, f.relative_path.as_str());
                push_text(&mut toc, " (");
                let size_text = byte_size_display(f.size);
                push_text(&mut toc, size_text.as_str());
                push_text(&mut toc, ", ");
                let line_text = decimal_string(f.lines as u64);
                push_text(&mut toc, line_text.as_str());
                push_text(&mut toc, " lines)\n");
                proof {
                    assert(fs.take(i + 1).drop_last() =~= fs.take(i as int));
                    assert(fs.take(i + 1).last() == f@);
                    assert(fs.take(i + 1).len() == i + 1);
                    assert(toc@ =~= start + plain_toc_entries(fs.take(i + 1)));
                }
            }
            assert(fs.take(n as int) =~= fs);
            push_text(&mut toc, "\n");
            assert(toc@ =~= toc_text(fs, format));
            toc
        },
        _ => String::new(),
    }
}

// ---------------------------------------------------------------------------
// Documents
// ---------------------------------------------------------------------------

/// A newline where the text does not already end with one.
pub open spec fn newline_if_needed(s: Seq<char>) -> Seq<char> {
    if s.len() > 0 && s.last() == '\n' {
        Seq::empty()
    } else {
        seq!['\n']
    }
}

/// The body of a file in a plain or markdown document: the content, in a code fence
/// where wrapping is on, always ending with a newline.
pub open spec fn text_body(f: FileModel, c: ConfigModel) -> Seq<char> {
    if c.wrap_code_block {
        let fence = fence_text(f.content);
        fence + code_lang(f.path, c.code_block_lang) + seq!['\n'] + f.content + newline_if_needed(
            f.content,
        ) + fence + seq!['\n']
    } else {
        f.content + newline_if_needed(f.content)
    }
}

/// The section of one file in a plain or markdown document: header, body, footer.
pub open spec fn text_section(f: FileModel, c: ConfigModel) -> Seq<char> {
    expanded(c.header_template, f.path, f.relative_path, f.content, f.size) + text_body(f, c)
        + expanded(c.footer_template, f.path, f.relative_path, f.content, f.size)
}

/// The content as it stands inside CDATA: every `]]>` split across two CDATA sections.
pub open spec fn cdata_safe(content: Seq<char>) -> Seq<char> {
    replace_all(content, "]]>"@, "]]]]><![CDATA[>"@)
}

/// The section of one file in an XML document.
pub open spec fn xml_section(f: FileModel, c: ConfigModel) -> Seq<char> {
    let safe = cdata_safe(f.content);
    expanded(c.header_template, f.path, f.relative_path, f.content, f.size) + safe
        + newline_if_needed(safe) + expanded(
        c.footer_template,
        f.path,
        f.relative_path,
        f.content,
        f.size,
    )
}

/// The section of one file in the configured document format.
pub open spec fn section(f: FileModel, c: ConfigModel) -> Seq<char> {
    if c.format == OutputFormat::Xml {
        xml_section(f, c)
    } else {
        text_section(f, c)
    }
}

/// The sections of a list of files, in order.
pub open spec fn sections(files: Seq<FileModel>, c: ConfigModel) -> Seq<char>
    decreases files.len(),
{
    if files.len() == 0 {
        Seq::empty()
    } else {
        sections(files.drop_last(), c) + section(files.last(), c)
    }
}

/// The opening of an XML document.
pub open spec fn xml_prologue() -> Seq<char> {
    "<?xml version=\"1.0\" encoding=\"UTF-8\"?>\n<files>\n"@
}

/// The document for `files`: XML wrapped in `<files>`, or plain/markdown with the table of
/// contents first where it is asked for and there are files.
pub open spec fn rendered_text(files: Seq<FileModel>, c: ConfigModel) -> Seq<char> {
    if c.format == OutputFormat::Xml {
        xml_prologue() + sections(files, c) + "</files>\n"@
    } else if c.toc && files.len() > 0 {
        toc_text(files, c.format) + sections(files, c)
    } else {
        sections(files, c)
    }
}

/// The sections of two lists of files, one after the other, are the sections of the joined
/// list: each file has its own section, in file order.
pub proof fn lemma_sections_concat(a: Seq<FileModel>, b: Seq<FileModel>, c: ConfigModel)
    ensures
        sections(a + b, c) == sections(a, c) + sections(b, c),
    decreases b.len(),
{
    if b.len() == 0 {
        assert(a + b =~= a);
        assert(sections(a, c) + sections(b, c) =~= sections(a, c));
    } else {
        lemma_sections_concat(a, b.drop_last(), c);
        assert((a + b).drop_last() =~= a + b.drop_last());
        assert((a + b).last() == b.last());
        assert(sections(a + b, c) =~= sections(a, c) + sections(b, c));
    }
}

/// The body of a file in a plain or markdown document always ends with a newline.
pub proof fn lemma_text_body_ends_with_newline(f: FileModel, c: ConfigModel)
    ensures
        text_body(f, c).len() > 0 && text_body(f, c).last() == '\n',
{
    let nl = newline_if_needed(f.content);
    assert((f.content + nl).len() > 0 && (f.content + nl).last() == '\n') by {
        if f.content.len() > 0 && f.content.last() == '\n' {
            assert(f.content + nl =~= f.content);
        }
    }
}

/// The layout of a document: XML wraps the sections in `<files>`; a plain or markdown
/// document begins with its table of contents where one is asked for and there are files,
/// and is the sections alone otherwise.
pub proof fn lemma_document_layout(files: Seq<FileModel>, c: ConfigModel)
    ensures
        c.format == OutputFormat::Xml ==> rendered_text(files, c)
            == "<?xml version=\"1.0\" encoding=\"UTF-8\"?>\n<files>\n"@ + sections(files, c) + "</files>\n"@,
        c.format == OutputFormat::Plain && c.toc && files.len() > 0 ==> rendered_text(files, c)
            == "=== Table of Contents ===\n\n"@ + plain_toc_entries(files) + "\n"@ + sections(files, c),
        c.format == OutputFormat::Markdown && c.toc && files.len() > 0 ==> rendered_text(files, c)
            == "# Table of Contents\n\n"@ + markdown_toc_entries(files) + "\n---\n"@ + sections(files, c),
        c.format != OutputFormat::Xml && !(c.toc && files.len() > 0) ==> rendered_text(files, c) == sections(files, c),
{
}

/// A plain table of contents lists every file once, in order, numbered from 1: it is the
/// entries for all files but the last, then the last file's entry with the number of files.
pub proof fn lemma_plain_toc_numbering(files: Seq<FileModel>, f: FileModel)
    ensures
        plain_toc_entries(files.push(f)) == plain_toc_entries(files) + "  "@ + decimal((files.len() + 1) as nat)
            + ". "@ + f.relative_path + " ("@ + byte_size_text(f.size) + ", "@ + decimal(f.lines as nat)
            + " lines)\n"@,
{
    assert(files.push(f).drop_last() =~= files);
    let e = plain_toc_entry((files.len() + 1) as nat, f);
    assert(plain_toc_entries(files) + e =~= plain_toc_entries(files) + "  "@ + decimal((files.len() + 1) as nat)
            + ". "@ + f.relative_path + " ("@ + byte_size_text(f.size) + ", "@ + decimal(f.lines as nat)
            + " lines)\n"@);
}

/// Appends a newline to `out` where `s` does not end with one.
fn push_newline_if_needed(out: &mut String, s: &str)
    ensures
        final(out)@ == old(out)@ + newline_if_needed(s@),
{
    let cs = chars_of(s);
    let n = cs.len();
    if n > 0 && cs[n - 1] == '\n' {
        assert(old(out)@ + newline_if_needed(s@) =~= old(out)@);
    } else {
        push_char(out, '\n');
    }
}

/// Appends the section of file `f` to `out`.
fn push_section(out: &mut String, f: &FileInfo, config: &Config)
    ensures
        final(out)@ == old(out)@ + section(f@, config@),
{
    let header = expand_template(
        config.header_template.as_str(),
        f.path.as_str(),
        f.relative_path.as_str(),
        f.content.as_str(),
        f.size,
    );
    let footer = expand_template(
        config.footer_template.as_str(),
        f.path.as_str(),
        f.relative_path.as_str(),
        f.content.as_str(),
        f.size,
    );
    push_text(out, header.as_str());
    let ghost after_header = out@;
    match config.format {
        OutputFormat::Xml => {
            proof {
                reveal_strlit("]]>");
            }
            let safe = replace_text(f.content.as_str(), "]]>", "]]]]><![CDATA[>");
            push_text(out, safe.as_str());
            push_newline_if_needed(out, safe.as_str());
        },
        _ => {
            if config.wrap_code_block {
                let fence = fence_for_content(f.content.as_str());
                let lang = resolve_code_lang(f.path.as_str(), &config.code_block_lang);
                push_text(out, fence.as_str());
                push_text(out, lang.as_str());
                push_char(out, '\n');
                push_text(out, f.content.as_str());
                push_newline_if_needed(out, f.content.as_str());
                push_text(out, fence.as_str());
                push_char(out, '\n');
            } else {
                push_text(out, f.content.as_str());
                push_newline_if_needed(out, f.content.as_str());
            }
        },
    }
    push_text(out, footer.as_str());
    proof {
        assert(out@ =~= old(out)@ + section(f@, config@));
    }
}

/// The plain, markdown or XML document for `files` (JSON documents are written from
/// `json_records`).
pub fn render_text_output(files: &Vec<FileInfo>, config: &Config) -> (r: String)
    ensures
        r@ == rendered_text(files_view(files@), config@),
{
    let ghost fs = files_view(files@);
    let mut out = String::new();
    match config.format {
        OutputFormat::Xml => {
            push_text(&mut out, "<?xml version=\"1.0\" encoding=\"UTF-8\"?>\n<files>\n");
        },
        _ => {
            if config.toc && files.len() > 0 {
                let toc = generate_toc(files, config.format);
                push_text(&mut out, toc.as_str());
            }
        },
    }
    let ghost start = out@;
    let n = files.len();
    assert(fs.take(0) =~= Seq::<FileModel>::empty());
    for i in 0..n
        invariant
            n == fs.len(),
            fs == files_view(files@),
            out@ == start + sections(fs.take(i as int), config@),
    {
        push_section(&mut out, &files[i], config);
        proof {
            assert(fs.take(i + 1).drop_last() =~= fs.take(i as int));
            assert(fs.take(i + 1).last() == files@[i as int]@);
            assert(out@ =~= start + sections(fs.take(i + 1), config@));
        }
    }
    assert(fs.take(n as int) =~= fs);
    match config.format {
        OutputFormat::Xml => {
            push_text(&mut out, "</files>\n");
        },
        _ => {},
    }
    assert(out@ =~= rendered_text(fs, config@));
    out
}

// ---------------------------------------------------------------------------
// JSON records
// ---------------------------------------------------------------------------

/// One file of a JSON document.
#[derive(Debug)]
pub struct JsonRecord {
    pub path: String,
    pub extension: String,
    pub lines: usize,
    pub size: u64,
    pub content: String,
}

/// The record of one file: its relative path, the extension of that path (or empty), its
/// line count, size and content.
pub open spec fn record_matches(r: JsonRecord, f: FileModel) -> bool {
    &&& r.path@ == f.relative_path
    &&& r.extension@ == or_default(extension_of(f.relative_path), Seq::empty())
    &&& r.lines == f.lines
    &&& r.size == f.size
    &&& r.content@ == f.content
}

/// The records of a JSON document, one for each file in order.
pub fn json_records(files: &Vec<FileInfo>) -> (r: Vec<JsonRecord>)
    ensures
        r@.len() == files@.len(),
        forall|i: int| 0 <= i < r@.len() ==> record_matches(#[trigger] r@[i], files@[i]@),
{
    let n = files.len();
    let mut out: Vec<JsonRecord> = Vec::new();
    for i in 0..n
        invariant
            n == files@.len(),
            out@.len() == i,
            forall|j: int| 0 <= j < i ==> record_matches(#[trigger] out@[j], files@[j]@),
    {
        let f = &files[i];
        let extension = match path_extension(f.relative_path.as_str()) {
            Some(e) => e,
            None => String::new(),
        };
        out.push(
            JsonRecord {
                path: copy_string(&f.relative_path),
                extension,
                lines: f.lines,
                size: f.size,
                content: copy_string(&f.content),
            },
        );
    }
    out
}

} // verus!

//! Layered configuration: partial layers (every field optional), their merge, and the
//! resolution of the merged layer into a concrete configuration with format-aware defaults.
use vstd::prelude::*;

use crate::cli::Cli;
use crate::sizes::{byte_size_parse, parse_byte_size};
use crate::text::{copy_string, copy_strings, lowercase, push_text, same_text, to_lowercase};

verus! {

// ---------------------------------------------------------------------------
// Output format
// ---------------------------------------------------------------------------

/// The document format that files are joined into.
#[derive(Debug, Clone, Copy, PartialEq, Eq, Structural)]
pub enum OutputFormat {
    Plain,
    Markdown,
    Xml,
    Json,
}

impl Default for OutputFormat {
    fn default() -> (r: Self)
        ensures
            r == OutputFormat::Plain,
    {
        OutputFormat::Plain
    }
}

/// Errors in configuration values.
#[derive(Debug)]
pub enum ConfigError {
    /// An output format name that is not known; holds the lowercased name.
    UnknownFormat(String),
    /// A `max_file_size` that does not parse as a byte size; holds the text.
    InvalidMaxFileSize(String),
}

/// The message for a configuration error.
pub open spec fn config_error_text(e: ConfigError) -> Seq<char> {
    match e {
        ConfigError::UnknownFormat(name) => "Unknown output format: '"@ + name@
            + "'. Use: plain, markdown, xml, json"@,
        ConfigError::InvalidMaxFileSize(s) => "Invalid max_file_size: '"@ + s@
            + "'. Use e.g. '512KB', '2MB'"@,
    }
}

impl ConfigError {
    /// The message for this error.
    pub fn message(&self) -> (r: String)
        ensures
            r@ == config_error_text(*self),
    {
        let mut out = String::new();
        match self {
            ConfigError::UnknownFormat(name) => {
                push_text(&mut out, "Unknown output format: '");
                push_text(&mut out, name.as_str());
                push_text(&mut out, "'. Use: plain, markdown, xml, json");
            },
            ConfigError::InvalidMaxFileSize(s) => {
                push_text(&mut out, "Invalid max_file_size: '");
                push_text(&mut out, s.as_str());
                push_text(&mut out, "'. Use e.g. '512KB', '2MB'");
            },
        }
        out
    }
}

/// The format named by an already lowercased name, with its accepted aliases.
pub open spec fn format_for_name(l: Seq<char>) -> Option<OutputFormat> {
    if l == "plain"@ || l == "txt"@ || l == "text"@ {
        Some(OutputFormat::Plain)
    } else if l == "markdown"@ || l == "md"@ {
        Some(OutputFormat::Markdown)
    } else if l == "xml"@ {
        Some(OutputFormat::Xml)
    } else if l == "json"@ {
        Some(OutputFormat::Json)
    } else {
        None
    }
}

/// The format named by `lower`, a name already lowercased; unknown names are refused.
pub fn format_from_lowercase(lower: &str) -> (r: Result<OutputFormat, ConfigError>)
    ensures
        format_for_name(lower@) matches Some(f) ==> r == Ok::<OutputFormat, ConfigError>(f),
        format_for_name(lower@) is None ==> (r matches Err(ConfigError::UnknownFormat(t)) && t@
            == lower@),
{
    if same_text(lower, "plain") || same_text(lower, "txt") || same_text(lower, "text") {
        Ok(OutputFormat::Plain)
    } else if same_text(lower, "markdown") || same_text(lower, "md") {
        Ok(OutputFormat::Markdown)
    } else if same_text(lower, "xml") {
        Ok(OutputFormat::Xml)
    } else if same_text(lower, "json") {
        Ok(OutputFormat::Json)
    } else {
        Err(ConfigError::UnknownFormat(lower.to_string()))
    }
}

impl OutputFormat {
    /// The format named by `s`, compared case-insensitively (after Unicode lowercasing).
    pub fn from_str_loose(s: &str) -> (r: Result<OutputFormat, ConfigError>)
        ensures
            format_for_name(lowercase(s@)) matches Some(f) ==> r == Ok::<
                OutputFormat,
                ConfigError,
            >(f),
            format_for_name(lowercase(s@)) is None ==> (r matches Err(
                ConfigError::UnknownFormat(t),
            ) && t@ == lowercase(s@)),
    {
        let lower = to_lowercase(s);
        format_from_lowercase(lower.as_str())
    }
}

// ---------------------------------------------------------------------------
// Code block language strategy
// ---------------------------------------------------------------------------

/// How the language tag of a code fence is chosen.
#[derive(Debug)]
pub enum CodeBlockLang {
    /// Use the file extension as the language tag.
    Auto,
    /// No language tag on code fences (configured as "none").
    NoTag,
    /// Force a specific language tag.
    Custom(String),
}

/// The value of a `CodeBlockLang`.
pub enum LangTagModel {
    Auto,
    NoTag,
    Custom(Seq<char>),
}

impl View for CodeBlockLang {
    type V = LangTagModel;

    open spec fn view(&self) -> LangTagModel {
        match self {
            CodeBlockLang::Auto => LangTagModel::Auto,
            CodeBlockLang::NoTag => LangTagModel::NoTag,
            CodeBlockLang::Custom(s) => LangTagModel::Custom(s@),
        }
    }
}

impl Default for CodeBlockLang {
    fn default() -> (r: Self)
        ensures
            r@ == LangTagModel::Auto,
    {
        CodeBlockLang::Auto
    }
}

impl CodeBlockLang {
    /// An owned copy.
    pub fn copy(&self) -> (r: CodeBlockLang)
        ensures
            r@ == self@,
    {
        match self {
            CodeBlockLang::Auto => CodeBlockLang::Auto,
            CodeBlockLang::NoTag => CodeBlockLang::NoTag,
            CodeBlockLang::Custom(s) => CodeBlockLang::Custom(copy_string(s)),
        }
    }
}

/// The value of an optional strategy.
pub open spec fn lang_opt(o: Option<CodeBlockLang>) -> Option<LangTagModel> {
    match o {
        Some(c) => Some(c@),
        None => None,
    }
}

// ---------------------------------------------------------------------------
// Partial config (layerable: all fields optional)
// ---------------------------------------------------------------------------

/// One configuration layer. `None` means "not set by this layer".
#[derive(Debug)]
pub struct PartialConfig {
    /// Languages to load presets for.
    pub language: Option<Vec<String>>,
    /// Named presets to extend from.
    pub extends: Option<Vec<String>>,
    /// Include patterns (whitelist). If set, only matching files are considered.
    pub includes: Option<Vec<String>>,
    /// Ignore patterns (gitignore-style). Replaces the previous layer's ignores.
    pub ignores: Option<Vec<String>>,
    /// Additional ignore patterns. Always appended, never replaced.
    pub extra_ignores: Option<Vec<String>>,
    pub recursive: Option<bool>,
    pub follow_symlinks: Option<bool>,
    pub skip_binary: Option<bool>,
    pub max_file_size: Option<String>,
    pub header_template: Option<String>,
    pub footer_template: Option<String>,
    pub output: Option<String>,
    pub format: Option<OutputFormat>,
    pub wrap_code_block: Option<bool>,
    pub code_block_lang: Option<CodeBlockLang>,
    pub toc: Option<bool>,
}

/// The value of a configuration layer.
#[verifier::ext_equal]
pub struct PartialModel {
    pub language: Option<Seq<Seq<char>>>,
    pub extends: Option<Seq<Seq<char>>>,
    pub includes: Option<Seq<Seq<char>>>,
    pub ignores: Option<Seq<Seq<char>>>,
    pub extra_ignores: Option<Seq<Seq<char>>>,
    pub recursive: Option<bool>,
    pub follow_symlinks: Option<bool>,
    pub skip_binary: Option<bool>,
    pub max_file_size: Option<Seq<char>>,
    pub header_template: Option<Seq<char>>,
    pub footer_template: Option<Seq<char>>,
    pub output: Option<Seq<char>>,
    pub format: Option<OutputFormat>,
    pub wrap_code_block: Option<bool>,
    pub code_block_lang: Option<LangTagModel>,
    pub toc: Option<bool>,
}

impl View for PartialConfig {
    type V = PartialModel;

    open spec fn view(&self) -> PartialModel {
        PartialModel {
            language: self.language.deep_view(),
            extends: self.extends.deep_view(),
            includes: self.includes.deep_view(),
            ignores: self.ignores.deep_view(),
            extra_ignores: self.extra_ignores.deep_view(),
            recursive: self.recursive,
            follow_symlinks: self.follow_symlinks,
            skip_binary: self.skip_binary,
            max_file_size: self.max_file_size.deep_view(),
            header_template: self.header_template.deep_view(),
            footer_template: self.footer_template.deep_view(),
            output: self.output.deep_view(),
            format: self.format,
            wrap_code_block: self.wrap_code_block,
            code_block_lang: lang_opt(self.code_block_lang),
            toc: self.toc,
        }
    }
}

/// The layer that sets nothing.
pub open spec fn empty_layer() -> PartialModel {
    PartialModel {
        language: None,
        extends: None,
        includes: None,
        ignores: None,
        extra_ignores: None,
        recursive: None,
        follow_symlinks: None,
        skip_binary: None,
        max_file_size: None,
        header_template: None,
        footer_template: None,
        output: None,
        format: None,
        wrap_code_block: None,
        code_block_lang: None,
        toc: None,
    }
}

/// A field of an upper layer replaces the lower one's where it is set.
pub open spec fn override_value<T>(lower: Option<T>, upper: Option<T>) -> Option<T> {
    if upper is Some {
        upper
    } else {
        lower
    }
}

/// A list field of an upper layer is appended to the lower one's where it is set.
pub open spec fn append_values(
    lower: Option<Seq<Seq<char>>>,
    upper: Option<Seq<Seq<char>>>,
) -> Option<Seq<Seq<char>>> {
    match upper {
        Some(e) => Some(
            match lower {
                Some(l) => l + e,
                None => e,
            },
        ),
        None => lower,
    }
}

/// `upper` laid over `lower`: every field that `upper` sets wins, except `extra_ignores`,
/// which accumulates.
pub open spec fn merge_layers(lower: PartialModel, upper: PartialModel) -> PartialModel {
    PartialModel {
        language: override_value(lower.language, upper.language),
        extends: override_value(lower.extends, upper.extends),
        includes: override_value(lower.includes, upper.includes),
        ignores: override_value(lower.ignores, upper.ignores),
        extra_ignores: append_values(lower.extra_ignores, upper.extra_ignores),
        recursive: override_value(lower.recursive, upper.recursive),
        follow_symlinks: override_value(lower.follow_symlinks, upper.follow_symlinks),
        skip_binary: override_value(lower.skip_binary, upper.skip_binary),
        max_file_size: override_value(lower.max_file_size, upper.max_file_size),
        header_template: override_value(lower.header_template, upper.header_template),
        footer_template: override_value(lower.footer_template, upper.footer_template),
        output: override_value(lower.output, upper.output),
        format: override_value(lower.format, upper.format),
        wrap_code_block: override_value(lower.wrap_code_block, upper.wrap_code_block),
        code_block_lang: override_value(lower.code_block_lang, upper.code_block_lang),
        toc: override_value(lower.toc, upper.toc),
    }
}

/// Merging lays `upper` over `lower` field by field: every field that `upper` sets is the
/// merged value and every field it leaves unset keeps `lower`'s, except `extra_ignores`,
/// where `upper`'s entries are appended after `lower`'s.
pub proof fn lemma_merge_fields(lower: PartialModel, upper: PartialModel)
    ensures
        ({
            let m = merge_layers(lower, upper);
            &&& upper.language is Some ==> m.language == upper.language
            &&& upper.language is None ==> m.language == lower.language
            &&& upper.extends is Some ==> m.extends == upper.extends
            &&& upper.extends is None ==> m.extends == lower.extends
            &&& upper.includes is Some ==> m.includes == upper.includes
            &&& upper.includes is None ==> m.includes == lower.includes
            &&& upper.ignores is Some ==> m.ignores == upper.ignores
            &&& upper.ignores is None ==> m.ignores == lower.ignores
            &&& upper.recursive is Some ==> m.recursive == upper.recursive
            &&& upper.recursive is None ==> m.recursive == lower.recursive
            &&& upper.follow_symlinks is Some ==> m.follow_symlinks == upper.follow_symlinks
            &&& upper.follow_symlinks is None ==> m.follow_symlinks == lower.follow_symlinks
            &&& upper.skip_binary is Some ==> m.skip_binary == upper.skip_binary
            &&& upper.skip_binary is None ==> m.skip_binary == lower.skip_binary
            &&& upper.max_file_size is Some ==> m.max_file_size == upper.max_file_size
            &&& upper.max_file_size is None ==> m.max_file_size == lower.max_file_size
            &&& upper.header_template is Some ==> m.header_template == upper.header_template
            &&& upper.header_template is None ==> m.header_template == lower.header_template
            &&& upper.footer_template is Some ==> m.footer_template == upper.footer_template
            &&& upper.footer_template is None ==> m.footer_template == lower.footer_template
            &&& upper.output is Some ==> m.output == upper.output
            &&& upper.output is None ==> m.output == lower.output
            &&& upper.format is Some ==> m.format == upper.format
            &&& upper.format is None ==> m.format == lower.format
            &&& upper.wrap_code_block is Some ==> m.wrap_code_block == upper.wrap_code_block
            &&& upper.wrap_code_block is None ==> m.wrap_code_block == lower.wrap_code_block
            &&& upper.code_block_lang is Some ==> m.code_block_lang == upper.code_block_lang
            &&& upper.code_block_lang is None ==> m.code_block_lang == lower.code_block_lang
            &&& upper.toc is Some ==> m.toc == upper.toc
            &&& upper.toc is None ==> m.toc == lower.toc
            &&& upper.extra_ignores is None ==> m.extra_ignores == lower.extra_ignores
            &&& (lower.extra_ignores, upper.extra_ignores) matches (Some(l), Some(u)) ==> m.extra_ignores == Some(l + u)
            &&& (lower.extra_ignores, upper.extra_ignores) matches (None, Some(u)) ==> m.extra_ignores == Some(u)
        }),
{
}

/// Laying the empty layer over a layer changes nothing.
pub proof fn lemma_merge_empty_upper(a: PartialModel)
    ensures
        merge_layers(a, empty_layer()) == a,
{
    assert(merge_layers(a, empty_layer()) =~= a);
}

/// Laying a layer over the empty layer gives that layer.
pub proof fn lemma_merge_empty_lower(b: PartialModel)
    ensures
        merge_layers(empty_layer(), b) == b,
{
    assert(merge_layers(empty_layer(), b) =~= b);
}

/// Layering is associative: merging `b` then `c` onto `a` equals merging onto `a` the
/// merge of `c` onto `b`.
pub proof fn lemma_merge_associative(a: PartialModel, b: PartialModel, c: PartialModel)
    ensures
        merge_layers(merge_layers(a, b), c) == merge_layers(a, merge_layers(b, c)),
{
    let l = merge_layers(merge_layers(a, b), c);
    let r = merge_layers(a, merge_layers(b, c));
    lemma_append_associative(a.extra_ignores, b.extra_ignores, c.extra_ignores);
    assert(l =~= r);
}

proof fn lemma_append_associative(
    x: Option<Seq<Seq<char>>>,
    y: Option<Seq<Seq<char>>>,
    z: Option<Seq<Seq<char>>>,
)
    ensures
        append_values(append_values(x, y), z) == append_values(x, append_values(y, z)),
{
    if x is Some && y is Some && z is Some {
        assert((x->0 + y->0) + z->0 =~= x->0 + (y->0 + z->0));
    }
}

/// An owned copy of an optional list of strings.
pub fn copy_opt_strings(o: &Option<Vec<String>>) -> (r: Option<Vec<String>>)
    ensures
        r.deep_view() == o.deep_view(),
{
    match o {
        Some(v) => Some(copy_strings(v)),
        None => None,
    }
}

/// An owned copy of an optional string.
pub fn copy_opt_string(o: &Option<String>) -> (r: Option<String>)
    ensures
        r.deep_view() == o.deep_view(),
{
    match o {
        Some(s) => Some(copy_string(s)),
        None => None,
    }
}

/// An owned copy of an optional strategy.
pub fn copy_opt_lang(o: &Option<CodeBlockLang>) -> (r: Option<CodeBlockLang>)
    ensures
        lang_opt(r) == lang_opt(*o),
{
    match o {
        Some(c) => Some(c.copy()),
        None => None,
    }
}

/// Appends copies of the strings of `extra` to `v`.
fn append_strings(v: &mut Vec<String>, extra: &Vec<String>)
    ensures
        final(v).deep_view() == old(v).deep_view() + extra.deep_view(),
{
    let n = extra.len();
    let ghost start = v.deep_view();
    for i in 0..n
        invariant
            n == extra@.len(),
            v.deep_view() == start + extra.deep_view().take(i as int),
    {
        let ghost before = v.deep_view();
        v.push(copy_string(&extra[i]));
        assert(v.deep_view() =~= before.push(extra@[i as int]@));
        assert(extra.deep_view().take(i + 1) =~= extra.deep_view().take(i as int).push(
            extra@[i as int]@,
        ));
    }
    assert(extra.deep_view().take(n as int) =~= extra.deep_view());
}

impl Default for PartialConfig {
    fn default() -> (r: Self)
        ensures
            r@ == empty_layer(),
    {
        PartialConfig {
            language: None,
            extends: None,
            includes: None,
            ignores: None,
            extra_ignores: None,
            recursive: None,
            follow_symlinks: None,
            skip_binary: None,
            max_file_size: None,
            header_template: None,
            footer_template: None,
            output: None,
            format: None,
            wrap_code_block: None,
            code_block_lang: None,
            toc: None,
        }
    }
}

impl PartialConfig {
    /// An owned copy of the layer.
    pub fn copy(&self) -> (r: PartialConfig)
        ensures
            r@ == self@,
    {
        PartialConfig {
            language: copy_opt_strings(&self.language),
            extends: copy_opt_strings(&self.extends),
            includes: copy_opt_strings(&self.includes),
            ignores: copy_opt_strings(&self.ignores),
            extra_ignores: copy_opt_strings(&self.extra_ignores),
            recursive: self.recursive,
            follow_symlinks: self.follow_symlinks,
            skip_binary: self.skip_binary,
            max_file_size: copy_opt_string(&self.max_file_size),
            header_template: copy_opt_string(&self.header_template),
            footer_template: copy_opt_string(&self.footer_template),
            output: copy_opt_string(&self.output),
            format: self.format,
            wrap_code_block: self.wrap_code_block,
            code_block_lang: copy_opt_lang(&self.code_block_lang),
            toc: self.toc,
        }
    }

    /// Merge `other` on top of `self`. Fields in `other` take precedence; `ignores` is
    /// replaced as a whole, `extra_ignores` is appended to.
    pub fn merge(&mut self, other: &PartialConfig)
        ensures
            final(self)@ == merge_layers(old(self)@, other@),
    {
        let merged = PartialConfig {
            language: pick_strings(&self.language, &other.language),
            extends: pick_strings(&self.extends, &other.extends),
            includes: pick_strings(&self.includes, &other.includes),
            // `ignores` replaces entirely
            ignores: pick_strings(&self.ignores, &other.ignores),
            // `extra_ignores` always appends
            extra_ignores: append_opt_strings(&self.extra_ignores, &other.extra_ignores),
            recursive: pick_flag(self.recursive, other.recursive),
            follow_symlinks: pick_flag(self.follow_symlinks, other.follow_symlinks),
            skip_binary: pick_flag(self.skip_binary, other.skip_binary),
            max_file_size: pick_string(&self.max_file_size, &other.max_file_size),
            header_template: pick_string(&self.header_template, &other.header_template),
            footer_template: pick_string(&self.footer_template, &other.footer_template),
            output: pick_string(&self.output, &other.output),
            format: if other.format.is_some() {
                other.format
            } else {
                self.format
            },
            wrap_code_block: pick_flag(self.wrap_code_block, other.wrap_code_block),
            code_block_lang: pick_lang(&self.code_block_lang, &other.code_block_lang),
            toc: pick_flag(self.toc, other.toc),
        };
        *self = merged;
        proof {
            assert(self@ =~= merge_layers(old(self)@, other@));
        }
    }
}

fn pick_strings(lower: &Option<Vec<String>>, upper: &Option<Vec<String>>) -> (r: Option<
    Vec<String>,
>)
    ensures
        r.deep_view() == override_value(lower.deep_view(), upper.deep_view()),
{
    if upper.is_some() {
        copy_opt_strings(upper)
    } else {
        copy_opt_strings(lower)
    }
}

fn pick_string(lower: &Option<String>, upper: &Option<String>) -> (r: Option<String>)
    ensures
        r.deep_view() == override_value(lower.deep_view(), upper.deep_view()),
{
    if upper.is_some() {
        copy_opt_string(upper)
    } else {
        copy_opt_string(lower)
    }
}

fn pick_flag(lower: Option<bool>, upper: Option<bool>) -> (r: Option<bool>)
    ensures
        r == override_value(lower, upper),
{
    if upper.is_some() {
        upper
    } else {
        lower
    }
}

fn pick_lang(lower: &Option<CodeBlockLang>, upper: &Option<CodeBlockLang>) -> (r: Option<
    CodeBlockLang,
>)
    ensures
        lang_opt(r) == override_value(lang_opt(*lower), lang_opt(*upper)),
{
    if upper.is_some() {
        copy_opt_lang(upper)
    } else {
        copy_opt_lang(lower)
    }
}

fn append_opt_strings(lower: &Option<Vec<String>>, upper: &Option<Vec<String>>) -> (r: Option<
    Vec<String>,
>)
    ensures
        r.deep_view() == append_values(lower.deep_view(), upper.deep_view()),
{
    match upper {
        Some(extra) => {
            let mut current = match lower {
                Some(v) => copy_strings(v),
                None => Vec::new(),
            };
            proof {
                if lower is None {
                    assert(current.deep_view() =~= Seq::<Seq<char>>::empty());
                }
            }
            append_strings(&mut current, extra);
            proof {
                if lower is None {
                    assert(current.deep_view() =~= extra.deep_view());
                }
            }
            Some(current)
        },
        None => copy_opt_strings(lower),
    }
}

// ---------------------------------------------------------------------------
// Resolved config (all fields have concrete values)
// ---------------------------------------------------------------------------

/// A fully resolved configuration.
#[derive(Debug)]
pub struct Config {
    pub includes: Vec<String>,
    pub ignores: Vec<String>,
    pub recursive: bool,
    pub follow_symlinks: bool,
    pub skip_binary: bool,
    /// Largest file size to include, in bytes.
    pub max_file_size: Option<u64>,
    pub header_template: String,
    pub footer_template: String,
    pub output: String,
    pub format: OutputFormat,
    pub wrap_code_block: bool,
    pub code_block_lang: CodeBlockLang,
    pub toc: bool,
}

/// The value of a resolved configuration.
#[verifier::ext_equal]
pub struct ConfigModel {
    pub includes: Seq<Seq<char>>,
    pub ignores: Seq<Seq<char>>,
    pub recursive: bool,
    pub follow_symlinks: bool,
    pub skip_binary: bool,
    pub max_file_size: Option<u64>,
    pub header_template: Seq<char>,
    pub footer_template: Seq<char>,
    pub output: Seq<char>,
    pub format: OutputFormat,
    pub wrap_code_block: bool,
    pub code_block_lang: LangTagModel,
    pub toc: bool,
}

impl View for Config {
    type V = ConfigModel;

    open spec fn view(&self) -> ConfigModel {
        ConfigModel {
            includes: self.includes.deep_view(),
            ignores: self.ignores.deep_view(),
            recursive: self.recursive,
            follow_symlinks: self.follow_symlinks,
            skip_binary: self.skip_binary,
            max_file_size: self.max_file_size,
            header_template: self.header_template@,
            footer_template: self.footer_template@,
            output: self.output@,
            format: self.format,
            wrap_code_block: self.wrap_code_block,
            code_block_lang: self.code_block_lang@,
            toc: self.toc,
        }
    }
}

/// The header template used when none is configured.
pub open spec fn default_header(f: OutputFormat) -> Seq<char> {
    match f {
        OutputFormat::Plain => "// File: {relative_path}\n"@,
        OutputFormat::Markdown => "\n## {relative_path}\n\n"@,
        OutputFormat::Xml => "<file path=\"{relative_path}\" lines=\"{lines}\" size=\"{size}\">\n<![CDATA[\n"@,
        OutputFormat::Json => Seq::<char>::empty(),
    }
}

/// The footer template used when none is configured.
pub open spec fn default_footer(f: OutputFormat) -> Seq<char> {
    match f {
        OutputFormat::Plain => "\n"@,
        OutputFormat::Markdown => "\n"@,
        OutputFormat::Xml => "]]>\n</file>\n\n"@,
        OutputFormat::Json => Seq::<char>::empty(),
    }
}

/// Whether files are wrapped in code fences when this is not configured.
pub open spec fn default_wrap(f: OutputFormat) -> bool {
    f == OutputFormat::Markdown
}

/// The output file used when none is configured.
pub open spec fn default_output(f: OutputFormat) -> Seq<char> {
    match f {
        OutputFormat::Plain => "unified.txt"@,
        OutputFormat::Markdown => "unified.md"@,
        OutputFormat::Xml => "unified.xml"@,
        OutputFormat::Json => "unified.json"@,
    }
}

/// The value of an optional field, or a default.
pub open spec fn or_default<T>(o: Option<T>, d: T) -> T {
    match o {
        Some(v) => v,
        None => d,
    }
}

/// The configuration that the merged layer `p` resolves to, given the parsed maximum size.
pub open spec fn resolved(p: PartialModel, max_file_size: Option<u64>) -> ConfigModel {
    let format = or_default(p.format, OutputFormat::Plain);
    ConfigModel {
        includes: or_default(p.includes, Seq::empty()),
        ignores: or_default(p.ignores, Seq::empty()) + or_default(p.extra_ignores, Seq::empty()),
        recursive: or_default(p.recursive, true),
        follow_symlinks: or_default(p.follow_symlinks, false),
        skip_binary: or_default(p.skip_binary, true),
        max_file_size,
        header_template: or_default(p.header_template, default_header(format)),
        footer_template: or_default(p.footer_template, default_footer(format)),
        output: or_default(p.output, default_output(format)),
        format,
        wrap_code_block: or_default(p.wrap_code_block, default_wrap(format)),
        code_block_lang: or_default(p.code_block_lang, LangTagModel::Auto),
        toc: or_default(p.toc, false),
    }
}

/// Resolving keeps every configured value and fills each unset field with its default:
/// no includes, no ignores, recursive, symlinks not followed, binaries skipped, plain
/// format, no table of contents, automatic fence tags, and the header, footer, output file
/// and fence wrapping of the format; `ignores` is followed by `extra_ignores`.
pub proof fn lemma_resolved_fields(p: PartialModel, max_file_size: Option<u64>)
    ensures
        ({
            let c = resolved(p, max_file_size);
            &&& p.includes matches Some(v) ==> c.includes == v
            &&& p.includes is None ==> c.includes == Seq::<Seq<char>>::empty()
            &&& (p.ignores, p.extra_ignores) matches (Some(a), Some(b)) ==> c.ignores == a + b
            &&& (p.ignores, p.extra_ignores) matches (Some(a), None) ==> c.ignores == a
            &&& (p.ignores, p.extra_ignores) matches (None, Some(b)) ==> c.ignores == b
            &&& (p.ignores, p.extra_ignores) matches (None, None) ==> c.ignores == Seq::<Seq<char>>::empty()
            &&& p.recursive matches Some(b) ==> c.recursive == b
            &&& p.recursive is None ==> c.recursive
            &&& p.follow_symlinks matches Some(b) ==> c.follow_symlinks == b
            &&& p.follow_symlinks is None ==> !c.follow_symlinks
            &&& p.skip_binary matches Some(b) ==> c.skip_binary == b
            &&& p.skip_binary is None ==> c.skip_binary
            &&& c.max_file_size == max_file_size
            &&& p.format matches Some(f) ==> c.format == f
            &&& p.format is None ==> c.format == OutputFormat::Plain
            &&& p.toc matches Some(b) ==> c.toc == b
            &&& p.toc is None ==> !c.toc
            &&& p.code_block_lang matches Some(l) ==> c.code_block_lang == l
            &&& p.code_block_lang is None ==> c.code_block_lang == LangTagModel::Auto
            &&& p.header_template matches Some(t) ==> c.header_template == t
            &&& p.footer_template matches Some(t) ==> c.footer_template == t
            &&& p.output matches Some(o) ==> c.output == o
            &&& p.wrap_code_block matches Some(w) ==> c.wrap_code_block == w
            &&& p.wrap_code_block is None ==> c.wrap_code_block == (c.format == OutputFormat::Markdown)
            &&& c.format == OutputFormat::Plain ==> {
                &&& p.header_template is None ==> c.header_template == "// File: {relative_path}\n"@
                &&& p.footer_template is None ==> c.footer_template == "\n"@
                &&& p.output is None ==> c.output == "unified.txt"@
            }
            &&& c.format == OutputFormat::Markdown ==> {
                &&& p.header_template is None ==> c.header_template == "\n## {relative_path}\n\n"@
                &&& p.footer_template is None ==> c.footer_template == "\n"@
                &&& p.output is None ==> c.output == "unified.md"@
            }
            &&& c.format == OutputFormat::Xml ==> {
                &&& p.header_template is None ==> c.header_template
                    == "<file path=\"{relative_path}\" lines=\"{lines}\" size=\"{size}\">\n<![CDATA[\n"@
                &&& p.footer_template is None ==> c.footer_template == "]]>\n</file>\n\n"@
                &&& p.output is None ==> c.output == "unified.xml"@
            }
            &&& c.format == OutputFormat::Json ==> {
                &&& p.header_template is None ==> c.header_template == Seq::<char>::empty()
                &&& p.footer_template is None ==> c.footer_template == Seq::<char>::empty()
                &&& p.output is None ==> c.output == "unified.json"@
            }
        }),
{
    let c = resolved(p, max_file_size);
    if p.ignores is None {
        if let Some(b) = p.extra_ignores {
            assert(Seq::<Seq<char>>::empty() + b =~= b);
        } else {
            assert(Seq::<Seq<char>>::empty() + Seq::<Seq<char>>::empty() =~= Seq::<Seq<char>>::empty());
        }
    } else if p.extra_ignores is None {
        assert(p.ignores->0 + Seq::<Seq<char>>::empty() =~= p.ignores->0);
    }
}

fn take_strings(o: Option<Vec<String>>) -> (r: Vec<String>)
    ensures
        r.deep_view() == or_default(o.deep_view(), Seq::empty()),
{
    match o {
        Some(v) => v,
        None => {
            let v: Vec<String> = Vec::new();
            assert(v.deep_view() =~= Seq::<Seq<char>>::empty());
            v
        },
    }
}

fn take_string(o: Option<String>, d: String) -> (r: String)
    ensures
        r@ == or_default(o.deep_view(), d@),
{
    match o {
        Some(s) => s,
        None => d,
    }
}

impl Config {
    /// Resolves the merged layer `partial`, whose maximum size parsed to `max_file_size`,
    /// into a concrete configuration, applying format-aware defaults.
    pub fn resolve(partial: PartialConfig, max_file_size: Option<u64>) -> (r: Config)
        ensures
            r@ == resolved(partial@, max_file_size),
    {
        let ghost p = partial@;
        let format = match partial.format {
            Some(f) => f,
            None => OutputFormat::Plain,
        };
        let (default_header, default_footer, default_wrap, default_output) = match format {
            OutputFormat::Plain => (
                "// File: {relative_path}\n".to_string(),
                "\n".to_string(),
                false,
                "unified.txt".to_string(),
            ),
            OutputFormat::Markdown => (
                "\n## {relative_path}\n\n".to_string(),
                "\n".to_string(),
                true,
                "unified.md".to_string(),
            ),
            OutputFormat::Xml => (
                "<file path=\"{relative_path}\" lines=\"{lines}\" size=\"{size}\">\n<![CDATA[\n".to_string(),
                "]]>\n</file>\n\n".to_string(),
                false,
                "unified.xml".to_string(),
            ),
            OutputFormat::Json => (String::new(), String::new(), false, "unified.json".to_string()),
        };
        let mut ignores = take_strings(partial.ignores);
        let extra = take_strings(partial.extra_ignores);
        append_strings(&mut ignores, &extra);
        let code_block_lang = match partial.code_block_lang {
            Some(c) => c,
            None => CodeBlockLang::Auto,
        };
        let r = Config {
            includes: take_strings(partial.includes),
            ignores,
            recursive: match partial.recursive {
                Some(b) => b,
                None => true,
            },
            follow_symlinks: match partial.follow_symlinks {
                Some(b) => b,
                None => false,
            },
            skip_binary: match partial.skip_binary {
                Some(b) => b,
                None => true,
            },
            max_file_size,
            header_template: take_string(partial.header_template, default_header),
            footer_template: take_string(partial.footer_template, default_footer),
            output: take_string(partial.output, default_output),
            format,
            wrap_code_block: match partial.wrap_code_block {
                Some(b) => b,
                None => default_wrap,
            },
            code_block_lang,
            toc: match partial.toc {
                Some(b) => b,
                None => false,
            },
        };
        assert(r@ =~= resolved(p, max_file_size));
        r
    }

    /// Resolves the merged layer `partial` into a concrete configuration; a
    /// `max_file_size` that is not a byte size is refused.
    pub fn from_partial(partial: PartialConfig) -> (r: Result<Config, ConfigError>)
        ensures
            partial@.max_file_size is None ==> (r matches Ok(c) && c@ == resolved(partial@, None)),
            partial@.max_file_size matches Some(s) ==> match byte_size_parse(s) {
                Some(n) => r matches Ok(c) && c@ == resolved(partial@, Some(n)),
                None => r matches Err(ConfigError::InvalidMaxFileSize(t)) && t@ == s,
            },
    {
        let max_file_size = match &partial.max_file_size {
            Some(s) => {
                match parse_byte_size(s.as_str()) {
                    Some(n) => Some(n),
                    None => {
                        return Err(ConfigError::InvalidMaxFileSize(copy_string(s)));
                    },
                }
            },
            None => None,
        };
        Ok(Config::resolve(partial, max_file_size))
    }
}

// ---------------------------------------------------------------------------
// Layer resolution
// ---------------------------------------------------------------------------

/// The layer that the command line forms, given its arguments.
pub open spec fn cli_layer(cli: Cli) -> PartialModel {
    PartialModel {
        language: cli.language.deep_view(),
        max_file_size: cli.max_size.deep_view(),
        follow_symlinks: if cli.follow_symlinks {
            Some(true)
        } else {
            None
        },
        output: cli.output.deep_view(),
        format: match cli.format {
            Some(f) => format_for_name(lowercase(f@)),
            None => None,
        },
        ..empty_layer()
    }
}

/// Whether the command line names an output format that is not known.
pub open spec fn cli_format_unknown(cli: Cli) -> bool {
    cli.format matches Some(f) && format_for_name(lowercase(f@)) is None
}

/// The command-line overrides as a configuration layer; an unknown `--format` is refused.
pub fn cli_to_partial(cli: &Cli) -> (r: Result<PartialConfig, ConfigError>)
    ensures
        !cli_format_unknown(*cli) ==> (r matches Ok(p) && p@ == cli_layer(*cli)),
        cli_format_unknown(*cli) ==> (r matches Err(ConfigError::UnknownFormat(t)) && t@
            == lowercase(cli.format->0@)),
{
    let mut p = PartialConfig::default();
    if cli.language.is_some() {
        p.language = copy_opt_strings(&cli.language);
    }
    if cli.max_size.is_some() {
        p.max_file_size = copy_opt_string(&cli.max_size);
    }
    if cli.follow_symlinks {
        p.follow_symlinks = Some(true);
    }
    if cli.output.is_some() {
        p.output = copy_opt_string(&cli.output);
    }
    match &cli.format {
        Some(fmt) => {
            match OutputFormat::from_str_loose(fmt.as_str()) {
                Ok(f) => {
                    p.format = Some(f);
                },
                Err(e) => {
                    return Err(e);
                },
            }
        },
        None => {},
    }
    assert(p@ =~= cli_layer(*cli));
    Ok(p)
}

/// The optional layer's value, the empty layer where there is none.
pub open spec fn layer_or_empty(o: Option<PartialConfig>) -> PartialModel {
    match o {
        Some(p) => p@,
        None => empty_layer(),
    }
}

/// Global config, then project config, then command-line overrides, each laid over the
/// built-in defaults (the empty layer).
pub fn base_layers(
    global: &Option<PartialConfig>,
    project: &Option<PartialConfig>,
    cli_overrides: &PartialConfig,
) -> (r: PartialConfig)
    ensures
        r@ == merge_layers(
            merge_layers(merge_layers(empty_layer(), layer_or_empty(*global)), layer_or_empty(*project)),
            cli_overrides@,
        ),
{
    let mut merged = PartialConfig::default();
    match global {
        Some(g) => merged.merge(g),
        None => {
            proof {
                lemma_merge_empty_upper(empty_layer());
            }
        },
    }
    match project {
        Some(p) => merged.merge(p),
        None => {
            proof {
                lemma_merge_empty_upper(merged@);
            }
        },
    }
    merged.merge(cli_overrides);
    merged
}

/// The languages whose presets apply: the configured ones, or the detected ones where
/// none are configured.
pub fn languages_to_apply(merged: &PartialConfig, detected: &Vec<String>) -> (r: Vec<String>)
    ensures
        or_default(merged@.language, Seq::empty()).len() > 0 ==> r.deep_view() == or_default(
            merged@.language,
            Seq::empty(),
        ),
        or_default(merged@.language, Seq::empty()).len() == 0 ==> r.deep_view()
            == detected.deep_view(),
{
    match &merged.language {
        Some(l) => {
            if l.len() > 0 {
                return copy_strings(l);
            }
        },
        None => {},
    }
    copy_strings(detected)
}

/// The layer that a language preset contributes: its ignores, appended as extra ignores.
pub open spec fn preset_ignores_layer(preset: PartialModel) -> PartialModel {
    PartialModel { extra_ignores: preset.ignores, ..empty_layer() }
}

/// `base` with each language preset's ignores appended in turn.
pub open spec fn with_language_presets(base: PartialModel, presets: Seq<PartialModel>) -> PartialModel
    decreases presets.len(),
{
    if presets.len() == 0 {
        base
    } else {
        merge_layers(
            with_language_presets(base, presets.drop_last()),
            preset_ignores_layer(presets.last()),
        )
    }
}

/// `base` with each layer merged on top in turn.
pub open spec fn with_layers(base: PartialModel, layers: Seq<PartialModel>) -> PartialModel
    decreases layers.len(),
{
    if layers.len() == 0 {
        base
    } else {
        merge_layers(with_layers(base, layers.drop_last()), layers.last())
    }
}

/// The values of a list of layers.
pub open spec fn layer_values(v: Seq<PartialConfig>) -> Seq<PartialModel> {
    v.map_values(|p: PartialConfig| p@)
}

/// The `UNIFY_OUTPUT` fallback: used only where no layer set an output.
pub open spec fn with_output_fallback(m: PartialModel, env_output: Option<Seq<char>>) -> PartialModel {
    if m.output is None && env_output is Some {
        PartialModel { output: env_output, ..m }
    } else {
        m
    }
}

/// The final merged layer: language presets' ignores appended, `extends` presets merged,
/// the command-line overrides laid on top again so that they keep the highest priority,
/// then the output fallback.
pub open spec fn finished_layers(
    merged: PartialModel,
    language_presets: Seq<PartialModel>,
    extends_presets: Seq<PartialModel>,
    cli_overrides: PartialModel,
    env_output: Option<Seq<char>>,
) -> PartialModel {
    with_output_fallback(
        merge_layers(
            with_layers(with_language_presets(merged, language_presets), extends_presets),
            cli_overrides,
        ),
        env_output,
    )
}

/// Completes the layering of `merged` (see `finished_layers`).
pub fn finish_layers(
    merged: PartialConfig,
    language_presets: &Vec<PartialConfig>,
    extends_presets: &Vec<PartialConfig>,
    cli_overrides: &PartialConfig,
    env_output: Option<String>,
) -> (r: PartialConfig)
    ensures
        r@ == finished_layers(
            merged@,
            layer_values(language_presets@),
            layer_values(extends_presets@),
            cli_overrides@,
            env_output.deep_view(),
        ),
{
    let mut m = merged;
    let ghost base = m@;
    let n = language_presets.len();
    for i in 0..n
        invariant
            n == language_presets@.len(),
            m@ == with_language_presets(base, layer_values(language_presets@).take(i as int)),
    {
        let mut adapted = PartialConfig::default();
        adapted.extra_ignores = copy_opt_strings(&language_presets[i].ignores);
        assert(adapted@ =~= preset_ignores_layer(language_presets@[i as int]@));
        m.merge(&adapted);
        assert(layer_values(language_presets@).take(i + 1).drop_last() =~= layer_values(
            language_presets@,
        ).take(i as int));
    }
    assert(layer_values(language_presets@).take(n as int) =~= layer_values(language_presets@));
    let ghost after_languages = m@;
    let k = extends_presets.len();
    for i in 0..k
        invariant
            k == extends_presets@.len(),
            m@ == with_layers(after_languages, layer_values(extends_presets@).take(i as int)),
    {
        m.merge(&extends_presets[i]);
        assert(layer_values(extends_presets@).take(i + 1).drop_last() =~= layer_values(
            extends_presets@,
        ).take(i as int));
    }
    assert(layer_values(extends_presets@).take(k as int) =~= layer_values(extends_presets@));
    m.merge(cli_overrides);
    if m.output.is_none() {
        match env_output {
            Some(o) => {
                m.output = Some(o);
            },
            None => {},
        }
    }
    proof {
        let ghost goal = finished_layers(
            base,
            layer_values(language_presets@),
            layer_values(extends_presets@),
            cli_overrides@,
            env_output.deep_view(),
        );
        assert(m@ =~= goal);
    }
    m
}

/// The command line has the highest priority: every field that the command-line layer
/// sets holds its value in the finished layer, whatever the other layers set.
pub proof fn lemma_cli_overrides_win(
    merged: PartialModel,
    language_presets: Seq<PartialModel>,
    extends_presets: Seq<PartialModel>,
    cli_overrides: PartialModel,
    env_output: Option<Seq<char>>,
)
    ensures
        ({
            let f = finished_layers(merged, language_presets, extends_presets, cli_overrides, env_output);
            &&& cli_overrides.language is Some ==> f.language == cli_overrides.language
            &&& cli_overrides.max_file_size is Some ==> f.max_file_size == cli_overrides.max_file_size
            &&& cli_overrides.follow_symlinks is Some ==> f.follow_symlinks == cli_overrides.follow_symlinks
            &&& cli_overrides.output is Some ==> f.output == cli_overrides.output
            &&& cli_overrides.format is Some ==> f.format == cli_overrides.format
            &&& cli_overrides.ignores is Some ==> f.ignores == cli_overrides.ignores
            &&& cli_overrides.includes is Some ==> f.includes == cli_overrides.includes
        }),
{
}

/// Language presets never replace configured patterns: they leave `ignores` as it was and
/// only append to `extra_ignores`.
pub proof fn lemma_language_presets_keep_ignores(base: PartialModel, presets: Seq<PartialModel>)
    ensures
        with_language_presets(base, presets).ignores == base.ignores,
        with_language_presets(base, presets).language == base.language,
        with_language_presets(base, presets).output == base.output,
    decreases presets.len(),
{
    if presets.len() > 0 {
        lemma_language_presets_keep_ignores(base, presets.drop_last());
    }
}

/// Whether to tell the user that built-in defaults are in use: no project config, no
/// ignore patterns and no languages.
pub fn needs_defaults_note(has_project_config: bool, merged: &PartialConfig, languages: &Vec<String>) -> (r: bool)
    ensures
        r == (!has_project_config && merged@.ignores is None && languages@.len() == 0),
{
    !has_project_config && merged.ignores.is_none() && languages.len() == 0
}

// ---------------------------------------------------------------------------
// Auto-detection and config file search
// ---------------------------------------------------------------------------

/// Project files that indicate a language, in the order they are checked.
pub open spec fn indicator_table() -> Seq<(Seq<char>, Seq<char>)> {
    seq![
        ("Cargo.toml"@, "rust"@),
        ("package.json"@, "javascript"@),
        ("tsconfig.json"@, "javascript"@),
        ("pyproject.toml"@, "python"@),
        ("requirements.txt"@, "python"@),
        ("setup.py"@, "python"@),
        ("go.mod"@, "go"@),
        ("pom.xml"@, "java"@),
        ("build.gradle"@, "java"@),
        ("build.gradle.kts"@, "java"@),
        ("CMakeLists.txt"@, "c"@),
        ("Makefile"@, "c"@),
        ("composer.json"@, "php"@),
        ("Gemfile"@, "ruby"@),
        ("Package.swift"@, "swift"@),
        ("mix.exs"@, "elixir"@),
    ]
}

/// The indicator files and their languages, in the order they are checked.
pub fn language_indicators() -> (r: Vec<(&'static str, &'static str)>)
    ensures
        r@.len() == indicator_table().len(),
        forall|i: int| 0 <= i < r@.len() ==> (#[trigger] r@[i].0@, r@[i].1@) == indicator_table()[i],
{
    let r = vec![
        ("Cargo.toml", "rust"),
        ("package.json", "javascript"),
        ("tsconfig.json", "javascript"),
        ("pyproject.toml", "python"),
        ("requirements.txt", "python"),
        ("setup.py", "python"),
        ("go.mod", "go"),
        ("pom.xml", "java"),
        ("build.gradle", "java"),
        ("build.gradle.kts", "java"),
        ("CMakeLists.txt", "c"),
        ("Makefile", "c"),
        ("composer.json", "php"),
        ("Gemfile", "ruby"),
        ("Package.swift", "swift"),
        ("mix.exs", "elixir"),
    ];
    r
}

/// The languages indicated by the first `found.len()` indicators, where `found[i]` tells
/// whether indicator `i` exists: in indicator order, each language once.
pub open spec fn indicated_languages(found: Seq<bool>) -> Seq<Seq<char>>
    decreases found.len(),
{
    if found.len() == 0 {
        Seq::empty()
    } else {
        let rest = indicated_languages(found.drop_last());
        let lang = indicator_table()[found.len() - 1].1;
        if found.last() && !rest.contains(lang) {
            rest.push(lang)
        } else {
            rest
        }
    }
}

/// The detected languages: those of the indicator files found, then C# where a `.csproj`
/// or `.sln` file was found.
pub open spec fn detected_languages(found: Seq<bool>, has_dotnet_project: bool) -> Seq<Seq<char>> {
    let langs = indicated_languages(found);
    if has_dotnet_project && !langs.contains("csharp"@) {
        langs.push("csharp"@)
    } else {
        langs
    }
}

/// Detection names each language at most once.
pub proof fn lemma_detected_languages_distinct(found: Seq<bool>, has_dotnet_project: bool)
    requires
        found.len() <= indicator_table().len(),
    ensures
        detected_languages(found, has_dotnet_project).no_duplicates(),
{
    lemma_indicated_distinct(found);
}

proof fn lemma_indicated_distinct(found: Seq<bool>)
    requires
        found.len() <= indicator_table().len(),
    ensures
        indicated_languages(found).no_duplicates(),
    decreases found.len(),
{
    if found.len() > 0 {
        lemma_indicated_distinct(found.drop_last());
    }
}

fn contains_text(v: &Vec<String>, s: &str) -> (r: bool)
    ensures
        r == v.deep_view().contains(s@),
{
    let n = v.len();
    for i in 0..n
        invariant
            n == v@.len(),
            forall|j: int| 0 <= j < i ==> v@[j]@ != s@,
    {
        if same_text(v[i].as_str(), s) {
            assert(v.deep_view()[i as int] == s@);
            return true;
        }
    }
    assert forall|j: int| 0 <= j < v.deep_view().len() implies v.deep_view()[j] != s@ by {
        assert(v.deep_view()[j] == v@[j]@);
    }
    false
}

/// Detect languages from which project files exist in the working directory: `found[i]`
/// tells whether the `i`-th file of `language_indicators()` exists, `has_dotnet_project`
/// whether a `.csproj` or `.sln` file does.
pub fn detect_languages(found: &Vec<bool>, has_dotnet_project: bool) -> (r: Vec<String>)
    requires
        found@.len() == indicator_table().len(),
    ensures
        r.deep_view() == detected_languages(found@, has_dotnet_project),
{
    let table = language_indicators();
    let n = found.len();
    let mut languages: Vec<String> = Vec::new();
    assert(found@.take(0) =~= Seq::<bool>::empty());
    assert(languages.deep_view() =~= Seq::<Seq<char>>::empty());
    for i in 0..n
        invariant
            n == found@.len(),
            n == table@.len(),
            n == indicator_table().len(),
            forall|k: int| 0 <= k < table@.len() ==> (#[trigger] table@[k].0@, table@[k].1@)
                == indicator_table()[k],
            languages.deep_view() == indicated_languages(found@.take(i as int)),
    {
        let ghost before = languages.deep_view();
        proof {
            assert(found@.take(i + 1).drop_last() =~= found@.take(i as int));
            assert(found@.take(i + 1).last() == found@[i as int]);
            assert((table@[i as int].0@, table@[i as int].1@) == indicator_table()[i as int]);
        }
        if found[i] && !contains_text(&languages, table[i].1) {
            languages.push(table[i].1.to_string());
            assert(languages.deep_view() =~= before.push(table@[i as int].1@));
        }
    }
    assert(found@.take(n as int) =~= found@);
    if has_dotnet_project && !contains_text(&languages, "csharp") {
        let ghost before = languages.deep_view();
        languages.push("csharp".to_string());
        assert(languages.deep_view() =~= before.push("csharp"@));
    }
    languages
}

/// The first candidate that exists: `candidates` are the config path in the start
/// directory and in each of its ancestors, nearest first; `exists[i]` tells whether
/// `candidates[i]` exists.
pub fn find_project_config(candidates: &Vec<String>, exists: &Vec<bool>) -> (r: Option<String>)
    requires
        exists@.len() == candidates@.len(),
    ensures
        r is None <==> forall|i: int| 0 <= i < exists@.len() ==> !exists@[i],
        r matches Some(p) ==> exists|i: int|
            0 <= i < exists@.len() && exists@[i] && p@ == candidates@[i]@ && forall|j: int|
                0 <= j < i ==> !exists@[j],
{
    let n = candidates.len();
    for i in 0..n
        invariant
            n == candidates@.len(),
            n == exists@.len(),
            forall|j: int| 0 <= j < i ==> !exists@[j],
    {
        if exists[i] {
            return Some(copy_string(&candidates[i]));
        }
    }
    None
}

// ---------------------------------------------------------------------------
// Init command helpers
// ---------------------------------------------------------------------------

/// Everything of the project config template after the optional language line.
pub const PROJECT_CONFIG_BODY: &'static str = "\nignores = [\n    # VCS and IDE\n    \".git/\",\n    \".vscode/\",\n    \".idea/\",\n\n    # Unify output\n    \"/.unify.toml\",\n    \"/README.md\",\n]\n\n# extra_ignores = [\"my-custom-dir/\"]\n# includes = [\"src/**\", \"Cargo.toml\"]\n\nrecursive = true\nfollow_symlinks = false\nskip_binary = true\n# max_file_size = \"1MB\"\n\n# format = \"plain\"  # plain, markdown, xml, json\n# output = \"unified.txt\"\n# wrap_code_block = false\n# code_block_lang = \"auto\"\n# toc = false\n\nheader_template = \"// File: {relative_path}\\n\"\n# footer_template = \"\\n\"\n";

/// The global config template.
pub const GLOBAL_CONFIG_TEXT: &'static str = "# Unify global configuration\n# Applied to all projects unless overridden by a project .unify.toml\n\n# language = [\"rust\"]\n\nignores = [\n    \".git/\",\n    \".vscode/\",\n    \".idea/\",\n    \"/.unify.toml\",\n]\n\nrecursive = true\nfollow_symlinks = false\nskip_binary = true\n# max_file_size = \"1MB\"\n\n# format = \"markdown\"\n# output = \"unified.md\"\n# wrap_code_block = true\n# toc = false\n\nheader_template = \"// File: {relative_path}\\n\"\n";

/// `s` in double quotes.
pub open spec fn quoted(s: Seq<char>) -> Seq<char> {
    seq!['"'] + s + seq!['"']
}

/// The quoted names, separated by ", ".
pub open spec fn quoted_list(names: Seq<Seq<char>>) -> Seq<char>
    decreases names.len(),
{
    if names.len() == 0 {
        Seq::empty()
    } else if names.len() == 1 {
        quoted(names[0])
    } else {
        quoted_list(names.drop_last()) + ", "@ + quoted(names.last())
    }
}

/// The text of a new project config for the given languages.
pub open spec fn project_config_text(languages: Seq<Seq<char>>) -> Seq<char> {
    if languages.len() == 0 {
        PROJECT_CONFIG_BODY@
    } else {
        "language = ["@ + quoted_list(languages) + "]\n"@ + PROJECT_CONFIG_BODY@
    }
}

/// The text of a new project config (`.unify.toml`) listing `languages`.
pub fn default_project_config_content(languages: &Vec<String>) -> (r: String)
    ensures
        r@ == project_config_text(languages.deep_view()),
{
    let mut out = String::new();
    let n = languages.len();
    if n > 0 {
        crate::text::push_text(&mut out, "language = [");
        let ghost start = out@;
        for i in 0..n
            invariant
                n == languages@.len(),
                n > 0,
                out@ == start + quoted_list(languages.deep_view().take(i as int)),
        {
            let ghost before = out@;
            if i > 0 {
                crate::text::push_text(&mut out, ", ");
            }
            crate::text::push_char(&mut out, '"');
            crate::text::push_text(&mut out, languages[i].as_str());
            crate::text::push_char(&mut out, '"');
            proof {
                let t = languages.deep_view().take(i + 1);
                assert(t.drop_last() =~= languages.deep_view().take(i as int));
                assert(t.last() == languages@[i as int]@);
                if i == 0 {
                    assert(out@ =~= start + quoted(languages@[0]@));
                } else {
                    assert(out@ =~= start + (quoted_list(t.drop_last()) + ", "@ + quoted(t.last())));
                }
            }
        }
        assert(languages.deep_view().take(n as int) =~= languages.deep_view());
        crate::text::push_text(&mut out, "]\n");
    }
    crate::text::push_text(&mut out, PROJECT_CONFIG_BODY);
    proof {
        if n == 0 {
            assert(out@ =~= project_config_text(languages.deep_view()));
        } else {
            assert(out@ =~= project_config_text(languages.deep_view()));
        }
    }
    out
}

/// The text of a new global config.
pub fn default_global_config_content() -> (r: String)
    ensures
        r@ == GLOBAL_CONFIG_TEXT@,
{
    GLOBAL_CONFIG_TEXT.to_string()
}

} // verus!

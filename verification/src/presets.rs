//! Language presets: the built-in preset table, name aliases, and the listing of built-in
//! and user-customized presets.
use vstd::prelude::*;

use crate::text::{all_ascii, copy_string, lemma_ascii_lowering, lower_ascii, lowercase, same_text, to_lowercase};

verus! {

broadcast use vstd::seq_lib::group_to_multiset_ensures;

// ---------------------------------------------------------------------------
// Built-in presets
// ---------------------------------------------------------------------------

pub const C_PRESET: &'static str = "ignores = [\n    \"build/\",\n    \"cmake-build-*/\",\n    \"CMakeFiles/\",\n    \"CMakeCache.txt\",\n    \"*.o\",\n    \"*.obj\",\n    \"*.a\",\n    \"*.so\",\n    \"*.dylib\",\n    \"*.dll\",\n    \"*.exe\",\n]\n";

pub const CSHARP_PRESET: &'static str = "ignores = [\n    \"bin/\",\n    \"obj/\",\n    \".vs/\",\n    \"packages/\",\n    \"*.user\",\n    \"*.suo\",\n    \"*.dll\",\n    \"*.pdb\",\n]\n";

pub const ELIXIR_PRESET: &'static str = "ignores = [\n    \"_build/\",\n    \"deps/\",\n    \".elixir_ls/\",\n    \"cover/\",\n    \"erl_crash.dump\",\n    \"*.ez\",\n]\n";

pub const GO_PRESET: &'static str = "ignores = [\n    \"vendor/\",\n    \"bin/\",\n    \"*.exe\",\n    \"*.test\",\n    \"*.out\",\n    \"go.sum\",\n]\n";

pub const JAVA_PRESET: &'static str = "ignores = [\n    \"target/\",\n    \"build/\",\n    \".gradle/\",\n    \"out/\",\n    \"*.class\",\n    \"*.jar\",\n    \"*.war\",\n]\n";

pub const JAVASCRIPT_PRESET: &'static str = "ignores = [\n    \"node_modules/\",\n    \"dist/\",\n    \"build/\",\n    \"coverage/\",\n    \".next/\",\n    \"*.min.js\",\n    \"*.map\",\n    \"package-lock.json\",\n    \"yarn.lock\",\n    \"pnpm-lock.yaml\",\n]\n";

pub const PHP_PRESET: &'static str = "ignores = [\n    \"vendor/\",\n    \"composer.lock\",\n    \".phpunit.cache/\",\n    \"storage/\",\n]\n";

pub const PYTHON_PRESET: &'static str = "ignores = [\n    \"__pycache__/\",\n    \"*.pyc\",\n    \"*.pyo\",\n    \".venv/\",\n    \"venv/\",\n    \".tox/\",\n    \".pytest_cache/\",\n    \".mypy_cache/\",\n    \"*.egg-info/\",\n    \"dist/\",\n    \"build/\",\n]\n";

pub const RUBY_PRESET: &'static str = "ignores = [\n    \".bundle/\",\n    \"vendor/bundle/\",\n    \"log/\",\n    \"tmp/\",\n    \"coverage/\",\n    \"Gemfile.lock\",\n]\n";

pub const RUST_PRESET: &'static str = "ignores = [\n    \"target/\",\n    \"Cargo.lock\",\n    \"*.rs.bk\",\n]\n";

pub const SWIFT_PRESET: &'static str = "ignores = [\n    \".build/\",\n    \"DerivedData/\",\n    \"Pods/\",\n    \"*.xcodeproj/\",\n    \"*.xcworkspace/\",\n    \"Package.resolved\",\n]\n";

/// Canonical preset name and embedded TOML content, in name order.
pub open spec fn preset_table() -> Seq<(Seq<char>, Seq<char>)> {
    seq![
        ("c"@, C_PRESET@),
        ("csharp"@, CSHARP_PRESET@),
        ("elixir"@, ELIXIR_PRESET@),
        ("go"@, GO_PRESET@),
        ("java"@, JAVA_PRESET@),
        ("javascript"@, JAVASCRIPT_PRESET@),
        ("php"@, PHP_PRESET@),
        ("python"@, PYTHON_PRESET@),
        ("ruby"@, RUBY_PRESET@),
        ("rust"@, RUST_PRESET@),
        ("swift"@, SWIFT_PRESET@),
    ]
}

/// Alias and the canonical preset name that it stands for.
pub open spec fn alias_table() -> Seq<(Seq<char>, Seq<char>)> {
    seq![
        ("rs"@, "rust"@),
        ("py"@, "python"@),
        ("js"@, "javascript"@),
        ("ts"@, "javascript"@),
        ("typescript"@, "javascript"@),
        ("node"@, "javascript"@),
        ("golang"@, "go"@),
        ("cpp"@, "c"@),
        ("c++"@, "c"@),
        ("cs"@, "csharp"@),
        ("dotnet"@, "csharp"@),
        ("rb"@, "ruby"@),
        ("ex"@, "elixir"@),
    ]
}

/// The value of a table of static string pairs.
pub open spec fn table_view(t: Seq<(&'static str, &'static str)>) -> Seq<(Seq<char>, Seq<char>)> {
    t.map_values(|e: (&'static str, &'static str)| (e.0@, e.1@))
}

/// The value that `key` maps to: the first entry with that key.
pub open spec fn lookup(t: Seq<(Seq<char>, Seq<char>)>, key: Seq<char>) -> Option<Seq<char>>
    decreases t.len(),
{
    if t.len() == 0 {
        None
    } else if t[0].0 == key {
        Some(t[0].1)
    } else {
        lookup(t.drop_first(), key)
    }
}

/// The built-in presets: canonical name and embedded TOML content.
pub fn builtin_presets() -> (r: Vec<(&'static str, &'static str)>)
    ensures
        table_view(r@) == preset_table(),
{
    let r = vec![
        ("c", C_PRESET),
        ("csharp", CSHARP_PRESET),
        ("elixir", ELIXIR_PRESET),
        ("go", GO_PRESET),
        ("java", JAVA_PRESET),
        ("javascript", JAVASCRIPT_PRESET),
        ("php", PHP_PRESET),
        ("python", PYTHON_PRESET),
        ("ruby", RUBY_PRESET),
        ("rust", RUST_PRESET),
        ("swift", SWIFT_PRESET),
    ];
    assert(table_view(r@) =~= preset_table());
    r
}

/// Preset aliases: alias and canonical preset name.
pub fn preset_aliases() -> (r: Vec<(&'static str, &'static str)>)
    ensures
        table_view(r@) == alias_table(),
{
    let r = vec![
        ("rs", "rust"),
        ("py", "python"),
        ("js", "javascript"),
        ("ts", "javascript"),
        ("typescript", "javascript"),
        ("node", "javascript"),
        ("golang", "go"),
        ("cpp", "c"),
        ("c++", "c"),
        ("cs", "csharp"),
        ("dotnet", "csharp"),
        ("rb", "ruby"),
        ("ex", "elixir"),
    ];
    assert(table_view(r@) =~= alias_table());
    r
}

/// The value of the first entry of `t` whose key is `key`.
fn find_in_table(t: &Vec<(&'static str, &'static str)>, key: &str) -> (r: Option<&'static str>)
    ensures
        match lookup(table_view(t@), key@) {
            Some(v) => r matches Some(x) && x@ == v,
            None => r is None,
        },
{
    let n = t.len();
    assert(table_view(t@).skip(0) =~= table_view(t@));
    for i in 0..n
        invariant
            n == t@.len(),
            lookup(table_view(t@), key@) == lookup(table_view(t@).skip(i as int), key@),
    {
        let ghost rest = table_view(t@).skip(i as int);
        assert(rest[0] == (t@[i as int].0@, t@[i as int].1@));
        assert(rest.drop_first() =~= table_view(t@).skip(i + 1));
        if same_text(t[i].0, key) {
            return Some(t[i].1);
        }
    }
    None
}

// ---------------------------------------------------------------------------
// Name resolution
// ---------------------------------------------------------------------------

/// The canonical preset name for an already lowercased name: its alias target, or itself.
pub open spec fn canonical_name(lower: Seq<char>) -> Seq<char> {
    match lookup(alias_table(), lower) {
        Some(c) => c,
        None => lower,
    }
}

/// The canonical preset name for `lower`, a name already lowercased.
pub fn canonical_preset_name(lower: &str) -> (r: String)
    ensures
        r@ == canonical_name(lower@),
{
    let aliases = preset_aliases();
    match find_in_table(&aliases, lower) {
        Some(c) => c.to_string(),
        None => lower.to_string(),
    }
}

/// The alias targets are lowercase ASCII.
proof fn lemma_targets_lower_ascii(x: Seq<char>)
    requires
        x == "rust"@ || x == "python"@ || x == "javascript"@ || x == "go"@ || x == "c"@ || x
            == "csharp"@ || x == "ruby"@ || x == "elixir"@,
    ensures
        lower_ascii(x),
{
    reveal_strlit("rust");
    reveal_strlit("python");
    reveal_strlit("javascript");
    reveal_strlit("go");
    reveal_strlit("c");
    reveal_strlit("csharp");
    reveal_strlit("ruby");
    reveal_strlit("elixir");
}

/// Each alias resolves to the preset of its own language, and each built-in preset name
/// resolves to itself.
pub proof fn lemma_alias_names()
    ensures
        canonical_name("rs"@) == "rust"@,
        canonical_name("py"@) == "python"@,
        canonical_name("js"@) == "javascript"@,
        canonical_name("ts"@) == "javascript"@,
        canonical_name("typescript"@) == "javascript"@,
        canonical_name("node"@) == "javascript"@,
        canonical_name("golang"@) == "go"@,
        canonical_name("cpp"@) == "c"@,
        canonical_name("c++"@) == "c"@,
        canonical_name("cs"@) == "csharp"@,
        canonical_name("dotnet"@) == "csharp"@,
        canonical_name("rb"@) == "ruby"@,
        canonical_name("ex"@) == "elixir"@,
        canonical_name("c"@) == "c"@,
        canonical_name("csharp"@) == "csharp"@,
        canonical_name("elixir"@) == "elixir"@,
        canonical_name("go"@) == "go"@,
        canonical_name("java"@) == "java"@,
        canonical_name("javascript"@) == "javascript"@,
        canonical_name("php"@) == "php"@,
        canonical_name("python"@) == "python"@,
        canonical_name("ruby"@) == "ruby"@,
        canonical_name("rust"@) == "rust"@,
        canonical_name("swift"@) == "swift"@,
{
    reveal_strlit("c");
    reveal_strlit("c++");
    reveal_strlit("cpp");
    reveal_strlit("cs");
    reveal_strlit("csharp");
    reveal_strlit("dotnet");
    reveal_strlit("elixir");
    reveal_strlit("ex");
    reveal_strlit("go");
    reveal_strlit("golang");
    reveal_strlit("java");
    reveal_strlit("javascript");
    reveal_strlit("js");
    reveal_strlit("node");
    reveal_strlit("php");
    reveal_strlit("py");
    reveal_strlit("python");
    reveal_strlit("rb");
    reveal_strlit("rs");
    reveal_strlit("ruby");
    reveal_strlit("rust");
    reveal_strlit("swift");
    reveal_strlit("ts");
    reveal_strlit("typescript");
    assert("rs"@.len() == 2 && "rs"@[0] == 'r' && "rs"@[1] == 's');
    assert("py"@.len() == 2 && "py"@[0] == 'p' && "py"@[1] == 'y');
    assert("js"@.len() == 2 && "js"@[0] == 'j' && "js"@[1] == 's');
    assert("ts"@.len() == 2 && "ts"@[0] == 't' && "ts"@[1] == 's');
    assert("typescript"@.len() == 10 && "typescript"@[0] == 't' && "typescript"@[1] == 'y');
    assert("node"@.len() == 4 && "node"@[0] == 'n' && "node"@[1] == 'o');
    assert("golang"@.len() == 6 && "golang"@[0] == 'g' && "golang"@[1] == 'o');
    assert("cpp"@.len() == 3 && "cpp"@[0] == 'c' && "cpp"@[1] == 'p');
    assert("c++"@.len() == 3 && "c++"@[0] == 'c' && "c++"@[1] == '+');
    assert("cs"@.len() == 2 && "cs"@[0] == 'c' && "cs"@[1] == 's');
    assert("dotnet"@.len() == 6 && "dotnet"@[0] == 'd' && "dotnet"@[1] == 'o');
    assert("rb"@.len() == 2 && "rb"@[0] == 'r' && "rb"@[1] == 'b');
    assert("ex"@.len() == 2 && "ex"@[0] == 'e' && "ex"@[1] == 'x');
    assert("c"@.len() == 1 && "c"@[0] == 'c');
    assert("csharp"@.len() == 6 && "csharp"@[0] == 'c' && "csharp"@[1] == 's');
    assert("elixir"@.len() == 6 && "elixir"@[0] == 'e' && "elixir"@[1] == 'l');
    assert("go"@.len() == 2 && "go"@[0] == 'g' && "go"@[1] == 'o');
    assert("java"@.len() == 4 && "java"@[0] == 'j' && "java"@[1] == 'a');
    assert("javascript"@.len() == 10 && "javascript"@[0] == 'j' && "javascript"@[1] == 'a');
    assert("php"@.len() == 3 && "php"@[0] == 'p' && "php"@[1] == 'h');
    assert("python"@.len() == 6 && "python"@[0] == 'p' && "python"@[1] == 'y');
    assert("ruby"@.len() == 4 && "ruby"@[0] == 'r' && "ruby"@[1] == 'u');
    assert("rust"@.len() == 4 && "rust"@[0] == 'r' && "rust"@[1] == 'u');
    assert("swift"@.len() == 5 && "swift"@[0] == 's' && "swift"@[1] == 'w');
    reveal_with_fuel(lookup, 14);
}

/// Resolve a language name to its canonical preset name: lowercased, then aliases replaced.
/// An ASCII name resolves to a lowercase ASCII name that resolves to itself.
pub fn resolve_preset_name(name: &str) -> (r: String)
    ensures
        r@ == canonical_name(lowercase(name@)),
        all_ascii(name@) ==> lower_ascii(r@) && canonical_name(r@) == r@,
        lower_ascii(name@) ==> r@ == canonical_name(name@),
{
    let lower = to_lowercase(name);
    let r = canonical_preset_name(lower.as_str());
    proof {
        lemma_ascii_lowering(name@);
        lemma_canonical_name_idempotent(lower@);
        lemma_alias_targets(lower@);
        if lookup(alias_table(), lower@) is Some {
            lemma_targets_lower_ascii(r@);
        }
    }
    r
}

/// The embedded content of the built-in preset with canonical name `canonical`.
pub fn builtin_preset_for(canonical: &str) -> (r: Option<&'static str>)
    ensures
        match lookup(preset_table(), canonical@) {
            Some(c) => r matches Some(x) && x@ == c,
            None => r is None,
        },
{
    let presets = builtin_presets();
    find_in_table(&presets, canonical)
}

/// The raw TOML content of a built-in preset, found by any of its names (for export).
pub fn builtin_preset_content(name: &str) -> (r: Option<&'static str>)
    ensures
        match lookup(preset_table(), canonical_name(lowercase(name@))) {
            Some(c) => r matches Some(x) && x@ == c,
            None => r is None,
        },
{
    let canonical = resolve_preset_name(name);
    builtin_preset_for(canonical.as_str())
}

/// The names of the built-in presets, in name order.
pub open spec fn builtin_names() -> Seq<Seq<char>> {
    preset_table().map_values(|e: (Seq<char>, Seq<char>)| e.0)
}

/// Names of the built-in presets, in name order (as listed in an error for an unknown
/// language).
pub fn builtin_preset_names() -> (r: Vec<String>)
    ensures
        r.deep_view() == builtin_names(),
{
    let presets = builtin_presets();
    let n = presets.len();
    let mut out: Vec<String> = Vec::new();
    for i in 0..n
        invariant
            n == presets@.len(),
            table_view(presets@) == preset_table(),
            out@.len() == i,
            forall|j: int| 0 <= j < i ==> #[trigger] out@[j]@ == preset_table()[j].0,
    {
        assert(table_view(presets@)[i as int] == (presets@[i as int].0@, presets@[i as int].1@));
        out.push(presets[i].0.to_string());
    }
    assert(out.deep_view() =~= builtin_names());
    out
}


/// What each built-in name maps to in the preset table.
proof fn lemma_builtin_lookups()
    ensures
        lookup(preset_table(), "c"@) is Some,
        lookup(preset_table(), "csharp"@) is Some,
        lookup(preset_table(), "elixir"@) is Some,
        lookup(preset_table(), "go"@) is Some,
        lookup(preset_table(), "javascript"@) is Some,
        lookup(preset_table(), "python"@) is Some,
        lookup(preset_table(), "ruby"@) is Some,
        lookup(preset_table(), "rust"@) is Some,
{
    reveal_strlit("c");
    reveal_strlit("csharp");
    reveal_strlit("elixir");
    reveal_strlit("go");
    reveal_strlit("java");
    reveal_strlit("javascript");
    reveal_strlit("php");
    reveal_strlit("python");
    reveal_strlit("ruby");
    reveal_strlit("rust");
    reveal_strlit("swift");
    reveal_strlit("rs");
    reveal_strlit("py");
    reveal_strlit("js");
    reveal_strlit("ts");
    reveal_strlit("typescript");
    reveal_strlit("node");
    reveal_strlit("golang");
    reveal_strlit("cpp");
    reveal_strlit("c++");
    reveal_strlit("cs");
    reveal_strlit("dotnet");
    reveal_strlit("rb");
    reveal_strlit("ex");
    reveal_with_fuel(lookup, 12);
}

/// The alias targets are the canonical names below.
proof fn lemma_alias_targets(x: Seq<char>)
    ensures
        lookup(alias_table(), x) matches Some(c) ==> (c == "rust"@ || c == "python"@ || c
            == "javascript"@ || c == "go"@ || c == "c"@ || c == "csharp"@ || c == "ruby"@ || c
            == "elixir"@),
{
    reveal_with_fuel(lookup, 14);
}

proof fn lemma_lookup_miss(t: Seq<(Seq<char>, Seq<char>)>, key: Seq<char>)
    requires
        forall|j: int| 0 <= j < t.len() ==> #[trigger] t[j].0 != key,
    ensures
        lookup(t, key) is None,
    decreases t.len(),
{
    if t.len() > 0 {
        assert forall|j: int| 0 <= j < t.drop_first().len() implies #[trigger] t.drop_first()[j].0
            != key by {
            assert(t.drop_first()[j] == t[j + 1]);
        }
        lemma_lookup_miss(t.drop_first(), key);
    }
}

/// No alias target is itself an alias.
proof fn lemma_target_not_alias(x: Seq<char>)
    requires
        x == "rust"@ || x == "python"@ || x == "javascript"@ || x == "go"@ || x == "c"@ || x
            == "csharp"@ || x == "ruby"@ || x == "elixir"@,
    ensures
        lookup(alias_table(), x) is None,
{
    reveal_strlit("c");
    reveal_strlit("csharp");
    reveal_strlit("elixir");
    reveal_strlit("go");
    reveal_strlit("javascript");
    reveal_strlit("python");
    reveal_strlit("ruby");
    reveal_strlit("rust");
    reveal_strlit("rs");
    reveal_strlit("py");
    reveal_strlit("js");
    reveal_strlit("ts");
    reveal_strlit("typescript");
    reveal_strlit("node");
    reveal_strlit("golang");
    reveal_strlit("cpp");
    reveal_strlit("c++");
    reveal_strlit("cs");
    reveal_strlit("dotnet");
    reveal_strlit("rb");
    reveal_strlit("ex");
    let a = alias_table();
    assert forall|j: int| 0 <= j < a.len() implies #[trigger] a[j].0 != x by {
        if j == 0 {
            assert(a[0].0.len() != x.len() || a[0].0[0] != x[0]);
        } else if j == 1 {
            assert(a[1].0.len() != x.len() || a[1].0[0] != x[0]);
        } else if j == 2 {
            assert(a[2].0.len() != x.len() || a[2].0[0] != x[0]);
        } else if j == 3 {
            assert(a[3].0.len() != x.len() || a[3].0[0] != x[0]);
        } else if j == 4 {
            assert(a[4].0.len() != x.len() || a[4].0[0] != x[0]);
        } else if j == 5 {
            assert(a[5].0.len() != x.len() || a[5].0[0] != x[0]);
        } else if j == 6 {
            assert(a[6].0.len() != x.len() || a[6].0[0] != x[0]);
        } else if j == 7 {
            assert(a[7].0.len() != x.len() || a[7].0[0] != x[0]);
        } else if j == 8 {
            assert(a[8].0.len() != x.len() || a[8].0[0] != x[0]);
        } else if j == 9 {
            assert(a[9].0.len() != x.len() || a[9].0[0] != x[0]);
        } else if j == 10 {
            assert(a[10].0.len() != x.len() || a[10].0[0] != x[0]);
        } else if j == 11 {
            assert(a[11].0.len() != x.len() || a[11].0[0] != x[0]);
        } else if j == 12 {
            assert(a[12].0.len() != x.len() || a[12].0[0] != x[0]);
        }
    }
    lemma_lookup_miss(a, x);
}

/// Every alias stands for a built-in preset.
pub proof fn lemma_aliases_name_builtin_presets(alias: Seq<char>)
    ensures
        lookup(alias_table(), alias) matches Some(c) ==> lookup(preset_table(), c) is Some,
{
    lemma_alias_targets(alias);
    lemma_builtin_lookups();
}

/// Resolving a name twice gives what resolving it once gives: alias targets are not aliases.
pub proof fn lemma_canonical_name_idempotent(lower: Seq<char>)
    ensures
        canonical_name(canonical_name(lower)) == canonical_name(lower),
{
    lemma_alias_targets(lower);
    if lookup(alias_table(), lower) is Some {
        lemma_target_not_alias(canonical_name(lower));
    }
}

// ---------------------------------------------------------------------------
// Listing
// ---------------------------------------------------------------------------

/// Lexicographic order of texts by character code (the order of `String`'s `cmp`, since
/// UTF-8 preserves code point order).
pub open spec fn text_le(a: Seq<char>, b: Seq<char>) -> bool
    decreases a.len(),
{
    if a.len() == 0 {
        true
    } else if b.len() == 0 {
        false
    } else if a[0] != b[0] {
        a[0] < b[0]
    } else {
        text_le(a.drop_first(), b.drop_first())
    }
}

pub proof fn lemma_text_le_total(a: Seq<char>, b: Seq<char>)
    ensures
        text_le(a, b) || text_le(b, a),
    decreases a.len(),
{
    if a.len() > 0 && b.len() > 0 && a[0] == b[0] {
        lemma_text_le_total(a.drop_first(), b.drop_first());
    }
}

pub proof fn lemma_text_le_transitive(a: Seq<char>, b: Seq<char>, c: Seq<char>)
    requires
        text_le(a, b),
        text_le(b, c),
    ensures
        text_le(a, c),
    decreases a.len(),
{
    if a.len() > 0 && b.len() > 0 && c.len() > 0 && a[0] == b[0] && b[0] == c[0] {
        lemma_text_le_transitive(a.drop_first(), b.drop_first(), c.drop_first());
    }
}

/// `a` precedes or equals `b` in the order of `String`'s `cmp`.
pub fn text_less_eq(a: &str, b: &str) -> (r: bool)
    ensures
        r == text_le(a@, b@),
{
    let x = crate::text::chars_of(a);
    let y = crate::text::chars_of(b);
    let mut i: usize = 0;
    assert(x@.skip(0) =~= x@);
    assert(y@.skip(0) =~= y@);
    while i < x.len() && i < y.len() && x[i] == y[i]
        invariant
            x@ == a@,
            y@ == b@,
            i <= x@.len(),
            i <= y@.len(),
            text_le(a@, b@) == text_le(x@.skip(i as int), y@.skip(i as int)),
        decreases x@.len() - i,
    {
        assert(x@.skip(i as int).drop_first() =~= x@.skip(i + 1));
        assert(y@.skip(i as int).drop_first() =~= y@.skip(i + 1));
        i = i + 1;
    }
    if i == x.len() {
        true
    } else if i == y.len() {
        false
    } else {
        x[i] < y[i]
    }
}

/// Entries sorted by name.
pub open spec fn sorted_by_name(s: Seq<(Seq<char>, bool)>) -> bool {
    forall|i: int, j: int| 0 <= i < j < s.len() ==> text_le(#[trigger] s[i].0, #[trigger] s[j].0)
}

/// The preset listing before sorting: every built-in name, marked where a user preset of
/// that name overrides it, then every user preset that has no built-in counterpart.
pub open spec fn listing_entries(user_names: Seq<Seq<char>>) -> Seq<(Seq<char>, bool)> {
    builtin_entries(builtin_names(), user_names) + custom_entries(custom_only(user_names))
}

/// Built-in names, each marked where a user preset of that name exists.
pub open spec fn builtin_entries(names: Seq<Seq<char>>, user_names: Seq<Seq<char>>) -> Seq<
    (Seq<char>, bool),
> {
    names.map_values(|n: Seq<char>| (n, user_names.contains(n)))
}

/// User preset names that are not built-in names.
pub open spec fn custom_only(user_names: Seq<Seq<char>>) -> Seq<Seq<char>> {
    user_names.filter(|u: Seq<char>| !builtin_names().contains(u))
}

/// Names marked as custom.
pub open spec fn custom_entries(names: Seq<Seq<char>>) -> Seq<(Seq<char>, bool)> {
    names.map_values(|u: Seq<char>| (u, true))
}

/// The value of a listing.
pub open spec fn listing_view(v: Seq<(String, bool)>) -> Seq<(Seq<char>, bool)> {
    v.map_values(|e: (String, bool)| (e.0@, e.1))
}

/// Whether `name` is among `names`.
fn contains_name(names: &Vec<String>, name: &str) -> (r: bool)
    ensures
        r == names.deep_view().contains(name@),
{
    let n = names.len();
    for i in 0..n
        invariant
            n == names@.len(),
            forall|j: int| 0 <= j < i ==> names@[j]@ != name@,
    {
        if same_text(names[i].as_str(), name) {
            assert(names.deep_view()[i as int] == name@);
            return true;
        }
    }
    assert forall|j: int| 0 <= j < names.deep_view().len() implies names.deep_view()[j]
        != name@ by {
        assert(names.deep_view()[j] == names@[j]@);
    }
    false
}

/// Inserts `e` into the sorted listing `v`, after every entry whose name precedes or
/// equals its name.
fn insert_sorted(v: &mut Vec<(String, bool)>, e: (String, bool))
    requires
        sorted_by_name(listing_view(old(v)@)),
    ensures
        sorted_by_name(listing_view(final(v)@)),
        listing_view(final(v)@).to_multiset() == listing_view(old(v)@).to_multiset().insert(
            (e.0@, e.1),
        ),
{
    let n = v.len();
    let mut j: usize = 0;
    while j < n && text_less_eq(v[j].0.as_str(), e.0.as_str())
        invariant
            n == v@.len(),
            j <= n,
            forall|k: int| 0 <= k < j ==> text_le(#[trigger] v@[k].0@, e.0@),
        decreases n - j,
    {
        j = j + 1;
    }
    let ghost old_view = listing_view(v@);
    let ghost x = (e.0@, e.1);
    proof {
        if j < n {
            lemma_text_le_total(v@[j as int].0@, e.0@);
        }
    }
    v.insert(j, e);
    proof {
        let nv = listing_view(v@);
        assert(nv =~= old_view.insert(j as int, x));
        assert forall|a: int, b: int| 0 <= a < b < nv.len() implies text_le(
            #[trigger] nv[a].0,
            #[trigger] nv[b].0,
        ) by {
            if b < j {
                assert(nv[a] == old_view[a] && nv[b] == old_view[b]);
            } else if b == j {
                assert(nv[a] == old_view[a]);
                assert(text_le(old(v)@[a].0@, e.0@));
            } else if a == j {
                assert(nv[b] == old_view[b - 1]);
                assert(text_le(e.0@, old_view[j as int].0));
                if b - 1 > j {
                    lemma_text_le_transitive(e.0@, old_view[j as int].0, old_view[b - 1].0);
                }
            } else if a < j {
                assert(nv[a] == old_view[a]);
                assert(nv[b] == old_view[b - 1]);
            } else {
                assert(nv[a] == old_view[a - 1]);
                assert(nv[b] == old_view[b - 1]);
            }
        }
    }
}

/// The preset listing: every built-in preset, marked `true` where the user has customized
/// it, and every purely custom user preset (marked `true`), sorted by name.
/// `user_names` are the names of the user's preset files.
pub fn preset_listing(user_names: &Vec<String>) -> (r: Vec<(String, bool)>)
    ensures
        sorted_by_name(listing_view(r@)),
        listing_view(r@).to_multiset() == listing_entries(user_names.deep_view()).to_multiset(),
{
    let builtin = builtin_preset_names();
    let mut unsorted: Vec<(String, bool)> = Vec::new();
    let nb = builtin.len();
    let ghost users = user_names.deep_view();
    assert(builtin_entries(builtin_names().take(0), users) =~= listing_view(unsorted@));
    for i in 0..nb
        invariant
            nb == builtin@.len(),
            builtin.deep_view() == builtin_names(),
            users == user_names.deep_view(),
            listing_view(unsorted@) == builtin_entries(builtin_names().take(i as int), users),
    {
        let overridden = contains_name(user_names, builtin[i].as_str());
        let ghost before = listing_view(unsorted@);
        let ghost name = builtin@[i as int]@;
        assert(builtin.deep_view()[i as int] == name);
        assert(builtin_names()[i as int] == name);
        unsorted.push((copy_string(&builtin[i]), overridden));
        assert(listing_view(unsorted@) =~= before.push((name, users.contains(name))));
        assert(builtin_names().take(i + 1) =~= builtin_names().take(i as int).push(
            builtin_names()[i as int],
        ));
        assert(listing_view(unsorted@) =~= builtin_entries(builtin_names().take(i + 1), users));
    }
    assert(builtin_names().take(nb as int) =~= builtin_names());
    let ghost head = listing_view(unsorted@);
    let nu = user_names.len();
    assert(users.take(0) =~= Seq::<Seq<char>>::empty());
    assert(custom_only(users.take(0)) =~= Seq::<Seq<char>>::empty()) by {
        reveal_with_fuel(Seq::<_>::filter, 1);
    }
    assert(listing_view(unsorted@) =~= head + custom_entries(custom_only(users.take(0))));
    for i in 0..nu
        invariant
            nu == user_names@.len(),
            users == user_names.deep_view(),
            builtin.deep_view() == builtin_names(),
            listing_view(unsorted@) == head + custom_entries(custom_only(users.take(i as int))),
    {
        let is_builtin = contains_name(&builtin, user_names[i].as_str());
        let ghost before = listing_view(unsorted@);
        let ghost t = users.take(i + 1);
        let ghost u = user_names@[i as int]@;
        proof {
            assert(t.drop_last() =~= users.take(i as int));
            assert(t.last() == u);
            reveal_with_fuel(Seq::<_>::filter, 1);
            assert(custom_only(t) == if !builtin_names().contains(u) {
                custom_only(t.drop_last()).push(u)
            } else {
                custom_only(t.drop_last())
            });
        }
        if !is_builtin {
            unsorted.push((copy_string(&user_names[i]), true));
            assert(listing_view(unsorted@) =~= before.push((u, true)));
            assert(custom_entries(custom_only(t)) =~= custom_entries(custom_only(t.drop_last())).push((u, true)));
            assert(listing_view(unsorted@) =~= head + custom_entries(custom_only(t)));
        } else {
            assert(listing_view(unsorted@) =~= head + custom_entries(custom_only(t)));
        }
    }
    assert(users.take(nu as int) =~= users);
    assert(listing_view(unsorted@) =~= listing_entries(users));
    let mut sorted: Vec<(String, bool)> = Vec::new();
    let total = unsorted.len();
    let ghost all = listing_view(unsorted@);
    assert(sorted_by_name(listing_view(sorted@)));
    assert(listing_view(sorted@) =~= Seq::<(Seq<char>, bool)>::empty());
    assert(all.take(0) =~= Seq::<(Seq<char>, bool)>::empty());
    for k in 0..total
        invariant
            total == all.len(),
            all == listing_view(unsorted@),
            sorted_by_name(listing_view(sorted@)),
            listing_view(sorted@).to_multiset() == all.take(k as int).to_multiset(),
    {
        let e = (copy_string(&unsorted[k].0), unsorted[k].1);
        proof {
            assert(all[k as int] == (unsorted@[k as int].0@, unsorted@[k as int].1));
            assert(all.take(k + 1) =~= all.take(k as int).push(all[k as int]));
        }
        insert_sorted(&mut sorted, e);
    }
    assert(all.take(total as int) =~= all);
    sorted
}

} // verus!

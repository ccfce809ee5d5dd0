use unify::presets::{
    builtin_preset_content, builtin_preset_names, builtin_presets, canonical_preset_name,
    preset_aliases, preset_listing, resolve_preset_name, text_less_eq,
};

fn strings(v: &[&str]) -> Vec<String> {
    v.iter().map(|s| s.to_string()).collect()
}

#[test]
fn aliases_resolve_to_canonical_names() {
    assert_eq!(resolve_preset_name("rs"), "rust");
    assert_eq!(resolve_preset_name("PY"), "python");
    assert_eq!(resolve_preset_name("ts"), "javascript");
    assert_eq!(resolve_preset_name("TypeScript"), "javascript");
    assert_eq!(resolve_preset_name("c++"), "c");
    assert_eq!(resolve_preset_name("dotnet"), "csharp");
    assert_eq!(resolve_preset_name("ex"), "elixir");
    assert_eq!(resolve_preset_name("Rust"), "rust");
    assert_eq!(resolve_preset_name("Haskell"), "haskell");
}

#[test]
fn resolution_is_idempotent_on_examples() {
    for name in ["rs", "golang", "node", "unknown", "c"] {
        let once = canonical_preset_name(name);
        assert_eq!(canonical_preset_name(&once), once);
    }
}

#[test]
fn every_alias_names_a_builtin_preset() {
    let names: Vec<&str> = builtin_presets().iter().map(|(n, _)| *n).collect();
    for (_, target) in preset_aliases() {
        assert!(names.contains(&target), "{}", target);
    }
}

#[test]
fn builtin_content_by_any_name() {
    let rust = builtin_preset_content("rs").unwrap();
    assert!(rust.contains("target/"));
    assert_eq!(builtin_preset_content("RUST"), Some(rust));
    assert_eq!(builtin_preset_content("cobol"), None);
}

#[test]
fn builtin_presets_are_valid_toml() {
    for (name, content) in builtin_presets() {
        let v: toml::Value = toml::from_str(content).unwrap_or_else(|e| panic!("{}: {}", name, e));
        assert!(v.get("ignores").and_then(|i| i.as_array()).is_some(), "{}", name);
    }
}

#[test]
fn builtin_names_are_sorted() {
    let names = builtin_preset_names();
    assert_eq!(
        names,
        strings(&["c", "csharp", "elixir", "go", "java", "javascript", "php", "python", "ruby", "rust", "swift"])
    );
}

#[test]
fn text_order_matches_string_order() {
    let words = ["", "a", "ab", "b", "B", "é", "z", "aa", "ä"];
    for a in words {
        for b in words {
            assert_eq!(text_less_eq(a, b), a <= b, "{:?} {:?}", a, b);
        }
    }
}

#[test]
fn listing_marks_overrides_and_adds_custom_presets() {
    let list = preset_listing(&strings(&["zig", "rust", "awk"]));
    let expected: Vec<(String, bool)> = vec![
        ("awk", true),
        ("c", false),
        ("csharp", false),
        ("elixir", false),
        ("go", false),
        ("java", false),
        ("javascript", false),
        ("php", false),
        ("python", false),
        ("ruby", false),
        ("rust", true),
        ("swift", false),
        ("zig", true),
    ]
    .into_iter()
    .map(|(n, b)| (n.to_string(), b))
    .collect();
    assert_eq!(list, expected);
}

#[test]
fn listing_without_user_presets() {
    let list = preset_listing(&Vec::new());
    assert_eq!(list.len(), 11);
    assert!(list.iter().all(|(_, custom)| !custom));
}

#[test]
fn resolved_names_resolve_to_themselves() {
    for name in ["RS", "Cobol", "rust", "TypeScript", "C++", "Golang", "ex", "Ünïcode"] {
        let once = resolve_preset_name(name);
        assert_eq!(resolve_preset_name(&once), once);
    }
    assert_eq!(resolve_preset_name("RS"), "rust");
    assert_eq!(resolve_preset_name("Cobol"), "cobol");
}

//! Include and ignore patterns: which walked paths are left out. Each pattern is handed to the
//! `ignore` crate's gitignore matcher as one line (unclosed classes refused); how the patterns
//! combine is decided here. Among the include patterns the last one that matches decides, and
//! where none does, files are left out once some include whitelists. Among the ignore patterns
//! the last one that matches decides, where `!p` un-ignores what `p` matches and excludes
//! nothing.
use vstd::prelude::*;

use crate::text::{chars_of, copy_string, push_text, slice_chars, string_of, trim, trim_chars};

verus! {

// ---------------------------------------------------------------------------
// Glob matching by the `ignore` crate
// ---------------------------------------------------------------------------

#[verifier::external_type_specification]
#[verifier::external_body]
pub struct ExGitignore(ignore::gitignore::Gitignore);

/// Whether the gitignore line `glob` is accepted by `GitignoreBuilder::add_line`, with
/// unclosed character classes refused, and the matcher then builds.
pub uninterp spec fn glob_valid(glob: Seq<char>) -> bool;

/// Whether `Gitignore::matched(path, is_dir)` finds a match for the one-line matcher built
/// from `glob` at the directory `root`.
pub uninterp spec fn glob_matches(root: Seq<char>, glob: Seq<char>, path: Seq<char>, is_dir: bool) -> bool;

/// A gitignore matcher for one glob, with the root and glob it was built from.
#[derive(Debug)]
pub struct CompiledGlob {
    root: String,
    glob: String,
    matcher: ignore::gitignore::Gitignore,
}

impl CompiledGlob {
    /// The directory the glob is matched relative to.
    pub closed spec fn root_text(&self) -> Seq<char> {
        self.root@
    }

    /// The glob.
    pub closed spec fn glob_text(&self) -> Seq<char> {
        self.glob@
    }
}

/// A one-line matcher: `GitignoreBuilder::new(root)`, `allow_unclosed_class(false)`,
/// `add_line(None, glob)` and `build()`. It is `None` exactly where the line is refused or the
/// matcher does not build; the contract claims only that this depends on the line alone.
#[verifier::external_body]
fn compile_glob(root: &str, glob: &str) -> (r: Option<CompiledGlob>)
    ensures
        r is Some <==> glob_valid(glob@),
        r matches Some(c) ==> c.root_text() == root@ && c.glob_text() == glob@,
{
    let mut builder = ignore::gitignore::GitignoreBuilder::new(root);
    builder.allow_unclosed_class(false);
    if builder.add_line(None, glob).is_err() {
        return None;
    }
    match builder.build() {
        Ok(matcher) => Some(CompiledGlob { root: root.to_string(), glob: glob.to_string(), matcher }),
        Err(_) => None,
    }
}

/// `Gitignore::matched(path, is_dir)` of the matcher, as "the line matched" (whether as an
/// ignore or as a whitelist line); the result is named, not described.
#[verifier::external_body]
fn glob_match(c: &CompiledGlob, path: &str, is_dir: bool) -> (r: bool)
    ensures
        r == glob_matches(c.root_text(), c.glob_text(), path@, is_dir),
{
    !c.matcher.matched(path, is_dir).is_none()
}

// ---------------------------------------------------------------------------
// Pattern rules
// ---------------------------------------------------------------------------

/// How a pattern takes part, by the list it stands in and how it begins.
#[derive(Debug, Clone, Copy, PartialEq, Eq, Structural)]
pub enum PatternKind {
    /// An include pattern `p`: whitelists what it matches.
    Include,
    /// An include pattern `!p`: ignores what `p` matches.
    NegatedInclude,
    /// An ignore pattern `!p`: un-ignores what `p` matches.
    Reinclude,
    /// An ignore pattern `p`: ignores what it matches.
    Ignore,
    /// An ignore pattern `!!p`: ignores what `!p` with one `!` less, that is `p`, matches.
    DoubleNegated,
}

/// One rule: a trimmed pattern, as written, and its kind.
#[derive(Debug)]
pub struct PatternRule {
    pub pattern: String,
    pub kind: PatternKind,
}

/// Whether a trimmed pattern is a rule: neither blank nor a `#` comment.
pub open spec fn is_rule(t: Seq<char>) -> bool {
    t.len() > 0 && t[0] != '#'
}

/// Whether a rule comes from the include patterns.
pub open spec fn from_includes(k: PatternKind) -> bool {
    k == PatternKind::Include || k == PatternKind::NegatedInclude
}

/// The kind of a trimmed include pattern.
pub open spec fn include_kind(t: Seq<char>) -> PatternKind {
    if t.len() > 0 && t[0] == '!' {
        PatternKind::NegatedInclude
    } else {
        PatternKind::Include
    }
}

/// The kind of a trimmed ignore pattern.
pub open spec fn ignore_kind(t: Seq<char>) -> PatternKind {
    if t.len() > 1 && t[0] == '!' && t[1] == '!' {
        PatternKind::DoubleNegated
    } else if t.len() > 0 && t[0] == '!' {
        PatternKind::Reinclude
    } else {
        PatternKind::Ignore
    }
}

/// `t` without its first character (a pattern's leading `!`).
pub open spec fn without_first(t: Seq<char>) -> Seq<char> {
    if t.len() > 0 {
        t.drop_first()
    } else {
        t
    }
}

/// The gitignore line a rule is matched by: an include as written; an ignore `!p` without its
/// `!`; an ignore `p` as `!p`, the line that ignores `p`.
pub open spec fn rule_line(t: Seq<char>, k: PatternKind) -> Seq<char> {
    match k {
        PatternKind::Include => t,
        PatternKind::NegatedInclude => t,
        PatternKind::Reinclude => without_first(t),
        PatternKind::DoubleNegated => without_first(t),
        PatternKind::Ignore => seq!['!'] + t,
    }
}

/// The rules for a list of include patterns, in order: trimmed, blank and `#` lines left out.
pub open spec fn include_rules(patterns: Seq<Seq<char>>) -> Seq<(Seq<char>, PatternKind)>
    decreases patterns.len(),
{
    if patterns.len() == 0 {
        Seq::empty()
    } else {
        let rest = include_rules(patterns.drop_last());
        let t = trim(patterns.last());
        if is_rule(t) {
            rest.push((t, include_kind(t)))
        } else {
            rest
        }
    }
}

/// The rules for a list of ignore patterns, in order.
pub open spec fn ignore_rules(patterns: Seq<Seq<char>>) -> Seq<(Seq<char>, PatternKind)>
    decreases patterns.len(),
{
    if patterns.len() == 0 {
        Seq::empty()
    } else {
        let rest = ignore_rules(patterns.drop_last());
        let t = trim(patterns.last());
        if is_rule(t) {
            rest.push((t, ignore_kind(t)))
        } else {
            rest
        }
    }
}

/// The rules for a list of patterns of either kind.
pub open spec fn rules_for(from_ignores: bool, patterns: Seq<Seq<char>>) -> Seq<(Seq<char>, PatternKind)> {
    if from_ignores {
        ignore_rules(patterns)
    } else {
        include_rules(patterns)
    }
}

/// The value of a list of rules.
pub open spec fn rules_view(v: Seq<PatternRule>) -> Seq<(Seq<char>, PatternKind)> {
    v.map_values(|r: PatternRule| (r.pattern@, r.kind))
}

fn push_rules(out: &mut Vec<PatternRule>, patterns: &Vec<String>, from_ignores: bool)
    ensures
        rules_view(final(out)@) == rules_view(old(out)@) + rules_for(from_ignores, patterns.deep_view()),
{
    let ghost start = rules_view(out@);
    let ghost ps = patterns.deep_view();
    let n = patterns.len();
    assert(ps.take(0) =~= Seq::<Seq<char>>::empty());
    assert(rules_view(out@) =~= start + rules_for(from_ignores, ps.take(0)));
    for i in 0..n
        invariant
            n == ps.len(),
            ps == patterns.deep_view(),
            rules_view(out@) == start + rules_for(from_ignores, ps.take(i as int)),
    {
        let cs = chars_of(patterns[i].as_str());
        let t = trim_chars(cs.as_slice());
        let ghost before = rules_view(out@);
        proof {
            assert(ps.take(i + 1).drop_last() =~= ps.take(i as int));
            assert(ps.take(i + 1).last() == patterns@[i as int]@);
            assert(t@ == trim(ps.take(i + 1).last()));
        }
        if t.len() > 0 && t[0] != '#' {
            let negated = t[0] == '!';
            let kind = if !from_ignores {
                if negated {
                    PatternKind::NegatedInclude
                } else {
                    PatternKind::Include
                }
            } else if negated && t.len() > 1 && t[1] == '!' {
                PatternKind::DoubleNegated
            } else if negated {
                PatternKind::Reinclude
            } else {
                PatternKind::Ignore
            };
            out.push(PatternRule { pattern: string_of(t.as_slice()), kind });
            assert(rules_view(out@) =~= before.push(
                if from_ignores {
                    (t@, ignore_kind(t@))
                } else {
                    (t@, include_kind(t@))
                },
            ));
        }
        assert(rules_view(out@) =~= start + rules_for(from_ignores, ps.take(i + 1)));
    }
    assert(ps.take(n as int) =~= ps);
}

/// The rules of the include patterns, then of the ignore patterns, each trimmed, with blank
/// and `#` lines left out.
pub fn pattern_rules(includes: &Vec<String>, ignores: &Vec<String>) -> (r: Vec<PatternRule>)
    ensures
        rules_view(r@) == include_rules(includes.deep_view()) + ignore_rules(ignores.deep_view()),
{
    let mut out: Vec<PatternRule> = Vec::new();
    assert(rules_view(out@) =~= Seq::<(Seq<char>, PatternKind)>::empty());
    push_rules(&mut out, includes, false);
    push_rules(&mut out, ignores, true);
    assert(rules_view(out@) =~= include_rules(includes.deep_view()) + ignore_rules(
        ignores.deep_view(),
    ));
    out
}

/// The gitignore line of a rule (see `rule_line`).
fn line_of(rule: &PatternRule) -> (r: String)
    ensures
        r@ == rule_line(rule.pattern@, rule.kind),
{
    match rule.kind {
        PatternKind::Include | PatternKind::NegatedInclude => copy_string(&rule.pattern),
        PatternKind::Reinclude | PatternKind::DoubleNegated => {
            let cs = chars_of(rule.pattern.as_str());
            if cs.len() == 0 {
                return copy_string(&rule.pattern);
            }
            let rest = slice_chars(cs.as_slice(), 1, cs.len());
            assert(rest@ =~= cs@.drop_first());
            string_of(rest.as_slice())
        },
        PatternKind::Ignore => {
            let mut line = String::new();
            push_text(&mut line, "!");
            push_text(&mut line, rule.pattern.as_str());
            proof {
                reveal_strlit("!");
            }
            assert(line@ =~= seq!['!'] + rule.pattern@);
            line
        },
    }
}

// ---------------------------------------------------------------------------
// Pattern sets
// ---------------------------------------------------------------------------

/// A pattern that does not parse as a glob.
#[derive(Debug)]
pub struct PatternError {
    pub kind: PatternKind,
    /// The trimmed pattern, as written.
    pub pattern: String,
}

/// The message for a refused pattern.
pub open spec fn pattern_error_text(kind: PatternKind, pattern: Seq<char>) -> Seq<char> {
    match kind {
        PatternKind::Include => "Invalid include pattern: '"@ + pattern + "'"@,
        PatternKind::NegatedInclude => "Invalid include pattern: '"@ + pattern + "'"@,
        PatternKind::Reinclude => "Invalid pattern: '"@ + pattern + "'"@,
        PatternKind::DoubleNegated => "Invalid pattern: '"@ + pattern + "'"@,
        PatternKind::Ignore => "Invalid ignore pattern: '"@ + pattern + "'"@,
    }
}

impl PatternError {
    /// The message for this error.
    pub fn message(&self) -> (r: String)
        ensures
            r@ == pattern_error_text(self.kind, self.pattern@),
    {
        let mut s = String::new();
        match self.kind {
            PatternKind::Include | PatternKind::NegatedInclude => push_text(&mut s, "Invalid include pattern: '"),
            PatternKind::Reinclude | PatternKind::DoubleNegated => push_text(&mut s, "Invalid pattern: '"),
            PatternKind::Ignore => push_text(&mut s, "Invalid ignore pattern: '"),
        }
        push_text(&mut s, self.pattern.as_str());
        push_text(&mut s, "'");
        s
    }
}

/// The first rule whose line is refused, if any.
pub open spec fn first_invalid(rules: Seq<(Seq<char>, PatternKind)>) -> Option<(Seq<char>, PatternKind)>
    decreases rules.len(),
{
    if rules.len() == 0 {
        None
    } else if !glob_valid(rule_line(rules[0].0, rules[0].1)) {
        Some(rules[0])
    } else {
        first_invalid(rules.drop_first())
    }
}

/// The value of a pattern set: the root; the lines of the include rules, each with whether it
/// whitelists; and the lines of the ignore rules, each with whether it un-ignores.
pub struct PatternModel {
    pub root: Seq<char>,
    pub includes: Seq<(Seq<char>, bool)>,
    pub ignores: Seq<(Seq<char>, bool)>,
}

/// The model of a list of rules matched at `root`.
pub open spec fn pattern_model(root: Seq<char>, rules: Seq<(Seq<char>, PatternKind)>) -> PatternModel {
    PatternModel {
        root,
        includes: rules.filter(|r: (Seq<char>, PatternKind)| from_includes(r.1)).map_values(
            |r: (Seq<char>, PatternKind)| (rule_line(r.0, r.1), r.1 == PatternKind::Include),
        ),
        ignores: rules.filter(|r: (Seq<char>, PatternKind)| !from_includes(r.1)).map_values(
            |r: (Seq<char>, PatternKind)| (rule_line(r.0, r.1), r.1 == PatternKind::Reinclude),
        ),
    }
}

/// The flag of the last line in `rules` that matches the path, if any.
pub open spec fn last_match(root: Seq<char>, rules: Seq<(Seq<char>, bool)>, path: Seq<char>, is_dir: bool) -> Option<bool>
    decreases rules.len(),
{
    if rules.len() == 0 {
        None
    } else if glob_matches(root, rules.last().0, path, is_dir) {
        Some(rules.last().1)
    } else {
        last_match(root, rules.drop_last(), path, is_dir)
    }
}

/// Whether some include rule whitelists.
pub open spec fn has_whitelist(includes: Seq<(Seq<char>, bool)>) -> bool {
    exists|i: int| 0 <= i < includes.len() && #[trigger] includes[i].1
}

/// Whether the include rules let a path through: the last one that matches decides; where
/// none does, directories pass, and files pass unless some include whitelists.
pub open spec fn include_admits(m: PatternModel, path: Seq<char>, is_dir: bool) -> bool {
    match last_match(m.root, m.includes, path, is_dir) {
        Some(whitelists) => whitelists,
        None => is_dir || !has_whitelist(m.includes),
    }
}

/// Whether the ignore rules ignore a path: the last one that matches decides; a re-include
/// un-ignores; with no match the path is not ignored.
pub open spec fn ignored_by(m: PatternModel, path: Seq<char>, is_dir: bool) -> bool {
    match last_match(m.root, m.ignores, path, is_dir) {
        Some(reinclude) => !reinclude,
        None => false,
    }
}

/// Whether a path is left out by the patterns.
pub open spec fn excluded(m: PatternModel, path: Seq<char>, is_dir: bool) -> bool {
    !include_admits(m, path, is_dir) || ignored_by(m, path, is_dir)
}

/// A re-include excludes nothing: appending an ignore `!p` to the rules leaves out only paths
/// that were left out before, and brings back every path that `p` matches and the includes
/// admit.
pub proof fn lemma_reinclude_only_unignores(
    root: Seq<char>,
    rules: Seq<(Seq<char>, PatternKind)>,
    pattern: Seq<char>,
    path: Seq<char>,
    is_dir: bool,
)
    ensures
        excluded(pattern_model(root, rules.push((pattern, PatternKind::Reinclude))), path, is_dir)
            ==> excluded(pattern_model(root, rules), path, is_dir),
        glob_matches(root, without_first(pattern), path, is_dir) && include_admits(pattern_model(root, rules), path, is_dir)
            ==> !excluded(pattern_model(root, rules.push((pattern, PatternKind::Reinclude))), path, is_dir),
{
    let r = (pattern, PatternKind::Reinclude);
    let inc = |r: (Seq<char>, PatternKind)| from_includes(r.1);
    let ign = |r: (Seq<char>, PatternKind)| !from_includes(r.1);
    rules.lemma_filter_push(r, inc);
    rules.lemma_filter_push(r, ign);
    let m = pattern_model(root, rules);
    let m2 = pattern_model(root, rules.push(r));
    assert(m2.includes =~= m.includes);
    assert(m2.ignores =~= m.ignores.push((without_first(pattern), true)));
    assert(m2.ignores.drop_last() =~= m.ignores);
}

/// Compiled include and ignore rules, matched at one root.
#[derive(Debug)]
pub struct PatternSet {
    root: String,
    includes: Vec<(CompiledGlob, bool)>,
    ignores: Vec<(CompiledGlob, bool)>,
}

impl PatternSet {
    #[verifier::type_invariant]
    closed spec fn same_root(self) -> bool {
        &&& forall|i: int| 0 <= i < self.includes@.len() ==> #[trigger] self.includes@[i].0.root_text() == self.root@
        &&& forall|i: int| 0 <= i < self.ignores@.len() ==> #[trigger] self.ignores@[i].0.root_text() == self.root@
    }

    /// The value of the set.
    pub closed spec fn model(self) -> PatternModel {
        PatternModel {
            root: self.root@,
            includes: self.includes@.map_values(|e: (CompiledGlob, bool)| (e.0.glob_text(), e.1)),
            ignores: self.ignores@.map_values(|e: (CompiledGlob, bool)| (e.0.glob_text(), e.1)),
        }
    }

    /// Compiles the rules of `includes` and `ignores` (see `pattern_rules`) for matching at
    /// `root`; the first rule whose line is refused is reported.
    pub fn build(root: &str, includes: &Vec<String>, ignores: &Vec<String>) -> (r: Result<PatternSet, PatternError>)
        ensures
            ({
                let rules = include_rules(includes.deep_view()) + ignore_rules(ignores.deep_view());
                &&& first_invalid(rules) is None ==> (r matches Ok(ps) && ps.model() == pattern_model(root@, rules))
                &&& first_invalid(rules) matches Some(bad) ==> (r matches Err(e) && e.pattern@ == bad.0 && e.kind == bad.1)
            }),
    {
        let rules = pattern_rules(includes, ignores);
        let ghost rs = rules_view(rules@);
        let mut inc: Vec<(CompiledGlob, bool)> = Vec::new();
        let mut ign: Vec<(CompiledGlob, bool)> = Vec::new();
        let n = rules.len();
        let ghost is_inc = |r: (Seq<char>, PatternKind)| from_includes(r.1);
        let ghost not_inc = |r: (Seq<char>, PatternKind)| !from_includes(r.1);
        let ghost inc_line = |r: (Seq<char>, PatternKind)| (rule_line(r.0, r.1), r.1 == PatternKind::Include);
        let ghost ign_line = |r: (Seq<char>, PatternKind)| (rule_line(r.0, r.1), r.1 == PatternKind::Reinclude);
        assert(rs.skip(0) =~= rs);
        assert(rs.take(0) =~= Seq::<(Seq<char>, PatternKind)>::empty());
        proof {
            reveal(Seq::filter);
        }
        assert(inc@.map_values(|e: (CompiledGlob, bool)| (e.0.glob_text(), e.1)) =~= rs.take(0).filter(is_inc).map_values(inc_line));
        assert(ign@.map_values(|e: (CompiledGlob, bool)| (e.0.glob_text(), e.1)) =~= rs.take(0).filter(not_inc).map_values(ign_line));
        for i in 0..n
            invariant
                n == rs.len(),
                rs == rules_view(rules@),
                rs == include_rules(includes.deep_view()) + ignore_rules(ignores.deep_view()),
                is_inc == (|r: (Seq<char>, PatternKind)| from_includes(r.1)),
                not_inc == (|r: (Seq<char>, PatternKind)| !from_includes(r.1)),
                inc_line == (|r: (Seq<char>, PatternKind)| (rule_line(r.0, r.1), r.1 == PatternKind::Include)),
                ign_line == (|r: (Seq<char>, PatternKind)| (rule_line(r.0, r.1), r.1 == PatternKind::Reinclude)),
                first_invalid(rs) == first_invalid(rs.skip(i as int)),
                forall|k: int| 0 <= k < inc@.len() ==> #[trigger] inc@[k].0.root_text() == root@,
                forall|k: int| 0 <= k < ign@.len() ==> #[trigger] ign@[k].0.root_text() == root@,
                inc@.map_values(|e: (CompiledGlob, bool)| (e.0.glob_text(), e.1)) == rs.take(i as int).filter(is_inc).map_values(inc_line),
                ign@.map_values(|e: (CompiledGlob, bool)| (e.0.glob_text(), e.1)) == rs.take(i as int).filter(not_inc).map_values(ign_line),
        {
            let rule = &rules[i];
            let ghost r = rs[i as int];
            proof {
                assert(r == (rule.pattern@, rule.kind));
                assert(rs.skip(i as int)[0] == r);
                assert(rs.skip(i as int).drop_first() =~= rs.skip(i + 1));
            }
            let ghost prev = rs.take(i as int);
            let ghost next = rs.take(i + 1);
            assert(next =~= prev.push(r));
            proof {
                prev.lemma_filter_push(r, is_inc);
                prev.lemma_filter_push(r, not_inc);
            }
            let line = line_of(rule);
            match compile_glob(root, line.as_str()) {
                Some(c) => {
                    let ghost inc_before = inc@;
                    let ghost ign_before = ign@;
                    let ghost entry = (rule_line(r.0, r.1), r.1 == PatternKind::Include);
                    let ghost ign_entry = (rule_line(r.0, r.1), r.1 == PatternKind::Reinclude);
                    match rule.kind {
                        PatternKind::Include | PatternKind::NegatedInclude => {
                            let whitelists = match rule.kind {
                                PatternKind::Include => true,
                                _ => false,
                            };
                            inc.push((c, whitelists));
                            assert(next.filter(is_inc) == prev.filter(is_inc).push(r));
                            assert(next.filter(not_inc) == prev.filter(not_inc));
                            assert(next.filter(is_inc).map_values(inc_line) =~= prev.filter(is_inc).map_values(inc_line).push(entry));
                            assert(inc@.map_values(|e: (CompiledGlob, bool)| (e.0.glob_text(), e.1)) =~= inc_before.map_values(|e: (CompiledGlob, bool)| (e.0.glob_text(), e.1)).push(entry));
                        },
                        _ => {
                            let reinclude = match rule.kind {
                                PatternKind::Reinclude => true,
                                _ => false,
                            };
                            ign.push((c, reinclude));
                            assert(next.filter(is_inc) == prev.filter(is_inc));
                            assert(next.filter(not_inc) == prev.filter(not_inc).push(r));
                            assert(next.filter(not_inc).map_values(ign_line) =~= prev.filter(not_inc).map_values(ign_line).push(ign_entry));
                            assert(ign@.map_values(|e: (CompiledGlob, bool)| (e.0.glob_text(), e.1)) =~= ign_before.map_values(|e: (CompiledGlob, bool)| (e.0.glob_text(), e.1)).push(ign_entry));
                        },
                    }
                },
                None => {
                    let ghost rest = rs.skip(i as int);
                    assert(rest.len() > 0);
                    assert(rest[0] == r);
                    assert(!glob_valid(rule_line(r.0, r.1)));
                    assert(first_invalid(rest) == Some(r));
                    assert(first_invalid(rs) == Some(r));
                    return Err(PatternError { kind: rule.kind, pattern: copy_string(&rule.pattern) });
                },
            }
        }
        assert(rs.take(n as int) =~= rs);
        assert(rs.skip(n as int) =~= Seq::<(Seq<char>, PatternKind)>::empty());
        let ps = PatternSet { root: root.to_string(), includes: inc, ignores: ign };
        assert(ps.model() =~= pattern_model(root@, rs));
        Ok(ps)
    }

    /// Whether the patterns leave out the walked `path` (a directory where `is_dir`).
    pub fn excludes(&self, path: &str, is_dir: bool) -> (r: bool)
        ensures
            r == excluded(self.model(), path@, is_dir),
    {
        proof {
            use_type_invariant(self);
        }
        let ghost m = self.model();
        let mut last_inc: Option<bool> = None;
        let mut any_whitelist = false;
        let ni = self.includes.len();
        assert(m.includes.take(0) =~= Seq::<(Seq<char>, bool)>::empty());
        for i in 0..ni
            invariant
                ni == self.includes@.len(),
                m == self.model(),
                ni == m.includes.len(),
                forall|k: int| 0 <= k < ni ==> #[trigger] self.includes@[k].0.root_text() == self.root@,
                last_inc == last_match(m.root, m.includes.take(i as int), path@, is_dir),
                any_whitelist == exists|k: int| 0 <= k < i && #[trigger] m.includes[k].1,
        {
            assert(m.includes[i as int] == (self.includes@[i as int].0.glob_text(), self.includes@[i as int].1));
            assert(m.includes.take(i + 1).drop_last() =~= m.includes.take(i as int));
            assert(m.includes.take(i + 1).last() == m.includes[i as int]);
            if glob_match(&self.includes[i].0, path, is_dir) {
                last_inc = Some(self.includes[i].1);
            }
            if self.includes[i].1 {
                any_whitelist = true;
                assert(m.includes[i as int].1);
            } else {
                assert(!m.includes[i as int].1);
            }
        }
        assert(m.includes.take(ni as int) =~= m.includes);
        let admitted = match last_inc {
            Some(w) => w,
            None => is_dir || !any_whitelist,
        };
        let mut last_ign: Option<bool> = None;
        let nr = self.ignores.len();
        assert(m.ignores.take(0) =~= Seq::<(Seq<char>, bool)>::empty());
        for i in 0..nr
            invariant
                nr == self.ignores@.len(),
                m == self.model(),
                nr == m.ignores.len(),
                forall|k: int| 0 <= k < nr ==> #[trigger] self.ignores@[k].0.root_text() == self.root@,
                last_ign == last_match(m.root, m.ignores.take(i as int), path@, is_dir),
        {
            assert(m.ignores[i as int] == (self.ignores@[i as int].0.glob_text(), self.ignores@[i as int].1));
            assert(m.ignores.take(i + 1).drop_last() =~= m.ignores.take(i as int));
            assert(m.ignores.take(i + 1).last() == m.ignores[i as int]);
            if glob_match(&self.ignores[i].0, path, is_dir) {
                last_ign = Some(self.ignores[i].1);
            }
        }
        assert(m.ignores.take(nr as int) =~= m.ignores);
        let ignored = match last_ign {
            Some(reinclude) => !reinclude,
            None => false,
        };
        !admitted || ignored
    }
}

} // verus!

//! Which walked files are unified: binary detection, and the per-entry filter with its skip
//! counts.
use vstd::prelude::*;

use crate::config::{Config, ConfigModel};
use crate::paths::{paths_equal, same_path};
use crate::patterns::{excluded, PatternModel, PatternSet};
use crate::text::{copy_string, same_text};

verus! {

// ---------------------------------------------------------------------------
// Binary detection
// ---------------------------------------------------------------------------

/// Whether `b` begins with `prefix`.
pub open spec fn bytes_start_with(b: Seq<u8>, prefix: Seq<u8>) -> bool {
    prefix.len() <= b.len() && b.take(prefix.len() as int) == prefix
}

/// Whether `content_inspector::inspect` reports the buffer as text: a known byte order mark
/// makes it text; otherwise a NUL byte among the first 1024 bytes, or a `%PDF` or `\x89PNG`
/// signature, makes it binary.
pub open spec fn inspects_as_text(b: Seq<u8>) -> bool {
    if bytes_start_with(b, seq![0xEFu8, 0xBBu8, 0xBFu8]) || bytes_start_with(
        b,
        seq![0x00u8, 0x00u8, 0xFEu8, 0xFFu8],
    ) || bytes_start_with(b, seq![0xFFu8, 0xFEu8, 0x00u8, 0x00u8]) || bytes_start_with(
        b,
        seq![0xFEu8, 0xFFu8],
    ) || bytes_start_with(b, seq![0xFFu8, 0xFEu8]) {
        true
    } else if b.take(if b.len() < 1024 {
        b.len() as int
    } else {
        1024
    }).contains(0u8) {
        false
    } else if bytes_start_with(b, seq![0x25u8, 0x50u8, 0x44u8, 0x46u8]) || bytes_start_with(
        b,
        seq![0x89u8, 0x50u8, 0x4Eu8, 0x47u8],
    ) {
        false
    } else {
        true
    }
}

/// `content_inspector::inspect(buf).is_text()`; the contract restates the crate's rule
/// (byte order marks, NUL bytes in the first 1024 bytes, PDF and PNG signatures).
#[verifier::external_body]
fn inspect_is_text(buf: &[u8]) -> (r: bool)
    ensures
        r == inspects_as_text(buf@),
{
    content_inspector::inspect(buf).is_text()
}

/// Whether the first bytes of a file, `head`, mark it as binary; an empty file is text.
pub fn is_binary_content(head: &[u8]) -> (r: bool)
    ensures
        r == (head@.len() > 0 && !inspects_as_text(head@)),
{
    if head.len() == 0 {
        return false;
    }
    !inspect_is_text(head)
}

// ---------------------------------------------------------------------------
// Entry filter
// ---------------------------------------------------------------------------

/// What the walk found out about one entry.
#[derive(Debug)]
pub struct WalkEntry {
    /// The walked path.
    pub path: String,
    /// Whether this is a path the walk started from (patterns do not apply to it).
    pub is_root: bool,
    /// The path relative to the working directory (the walked path where it is not below it).
    pub relative: String,
    pub is_dir: bool,
    /// Whether this is the config file in use.
    pub is_config_file: bool,
    pub is_symlink: bool,
    /// The canonical path (the walked path where it cannot be resolved).
    pub canonical: String,
    /// The size, where the metadata could be read.
    pub size: Option<u64>,
    /// Whether the file is binary, where its first bytes could be read.
    pub binary: Option<bool>,
}

/// The value of a `WalkEntry`.
pub struct EntryModel {
    pub path: Seq<char>,
    pub is_root: bool,
    pub relative: Seq<char>,
    pub is_dir: bool,
    pub is_config_file: bool,
    pub is_symlink: bool,
    pub canonical: Seq<char>,
    pub size: Option<u64>,
    pub binary: Option<bool>,
}

impl View for WalkEntry {
    type V = EntryModel;

    open spec fn view(&self) -> EntryModel {
        EntryModel {
            path: self.path@,
            is_root: self.is_root,
            relative: self.relative@,
            is_dir: self.is_dir,
            is_config_file: self.is_config_file,
            is_symlink: self.is_symlink,
            canonical: self.canonical@,
            size: self.size,
            binary: self.binary,
        }
    }
}

/// What becomes of a walked entry.
#[derive(Debug, Clone, Copy, PartialEq, Eq, Structural)]
pub enum Verdict {
    Excluded,
    Directory,
    ConfigFile,
    OutputFile,
    Symlink,
    Duplicate,
    TooLarge,
    Binary,
    Unreadable,
    Accepted,
}

/// Whether some path in `seen` equals `p` as a path.
pub open spec fn seen_has(seen: Seq<Seq<char>>, p: Seq<char>) -> bool {
    exists|i: int| 0 <= i < seen.len() && same_path(#[trigger] seen[i], p)
}

/// The verdict on an entry, given the canonical paths already seen and the patterns; checks
/// in order: the include and ignore patterns (not for a walk root), directories, the config
/// file, the output file, symlinks (unless followed), duplicates, size, binary content.
pub open spec fn verdict(e: EntryModel, seen: Seq<Seq<char>>, c: ConfigModel, m: PatternModel) -> Verdict {
    if !e.is_root && excluded(m, e.path, e.is_dir) {
        Verdict::Excluded
    } else if e.is_dir {
        Verdict::Directory
    } else if e.is_config_file {
        Verdict::ConfigFile
    } else if e.relative == c.output {
        Verdict::OutputFile
    } else if !c.follow_symlinks && e.is_symlink {
        Verdict::Symlink
    } else if seen_has(seen, e.canonical) {
        Verdict::Duplicate
    } else if c.max_file_size is Some && e.size is Some && e.size->0 > c.max_file_size->0 {
        Verdict::TooLarge
    } else if c.skip_binary && e.binary == Some(true) {
        Verdict::Binary
    } else if c.skip_binary && e.binary is None {
        Verdict::Unreadable
    } else {
        Verdict::Accepted
    }
}

/// Symlinks are skipped only where they are not followed: with `follow_symlinks` on no entry
/// is judged a skipped symlink; with it off, a symlinked file that the patterns keep and that
/// is neither the config nor the output file is.
pub proof fn lemma_symlinks_skipped_only_unfollowed(e: EntryModel, seen: Seq<Seq<char>>, c: ConfigModel, m: PatternModel)
    ensures
        c.follow_symlinks ==> verdict(e, seen, c, m) != Verdict::Symlink,
        !c.follow_symlinks && e.is_symlink && (e.is_root || !excluded(m, e.path, e.is_dir)) && !e.is_dir
            && !e.is_config_file && e.relative != c.output ==> verdict(e, seen, c, m) == Verdict::Symlink,
{
}

/// An entry is accepted exactly when it passes every check: the patterns keep it (or it is a
/// walk root), it is a file, neither the config nor the output file, not an unfollowed
/// symlink, not seen before, within the size limit, and not binary or unreadable where
/// binaries are skipped.
pub proof fn lemma_accepted_iff(e: EntryModel, seen: Seq<Seq<char>>, c: ConfigModel, m: PatternModel)
    ensures
        verdict(e, seen, c, m) == Verdict::Accepted <==> {
            &&& e.is_root || !excluded(m, e.path, e.is_dir)
            &&& !e.is_dir
            &&& !e.is_config_file
            &&& e.relative != c.output
            &&& c.follow_symlinks || !e.is_symlink
            &&& forall|i: int| 0 <= i < seen.len() ==> !same_path(#[trigger] seen[i], e.canonical)
            &&& !(c.max_file_size is Some && e.size is Some && e.size->0 > c.max_file_size->0)
            &&& c.skip_binary ==> e.binary == Some(false)
        },
{
    let unseen = forall|i: int| 0 <= i < seen.len() ==> !same_path(#[trigger] seen[i], e.canonical);
    if seen_has(seen, e.canonical) {
        let i = choose|i: int| 0 <= i < seen.len() && same_path(#[trigger] seen[i], e.canonical);
        assert(same_path(seen[i], e.canonical));
        assert(!unseen);
    } else {
        assert(unseen);
    }
    assert(verdict(e, seen, c, m) == Verdict::Accepted ==> unseen);
    assert(verdict(e, seen, c, m) == Verdict::Accepted ==> (c.skip_binary ==> e.binary == Some(false)));
    assert(verdict(e, seen, c, m) == Verdict::Accepted ==> !(c.max_file_size is Some && e.size is Some && e.size->0 > c.max_file_size->0));
}

/// Whether an entry with this verdict has its canonical path recorded as seen.
pub open spec fn marks_seen(v: Verdict) -> bool {
    v == Verdict::TooLarge || v == Verdict::Binary || v == Verdict::Unreadable || v
        == Verdict::Accepted
}

/// The running state of the walk filter.
#[derive(Debug)]
pub struct WalkTally {
    /// Canonical paths of the files seen so far.
    pub seen: Vec<String>,
    /// Paths of the accepted files, in walk order.
    pub accepted: Vec<String>,
    pub skipped_binary: u64,
    pub skipped_size: u64,
    pub skipped_symlink: u64,
}

impl WalkTally {
    /// The state before any entry.
    pub fn new() -> (r: WalkTally)
        ensures
            r.seen@.len() == 0,
            r.accepted@.len() == 0,
            r.skipped_binary == 0,
            r.skipped_size == 0,
            r.skipped_symlink == 0,
    {
        WalkTally {
            seen: Vec::new(),
            accepted: Vec::new(),
            skipped_binary: 0,
            skipped_size: 0,
            skipped_symlink: 0,
        }
    }

    /// Decides on one walked entry and records it: the canonical path of a non-duplicate
    /// file is marked seen, an accepted file's path is kept, and skips are counted.
    pub fn record_entry(&mut self, e: &WalkEntry, config: &Config, patterns: &PatternSet) -> (v: Verdict)
        requires
            old(self).skipped_binary < u64::MAX,
            old(self).skipped_size < u64::MAX,
            old(self).skipped_symlink < u64::MAX,
        ensures
            v == verdict(e@, old(self).seen.deep_view(), config@, patterns.model()),
            final(self).seen.deep_view() == if marks_seen(v) {
                old(self).seen.deep_view().push(e@.canonical)
            } else {
                old(self).seen.deep_view()
            },
            final(self).accepted.deep_view() == if v == Verdict::Accepted {
                old(self).accepted.deep_view().push(e@.path)
            } else {
                old(self).accepted.deep_view()
            },
            final(self).skipped_binary == old(self).skipped_binary + if v == Verdict::Binary {
                1int
            } else {
                0int
            },
            final(self).skipped_size == old(self).skipped_size + if v == Verdict::TooLarge {
                1int
            } else {
                0int
            },
            final(self).skipped_symlink == old(self).skipped_symlink + if v == Verdict::Symlink {
                1int
            } else {
                0int
            },
    {
        if !e.is_root && patterns.excludes(e.path.as_str(), e.is_dir) {
            return Verdict::Excluded;
        }
        if e.is_dir {
            return Verdict::Directory;
        }
        if e.is_config_file {
            return Verdict::ConfigFile;
        }
        if same_text(e.relative.as_str(), config.output.as_str()) {
            return Verdict::OutputFile;
        }
        if !config.follow_symlinks && e.is_symlink {
            self.skipped_symlink = self.skipped_symlink + 1;
            return Verdict::Symlink;
        }
        if seen_contains(&self.seen, &e.canonical) {
            return Verdict::Duplicate;
        }
        let ghost before = self.seen.deep_view();
        self.seen.push(copy_string(&e.canonical));
        assert(self.seen.deep_view() =~= before.push(e@.canonical));
        match (config.max_file_size, e.size) {
            (Some(max), Some(size)) => {
                if size > max {
                    self.skipped_size = self.skipped_size + 1;
                    return Verdict::TooLarge;
                }
            },
            _ => {},
        }
        if config.skip_binary {
            match e.binary {
                Some(true) => {
                    self.skipped_binary = self.skipped_binary + 1;
                    return Verdict::Binary;
                },
                None => {
                    return Verdict::Unreadable;
                },
                _ => {},
            }
        }
        let ghost acc = self.accepted.deep_view();
        self.accepted.push(copy_string(&e.path));
        assert(self.accepted.deep_view() =~= acc.push(e@.path));
        Verdict::Accepted
    }
}

/// Whether some path in `seen` equals `name` as a path.
fn seen_contains(seen: &Vec<String>, name: &String) -> (r: bool)
    ensures
        r == seen_has(seen.deep_view(), name@),
{
    let n = seen.len();
    for i in 0..n
        invariant
            n == seen@.len(),
            forall|j: int| 0 <= j < i ==> !same_path(#[trigger] seen.deep_view()[j], name@),
    {
        assert(seen.deep_view()[i as int] == seen@[i as int]@);
        if paths_equal(seen[i].as_str(), name.as_str()) {
            return true;
        }
    }
    false
}

/// The canonical paths seen after a run of entries.
pub open spec fn seen_after(entries: Seq<EntryModel>, c: ConfigModel, m: PatternModel) -> Seq<Seq<char>>
    decreases entries.len(),
{
    if entries.len() == 0 {
        Seq::empty()
    } else {
        let before = seen_after(entries.drop_last(), c, m);
        let e = entries.last();
        if marks_seen(verdict(e, before, c, m)) {
            before.push(e.canonical)
        } else {
            before
        }
    }
}

/// The verdict on entry `i` of a run.
pub open spec fn verdict_in_run(entries: Seq<EntryModel>, i: int, c: ConfigModel, m: PatternModel) -> Verdict {
    verdict(entries[i], seen_after(entries.take(i), c, m), c, m)
}

proof fn lemma_seen_grows(entries: Seq<EntryModel>, i: int, j: int, c: ConfigModel, m: PatternModel, x: Seq<char>)
    requires
        0 <= i <= j <= entries.len(),
        seen_after(entries.take(i), c, m).contains(x),
    ensures
        seen_after(entries.take(j), c, m).contains(x),
    decreases j - i,
{
    if i < j {
        lemma_seen_grows(entries, i, j - 1, c, m, x);
        assert(entries.take(j).drop_last() =~= entries.take(j - 1));
        let before = seen_after(entries.take(j - 1), c, m);
        let k = choose|k: int| 0 <= k < before.len() && before[k] == x;
        assert(before.push(entries[j - 1].canonical)[k] == x);
    }
}

/// A file is taken at most once: two accepted entries of a run never have canonical paths
/// that are equal as paths.
pub proof fn lemma_accepted_once(entries: Seq<EntryModel>, c: ConfigModel, m: PatternModel, i: int, j: int)
    requires
        0 <= i < j < entries.len(),
        verdict_in_run(entries, i, c, m) == Verdict::Accepted,
        verdict_in_run(entries, j, c, m) == Verdict::Accepted,
    ensures
        !same_path(entries[i].canonical, entries[j].canonical),
{
    let t = entries.take(i + 1);
    assert(t.drop_last() =~= entries.take(i));
    assert(t.last() == entries[i]);
    let s = seen_after(t, c, m);
    assert(s[s.len() - 1] == entries[i].canonical);
    assert(s.contains(entries[i].canonical));
    lemma_seen_grows(entries, i + 1, j, c, m, entries[i].canonical);
    let later = seen_after(entries.take(j), c, m);
    let k = choose|k: int| 0 <= k < later.len() && later[k] == entries[i].canonical;
    assert(same_path(later[k], entries[j].canonical) ==> seen_has(later, entries[j].canonical));
}

} // verus!

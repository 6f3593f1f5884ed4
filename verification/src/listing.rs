//! Directory listings of the file manager: what an entry shows, and the
//! order entries are shown in (directories first, then by name).
use vstd::prelude::*;
use vstd::relations::sorted_by;
use crate::text::{chars_of, matches_at, owned, starts_with, string_of_range};

verus! {

/// One entry of a directory listing.
pub struct FileEntry {
    pub name: String,
    /// The path below the web root.
    pub path: String,
    pub is_dir: bool,
    /// Bytes, for files; 0 for anything else.
    pub size: u64,
    pub modified: String,
}

/// Code-point order on names, which is the byte order of their UTF-8 forms
/// and so the order `String` compares by.
pub open spec fn name_le(a: Seq<char>, b: Seq<char>) -> bool
    decreases a.len(),
{
    if a.len() == 0 {
        true
    } else if b.len() == 0 {
        false
    } else if a[0] != b[0] {
        a[0] < b[0]
    } else {
        name_le(a.drop_first(), b.drop_first())
    }
}

/// The listing order: directories before everything else, then by name.
pub open spec fn entry_le(a: FileEntry, b: FileEntry) -> bool {
    (a.is_dir && !b.is_dir) || (a.is_dir == b.is_dir && name_le(a.name@, b.name@))
}

proof fn lemma_name_le_total(a: Seq<char>, b: Seq<char>)
    ensures
        name_le(a, b) || name_le(b, a),
    decreases a.len(),
{
    if a.len() > 0 && b.len() > 0 && a[0] == b[0] {
        lemma_name_le_total(a.drop_first(), b.drop_first());
    }
}

proof fn lemma_name_le_trans(a: Seq<char>, b: Seq<char>, c: Seq<char>)
    requires
        name_le(a, b),
        name_le(b, c),
    ensures
        name_le(a, c),
    decreases a.len(),
{
    if a.len() > 0 && b.len() > 0 && c.len() > 0 && a[0] == b[0] && b[0] == c[0] {
        lemma_name_le_trans(a.drop_first(), b.drop_first(), c.drop_first());
    }
}

proof fn lemma_entry_le_total(a: FileEntry, b: FileEntry)
    ensures
        entry_le(a, b) || entry_le(b, a),
{
    lemma_name_le_total(a.name@, b.name@);
}

proof fn lemma_entry_le_trans(a: FileEntry, b: FileEntry, c: FileEntry)
    requires
        entry_le(a, b),
        entry_le(b, c),
    ensures
        entry_le(a, c),
{
    if a.is_dir == b.is_dir && b.is_dir == c.is_dir {
        lemma_name_le_trans(a.name@, b.name@, c.name@);
    }
}

/// Compares two names in code-point order.
pub fn names_in_order(a: &str, b: &str) -> (r: bool)
    ensures
        r == name_le(a@, b@),
{
    let x = chars_of(a);
    let y = chars_of(b);
    let mut i: usize = 0;
    assert(x@.skip(0) =~= x@);
    assert(y@.skip(0) =~= y@);
    loop
        invariant
            x@ == a@,
            y@ == b@,
            i <= x.len(),
            i <= y.len(),
            name_le(a@, b@) == name_le(x@.skip(i as int), y@.skip(i as int)),
        decreases x.len() - i,
    {
        if i == x.len() {
            return true;
        }
        if i == y.len() {
            return false;
        }
        if x[i] != y[i] {
            return x[i] < y[i];
        }
        assert(x@.skip(i as int).drop_first() =~= x@.skip(i + 1));
        assert(y@.skip(i as int).drop_first() =~= y@.skip(i + 1));
        i += 1;
    }
}

fn entry_in_order(a: &FileEntry, b: &FileEntry) -> (r: bool)
    ensures
        r == entry_le(*a, *b),
{
    if a.is_dir != b.is_dir {
        a.is_dir
    } else {
        names_in_order(a.name.as_str(), b.name.as_str())
    }
}

/// Sorts a listing: directories first, then by name. The result holds the
/// same entries.
pub fn sort_entries(entries: Vec<FileEntry>) -> (r: Vec<FileEntry>)
    ensures
        sorted_by(r@, |a: FileEntry, b: FileEntry| entry_le(a, b)),
        r@.to_multiset() == entries@.to_multiset(),
{
    let ghost le = |a: FileEntry, b: FileEntry| entry_le(a, b);
    let mut out: Vec<FileEntry> = Vec::new();
    let mut rest = entries;
    let ghost orig = rest@;
    let ghost mut taken: Seq<FileEntry> = Seq::empty();
    assert(orig.take(0) =~= Seq::<FileEntry>::empty());
    while rest.len() > 0
        invariant
            sorted_by(out@, le),
            le == (|a: FileEntry, b: FileEntry| entry_le(a, b)),
            orig.len() == taken.len() + rest@.len(),
            taken =~= orig.take(taken.len() as int),
            rest@ =~= orig.skip(taken.len() as int),
            out@.to_multiset() == taken.to_multiset(),
        decreases rest.len(),
    {
        let e = rest.remove(0);
        let ghost old_taken = taken;
        proof {
            assert(orig.take(taken.len() + 1 as int) =~= taken.push(e));
            taken = taken.push(e);
        }
        let mut pos: usize = 0;
        while pos < out.len() && entry_in_order(&out[pos], &e)
            invariant
                pos <= out.len(),
                forall|k: int| 0 <= k < pos ==> entry_le(#[trigger] out@[k], e),
            decreases out.len() - pos,
        {
            pos += 1;
        }
        let ghost before = out@;
        proof {
            if pos < before.len() {
                lemma_entry_le_total(before[pos as int], e);
            }
        }
        out.insert(pos, e);
        proof {
            assert(out@ =~= before.insert(pos as int, e));
            vstd::seq_lib::to_multiset_insert(before, pos as int, e);
            vstd::seq_lib::to_multiset_build(old_taken, e);
            assert forall|i: int, j: int| 0 <= i < j < out@.len() implies #[trigger] le(
                out@[i],
                out@[j],
            ) by {
                if j < pos {
                    assert(le(before[i], before[j]));
                } else if j == pos {
                    assert(entry_le(before[i], e));
                } else if i == pos {
                    assert(entry_le(e, before[pos as int]));
                    if pos < j - 1 {
                        assert(le(before[pos as int], before[j - 1]));
                        lemma_entry_le_trans(e, before[pos as int], before[j - 1]);
                    }
                } else if i < pos {
                    assert(le(before[i], before[j - 1]));
                } else {
                    assert(le(before[i - 1], before[j - 1]));
                }
            }
        }
    }
    assert(taken =~= orig);
    out
}

/// The path of an entry as shown: below the web root when it is there,
/// else the full path.
pub open spec fn shown_path_text(full: Seq<char>, base: Seq<char>) -> Seq<char> {
    if starts_with(full, base) {
        full.skip(base.len() as int)
    } else {
        full
    }
}

/// The path of an entry as shown (`str::strip_prefix` of the web root).
pub fn shown_path(full: &str, base: &str) -> (r: String)
    ensures
        r@ == shown_path_text(full@, base@),
{
    let f = chars_of(full);
    let b = chars_of(base);
    if matches_at(&f, 0, &b) {
        let r = string_of_range(&f, b.len(), f.len());
        assert(f@.subrange(b.len() as int, f.len() as int) =~= f@.skip(base@.len() as int));
        r
    } else {
        owned(full)
    }
}

/// Builds a listing entry; only files show a size.
pub fn listing_entry(name: String, path: String, is_dir: bool, is_file: bool, len: u64, modified: String) -> (e: FileEntry)
    ensures
        e.name == name,
        e.path == path,
        e.is_dir == is_dir,
        e.size == (if is_file { len } else { 0 }),
        e.modified == modified,
{
    FileEntry { name, path, is_dir, size: if is_file { len } else { 0 }, modified }
}

// ───────────────────────── size limits ─────────────────────────

/// Largest file the editor opens: 1 MiB.
pub const EDITOR_MAX: u64 = 1048576;

/// Largest content the editor saves: 5 MiB.
pub const SAVE_MAX: u64 = 5242880;

/// Largest file offered for download: 200 MiB.
pub const DOWNLOAD_MAX: u64 = 209715200;

/// Largest total of one upload: 50 MiB.
pub const UPLOAD_MAX: u64 = 52428800;

/// Whether a file of `len` bytes may be opened in the editor.
pub fn editor_can_open(len: u64) -> (r: bool)
    ensures
        r == (len <= 1048576),
{
    len <= EDITOR_MAX
}

/// Whether `len` bytes of content may be saved from the editor.
pub fn editor_can_save(len: u64) -> (r: bool)
    ensures
        r == (len <= 5242880),
{
    len <= SAVE_MAX
}

/// Whether a file of `len` bytes may be downloaded.
pub fn download_allowed(len: u64) -> (r: bool)
    ensures
        r == (len <= 209715200),
{
    len <= DOWNLOAD_MAX
}

/// Whether an upload may go on after `total` bytes.
pub fn upload_within_limit(total: u64) -> (r: bool)
    ensures
        r == (total <= 52428800),
{
    total <= UPLOAD_MAX
}

} // verus!

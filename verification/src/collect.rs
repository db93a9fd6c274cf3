//! The file collector: turns the raw path list (an explicit set or the
//! output of a directory walk) into the ordered sequence of candidate
//! files, dropping blank entries, unreadable files and empty files, and
//! optionally ordering the candidates by size.

use vstd::prelude::*;
use vstd::string::*;

verus! {

/// A discovered file together with its size in bytes.
#[derive(Debug)]
pub struct FileMeta {
    pub path: String,
    pub size: u64,
}

/// A path as handed back by the size query: `size` is `None` when the
/// file's metadata could not be read.
#[derive(Debug)]
pub struct StatEntry {
    pub path: String,
    pub size: Option<u64>,
}

/// ASCII whitespace.
pub open spec fn is_space_char(c: char) -> bool {
    c == ' ' || c == '\t' || c == '\n' || c == '\r' || c == '\u{b}' || c == '\u{c}'
}

/// A string is blank when every character is whitespace; the empty
/// string is blank.
pub open spec fn is_blank(s: Seq<char>) -> bool {
    forall|i: int| 0 <= i < s.len() ==> is_space_char(#[trigger] s[i])
}

/// Decides [`is_blank`] for a string slice.
pub fn is_blank_str(s: &str) -> (b: bool)
    ensures
        b == is_blank(s@),
{
    let n = s.unicode_len();
    let mut j: usize = 0;
    while j < n
        invariant
            j <= n,
            n == s@.len(),
            forall|k: int| 0 <= k < j ==> is_space_char(#[trigger] s@[k]),
        decreases n - j,
    {
        let c = s.get_char(j);
        if !(c == ' ' || c == '\t' || c == '\n' || c == '\r' || c == '\u{b}' || c == '\u{c}') {
            return false;
        }
        j += 1;
    }
    true
}

/// The subsequence of `s` whose entries are not blank, in order.
pub open spec fn nonblank_of(s: Seq<String>) -> Seq<String>
    decreases s.len(),
{
    if s.len() == 0 {
        Seq::empty()
    } else {
        let rest = nonblank_of(s.drop_last());
        if is_blank(s.last()@) {
            rest
        } else {
            rest.push(s.last())
        }
    }
}

/// Removes blank entries from an explicit path list, keeping the order
/// of the rest.
pub fn drop_blank(files: Vec<String>) -> (r: Vec<String>)
    ensures
        r@ == nonblank_of(files@),
{
    let ghost all = files@;
    let mut files = files;
    let mut out: Vec<String> = Vec::new();
    proof {
        assert(files@ =~= all.subrange(all.len() - files@.len(), all.len() as int));
        assert(all.take(0) =~= Seq::<String>::empty());
    }
    while files.len() > 0
        invariant
            files@.len() <= all.len(),
            files@ == all.subrange(all.len() - files@.len(), all.len() as int),
            out@ == nonblank_of(all.take(all.len() - files@.len())),
        decreases files@.len(),
    {
        let ghost k = all.len() - files@.len();
        let x = files.remove(0);
        proof {
            assert(x == all[k]);
            assert(files@ =~= all.subrange(k + 1, all.len() as int));
            assert(all.take(k + 1).drop_last() =~= all.take(k));
            assert(all.take(k + 1).last() == all[k]);
        }
        if !is_blank_str(x.as_str()) {
            out.push(x);
        }
        proof {
            assert(out@ == nonblank_of(all.take(k + 1)));
        }
    }
    proof {
        assert(all.take(all.len() as int) =~= all);
    }
    out
}

/// The candidates among the statted entries: readable files of
/// non-zero size, in order, with their sizes attached.
pub open spec fn candidates_of(s: Seq<StatEntry>) -> Seq<FileMeta>
    decreases s.len(),
{
    if s.len() == 0 {
        Seq::empty()
    } else {
        let rest = candidates_of(s.drop_last());
        match s.last().size {
            Some(sz) => if sz > 0 {
                rest.push(FileMeta { path: s.last().path, size: sz })
            } else {
                rest
            },
            None => rest,
        }
    }
}

/// The entries whose metadata could not be read, in order.
pub open spec fn unreadable_of(s: Seq<StatEntry>) -> Seq<String>
    decreases s.len(),
{
    if s.len() == 0 {
        Seq::empty()
    } else {
        let rest = unreadable_of(s.drop_last());
        match s.last().size {
            Some(_) => rest,
            None => rest.push(s.last().path),
        }
    }
}

/// A run never gains candidates: at most one per statted entry.
pub proof fn lemma_candidates_bounded(s: Seq<StatEntry>)
    ensures
        candidates_of(s).len() <= s.len(),
    decreases s.len(),
{
    if s.len() > 0 {
        lemma_candidates_bounded(s.drop_last());
    }
}

/// Splits the statted entries into the candidate list (readable,
/// non-zero size) and the list of unreadable paths to warn about;
/// zero-byte files are silently dropped.
pub fn collect_candidates(entries: Vec<StatEntry>) -> (r: (Vec<FileMeta>, Vec<String>))
    ensures
        r.0@ == candidates_of(entries@),
        r.1@ == unreadable_of(entries@),
{
    let ghost all = entries@;
    let mut entries = entries;
    let mut kept: Vec<FileMeta> = Vec::new();
    let mut failed: Vec<String> = Vec::new();
    proof {
        assert(entries@ =~= all.subrange(all.len() - entries@.len(), all.len() as int));
        assert(all.take(0) =~= Seq::<StatEntry>::empty());
    }
    while entries.len() > 0
        invariant
            entries@.len() <= all.len(),
            entries@ == all.subrange(all.len() - entries@.len(), all.len() as int),
            kept@ == candidates_of(all.take(all.len() - entries@.len())),
            failed@ == unreadable_of(all.take(all.len() - entries@.len())),
        decreases entries@.len(),
    {
        let ghost k = all.len() - entries@.len();
        let e = entries.remove(0);
        proof {
            assert(e == all[k]);
            assert(entries@ =~= all.subrange(k + 1, all.len() as int));
            assert(all.take(k + 1).drop_last() =~= all.take(k));
            assert(all.take(k + 1).last() == all[k]);
        }
        match e.size {
            Some(sz) => {
                if sz > 0 {
                    kept.push(FileMeta { path: e.path, size: sz });
                }
            },
            None => {
                failed.push(e.path);
            },
        }
        proof {
            assert(kept@ == candidates_of(all.take(k + 1)));
            assert(failed@ == unreadable_of(all.take(k + 1)));
        }
    }
    proof {
        assert(all.take(all.len() as int) =~= all);
    }
    (kept, failed)
}

/// Size order for the file list: ascending, or descending when the
/// order is reversed.
pub open spec fn size_le(reverse: bool, a: FileMeta, b: FileMeta) -> bool {
    if reverse {
        a.size >= b.size
    } else {
        a.size <= b.size
    }
}

/// The list is sorted for the chosen direction.
pub open spec fn sorted_by_size(reverse: bool, s: Seq<FileMeta>) -> bool {
    forall|i: int, j: int| 0 <= i < j < s.len() ==> size_le(reverse, #[trigger] s[i], #[trigger] s[j])
}

fn size_le_exec(reverse: bool, a: &FileMeta, b: &FileMeta) -> (r: bool)
    ensures
        r == size_le(reverse, *a, *b),
{
    if reverse {
        a.size >= b.size
    } else {
        a.size <= b.size
    }
}

/// Orders the candidate list by file size: non-decreasing, or
/// non-increasing when `reverse` is set.  The list keeps exactly the
/// same files.
pub fn sort_files_by_size(files: &mut Vec<FileMeta>, reverse: bool)
    ensures
        sorted_by_size(reverse, final(files)@),
        final(files)@.to_multiset() == old(files)@.to_multiset(),
        final(files)@.len() == old(files)@.len(),
{
    broadcast use vstd::seq_lib::group_to_multiset_ensures;
    broadcast use vstd::multiset::group_multiset_axioms;

    let ghost orig = files@;
    let mut i: usize = 0;
    while i < files.len()
        invariant
            i <= files@.len(),
            files@.len() == orig.len(),
            files@.to_multiset() == orig.to_multiset(),
            sorted_by_size(reverse, files@.take(i as int)),
        decreases files@.len() - i,
    {
        let ghost v1 = files@;
        let x = files.remove(i);
        let ghost v2 = files@;
        let mut p: usize = 0;
        while p < i && size_le_exec(reverse, &files[p], &x)
            invariant
                p <= i,
                i < v1.len(),
                files@ == v2,
                v2 == v1.remove(i as int),
                forall|k: int| 0 <= k < p ==> size_le(reverse, #[trigger] v2[k], x),
            decreases i - p,
        {
            p += 1;
        }
        files.insert(p, x);
        proof {
            let v3 = files@;
            assert(v3 == v2.insert(p as int, x));
            assert(v2.take(i as int) =~= v1.take(i as int));
            assert forall|a: int, b: int| 0 <= a < b < i + 1 implies #[trigger] size_le(
                reverse,
                v3.take(i + 1)[a],
                v3.take(i + 1)[b],
            ) by {
                if b < p {
                    assert(size_le(reverse, v2[a], v2[b]));
                } else if b == p {
                    assert(size_le(reverse, v2[a], x));
                } else if a < p {
                    assert(size_le(reverse, v2[a], v2[b - 1]));
                } else if a == p {
                    if p < i {
                        assert(!size_le(reverse, v2[p as int], x));
                        assert(size_le(reverse, x, v2[p as int]));
                        assert(size_le(reverse, v2[p as int], v2[b - 1]));
                    }
                } else {
                    assert(size_le(reverse, v2[a - 1], v2[b - 1]));
                }
            }
            assert(sorted_by_size(reverse, v3.take(i + 1)));
            assert(v1[i as int] == x);
            assert(v1.contains(x));
            vstd::seq_lib::to_multiset_contains(v1, x);
            vstd::seq_lib::to_multiset_remove(v1, i as int);
            vstd::seq_lib::to_multiset_insert(v2, p as int, x);
            assert(v1.to_multiset().count(x) > 0);
            assert(v2.to_multiset() == v1.to_multiset().remove(x));
            assert(v3.to_multiset() == v2.to_multiset().insert(x));
            assert(v3.to_multiset() =~= v1.to_multiset());
        }
        i += 1;
    }
    proof {
        assert(files@.take(files@.len() as int) =~= files@);
    }
}

/// The last dot-separated segment of a path: the extension, or the
/// whole string when it holds no dot.
pub open spec fn ext_of(s: Seq<char>) -> Seq<char>
    decreases s.len(),
{
    if s.len() == 0 {
        Seq::empty()
    } else if s.last() == '.' {
        Seq::empty()
    } else {
        ext_of(s.drop_last()).push(s.last())
    }
}

proof fn lemma_ext_of_after_dot(s: Seq<char>, k: int)
    requires
        0 <= k < s.len(),
        s[k] == '.',
        forall|j: int| k < j < s.len() ==> s[j] != '.',
    ensures
        ext_of(s) == s.subrange(k + 1, s.len() as int),
    decreases s.len(),
{
    if k == s.len() - 1 {
        assert(s.subrange(k + 1, s.len() as int) =~= Seq::<char>::empty());
    } else {
        lemma_ext_of_after_dot(s.drop_last(), k);
        assert(s.subrange(k + 1, s.len() as int) =~= s.drop_last().subrange(
            k + 1,
            s.len() - 1,
        ).push(s.last()));
    }
}

proof fn lemma_ext_of_no_dot(s: Seq<char>)
    requires
        forall|j: int| 0 <= j < s.len() ==> s[j] != '.',
    ensures
        ext_of(s) == s,
    decreases s.len(),
{
    if s.len() > 0 {
        lemma_ext_of_no_dot(s.drop_last());
        assert(s.drop_last().push(s.last()) =~= s);
    }
}

/// Returns [`ext_of`] the path: everything after the last dot, or the
/// whole path when there is none.
pub fn path_extension(s: &str) -> (r: String)
    ensures
        r@ == ext_of(s@),
{
    let n = s.unicode_len();
    let mut j: usize = n;
    while j > 0
        invariant
            j <= n,
            n == s@.len(),
            forall|idx: int| j <= idx < n ==> s@[idx] != '.',
        decreases j,
    {
        if s.get_char(j - 1) == '.' {
            let r = s.substring_char(j, n).to_owned();
            proof {
                lemma_ext_of_after_dot(s@, j - 1);
            }
            return r;
        }
        j -= 1;
    }
    let r = s.to_owned();
    proof {
        lemma_ext_of_no_dot(s@);
    }
    r
}

/// The views of a list of strings.
pub open spec fn views(s: Seq<String>) -> Seq<Seq<char>> {
    s.map_values(|x: String| x@)
}

/// The `-name` pattern arguments of the directory walk, one pattern
/// per registered extension of the active group: images
/// (png/jpg/jpeg/avif/heic) or video (mp4/mkv/webm/mov/avi).
pub open spec fn name_pattern_rep(images: bool) -> Seq<Seq<char>> {
    if images {
        seq![
            "-name"@,
            "*.png"@,
            "-o"@,
            "-name"@,
            "*.jpg"@,
            "-o"@,
            "-name"@,
            "*.jpeg"@,
            "-o"@,
            "-name"@,
            "*.avif"@,
            "-o"@,
            "-name"@,
            "*.heic"@,
        ]
    } else {
        seq![
            "-name"@,
            "*.mp4"@,
            "-o"@,
            "-name"@,
            "*.mkv"@,
            "-o"@,
            "-name"@,
            "*.webm"@,
            "-o"@,
            "-name"@,
            "*.mov"@,
            "-o"@,
            "-name"@,
            "*.avi"@,
        ]
    }
}

/// The full argument list of the directory walk: the root path, an
/// optional recursion depth bound, a plain-file filter, and the
/// extension patterns of the active group.
pub open spec fn find_args_rep(path: Seq<char>, depth: Option<Seq<char>>, images: bool) -> Seq<
    Seq<char>,
> {
    seq![path] + (match depth {
        Some(d) => seq!["-maxdepth"@, d],
        None => Seq::<Seq<char>>::empty(),
    }) + seq!["-type"@, "f"@] + name_pattern_rep(images)
}

/// Builds the argument list for the file-search utility.
pub fn find_args(path: &str, depth: Option<&str>, images: bool) -> (r: Vec<String>)
    ensures
        views(r@) == find_args_rep(
            path@,
            match depth {
                Some(d) => Some(d@),
                None => None,
            },
            images,
        ),
{
    let mut r: Vec<String> = Vec::new();
    r.push(path.to_owned());
    match depth {
        Some(d) => {
            r.push("-maxdepth".to_owned());
            r.push(d.to_owned());
        },
        None => {},
    }
    r.push("-type".to_owned());
    r.push("f".to_owned());
    if images {
        r.push("-name".to_owned());
        r.push("*.png".to_owned());
        r.push("-o".to_owned());
        r.push("-name".to_owned());
        r.push("*.jpg".to_owned());
        r.push("-o".to_owned());
        r.push("-name".to_owned());
        r.push("*.jpeg".to_owned());
        r.push("-o".to_owned());
        r.push("-name".to_owned());
        r.push("*.avif".to_owned());
        r.push("-o".to_owned());
        r.push("-name".to_owned());
        r.push("*.heic".to_owned());
    } else {
        r.push("-name".to_owned());
        r.push("*.mp4".to_owned());
        r.push("-o".to_owned());
        r.push("-name".to_owned());
        r.push("*.mkv".to_owned());
        r.push("-o".to_owned());
        r.push("-name".to_owned());
        r.push("*.webm".to_owned());
        r.push("-o".to_owned());
        r.push("-name".to_owned());
        r.push("*.mov".to_owned());
        r.push("-o".to_owned());
        r.push("-name".to_owned());
        r.push("*.avi".to_owned());
    }
    proof {
        assert(views(r@) =~= find_args_rep(
            path@,
            match depth {
                Some(d) => Some(d@),
                None => None,
            },
            images,
        ));
    }
    r
}

} // verus!

//! The directory walk's rules: which entries are PDF files, which are
//! subdirectories to descend into, and the deterministic order in which the
//! discovered paths are processed.

use vstd::prelude::*;
use vstd::string::*;
use vstd::utf8::encode_utf8;

verus! {

/// Whether the last component of `p` has the extension `pdf` in any letter
/// case: the path ends in `.pdf` and the dot does not begin the file name.
pub open spec fn has_pdf_extension_spec(p: Seq<char>) -> bool {
    let n = p.len();
    &&& n >= 5
    &&& p[n - 5] != '/'
    &&& p[n - 4] == '.'
    &&& (p[n - 3] == 'p' || p[n - 3] == 'P')
    &&& (p[n - 2] == 'd' || p[n - 2] == 'D')
    &&& (p[n - 1] == 'f' || p[n - 1] == 'F')
}

/// Whether the file at `path` is taken for a PDF by its extension.
pub fn has_pdf_extension(path: &String) -> (r: bool)
    ensures
        r == has_pdf_extension_spec(path@),
{
    let s = path.as_str();
    let n = s.unicode_len();
    if n < 5 {
        return false;
    }
    let c0 = s.get_char(n - 5);
    let c1 = s.get_char(n - 4);
    let c2 = s.get_char(n - 3);
    let c3 = s.get_char(n - 2);
    let c4 = s.get_char(n - 1);
    c0 != '/' && c1 == '.' && (c2 == 'p' || c2 == 'P') && (c3 == 'd' || c3 == 'D') && (c4 == 'f'
        || c4 == 'F')
}

/// What a directory entry resolves to.
#[derive(Debug, Clone, Copy, PartialEq, Eq, Structural)]
pub enum EntryKind {
    File,
    Directory,
    Other,
}

/// One entry of a directory listing: its full path and what it resolves to.
#[derive(Debug)]
pub struct DirEntryInfo {
    pub path: String,
    pub kind: EntryKind,
}

/// The paths of the entries that are PDF files, in listing order.
pub open spec fn pdf_paths(es: Seq<DirEntryInfo>) -> Seq<String>
    decreases es.len(),
{
    if es.len() == 0 {
        Seq::empty()
    } else {
        let rest = pdf_paths(es.drop_last());
        let e = es.last();
        if e.kind == EntryKind::File && has_pdf_extension_spec(e.path@) {
            rest.push(e.path)
        } else {
            rest
        }
    }
}

/// The paths of the entries that are directories, in listing order.
pub open spec fn subdir_paths(es: Seq<DirEntryInfo>) -> Seq<String>
    decreases es.len(),
{
    if es.len() == 0 {
        Seq::empty()
    } else {
        let rest = subdir_paths(es.drop_last());
        let e = es.last();
        if e.kind == EntryKind::Directory {
            rest.push(e.path)
        } else {
            rest
        }
    }
}

/// Splits a directory listing into the PDF files found there and the
/// subdirectories to descend into; other entries are dropped.
pub fn partition_entries(entries: &Vec<DirEntryInfo>) -> (r: (Vec<String>, Vec<String>))
    ensures
        r.0@ == pdf_paths(entries@),
        r.1@ == subdir_paths(entries@),
{
    let mut pdfs: Vec<String> = Vec::new();
    let mut dirs: Vec<String> = Vec::new();
    let mut i: usize = 0;
    while i < entries.len()
        invariant
            i <= entries.len(),
            pdfs@ == pdf_paths(entries@.subrange(0, i as int)),
            dirs@ == subdir_paths(entries@.subrange(0, i as int)),
        decreases entries.len() - i,
    {
        let e = &entries[i];
        proof {
            let s = entries@.subrange(0, i + 1);
            assert(s.drop_last() =~= entries@.subrange(0, i as int));
            assert(s.last() == entries@[i as int]);
        }
        if e.kind == EntryKind::File && has_pdf_extension(&e.path) {
            pdfs.push(e.path.clone());
        } else if e.kind == EntryKind::Directory {
            dirs.push(e.path.clone());
        }
        i = i + 1;
    }
    assert(entries@.subrange(0, entries@.len() as int) =~= entries@);
    (pdfs, dirs)
}

/// Lexicographic order on byte strings.
pub open spec fn bytes_le(a: Seq<u8>, b: Seq<u8>) -> bool
    decreases a.len(),
{
    if a.len() == 0 {
        true
    } else if b.len() == 0 {
        false
    } else if a[0] != b[0] {
        a[0] < b[0]
    } else {
        bytes_le(a.drop_first(), b.drop_first())
    }
}

/// The order of paths: by their UTF-8 bytes, which is the order of their
/// characters' code points.
pub open spec fn path_le(a: String, b: String) -> bool {
    bytes_le(encode_utf8(a@), encode_utf8(b@))
}

/// Paths in ascending order.
pub open spec fn paths_sorted(s: Seq<String>) -> bool {
    forall|i: int, j: int| 0 <= i < j < s.len() ==> path_le(#[trigger] s[i], #[trigger] s[j])
}

pub proof fn lemma_bytes_le_total(a: Seq<u8>, b: Seq<u8>)
    ensures
        bytes_le(a, b) || bytes_le(b, a),
    decreases a.len(),
{
    if a.len() > 0 && b.len() > 0 && a[0] == b[0] {
        lemma_bytes_le_total(a.drop_first(), b.drop_first());
    }
}

pub proof fn lemma_bytes_le_trans(a: Seq<u8>, b: Seq<u8>, c: Seq<u8>)
    requires
        bytes_le(a, b),
        bytes_le(b, c),
    ensures
        bytes_le(a, c),
    decreases a.len(),
{
    if a.len() > 0 && b.len() > 0 && c.len() > 0 && a[0] == b[0] && b[0] == c[0] {
        lemma_bytes_le_trans(a.drop_first(), b.drop_first(), c.drop_first());
    }
}

/// Comparing from a common prefix of length `i` on.
pub proof fn lemma_bytes_le_skip(a: Seq<u8>, b: Seq<u8>, i: int)
    requires
        0 <= i <= a.len(),
        i <= b.len(),
        a.subrange(0, i) == b.subrange(0, i),
    ensures
        bytes_le(a, b) == bytes_le(a.subrange(i, a.len() as int), b.subrange(i, b.len() as int)),
    decreases i,
{
    if i > 0 {
        assert(a[0] == a.subrange(0, i)[0]);
        assert(b[0] == b.subrange(0, i)[0]);
        let a1 = a.drop_first();
        let b1 = b.drop_first();
        assert(a1.subrange(0, i - 1) =~= a.subrange(1, i));
        assert(b1.subrange(0, i - 1) =~= b.subrange(1, i));
        assert(a.subrange(1, i) =~= a.subrange(0, i).drop_first());
        assert(b.subrange(1, i) =~= b.subrange(0, i).drop_first());
        lemma_bytes_le_skip(a1, b1, i - 1);
        assert(a1.subrange(i - 1, a1.len() as int) =~= a.subrange(i, a.len() as int));
        assert(b1.subrange(i - 1, b1.len() as int) =~= b.subrange(i, b.len() as int));
    } else {
        assert(a.subrange(0, a.len() as int) =~= a);
        assert(b.subrange(0, b.len() as int) =~= b);
    }
}

/// Whether `a` comes before or together with `b` in path order.
pub fn path_le_exec(a: &String, b: &String) -> (r: bool)
    ensures
        r == path_le(*a, *b),
{
    let x = a.as_str().as_bytes();
    let y = b.as_str().as_bytes();
    let ghost xs = encode_utf8(a@);
    let ghost ys = encode_utf8(b@);
    assert(x@ == xs);
    assert(y@ == ys);
    let mut i: usize = 0;
    while i < x.len() && i < y.len() && x[i] == y[i]
        invariant
            x@ == xs,
            y@ == ys,
            i <= x.len(),
            i <= y.len(),
            xs.subrange(0, i as int) == ys.subrange(0, i as int),
        decreases x.len() - i,
    {
        assert(xs.subrange(0, i + 1) =~= xs.subrange(0, i as int).push(xs[i as int]));
        assert(ys.subrange(0, i + 1) =~= ys.subrange(0, i as int).push(ys[i as int]));
        i = i + 1;
    }
    proof {
        lemma_bytes_le_skip(xs, ys, i as int);
    }
    let ghost xr = xs.subrange(i as int, xs.len() as int);
    let ghost yr = ys.subrange(i as int, ys.len() as int);
    if i == x.len() {
        assert(xr.len() == 0);
        true
    } else if i == y.len() {
        assert(yr.len() == 0);
        false
    } else {
        assert(xr[0] == x[i as int]);
        assert(yr[0] == y[i as int]);
        x[i] < y[i]
    }
}

/// The paths in ascending path order; the same paths, each as often.
pub fn sort_paths(paths: Vec<String>) -> (r: Vec<String>)
    ensures
        paths_sorted(r@),
        r@.to_multiset() == paths@.to_multiset(),
{
    let mut out: Vec<String> = Vec::new();
    let mut i: usize = 0;
    assert(out@ =~= paths@.subrange(0, 0));
    while i < paths.len()
        invariant
            i <= paths.len(),
            paths_sorted(out@),
            out@.to_multiset() == paths@.subrange(0, i as int).to_multiset(),
        decreases paths.len() - i,
    {
        let x = paths[i].clone();
        let mut p: usize = 0;
        while p < out.len() && path_le_exec(&out[p], &x)
            invariant
                p <= out.len(),
                forall|j: int| 0 <= j < p ==> path_le(#[trigger] out@[j], x),
            decreases out.len() - p,
        {
            p = p + 1;
        }
        proof {
            if p < out.len() {
                lemma_bytes_le_total(encode_utf8(out@[p as int]@), encode_utf8(x@));
                assert forall|j: int| p <= j < out.len() implies path_le(x, #[trigger] out@[j]) by {
                    if j > p {
                        lemma_bytes_le_trans(
                            encode_utf8(x@),
                            encode_utf8(out@[p as int]@),
                            encode_utf8(out@[j]@),
                        );
                    }
                }
            }
        }
        let ghost before = out@;
        out.insert(p, x);
        proof {
            assert(out@ == before.insert(p as int, paths@[i as int]));
            assert(paths@.subrange(0, i + 1) =~= paths@.subrange(0, i as int).push(paths@[i as int]));
            vstd::seq_lib::to_multiset_insert(before, p as int, paths@[i as int]);
            vstd::seq_lib::to_multiset_build(paths@.subrange(0, i as int), paths@[i as int]);
            assert(out@.to_multiset() == before.to_multiset().insert(paths@[i as int]));
            assert(paths@.subrange(0, i + 1).to_multiset() == paths@.subrange(0, i as int).to_multiset().insert(
                paths@[i as int],
            ));
            assert forall|a: int, b: int| 0 <= a < b < out@.len() implies path_le(
                #[trigger] out@[a],
                #[trigger] out@[b],
            ) by {
                if a < p && b > p {
                    lemma_bytes_le_trans(
                        encode_utf8(out@[a]@),
                        encode_utf8(paths@[i as int]@),
                        encode_utf8(out@[b]@),
                    );
                }
            }
        }
        i = i + 1;
    }
    assert(paths@.subrange(0, paths@.len() as int) =~= paths@);
    out
}

} // verus!

//! The metadata table: one row per distinct content, keyed by the full hash,
//! searchable by (partial hash, size) and by hash, written by upsert.

use vstd::prelude::*;
use crate::record::PdfMetadata;

verus! {

/// Index of the first row whose hash is `h`, or -1 when no row has it.
pub open spec fn index_of_hash(rows: Seq<PdfMetadata>, h: Seq<char>) -> int
    decreases rows.len(),
{
    if rows.len() == 0 {
        -1
    } else if rows[0].hash@ == h {
        0
    } else {
        let k = index_of_hash(rows.drop_first(), h);
        if k < 0 { -1 } else { k + 1 }
    }
}

/// The row stored under hash `h`, if any.
pub open spec fn find_by_hash(rows: Seq<PdfMetadata>, h: Seq<char>) -> Option<PdfMetadata> {
    let k = index_of_hash(rows, h);
    if k < 0 { None } else { Some(rows[k]) }
}

/// Whether a row is a candidate for the fingerprint `ph` and size `size`.
pub open spec fn is_candidate(r: PdfMetadata, ph: Seq<char>, size: u64) -> bool {
    r.partial_hash@ == ph && r.file_size == size
}

/// The rows that share fingerprint `ph` and size `size`, in table order.
pub open spec fn candidates(rows: Seq<PdfMetadata>, ph: Seq<char>, size: u64) -> Seq<PdfMetadata> {
    rows.filter(|r: PdfMetadata| is_candidate(r, ph, size))
}

/// The table after writing `rec`: it replaces the row with the same hash,
/// or is appended when there is none.
pub open spec fn upserted(rows: Seq<PdfMetadata>, rec: PdfMetadata) -> Seq<PdfMetadata> {
    let k = index_of_hash(rows, rec.hash@);
    if k < 0 { rows.push(rec) } else { rows.update(k, rec) }
}

/// No two rows share a hash.
pub open spec fn hashes_unique(rows: Seq<PdfMetadata>) -> bool {
    forall|i: int, j: int|
        0 <= i < rows.len() && 0 <= j < rows.len() && #[trigger] rows[i].hash@ == #[trigger] rows[j].hash@
            ==> i == j
}

pub proof fn lemma_index_of_hash(rows: Seq<PdfMetadata>, h: Seq<char>)
    ensures
        -1 <= index_of_hash(rows, h) < rows.len(),
        index_of_hash(rows, h) >= 0 ==> rows[index_of_hash(rows, h)].hash@ == h,
        index_of_hash(rows, h) < 0 ==> forall|i: int| 0 <= i < rows.len() ==> rows[i].hash@ != h,
        index_of_hash(rows, h) >= 0 ==> forall|i: int|
            0 <= i < index_of_hash(rows, h) ==> rows[i].hash@ != h,
    decreases rows.len(),
{
    if rows.len() > 0 && rows[0].hash@ != h {
        lemma_index_of_hash(rows.drop_first(), h);
        assert forall|i: int| 1 <= i < rows.len() implies rows[i] == rows.drop_first()[i - 1] by {}
    }
}

/// In a table with unique hashes, a row whose hash is `h` is the one found for `h`.
pub proof fn lemma_find_unique(rows: Seq<PdfMetadata>, i: int)
    requires
        hashes_unique(rows),
        0 <= i < rows.len(),
    ensures
        index_of_hash(rows, rows[i].hash@) == i,
        find_by_hash(rows, rows[i].hash@) == Some(rows[i]),
{
    lemma_index_of_hash(rows, rows[i].hash@);
}

/// The first row with hash `h` is at `k` when `k` holds `h` and no earlier row does.
pub proof fn lemma_index_of_hash_is(rows: Seq<PdfMetadata>, h: Seq<char>, k: int)
    requires
        0 <= k < rows.len(),
        rows[k].hash@ == h,
        forall|i: int| 0 <= i < k ==> rows[i].hash@ != h,
    ensures
        index_of_hash(rows, h) == k,
{
    lemma_index_of_hash(rows, h);
}

/// Writing a table with unique hashes keeps its hashes unique.
pub proof fn lemma_upserted_unique(rows: Seq<PdfMetadata>, rec: PdfMetadata)
    requires
        hashes_unique(rows),
    ensures
        hashes_unique(upserted(rows, rec)),
{
    lemma_index_of_hash(rows, rec.hash@);
}

/// The candidates of a table with unique hashes have unique hashes, and a
/// stored row with the fingerprint and size is among them.
pub proof fn lemma_candidates(rows: Seq<PdfMetadata>, ph: Seq<char>, size: u64, r: PdfMetadata)
    requires
        hashes_unique(rows),
    ensures
        hashes_unique(candidates(rows, ph, size)),
        rows.contains(r) && is_candidate(r, ph, size) ==> candidates(rows, ph, size).contains(r),
    decreases rows.len(),
{
    let pred = |x: PdfMetadata| is_candidate(x, ph, size);
    reveal(Seq::filter);
    if rows.len() > 0 {
        let rest = rows.drop_last();
        assert(hashes_unique(rest)) by {
            assert forall|i: int, j: int|
                0 <= i < rest.len() && 0 <= j < rest.len() && #[trigger] rest[i].hash@
                    == #[trigger] rest[j].hash@ implies i == j by {
                assert(rows[i] == rest[i] && rows[j] == rest[j]);
            }
        }
        lemma_candidates(rest, ph, size, r);
        let sub = candidates(rest, ph, size);
        let last = rows.last();
        if pred(last) {
            let c = sub.push(last);
            assert(c == candidates(rows, ph, size));
            assert forall|i: int, j: int|
                0 <= i < c.len() && 0 <= j < c.len() && #[trigger] c[i].hash@ == #[trigger] c[j].hash@
                    implies i == j by {
                if i < sub.len() && j == sub.len() {
                    assert(sub.contains(sub[i]));
                    rest.lemma_filter_contains_rev(pred, sub[i]);
                    let k = choose|k: int| 0 <= k < rest.len() && rest[k] == sub[i];
                    assert(rows[k] == rest[k]);
                    assert(rows[rows.len() - 1] == last);
                } else if j < sub.len() && i == sub.len() {
                    assert(sub.contains(sub[j]));
                    rest.lemma_filter_contains_rev(pred, sub[j]);
                    let k = choose|k: int| 0 <= k < rest.len() && rest[k] == sub[j];
                    assert(rows[k] == rest[k]);
                    assert(rows[rows.len() - 1] == last);
                }
            }
            if rows.contains(r) && is_candidate(r, ph, size) && r != last {
                let k = choose|k: int| 0 <= k < rows.len() && rows[k] == r;
                assert(rest[k] == r);
                assert(c[c.len() - 1] == last);
                let m = choose|m: int| 0 <= m < sub.len() && sub[m] == r;
                assert(c[m] == r);
            }
            if r == last {
                assert(c[c.len() - 1] == r);
            }
        } else {
            assert(sub == candidates(rows, ph, size));
            if rows.contains(r) && is_candidate(r, ph, size) {
                let k = choose|k: int| 0 <= k < rows.len() && rows[k] == r;
                assert(k != rows.len() - 1);
                assert(rest[k] == r);
            }
        }
    }
}

/// Round trip: after `rec` is written, looking up its hash yields exactly `rec`.
pub proof fn law_upsert_then_lookup(rows: Seq<PdfMetadata>, rec: PdfMetadata)
    ensures
        find_by_hash(upserted(rows, rec), rec.hash@) == Some(rec),
{
    let h = rec.hash@;
    lemma_index_of_hash(rows, h);
    let k = index_of_hash(rows, h);
    let t = upserted(rows, rec);
    if k < 0 {
        lemma_index_of_hash_is(t, h, rows.len() as int);
    } else {
        lemma_index_of_hash_is(t, h, k);
    }
}

/// One row per content: when the same content is written from path `a.path`
/// and then from `b.path`, the table holds exactly one row for that hash, and
/// it is the one written last.
pub proof fn law_last_writer_wins(rows: Seq<PdfMetadata>, a: PdfMetadata, b: PdfMetadata)
    requires
        hashes_unique(rows),
        a.hash@ == b.hash@,
    ensures
        ({
            let t = upserted(upserted(rows, a), b);
            &&& hashes_unique(t)
            &&& find_by_hash(t, b.hash@) == Some(b)
            &&& exists|i: int| 0 <= i < t.len() && t[i].hash@ == b.hash@
            &&& forall|i: int, j: int|
                0 <= i < t.len() && 0 <= j < t.len() && t[i].hash@ == b.hash@ && t[j].hash@ == b.hash@
                    ==> i == j
        }),
{
    let t1 = upserted(rows, a);
    let t = upserted(t1, b);
    lemma_upserted_unique(rows, a);
    lemma_upserted_unique(t1, b);
    law_upsert_then_lookup(t1, b);
    lemma_index_of_hash(t, b.hash@);
    let k = index_of_hash(t, b.hash@);
    assert(0 <= k < t.len() && t[k].hash@ == b.hash@);
    assert forall|i: int, j: int|
        0 <= i < t.len() && 0 <= j < t.len() && t[i].hash@ == b.hash@ && t[j].hash@ == b.hash@
            implies i == j by {
        assert(t[i].hash@ == t[j].hash@);
    }
}

/// Position of the first row whose hash is `hash`.
pub fn position_of_hash(rows: &Vec<PdfMetadata>, hash: &String) -> (r: Option<usize>)
    ensures
        r is None <==> index_of_hash(rows@, hash@) < 0,
        r is Some ==> r->0 == index_of_hash(rows@, hash@),
{
    proof {
        lemma_index_of_hash(rows@, hash@);
    }
    let mut i: usize = 0;
    while i < rows.len()
        invariant
            i <= rows.len(),
            forall|j: int| 0 <= j < i ==> rows@[j].hash@ != hash@,
            -1 <= index_of_hash(rows@, hash@) < rows@.len(),
            index_of_hash(rows@, hash@) >= 0 ==> rows@[index_of_hash(rows@, hash@)].hash@ == hash@,
            index_of_hash(rows@, hash@) < 0 ==> forall|k: int|
                0 <= k < rows@.len() ==> rows@[k].hash@ != hash@,
            index_of_hash(rows@, hash@) >= 0 ==> forall|k: int|
                0 <= k < index_of_hash(rows@, hash@) ==> rows@[k].hash@ != hash@,
        decreases rows.len() - i,
    {
        if rows[i].hash == *hash {
            return Some(i);
        }
        i = i + 1;
    }
    None
}

/// The table of records, held in memory; its rows have distinct hashes.
pub struct MetadataStore {
    rows: Vec<PdfMetadata>,
}

impl View for MetadataStore {
    type V = Seq<PdfMetadata>;

    closed spec fn view(&self) -> Seq<PdfMetadata> {
        self.rows@
    }
}

impl MetadataStore {
    /// The table is well formed: no hash occurs twice.
    pub open spec fn wf(&self) -> bool {
        hashes_unique(self@)
    }

    /// An empty table.
    pub fn new() -> (r: MetadataStore)
        ensures
            r@ == Seq::<PdfMetadata>::empty(),
            r.wf(),
    {
        MetadataStore { rows: Vec::new() }
    }

    /// The number of rows.
    pub fn len(&self) -> (r: usize)
        ensures
            r == self@.len(),
    {
        self.rows.len()
    }

    /// The rows in table order.
    pub fn rows(&self) -> (r: Vec<PdfMetadata>)
        ensures
            r@ == self@,
    {
        crate::record::clone_records(&self.rows)
    }

    /// The row stored under `hash`, if any.
    pub fn lookup_by_hash(&self, hash: &String) -> (r: Option<PdfMetadata>)
        ensures
            r == find_by_hash(self@, hash@),
    {
        proof {
            lemma_index_of_hash(self@, hash@);
        }
        match position_of_hash(&self.rows, hash) {
            Some(i) => Some(self.rows[i].clone()),
            None => None,
        }
    }

    /// The rows sharing the fingerprint `partial_hash` and the size
    /// `file_size`: zero, one or many.
    pub fn lookup_by_partial(&self, partial_hash: &String, file_size: u64) -> (r: Vec<PdfMetadata>)
        ensures
            r@ == candidates(self@, partial_hash@, file_size),
    {
        let ghost pred = |r: PdfMetadata| is_candidate(r, partial_hash@, file_size);
        let mut out: Vec<PdfMetadata> = Vec::new();
        let mut i: usize = 0;
        while i < self.rows.len()
            invariant
                i <= self.rows.len(),
                pred == (|r: PdfMetadata| is_candidate(r, partial_hash@, file_size)),
                out@ == self@.subrange(0, i as int).filter(pred),
            decreases self.rows.len() - i,
        {
            let row = &self.rows[i];
            proof {
                let s = self@.subrange(0, i + 1);
                assert(s.drop_last() =~= self@.subrange(0, i as int));
                assert(s.last() == self@[i as int]);
                reveal(Seq::filter);
            }
            if row.partial_hash == *partial_hash && row.file_size == file_size {
                out.push(row.clone());
            }
            assert(out@ == self@.subrange(0, i + 1).filter(pred));
            i = i + 1;
        }
        assert(self@.subrange(0, self@.len() as int) =~= self@);
        out
    }

    /// Writes `rec`, replacing the row with the same hash or adding a row.
    pub fn upsert(&mut self, rec: PdfMetadata)
        requires
            old(self).wf(),
        ensures
            final(self).wf(),
            final(self)@ == upserted(old(self)@, rec),
    {
        proof {
            lemma_index_of_hash(self@, rec.hash@);
            lemma_upserted_unique(self@, rec);
        }
        match position_of_hash(&self.rows, &rec.hash) {
            Some(i) => {
                self.rows.set(i, rec);
            }
            None => {
                self.rows.push(rec);
            }
        }
    }
}

} // verus!

//! The per-file extraction protocol: cache lookup by fingerprint, collision
//! resolution by full hash, extraction on a miss, and the store write.
//!
//! The protocol is a state machine. Each step takes the outcome of the work
//! the previous action asked for and names the next action; the caller
//! performs it (hashing, a table lookup, opening the document, rendering the
//! cover, writing the row) and feeds the result back as the next event.

use vstd::prelude::*;
use vstd::string::*;
use crate::record::{PdfMetadata, ScanProgress};
use crate::store::{
    candidates, find_by_hash, hashes_unique, index_of_hash, law_upsert_then_lookup,
    lemma_candidates, lemma_find_unique, lemma_index_of_hash, position_of_hash, upserted,
};

verus! {

/// Length of the hash prefix that names a cover file.
pub const COVER_PREFIX_LEN: usize = 16;

/// The file name of the cover of the content whose full hash is `h`:
/// its first sixteen characters followed by `.jpg`.
pub open spec fn cover_name(h: Seq<char>) -> Seq<char> {
    (if h.len() <= COVER_PREFIX_LEN { h } else { h.subrange(0, COVER_PREFIX_LEN as int) }) + seq![
        '.',
        'j',
        'p',
        'g',
    ]
}

/// The cover file name for the content whose full hash is `hash`.
pub fn cover_file_name(hash: &String) -> (r: String)
    ensures
        r@ == cover_name(hash@),
{
    let s = hash.as_str();
    let n = s.unicode_len();
    let k = if n < COVER_PREFIX_LEN { n } else { COVER_PREFIX_LEN };
    let prefix = String::from_str(s.substring_char(0, k));
    proof {
        reveal_strlit(".jpg");
        assert(hash@.subrange(0, n as int) =~= hash@);
    }
    let r = prefix.concat(".jpg");
    assert(r@ =~= cover_name(hash@));
    r
}

/// What the document library reported about an opened document.
#[derive(Debug)]
pub struct DocumentInfo {
    pub page_count: u32,
    pub title: Option<String>,
    pub author: Option<String>,
    pub subject: Option<String>,
    pub keywords: Option<String>,
    pub creator: Option<String>,
    pub producer: Option<String>,
    pub creation_date: Option<String>,
    pub modification_date: Option<String>,
}

/// The record of newly extracted content, before its cover is known.
pub open spec fn assembled(
    path: String,
    partial_hash: String,
    file_size: u64,
    hash: String,
    d: DocumentInfo,
) -> PdfMetadata {
    PdfMetadata {
        hash: hash,
        partial_hash: partial_hash,
        path: path,
        title: d.title,
        author: d.author,
        subject: d.subject,
        keywords: d.keywords,
        creator: d.creator,
        producer: d.producer,
        creation_date: d.creation_date,
        modification_date: d.modification_date,
        page_count: d.page_count,
        cover_path: None,
        file_size: file_size,
    }
}

fn assemble(
    path: &String,
    partial_hash: String,
    file_size: u64,
    hash: String,
    d: DocumentInfo,
) -> (r: PdfMetadata)
    ensures
        r == assembled(*path, partial_hash, file_size, hash, d),
{
    PdfMetadata {
        hash: hash,
        partial_hash: partial_hash,
        path: path.clone(),
        title: d.title,
        author: d.author,
        subject: d.subject,
        keywords: d.keywords,
        creator: d.creator,
        producer: d.producer,
        creation_date: d.creation_date,
        modification_date: d.modification_date,
        page_count: d.page_count,
        cover_path: None,
        file_size: file_size,
    }
}

/// The outcome of the work that the last action asked for.
#[derive(Debug)]
pub enum ExtractionEvent {
    /// The partial fingerprint and size of the file.
    Fingerprinted { partial_hash: String, file_size: u64 },
    /// The stored rows that share the fingerprint and size.
    Candidates(Vec<PdfMetadata>),
    /// The full hash of the file.
    FullHash(String),
    /// The document was opened and read.
    Opened(DocumentInfo),
    /// The cover was rendered and saved under the requested name.
    CoverSaved,
    /// The announcement was sent.
    Announced,
    /// The row was written.
    Stored,
    /// The work failed with this message.
    Failed(String),
}

/// The work the caller is to perform next.
#[derive(Debug)]
pub enum ExtractionAction {
    /// Compute the partial fingerprint and size of the file.
    ComputeFingerprint,
    /// Look up the stored rows with this fingerprint and size.
    LookupCandidates { partial_hash: String, file_size: u64 },
    /// Compute the full hash of the file.
    ComputeFullHash,
    /// Open the document and read its page count and properties.
    OpenDocument,
    /// Render page 0 and save it in the covers directory under this name.
    RenderCover { file_name: String },
    /// Send this progress event.
    Announce(ScanProgress),
    /// Write this row.
    Upsert(PdfMetadata),
    /// The file is done; this is its record.
    Finish(PdfMetadata),
    /// The file failed and is left out of the results.
    Fail(String),
}

/// Where the protocol stands for one file.
#[derive(Debug)]
pub enum ExtractionState {
    AwaitFingerprint,
    AwaitCandidates { partial_hash: String, file_size: u64 },
    AwaitFullHash { partial_hash: String, file_size: u64, candidates: Vec<PdfMetadata> },
    AwaitDocument { partial_hash: String, file_size: u64, full_hash: Option<String> },
    AwaitNewHash { partial_hash: String, file_size: u64, doc: DocumentInfo },
    AwaitCover(PdfMetadata),
    AwaitAnnounce(PdfMetadata),
    AwaitStore(PdfMetadata),
    Finished(PdfMetadata),
    Failed(String),
}

/// The protocol for the file at `path`.
#[derive(Debug)]
pub struct Extraction {
    pub path: String,
    pub state: ExtractionState,
}

/// The protocol moved to a failure: the state and the action carry the same message.
pub open spec fn failing(t: ExtractionState, a: ExtractionAction) -> bool {
    match t {
        ExtractionState::Failed(m) => a == ExtractionAction::Fail(m),
        _ => false,
    }
}

/// The step that follows a newly assembled record: render a cover when the
/// document has pages, else write the row.
pub open spec fn after_assembly(rec: PdfMetadata, t: ExtractionState, a: ExtractionAction) -> bool {
    if rec.page_count > 0 {
        &&& t == ExtractionState::AwaitCover(rec)
        &&& a matches ExtractionAction::RenderCover { file_name } && file_name@ == cover_name(rec.hash@)
    } else {
        t == ExtractionState::AwaitStore(rec) && a == ExtractionAction::Upsert(rec)
    }
}

/// `t` is `AwaitStore` of `rec` with its cover named after its hash, and the
/// action writes that row.
pub open spec fn stored_with_cover(rec: PdfMetadata, t: ExtractionState, a: ExtractionAction) -> bool {
    match t {
        ExtractionState::AwaitStore(r) => {
            &&& r.cover_path matches Some(c) && c@ == cover_name(rec.hash@)
            &&& r == PdfMetadata { cover_path: r.cover_path, ..rec }
            &&& a == ExtractionAction::Upsert(r)
        },
        _ => false,
    }
}

/// One step of the protocol for the file at `path`: from state `s`, on event
/// `e`, the protocol moves to `t` and asks for `a`.
pub open spec fn step_ok(
    path: String,
    s: ExtractionState,
    e: ExtractionEvent,
    t: ExtractionState,
    a: ExtractionAction,
) -> bool {
    match s {
        ExtractionState::Finished(r) => t == s && a == ExtractionAction::Finish(r),
        ExtractionState::Failed(m) => t == s && a == ExtractionAction::Fail(m),
        ExtractionState::AwaitAnnounce(r) => t == ExtractionState::AwaitStore(r) && a
            == ExtractionAction::Upsert(r),
        ExtractionState::AwaitCover(r) => if e is CoverSaved {
            stored_with_cover(r, t, a)
        } else {
            t == ExtractionState::AwaitStore(r) && a == ExtractionAction::Upsert(r)
        },
        _ => match e {
            ExtractionEvent::Failed(m) => t == ExtractionState::Failed(m) && a
                == ExtractionAction::Fail(m),
            _ => step_ok_work(path, s, e, t, a),
        },
    }
}

/// The steps of the protocol on events other than a failure, from the states
/// that wait for work.
pub open spec fn step_ok_work(
    path: String,
    s: ExtractionState,
    e: ExtractionEvent,
    t: ExtractionState,
    a: ExtractionAction,
) -> bool {
    match s {
        ExtractionState::AwaitFingerprint => match e {
            ExtractionEvent::Fingerprinted { partial_hash, file_size } => {
                &&& t == ExtractionState::AwaitCandidates { partial_hash, file_size }
                &&& a == ExtractionAction::LookupCandidates { partial_hash, file_size }
            },
            _ => failing(t, a),
        },
        ExtractionState::AwaitCandidates { partial_hash, file_size } => match e {
            ExtractionEvent::Candidates(c) => if c@.len() == 0 {
                &&& t == ExtractionState::AwaitDocument { partial_hash, file_size, full_hash: None }
                &&& a == ExtractionAction::OpenDocument
            } else if c@.len() == 1 {
                t == ExtractionState::Finished(c@[0]) && a == ExtractionAction::Finish(c@[0])
            } else {
                &&& t == ExtractionState::AwaitFullHash { partial_hash, file_size, candidates: c }
                &&& a == ExtractionAction::ComputeFullHash
            },
            _ => failing(t, a),
        },
        ExtractionState::AwaitFullHash { partial_hash, file_size, candidates } => match e {
            ExtractionEvent::FullHash(h) => {
                let k = index_of_hash(candidates@, h@);
                if k < 0 {
                    &&& t == ExtractionState::AwaitDocument {
                        partial_hash,
                        file_size,
                        full_hash: Some(h),
                    }
                    &&& a == ExtractionAction::OpenDocument
                } else {
                    let c = candidates@[k];
                    let rec = c.spec_with_path(path);
                    if c.path@ != path@ {
                        &&& t == ExtractionState::AwaitAnnounce(rec)
                        &&& a == ExtractionAction::Announce(
                            ScanProgress::DuplicateDetected(c.path, path),
                        )
                    } else {
                        t == ExtractionState::AwaitStore(rec) && a == ExtractionAction::Upsert(rec)
                    }
                }
            },
            _ => failing(t, a),
        },
        ExtractionState::AwaitDocument { partial_hash, file_size, full_hash } => match e {
            ExtractionEvent::Opened(d) => match full_hash {
                Some(h) => after_assembly(assembled(path, partial_hash, file_size, h, d), t, a),
                None => {
                    &&& t == ExtractionState::AwaitNewHash { partial_hash, file_size, doc: d }
                    &&& a == ExtractionAction::ComputeFullHash
                },
            },
            _ => failing(t, a),
        },
        ExtractionState::AwaitNewHash { partial_hash, file_size, doc } => match e {
            ExtractionEvent::FullHash(h) => after_assembly(
                assembled(path, partial_hash, file_size, h, doc),
                t,
                a,
            ),
            _ => failing(t, a),
        },
        ExtractionState::AwaitStore(r) => match e {
            ExtractionEvent::Stored => t == ExtractionState::Finished(r) && a
                == ExtractionAction::Finish(r),
            _ => failing(t, a),
        },
        _ => false,
    }
}

fn unexpected() -> (r: (ExtractionState, ExtractionAction))
    ensures
        failing(r.0, r.1),
{
    let m = String::from_str("unexpected event");
    let m2 = m.clone();
    (ExtractionState::Failed(m), ExtractionAction::Fail(m2))
}

fn next_after_assembly(rec: PdfMetadata) -> (r: (ExtractionState, ExtractionAction))
    ensures
        after_assembly(rec, r.0, r.1),
{
    if rec.page_count > 0 {
        let name = cover_file_name(&rec.hash);
        (ExtractionState::AwaitCover(rec), ExtractionAction::RenderCover { file_name: name })
    } else {
        let r2 = rec.clone();
        (ExtractionState::AwaitStore(rec), ExtractionAction::Upsert(r2))
    }
}

/// The candidate list `c` is what the table `rows` holds for the fingerprint
/// `ph` and size `size`, and `r` is a stored row with that fingerprint and size.
pub open spec fn read_from_table(
    rows: Seq<PdfMetadata>,
    ph: String,
    size: u64,
    c: Vec<PdfMetadata>,
    r: PdfMetadata,
) -> bool {
    &&& hashes_unique(rows)
    &&& c@ == candidates(rows, ph@, size)
    &&& rows.contains(r)
    &&& r.partial_hash@ == ph@
    &&& r.file_size == size
}

/// Single-candidate fast path: when the only stored row sharing the file's
/// fingerprint and size is `r`, the protocol returns `r` as stored, path
/// included, with no full hash and no announcement.
pub proof fn law_single_candidate_trusted(
    path: String,
    partial_hash: String,
    file_size: u64,
    rows: Seq<PdfMetadata>,
    c: Vec<PdfMetadata>,
    r: PdfMetadata,
    t: ExtractionState,
    a: ExtractionAction,
)
    requires
        read_from_table(rows, partial_hash, file_size, c, r),
        c@.len() == 1,
        step_ok(path, ExtractionState::AwaitCandidates { partial_hash, file_size }, ExtractionEvent::Candidates(c), t, a),
    ensures
        a == ExtractionAction::Finish(r),
        t == ExtractionState::Finished(r),
{
    lemma_candidates(rows, partial_hash@, file_size, r);
}

/// Move detection: when several stored rows share the file's fingerprint and
/// size and one of them, `r`, holds the file's full hash `h` under another
/// path, the protocol announces `DuplicateDetected(r.path, path)`, writes `r`
/// with the new path and returns it; the table then yields it, with the new
/// path, for the unchanged hash.
pub proof fn law_move_detected(
    path: String,
    partial_hash: String,
    file_size: u64,
    rows: Seq<PdfMetadata>,
    c: Vec<PdfMetadata>,
    r: PdfMetadata,
    h: String,
    e2: ExtractionEvent,
    s1: ExtractionState, a1: ExtractionAction,
    s2: ExtractionState, a2: ExtractionAction,
    s3: ExtractionState, a3: ExtractionAction,
    s4: ExtractionState, a4: ExtractionAction,
)
    requires
        read_from_table(rows, partial_hash, file_size, c, r),
        c@.len() >= 2,
        r.hash@ == h@,
        r.path@ != path@,
        step_ok(path, ExtractionState::AwaitCandidates { partial_hash, file_size }, ExtractionEvent::Candidates(c), s1, a1),
        step_ok(path, s1, ExtractionEvent::FullHash(h), s2, a2),
        step_ok(path, s2, e2, s3, a3),
        step_ok(path, s3, ExtractionEvent::Stored, s4, a4),
    ensures
        a1 == ExtractionAction::ComputeFullHash,
        a2 == ExtractionAction::Announce(ScanProgress::DuplicateDetected(r.path, path)),
        a3 == ExtractionAction::Upsert(r.spec_with_path(path)),
        a4 == ExtractionAction::Finish(r.spec_with_path(path)),
        r.spec_with_path(path).path == path,
        r.spec_with_path(path).hash == r.hash,
        find_by_hash(upserted(rows, r.spec_with_path(path)), h@) == Some(r.spec_with_path(path)),
{
    lemma_candidates(rows, partial_hash@, file_size, r);
    let i = choose|i: int| 0 <= i < c@.len() && c@[i] == r;
    lemma_find_unique(c@, i);
    law_upsert_then_lookup(rows, r.spec_with_path(path));
}

/// Rescanning unchanged content: when the table holds the file's own record
/// `r` (same path, fingerprint, size and full hash), the protocol never opens
/// the document and returns `r` unchanged, and the table is left as it was.
pub proof fn law_rescan_is_cache_hit(
    path: String,
    partial_hash: String,
    file_size: u64,
    rows: Seq<PdfMetadata>,
    c: Vec<PdfMetadata>,
    r: PdfMetadata,
    h: String,
    s1: ExtractionState, a1: ExtractionAction,
    s2: ExtractionState, a2: ExtractionAction,
    s3: ExtractionState, a3: ExtractionAction,
)
    requires
        read_from_table(rows, partial_hash, file_size, c, r),
        r.hash@ == h@,
        r.path == path,
        step_ok(path, ExtractionState::AwaitCandidates { partial_hash, file_size }, ExtractionEvent::Candidates(c), s1, a1),
        c@.len() >= 2 ==> step_ok(path, s1, ExtractionEvent::FullHash(h), s2, a2),
        c@.len() >= 2 ==> step_ok(path, s2, ExtractionEvent::Stored, s3, a3),
    ensures
        a1 != ExtractionAction::OpenDocument,
        c@.len() == 1 ==> a1 == ExtractionAction::Finish(r),
        c@.len() >= 2 ==> {
            &&& a1 == ExtractionAction::ComputeFullHash
            &&& a2 == ExtractionAction::Upsert(r)
            &&& a3 == ExtractionAction::Finish(r)
        },
        upserted(rows, r) == rows,
{
    lemma_candidates(rows, partial_hash@, file_size, r);
    let i = choose|i: int| 0 <= i < c@.len() && c@[i] == r;
    lemma_find_unique(c@, i);
    assert(r.spec_with_path(path) == r);
    let j = choose|j: int| 0 <= j < rows.len() && rows[j] == r;
    lemma_find_unique(rows, j);
    assert(rows.update(j, r) =~= rows);
}

impl Extraction {
    /// The protocol for the file at `path`, and its first action: compute
    /// the partial fingerprint.
    pub fn start(path: String) -> (r: (Extraction, ExtractionAction))
        ensures
            r.0.path == path,
            r.0.state == ExtractionState::AwaitFingerprint,
            r.1 == ExtractionAction::ComputeFingerprint,
    {
        (Extraction { path, state: ExtractionState::AwaitFingerprint }, ExtractionAction::ComputeFingerprint)
    }

    /// Whether the protocol has ended, with a record or a failure.
    pub fn is_done(&self) -> (r: bool)
        ensures
            r == (self.state is Finished || self.state is Failed),
    {
        match &self.state {
            ExtractionState::Finished(_) => true,
            ExtractionState::Failed(_) => true,
            _ => false,
        }
    }

    /// Takes the outcome `event` of the last action and returns the protocol
    /// after it, with the next action.
    pub fn step(self, event: ExtractionEvent) -> (r: (Extraction, ExtractionAction))
        ensures
            r.0.path == self.path,
            step_ok(self.path, self.state, event, r.0.state, r.1),
    {
        let path = self.path;
        let (t, a) = match self.state {
            ExtractionState::Finished(r) => {
                let r2 = r.clone();
                (ExtractionState::Finished(r), ExtractionAction::Finish(r2))
            },
            ExtractionState::Failed(m) => {
                let m2 = m.clone();
                (ExtractionState::Failed(m), ExtractionAction::Fail(m2))
            },
            ExtractionState::AwaitAnnounce(r) => {
                let r2 = r.clone();
                (ExtractionState::AwaitStore(r), ExtractionAction::Upsert(r2))
            },
            ExtractionState::AwaitCover(r) => match event {
                ExtractionEvent::CoverSaved => {
                    let mut rec = r;
                    rec.cover_path = Some(cover_file_name(&rec.hash));
                    let r2 = rec.clone();
                    (ExtractionState::AwaitStore(rec), ExtractionAction::Upsert(r2))
                },
                _ => {
                    let r2 = r.clone();
                    (ExtractionState::AwaitStore(r), ExtractionAction::Upsert(r2))
                },
            },
            state => match event {
                ExtractionEvent::Failed(m) => {
                    let m2 = m.clone();
                    (ExtractionState::Failed(m), ExtractionAction::Fail(m2))
                },
                event => Self::work_step(&path, state, event),
            },
        };
        (Extraction { path, state: t }, a)
    }

    fn work_step(path: &String, s: ExtractionState, e: ExtractionEvent) -> (r: (
        ExtractionState,
        ExtractionAction,
    ))
        requires
            !(s is Finished || s is Failed || s is AwaitAnnounce || s is AwaitCover),
            !(e is Failed),
        ensures
            step_ok_work(*path, s, e, r.0, r.1),
    {
        match s {
            ExtractionState::AwaitFingerprint => match e {
                ExtractionEvent::Fingerprinted { partial_hash, file_size } => {
                    let ph = partial_hash.clone();
                    (
                        ExtractionState::AwaitCandidates { partial_hash, file_size },
                        ExtractionAction::LookupCandidates { partial_hash: ph, file_size },
                    )
                },
                _ => unexpected(),
            },
            ExtractionState::AwaitCandidates { partial_hash, file_size } => match e {
                ExtractionEvent::Candidates(c) => {
                    if c.len() == 0 {
                        (
                            ExtractionState::AwaitDocument { partial_hash, file_size, full_hash: None },
                            ExtractionAction::OpenDocument,
                        )
                    } else if c.len() == 1 {
                        let r = c[0].clone();
                        let r2 = c[0].clone();
                        (ExtractionState::Finished(r), ExtractionAction::Finish(r2))
                    } else {
                        (
                            ExtractionState::AwaitFullHash { partial_hash, file_size, candidates: c },
                            ExtractionAction::ComputeFullHash,
                        )
                    }
                },
                _ => unexpected(),
            },
            ExtractionState::AwaitFullHash { partial_hash, file_size, candidates } => match e {
                ExtractionEvent::FullHash(h) => {
                    proof {
                        lemma_index_of_hash(candidates@, h@);
                    }
                    match position_of_hash(&candidates, &h) {
                        None => (
                            ExtractionState::AwaitDocument { partial_hash, file_size, full_hash: Some(h) },
                            ExtractionAction::OpenDocument,
                        ),
                        Some(k) => {
                            let c = &candidates[k];
                            let rec = c.with_path(path);
                            if c.path != *path {
                                (
                                    ExtractionState::AwaitAnnounce(rec),
                                    ExtractionAction::Announce(
                                        ScanProgress::DuplicateDetected(c.path.clone(), path.clone()),
                                    ),
                                )
                            } else {
                                let r2 = rec.clone();
                                (ExtractionState::AwaitStore(rec), ExtractionAction::Upsert(r2))
                            }
                        },
                    }
                },
                _ => unexpected(),
            },
            ExtractionState::AwaitDocument { partial_hash, file_size, full_hash } => match e {
                ExtractionEvent::Opened(d) => match full_hash {
                    Some(h) => next_after_assembly(assemble(path, partial_hash, file_size, h, d)),
                    None => (
                        ExtractionState::AwaitNewHash { partial_hash, file_size, doc: d },
                        ExtractionAction::ComputeFullHash,
                    ),
                },
                _ => unexpected(),
            },
            ExtractionState::AwaitNewHash { partial_hash, file_size, doc } => match e {
                ExtractionEvent::FullHash(h) => next_after_assembly(
                    assemble(path, partial_hash, file_size, h, doc),
                ),
                _ => unexpected(),
            },
            ExtractionState::AwaitStore(r) => match e {
                ExtractionEvent::Stored => {
                    let r2 = r.clone();
                    (ExtractionState::Finished(r), ExtractionAction::Finish(r2))
                },
                _ => unexpected(),
            },
            _ => unexpected(),
        }
    }
}

} // verus!

use std::collections::HashMap;

use shelf::digest::WINDOW;
use shelf::pipeline::cover_file_name;
use shelf::{
    partial_fingerprint, partition_entries, sort_paths, ContentHasher, DirEntryInfo, DocumentInfo,
    EntryKind, Extraction, ExtractionAction, ExtractionEvent, MetadataStore, PdfMetadata,
    ProgressTally, ScanProgress,
};

struct World {
    files: HashMap<String, Vec<u8>>,
    store: MetadataStore,
    events: Vec<ScanProgress>,
    opens: usize,
    full_hashes: usize,
    render_ok: bool,
}

impl World {
    fn new() -> World {
        World {
            files: HashMap::new(),
            store: MetadataStore::new(),
            events: Vec::new(),
            opens: 0,
            full_hashes: 0,
            render_ok: true,
        }
    }
}

fn fingerprint(c: &[u8]) -> String {
    let w = WINDOW as usize;
    let head = &c[..c.len().min(w)];
    let tail = if c.len() > w { &c[c.len() - w..] } else { &c[..0] };
    partial_fingerprint(c.len() as u64, head, tail)
}

fn full(c: &[u8]) -> String {
    let mut h = ContentHasher::new();
    for chunk in c.chunks(65536) {
        h.update(chunk);
    }
    h.finalize_hex()
}

fn open_doc(c: &[u8]) -> Option<DocumentInfo> {
    if !c.starts_with(b"%PDF") {
        return None;
    }
    Some(DocumentInfo {
        page_count: c[4] as u32,
        title: Some("A Title".to_string()),
        author: Some("An Author".to_string()),
        subject: None,
        keywords: None,
        creator: None,
        producer: Some("tex".to_string()),
        creation_date: None,
        modification_date: None,
    })
}

fn extract(w: &mut World, path: &str) -> Result<PdfMetadata, String> {
    let content = w.files[path].clone();
    let (mut x, mut a) = Extraction::start(path.to_string());
    loop {
        let ev = match a {
            ExtractionAction::ComputeFingerprint => ExtractionEvent::Fingerprinted {
                partial_hash: fingerprint(&content),
                file_size: content.len() as u64,
            },
            ExtractionAction::LookupCandidates { partial_hash, file_size } => {
                ExtractionEvent::Candidates(w.store.lookup_by_partial(&partial_hash, file_size))
            }
            ExtractionAction::ComputeFullHash => {
                w.full_hashes += 1;
                ExtractionEvent::FullHash(full(&content))
            }
            ExtractionAction::OpenDocument => {
                w.opens += 1;
                match open_doc(&content) {
                    Some(d) => ExtractionEvent::Opened(d),
                    None => ExtractionEvent::Failed("cannot open document".to_string()),
                }
            }
            ExtractionAction::RenderCover { .. } => {
                if w.render_ok {
                    ExtractionEvent::CoverSaved
                } else {
                    ExtractionEvent::Failed("render failed".to_string())
                }
            }
            ExtractionAction::Announce(p) => {
                w.events.push(p);
                ExtractionEvent::Announced
            }
            ExtractionAction::Upsert(r) => {
                w.store.upsert(r);
                ExtractionEvent::Stored
            }
            ExtractionAction::Finish(r) => return Ok(r),
            ExtractionAction::Fail(m) => return Err(m),
        };
        let (nx, na) = x.step(ev);
        x = nx;
        a = na;
    }
}

fn scan(w: &mut World, paths: Vec<String>) -> Vec<PdfMetadata> {
    let mut out = Vec::new();
    for p in sort_paths(paths) {
        w.events.push(ScanProgress::Processing(p.clone()));
        match extract(w, &p) {
            Ok(m) => out.push(m),
            Err(e) => w.events.push(ScanProgress::Error(p.clone(), e)),
        }
    }
    w.events.push(ScanProgress::Complete(out.clone(), std::time::Duration::from_millis(1)));
    out
}

fn pdf_bytes(len: usize, pages: u8, seed: u32) -> Vec<u8> {
    let mut v: Vec<u8> = (0..len as u32).map(|i| ((i.wrapping_mul(31) ^ seed) % 251) as u8).collect();
    v[..4].copy_from_slice(b"%PDF");
    v[4] = pages;
    v
}

fn debug(v: &[PdfMetadata]) -> String {
    format!("{:?}", v)
}

fn duplicates(w: &World) -> Vec<(String, String)> {
    w.events
        .iter()
        .filter_map(|e| match e {
            ScanProgress::DuplicateDetected(a, b) => Some((a.clone(), b.clone())),
            _ => None,
        })
        .collect()
}

#[test]
fn new_file_is_extracted_with_cover_and_stored() {
    let mut w = World::new();
    let c = pdf_bytes(1000, 2, 1);
    w.files.insert("/d/a.pdf".to_string(), c.clone());
    let r = extract(&mut w, "/d/a.pdf").unwrap();
    let h = full(&c);
    assert_eq!(r.hash, h);
    assert_eq!(r.partial_hash, fingerprint(&c));
    assert_eq!(r.path, "/d/a.pdf");
    assert_eq!(r.page_count, 2);
    assert_eq!(r.title.as_deref(), Some("A Title"));
    assert_eq!(r.subject, None);
    assert_eq!(r.file_size, 1000);
    assert_eq!(r.cover_path, Some(format!("{}.jpg", &h[..16])));
    assert_eq!(w.store.len(), 1);
    assert_eq!(w.opens, 1);
}

#[test]
fn cover_name_is_hash_prefix_with_jpg() {
    let h = "0123456789abcdef0123456789abcdef0123456789abcdef0123456789abcdef".to_string();
    assert_eq!(cover_file_name(&h), "0123456789abcdef.jpg");
    assert_eq!(cover_file_name(&"abc".to_string()), "abc.jpg");
}

#[test]
fn render_failure_keeps_record_without_cover() {
    let mut w = World::new();
    w.render_ok = false;
    w.files.insert("/d/a.pdf".to_string(), pdf_bytes(500, 1, 2));
    let r = extract(&mut w, "/d/a.pdf").unwrap();
    assert_eq!(r.cover_path, None);
    assert_eq!(w.store.len(), 1);
}

#[test]
fn zero_page_document_has_no_cover() {
    let mut w = World::new();
    w.files.insert("/d/a.pdf".to_string(), pdf_bytes(500, 0, 2));
    let r = extract(&mut w, "/d/a.pdf").unwrap();
    assert_eq!(r.page_count, 0);
    assert_eq!(r.cover_path, None);
}

#[test]
fn unopenable_file_fails_and_is_not_stored() {
    let mut w = World::new();
    w.files.insert("/d/empty.pdf".to_string(), Vec::new());
    assert_eq!(extract(&mut w, "/d/empty.pdf").unwrap_err(), "cannot open document");
    assert_eq!(w.store.len(), 0);
}

#[test]
fn rescanning_unchanged_tree_is_identical_and_extracts_nothing() {
    let mut w = World::new();
    for (i, p) in ["/r/b.pdf", "/r/a.pdf", "/r/sub/c.pdf"].iter().enumerate() {
        w.files.insert(p.to_string(), pdf_bytes(3000 + i * 10, 1, i as u32));
    }
    let paths: Vec<String> = w.files.keys().cloned().collect();
    let first = scan(&mut w, paths.clone());
    let opens_after_first = w.opens;
    assert_eq!(opens_after_first, 3);
    let second = scan(&mut w, paths);
    assert_eq!(debug(&first), debug(&second));
    assert_eq!(w.opens, opens_after_first);
    assert_eq!(first[0].path, "/r/a.pdf");
}

#[test]
fn moved_file_single_candidate_returns_stored_record_without_event() {
    let mut w = World::new();
    let c = pdf_bytes(5000, 1, 9);
    w.files.insert("/x/A.pdf".to_string(), c.clone());
    let before = extract(&mut w, "/x/A.pdf").unwrap();
    w.files.remove("/x/A.pdf");
    w.files.insert("/y/B.pdf".to_string(), c);
    let after = extract(&mut w, "/y/B.pdf").unwrap();
    assert_eq!(after.hash, before.hash);
    assert_eq!(after.path, "/x/A.pdf");
    assert!(duplicates(&w).is_empty());
    assert_eq!(w.full_hashes, 1);
}

fn colliding_pair() -> (Vec<u8>, Vec<u8>) {
    let a = pdf_bytes(200_000, 1, 5);
    let mut b = a.clone();
    b[100_000] ^= 0x5a;
    (a, b)
}

fn row(c: &[u8], path: &str) -> PdfMetadata {
    PdfMetadata {
        hash: full(c),
        partial_hash: fingerprint(c),
        path: path.to_string(),
        title: None,
        author: None,
        subject: None,
        keywords: None,
        creator: None,
        producer: None,
        creation_date: None,
        modification_date: None,
        page_count: 1,
        cover_path: None,
        file_size: c.len() as u64,
    }
}

#[test]
fn moved_file_multi_candidate_is_detected_and_path_updated() {
    let (a, b) = colliding_pair();
    assert_eq!(fingerprint(&a), fingerprint(&b));
    assert_ne!(full(&a), full(&b));
    let mut w = World::new();
    w.store.upsert(row(&a, "/old/A.pdf"));
    w.store.upsert(row(&b, "/old/other.pdf"));
    w.files.insert("/new/B.pdf".to_string(), a.clone());
    let r = extract(&mut w, "/new/B.pdf").unwrap();
    assert_eq!(r.path, "/new/B.pdf");
    assert_eq!(r.hash, full(&a));
    assert_eq!(
        duplicates(&w),
        vec![("/old/A.pdf".to_string(), "/new/B.pdf".to_string())]
    );
    assert_eq!(w.store.lookup_by_hash(&full(&a)).unwrap().path, "/new/B.pdf");
    assert_eq!(w.store.len(), 2);
    assert_eq!(w.opens, 0);
}

#[test]
fn colliding_fingerprint_without_hash_match_is_extracted() {
    let (a, b) = colliding_pair();
    let mut w = World::new();
    w.store.upsert(row(&a, "/p/a.pdf"));
    let mut third = b.clone();
    third[120_000] ^= 0x11;
    w.store.upsert(row(&b, "/p/b.pdf"));
    w.files.insert("/p/c.pdf".to_string(), third.clone());
    let r = extract(&mut w, "/p/c.pdf").unwrap();
    assert_eq!(r.hash, full(&third));
    assert_eq!(w.opens, 1);
    assert_eq!(w.full_hashes, 1);
    assert_eq!(w.store.len(), 3);
}

#[test]
fn directory_with_pdf_empty_pdf_and_other_file() {
    let entries = vec![
        DirEntryInfo { path: "/t/big.pdf".to_string(), kind: EntryKind::File },
        DirEntryInfo { path: "/t/empty.PDF".to_string(), kind: EntryKind::File },
        DirEntryInfo { path: "/t/notes.txt".to_string(), kind: EntryKind::File },
    ];
    let (found, subdirs) = partition_entries(&entries);
    assert_eq!(found, vec!["/t/big.pdf".to_string(), "/t/empty.PDF".to_string()]);
    assert!(subdirs.is_empty());
    let mut w = World::new();
    w.files.insert("/t/big.pdf".to_string(), pdf_bytes(200 * 1024, 3, 4));
    w.files.insert("/t/empty.PDF".to_string(), Vec::new());
    for p in &found {
        w.events.push(ScanProgress::Found(p.clone()));
    }
    let list = scan(&mut w, found);
    assert_eq!(list.len(), 1);
    assert_eq!(list[0].path, "/t/big.pdf");
    let mut tally = ProgressTally::new();
    for e in &w.events {
        tally.record(e);
    }
    assert_eq!(tally.found, 2);
    assert_eq!(tally.errors, 1);
    assert_eq!(tally.processing, 2);
    assert_eq!(tally.completed, Some(1));
    assert!(matches!(w.events.last(), Some(ScanProgress::Complete(l, _)) if l.len() == 1));
}

#[test]
fn identical_files_at_two_paths_keep_one_row() {
    let c = pdf_bytes(200_000, 1, 3);
    let mut w = World::new();
    w.files.insert("/z/one.pdf".to_string(), c.clone());
    w.files.insert("/z/two.pdf".to_string(), c.clone());
    let first = extract(&mut w, "/z/one.pdf").unwrap();
    let mut other = c.clone();
    other[100_000] ^= 1;
    w.store.upsert(row(&other, "/z/unrelated.pdf"));
    let second = extract(&mut w, "/z/two.pdf").unwrap();
    assert_eq!(first.hash, second.hash);
    assert_eq!(second.path, "/z/two.pdf");
    let rows: Vec<PdfMetadata> = w
        .store
        .rows()
        .into_iter()
        .filter(|r| r.hash == first.hash)
        .collect();
    assert_eq!(rows.len(), 1);
    assert_eq!(rows[0].path, "/z/two.pdf");
    assert_eq!(
        duplicates(&w),
        vec![("/z/one.pdf".to_string(), "/z/two.pdf".to_string())]
    );
}

#[test]
fn failure_event_in_any_waiting_state_fails() {
    let (x, _) = Extraction::start("/f.pdf".to_string());
    let (x, a) = x.step(ExtractionEvent::Failed("io".to_string()));
    assert!(matches!(a, ExtractionAction::Fail(ref m) if m == "io"));
    let (_, a) = x.step(ExtractionEvent::Stored);
    assert!(matches!(a, ExtractionAction::Fail(ref m) if m == "io"));
}

#[test]
fn unexpected_event_fails() {
    let (x, _) = Extraction::start("/f.pdf".to_string());
    let (x, a) = x.step(ExtractionEvent::Stored);
    assert!(matches!(a, ExtractionAction::Fail(_)));
    assert!(x.is_done());
}

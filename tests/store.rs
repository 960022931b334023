use shelf::{MetadataStore, PdfMetadata};

fn rec(hash: &str, partial: &str, path: &str, size: u64) -> PdfMetadata {
    PdfMetadata {
        hash: hash.to_string(),
        partial_hash: partial.to_string(),
        path: path.to_string(),
        title: Some(format!("title of {}", path)),
        author: None,
        subject: None,
        keywords: Some("k".to_string()),
        creator: None,
        producer: Some("p".to_string()),
        creation_date: None,
        modification_date: None,
        page_count: 3,
        cover_path: None,
        file_size: size,
    }
}

fn same(a: &PdfMetadata, b: &PdfMetadata) -> bool {
    format!("{:?}", a) == format!("{:?}", b)
}

#[test]
fn upsert_then_lookup_by_hash_round_trips() {
    let mut store = MetadataStore::new();
    let r = rec("h1", "p1", "/a/x.pdf", 10);
    store.upsert(r.clone());
    let got = store.lookup_by_hash(&"h1".to_string()).unwrap();
    assert!(same(&got, &r));
    assert!(store.lookup_by_hash(&"h2".to_string()).is_none());
}

#[test]
fn lookup_by_partial_returns_all_candidates_with_same_size() {
    let mut store = MetadataStore::new();
    store.upsert(rec("h1", "p", "/a", 10));
    store.upsert(rec("h2", "p", "/b", 10));
    store.upsert(rec("h3", "p", "/c", 11));
    store.upsert(rec("h4", "q", "/d", 10));
    let c = store.lookup_by_partial(&"p".to_string(), 10);
    let hashes: Vec<&str> = c.iter().map(|r| r.hash.as_str()).collect();
    assert_eq!(hashes, vec!["h1", "h2"]);
    assert!(store.lookup_by_partial(&"z".to_string(), 10).is_empty());
}

#[test]
fn same_content_at_two_paths_keeps_one_row_last_writer_wins() {
    let mut store = MetadataStore::new();
    store.upsert(rec("h", "p", "/first.pdf", 10));
    store.upsert(rec("h", "p", "/second.pdf", 10));
    assert_eq!(store.len(), 1);
    assert_eq!(store.lookup_by_hash(&"h".to_string()).unwrap().path, "/second.pdf");
    assert_eq!(store.rows().len(), 1);
}

use shelf::{has_pdf_extension, partition_entries, sort_paths, DirEntryInfo, EntryKind};

fn s(x: &str) -> String {
    x.to_string()
}

#[test]
fn pdf_extension_is_case_insensitive() {
    assert!(has_pdf_extension(&s("/a/b.pdf")));
    assert!(has_pdf_extension(&s("/a/b.PDF")));
    assert!(has_pdf_extension(&s("/a/b.PdF")));
    assert!(has_pdf_extension(&s("x..pdf")));
}

#[test]
fn other_names_are_not_pdf() {
    assert!(!has_pdf_extension(&s("/a/b.pdfx")));
    assert!(!has_pdf_extension(&s("/a/b.txt")));
    assert!(!has_pdf_extension(&s("/a/.pdf")));
    assert!(!has_pdf_extension(&s(".pdf")));
    assert!(!has_pdf_extension(&s("/a/pdf")));
    assert!(!has_pdf_extension(&s("")));
}

#[test]
fn partition_keeps_pdf_files_and_directories_in_order() {
    let entries = vec![
        DirEntryInfo { path: s("/r/z.pdf"), kind: EntryKind::File },
        DirEntryInfo { path: s("/r/sub"), kind: EntryKind::Directory },
        DirEntryInfo { path: s("/r/dir.pdf"), kind: EntryKind::Directory },
        DirEntryInfo { path: s("/r/a.PDF"), kind: EntryKind::File },
        DirEntryInfo { path: s("/r/link.pdf"), kind: EntryKind::Other },
        DirEntryInfo { path: s("/r/readme"), kind: EntryKind::File },
    ];
    let (pdfs, dirs) = partition_entries(&entries);
    assert_eq!(pdfs, vec![s("/r/z.pdf"), s("/r/a.PDF")]);
    assert_eq!(dirs, vec![s("/r/sub"), s("/r/dir.pdf")]);
}

#[test]
fn empty_listing_partitions_to_nothing() {
    let (pdfs, dirs) = partition_entries(&Vec::new());
    assert!(pdfs.is_empty() && dirs.is_empty());
}

#[test]
fn paths_sort_by_string_ascending_keeping_duplicates() {
    let v = vec![s("/b/x.pdf"), s("/a/z.pdf"), s("/a/Z.pdf"), s("/a/z.pdf"), s("/a/é.pdf"), s("/a")];
    let sorted = sort_paths(v.clone());
    let mut expected = v;
    expected.sort();
    assert_eq!(sorted, expected);
    assert_eq!(sorted[0], "/a");
    assert!(sort_paths(Vec::new()).is_empty());
}

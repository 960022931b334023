//! The canonical record kept for each distinct content, and the progress
//! events a scan reports.

use vstd::prelude::*;

verus! {

/// Clones an optional string, keeping its value.
pub fn clone_opt_string(o: &Option<String>) -> (r: Option<String>)
    ensures
        r == *o,
{
    match o {
        Some(s) => Some(s.clone()),
        None => None,
    }
}

/// Bibliographic properties and cache keys of one distinct file content.
///
/// `hash` identifies the content; `partial_hash` together with `file_size`
/// only narrows candidates. `path` is the last place the content was seen.
/// `cover_path` is a file name inside the covers directory.
#[derive(Debug)]
pub struct PdfMetadata {
    pub hash: String,
    pub partial_hash: String,
    pub path: String,
    pub title: Option<String>,
    pub author: Option<String>,
    pub subject: Option<String>,
    pub keywords: Option<String>,
    pub creator: Option<String>,
    pub producer: Option<String>,
    pub creation_date: Option<String>,
    pub modification_date: Option<String>,
    pub page_count: u32,
    pub cover_path: Option<String>,
    pub file_size: u64,
}

impl Clone for PdfMetadata {
    fn clone(&self) -> (r: Self)
        ensures
            r == *self,
    {
        PdfMetadata {
            hash: self.hash.clone(),
            partial_hash: self.partial_hash.clone(),
            path: self.path.clone(),
            title: clone_opt_string(&self.title),
            author: clone_opt_string(&self.author),
            subject: clone_opt_string(&self.subject),
            keywords: clone_opt_string(&self.keywords),
            creator: clone_opt_string(&self.creator),
            producer: clone_opt_string(&self.producer),
            creation_date: clone_opt_string(&self.creation_date),
            modification_date: clone_opt_string(&self.modification_date),
            page_count: self.page_count,
            cover_path: clone_opt_string(&self.cover_path),
            file_size: self.file_size,
        }
    }
}

impl PdfMetadata {
    /// The record with its path replaced and every other field kept.
    pub open spec fn spec_with_path(self, path: String) -> PdfMetadata {
        PdfMetadata { path: path, ..self }
    }

    /// Returns a copy of the record that names `path` as where it was seen.
    pub fn with_path(&self, path: &String) -> (r: PdfMetadata)
        ensures
            r == self.spec_with_path(*path),
    {
        let mut r = self.clone();
        r.path = path.clone();
        r
    }
}

/// Clones a list of records element by element.
pub fn clone_records(v: &Vec<PdfMetadata>) -> (r: Vec<PdfMetadata>)
    ensures
        r@ == v@,
{
    let mut r: Vec<PdfMetadata> = Vec::new();
    let mut i: usize = 0;
    while i < v.len()
        invariant
            i <= v.len(),
            r@ == v@.subrange(0, i as int),
        decreases v.len() - i,
    {
        r.push(v[i].clone());
        i = i + 1;
    }
    assert(v@.subrange(0, v.len() as int) =~= v@);
    r
}

/// A notification sent from scan workers to the single consumer.
///
/// Within one producer, events arrive in the order they were sent;
/// `Complete` is the last event of a scan.
#[derive(Debug)]
pub enum ScanProgress {
    Found(String),
    Processing(String),
    Extracted(String, PdfMetadata),
    DuplicateDetected(String, String),
    Error(String, String),
    Complete(Vec<PdfMetadata>, std::time::Duration),
}

/// A list entry that may carry one record, as a result grid holds it.
#[derive(Debug)]
pub struct PdfMetadataObject {
    metadata: Option<PdfMetadata>,
}

impl PdfMetadataObject {
    /// The record held, if any.
    pub closed spec fn spec_metadata(&self) -> Option<PdfMetadata> {
        self.metadata
    }

    /// An entry holding `metadata`.
    pub fn new(metadata: PdfMetadata) -> (r: PdfMetadataObject)
        ensures
            r.spec_metadata() == Some(metadata),
    {
        PdfMetadataObject { metadata: Some(metadata) }
    }

    /// A copy of the record held, if any.
    pub fn metadata(&self) -> (r: Option<PdfMetadata>)
        ensures
            r == self.spec_metadata(),
    {
        match &self.metadata {
            Some(m) => Some(m.clone()),
            None => None,
        }
    }
}

} // verus!

//! Indexing core for a collection of PDF files: content fingerprints, the
//! metadata table, the per-file extraction protocol, the directory walk's
//! rules, search, and the progress events that connect them.

pub mod config;
pub mod digest;
pub mod pipeline;
pub mod progress;
pub mod record;
pub mod scan;
pub mod search;
pub mod size;
pub mod store;

pub use config::{default_pdf_viewer_command, Config};
pub use digest::{partial_fingerprint, ContentHasher};
pub use pipeline::{DocumentInfo, Extraction, ExtractionAction, ExtractionEvent, ExtractionState};
pub use progress::ProgressTally;
pub use record::{PdfMetadata, PdfMetadataObject, ScanProgress};
pub use scan::{has_pdf_extension, partition_entries, sort_paths, DirEntryInfo, EntryKind};
pub use search::search;
pub use size::human_readable_file_size;
pub use store::MetadataStore;

//! User configuration: the roots to scan and the command that opens a PDF.

use vstd::prelude::*;
use vstd::string::*;

verus! {

/// Whether `base` is a leading run of whole components of `path`, as
/// `std::path::Path::starts_with` decides it.
pub uninterp spec fn path_is_within(path: Seq<char>, base: Seq<char>) -> bool;

/// Relies on std::path::Path::starts_with: only whole components match,
/// and the answer depends on the two strings alone.
#[verifier::external_body]
fn path_starts_with(path: &String, base: &String) -> (r: bool)
    ensures
        r == path_is_within(path@, base@),
{
    std::path::Path::new(path.as_str()).starts_with(base.as_str())
}

/// The command used to open a PDF when none is configured; `%` stands for
/// the file.
pub fn default_pdf_viewer_command() -> (r: String)
    ensures
        r@ == "zathura %"@,
{
    String::from_str("zathura %")
}

/// The roots to scan and the viewer command.
#[derive(Debug)]
pub struct Config {
    pub scan_dirs: Vec<String>,
    pub pdf_viewer_command: String,
}

/// Clones a list of strings element by element.
pub fn clone_strings(v: &Vec<String>) -> (r: Vec<String>)
    ensures
        r@ == v@,
{
    let mut r: Vec<String> = Vec::new();
    let mut i: usize = 0;
    while i < v.len()
        invariant
            i <= v.len(),
            r@ == v@.subrange(0, i as int),
        decreases v.len() - i,
    {
        r.push(v[i].clone());
        i = i + 1;
    }
    assert(v@.subrange(0, v.len() as int) =~= v@);
    r
}

impl Clone for Config {
    fn clone(&self) -> (r: Self)
        ensures
            r.scan_dirs@ == self.scan_dirs@,
            r.pdf_viewer_command == self.pdf_viewer_command,
    {
        Config {
            scan_dirs: clone_strings(&self.scan_dirs),
            pdf_viewer_command: self.pdf_viewer_command.clone(),
        }
    }
}

impl Default for Config {
    fn default() -> (r: Self)
        ensures
            r.scan_dirs@.len() == 0,
            r.pdf_viewer_command@ == "zathura %"@,
    {
        Config { scan_dirs: Vec::new(), pdf_viewer_command: default_pdf_viewer_command() }
    }
}

impl Config {
    /// Whether `dir` is one of the roots or lies inside one of them.
    pub open spec fn covers(&self, dir: Seq<char>) -> bool {
        exists|i: int| 0 <= i < self.scan_dirs@.len() && path_is_within(dir, #[trigger] self.scan_dirs@[i]@)
    }

    /// Adds `dir` as a root unless it is already a root or lies inside one;
    /// returns whether it was added.
    pub fn add_scan_dir(&mut self, dir: String) -> (r: bool)
        ensures
            r == !old(self).covers(dir@),
            r ==> final(self).scan_dirs@ == old(self).scan_dirs@.push(dir),
            !r ==> final(self).scan_dirs@ == old(self).scan_dirs@,
            final(self).pdf_viewer_command == old(self).pdf_viewer_command,
    {
        let mut i: usize = 0;
        while i < self.scan_dirs.len()
            invariant
                i <= self.scan_dirs.len(),
                forall|j: int| 0 <= j < i ==> !path_is_within(dir@, #[trigger] self.scan_dirs@[j]@),
            decreases self.scan_dirs.len() - i,
        {
            if path_starts_with(&dir, &self.scan_dirs[i]) {
                return false;
            }
            i = i + 1;
        }
        self.scan_dirs.push(dir);
        true
    }

    /// Removes the root at `index`; returns false, changing nothing, when
    /// there is no such root.
    pub fn remove_scan_dir(&mut self, index: usize) -> (r: bool)
        ensures
            r == (index < old(self).scan_dirs@.len()),
            r ==> final(self).scan_dirs@ == old(self).scan_dirs@.remove(index as int),
            !r ==> final(self).scan_dirs@ == old(self).scan_dirs@,
            final(self).pdf_viewer_command == old(self).pdf_viewer_command,
    {
        if index < self.scan_dirs.len() {
            self.scan_dirs.remove(index);
            true
        } else {
            false
        }
    }
}

} // verus!

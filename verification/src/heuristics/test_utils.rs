//! Constructors of small files and structures for exercising the heuristics.
use vstd::prelude::*;
use crate::discovery::files::RustFile;
use crate::parsing::extractor::FileStructure;

verus! {

/// A 10-line, 100-byte file of package `krate` at `name`.
pub fn test_file(name: &str) -> (f: RustFile)
    ensures
        f.path@ == name@,
        f.relative_path@ == name@,
        f.package_name@ == "krate"@,
        f.size_bytes == 100,
        f.line_count == 10,
{
    test_file_sized(name, 10, 100)
}

/// A file of package `krate` at `name` with the given size.
pub fn test_file_sized(name: &str, line_count: usize, size_bytes: u64) -> (f: RustFile)
    ensures
        f.path@ == name@,
        f.relative_path@ == name@,
        f.package_name@ == "krate"@,
        f.size_bytes == size_bytes,
        f.line_count == line_count,
{
    RustFile {
        path: name.to_string(),
        relative_path: name.to_string(),
        package_name: "krate".to_string(),
        size_bytes,
        line_count,
    }
}

/// An empty structure for the file at `path`.
pub fn test_structure(path: &str) -> (s: FileStructure)
    ensures
        s.path@ == path@,
        s.relative_path@.len() == 0,
        s.function_count == 0,
        s.max_nesting_depth == 0,
        s.use_paths@.len() == 0,
        s.pub_use_paths@.len() == 0,
        s.all_identifiers@.len() == 0,
{
    let mut s: FileStructure = FileStructure::default();
    s.path = path.to_string();
    s
}

} // verus!

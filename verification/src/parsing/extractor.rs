//! The structural summary of one source file and the path conventions that
//! name its module.
use vstd::prelude::*;
use crate::paths::{file_name, file_name_exec, last_index_of, last_index_of_exec, normal_parts, normal_parts_exec};
use crate::text::{
    chars_of, contains, contains_exec, eq_str, join, join_exec, push_str, push_vec, slice_chars,
    string_of, vviews,
};

verus! {

/// One `pub use` item: its rendered path, how many names it brings in, and
/// whether it is a glob.
#[derive(Debug, Clone)]
pub struct PubUseEntry {
    pub path: String,
    pub item_count: usize,
    pub is_wildcard: bool,
}

/// What the analyzers know of one source file.
#[derive(Debug, Clone)]
pub struct FileStructure {
    pub path: String,
    pub relative_path: String,
    pub package_name: String,
    /// Package-qualified Rust module path, e.g. "my_crate::foo::bar" for src/foo/bar.rs
    pub mod_path: String,
    pub function_count: usize,
    pub public_function_count: usize,
    pub impl_block_count: usize,
    pub struct_count: usize,
    pub enum_count: usize,
    pub trait_count: usize,
    pub branch_count: usize,
    pub max_nesting_depth: usize,
    pub max_type_depth: usize,
    pub comment_line_count: usize,
    pub decorator_count: usize,
    pub empty_catch_count: usize,
    pub dangerous_pattern_count: usize,
    pub string_comparison_count: usize,
    pub use_paths: Vec<String>,
    pub pub_use_paths: Vec<PubUseEntry>,
    pub mod_declarations: Vec<String>,
    pub pub_mod_count: usize,
    /// Leaf names imported by private `use` items (for unused-import detection).
    pub use_leaf_names: Vec<String>,
    /// (name, is_public) of every function and method.
    pub function_names: Vec<(String, bool)>,
    /// (function name, body tokens) for duplication detection.
    pub function_bodies: Vec<(String, String)>,
    /// Every identifier used in the file outside `use` items; each occurs once.
    pub all_identifiers: Vec<String>,
}

impl FileStructure {
    /// All counters are zero and all lists and texts are empty.
    pub open spec fn is_empty(self) -> bool {
        &&& self.path@.len() == 0
        &&& self.relative_path@.len() == 0
        &&& self.package_name@.len() == 0
        &&& self.mod_path@.len() == 0
        &&& self.function_count == 0
        &&& self.public_function_count == 0
        &&& self.impl_block_count == 0
        &&& self.struct_count == 0
        &&& self.enum_count == 0
        &&& self.trait_count == 0
        &&& self.branch_count == 0
        &&& self.max_nesting_depth == 0
        &&& self.max_type_depth == 0
        &&& self.comment_line_count == 0
        &&& self.decorator_count == 0
        &&& self.empty_catch_count == 0
        &&& self.dangerous_pattern_count == 0
        &&& self.string_comparison_count == 0
        &&& self.use_paths@.len() == 0
        &&& self.pub_use_paths@.len() == 0
        &&& self.mod_declarations@.len() == 0
        &&& self.pub_mod_count == 0
        &&& self.use_leaf_names@.len() == 0
        &&& self.function_names@.len() == 0
        &&& self.function_bodies@.len() == 0
        &&& self.all_identifiers@.len() == 0
    }
}

impl Default for FileStructure {
    fn default() -> (r: Self)
        ensures
            r.is_empty(),
    {
        FileStructure {
            path: String::new(),
            relative_path: String::new(),
            package_name: String::new(),
            mod_path: String::new(),
            function_count: 0,
            public_function_count: 0,
            impl_block_count: 0,
            struct_count: 0,
            enum_count: 0,
            trait_count: 0,
            branch_count: 0,
            max_nesting_depth: 0,
            max_type_depth: 0,
            comment_line_count: 0,
            decorator_count: 0,
            empty_catch_count: 0,
            dangerous_pattern_count: 0,
            string_comparison_count: 0,
            use_paths: Vec::new(),
            pub_use_paths: Vec::new(),
            mod_declarations: Vec::new(),
            pub_mod_count: 0,
            use_leaf_names: Vec::new(),
            function_names: Vec::new(),
            function_bodies: Vec::new(),
            all_identifiers: Vec::new(),
        }
    }
}

// ---------------------------------------------------------------------------
// Module paths
// ---------------------------------------------------------------------------

/// First index of `x` in `ps`.
pub open spec fn index_of(ps: Seq<Seq<char>>, x: Seq<char>) -> Option<int>
    decreases ps.len(),
{
    if ps.len() == 0 {
        None
    } else if ps[0] == x {
        Some(0)
    } else {
        match index_of(ps.drop_first(), x) {
            Some(i) => Some(i + 1),
            None => None,
        }
    }
}

pub proof fn lemma_index_of(ps: Seq<Seq<char>>, x: Seq<char>)
    ensures
        index_of(ps, x) matches Some(i) ==> 0 <= i < ps.len() && ps[i] == x && (forall|j: int|
            0 <= j < i ==> ps[j] != x),
        index_of(ps, x) is None ==> forall|j: int| 0 <= j < ps.len() ==> ps[j] != x,
    decreases ps.len(),
{
    if ps.len() > 0 && ps[0] != x {
        lemma_index_of(ps.drop_first(), x);
        assert forall|j: int| 1 <= j < ps.len() implies ps[j] == ps.drop_first()[j - 1] by {}
    }
}

/// The components after the first `src` component, or all of them.
pub open spec fn after_src(ps: Seq<Seq<char>>) -> Seq<Seq<char>> {
    match index_of(ps, "src"@) {
        Some(p) => ps.subrange(p + 1, ps.len() as int),
        None => ps,
    }
}

/// A file name without the text from its last `.` on.
pub open spec fn strip_ext(name: Seq<char>) -> Seq<char> {
    match last_index_of(name, '.') {
        Some(d) => name.subrange(0, d),
        None => name,
    }
}

/// The components with the extension dropped from the last one.
pub open spec fn strip_last_ext(ps: Seq<Seq<char>>) -> Seq<Seq<char>> {
    if ps.len() == 0 {
        ps
    } else {
        ps.update(ps.len() - 1, strip_ext(ps.last()))
    }
}

/// The components without a trailing `mod`.
pub open spec fn drop_mod(ps: Seq<Seq<char>>) -> Seq<Seq<char>> {
    if ps.len() > 0 && ps.last() == "mod"@ {
        ps.drop_last()
    } else {
        ps
    }
}

/// The unqualified module path of a file, from its path relative to the
/// workspace root: the components after the first `src` component (or all of
/// them), the extension dropped, a trailing `mod` dropped, joined by `::`.
pub open spec fn module_path_of(rel: Seq<char>) -> Seq<char> {
    join(drop_mod(strip_last_ext(after_src(normal_parts(rel)))), "::"@)
}

fn index_of_exec(ps: &Vec<Vec<char>>, x: &str) -> (r: Option<usize>)
    ensures
        r matches Some(i) ==> index_of(vviews(ps@), x@) == Some(i as int),
        r is None ==> index_of(vviews(ps@), x@) is None,
{
    let ghost v = vviews(ps@);
    proof {
        lemma_index_of(v, x@);
    }
    let mut i: usize = 0;
    while i < ps.len()
        invariant
            i <= ps.len(),
            v == vviews(ps@),
            forall|j: int| 0 <= j < i ==> v[j] != x@,
            index_of(v, x@) matches Some(k) ==> 0 <= k < v.len() && v[k] == x@ && (forall|j: int|
                0 <= j < k ==> v[j] != x@),
            index_of(v, x@) is None ==> forall|j: int| 0 <= j < v.len() ==> v[j] != x@,
        decreases ps.len() - i,
    {
        if eq_str(&ps[i], x) {
            assert(v[i as int] == x@);
            return Some(i);
        }
        i += 1;
    }
    None
}

/// Compute the unqualified Rust module path from a path relative to the workspace root.
///
/// Finds the first "src" component and uses everything after it (or the whole
/// path when there is none).
///
/// src/foo/bar.rs                    → "foo::bar"
/// src/foo/mod.rs                    → "foo"
/// src/lib.rs                        → "lib"
/// packages/repo-gc-rust/src/foo.rs  → "foo"
pub fn module_path_from_relative(rel: &str) -> (r: String)
    ensures
        r@ == module_path_of(rel@),
{
    let rv = chars_of(rel);
    let parts = normal_parts_exec(&rv);
    let ghost np = vviews(parts@);
    // components after the first `src`
    let mut after: Vec<Vec<char>> = Vec::new();
    let src = "src";
    proof {
        lemma_index_of(np, src@);
    }
    let start = match index_of_exec(&parts, src) {
        Some(p) => {
            assert(index_of(np, src@) == Some(p as int));
            assert(p < np.len());
            assert(np.len() == parts.len());
            p + 1
        },
        None => 0,
    };
    assert(after_src(np) == np.subrange(start as int, np.len() as int)) by {
        assert(src@ == "src"@);
        if index_of(np, "src"@) is None {
            assert(np.subrange(0, np.len() as int) =~= np);
        }
    }
    let mut i = start;
    while i < parts.len()
        invariant
            start <= i <= parts.len(),
            np == vviews(parts@),
            vviews(after@) == np.subrange(start as int, i as int),
        decreases parts.len() - i,
    {
        let ghost before = after@;
        let item = parts[i].clone();
        assert(item@ == np[i as int]);
        after.push(item);
        assert(vviews(after@) =~= vviews(before).push(np[i as int]));
        assert(vviews(after@) =~= np.subrange(start as int, i + 1));
        i += 1;
    }
    assert(vviews(after@) == after_src(np));
    let ghost a = vviews(after@);
    // drop the extension of the last component
    if after.len() > 0 {
        let last_idx = after.len() - 1;
        let name = after[last_idx].clone();
        proof {
            crate::paths::lemma_last_index_of(name@, '.');
        }
        let stripped = match last_index_of_exec(&name, '.') {
            Some(d) => slice_chars(&name, 0, d),
            None => name,
        };
        after.set(last_idx, stripped);
        assert(vviews(after@) =~= strip_last_ext(a));
    } else {
        assert(vviews(after@) =~= strip_last_ext(a));
    }
    let ghost b = vviews(after@);
    // drop a trailing `mod`
    if after.len() > 0 && eq_str(&after[after.len() - 1], "mod") {
        assert(b.last() == after@[after.len() - 1]@);
        after.pop();
        assert(vviews(after@) =~= drop_mod(b));
    } else {
        if after.len() > 0 {
            assert(b.last() == after@[after.len() - 1]@);
        }
        assert(vviews(after@) =~= drop_mod(b));
    }
    let sep = chars_of("::");
    let joined = join_exec(&after, &sep);
    string_of(&joined)
}

/// `pkg` when the module path is empty, else `pkg::unqualified`.
pub open spec fn qualified_of(package_name: Seq<char>, unqualified: Seq<char>) -> Seq<char> {
    if unqualified.len() == 0 {
        package_name
    } else {
        package_name + "::"@ + unqualified
    }
}

/// Build a package-qualified module path to avoid collisions in multi-crate workspaces.
/// "my_crate" + "foo::bar" → "my_crate::foo::bar"
pub fn qualified_module_path(package_name: &str, unqualified: &str) -> (r: String)
    ensures
        r@ == qualified_of(package_name@, unqualified@),
{
    let mut v = chars_of(package_name);
    let u = chars_of(unqualified);
    if u.len() > 0 {
        push_str(&mut v, "::");
        push_vec(&mut v, &u);
    }
    string_of(&v)
}

// ---------------------------------------------------------------------------
// Test files
// ---------------------------------------------------------------------------

/// `str::to_lowercase`: the Unicode lowercase mapping of a string.
pub uninterp spec fn lowercase(s: Seq<char>) -> Seq<char>;

/// The lowercase of an ASCII character: `A` to `Z` become `a` to `z`, any
/// other character stays.
pub open spec fn ascii_lower(c: char) -> char {
    if 'A' <= c <= 'Z' {
        ((c as u32) + 32) as char
    } else {
        c
    }
}

/// Every character is ASCII.
pub open spec fn all_ascii(s: Seq<char>) -> bool {
    forall|i: int| 0 <= i < s.len() ==> s[i] <= '\x7f'
}

/// `str::to_lowercase`. Its result is the Unicode lowercase mapping of the
/// argument, which the contract names; on an all-ASCII text it states the
/// mapping: each of `A` to `Z` becomes its lowercase letter and every other
/// character stays. What it gives on other text is left unsaid.
#[verifier::external_body]
pub fn to_lowercase(s: &str) -> (r: String)
    ensures
        r@ == lowercase(s@),
        all_ascii(s@) ==> r@ == s@.map_values(|c: char| ascii_lower(c)),
{
    s.to_lowercase()
}

/// A path names a test file: its lowercased text holds a `tests` directory,
/// or its lowercased file name holds `test` or `spec`.
pub open spec fn is_test_path(p: Seq<char>) -> bool {
    ||| contains(lowercase(p), "/tests/"@)
    ||| contains(lowercase(p), "\\tests\\"@)
    ||| (file_name(p) matches Some(n) && (contains(lowercase(n), "test"@) || contains(
        lowercase(n),
        "spec"@,
    )))
}

/// Check if a file path indicates a test file.
pub fn is_test_file(path: &str) -> (b: bool)
    ensures
        b == is_test_path(path@),
{
    let lower = to_lowercase(path);
    let lv = chars_of(lower.as_str());
    if contains_exec(&lv, &chars_of("/tests/")) || contains_exec(&lv, &chars_of("\\tests\\")) {
        return true;
    }
    let pv = chars_of(path);
    match file_name_exec(&pv) {
        Some(n) => {
            let ns = string_of(&n);
            let nl = to_lowercase(ns.as_str());
            let nlv = chars_of(nl.as_str());
            contains_exec(&nlv, &chars_of("test")) || contains_exec(&nlv, &chars_of("spec"))
        },
        None => false,
    }
}

} // verus!

//! The facts gathered while walking a file's syntax tree.
//!
//! The walk itself follows `syn`'s visitor; at each node it hands this
//! module a plain description of the node (its shape), and the `Visitor`
//! here decides what to count. The decisions, and what a whole file adds up
//! to, are stated over those shapes.
use vstd::prelude::*;
use crate::parsing::extractor::{
    is_test_file, is_test_path, module_path_from_relative, module_path_of, qualified_module_path,
    qualified_of, FileStructure, PubUseEntry,
};
use crate::parsing::use_tree::{
    collect_leaf_names, count_use_items, is_glob, is_wildcard_use, item_count, leaf_names, tree_text,
    use_tree_to_string, UseShape,
};
use crate::parsing::source_text::{comment_lines, count_comment_lines, count_ok_calls, ok_calls};
use crate::text::{chars_of, eq_chars, eq_str, push_str, push_vec, string_of, sviews};

verus! {

// ---------------------------------------------------------------------------
// Node shapes
// ---------------------------------------------------------------------------

/// The kind of a literal.
#[derive(Debug, Clone, Copy, PartialEq, Eq, Structural)]
pub enum LitKind {
    Str,
    Other,
}

/// The operator of a binary expression, as far as the counts care.
#[derive(Debug, Clone, Copy, PartialEq, Eq, Structural)]
pub enum BinOpKind {
    Eq,
    Ne,
    Other,
}

/// A pattern, as far as the counts care.
#[derive(Debug)]
pub enum PatShape {
    /// `_`
    Wild,
    /// A literal pattern.
    Lit { kind: LitKind },
    /// `Path(elems...)`; `path_last` is the path's last segment.
    TupleStruct { path_last: Option<String>, elems: Vec<PatShape> },
    Other,
}

/// An expression, as far as the counts care.
#[derive(Debug, Clone)]
pub enum ExprShape {
    Unsafe,
    MethodCall { method: String },
    /// A call; `callee_last` is the last segment of the callee when the
    /// callee is a path.
    Call { callee_last: Option<String> },
    /// `left op right`; an operand's literal kind when it is a literal.
    Binary { op: BinOpKind, left_lit: Option<LitKind>, right_lit: Option<LitKind> },
    If,
    Match,
    ForLoop,
    While,
    Loop,
    Block { stmt_count: usize },
    Closure,
    Other,
}

/// A type, as far as the depth count cares.
#[derive(Debug, Clone)]
pub enum TypeShape {
    /// A path type; for each segment, whether it has non-empty `<...>` arguments.
    Path { generic_segments: Vec<bool> },
    Tuple,
    Array,
    Reference,
    Slice,
    Ptr,
    Other,
}

/// `Err(..)` with a `_` among its elements: an error binding that drops the payload.
pub open spec fn is_err_pat(p: PatShape) -> bool {
    match p {
        PatShape::TupleStruct { path_last, elems } => (path_last matches Some(n) && n@ == "Err"@) && exists|i: int|
            0 <= i < elems@.len() && (#[trigger] elems@[i]) is Wild,
        _ => false,
    }
}

pub open spec fn is_str_lit(l: Option<LitKind>) -> bool {
    l == Some(LitKind::Str)
}

/// Expressions that open a nesting level.
pub open spec fn is_block_like(e: ExprShape) -> bool {
    match e {
        ExprShape::If | ExprShape::Match | ExprShape::ForLoop | ExprShape::While | ExprShape::Loop
        | ExprShape::Block { .. } | ExprShape::Closure | ExprShape::Unsafe => true,
        _ => false,
    }
}

/// `{}`: a block without statements.
pub open spec fn is_empty_block(e: ExprShape) -> bool {
    e matches ExprShape::Block { stmt_count } && stmt_count == 0
}

/// Dangerous patterns an expression adds: `unsafe`, `unwrap`/`expect`
/// (outside test files) and calls of `transmute`.
pub open spec fn dangerous_in(e: ExprShape, in_test_file: bool) -> nat {
    match e {
        ExprShape::Unsafe => 1,
        ExprShape::MethodCall { method } => if !in_test_file && (method@ == "unwrap"@ || method@ == "expect"@) {
            1
        } else {
            0
        },
        ExprShape::Call { callee_last } => if callee_last matches Some(n) && n@ == "transmute"@ {
            1
        } else {
            0
        },
        _ => 0,
    }
}

/// String comparisons an expression adds: `==` or `!=` with a string literal operand.
pub open spec fn string_comparisons_in(e: ExprShape) -> nat {
    match e {
        ExprShape::Binary { op, left_lit, right_lit } => if (op == BinOpKind::Eq || op == BinOpKind::Ne) && (
        is_str_lit(left_lit) || is_str_lit(right_lit)) {
            1
        } else {
            0
        },
        _ => 0,
    }
}

/// Types that open a type-nesting level: generic paths, tuples, arrays,
/// references, slices and pointers.
pub open spec fn is_nesting_type(t: TypeShape) -> bool {
    match t {
        TypeShape::Path { generic_segments } => exists|i: int|
            0 <= i < generic_segments@.len() && #[trigger] generic_segments@[i],
        TypeShape::Other => false,
        _ => true,
    }
}

pub open spec fn max(a: nat, b: nat) -> nat {
    if a >= b {
        a
    } else {
        b
    }
}

/// The module path of a child module `ident` declared in module `mp`.
pub open spec fn child_module(mp: Seq<char>, ident: Seq<char>) -> Seq<char> {
    if mp.len() == 0 {
        ident
    } else {
        mp + "::"@ + ident
    }
}

/// One arm of a `match`: its pattern and its body.
#[derive(Debug)]
pub struct ArmShape {
    pub pat: PatShape,
    pub body: ExprShape,
}

/// Arms among the first `k` of the form `Err(_) => {}`.
pub open spec fn swallowing_arms(arms: Seq<ArmShape>, k: int) -> nat
    decreases k,
{
    if k <= 0 || k > arms.len() {
        0
    } else {
        swallowing_arms(arms, k - 1) + if is_err_pat(arms[k - 1].pat) && is_empty_block(arms[k - 1].body) {
            1nat
        } else {
            0nat
        }
    }
}

fn err_pat_exec(p: &PatShape) -> (b: bool)
    ensures
        b == is_err_pat(*p),
{
    match p {
        PatShape::TupleStruct { path_last, elems } => {
            let named_err = match path_last {
                Some(n) => eq_str(&chars_of(n.as_str()), "Err"),
                None => false,
            };
            if !named_err {
                return false;
            }
            assert(is_err_pat(*p) == exists|j: int| 0 <= j < elems@.len() && (#[trigger] elems@[j]) is Wild);
            let mut i: usize = 0;
            while i < elems.len()
                invariant
                    i <= elems.len(),
                    is_err_pat(*p) == exists|j: int| 0 <= j < elems@.len() && (#[trigger] elems@[j]) is Wild,
                    forall|j: int| 0 <= j < i ==> !((#[trigger] elems@[j]) is Wild),
                decreases elems.len() - i,
            {
                match &elems[i] {
                    PatShape::Wild => {
                        assert(elems@[i as int] is Wild);
                        return true;
                    },
                    _ => {},
                }
                i += 1;
            }
            false
        },
        _ => false,
    }
}

fn empty_block_exec(e: &ExprShape) -> (b: bool)
    ensures
        b == is_empty_block(*e),
{
    match e {
        ExprShape::Block { stmt_count } => *stmt_count == 0,
        _ => false,
    }
}

/// The elements of `v`, each once, in order of first occurrence.
pub open spec fn distinct(v: Seq<Seq<char>>) -> Seq<Seq<char>>
    decreases v.len(),
{
    if v.len() == 0 {
        seq![]
    } else {
        let prev = distinct(v.drop_last());
        if prev.contains(v.last()) {
            prev
        } else {
            prev.push(v.last())
        }
    }
}

fn listed(v: &Vec<String>, x: &String) -> (b: bool)
    ensures
        b == sviews(v@).contains(x@),
{
    let xv = chars_of(x.as_str());
    let mut i: usize = 0;
    while i < v.len()
        invariant
            i <= v.len(),
            xv@ == x@,
            forall|j: int| 0 <= j < i ==> sviews(v@)[j] != x@,
        decreases v.len() - i,
    {
        if eq_chars(&chars_of(v[i].as_str()), &xv) {
            assert(sviews(v@)[i as int] == x@);
            return true;
        }
        i += 1;
    }
    false
}

/// The elements of `v`, each once, in order of first occurrence, computed.
fn distinct_exec(v: &Vec<String>) -> (r: Vec<String>)
    ensures
        sviews(r@) == distinct(sviews(v@)),
{
    let mut r: Vec<String> = Vec::new();
    let mut i: usize = 0;
    while i < v.len()
        invariant
            i <= v.len(),
            sviews(r@) == distinct(sviews(v@).take(i as int)),
        decreases v.len() - i,
    {
        let ghost t = sviews(v@).take(i + 1);
        assert(t.drop_last() =~= sviews(v@).take(i as int));
        assert(t.last() == v@[i as int]@);
        if !listed(&r, &v[i]) {
            let ghost before = sviews(r@);
            r.push(v[i].clone());
            assert(sviews(r@) =~= before.push(v@[i as int]@));
        }
        i += 1;
    }
    assert(sviews(v@).take(i as int) =~= sviews(v@));
    r
}

/// Whether an expression opens a nesting level, computed.
pub fn block_like_exec(e: &ExprShape) -> (b: bool)
    ensures
        b == is_block_like(*e),
{
    match e {
        ExprShape::If | ExprShape::Match | ExprShape::ForLoop | ExprShape::While | ExprShape::Loop
        | ExprShape::Block { .. } | ExprShape::Closure | ExprShape::Unsafe => true,
        _ => false,
    }
}

/// Whether a type opens a type-nesting level, computed.
pub fn nesting_type_exec(t: &TypeShape) -> (b: bool)
    ensures
        b == is_nesting_type(*t),
{
    match t {
        TypeShape::Path { generic_segments } => {
            let mut any = false;
            let mut i: usize = 0;
            while i < generic_segments.len()
                invariant
                    i <= generic_segments.len(),
                    any == exists|j: int| 0 <= j < i && #[trigger] generic_segments@[j],
                decreases generic_segments.len() - i,
            {
                if generic_segments[i] {
                    any = true;
                }
                i += 1;
            }
            any
        },
        TypeShape::Other => false,
        _ => true,
    }
}

// ---------------------------------------------------------------------------
// The visitor
// ---------------------------------------------------------------------------

/// The facts gathered so far and the current nesting depths.
#[derive(Debug)]
pub struct Visitor {
    pub s: FileStructure,
    pub type_depth: usize,
    pub depth: usize,
}

/// Everything but the file's names is zero or empty.
pub open spec fn blank_counts(s: FileStructure) -> bool {
    &&& s.function_count == 0
    &&& s.public_function_count == 0
    &&& s.impl_block_count == 0
    &&& s.struct_count == 0
    &&& s.enum_count == 0
    &&& s.trait_count == 0
    &&& s.branch_count == 0
    &&& s.max_nesting_depth == 0
    &&& s.max_type_depth == 0
    &&& s.comment_line_count == 0
    &&& s.decorator_count == 0
    &&& s.empty_catch_count == 0
    &&& s.dangerous_pattern_count == 0
    &&& s.string_comparison_count == 0
    &&& s.use_paths@.len() == 0
    &&& s.pub_use_paths@.len() == 0
    &&& s.mod_declarations@.len() == 0
    &&& s.pub_mod_count == 0
    &&& s.use_leaf_names@.len() == 0
    &&& s.function_names@.len() == 0
    &&& s.function_bodies@.len() == 0
    &&& s.all_identifiers@.len() == 0
}

impl Visitor {
    /// A visitor for the file at `path`, whose module path is derived from
    /// `relative_path` and qualified by `package_name`.
    pub fn new(path: String, relative_path: String, package_name: String) -> (v: Visitor)
        ensures
            v.s.path == path,
            v.s.relative_path == relative_path,
            v.s.package_name == package_name,
            v.s.mod_path@ == qualified_of(package_name@, module_path_of(relative_path@)),
            blank_counts(v.s),
            v.depth == 0,
            v.type_depth == 0,
    {
        let unqualified = module_path_from_relative(relative_path.as_str());
        let mod_path = qualified_module_path(package_name.as_str(), unqualified.as_str());
        let mut s = FileStructure::default();
        s.path = path;
        s.relative_path = relative_path;
        s.package_name = package_name;
        s.mod_path = mod_path;
        Visitor { s, type_depth: 0, depth: 0 }
    }

    /// One level deeper, with the maximum depth kept up to date.
    fn deeper(&mut self)
        requires
            old(self).depth < usize::MAX,
        ensures
            final(self).depth == old(self).depth + 1,
            final(self).s == (FileStructure {
                max_nesting_depth: max(old(self).s.max_nesting_depth as nat, final(self).depth as nat) as usize,
                ..old(self).s
            }),
            final(self).type_depth == old(self).type_depth,
    {
        self.depth += 1;
        if self.depth > self.s.max_nesting_depth {
            self.s.max_nesting_depth = self.depth;
        }
    }

    /// Back out of a nesting level.
    pub fn leave(&mut self)
        requires
            old(self).depth > 0,
        ensures
            final(self).depth == old(self).depth - 1,
            final(self).s == old(self).s,
            final(self).type_depth == old(self).type_depth,
    {
        self.depth -= 1;
    }

    /// Counts what an expression adds, and opens a nesting level for
    /// block-like ones (which the caller leaves after the children).
    pub fn enter_expr(&mut self, e: &ExprShape) -> (block_like: bool)
        requires
            old(self).s.dangerous_pattern_count < usize::MAX,
            old(self).s.string_comparison_count < usize::MAX,
            old(self).depth < usize::MAX,
        ensures
            block_like == is_block_like(*e),
            final(self).depth == old(self).depth + if block_like {
                1int
            } else {
                0int
            },
            final(self).type_depth == old(self).type_depth,
            final(self).s == (FileStructure {
                dangerous_pattern_count: (old(self).s.dangerous_pattern_count + dangerous_in(
                    *e,
                    is_test_path(old(self).s.relative_path@),
                )) as usize,
                string_comparison_count: (old(self).s.string_comparison_count + string_comparisons_in(*e)) as usize,
                max_nesting_depth: if block_like {
                    max(old(self).s.max_nesting_depth as nat, final(self).depth as nat) as usize
                } else {
                    old(self).s.max_nesting_depth
                },
                ..old(self).s
            }),
    {
        match e {
            ExprShape::Unsafe => {
                self.s.dangerous_pattern_count += 1;
            },
            ExprShape::MethodCall { method } => {
                if !is_test_file(self.s.relative_path.as_str()) {
                    let m = chars_of(method.as_str());
                    if eq_str(&m, "unwrap") || eq_str(&m, "expect") {
                        self.s.dangerous_pattern_count += 1;
                    }
                }
            },
            ExprShape::Call { callee_last } => {
                match callee_last {
                    Some(n) => {
                        if eq_str(&chars_of(n.as_str()), "transmute") {
                            self.s.dangerous_pattern_count += 1;
                        }
                    },
                    None => {},
                }
            },
            ExprShape::Binary { op, left_lit, right_lit } => {
                let eq_op = match op {
                    BinOpKind::Eq => true,
                    BinOpKind::Ne => true,
                    BinOpKind::Other => false,
                };
                let left_str = match left_lit {
                    Some(LitKind::Str) => true,
                    _ => false,
                };
                let right_str = match right_lit {
                    Some(LitKind::Str) => true,
                    _ => false,
                };
                if eq_op && (left_str || right_str) {
                    self.s.string_comparison_count += 1;
                }
            },
            _ => {},
        }
        let block_like = block_like_exec(e);
        if block_like {
            self.deeper();
        }
        block_like
    }

    /// A free function: counted (and its visibility and attributes), its name
    /// and body text recorded, and a nesting level opened.
    pub fn enter_item_fn(&mut self, name: String, is_pub: bool, attr_count: usize, body: String)
        requires
            old(self).s.function_count < usize::MAX,
            old(self).s.public_function_count < usize::MAX,
            old(self).s.decorator_count + attr_count <= usize::MAX,
            old(self).depth < usize::MAX,
        ensures
            final(self).depth == old(self).depth + 1,
            final(self).type_depth == old(self).type_depth,
            final(self).s.function_names@ == old(self).s.function_names@.push((name, is_pub)),
            final(self).s.function_bodies@ == old(self).s.function_bodies@.push((name, body)),
            final(self).s == (FileStructure {
                function_count: (old(self).s.function_count + 1) as usize,
                public_function_count: (old(self).s.public_function_count + if is_pub {
                    1int
                } else {
                    0int
                }) as usize,
                decorator_count: (old(self).s.decorator_count + attr_count) as usize,
                max_nesting_depth: max(old(self).s.max_nesting_depth as nat, final(self).depth as nat) as usize,
                function_names: final(self).s.function_names,
                function_bodies: final(self).s.function_bodies,
                ..old(self).s
            }),
    {
        self.s.decorator_count += attr_count;
        self.record_fn(name, is_pub, body);
    }

    /// A method: counted (and its visibility), its name and body text
    /// recorded, and a nesting level opened.
    pub fn enter_impl_item_fn(&mut self, name: String, is_pub: bool, body: String)
        requires
            old(self).s.function_count < usize::MAX,
            old(self).s.public_function_count < usize::MAX,
            old(self).depth < usize::MAX,
        ensures
            final(self).depth == old(self).depth + 1,
            final(self).type_depth == old(self).type_depth,
            final(self).s.function_names@ == old(self).s.function_names@.push((name, is_pub)),
            final(self).s.function_bodies@ == old(self).s.function_bodies@.push((name, body)),
            final(self).s == (FileStructure {
                function_count: (old(self).s.function_count + 1) as usize,
                public_function_count: (old(self).s.public_function_count + if is_pub {
                    1int
                } else {
                    0int
                }) as usize,
                max_nesting_depth: max(old(self).s.max_nesting_depth as nat, final(self).depth as nat) as usize,
                function_names: final(self).s.function_names,
                function_bodies: final(self).s.function_bodies,
                ..old(self).s
            }),
    {
        self.record_fn(name, is_pub, body);
    }

    fn record_fn(&mut self, name: String, is_pub: bool, body: String)
        requires
            old(self).s.function_count < usize::MAX,
            old(self).s.public_function_count < usize::MAX,
            old(self).depth < usize::MAX,
        ensures
            final(self).depth == old(self).depth + 1,
            final(self).type_depth == old(self).type_depth,
            final(self).s.function_names@ == old(self).s.function_names@.push((name, is_pub)),
            final(self).s.function_bodies@ == old(self).s.function_bodies@.push((name, body)),
            final(self).s == (FileStructure {
                function_count: (old(self).s.function_count + 1) as usize,
                public_function_count: (old(self).s.public_function_count + if is_pub {
                    1int
                } else {
                    0int
                }) as usize,
                max_nesting_depth: max(old(self).s.max_nesting_depth as nat, final(self).depth as nat) as usize,
                function_names: final(self).s.function_names,
                function_bodies: final(self).s.function_bodies,
                ..old(self).s
            }),
    {
        self.s.function_count += 1;
        if is_pub {
            self.s.public_function_count += 1;
        }
        self.s.function_names.push((name.clone(), is_pub));
        self.s.function_bodies.push((name, body));
        self.deeper();
    }

    /// An impl block: counted with its attributes, and a nesting level opened.
    pub fn enter_item_impl(&mut self, attr_count: usize)
        requires
            old(self).s.impl_block_count < usize::MAX,
            old(self).s.decorator_count + attr_count <= usize::MAX,
            old(self).depth < usize::MAX,
        ensures
            final(self).depth == old(self).depth + 1,
            final(self).type_depth == old(self).type_depth,
            final(self).s == (FileStructure {
                impl_block_count: (old(self).s.impl_block_count + 1) as usize,
                decorator_count: (old(self).s.decorator_count + attr_count) as usize,
                max_nesting_depth: max(old(self).s.max_nesting_depth as nat, final(self).depth as nat) as usize,
                ..old(self).s
            }),
    {
        self.s.impl_block_count += 1;
        self.s.decorator_count += attr_count;
        self.deeper();
    }

    /// A struct, counted with its attributes.
    pub fn record_struct(&mut self, attr_count: usize)
        requires
            old(self).s.struct_count < usize::MAX,
            old(self).s.decorator_count + attr_count <= usize::MAX,
        ensures
            final(self).depth == old(self).depth,
            final(self).type_depth == old(self).type_depth,
            final(self).s == (FileStructure {
                struct_count: (old(self).s.struct_count + 1) as usize,
                decorator_count: (old(self).s.decorator_count + attr_count) as usize,
                ..old(self).s
            }),
    {
        self.s.struct_count += 1;
        self.s.decorator_count += attr_count;
    }

    /// An enum, counted with its attributes.
    pub fn record_enum(&mut self, attr_count: usize)
        requires
            old(self).s.enum_count < usize::MAX,
            old(self).s.decorator_count + attr_count <= usize::MAX,
        ensures
            final(self).depth == old(self).depth,
            final(self).type_depth == old(self).type_depth,
            final(self).s == (FileStructure {
                enum_count: (old(self).s.enum_count + 1) as usize,
                decorator_count: (old(self).s.decorator_count + attr_count) as usize,
                ..old(self).s
            }),
    {
        self.s.enum_count += 1;
        self.s.decorator_count += attr_count;
    }

    /// A trait, counted with its attributes.
    pub fn record_trait(&mut self, attr_count: usize)
        requires
            old(self).s.trait_count < usize::MAX,
            old(self).s.decorator_count + attr_count <= usize::MAX,
        ensures
            final(self).depth == old(self).depth,
            final(self).type_depth == old(self).type_depth,
            final(self).s == (FileStructure {
                trait_count: (old(self).s.trait_count + 1) as usize,
                decorator_count: (old(self).s.decorator_count + attr_count) as usize,
                ..old(self).s
            }),
    {
        self.s.trait_count += 1;
        self.s.decorator_count += attr_count;
    }

    /// A `use` item: a public one is recorded as a re-export with its name
    /// count and glob flag; a private one by its path and the names it binds.
    pub fn record_use(&mut self, tree: &UseShape, is_pub: bool)
        requires
            item_count(*tree) <= usize::MAX,
        ensures
            final(self).depth == old(self).depth,
            final(self).type_depth == old(self).type_depth,
            final(self).s == (FileStructure {
                use_paths: final(self).s.use_paths,
                pub_use_paths: final(self).s.pub_use_paths,
                use_leaf_names: final(self).s.use_leaf_names,
                ..old(self).s
            }),
            is_pub ==> {
                &&& final(self).s.use_paths@ == old(self).s.use_paths@
                &&& final(self).s.use_leaf_names@ == old(self).s.use_leaf_names@
                &&& final(self).s.pub_use_paths@.len() == old(self).s.pub_use_paths@.len() + 1
                &&& final(self).s.pub_use_paths@.take(old(self).s.pub_use_paths@.len() as int) == old(self).s.pub_use_paths@
                &&& final(self).s.pub_use_paths@.last().path@ == tree_text(*tree)
                &&& final(self).s.pub_use_paths@.last().item_count == item_count(*tree)
                &&& final(self).s.pub_use_paths@.last().is_wildcard == is_glob(*tree)
            },
            !is_pub ==> {
                &&& final(self).s.pub_use_paths@ == old(self).s.pub_use_paths@
                &&& sviews(final(self).s.use_paths@) == sviews(old(self).s.use_paths@).push(tree_text(*tree))
                &&& final(self).s.use_paths@.take(old(self).s.use_paths@.len() as int) == old(self).s.use_paths@
                &&& sviews(final(self).s.use_leaf_names@) == sviews(old(self).s.use_leaf_names@) + leaf_names(*tree)
            },
    {
        let path = use_tree_to_string(tree);
        if is_pub {
            let entry = PubUseEntry { path, item_count: count_use_items(tree), is_wildcard: is_wildcard_use(tree) };
            self.s.pub_use_paths.push(entry);
            assert(self.s.pub_use_paths@.take(old(self).s.pub_use_paths@.len() as int) =~= old(self).s.pub_use_paths@);
        } else {
            let ghost before = self.s.use_paths@;
            self.s.use_paths.push(path);
            assert(self.s.use_paths@.take(before.len() as int) =~= before);
            assert(sviews(self.s.use_paths@) =~= sviews(before).push(tree_text(*tree)));
            let names = collect_leaf_names(tree);
            let ghost lbefore = self.s.use_leaf_names@;
            let ghost mid = self.s;
            let mut i: usize = 0;
            while i < names.len()
                invariant
                    i <= names.len(),
                    sviews(self.s.use_leaf_names@) == sviews(lbefore) + sviews(names@).take(i as int),
                    self.s == (FileStructure { use_leaf_names: self.s.use_leaf_names, ..mid }),
                    self.depth == old(self).depth,
                    self.type_depth == old(self).type_depth,
                decreases names.len() - i,
            {
                let ghost b = sviews(self.s.use_leaf_names@);
                self.s.use_leaf_names.push(names[i].clone());
                assert(sviews(self.s.use_leaf_names@) =~= b.push(names@[i as int]@));
                assert(sviews(names@).take(i + 1) =~= sviews(names@).take(i as int).push(names@[i as int]@));
                i += 1;
            }
            assert(sviews(names@).take(i as int) =~= sviews(names@));
        }
    }

    /// A `mod` item: recorded fully qualified (the file's module path, then
    /// the child's name), and counted when public.
    pub fn record_mod(&mut self, ident: &str, is_pub: bool)
        requires
            old(self).s.pub_mod_count < usize::MAX,
        ensures
            final(self).depth == old(self).depth,
            final(self).type_depth == old(self).type_depth,
            sviews(final(self).s.mod_declarations@) == sviews(old(self).s.mod_declarations@).push(
                child_module(old(self).s.mod_path@, ident@),
            ),
            final(self).s.mod_declarations@.take(old(self).s.mod_declarations@.len() as int)
                == old(self).s.mod_declarations@,
            final(self).s == (FileStructure {
                mod_declarations: final(self).s.mod_declarations,
                pub_mod_count: (old(self).s.pub_mod_count + if is_pub {
                    1int
                } else {
                    0int
                }) as usize,
                ..old(self).s
            }),
    {
        let mut child: Vec<char> = Vec::new();
        let mp = chars_of(self.s.mod_path.as_str());
        if mp.len() == 0 {
            push_str(&mut child, ident);
        } else {
            push_vec(&mut child, &mp);
            push_str(&mut child, "::");
            push_str(&mut child, ident);
        }
        assert(child@ =~= child_module(old(self).s.mod_path@, ident@));
        let ghost before = self.s.mod_declarations@;
        self.s.mod_declarations.push(string_of(&child));
        assert(sviews(self.s.mod_declarations@) =~= sviews(before).push(child@));
        assert(self.s.mod_declarations@.take(before.len() as int) =~= before);
        if is_pub {
            self.s.pub_mod_count += 1;
        }
    }

    /// A `match`: each arm is a branch, and an arm `Err(_) => {}` swallows an error.
    pub fn record_match(&mut self, arms: &Vec<ArmShape>)
        requires
            old(self).s.branch_count + arms.len() <= usize::MAX,
            old(self).s.empty_catch_count + arms.len() <= usize::MAX,
        ensures
            final(self).depth == old(self).depth,
            final(self).type_depth == old(self).type_depth,
            final(self).s == (FileStructure {
                branch_count: (old(self).s.branch_count + arms.len()) as usize,
                empty_catch_count: (old(self).s.empty_catch_count + swallowing_arms(arms@, arms.len() as int)) as usize,
                ..old(self).s
            }),
    {
        let ghost base = self.s;
        self.s.branch_count += arms.len();
        let ghost mid = self.s;
        let mut i: usize = 0;
        while i < arms.len()
            invariant
                i <= arms.len(),
                base.empty_catch_count + arms.len() <= usize::MAX,
                self.s.empty_catch_count == base.empty_catch_count + swallowing_arms(arms@, i as int),
                swallowing_arms(arms@, i as int) <= i,
                self.s == (FileStructure { empty_catch_count: self.s.empty_catch_count, ..mid }),
                self.depth == old(self).depth,
                self.type_depth == old(self).type_depth,
            decreases arms.len() - i,
        {
            if err_pat_exec(&arms[i].pat) && empty_block_exec(&arms[i].body) {
                self.s.empty_catch_count += 1;
            }
            i += 1;
        }
    }

    /// An `if`: a branch; `if let Err(_) = .. {}` with no `else` swallows an error.
    pub fn record_if(&mut self, then_empty: bool, has_else: bool, cond_let: Option<&PatShape>)
        requires
            old(self).s.branch_count < usize::MAX,
            old(self).s.empty_catch_count < usize::MAX,
        ensures
            final(self).depth == old(self).depth,
            final(self).type_depth == old(self).type_depth,
            final(self).s == (FileStructure {
                branch_count: (old(self).s.branch_count + 1) as usize,
                empty_catch_count: (old(self).s.empty_catch_count + if then_empty && !has_else && (cond_let matches Some(
                    p,
                ) && is_err_pat(*p)) {
                    1int
                } else {
                    0int
                }) as usize,
                ..old(self).s
            }),
    {
        self.s.branch_count += 1;
        if then_empty && !has_else {
            match cond_let {
                Some(p) => {
                    if err_pat_exec(p) {
                        self.s.empty_catch_count += 1;
                    }
                },
                None => {},
            }
        }
    }

    /// A `for`, `while` or `loop`: a branch.
    pub fn record_loop(&mut self)
        requires
            old(self).s.branch_count < usize::MAX,
        ensures
            final(self).depth == old(self).depth,
            final(self).type_depth == old(self).type_depth,
            final(self).s == (FileStructure { branch_count: (old(self).s.branch_count + 1) as usize, ..old(self).s }),
    {
        self.s.branch_count += 1;
    }

    /// A pattern: a string literal in it is a string comparison.
    pub fn record_pat(&mut self, p: &PatShape)
        requires
            old(self).s.string_comparison_count < usize::MAX,
        ensures
            final(self).depth == old(self).depth,
            final(self).type_depth == old(self).type_depth,
            final(self).s == (FileStructure {
                string_comparison_count: (old(self).s.string_comparison_count + if *p == (PatShape::Lit {
                    kind: LitKind::Str,
                }) {
                    1int
                } else {
                    0int
                }) as usize,
                ..old(self).s
            }),
    {
        match p {
            PatShape::Lit { kind: LitKind::Str } => {
                self.s.string_comparison_count += 1;
            },
            _ => {},
        }
    }

    /// A type: nesting ones open a type level (which the caller leaves after
    /// the children), with the maximum type depth kept up to date.
    pub fn enter_type(&mut self, t: &TypeShape) -> (nesting: bool)
        requires
            old(self).type_depth < usize::MAX,
        ensures
            nesting == is_nesting_type(*t),
            final(self).depth == old(self).depth,
            final(self).type_depth == old(self).type_depth + if nesting {
                1int
            } else {
                0int
            },
            final(self).s == (FileStructure {
                max_type_depth: if nesting {
                    max(old(self).s.max_type_depth as nat, final(self).type_depth as nat) as usize
                } else {
                    old(self).s.max_type_depth
                },
                ..old(self).s
            }),
    {
        let nesting = nesting_type_exec(t);
        if nesting {
            self.type_depth += 1;
            if self.type_depth > self.s.max_type_depth {
                self.s.max_type_depth = self.type_depth;
            }
        }
        nesting
    }

    /// Back out of a type level.
    pub fn leave_type(&mut self)
        requires
            old(self).type_depth > 0,
        ensures
            final(self).type_depth == old(self).type_depth - 1,
            final(self).depth == old(self).depth,
            final(self).s == old(self).s,
    {
        self.type_depth -= 1;
    }

    /// The file's facts once the walk is done: the comment lines and the
    /// `.ok(` calls of the raw text added, dangerous patterns halved
    /// (rounding up) in test files, and the identifiers met, each once in
    /// order of first occurrence.
    pub fn finish(self, content: &str, identifiers: &Vec<String>) -> (s: FileStructure)
        requires
            self.s.empty_catch_count + ok_calls(content@) <= usize::MAX,
        ensures
            sviews(s.all_identifiers@) == distinct(sviews(identifiers@)),
            s.comment_line_count == comment_lines(content@),
            s == (FileStructure {
                comment_line_count: comment_lines(content@) as usize,
                empty_catch_count: (self.s.empty_catch_count + ok_calls(content@)) as usize,
                dangerous_pattern_count: if is_test_path(self.s.relative_path@) {
                    ((self.s.dangerous_pattern_count + 1) / 2) as usize
                } else {
                    self.s.dangerous_pattern_count
                },
                all_identifiers: s.all_identifiers,
                ..self.s
            }),
    {
        let mut s = self.s;
        s.comment_line_count = count_comment_lines(content);
        s.empty_catch_count = s.empty_catch_count + count_ok_calls(content);
        if is_test_file(s.relative_path.as_str()) {
            s.dangerous_pattern_count = s.dangerous_pattern_count / 2 + s.dangerous_pattern_count % 2;
        }
        s.all_identifiers = distinct_exec(identifiers);
        s
    }
}

} // verus!

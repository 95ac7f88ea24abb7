//! From a file's syntax events to its `FileStructure`.
//!
//! Parsing a file yields the nodes of its syntax tree, in the order a
//! depth-first walk meets them, as a list of events: entering a node (with
//! its shape), leaving one that opened a level, and each identifier met
//! outside `use` items. Replaying the events on a `Visitor` gives the file's
//! facts. `replay` states what the events add up to; `fits` says when no
//! counter runs past `usize::MAX` on the way.
use vstd::prelude::*;
use crate::parsing::extractor::{is_test_path, module_path_of, qualified_of, FileStructure, PubUseEntry};
use crate::parsing::source_text::{comment_lines, count_ok_calls, ok_calls};
use crate::parsing::use_tree::{is_glob, item_count, leaf_names, tree_text, UseShape};
use crate::parsing::visitor::{
    block_like_exec, child_module, dangerous_in, distinct, is_block_like, is_nesting_type, max, nesting_type_exec,
    string_comparisons_in, swallowing_arms, ArmShape, BinOpKind, ExprShape, LitKind, PatShape, TypeShape, Visitor,
};
use crate::text::sviews;

verus! {

/// One step of the walk over a file's syntax tree.
#[derive(Debug)]
pub enum Event {
    /// An expression is entered.
    Expr { shape: ExprShape },
    /// The expression's children are done.
    ExprEnd { shape: ExprShape },
    /// A free function: name, visibility, attribute count and body text.
    ItemFn { name: String, is_pub: bool, attr_count: usize, body: String },
    /// A method: name, visibility and body text.
    ImplItemFn { name: String, is_pub: bool, body: String },
    /// An impl block and its attribute count.
    ItemImpl { attr_count: usize },
    /// The children of the last function, method or impl block are done.
    Leave,
    Struct { attr_count: usize },
    Enum { attr_count: usize },
    Trait { attr_count: usize },
    Use { tree: UseShape, is_pub: bool },
    Mod { ident: String, is_pub: bool },
    Match { arms: Vec<ArmShape> },
    /// An `if`: whether its block is empty, whether it has an `else`, and
    /// the pattern of an `if let`.
    If { then_empty: bool, has_else: bool, cond_let: Option<PatShape> },
    /// A `for`, `while` or `loop`.
    Loop,
    Pat { shape: PatShape },
    /// A type is entered.
    Type { shape: TypeShape },
    /// The type's children are done.
    TypeEnd { shape: TypeShape },
    /// An identifier outside `use` items.
    Ident { name: String },
}

/// What the events so far add up to.
pub struct Tally {
    pub functions: nat,
    pub public_functions: nat,
    pub impls: nat,
    pub structs: nat,
    pub enums: nat,
    pub traits: nat,
    pub branches: nat,
    pub max_depth: nat,
    pub max_type_depth: nat,
    pub decorators: nat,
    pub empty_catches: nat,
    pub dangerous: nat,
    pub string_comparisons: nat,
    pub pub_mods: nat,
    pub use_paths: Seq<Seq<char>>,
    pub pub_uses: Seq<(Seq<char>, nat, bool)>,
    pub mods: Seq<Seq<char>>,
    pub leaf_names: Seq<Seq<char>>,
    pub fn_names: Seq<(Seq<char>, bool)>,
    pub fn_bodies: Seq<(Seq<char>, Seq<char>)>,
    pub identifiers: Seq<Seq<char>>,
    pub depth: nat,
    pub type_depth: nat,
}

/// Nothing counted yet.
pub open spec fn start() -> Tally {
    Tally {
        functions: 0,
        public_functions: 0,
        impls: 0,
        structs: 0,
        enums: 0,
        traits: 0,
        branches: 0,
        max_depth: 0,
        max_type_depth: 0,
        decorators: 0,
        empty_catches: 0,
        dangerous: 0,
        string_comparisons: 0,
        pub_mods: 0,
        use_paths: seq![],
        pub_uses: seq![],
        mods: seq![],
        leaf_names: seq![],
        fn_names: seq![],
        fn_bodies: seq![],
        identifiers: seq![],
        depth: 0,
        type_depth: 0,
    }
}

pub open spec fn one_if(b: bool) -> nat {
    if b {
        1
    } else {
        0
    }
}

/// An `if let Err(_) = .. {}` without `else`: a swallowed error.
pub open spec fn swallowing_if(then_empty: bool, has_else: bool, cond_let: Option<PatShape>) -> bool {
    then_empty && !has_else && (cond_let matches Some(p) && crate::parsing::visitor::is_err_pat(p))
}

/// What one event adds, in a file with module path `mp` (a test file when `test`).
pub open spec fn step(t: Tally, e: Event, mp: Seq<char>, test: bool) -> Tally {
    match e {
        Event::Expr { shape } => {
            let d = if is_block_like(shape) {
                t.depth + 1
            } else {
                t.depth
            };
            Tally {
                dangerous: t.dangerous + dangerous_in(shape, test),
                string_comparisons: t.string_comparisons + string_comparisons_in(shape),
                depth: d,
                max_depth: if is_block_like(shape) {
                    max(t.max_depth, d)
                } else {
                    t.max_depth
                },
                ..t
            }
        },
        Event::ExprEnd { shape } => Tally {
            depth: if is_block_like(shape) {
                (t.depth - 1) as nat
            } else {
                t.depth
            },
            ..t
        },
        Event::ItemFn { name, is_pub, attr_count, body } => Tally {
            functions: t.functions + 1,
            public_functions: t.public_functions + one_if(is_pub),
            decorators: t.decorators + attr_count as nat,
            fn_names: t.fn_names.push((name@, is_pub)),
            fn_bodies: t.fn_bodies.push((name@, body@)),
            depth: t.depth + 1,
            max_depth: max(t.max_depth, t.depth + 1),
            ..t
        },
        Event::ImplItemFn { name, is_pub, body } => Tally {
            functions: t.functions + 1,
            public_functions: t.public_functions + one_if(is_pub),
            fn_names: t.fn_names.push((name@, is_pub)),
            fn_bodies: t.fn_bodies.push((name@, body@)),
            depth: t.depth + 1,
            max_depth: max(t.max_depth, t.depth + 1),
            ..t
        },
        Event::ItemImpl { attr_count } => Tally {
            impls: t.impls + 1,
            decorators: t.decorators + attr_count as nat,
            depth: t.depth + 1,
            max_depth: max(t.max_depth, t.depth + 1),
            ..t
        },
        Event::Leave => Tally { depth: (t.depth - 1) as nat, ..t },
        Event::Struct { attr_count } => Tally { structs: t.structs + 1, decorators: t.decorators + attr_count as nat, ..t },
        Event::Enum { attr_count } => Tally { enums: t.enums + 1, decorators: t.decorators + attr_count as nat, ..t },
        Event::Trait { attr_count } => Tally { traits: t.traits + 1, decorators: t.decorators + attr_count as nat, ..t },
        Event::Use { tree, is_pub } => if is_pub {
            Tally { pub_uses: t.pub_uses.push((tree_text(tree), item_count(tree), is_glob(tree))), ..t }
        } else {
            Tally {
                use_paths: t.use_paths.push(tree_text(tree)),
                leaf_names: t.leaf_names + leaf_names(tree),
                ..t
            }
        },
        Event::Mod { ident, is_pub } => Tally {
            mods: t.mods.push(child_module(mp, ident@)),
            pub_mods: t.pub_mods + one_if(is_pub),
            ..t
        },
        Event::Match { arms } => Tally {
            branches: t.branches + arms@.len(),
            empty_catches: t.empty_catches + swallowing_arms(arms@, arms@.len() as int),
            ..t
        },
        Event::If { then_empty, has_else, cond_let } => Tally {
            branches: t.branches + 1,
            empty_catches: t.empty_catches + one_if(swallowing_if(then_empty, has_else, cond_let)),
            ..t
        },
        Event::Loop => Tally { branches: t.branches + 1, ..t },
        Event::Pat { shape } => Tally {
            string_comparisons: t.string_comparisons + one_if(shape == (PatShape::Lit { kind: LitKind::Str })),
            ..t
        },
        Event::Type { shape } => {
            let d = if is_nesting_type(shape) {
                t.type_depth + 1
            } else {
                t.type_depth
            };
            Tally {
                type_depth: d,
                max_type_depth: if is_nesting_type(shape) {
                    max(t.max_type_depth, d)
                } else {
                    t.max_type_depth
                },
                ..t
            }
        },
        Event::TypeEnd { shape } => Tally {
            type_depth: if is_nesting_type(shape) {
                (t.type_depth - 1) as nat
            } else {
                t.type_depth
            },
            ..t
        },
        Event::Ident { name } => Tally { identifiers: t.identifiers.push(name@), ..t },
    }
}

/// An event can be taken in state `t`: no counter it moves is at its limit,
/// and a level is left only when one is open.
pub open spec fn step_ok(t: Tally, e: Event) -> bool {
    match e {
        Event::Expr { .. } => t.dangerous < usize::MAX && t.string_comparisons < usize::MAX && t.depth < usize::MAX,
        Event::ExprEnd { shape } => is_block_like(shape) ==> t.depth > 0,
        Event::ItemFn { attr_count, .. } => t.functions < usize::MAX && t.public_functions < usize::MAX
            && t.decorators + attr_count <= usize::MAX && t.depth < usize::MAX,
        Event::ImplItemFn { .. } => t.functions < usize::MAX && t.public_functions < usize::MAX && t.depth
            < usize::MAX,
        Event::ItemImpl { attr_count } => t.impls < usize::MAX && t.decorators + attr_count <= usize::MAX && t.depth
            < usize::MAX,
        Event::Leave => t.depth > 0,
        Event::Struct { attr_count } => t.structs < usize::MAX && t.decorators + attr_count <= usize::MAX,
        Event::Enum { attr_count } => t.enums < usize::MAX && t.decorators + attr_count <= usize::MAX,
        Event::Trait { attr_count } => t.traits < usize::MAX && t.decorators + attr_count <= usize::MAX,
        Event::Use { tree, .. } => item_count(tree) <= usize::MAX,
        Event::Mod { .. } => t.pub_mods < usize::MAX,
        Event::Match { arms } => t.branches + arms@.len() <= usize::MAX && t.empty_catches + arms@.len()
            <= usize::MAX,
        Event::If { .. } => t.branches < usize::MAX && t.empty_catches < usize::MAX,
        Event::Loop => t.branches < usize::MAX,
        Event::Pat { .. } => t.string_comparisons < usize::MAX,
        Event::Type { .. } => t.type_depth < usize::MAX,
        Event::TypeEnd { shape } => is_nesting_type(shape) ==> t.type_depth > 0,
        Event::Ident { .. } => true,
    }
}

/// The tally after the first `k` events.
pub open spec fn replay(events: Seq<Event>, k: int, mp: Seq<char>, test: bool) -> Tally
    decreases k,
{
    if k <= 0 || k > events.len() {
        start()
    } else {
        step(replay(events, k - 1, mp, test), events[k - 1], mp, test)
    }
}

/// The module path of the file at `rel` in package `pkg`.
pub open spec fn file_mod_path(rel: Seq<char>, pkg: Seq<char>) -> Seq<char> {
    qualified_of(pkg, module_path_of(rel))
}

/// Every event can be taken in turn, and the `.ok(` calls of the text still
/// fit beside the swallowed errors.
pub open spec fn fits(rel: Seq<char>, pkg: Seq<char>, content: Seq<char>, events: Seq<Event>) -> bool {
    let mp = file_mod_path(rel, pkg);
    let test = is_test_path(rel);
    &&& forall|k: int| 0 <= k < events.len() ==> #[trigger] step_ok(replay(events, k, mp, test), events[k])
    &&& replay(events, events.len() as int, mp, test).empty_catches + ok_calls(content) <= usize::MAX
}

pub open spec fn entry_views(v: Seq<PubUseEntry>) -> Seq<(Seq<char>, nat, bool)> {
    v.map_values(|e: PubUseEntry| (e.path@, e.item_count as nat, e.is_wildcard))
}

pub open spec fn name_views(v: Seq<(String, bool)>) -> Seq<(Seq<char>, bool)> {
    v.map_values(|p: (String, bool)| (p.0@, p.1))
}

pub open spec fn body_views(v: Seq<(String, String)>) -> Seq<(Seq<char>, Seq<char>)> {
    v.map_values(|p: (String, String)| (p.0@, p.1@))
}

/// `s` is the structure of the file at `path` (`rel` below its package
/// root, in package `pkg`) with text `content` and syntax events `events`:
/// the tally of the events, the comment lines and `.ok(` calls of the text,
/// dangerous patterns halved (rounding up) in test files, and each
/// identifier once, in order of first occurrence.
pub open spec fn is_structure_of(
    s: FileStructure,
    path: Seq<char>,
    rel: Seq<char>,
    pkg: Seq<char>,
    content: Seq<char>,
    events: Seq<Event>,
) -> bool {
    let mp = file_mod_path(rel, pkg);
    let test = is_test_path(rel);
    let t = replay(events, events.len() as int, mp, test);
    &&& s.path@ == path
    &&& s.relative_path@ == rel
    &&& s.package_name@ == pkg
    &&& s.mod_path@ == mp
    &&& s.function_count == t.functions
    &&& s.public_function_count == t.public_functions
    &&& s.impl_block_count == t.impls
    &&& s.struct_count == t.structs
    &&& s.enum_count == t.enums
    &&& s.trait_count == t.traits
    &&& s.branch_count == t.branches
    &&& s.max_nesting_depth == t.max_depth
    &&& s.max_type_depth == t.max_type_depth
    &&& s.comment_line_count == comment_lines(content)
    &&& s.decorator_count == t.decorators
    &&& s.empty_catch_count == t.empty_catches + ok_calls(content)
    &&& s.dangerous_pattern_count == if test {
        (t.dangerous + 1) / 2
    } else {
        t.dangerous
    }
    &&& s.string_comparison_count == t.string_comparisons
    &&& s.pub_mod_count == t.pub_mods
    &&& sviews(s.use_paths@) == t.use_paths
    &&& entry_views(s.pub_use_paths@) == t.pub_uses
    &&& sviews(s.mod_declarations@) == t.mods
    &&& sviews(s.use_leaf_names@) == t.leaf_names
    &&& name_views(s.function_names@) == t.fn_names
    &&& body_views(s.function_bodies@) == t.fn_bodies
    &&& sviews(s.all_identifiers@) == distinct(t.identifiers)
}

/// Every function or method counted is listed once, with its body, and the
/// public ones are among them.
pub proof fn law_functions_listed_once(events: Seq<Event>, k: int, mp: Seq<char>, test: bool)
    ensures
        replay(events, k, mp, test).functions == replay(events, k, mp, test).fn_names.len(),
        replay(events, k, mp, test).functions == replay(events, k, mp, test).fn_bodies.len(),
        replay(events, k, mp, test).public_functions <= replay(events, k, mp, test).functions,
    decreases k,
{
    if k > 0 && k <= events.len() {
        law_functions_listed_once(events, k - 1, mp, test);
    }
}

// ---------------------------------------------------------------------------
// What the counts are, event by event
// ---------------------------------------------------------------------------

/// Branches among the first `k` events: one per `if`, one per `for`,
/// `while` or `loop`, and one per arm of each `match`.
pub open spec fn branches_in(events: Seq<Event>, k: int) -> nat
    decreases k,
{
    if k <= 0 || k > events.len() {
        0
    } else {
        branches_in(events, k - 1) + match events[k - 1] {
            Event::If { .. } => 1nat,
            Event::Loop => 1nat,
            Event::Match { arms } => arms@.len(),
            _ => 0nat,
        }
    }
}

/// Attributes among the first `k` events: those of free functions, impl
/// blocks, structs, enums and traits.
pub open spec fn attributes_in(events: Seq<Event>, k: int) -> nat
    decreases k,
{
    if k <= 0 || k > events.len() {
        0
    } else {
        attributes_in(events, k - 1) + match events[k - 1] {
            Event::ItemFn { attr_count, .. } => attr_count as nat,
            Event::ItemImpl { attr_count } => attr_count as nat,
            Event::Struct { attr_count } => attr_count as nat,
            Event::Enum { attr_count } => attr_count as nat,
            Event::Trait { attr_count } => attr_count as nat,
            _ => 0nat,
        }
    }
}

/// A string literal.
pub open spec fn is_str(l: Option<LitKind>) -> bool {
    l matches Some(LitKind::Str)
}

/// String comparisons among the first `k` events: each pattern that is a
/// string literal, and each `==` or `!=` with a string literal operand.
pub open spec fn string_tests_in(events: Seq<Event>, k: int) -> nat
    decreases k,
{
    if k <= 0 || k > events.len() {
        0
    } else {
        string_tests_in(events, k - 1) + match events[k - 1] {
            Event::Pat { shape: PatShape::Lit { kind: LitKind::Str } } => 1nat,
            Event::Expr { shape: ExprShape::Binary { op, left_lit, right_lit } } => if (op == BinOpKind::Eq || op
                == BinOpKind::Ne) && (is_str(left_lit) || is_str(right_lit)) {
                1nat
            } else {
                0nat
            },
            _ => 0nat,
        }
    }
}

/// Expressions that open a nesting level: `if`, `match`, `for`, `while`,
/// `loop`, blocks, closures and `unsafe` blocks.
pub open spec fn nests(e: ExprShape) -> bool {
    ||| e is If
    ||| e is Match
    ||| e is ForLoop
    ||| e is While
    ||| e is Loop
    ||| e is Block
    ||| e is Closure
    ||| e is Unsafe
}

/// How many levels an event opens (+1) or closes (-1): functions, methods
/// and impl blocks open one until their `Leave`, nesting expressions one
/// until their end.
pub open spec fn level_change(e: Event) -> int {
    match e {
        Event::ItemFn { .. } | Event::ImplItemFn { .. } | Event::ItemImpl { .. } => 1,
        Event::Leave => -1,
        Event::Expr { shape } => if nests(shape) {
            1
        } else {
            0
        },
        Event::ExprEnd { shape } => if nests(shape) {
            -1
        } else {
            0
        },
        _ => 0,
    }
}

/// The nesting level after the first `k` events.
pub open spec fn level_at(events: Seq<Event>, k: int) -> int
    decreases k,
{
    if k <= 0 || k > events.len() {
        0
    } else {
        level_at(events, k - 1) + level_change(events[k - 1])
    }
}

/// Types that open a type level: generic paths, tuples, arrays, references,
/// slices and pointers.
pub open spec fn type_nests(t: TypeShape) -> bool {
    match t {
        TypeShape::Path { generic_segments } => generic_segments@.contains(true),
        TypeShape::Tuple | TypeShape::Array | TypeShape::Reference | TypeShape::Slice | TypeShape::Ptr => true,
        TypeShape::Other => false,
    }
}

/// How many type levels an event opens or closes.
pub open spec fn type_level_change(e: Event) -> int {
    match e {
        Event::Type { shape } => if type_nests(shape) {
            1
        } else {
            0
        },
        Event::TypeEnd { shape } => if type_nests(shape) {
            -1
        } else {
            0
        },
        _ => 0,
    }
}

/// The type nesting level after the first `k` events.
pub open spec fn type_level_at(events: Seq<Event>, k: int) -> int
    decreases k,
{
    if k <= 0 || k > events.len() {
        0
    } else {
        type_level_at(events, k - 1) + type_level_change(events[k - 1])
    }
}

/// Each of the first `k` events could be taken in turn.
pub open spec fn prefix_ok(events: Seq<Event>, k: int, mp: Seq<char>, test: bool) -> bool {
    forall|j: int| 0 <= j < k ==> #[trigger] step_ok(replay(events, j, mp, test), events[j])
}

proof fn lemma_nests(e: ExprShape)
    ensures
        nests(e) == is_block_like(e),
{
}

proof fn lemma_type_nests(t: TypeShape)
    ensures
        type_nests(t) == is_nesting_type(t),
{
    match t {
        TypeShape::Path { generic_segments } => {
            if is_nesting_type(t) {
                let i = choose|i: int| 0 <= i < generic_segments@.len() && #[trigger] generic_segments@[i];
                assert(generic_segments@[i] == true);
            }
        },
        _ => {},
    }
}

/// The branch count is one per `if`, one per loop and one per `match` arm,
/// whatever else the file holds.
pub proof fn law_branches_counted(events: Seq<Event>, k: int, mp: Seq<char>, test: bool)
    requires
        0 <= k <= events.len(),
    ensures
        replay(events, k, mp, test).branches == branches_in(events, k),
    decreases k,
{
    if k > 0 {
        law_branches_counted(events, k - 1, mp, test);
    }
}

/// The decorator count is the number of attributes on free functions, impl
/// blocks, structs, enums and traits.
pub proof fn law_attributes_counted(events: Seq<Event>, k: int, mp: Seq<char>, test: bool)
    requires
        0 <= k <= events.len(),
    ensures
        replay(events, k, mp, test).decorators == attributes_in(events, k),
    decreases k,
{
    if k > 0 {
        law_attributes_counted(events, k - 1, mp, test);
    }
}

/// The string comparison count is the number of string literal patterns and
/// of `==`/`!=` tests with a string literal operand.
pub proof fn law_string_tests_counted(events: Seq<Event>, k: int, mp: Seq<char>, test: bool)
    requires
        0 <= k <= events.len(),
    ensures
        replay(events, k, mp, test).string_comparisons == string_tests_in(events, k),
    decreases k,
{
    if k > 0 {
        law_string_tests_counted(events, k - 1, mp, test);
    }
}

/// While every event can be taken, the depth is the nesting level (levels
/// opened less levels closed), and the maximum depth is the highest level
/// reached: no prefix goes above it, and some prefix reaches it.
pub proof fn law_nesting_depth(events: Seq<Event>, k: int, mp: Seq<char>, test: bool)
    requires
        0 <= k <= events.len(),
        prefix_ok(events, k, mp, test),
    ensures
        replay(events, k, mp, test).depth == level_at(events, k),
        forall|j: int| 0 <= j <= k ==> #[trigger] level_at(events, j) <= replay(events, k, mp, test).max_depth,
        replay(events, k, mp, test).max_depth == 0 || exists|j: int|
            0 <= j <= k && #[trigger] level_at(events, j) == replay(events, k, mp, test).max_depth,
    decreases k,
{
    if k > 0 {
        assert(prefix_ok(events, k - 1, mp, test));
        law_nesting_depth(events, k - 1, mp, test);
        let t = replay(events, k - 1, mp, test);
        assert(step_ok(t, events[k - 1]));
        match events[k - 1] {
            Event::Expr { shape } => lemma_nests(shape),
            Event::ExprEnd { shape } => lemma_nests(shape),
            _ => {},
        }
        let m = replay(events, k, mp, test).max_depth;
        assert forall|j: int| 0 <= j <= k implies #[trigger] level_at(events, j) <= m by {
            if j < k {
                assert(level_at(events, j) <= t.max_depth);
            }
        }
        if m != t.max_depth {
            assert(level_at(events, k) == m);
        } else if m != 0 {
            let j = choose|j: int| 0 <= j <= k - 1 && #[trigger] level_at(events, j) == t.max_depth;
            assert(level_at(events, j) == m);
        }
    }
}

/// While every event can be taken, the type depth is the type nesting
/// level, and the maximum type depth is the highest type level reached.
pub proof fn law_type_depth(events: Seq<Event>, k: int, mp: Seq<char>, test: bool)
    requires
        0 <= k <= events.len(),
        prefix_ok(events, k, mp, test),
    ensures
        replay(events, k, mp, test).type_depth == type_level_at(events, k),
        forall|j: int|
            0 <= j <= k ==> #[trigger] type_level_at(events, j) <= replay(events, k, mp, test).max_type_depth,
        replay(events, k, mp, test).max_type_depth == 0 || exists|j: int|
            0 <= j <= k && #[trigger] type_level_at(events, j) == replay(events, k, mp, test).max_type_depth,
    decreases k,
{
    if k > 0 {
        assert(prefix_ok(events, k - 1, mp, test));
        law_type_depth(events, k - 1, mp, test);
        let t = replay(events, k - 1, mp, test);
        assert(step_ok(t, events[k - 1]));
        match events[k - 1] {
            Event::Type { shape } => lemma_type_nests(shape),
            Event::TypeEnd { shape } => lemma_type_nests(shape),
            _ => {},
        }
        let m = replay(events, k, mp, test).max_type_depth;
        assert forall|j: int| 0 <= j <= k implies #[trigger] type_level_at(events, j) <= m by {
            if j < k {
                assert(type_level_at(events, j) <= t.max_type_depth);
            }
        }
        if m != t.max_type_depth {
            assert(type_level_at(events, k) == m);
        } else if m != 0 {
            let j = choose|j: int| 0 <= j <= k - 1 && #[trigger] type_level_at(events, j) == t.max_type_depth;
            assert(type_level_at(events, j) == m);
        }
    }
}

/// What a file's structure counts, in terms of its syntax events: branches,
/// attributes and string comparisons as counted above, and the deepest
/// nesting and type nesting that any point of the walk reaches.
pub proof fn law_structure_counts(
    s: FileStructure,
    path: Seq<char>,
    rel: Seq<char>,
    pkg: Seq<char>,
    content: Seq<char>,
    events: Seq<Event>,
)
    requires
        fits(rel, pkg, content, events),
        is_structure_of(s, path, rel, pkg, content, events),
    ensures
        s.branch_count == branches_in(events, events.len() as int),
        s.decorator_count == attributes_in(events, events.len() as int),
        s.string_comparison_count == string_tests_in(events, events.len() as int),
        forall|j: int| 0 <= j <= events.len() ==> #[trigger] level_at(events, j) <= s.max_nesting_depth,
        s.max_nesting_depth == 0 || exists|j: int|
            0 <= j <= events.len() && #[trigger] level_at(events, j) == s.max_nesting_depth,
        forall|j: int| 0 <= j <= events.len() ==> #[trigger] type_level_at(events, j) <= s.max_type_depth,
        s.max_type_depth == 0 || exists|j: int|
            0 <= j <= events.len() && #[trigger] type_level_at(events, j) == s.max_type_depth,
{
    let mp = file_mod_path(rel, pkg);
    let test = is_test_path(rel);
    let n = events.len() as int;
    assert(prefix_ok(events, n, mp, test));
    law_branches_counted(events, n, mp, test);
    law_attributes_counted(events, n, mp, test);
    law_string_tests_counted(events, n, mp, test);
    law_nesting_depth(events, n, mp, test);
    law_type_depth(events, n, mp, test);
}

/// The visitor's state is the tally `t`.
pub open spec fn agrees(v: Visitor, t: Tally) -> bool {
    &&& v.s.function_count == t.functions
    &&& v.s.public_function_count == t.public_functions
    &&& v.s.impl_block_count == t.impls
    &&& v.s.struct_count == t.structs
    &&& v.s.enum_count == t.enums
    &&& v.s.trait_count == t.traits
    &&& v.s.branch_count == t.branches
    &&& v.s.max_nesting_depth == t.max_depth
    &&& v.s.max_type_depth == t.max_type_depth
    &&& v.s.decorator_count == t.decorators
    &&& v.s.empty_catch_count == t.empty_catches
    &&& v.s.dangerous_pattern_count == t.dangerous
    &&& v.s.string_comparison_count == t.string_comparisons
    &&& v.s.pub_mod_count == t.pub_mods
    &&& sviews(v.s.use_paths@) == t.use_paths
    &&& entry_views(v.s.pub_use_paths@) == t.pub_uses
    &&& sviews(v.s.mod_declarations@) == t.mods
    &&& sviews(v.s.use_leaf_names@) == t.leaf_names
    &&& name_views(v.s.function_names@) == t.fn_names
    &&& body_views(v.s.function_bodies@) == t.fn_bodies
    &&& v.depth == t.depth
    &&& v.type_depth == t.type_depth
}

proof fn lemma_swallowing_le(arms: Seq<ArmShape>, k: int)
    ensures
        swallowing_arms(arms, k) <= if k < 0 {
            0
        } else {
            k
        },
    decreases k,
{
    if k > 0 {
        lemma_swallowing_le(arms, k - 1);
    }
}

proof fn lemma_entries_push(old_v: Seq<PubUseEntry>, new_v: Seq<PubUseEntry>)
    requires
        new_v.len() == old_v.len() + 1,
        new_v.take(old_v.len() as int) == old_v,
    ensures
        entry_views(new_v) == entry_views(old_v).push(
            (new_v.last().path@, new_v.last().item_count as nat, new_v.last().is_wildcard),
        ),
{
    assert forall|j: int| 0 <= j < old_v.len() implies new_v[j] == old_v[j] by {
        assert(new_v.take(old_v.len() as int)[j] == new_v[j]);
    }
    assert(entry_views(new_v) =~= entry_views(old_v).push(
        (new_v.last().path@, new_v.last().item_count as nat, new_v.last().is_wildcard),
    ));
}

/// Takes one event: none of it when it cannot be taken in state `t`.
#[verifier::spinoff_prover]
#[verifier::rlimit(50)]
fn take_event(
    v: &mut Visitor,
    idents: &mut Vec<String>,
    e: &Event,
    Ghost(t): Ghost<Tally>,
    Ghost(mp): Ghost<Seq<char>>,
    Ghost(test): Ghost<bool>,
) -> (ok: bool)
    requires
        agrees(*old(v), t),
        sviews(old(idents)@) == t.identifiers,
        old(v).s.mod_path@ == mp,
        is_test_path(old(v).s.relative_path@) == test,
    ensures
        ok == step_ok(t, *e),
        ok ==> agrees(*final(v), step(t, *e, mp, test)),
        ok ==> sviews(final(idents)@) == step(t, *e, mp, test).identifiers,
        final(v).s.path == old(v).s.path,
        final(v).s.relative_path == old(v).s.relative_path,
        final(v).s.package_name == old(v).s.package_name,
        final(v).s.mod_path == old(v).s.mod_path,
{
    match e {
        Event::Expr { shape } => {
            if v.s.dangerous_pattern_count == usize::MAX || v.s.string_comparison_count == usize::MAX || v.depth
                == usize::MAX {
                assert(!step_ok(t, *e));
                return false;
            }
            v.enter_expr(shape);
        },
        Event::ExprEnd { shape } => {
            if block_like_exec(shape) {
                if v.depth == 0 {
                    assert(!step_ok(t, *e));
                    return false;
                }
                v.leave();
            }
        },
        Event::ItemFn { name, is_pub, attr_count, body } => {
            if v.s.function_count == usize::MAX || v.s.public_function_count == usize::MAX || v.depth
                == usize::MAX || *attr_count > usize::MAX - v.s.decorator_count {
                assert(!step_ok(t, *e));
                return false;
            }
            let ghost before = v.s;
            v.enter_item_fn(name.clone(), *is_pub, *attr_count, body.clone());
            assert(name_views(v.s.function_names@) =~= name_views(before.function_names@).push((name@, *is_pub)));
            assert(body_views(v.s.function_bodies@) =~= body_views(before.function_bodies@).push((name@, body@)));
        },
        Event::ImplItemFn { name, is_pub, body } => {
            if v.s.function_count == usize::MAX || v.s.public_function_count == usize::MAX || v.depth
                == usize::MAX {
                assert(!step_ok(t, *e));
                return false;
            }
            let ghost before = v.s;
            v.enter_impl_item_fn(name.clone(), *is_pub, body.clone());
            assert(name_views(v.s.function_names@) =~= name_views(before.function_names@).push((name@, *is_pub)));
            assert(body_views(v.s.function_bodies@) =~= body_views(before.function_bodies@).push((name@, body@)));
        },
        Event::ItemImpl { attr_count } => {
            if v.s.impl_block_count == usize::MAX || v.depth == usize::MAX || *attr_count > usize::MAX
                - v.s.decorator_count {
                assert(!step_ok(t, *e));
                return false;
            }
            v.enter_item_impl(*attr_count);
        },
        Event::Leave => {
            if v.depth == 0 {
                assert(!step_ok(t, *e));
                return false;
            }
            v.leave();
        },
        Event::Struct { attr_count } => {
            if v.s.struct_count == usize::MAX || *attr_count > usize::MAX - v.s.decorator_count {
                assert(!step_ok(t, *e));
                return false;
            }
            v.record_struct(*attr_count);
        },
        Event::Enum { attr_count } => {
            if v.s.enum_count == usize::MAX || *attr_count > usize::MAX - v.s.decorator_count {
                assert(!step_ok(t, *e));
                return false;
            }
            v.record_enum(*attr_count);
        },
        Event::Trait { attr_count } => {
            if v.s.trait_count == usize::MAX || *attr_count > usize::MAX - v.s.decorator_count {
                assert(!step_ok(t, *e));
                return false;
            }
            v.record_trait(*attr_count);
        },
        Event::Use { tree, is_pub } => {
            match crate::parsing::use_tree::count_use_items_checked(tree) {
                None => {
                    assert(!step_ok(t, *e));
                    return false;
                },
                Some(_) => {},
            }
            let ghost before = v.s;
            v.record_use(tree, *is_pub);
            if *is_pub {
                proof {
                    lemma_entries_push(before.pub_use_paths@, v.s.pub_use_paths@);
                }
            }
        },
        Event::Mod { ident, is_pub } => {
            if v.s.pub_mod_count == usize::MAX {
                assert(!step_ok(t, *e));
                return false;
            }
            v.record_mod(ident.as_str(), *is_pub);
        },
        Event::Match { arms } => {
            if arms.len() > usize::MAX - v.s.branch_count || arms.len() > usize::MAX - v.s.empty_catch_count {
                assert(!step_ok(t, *e));
                return false;
            }
            let ghost before = v.s.empty_catch_count;
            proof {
                lemma_swallowing_le(arms@, arms@.len() as int);
            }
            v.record_match(arms);
            assert(v.s.empty_catch_count == before + swallowing_arms(arms@, arms@.len() as int));
        },
        Event::If { then_empty, has_else, cond_let } => {
            if v.s.branch_count == usize::MAX || v.s.empty_catch_count == usize::MAX {
                assert(!step_ok(t, *e));
                return false;
            }
            let ghost before = v.s.empty_catch_count;
            match cond_let {
                Some(p) => {
                    v.record_if(*then_empty, *has_else, Some(p));
                    assert(v.s.empty_catch_count == before + one_if(swallowing_if(*then_empty, *has_else, *cond_let)));
                },
                None => {
                    v.record_if(*then_empty, *has_else, None);
                    assert(v.s.empty_catch_count == before + one_if(swallowing_if(*then_empty, *has_else, *cond_let)));
                },
            }
        },
        Event::Loop => {
            if v.s.branch_count == usize::MAX {
                assert(!step_ok(t, *e));
                return false;
            }
            v.record_loop();
        },
        Event::Pat { shape } => {
            if v.s.string_comparison_count == usize::MAX {
                assert(!step_ok(t, *e));
                return false;
            }
            v.record_pat(shape);
        },
        Event::Type { shape } => {
            if v.type_depth == usize::MAX {
                assert(!step_ok(t, *e));
                return false;
            }
            v.enter_type(shape);
        },
        Event::TypeEnd { shape } => {
            if nesting_type_exec(shape) {
                if v.type_depth == 0 {
                    assert(!step_ok(t, *e));
                    return false;
                }
                v.leave_type();
            }
        },
        Event::Ident { name } => {
            let ghost before = sviews(idents@);
            idents.push(name.clone());
            assert(sviews(idents@) =~= before.push(name@));
        },
    }
    true
}

/// Replays the events on a visitor; none as soon as one cannot be taken.
pub(crate) fn replay_events(
    path: String,
    relative_path: String,
    package_name: String,
    content: &str,
    events: &Vec<Event>,
) -> (r: Option<FileStructure>)
    ensures
        r is Some <==> fits(relative_path@, package_name@, content@, events@),
        r matches Some(s) ==> is_structure_of(s, path@, relative_path@, package_name@, content@, events@),
{
    let ghost pv = path@;
    let ghost rel = relative_path@;
    let ghost pkg = package_name@;
    let ghost mp = file_mod_path(rel, pkg);
    let ghost test = is_test_path(rel);
    let ghost ev = events@;
    let mut v = Visitor::new(path, relative_path, package_name);
    let mut idents: Vec<String> = Vec::new();
    assert(sviews(v.s.use_paths@) =~= seq![]);
    assert(entry_views(v.s.pub_use_paths@) =~= seq![]);
    assert(sviews(v.s.mod_declarations@) =~= seq![]);
    assert(sviews(v.s.use_leaf_names@) =~= seq![]);
    assert(name_views(v.s.function_names@) =~= seq![]);
    assert(body_views(v.s.function_bodies@) =~= seq![]);
    assert(sviews(idents@) =~= seq![]);
    let mut i: usize = 0;
    assert(is_test_path(v.s.relative_path@) == test);
    while i < events.len()
        invariant
            i <= events.len(),
            ev == events@,
            rel == relative_path@,
            pkg == package_name@,
            pv == path@,
            mp == file_mod_path(rel, pkg),
            test == is_test_path(rel),
            agrees(v, replay(ev, i as int, mp, test)),
            sviews(idents@) == replay(ev, i as int, mp, test).identifiers,
            v.s.path@ == pv,
            v.s.relative_path@ == rel,
            v.s.package_name@ == pkg,
            v.s.mod_path@ == mp,
            forall|k: int| 0 <= k < i ==> #[trigger] step_ok(replay(ev, k, mp, test), ev[k]),
        decreases events.len() - i,
    {
        let ghost t = replay(ev, i as int, mp, test);
        let ghost e = ev[i as int];
        assert(replay(ev, i + 1, mp, test) == step(t, e, mp, test));
        if !take_event(&mut v, &mut idents, &events[i], Ghost(t), Ghost(mp), Ghost(test)) {
            assert(!step_ok(replay(events@, i as int, mp, test), events@[i as int]));
            assert(!fits(rel, pkg, content@, events@));
            return None;
        }
        assert(step_ok(t, e));
        i += 1;
    }
    let ghost tf = replay(ev, ev.len() as int, mp, test);
    assert(agrees(v, tf));
    let oks = count_ok_calls(content);
    if oks > usize::MAX - v.s.empty_catch_count {
        assert(!fits(rel, pkg, content@, events@));
        return None;
    }
    assert(fits(rel, pkg, content@, events@));
    let s = v.finish(content, &idents);
    assert(is_structure_of(s, pv, rel, pkg, content@, events@));
    Some(s)
}

/// The structure of a file from its syntax events, for events that fit.
pub fn structure_from_events(
    path: String,
    relative_path: String,
    package_name: String,
    content: &str,
    events: &Vec<Event>,
) -> (s: FileStructure)
    requires
        fits(relative_path@, package_name@, content@, events@),
    ensures
        is_structure_of(s, path@, relative_path@, package_name@, content@, events@),
        s.branch_count == branches_in(events@, events@.len() as int),
        s.decorator_count == attributes_in(events@, events@.len() as int),
        s.string_comparison_count == string_tests_in(events@, events@.len() as int),
{
    let ghost (pv, rv, kv) = (path@, relative_path@, package_name@);
    match replay_events(path, relative_path, package_name, content, events) {
        Some(s) => {
            proof {
                law_structure_counts(s, pv, rv, kv, content@, events@);
            }
            s
        },
        None => {
            assert(false);
            FileStructure::default()
        },
    }
}

} // verus!

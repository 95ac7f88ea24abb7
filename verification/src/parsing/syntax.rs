//! Reading a file's text with `syn`: its syntax tree, walked depth first,
//! becomes the list of events that `events` replays into a `FileStructure`.
//!
//! The walk only converts: each node `syn` visits becomes the event that
//! describes it, in the order `syn::visit` meets them. What the events add
//! up to is decided and proved in `events`.
use vstd::prelude::*;
use crate::parsing::events::{
    attributes_in, branches_in, fits, is_structure_of, law_structure_counts, level_at, replay_events, string_tests_in,
    type_level_at, Event,
};
use crate::parsing::extractor::FileStructure;
use crate::parsing::use_tree::UseShape;
use crate::parsing::visitor::{ArmShape, BinOpKind, ExprShape, LitKind, PatShape, TypeShape};

verus! {

/// `syn::Expr`, an expression node.
#[verifier::external_type_specification]
#[verifier::external_body]
pub struct ExExpr(syn::Expr);

/// `syn::Pat`, a pattern node.
#[verifier::external_type_specification]
#[verifier::external_body]
pub struct ExPat(syn::Pat);

/// `syn::Type`, a type node.
#[verifier::external_type_specification]
#[verifier::external_body]
pub struct ExType(syn::Type);

/// `syn::Lit`, a literal.
#[verifier::external_type_specification]
#[verifier::external_body]
pub struct ExLit(syn::Lit);

/// `syn::BinOp`, a binary operator.
#[verifier::external_type_specification]
#[verifier::external_body]
pub struct ExBinOp(syn::BinOp);

/// `syn::Path`, a path such as `a::b::C`.
#[verifier::external_type_specification]
#[verifier::external_body]
pub struct ExPath(syn::Path);

/// `syn::Block`, a braced block.
#[verifier::external_type_specification]
#[verifier::external_body]
pub struct ExBlock(syn::Block);

/// `syn::UseTree`, the tree of a `use` item.
#[verifier::external_type_specification]
#[verifier::external_body]
pub struct ExUseTree(syn::UseTree);

/// `syn::Visibility`, an item's visibility.
#[verifier::external_type_specification]
#[verifier::external_body]
pub struct ExVisibility(syn::Visibility);

/// `syn::ItemFn`, a free function.
#[verifier::external_type_specification]
#[verifier::external_body]
pub struct ExItemFn(syn::ItemFn);

/// `syn::ImplItemFn`, a method.
#[verifier::external_type_specification]
#[verifier::external_body]
pub struct ExImplItemFn(syn::ImplItemFn);

/// `syn::ItemImpl`, an impl block.
#[verifier::external_type_specification]
#[verifier::external_body]
pub struct ExItemImpl(syn::ItemImpl);

/// `syn::ItemStruct`, a struct.
#[verifier::external_type_specification]
#[verifier::external_body]
pub struct ExItemStruct(syn::ItemStruct);

/// `syn::ItemEnum`, an enum.
#[verifier::external_type_specification]
#[verifier::external_body]
pub struct ExItemEnum(syn::ItemEnum);

/// `syn::ItemTrait`, a trait.
#[verifier::external_type_specification]
#[verifier::external_body]
pub struct ExItemTrait(syn::ItemTrait);

/// `syn::ItemUse`, a `use` item.
#[verifier::external_type_specification]
#[verifier::external_body]
pub struct ExItemUse(syn::ItemUse);

/// `syn::ItemMod`, a `mod` item.
#[verifier::external_type_specification]
#[verifier::external_body]
pub struct ExItemMod(syn::ItemMod);

/// `syn::ExprMatch`, a `match`.
#[verifier::external_type_specification]
#[verifier::external_body]
pub struct ExExprMatch(syn::ExprMatch);

/// `syn::ExprIf`, an `if`.
#[verifier::external_type_specification]
#[verifier::external_body]
pub struct ExExprIf(syn::ExprIf);

/// `syn::ExprForLoop`, a `for` loop.
#[verifier::external_type_specification]
#[verifier::external_body]
pub struct ExExprForLoop(syn::ExprForLoop);

/// `syn::ExprWhile`, a `while` loop.
#[verifier::external_type_specification]
#[verifier::external_body]
pub struct ExExprWhile(syn::ExprWhile);

/// `syn::ExprLoop`, a `loop`.
#[verifier::external_type_specification]
#[verifier::external_body]
pub struct ExExprLoop(syn::ExprLoop);

// ---------------------------------------------------------------------------
// Nodes to shapes
// ---------------------------------------------------------------------------

/// The kind of a `syn` literal.
#[verifier::external_body]
fn lit_kind_of(l: &syn::Lit) -> LitKind {
    match l {
        syn::Lit::Str(_) => LitKind::Str,
        _ => LitKind::Other,
    }
}

/// The literal kind of an operand that is a literal.
#[verifier::external_body]
fn operand_lit(e: &syn::Expr) -> Option<LitKind> {
    match e {
        syn::Expr::Lit(l) => Some(lit_kind_of(&l.lit)),
        _ => None,
    }
}

/// A `syn` binary operator, as far as the counts care.
#[verifier::external_body]
fn binop_kind(op: &syn::BinOp) -> BinOpKind {
    match op {
        syn::BinOp::Eq(_) => BinOpKind::Eq,
        syn::BinOp::Ne(_) => BinOpKind::Ne,
        _ => BinOpKind::Other,
    }
}

/// The text of a path's last segment.
#[verifier::external_body]
fn path_last(p: &syn::Path) -> Option<String> {
    p.segments.last().map(|s| s.ident.to_string())
}

/// The last segment of a callee that is a path.
#[verifier::external_body]
fn callee_last(e: &syn::Expr) -> Option<String> {
    match e {
        syn::Expr::Path(p) => path_last(&p.path),
        _ => None,
    }
}

/// The shape of a `syn` expression.
#[verifier::external_body]
fn expr_shape(e: &syn::Expr) -> ExprShape {
    match e {
        syn::Expr::Unsafe(_) => ExprShape::Unsafe,
        syn::Expr::MethodCall(m) => ExprShape::MethodCall { method: m.method.to_string() },
        syn::Expr::Call(c) => ExprShape::Call { callee_last: callee_last(&c.func) },
        syn::Expr::Binary(b) => ExprShape::Binary {
            op: binop_kind(&b.op),
            left_lit: operand_lit(&b.left),
            right_lit: operand_lit(&b.right),
        },
        syn::Expr::Block(b) => ExprShape::Block { stmt_count: b.block.stmts.len() },
        _ => control_shape(e),
    }
}

/// The shape of a `syn` control-flow expression or closure.
#[verifier::external_body]
fn control_shape(e: &syn::Expr) -> ExprShape {
    match e {
        syn::Expr::If(_) => ExprShape::If,
        syn::Expr::Match(_) => ExprShape::Match,
        syn::Expr::ForLoop(_) => ExprShape::ForLoop,
        syn::Expr::While(_) => ExprShape::While,
        syn::Expr::Loop(_) => ExprShape::Loop,
        syn::Expr::Closure(_) => ExprShape::Closure,
        _ => ExprShape::Other,
    }
}

/// The shape of a `syn` pattern.
#[verifier::external_body]
fn pat_shape(p: &syn::Pat) -> PatShape {
    match p {
        syn::Pat::Wild(_) => PatShape::Wild,
        syn::Pat::Lit(l) => PatShape::Lit { kind: lit_kind_of(&l.lit) },
        syn::Pat::TupleStruct(t) => PatShape::TupleStruct {
            path_last: path_last(&t.path),
            elems: t.elems.iter().map(pat_shape).collect(),
        },
        _ => PatShape::Other,
    }
}

/// A `syn` use tree as the library's `UseShape`.
#[verifier::external_body]
fn use_tree_of(t: &syn::UseTree) -> UseShape {
    match t {
        syn::UseTree::Path(p) => UseShape::Path { ident: p.ident.to_string(), tree: Box::new(use_tree_of(&p.tree)) },
        syn::UseTree::Name(n) => UseShape::Name { ident: n.ident.to_string() },
        syn::UseTree::Rename(r) => UseShape::Rename { ident: r.ident.to_string(), rename: r.rename.to_string() },
        syn::UseTree::Glob(_) => UseShape::Glob,
        syn::UseTree::Group(g) => UseShape::Group { items: g.items.iter().map(use_tree_of).collect() },
    }
}

/// The shape of a `syn` type; for a path, which segments carry `<...>` arguments.
#[verifier::external_body]
fn type_shape(t: &syn::Type) -> TypeShape {
    match t {
        syn::Type::Path(p) => TypeShape::Path {
            generic_segments: p.path.segments.iter().map(
                |s| matches!(&s.arguments, syn::PathArguments::AngleBracketed(a) if !a.args.is_empty()),
            ).collect(),
        },
        syn::Type::Tuple(_) => TypeShape::Tuple,
        syn::Type::Array(_) => TypeShape::Array,
        syn::Type::Reference(_) => TypeShape::Reference,
        syn::Type::Slice(_) => TypeShape::Slice,
        syn::Type::Ptr(_) => TypeShape::Ptr,
        _ => TypeShape::Other,
    }
}

/// `pub` visibility.
#[verifier::external_body]
fn is_pub(v: &syn::Visibility) -> bool {
    matches!(v, syn::Visibility::Public(_))
}

/// A block's token text, as `quote` prints it.
#[verifier::external_body]
fn body_text(b: &syn::Block) -> String {
    quote::ToTokens::to_token_stream(b).to_string()
}

// ---------------------------------------------------------------------------
// The walks
// ---------------------------------------------------------------------------

/// The events of the nodes met so far.
struct Walk {
    events: Vec<Event>,
}

impl<'ast> syn::visit::Visit<'ast> for Walk {
    #[verifier::external_body]
    fn visit_expr(&mut self, node: &'ast syn::Expr) {
        self.events.push(Event::Expr { shape: expr_shape(node) });
        syn::visit::visit_expr(self, node);
        self.events.push(Event::ExprEnd { shape: expr_shape(node) });
    }

    #[verifier::external_body]
    fn visit_item_fn(&mut self, i: &'ast syn::ItemFn) {
        let name = i.sig.ident.to_string();
        let e = Event::ItemFn { name, is_pub: is_pub(&i.vis), attr_count: i.attrs.len(), body: body_text(&i.block) };
        self.events.push(e);
        syn::visit::visit_item_fn(self, i);
        self.events.push(Event::Leave);
    }

    #[verifier::external_body]
    fn visit_impl_item_fn(&mut self, i: &'ast syn::ImplItemFn) {
        let name = i.sig.ident.to_string();
        self.events.push(Event::ImplItemFn { name, is_pub: is_pub(&i.vis), body: body_text(&i.block) });
        syn::visit::visit_impl_item_fn(self, i);
        self.events.push(Event::Leave);
    }

    #[verifier::external_body]
    fn visit_item_impl(&mut self, i: &'ast syn::ItemImpl) {
        self.events.push(Event::ItemImpl { attr_count: i.attrs.len() });
        syn::visit::visit_item_impl(self, i);
        self.events.push(Event::Leave);
    }

    #[verifier::external_body]
    fn visit_item_struct(&mut self, i: &'ast syn::ItemStruct) {
        self.events.push(Event::Struct { attr_count: i.attrs.len() });
    }

    #[verifier::external_body]
    fn visit_item_enum(&mut self, i: &'ast syn::ItemEnum) {
        self.events.push(Event::Enum { attr_count: i.attrs.len() });
    }

    #[verifier::external_body]
    fn visit_item_trait(&mut self, i: &'ast syn::ItemTrait) {
        self.events.push(Event::Trait { attr_count: i.attrs.len() });
    }

    #[verifier::external_body]
    fn visit_item_use(&mut self, i: &'ast syn::ItemUse) {
        self.events.push(Event::Use { tree: use_tree_of(&i.tree), is_pub: is_pub(&i.vis) });
    }

    #[verifier::external_body]
    fn visit_item_mod(&mut self, i: &'ast syn::ItemMod) {
        self.events.push(Event::Mod { ident: i.ident.to_string(), is_pub: is_pub(&i.vis) });
        syn::visit::visit_item_mod(self, i);
    }

    #[verifier::external_body]
    fn visit_expr_match(&mut self, m: &'ast syn::ExprMatch) {
        let arms = m.arms.iter().map(|a| ArmShape { pat: pat_shape(&a.pat), body: expr_shape(&a.body) }).collect();
        self.events.push(Event::Match { arms });
        syn::visit::visit_expr_match(self, m);
    }

    #[verifier::external_body]
    fn visit_expr_if(&mut self, x: &'ast syn::ExprIf) {
        let cond_let = match x.cond.as_ref() {
            syn::Expr::Let(l) => Some(pat_shape(&l.pat)),
            _ => None,
        };
        let (then_empty, has_else) = (x.then_branch.stmts.is_empty(), x.else_branch.is_some());
        self.events.push(Event::If { then_empty, has_else, cond_let });
        syn::visit::visit_expr_if(self, x);
    }

    #[verifier::external_body]
    fn visit_expr_for_loop(&mut self, _node: &'ast syn::ExprForLoop) {
        self.events.push(Event::Loop);
    }

    #[verifier::external_body]
    fn visit_expr_while(&mut self, _node: &'ast syn::ExprWhile) {
        self.events.push(Event::Loop);
    }

    #[verifier::external_body]
    fn visit_expr_loop(&mut self, _node: &'ast syn::ExprLoop) {
        self.events.push(Event::Loop);
    }

    #[verifier::external_body]
    fn visit_pat(&mut self, node: &'ast syn::Pat) {
        self.events.push(Event::Pat { shape: pat_shape(node) });
        syn::visit::visit_pat(self, node);
    }

    #[verifier::external_body]
    fn visit_type(&mut self, node: &'ast syn::Type) {
        self.events.push(Event::Type { shape: type_shape(node) });
        syn::visit::visit_type(self, node);
        self.events.push(Event::TypeEnd { shape: type_shape(node) });
    }
}

/// The identifiers met outside `use` items, as events.
struct IdentWalk {
    events: Vec<Event>,
}

impl<'ast> syn::visit::Visit<'ast> for IdentWalk {
    #[verifier::external_body]
    fn visit_ident(&mut self, i: &'ast proc_macro2::Ident) {
        self.events.push(Event::Ident { name: i.to_string() });
    }

    #[verifier::external_body]
    fn visit_item_use(&mut self, _node: &'ast syn::ItemUse) {
    }
}

// ---------------------------------------------------------------------------
// Parsing a file
// ---------------------------------------------------------------------------

/// The events of `content` read as a Rust file: the nodes of its syntax
/// tree in the order a depth-first walk meets them, then its identifiers
/// outside `use` items; none when it does not parse.
pub uninterp spec fn source_events(content: Seq<char>) -> Option<Seq<Event>>;

/// `syn::parse_file` of `content`, walked by `syn::visit` twice: once into
/// node events, once into identifier events. The events are named, not
/// described: they depend on the text alone. On failure, `syn`'s message.
#[verifier::external_body]
fn parse_source(content: &str) -> (r: Result<Vec<Event>, String>)
    ensures
        r matches Ok(v) ==> source_events(content@) == Some(v@),
        r is Err ==> source_events(content@) is None,
{
    let file = syn::parse_file(content).map_err(|e| e.to_string())?;
    let mut walk = Walk { events: Vec::new() };
    syn::visit::Visit::visit_file(&mut walk, &file);
    let mut idents = IdentWalk { events: walk.events };
    syn::visit::Visit::visit_file(&mut idents, &file);
    Ok(idents.events)
}

/// Why a file has no structure.
#[derive(Debug)]
pub enum SourceError {
    /// The text is not a Rust file; `syn`'s message.
    Syntax { message: String },
    /// A count of the file would run past `usize::MAX`.
    TooLarge,
}

/// The structure of the file at `path` (`relative_path` below its package
/// root, in package `package_name`) whose text is `content`.
pub fn structure_from_source(
    path: String,
    relative_path: String,
    package_name: String,
    content: &str,
) -> (r: Result<FileStructure, SourceError>)
    ensures
        (r matches Err(SourceError::Syntax { .. })) <==> source_events(content@) is None,
        (r matches Err(SourceError::TooLarge)) <==> (source_events(content@) matches Some(ev) && !fits(
            relative_path@,
            package_name@,
            content@,
            ev,
        )),
        r matches Ok(s) ==> (source_events(content@) matches Some(ev) && is_structure_of(
            s,
            path@,
            relative_path@,
            package_name@,
            content@,
            ev,
        )),
        r matches Ok(s) ==> (source_events(content@) matches Some(ev) && {
            &&& s.branch_count == branches_in(ev, ev.len() as int)
            &&& s.decorator_count == attributes_in(ev, ev.len() as int)
            &&& s.string_comparison_count == string_tests_in(ev, ev.len() as int)
            &&& forall|j: int| 0 <= j <= ev.len() ==> #[trigger] level_at(ev, j) <= s.max_nesting_depth
            &&& forall|j: int| 0 <= j <= ev.len() ==> #[trigger] type_level_at(ev, j) <= s.max_type_depth
        }),
{
    let ghost (pv, rv, kv) = (path@, relative_path@, package_name@);
    match parse_source(content) {
        Err(message) => Err(SourceError::Syntax { message }),
        Ok(events) => match replay_events(path, relative_path, package_name, content, &events) {
            Some(s) => {
                proof {
                    law_structure_counts(s, pv, rv, kv, content@, events@);
                }
                Ok(s)
            },
            None => Err(SourceError::TooLarge),
        },
    }
}

} // verus!

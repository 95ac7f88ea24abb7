//! The tree of a `use` item, and what the analyzers read from it: its text,
//! how many names it brings in, whether it is a glob, and the names it binds.
use vstd::prelude::*;
use crate::text::{chars_of, join, join_exec, push_str, push_vec, string_of, sviews, vviews};

verus! {

/// A `use` tree, as `syn::UseTree` has it.
#[derive(Debug)]
pub enum UseShape {
    /// `ident::tree`
    Path { ident: String, tree: Box<UseShape> },
    /// `ident`
    Name { ident: String },
    /// `ident as rename`
    Rename { ident: String, rename: String },
    /// `*`
    Glob,
    /// `{a, b, ...}`
    Group { items: Vec<UseShape> },
}

/// The text of a use tree: `a::b`, `a as b`, `*`, `{x, y}`.
pub open spec fn tree_text(t: UseShape) -> Seq<char>
    decreases t,
{
    match t {
        UseShape::Path { ident, tree } => ident@ + "::"@ + tree_text(*tree),
        UseShape::Name { ident } => ident@,
        UseShape::Rename { ident, rename } => ident@ + " as "@ + rename@,
        UseShape::Glob => "*"@,
        UseShape::Group { items } => "{"@ + join(texts(items@), ", "@) + "}"@,
    }
}

/// The texts of the trees of a group, in order.
pub open spec fn texts(items: Seq<UseShape>) -> Seq<Seq<char>>
    decreases items,
{
    if items.len() == 0 {
        seq![]
    } else {
        seq![tree_text(items[0])] + texts(items.drop_first())
    }
}

/// How many names the tree brings in (a glob counts as one).
pub open spec fn item_count(t: UseShape) -> nat
    decreases t,
{
    match t {
        UseShape::Path { tree, .. } => item_count(*tree),
        UseShape::Group { items } => items_count(items@),
        _ => 1,
    }
}

pub open spec fn items_count(items: Seq<UseShape>) -> nat
    decreases items,
{
    if items.len() == 0 {
        0
    } else {
        item_count(items[0]) + items_count(items.drop_first())
    }
}

/// The tree ends in a glob (groups do not count).
pub open spec fn is_glob(t: UseShape) -> bool
    decreases t,
{
    match t {
        UseShape::Path { tree, .. } => is_glob(*tree),
        UseShape::Glob => true,
        _ => false,
    }
}

/// The names the tree binds, in order: `use a::b::{C, D as E}` binds C and E;
/// globs bind none that can be known.
pub open spec fn leaf_names(t: UseShape) -> Seq<Seq<char>>
    decreases t,
{
    match t {
        UseShape::Path { tree, .. } => leaf_names(*tree),
        UseShape::Name { ident } => seq![ident@],
        UseShape::Rename { rename, .. } => seq![rename@],
        UseShape::Glob => seq![],
        UseShape::Group { items } => items_leaf_names(items@),
    }
}

pub open spec fn items_leaf_names(items: Seq<UseShape>) -> Seq<Seq<char>>
    decreases items,
{
    if items.len() == 0 {
        seq![]
    } else {
        leaf_names(items[0]) + items_leaf_names(items.drop_first())
    }
}


proof fn lemma_texts(items: Seq<UseShape>)
    ensures
        texts(items).len() == items.len(),
        forall|j: int| 0 <= j < items.len() ==> #[trigger] texts(items)[j] == tree_text(items[j]),
    decreases items.len(),
{
    if items.len() > 0 {
        lemma_texts(items.drop_first());
        assert forall|j: int| 0 <= j < items.len() implies #[trigger] texts(items)[j] == tree_text(items[j]) by {
            if j > 0 {
                assert(texts(items)[j] == texts(items.drop_first())[j - 1]);
                assert(items.drop_first()[j - 1] == items[j]);
            }
        }
    }
}

proof fn lemma_items_count_concat(a: Seq<UseShape>, b: Seq<UseShape>)
    ensures
        items_count(a + b) == items_count(a) + items_count(b),
    decreases a.len(),
{
    if a.len() > 0 {
        assert((a + b).drop_first() =~= a.drop_first() + b);
        assert((a + b)[0] == a[0]);
        lemma_items_count_concat(a.drop_first(), b);
    } else {
        assert(a + b =~= b);
    }
}

proof fn lemma_items_leaf_names_concat(a: Seq<UseShape>, b: Seq<UseShape>)
    ensures
        items_leaf_names(a + b) == items_leaf_names(a) + items_leaf_names(b),
    decreases a.len(),
{
    if a.len() > 0 {
        assert((a + b).drop_first() =~= a.drop_first() + b);
        assert((a + b)[0] == a[0]);
        lemma_items_leaf_names_concat(a.drop_first(), b);
        assert(items_leaf_names(a + b) =~= items_leaf_names(a) + items_leaf_names(b));
    } else {
        assert(a + b =~= b);
        assert(items_leaf_names(a) =~= Seq::<Seq<char>>::empty());
        assert(items_leaf_names(a + b) =~= items_leaf_names(a) + items_leaf_names(b));
    }
}

proof fn lemma_single(x: UseShape)
    ensures
        items_count(seq![x]) == item_count(x),
        items_leaf_names(seq![x]) == leaf_names(x),
{
    assert(seq![x].drop_first() =~= Seq::<UseShape>::empty());
    assert(seq![x][0] == x);
    assert(items_count(Seq::<UseShape>::empty()) == 0);
    assert(items_leaf_names(Seq::<UseShape>::empty()) == Seq::<Seq<char>>::empty());
    assert(items_leaf_names(seq![x]) =~= leaf_names(x) + Seq::<Seq<char>>::empty());
}

fn tree_chars(t: &UseShape) -> (r: Vec<char>)
    ensures
        r@ == tree_text(*t),
    decreases t,
{
    match t {
        UseShape::Path { ident, tree } => {
            let mut v = chars_of(ident.as_str());
            push_str(&mut v, "::");
            let sub = tree_chars(tree);
            push_vec(&mut v, &sub);
            v
        },
        UseShape::Name { ident } => chars_of(ident.as_str()),
        UseShape::Rename { ident, rename } => {
            let mut v = chars_of(ident.as_str());
            push_str(&mut v, " as ");
            push_vec(&mut v, &chars_of(rename.as_str()));
            v
        },
        UseShape::Glob => chars_of("*"),
        UseShape::Group { items } => {
            proof {
                lemma_texts(items@);
            }
            let mut parts: Vec<Vec<char>> = Vec::new();
            let mut i: usize = 0;
            while i < items.len()
                invariant
                    i <= items.len(),
                    *t == (UseShape::Group { items: *items }),
                    texts(items@).len() == items@.len(),
                    forall|j: int| 0 <= j < items@.len() ==> #[trigger] texts(items@)[j] == tree_text(items@[j]),
                    vviews(parts@) == texts(items@).take(i as int),
                decreases items.len() - i,
            {
                proof {
                    assert(decreases_to!(*t => (*t)->items));
                    assert((*t)->items == *items);
                    assert(decreases_to!(*items => items@));
                    assert(decreases_to!(items@ => items@[i as int]));
                }
                let p = tree_chars(&items[i]);
                assert(p@ == texts(items@)[i as int]);
                let ghost before = vviews(parts@);
                parts.push(p);
                assert(vviews(parts@) =~= before.push(p@));
                assert(vviews(parts@) =~= texts(items@).take(i + 1));
                i += 1;
            }
            assert(texts(items@).take(i as int) =~= texts(items@));
            let mut v = chars_of("{");
            let j = join_exec(&parts, &chars_of(", "));
            push_vec(&mut v, &j);
            push_str(&mut v, "}");
            v
        },
    }
}

/// The text of a use tree: `a::b`, `a as b`, `*`, `{x, y}`.
pub fn use_tree_to_string(t: &UseShape) -> (r: String)
    ensures
        r@ == tree_text(*t),
{
    string_of(&tree_chars(t))
}

/// How many names the tree brings in (a glob counts as one).
pub fn count_use_items(t: &UseShape) -> (r: usize)
    requires
        item_count(*t) <= usize::MAX,
    ensures
        r == item_count(*t),
    decreases t,
{
    match t {
        UseShape::Path { tree, .. } => count_use_items(tree),
        UseShape::Group { items } => {
            let mut total: usize = 0;
            let mut i: usize = 0;
            while i < items.len()
                invariant
                    i <= items.len(),
                    *t == (UseShape::Group { items: *items }),
                    items_count(items@) <= usize::MAX,
                    total == items_count(items@.take(i as int)),
                decreases items.len() - i,
            {
                proof {
                    lemma_items_count_concat(items@.take(i as int), seq![items@[i as int]]);
                    lemma_single(items@[i as int]);
                    assert(items@.take(i + 1) =~= items@.take(i as int) + seq![items@[i as int]]);
                    lemma_items_count_concat(items@.take(i + 1), items@.skip(i + 1));
                    assert(items@ =~= items@.take(i + 1) + items@.skip(i + 1));
                }
                proof {
                    assert(decreases_to!(*t => (*t)->items));
                    assert((*t)->items == *items);
                    assert(decreases_to!(*items => items@));
                    assert(decreases_to!(items@ => items@[i as int]));
                }
                let c = count_use_items(&items[i]);
                total = total + c;
                i += 1;
            }
            assert(items@.take(i as int) =~= items@);
            total
        },
        _ => 1,
    }
}

/// How many names the tree brings in; none when that is past `usize::MAX`.
pub fn count_use_items_checked(t: &UseShape) -> (r: Option<usize>)
    ensures
        r matches Some(n) ==> n == item_count(*t),
        r is None ==> item_count(*t) > usize::MAX,
    decreases t,
{
    match t {
        UseShape::Path { tree, .. } => count_use_items_checked(tree),
        UseShape::Group { items } => {
            let mut total: usize = 0;
            let mut i: usize = 0;
            while i < items.len()
                invariant
                    i <= items.len(),
                    *t == (UseShape::Group { items: *items }),
                    total == items_count(items@.take(i as int)),
                decreases items.len() - i,
            {
                proof {
                    lemma_items_count_concat(items@.take(i as int), seq![items@[i as int]]);
                    lemma_single(items@[i as int]);
                    assert(items@.take(i + 1) =~= items@.take(i as int) + seq![items@[i as int]]);
                    lemma_items_count_concat(items@.take(i + 1), items@.skip(i + 1));
                    assert(items@ =~= items@.take(i + 1) + items@.skip(i + 1));
                }
                proof {
                    assert(decreases_to!(*t => (*t)->items));
                    assert((*t)->items == *items);
                    assert(decreases_to!(*items => items@));
                    assert(decreases_to!(items@ => items@[i as int]));
                }
                match count_use_items_checked(&items[i]) {
                    None => {
                        return None;
                    },
                    Some(c) => {
                        if c > usize::MAX - total {
                            return None;
                        }
                        total = total + c;
                    },
                }
                i += 1;
            }
            assert(items@.take(i as int) =~= items@);
            Some(total)
        },
        _ => Some(1),
    }
}

/// The tree ends in a glob.
pub fn is_wildcard_use(t: &UseShape) -> (b: bool)
    ensures
        b == is_glob(*t),
    decreases t,
{
    match t {
        UseShape::Path { tree, .. } => is_wildcard_use(tree),
        UseShape::Glob => true,
        _ => false,
    }
}

fn push_leaf_names(out: &mut Vec<String>, t: &UseShape)
    ensures
        sviews(final(out)@) == sviews(old(out)@) + leaf_names(*t),
    decreases t,
{
    match t {
        UseShape::Path { tree, .. } => push_leaf_names(out, tree),
        UseShape::Name { ident } => {
            let ghost before = sviews(out@);
            out.push(ident.clone());
            assert(sviews(out@) =~= before + leaf_names(*t));
        },
        UseShape::Rename { rename, .. } => {
            let ghost before = sviews(out@);
            out.push(rename.clone());
            assert(sviews(out@) =~= before + leaf_names(*t));
        },
        UseShape::Glob => {
            assert(sviews(out@) =~= sviews(out@) + leaf_names(*t));
        },
        UseShape::Group { items } => {
            let ghost base = sviews(out@);
            let mut i: usize = 0;
            assert(items_leaf_names(items@.take(0)) =~= Seq::<Seq<char>>::empty());
            assert(base =~= base + items_leaf_names(items@.take(0)));
            while i < items.len()
                invariant
                    i <= items.len(),
                    *t == (UseShape::Group { items: *items }),
                    sviews(out@) == base + items_leaf_names(items@.take(i as int)),
                decreases items.len() - i,
            {
                proof {
                    lemma_items_leaf_names_concat(items@.take(i as int), seq![items@[i as int]]);
                    lemma_single(items@[i as int]);
                    assert(items@.take(i + 1) =~= items@.take(i as int) + seq![items@[i as int]]);
                }
                proof {
                    assert(decreases_to!(*t => (*t)->items));
                    assert((*t)->items == *items);
                    assert(decreases_to!(*items => items@));
                    assert(decreases_to!(items@ => items@[i as int]));
                }
                push_leaf_names(out, &items[i]);
                assert(sviews(out@) =~= base + items_leaf_names(items@.take(i + 1)));
                i += 1;
            }
            assert(items@.take(i as int) =~= items@);
        },
    }
}

/// The names the tree binds, in order.
pub fn collect_leaf_names(t: &UseShape) -> (r: Vec<String>)
    ensures
        sviews(r@) == leaf_names(*t),
{
    let mut out: Vec<String> = Vec::new();
    push_leaf_names(&mut out, t);
    assert(sviews(out@) =~= leaf_names(*t));
    out
}

} // verus!

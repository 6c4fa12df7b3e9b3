//! How a forest of components corresponds to the list of its declarations.
//!
//! Listing a forest writes down every component without its children, parents before
//! children and siblings in their order, each with the indentation of its depth: four
//! columns for every level. Parsing a document is the inverse: it builds the forest whose
//! listing is the list of the declared components.
use vstd::prelude::*;
use crate::template::component::TemplateView;
use crate::template::grammar::DeclarationView;
use crate::template::parse::{ParseError, ParseErrorKind};

verus! {

/// The component without its children.
pub open spec fn childless(t: TemplateView) -> TemplateView {
    TemplateView {
        class: t.class,
        style_class: t.style_class,
        attributes: t.attributes,
        children: Seq::empty(),
        line: t.line,
    }
}

/// The declaration of `t` at the given depth.
pub open spec fn declared(t: TemplateView, depth: nat) -> DeclarationView {
    DeclarationView { component: childless(t), columns: 4 * depth }
}

/// The listing of the component `t` at the given depth and of all below it.
pub open spec fn listing(t: TemplateView, depth: nat) -> Seq<DeclarationView>
    decreases t, 0nat,
{
    seq![declared(t, depth)] + listing_of(t.children, t.children.len(), depth + 1)
}

/// The listing of the first `n` components of `forest`, all at the given depth.
pub open spec fn listing_of(forest: Seq<TemplateView>, n: nat, depth: nat) -> Seq<DeclarationView>
    decreases forest, n,
{
    if n == 0 || n > forest.len() {
        Seq::empty()
    } else {
        listing_of(forest, (n - 1) as nat, depth) + listing(forest[n - 1], depth)
    }
}

/// The listing of a whole forest whose roots are at depth 0.
pub open spec fn forest_listing(forest: Seq<TemplateView>) -> Seq<DeclarationView> {
    listing_of(forest, forest.len(), 0)
}

/// The listing of a chain of `n` components that are still open: each is the last child so
/// far of the one before it, and the first is at depth 0.
pub open spec fn open_listing(chain: Seq<TemplateView>, n: nat) -> Seq<DeclarationView>
    decreases n,
{
    if n == 0 || n > chain.len() {
        Seq::empty()
    } else {
        open_listing(chain, (n - 1) as nat) + listing(chain[n - 1], (n - 1) as nat)
    }
}

/// The level of indentation of a declaration.
pub open spec fn level(d: DeclarationView) -> nat {
    d.columns / 4
}

/// What is wrong with the indentation of the declaration at position `i`, if anything is:
/// it is no multiple of four columns, it is the first and indented, or it is more than one
/// level deeper than the declaration before it.
pub open spec fn declaration_error(ds: Seq<DeclarationView>, i: int) -> Option<ParseError> {
    let line = ds[i].component.line as usize;
    if ds[i].columns % 4 != 0 {
        Some(ParseError { kind: ParseErrorKind::BadIndentation, line })
    } else if i == 0 && ds[i].columns != 0 {
        Some(ParseError { kind: ParseErrorKind::FirstIndentation, line })
    } else if i > 0 && level(ds[i]) > level(ds[i - 1]) + 1 {
        Some(ParseError { kind: ParseErrorKind::ExcessiveIndentation, line })
    } else {
        None
    }
}

/// The first error in the indentation of the first `n` declarations.
pub open spec fn indentation_error_in(ds: Seq<DeclarationView>, n: nat) -> Option<ParseError>
    decreases n,
{
    if n == 0 || n > ds.len() {
        None
    } else {
        match indentation_error_in(ds, (n - 1) as nat) {
            Some(e) => Some(e),
            None => declaration_error(ds, n - 1),
        }
    }
}

/// The first error in the indentation of the declarations.
pub open spec fn indentation_error(ds: Seq<DeclarationView>) -> Option<ParseError> {
    indentation_error_in(ds, ds.len())
}

/// An error in the indentation of a declaration is the first error of every longer list
/// of declarations, where there is none before it.
pub proof fn lemma_error_stays(ds: Seq<DeclarationView>, i: int, n: nat)
    requires
        0 <= i < n <= ds.len(),
        indentation_error_in(ds, i as nat) is None,
        declaration_error(ds, i) is Some,
    ensures
        indentation_error_in(ds, n) == declaration_error(ds, i),
    decreases n,
{
    if n > i + 1 {
        lemma_error_stays(ds, i, (n - 1) as nat);
    }
}

/// The listing of the first `n` components only depends on these.
pub proof fn lemma_listing_prefix(a: Seq<TemplateView>, b: Seq<TemplateView>, n: nat, depth: nat)
    requires
        n <= a.len(),
        n <= b.len(),
        forall|k: int| 0 <= k < n ==> a[k] == b[k],
    ensures
        listing_of(a, n, depth) == listing_of(b, n, depth),
    decreases n,
{
    if n > 0 {
        lemma_listing_prefix(a, b, (n - 1) as nat, depth);
    }
}

/// The listing of the first `n` open components only depends on these.
pub proof fn lemma_open_prefix(a: Seq<TemplateView>, b: Seq<TemplateView>, n: nat)
    requires
        n <= a.len(),
        n <= b.len(),
        forall|k: int| 0 <= k < n ==> a[k] == b[k],
    ensures
        open_listing(a, n) == open_listing(b, n),
    decreases n,
{
    if n > 0 {
        lemma_open_prefix(a, b, (n - 1) as nat);
    }
}

/// A component that gets one more child is listed as before, followed by the listing of
/// the child.
pub proof fn lemma_adopt(parent: TemplateView, grown: TemplateView, child: TemplateView, depth: nat)
    requires
        childless(grown) == childless(parent),
        grown.children == parent.children.push(child),
    ensures
        listing(grown, depth) == listing(parent, depth) + listing(child, depth + 1),
{
    let n = parent.children.len();
    lemma_listing_prefix(grown.children, parent.children, n, depth + 1);
    assert(listing_of(grown.children, n + 1, depth + 1) == listing_of(grown.children, n, depth + 1)
        + listing(child, depth + 1));
    assert(listing(grown, depth) =~= listing(parent, depth) + listing(child, depth + 1));
}

/// Every declaration in the listing of a component is indented at least as deep as the
/// component, whose own declaration comes first.
pub proof fn lemma_listing_depth(t: TemplateView, depth: nat)
    ensures
        listing(t, depth).len() >= 1,
        listing(t, depth)[0] == declared(t, depth),
        forall|j: int|
            0 <= j < listing(t, depth).len() ==> (#[trigger] listing(t, depth)[j]).columns >= 4
                * depth,
        forall|j: int|
            0 < j < listing(t, depth).len() ==> (#[trigger] listing(t, depth)[j]).columns >= 4
                * depth + 4,
    decreases t, 0nat,
{
    lemma_listing_of_depth(t.children, t.children.len(), depth + 1);
}

/// Every declaration in the listing of a forest is indented at least as deep as its roots.
pub proof fn lemma_listing_of_depth(forest: Seq<TemplateView>, n: nat, depth: nat)
    ensures
        forall|j: int|
            0 <= j < listing_of(forest, n, depth).len() ==> (#[trigger] listing_of(
                forest,
                n,
                depth,
            )[j]).columns >= 4 * depth,
        0 < n <= forest.len() ==> listing_of(forest, n, depth).len() >= 1,
    decreases forest, n,
{
    if n == 0 || n > forest.len() {
    } else {
        lemma_listing_of_depth(forest, (n - 1) as nat, depth);
        lemma_listing_depth(forest[n - 1], depth);
    }
}

/// Whether a declaration other than the first is not indented.
pub open spec fn has_later_root(ds: Seq<DeclarationView>) -> bool {
    exists|i: int| 0 < i < ds.len() && (#[trigger] ds[i]).columns == 0
}

/// A forest has no root exactly if nothing is declared, and more than one root exactly if
/// a declaration other than the first is not indented.
pub proof fn lemma_roots(forest: Seq<TemplateView>)
    ensures
        forest.len() == 0 <==> forest_listing(forest).len() == 0,
        forest.len() > 1 <==> has_later_root(forest_listing(forest)),
        forest.len() == 1 ==> forest_listing(forest) == listing(forest[0], 0),
{
    let ds = forest_listing(forest);
    let n = forest.len();
    lemma_listing_of_depth(forest, n, 0);
    if n == 1 {
        lemma_listing_depth(forest[0], 0);
        assert(listing_of(forest, 0, 0) =~= Seq::<DeclarationView>::empty());
        assert(ds =~= listing(forest[0], 0));
        assert(!has_later_root(ds));
    } else if n > 1 {
        lemma_listing_of_depth(forest, (n - 1) as nat, 0);
        lemma_listing_depth(forest[n - 1], 0);
        let p = listing_of(forest, (n - 1) as nat, 0).len() as int;
        assert(ds[p] == listing(forest[n - 1], 0)[0]);
        assert(has_later_root(ds));
    } else {
        assert(!has_later_root(ds));
    }
}

/// A document whose indentation is anywhere no multiple of four columns, or grows by more
/// than one level from one declaration to the next, has an error in its indentation, and
/// the error names the line of one of its declarations.
pub proof fn lemma_bad_indentation_fails(ds: Seq<DeclarationView>, i: int)
    requires
        0 <= i < ds.len(),
        ds[i].columns % 4 != 0 || (i > 0 && level(ds[i]) > level(ds[i - 1]) + 1),
    ensures
        indentation_error(ds) matches Some(e) && exists|j: int|
            0 <= j <= i && e.line == ds[j].component.line as usize,
{
    assert(declaration_error(ds, i) is Some);
    lemma_first_error(ds, (i + 1) as nat);
    let j = choose|j: int|
        0 <= j < i + 1 && indentation_error_in(ds, j as nat) is None && declaration_error(ds, j)
            is Some;
    lemma_error_stays(ds, j, ds.len());
}

/// Where the first `n` declarations have an error in their indentation, one of them is the
/// first that has one.
proof fn lemma_first_error(ds: Seq<DeclarationView>, n: nat)
    requires
        n <= ds.len(),
        exists|i: int| 0 <= i < n && declaration_error(ds, i) is Some,
    ensures
        exists|j: int|
            0 <= j < n && indentation_error_in(ds, j as nat) is None && declaration_error(ds, j)
                is Some,
    decreases n,
{
    if indentation_error_in(ds, (n - 1) as nat) is None {
        if declaration_error(ds, n - 1) is Some {
            assert(indentation_error_in(ds, (n - 1) as nat) is None && declaration_error(
                ds,
                n - 1,
            ) is Some);
        } else {
            lemma_first_error(ds, (n - 1) as nat);
        }
    } else {
        lemma_none_before(ds, (n - 1) as nat);
        lemma_first_error(ds, (n - 1) as nat);
    }
}

/// Where the first `n` declarations have an error, one of them has one.
proof fn lemma_none_before(ds: Seq<DeclarationView>, n: nat)
    requires
        n <= ds.len(),
        indentation_error_in(ds, n) is Some,
    ensures
        exists|i: int| 0 <= i < n && declaration_error(ds, i) is Some,
    decreases n,
{
    if n > 0 {
        if indentation_error_in(ds, (n - 1) as nat) is Some {
            lemma_none_before(ds, (n - 1) as nat);
        } else {
            assert(declaration_error(ds, n - 1) is Some);
        }
    }
}

} // verus!


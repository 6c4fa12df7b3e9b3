//! Writing the structure of a template down as text, and parsing that text again.
//!
//! The text of a template has one line for each component, parents before children and
//! siblings in their order: the indentation of its depth in spaces, its class, and a line
//! feed. Parsing the text of a template that was parsed gives a template of the same
//! shape: the same classes, with the same children below them.
use vstd::prelude::*;
use crate::template::component::TemplateView;
use crate::template::forest::{
    declaration_error, declared, has_later_root, indentation_error, indentation_error_in,
    lemma_listing_depth, lemma_listing_of_depth, listing, listing_of,
};
use crate::template::grammar::{
    columns, declaration_at, declarations_at, in_class, is_name_start, line_at, line_feeds,
    name_at, run, CharClass, DeclarationView,
};
use crate::template::parse::lemma_line_feeds_split;

verus! {

/// The given number of spaces.
pub open spec fn spaces(n: nat) -> Seq<char> {
    Seq::new(n, |i: int| ' ')
}

/// The line that declares a component: its indentation, its class and a line feed.
pub open spec fn line_of(d: DeclarationView) -> Seq<char> {
    spaces(d.columns) + d.component.class + seq!['\n']
}

/// The lines that declare the first `n` of the given components.
pub open spec fn lines_text(ds: Seq<DeclarationView>, n: nat) -> Seq<char>
    decreases n,
{
    if n == 0 || n > ds.len() {
        Seq::empty()
    } else {
        lines_text(ds, (n - 1) as nat) + line_of(ds[n - 1])
    }
}

/// The text of a template: the lines that declare its components, with their classes and
/// their indentation and nothing else.
pub open spec fn shape_text(template: TemplateView) -> Seq<char> {
    lines_text(listing(template, 0), listing(template, 0).len())
}

/// Whether two templates have the same shape: the same class, and children of the same
/// shapes in the same order.
pub open spec fn same_shape(a: TemplateView, b: TemplateView) -> bool
    decreases a,
{
    &&& a.class == b.class
    &&& a.children.len() == b.children.len()
    &&& forall|k: int| 0 <= k < a.children.len() ==> same_shape(a.children[k], b.children[k])
}

/// Whether `text` is accepted as a template, and `root` is the root of that template:
/// the grammar accepts the text, the indentation is right, exactly one component is not
/// indented, and the listing of `root` is the list of the declared components.
pub open spec fn accepts(text: Seq<char>, root: TemplateView) -> bool {
    match declarations_at(text, 0) {
        Err(_) => false,
        Ok(ds) => indentation_error(ds) is None && ds.len() != 0 && !has_later_root(ds) && listing(
            root,
            0,
        ) == ds,
    }
}

/// Whether `name` is a name of the grammar: it starts with a letter or an underscore and
/// goes on with letters, digits, underscores and hyphens.
pub open spec fn valid_name(name: Seq<char>) -> bool {
    &&& name.len() >= 1
    &&& is_name_start(name[0])
    &&& forall|j: int| 1 <= j < name.len() ==> in_class(CharClass::Name, #[trigger] name[j])
}

/// The declaration of a component with the class and indentation of `d` and nothing else,
/// on the given line.
pub open spec fn plain(d: DeclarationView, line: nat) -> DeclarationView {
    DeclarationView {
        component: TemplateView {
            class: d.component.class,
            style_class: None,
            attributes: Seq::empty(),
            children: Seq::empty(),
            line,
        },
        columns: d.columns,
    }
}

/// The declarations that the text of the given declarations declares.
pub open spec fn plain_all(ds: Seq<DeclarationView>) -> Seq<DeclarationView> {
    Seq::new(ds.len(), |i: int| plain(ds[i], (i + 1) as nat))
}

/// Whether two lists declare components of the same classes with the same indentation.
pub open spec fn agree(a: Seq<DeclarationView>, b: Seq<DeclarationView>) -> bool {
    &&& a.len() == b.len()
    &&& forall|i: int|
        0 <= i < a.len() ==> (#[trigger] a[i]).component.class == b[i].component.class
            && a[i].columns == b[i].columns
}

/// The characters that a run counts are of its class, and it ends at the first that is not.
pub proof fn lemma_run_members(s: Seq<char>, i: int, class: CharClass)
    requires
        0 <= i <= s.len(),
    ensures
        i + run(s, i, class) <= s.len(),
        forall|j: int| i <= j < i + run(s, i, class) ==> in_class(class, #[trigger] s[j]),
        i + run(s, i, class) < s.len() ==> !in_class(class, s[i + run(s, i, class)]),
    decreases s.len() - i,
{
    if i < s.len() && in_class(class, s[i]) {
        lemma_run_members(s, i + 1, class);
    }
}

/// A run over `n` characters of its class that is followed by a character that is not of
/// the class, or by the end, counts `n`.
pub proof fn lemma_run_exact(s: Seq<char>, i: int, n: nat, class: CharClass)
    requires
        0 <= i,
        i + n <= s.len(),
        forall|j: int| i <= j < i + n ==> in_class(class, #[trigger] s[j]),
        i + n < s.len() ==> !in_class(class, s[i + n]),
    ensures
        run(s, i, class) == n,
    decreases n,
{
    if n > 0 {
        lemma_run_exact(s, i + 1, (n - 1) as nat, class);
    }
}

/// Spaces span one column each.
pub proof fn lemma_columns_of_spaces(s: Seq<char>, from: int, to: int)
    requires
        0 <= from <= to <= s.len(),
        forall|j: int| from <= j < to ==> #[trigger] s[j] == ' ',
    ensures
        columns(s, from, to) == to - from,
    decreases to - from,
{
    if from < to {
        lemma_columns_of_spaces(s, from, to - 1);
    }
}

/// There is no line feed where no character is one.
pub proof fn lemma_no_line_feeds(s: Seq<char>, from: int, to: int)
    requires
        0 <= from <= to <= s.len(),
        forall|j: int| from <= j < to ==> #[trigger] s[j] != '\n',
    ensures
        line_feeds(s, from, to) == 0,
    decreases to - from,
{
    if from < to {
        lemma_no_line_feeds(s, from, to - 1);
    }
}

/// The classes of the components that a text declares are names.
#[verifier::rlimit(60)]
pub proof fn lemma_declared_names(s: Seq<char>, i: int)
    requires
        0 <= i <= s.len(),
        declarations_at(s, i) is Ok,
    ensures
        forall|j: int|
            0 <= j < declarations_at(s, i)->Ok_0.len() ==> valid_name(
                (#[trigger] declarations_at(s, i)->Ok_0[j]).component.class,
            ),
    decreases s.len() - i,
{
    lemma_run_members(s, i, CharClass::Inline);
    let b = i + run(s, i, CharClass::Inline);
    if !(b < s.len()) {
    } else if s[b] == '\n' {
        lemma_declared_names(s, b + 1);
    } else {
        let (declaration, n) = declaration_at(s, i)->Some_0;
        lemma_declared_names(s, i + n);
        let rest = declarations_at(s, i + n)->Ok_0;
        lemma_run_members(s, i, CharClass::Indent);
        let a = i + run(s, i, CharClass::Indent);
        let k = name_at(s, a)->Some_0;
        lemma_run_members(s, a + 1, CharClass::Name);
        assert(declaration.component.class == s.subrange(a, a + k));
        assert(valid_name(declaration.component.class)) by {
            let name = declaration.component.class;
            assert(name[0] == s[a]);
            assert forall|j: int| 1 <= j < name.len() implies in_class(
                CharClass::Name,
                #[trigger] name[j],
            ) by {
                assert(name[j] == s[a + j]);
            }
        }
        let all = declarations_at(s, i)->Ok_0;
        assert(all == seq![declaration] + rest);
        assert forall|j: int| 0 <= j < all.len() implies valid_name(
            (#[trigger] all[j]).component.class,
        ) by {
            if j > 0 {
                assert(all[j] == rest[j - 1]);
            }
        }
    }
}

/// Where the line of a component lies in the text of the first `n` components.
pub proof fn lemma_line_in_text(ds: Seq<DeclarationView>, n: nat, i: int)
    requires
        0 <= i < n <= ds.len(),
    ensures
        lines_text(ds, (i + 1) as nat).len() == lines_text(ds, i as nat).len() + line_of(
            ds[i],
        ).len(),
        lines_text(ds, (i + 1) as nat).len() <= lines_text(ds, n).len(),
        forall|j: int|
            0 <= j < line_of(ds[i]).len() ==> lines_text(ds, n)[lines_text(ds, i as nat).len() + j]
                == #[trigger] line_of(ds[i])[j],
    decreases n,
{
    if n > i + 1 {
        lemma_line_in_text(ds, (n - 1) as nat, i);
    }
}

/// Before the line of the component at position `i` there are `i` line feeds.
pub proof fn lemma_lines_before(ds: Seq<DeclarationView>, i: nat)
    requires
        i <= ds.len(),
        forall|j: int| 0 <= j < ds.len() ==> valid_name((#[trigger] ds[j]).component.class),
    ensures
        lines_text(ds, i).len() <= lines_text(ds, ds.len()).len(),
        line_feeds(lines_text(ds, ds.len()), 0, lines_text(ds, i).len() as int) == i,
    decreases i,
{
    let s = lines_text(ds, ds.len());
    if i > 0 {
        lemma_lines_before(ds, (i - 1) as nat);
        lemma_line_in_text(ds, ds.len(), i - 1);
        let d = ds[i - 1];
        let p = lines_text(ds, (i - 1) as nat).len() as int;
        let q = lines_text(ds, i).len() as int;
        let c = d.columns as int;
        let w = d.component.class.len() as int;
        assert(q == p + c + w + 1);
        assert forall|j: int| p <= j < q - 1 implies #[trigger] s[j] != '\n' by {
            assert(s[j] == line_of(d)[j - p]);
            if j - p >= c {
                assert(line_of(d)[j - p] == d.component.class[j - p - c]);
            }
        }
        lemma_no_line_feeds(s, p, q - 1);
        assert(s[q - 1] == line_of(d)[c + w]);
        lemma_line_feeds_split(s, 0, p, q);
        assert(line_feeds(s, p, q) == line_feeds(s, p, q - 1) + 1);
    }
}

/// A line of spaces, a name and a line feed declares a component of that class and
/// indentation, and nothing else.
pub proof fn lemma_declaration_line(s: Seq<char>, p: int, c: nat, name: Seq<char>)
    requires
        0 <= p,
        p + c + name.len() + 1 <= s.len(),
        valid_name(name),
        forall|j: int| p <= j < p + c ==> #[trigger] s[j] == ' ',
        forall|j: int| 0 <= j < name.len() ==> s[p + c + j] == #[trigger] name[j],
        s[p + c + name.len()] == '\n',
    ensures
        run(s, p, CharClass::Inline) == c,
        declaration_at(s, p) == Some(
            (
                DeclarationView {
                    component: TemplateView {
                        class: name,
                        style_class: None,
                        attributes: Seq::empty(),
                        children: Seq::empty(),
                        line: line_at(s, p),
                    },
                    columns: c,
                },
                (c + name.len() + 1) as nat,
            ),
        ),
{
    let w = name.len() as int;
    let a = p + c;
    let b = a + w;
    assert(s[a] == name[0]);
    assert(run(s, p, CharClass::Inline) == c) by {
        lemma_run_exact(s, p, c, CharClass::Inline);
    }
    assert(run(s, p, CharClass::Indent) == c) by {
        lemma_run_exact(s, p, c, CharClass::Indent);
    }
    assert(run(s, a + 1, CharClass::Name) == w - 1) by {
        assert forall|j: int| a + 1 <= j < b implies in_class(CharClass::Name, #[trigger] s[j]) by {
            assert(s[j] == name[j - a]);
        }
        lemma_run_exact(s, a + 1, (w - 1) as nat, CharClass::Name);
    }
    assert(run(s, b, CharClass::Inline) == 0) by {
        lemma_run_exact(s, b, 0, CharClass::Inline);
    }
    assert(columns(s, p, a) == c) by {
        lemma_columns_of_spaces(s, p, a);
    }
    assert(s.subrange(a, b) =~= name);
    assert(name_at(s, a) == Some(w as nat));
}

/// The text of declared components declares them again, each on its own line.
#[verifier::rlimit(60)]
pub proof fn lemma_parse_lines(ds: Seq<DeclarationView>, i: nat)
    requires
        i <= ds.len(),
        forall|j: int| 0 <= j < ds.len() ==> valid_name((#[trigger] ds[j]).component.class),
    ensures
        declarations_at(lines_text(ds, ds.len()), lines_text(ds, i).len() as int) == Ok::<
            Seq<DeclarationView>,
            nat,
        >(plain_all(ds).subrange(i as int, ds.len() as int)),
    decreases ds.len() - i,
{
    let s = lines_text(ds, ds.len());
    let p = lines_text(ds, i).len() as int;
    if i == ds.len() {
        assert(plain_all(ds).subrange(i as int, ds.len() as int) =~= Seq::empty());
    } else {
        let d = ds[i as int];
        let c = d.columns;
        let name = d.component.class;
        let w = name.len() as int;
        lemma_line_in_text(ds, ds.len(), i as int);
        lemma_lines_before(ds, i);
        lemma_parse_lines(ds, i + 1);
        assert(lines_text(ds, i + 1).len() == p + c + w + 1);
        assert forall|j: int| p <= j < p + c implies #[trigger] s[j] == ' ' by {
            assert(s[j] == line_of(d)[j - p]);
        }
        assert forall|j: int| 0 <= j < name.len() implies s[p + c + j] == #[trigger] name[j] by {
            assert(s[p + c + j] == line_of(d)[c + j]);
        }
        assert(s[p + c + w] == '\n') by {
            assert(s[p + c + w] == line_of(d)[c + w]);
        }
        lemma_declaration_line(s, p, c, name);
        assert(line_at(s, p) == i + 1);
        assert(declaration_at(s, p) == Some((plain(d, i + 1), (c + w + 1) as nat)));
        assert(s[p + c] == name[0]);
        let rest = plain_all(ds).subrange(i as int + 1, ds.len() as int);
        assert(declarations_at(s, p + c + w + 1) == Ok::<Seq<DeclarationView>, nat>(rest));
        assert(seq![plain(d, i + 1)] + rest =~= plain_all(ds).subrange(i as int, ds.len() as int));
    }
}

/// Declarations of the same indentation have the same errors in their indentation, up to
/// the lines that the errors name.
pub proof fn lemma_same_indentation(a: Seq<DeclarationView>, b: Seq<DeclarationView>, n: nat)
    requires
        agree(a, b),
        n <= a.len(),
        indentation_error_in(a, n) is None,
    ensures
        indentation_error_in(b, n) is None,
    decreases n,
{
    if n > 0 {
        lemma_same_indentation(a, b, (n - 1) as nat);
        assert(a[n - 1].columns == b[n - 1].columns);
        if n > 1 {
            assert(a[n - 2].columns == b[n - 2].columns);
        }
        assert(declaration_error(a, n - 1) is None);
    }
}

/// The text of a template that was accepted is accepted: the grammar accepts it, its
/// indentation is right, and exactly one of its components is not indented. What it
/// declares are the components of the template, with their classes and indentation.
pub proof fn lemma_text_is_accepted(text: Seq<char>, template: TemplateView)
    requires
        accepts(text, template),
    ensures
        declarations_at(shape_text(template), 0) == Ok::<Seq<DeclarationView>, nat>(
            plain_all(listing(template, 0)),
        ),
        agree(listing(template, 0), plain_all(listing(template, 0))),
        indentation_error(plain_all(listing(template, 0))) is None,
        plain_all(listing(template, 0)).len() != 0,
        !has_later_root(plain_all(listing(template, 0))),
{
    let ds = listing(template, 0);
    lemma_declared_names(text, 0);
    lemma_parse_lines(ds, 0);
    assert(plain_all(ds).subrange(0, ds.len() as int) =~= plain_all(ds));
    assert(lines_text(ds, 0).len() == 0);
    lemma_same_indentation(ds, plain_all(ds), ds.len());
    if has_later_root(plain_all(ds)) {
        let i = choose|i: int| 0 < i < plain_all(ds).len() && (#[trigger] plain_all(ds)[i]).columns == 0;
        assert(ds[i].columns == 0);
    }
}

/// Templates whose listings declare components of the same classes with the same
/// indentation have the same shape.
pub proof fn lemma_same_listing(a: TemplateView, b: TemplateView, depth: nat)
    requires
        agree(listing(a, depth), listing(b, depth)),
    ensures
        same_shape(a, b),
    decreases a, 0nat,
{
    let la = listing_of(a.children, a.children.len(), depth + 1);
    let lb = listing_of(b.children, b.children.len(), depth + 1);
    assert(listing(a, depth)[0] == declared(a, depth));
    assert(listing(b, depth)[0] == declared(b, depth));
    assert(agree(la, lb)) by {
        assert(la.len() == lb.len());
        assert forall|i: int| 0 <= i < la.len() implies (#[trigger] la[i]).component.class
            == lb[i].component.class && la[i].columns == lb[i].columns by {
            assert(la[i] == listing(a, depth)[i + 1]);
            assert(lb[i] == listing(b, depth)[i + 1]);
        }
    }
    lemma_same_listings(a.children, a.children.len(), b.children, b.children.len(), depth + 1);
}

/// Forests whose listings declare components of the same classes with the same
/// indentation have as many trees, and these have the same shapes.
#[verifier::rlimit(60)]
pub proof fn lemma_same_listings(
    a: Seq<TemplateView>,
    n: nat,
    b: Seq<TemplateView>,
    m: nat,
    depth: nat,
)
    requires
        n <= a.len(),
        m <= b.len(),
        agree(listing_of(a, n, depth), listing_of(b, m, depth)),
    ensures
        n == m,
        forall|k: int| 0 <= k < n ==> same_shape(a[k], b[k]),
    decreases a, n,
{
    let la = listing_of(a, n, depth);
    let lb = listing_of(b, m, depth);
    lemma_listing_of_depth(a, n, depth);
    lemma_listing_of_depth(b, m, depth);
    if n == 0 {
        if m > 0 {
            assert(lb.len() >= 1);
        }
    } else if m == 0 {
        assert(la.len() >= 1);
    } else {
        let pa = listing_of(a, (n - 1) as nat, depth);
        let pb = listing_of(b, (m - 1) as nat, depth);
        let ta = listing(a[n - 1], depth);
        let tb = listing(b[m - 1], depth);
        lemma_listing_depth(a[n - 1], depth);
        lemma_listing_depth(b[m - 1], depth);
        lemma_listing_of_depth(a, (n - 1) as nat, depth);
        lemma_listing_of_depth(b, (m - 1) as nat, depth);
        assert(la == pa + ta);
        assert(lb == pb + tb);
        // The last tree starts at the last declaration that is indented as the roots are
        assert(pa.len() == pb.len()) by {
            if pa.len() < pb.len() {
                let i = pb.len() as int;
                assert(lb[i] == tb[0]);
                assert(la[i] == ta[i - pa.len()]);
                assert(la[i].columns == lb[i].columns);
            } else if pb.len() < pa.len() {
                let i = pa.len() as int;
                assert(la[i] == ta[0]);
                assert(lb[i] == tb[i - pb.len()]);
                assert(la[i].columns == lb[i].columns);
            }
        }
        assert(agree(pa, pb)) by {
            assert forall|i: int| 0 <= i < pa.len() implies (#[trigger] pa[i]).component.class
                == pb[i].component.class && pa[i].columns == pb[i].columns by {
                assert(pa[i] == la[i]);
                assert(pb[i] == lb[i]);
            }
        }
        assert(agree(ta, tb)) by {
            assert forall|i: int| 0 <= i < ta.len() implies (#[trigger] ta[i]).component.class
                == tb[i].component.class && ta[i].columns == tb[i].columns by {
                assert(ta[i] == la[pa.len() + i]);
                assert(tb[i] == lb[pb.len() + i]);
            }
        }
        lemma_same_listings(a, (n - 1) as nat, b, (m - 1) as nat, depth);
        lemma_same_listing(a[n - 1], b[m - 1], depth);
    }
}

/// Parsing the text of a template gives a template of the same shape: where `text` was
/// accepted as the template `template`, and the text of that template is accepted as the
/// template `again`, the two have the same shape.
pub proof fn lemma_round_trip(text: Seq<char>, template: TemplateView, again: TemplateView)
    requires
        accepts(text, template),
        accepts(shape_text(template), again),
    ensures
        same_shape(again, template),
{
    lemma_text_is_accepted(text, template);
    let ds = listing(template, 0);
    assert(listing(again, 0) == plain_all(ds));
    assert(agree(listing(again, 0), ds));
    lemma_same_listing(again, template, 0);
}

} // verus!

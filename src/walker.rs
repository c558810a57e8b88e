//! The declaration tree of a source file and the walk that collects its docs.
//!
//! Only functions and modules are documentable; a tree holds them with the
//! attributes written on them and the functions and modules declared inside them
//! (in a module's items or in a function's body), in source order.
use vstd::prelude::*;
use vstd::string::StringExecFns;
use vstd::string::StrSliceExecFns;
use crate::doc::{
    doc_spec, docs_view, fn_block, format_signature, heading_text, mod_block, module_label,
    signature_text, Doc, DocView, FnDoc, ModDoc, HEADING_WIDTH,
};
use crate::markdown::{markdown_spec, MarkdownError};
use crate::text::lemma_centered;

verus! {

/// One token of an attribute's input, as far as doc extraction needs it.
#[derive(Debug)]
pub enum AttrToken {
    /// A literal, written as in the source, quotes included (`" Foo"`).
    Literal(String),
    /// Any other token: an identifier, a punctuation mark, a group.
    Other,
}

/// An attribute on a declaration. A doc comment `/// Foo` is the outer
/// attribute `#[doc = " Foo"]`; `//! Foo` is an inner one.
#[derive(Debug)]
pub struct Attr {
    /// Written before the item (`#[...]`, `///`), not inside it (`#![...]`, `//!`).
    pub outer: bool,
    /// A `doc` attribute, as doc comments are; not `#[must_use = "..."]` or the like.
    pub is_doc: bool,
    /// The tokens that follow the attribute's path.
    pub tokens: Vec<AttrToken>,
}

/// What a declaration is.
#[derive(Clone, Copy, Debug, PartialEq, Eq, Structural)]
pub enum DeclKind {
    Function,
    Module,
}

/// A function or module declaration with the declarations nested in it.
#[derive(Debug)]
pub struct Decl {
    pub kind: DeclKind,
    pub name: String,
    pub attrs: Vec<Attr>,
    pub children: Vec<Decl>,
}

/// A doc literal's text: the opening quote and the character after it are dropped,
/// taken to be a space, then the closing quote, if anything is left. A literal of
/// fewer than two characters leaves nothing.
pub open spec fn strip_literal(lit: Seq<char>) -> Seq<char> {
    let rest = if lit.len() < 2 { Seq::empty() } else { lit.skip(2) };
    if rest.len() == 0 { rest } else { rest.drop_last() }
}

/// The doc lines that a run of tokens gives: one line per literal.
pub open spec fn tokens_text(tokens: Seq<AttrToken>) -> Seq<char>
    decreases tokens.len(),
{
    if tokens.len() == 0 {
        Seq::empty()
    } else {
        tokens_text(tokens.drop_last()) + match tokens.last() {
            AttrToken::Literal(lit) => strip_literal(lit@) + seq!['\n'],
            AttrToken::Other => Seq::empty(),
        }
    }
}

/// Whether an attribute holds doc text for the item it is written on: an outer
/// doc attribute.
pub open spec fn is_outer_doc(a: Attr) -> bool {
    a.outer && a.is_doc
}

/// The raw doc text of a list of attributes: the lines of the outer doc attributes,
/// in order; other attributes add nothing.
pub open spec fn doc_text(attrs: Seq<Attr>) -> Seq<char>
    decreases attrs.len(),
{
    if attrs.len() == 0 {
        Seq::empty()
    } else {
        doc_text(attrs.drop_last()) + if is_outer_doc(attrs.last()) {
            tokens_text(attrs.last().tokens@)
        } else {
            Seq::empty()
        }
    }
}

/// The doc of one declaration, without those of its children.
pub open spec fn decl_doc(d: Decl) -> DocView {
    match d.kind {
        DeclKind::Function => DocView::FnDoc {
            signature: signature_text(d.name@),
            doc: doc_text(d.attrs@),
        },
        DeclKind::Module => DocView::ModDoc { ident: d.name@, doc: doc_text(d.attrs@) },
    }
}

/// The docs of a declaration and everything nested in it, in pre-order.
pub open spec fn walk(d: Decl) -> Seq<DocView>
    decreases d, 1nat,
{
    seq![decl_doc(d)] + walk_all(d.children@, d.children@.len())
}

/// The docs of the first `n` declarations of `ds`, each walked in pre-order, in order.
pub open spec fn walk_all(ds: Seq<Decl>, n: nat) -> Seq<DocView>
    decreases ds, 0nat, n,
{
    if n == 0 || n > ds.len() {
        Seq::empty()
    } else {
        walk_all(ds, (n - 1) as nat) + walk(ds[n - 1])
    }
}

/// The text of a doc literal (see [`strip_literal`]).
pub fn strip_doc_literal(lit: &str) -> (r: String)
    ensures
        r@ == strip_literal(lit@),
{
    let n = lit.unicode_len();
    if n <= 2 {
        let r = String::new();
        assert(r@ =~= strip_literal(lit@));
        r
    } else {
        let r = String::from_str(lit.substring_char(2, n - 1));
        assert(r@ =~= strip_literal(lit@));
        r
    }
}

/// The raw doc text of a declaration's attributes: for each literal in an outer doc
/// attribute, its text (see [`strip_doc_literal`]) and a newline.
pub fn format_doc(attrs: &Vec<Attr>) -> (r: String)
    ensures
        r@ == doc_text(attrs@),
{
    let mut doc = String::new();
    let mut i: usize = 0;
    proof {
        reveal_strlit("\n");
        assert(attrs@.take(0) =~= Seq::<Attr>::empty());
    }
    while i < attrs.len()
        invariant
            i <= attrs@.len(),
            doc@ == doc_text(attrs@.take(i as int)),
            "\n"@ == seq!['\n'],
        decreases attrs@.len() - i,
    {
        let attr = &attrs[i];
        assert(attrs@.take(i + 1).drop_last() =~= attrs@.take(i as int));
        if attr.outer && attr.is_doc {
            let ghost start = doc@;
            let mut j: usize = 0;
            assert(attr.tokens@.take(0) =~= Seq::<AttrToken>::empty());
            while j < attr.tokens.len()
                invariant
                    j <= attr.tokens@.len(),
                    doc@ == start + tokens_text(attr.tokens@.take(j as int)),
                    "\n"@ == seq!['\n'],
                decreases attr.tokens@.len() - j,
            {
                assert(attr.tokens@.take(j + 1).drop_last() =~= attr.tokens@.take(j as int));
                match &attr.tokens[j] {
                    AttrToken::Literal(lit) => {
                        let line = strip_doc_literal(lit.as_str());
                        doc.append(line.as_str());
                        doc.append("\n");
                    },
                    AttrToken::Other => {},
                }
                j = j + 1;
                assert(doc@ =~= start + tokens_text(attr.tokens@.take(j as int)));
            }
            assert(attr.tokens@.take(j as int) =~= attr.tokens@);
        }
        i = i + 1;
        assert(doc@ =~= doc_text(attrs@.take(i as int)));
    }
    assert(attrs@.take(i as int) =~= attrs@);
    doc
}

/// The doc of one declaration: a function's signature line, or a module's name,
/// with the raw doc text of its attributes.
pub fn decl_to_doc(d: &Decl) -> (r: Doc)
    ensures
        r@ == decl_doc(*d),
{
    let doc = format_doc(&d.attrs);
    match d.kind {
        DeclKind::Function => Doc::FnDoc(FnDoc { signature: format_signature(d.name.as_str()), doc }),
        DeclKind::Module => Doc::ModDoc(ModDoc { ident: d.name.clone(), doc }),
    }
}

/// Collects docs in the order of a depth-first, pre-order walk.
pub struct Visitor {
    pub docs: Vec<Doc>,
}

impl Visitor {
    /// A visitor that has collected nothing.
    pub fn new() -> (r: Visitor)
        ensures
            r.docs@.len() == 0,
    {
        Visitor { docs: Vec::new() }
    }

    /// Adds the doc of `d`, then those of the declarations nested in it.
    pub fn visit_decl(&mut self, d: &Decl)
        ensures
            docs_view(final(self).docs@) == docs_view(old(self).docs@) + walk(*d),
        decreases d,
    {
        let ghost start = docs_view(self.docs@);
        let item = decl_to_doc(d);
        self.docs.push(item);
        assert(docs_view(self.docs@) =~= start + seq![decl_doc(*d)]);
        let mut i: usize = 0;
        while i < d.children.len()
            invariant
                i <= d.children@.len(),
                docs_view(self.docs@) == start + seq![decl_doc(*d)] + walk_all(d.children@, i as nat),
            decreases d.children@.len() - i,
        {
            self.visit_decl(&d.children[i]);
            i = i + 1;
            assert(walk_all(d.children@, i as nat) == walk_all(d.children@, (i - 1) as nat) + walk(d.children@[i - 1]));
            assert(docs_view(self.docs@) =~= start + seq![decl_doc(*d)] + walk_all(d.children@, i as nat));
        }
        assert(docs_view(self.docs@) =~= start + walk(*d));
    }
}

/// The docs of a file's top-level declarations and of everything nested in them,
/// in a depth-first, pre-order walk from top to bottom.
pub fn collect_docs(decls: &Vec<Decl>) -> (r: Vec<Doc>)
    ensures
        docs_view(r@) == walk_all(decls@, decls@.len()),
{
    let mut v = Visitor::new();
    let mut i: usize = 0;
    assert(docs_view(v.docs@) =~= Seq::<DocView>::empty());
    while i < decls.len()
        invariant
            i <= decls@.len(),
            docs_view(v.docs@) == walk_all(decls@, i as nat),
        decreases decls@.len() - i,
    {
        v.visit_decl(&decls[i]);
        i = i + 1;
        assert(docs_view(v.docs@) =~= walk_all(decls@, i as nat));
    }
    v.docs
}

/// A function with no doc text renders as the `function` heading, a blank line, its
/// signature line `fn name()`, a blank line, an empty body and a closing blank line.
pub proof fn lemma_undocumented_function(d: Decl)
    requires
        d.kind == DeclKind::Function,
        doc_text(d.attrs@).len() == 0,
    ensures
        doc_spec(decl_doc(d)) == Ok::<Seq<char>, MarkdownError>(
            heading_text("function"@) + seq!['\n', '\n'] + seq!['f', 'n', ' '] + d.name@ + seq!['(', ')']
                + seq!['\n', '\n'] + seq!['\n', '\n'],
        ),
{
    reveal_strlit("fn ");
    reveal_strlit("()\n\n");
    reveal_strlit("\n\n");
    assert(doc_text(d.attrs@) =~= Seq::<char>::empty());
    let sig = signature_text(d.name@);
    assert(sig =~= seq!['f', 'n', ' '] + d.name@ + seq!['(', ')'] + seq!['\n', '\n']);
    assert(fn_block(sig, Seq::empty()) =~= heading_text("function"@) + seq!['\n', '\n'] + seq!['f', 'n', ' ']
        + d.name@ + seq!['(', ')'] + seq!['\n', '\n'] + seq!['\n', '\n']);
}

/// A module's block opens with the heading `module name`, centred in a line of
/// [`HEADING_WIDTH`] dashes: where the label fits, it stands at the middle of a line
/// of exactly that width.
pub proof fn lemma_module_heading(d: Decl)
    requires
        d.kind == DeclKind::Module,
    ensures
        ({
            let label = module_label(d.name@);
            let h = heading_text(label);
            let left = (HEADING_WIDTH - label.len()) / 2;
            &&& label == seq!['m', 'o', 'd', 'u', 'l', 'e', ' '] + d.name@
            &&& doc_spec(decl_doc(d)) matches Ok(s) ==> s.take(h.len() as int) == h
            &&& label.len() <= HEADING_WIDTH ==> {
                &&& h.len() == HEADING_WIDTH
                &&& h.subrange(left, left + label.len()) == label
                &&& forall|i: int| 0 <= i < left ==> #[trigger] h[i] == '-'
                &&& forall|i: int| left + label.len() <= i < HEADING_WIDTH ==> #[trigger] h[i] == '-'
            }
        }),
{
    reveal_strlit("module ");
    reveal_strlit("-");
    let label = module_label(d.name@);
    assert(label =~= seq!['m', 'o', 'd', 'u', 'l', 'e', ' '] + d.name@);
    let h = heading_text(label);
    if let Ok(s) = doc_spec(decl_doc(d)) {
        let body = markdown_spec(doc_text(d.attrs@))->Ok_0;
        assert(s == mod_block(d.name@, body));
        assert(s.take(h.len() as int) =~= h);
    }
    if label.len() <= HEADING_WIDTH {
        assert("-"@ == seq!['-']);
        lemma_centered(label, HEADING_WIDTH as nat, '-');
    }
}

/// Walking the same declarations twice gives the same docs, in the same order: the
/// walk depends on the tree alone, each declaration comes before those nested in it,
/// and sibling declarations keep their source order.
pub proof fn lemma_walk_deterministic(decls: Seq<Decl>, first: Seq<Doc>, second: Seq<Doc>)
    requires
        docs_view(first) == walk_all(decls, decls.len()),
        docs_view(second) == walk_all(decls, decls.len()),
    ensures
        first.len() == second.len(),
        forall|i: int| 0 <= i < first.len() ==> #[trigger] first[i]@ == second[i]@,
        forall|d: Decl| #[trigger] walk(d)[0] == decl_doc(d),
{
    assert(docs_view(first).len() == first.len());
    assert(docs_view(second).len() == second.len());
    assert forall|i: int| 0 <= i < first.len() implies #[trigger] first[i]@ == second[i]@ by {
        assert(docs_view(first)[i] == first[i]@);
        assert(docs_view(second)[i] == second[i]@);
    }
}

/// A doc literal with no space after its opening quote loses its first character:
/// `"Foo"` gives `oo`.
pub proof fn lemma_no_leading_space(first: char, rest: Seq<char>)
    ensures
        strip_literal(seq!['"', first] + rest + seq!['"']) == rest,
{
    let lit = seq!['"', first] + rest + seq!['"'];
    assert(lit.skip(2) =~= rest + seq!['"']);
    assert((rest + seq!['"']).drop_last() =~= rest);
}

} // verus!

//! Documented items and their rendering as text blocks.
use vstd::prelude::*;
use vstd::string::StringExecFns;
use crate::markdown::{format_markdown, markdown_spec, result_view, MarkdownError};
use crate::text::{center, centered};

verus! {

/// The width of the line that heads each block.
pub const HEADING_WIDTH: usize = 80;

/// A documented function: its signature line and its raw doc text.
#[derive(Debug)]
pub struct FnDoc {
    pub signature: String,
    pub doc: String,
}

/// A documented module: its name and its raw doc text.
#[derive(Debug)]
pub struct ModDoc {
    pub ident: String,
    pub doc: String,
}

/// A documented item.
#[derive(Debug)]
pub enum Doc {
    FnDoc(FnDoc),
    ModDoc(ModDoc),
}

/// The mathematical value of a [`Doc`].
pub enum DocView {
    FnDoc { signature: Seq<char>, doc: Seq<char> },
    ModDoc { ident: Seq<char>, doc: Seq<char> },
}

impl View for Doc {
    type V = DocView;

    open spec fn view(&self) -> DocView {
        match self {
            Doc::FnDoc(f) => DocView::FnDoc { signature: f.signature@, doc: f.doc@ },
            Doc::ModDoc(m) => DocView::ModDoc { ident: m.ident@, doc: m.doc@ },
        }
    }
}

/// The mathematical values of a list of docs.
pub open spec fn docs_view(docs: Seq<Doc>) -> Seq<DocView> {
    docs.map_values(|d: Doc| d@)
}

/// The heading line: `label` centred in [`HEADING_WIDTH`] characters, padded with `-`.
pub open spec fn heading_text(label: Seq<char>) -> Seq<char> {
    centered(label, HEADING_WIDTH as nat, "-"@)
}

/// The label that heads a module's block.
pub open spec fn module_label(ident: Seq<char>) -> Seq<char> {
    "module "@ + ident
}

/// The signature line of a function named `name`, with its blank-line separator.
pub open spec fn signature_text(name: Seq<char>) -> Seq<char> {
    "fn "@ + name + "()\n\n"@
}

/// A function's block around its rendered doc body.
pub open spec fn fn_block(signature: Seq<char>, body: Seq<char>) -> Seq<char> {
    heading_text("function"@) + "\n\n"@ + signature + body + "\n\n"@
}

/// A module's block around its rendered doc body.
pub open spec fn mod_block(ident: Seq<char>, body: Seq<char>) -> Seq<char> {
    heading_text(module_label(ident)) + "\n\n"@ + body + "\n\n"@
}

/// What a doc renders to: its block, or the error of its doc body.
pub open spec fn doc_spec(d: DocView) -> Result<Seq<char>, MarkdownError> {
    match d {
        DocView::FnDoc { signature, doc } => match markdown_spec(doc) {
            Ok(body) => Ok(fn_block(signature, body)),
            Err(e) => Err(e),
        },
        DocView::ModDoc { ident, doc } => match markdown_spec(doc) {
            Ok(body) => Ok(mod_block(ident, body)),
            Err(e) => Err(e),
        },
    }
}

/// The blocks of `docs`, concatenated in order; the first error if one fails.
pub open spec fn docs_spec(docs: Seq<DocView>) -> Result<Seq<char>, MarkdownError>
    decreases docs.len(),
{
    if docs.len() == 0 {
        Ok(Seq::empty())
    } else {
        match docs_spec(docs.drop_last()) {
            Ok(before) => match doc_spec(docs.last()) {
                Ok(block) => Ok(before + block),
                Err(e) => Err(e),
            },
            Err(e) => Err(e),
        }
    }
}

/// The heading line for `label`.
pub fn heading(label: &str) -> (r: String)
    ensures
        r@ == heading_text(label@),
{
    center(label, HEADING_WIDTH, "-")
}

/// The signature line of a function named `name`: `fn name()` and a blank line.
/// Parameters, return type and generics are not shown.
pub fn format_signature(name: &str) -> (r: String)
    ensures
        r@ == signature_text(name@),
{
    let mut r = String::from_str("fn ");
    r.append(name);
    r.append("()\n\n");
    r
}

impl FnDoc {
    /// The block of a function: heading, signature, rendered doc, blank line.
    pub fn render(&self) -> (r: Result<String, MarkdownError>)
        ensures
            result_view(r) == doc_spec(DocView::FnDoc { signature: self.signature@, doc: self.doc@ }),
    {
        let body = format_markdown(self.doc.as_str())?;
        let mut r = heading("function");
        r.append("\n\n");
        r.append(self.signature.as_str());
        r.append(body.as_str());
        r.append("\n\n");
        Ok(r)
    }
}

impl ModDoc {
    /// The block of a module: heading with its name, rendered doc, blank line.
    pub fn render(&self) -> (r: Result<String, MarkdownError>)
        ensures
            result_view(r) == doc_spec(DocView::ModDoc { ident: self.ident@, doc: self.doc@ }),
    {
        let body = format_markdown(self.doc.as_str())?;
        let mut label = String::from_str("module ");
        label.append(self.ident.as_str());
        let mut r = heading(label.as_str());
        r.append("\n\n");
        r.append(body.as_str());
        r.append("\n\n");
        Ok(r)
    }
}

impl Doc {
    /// The block of this item.
    pub fn render(&self) -> (r: Result<String, MarkdownError>)
        ensures
            result_view(r) == doc_spec(self@),
    {
        match self {
            Doc::FnDoc(f) => f.render(),
            Doc::ModDoc(m) => m.render(),
        }
    }
}

/// The blocks of all `docs` in order, with nothing between them: the tool's output.
pub fn render_docs(docs: &Vec<Doc>) -> (r: Result<String, MarkdownError>)
    ensures
        result_view(r) == docs_spec(docs_view(docs@)),
{
    let ghost dv = docs_view(docs@);
    let mut out = String::new();
    let mut i: usize = 0;
    proof {
        assert(dv.take(0) =~= Seq::<DocView>::empty());
    }
    while i < docs.len()
        invariant
            dv == docs_view(docs@),
            i <= docs@.len(),
            docs_spec(dv.take(i as int)) == Ok::<Seq<char>, MarkdownError>(out@),
        decreases docs@.len() - i,
    {
        assert(dv.take(i + 1).drop_last() =~= dv.take(i as int));
        assert(dv.take(i + 1).last() == docs@[i as int]@);
        match docs[i].render() {
            Ok(block) => {
                out.append(block.as_str());
            },
            Err(e) => {
                proof {
                    lemma_docs_stay_err(dv, i + 1);
                }
                return Err(e);
            },
        }
        i = i + 1;
    }
    assert(dv.take(i as int) =~= dv);
    Ok(out)
}

proof fn lemma_docs_stay_err(docs: Seq<DocView>, i: int)
    requires
        0 <= i <= docs.len(),
        docs_spec(docs.take(i)) is Err,
    ensures
        docs_spec(docs) == docs_spec(docs.take(i)),
    decreases docs.len() - i,
{
    if i < docs.len() {
        assert(docs.take(i + 1).drop_last() =~= docs.take(i));
        lemma_docs_stay_err(docs, i + 1);
    } else {
        assert(docs.take(i) =~= docs);
    }
}

} // verus!

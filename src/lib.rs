//! A document pretty-printer in the style of Wadler's "prettier printer".
//!
//! Documents are built from a small algebra of combinators and rendered to
//! text that fits a target width where the layout choices allow it.
use std::rc::Rc;
use vstd::prelude::*;

pub mod layout;
pub mod render;
pub mod utils;
pub mod laws;

pub use layout::LowDoc;
pub use render::pretty;

verus! {

/// A document: the input of the renderer.
///
/// In `Group(flat, expanded)` the first branch is the flattening of the
/// second; `group` is the constructor that keeps that invariant.
#[derive(Debug, Clone)]
pub enum Doc {
    Nil,
    Concat(Rc<Doc>, Rc<Doc>),
    Nest(usize, Rc<Doc>),
    Text(String),
    Line,
    Group(Rc<Doc>, Rc<Doc>),
}

/// The mathematical model of a document.
pub enum DocModel {
    Nil,
    Concat(Box<DocModel>, Box<DocModel>),
    Nest(nat, Box<DocModel>),
    Text(Seq<char>),
    Line,
    Group(Box<DocModel>, Box<DocModel>),
}

impl View for Doc {
    type V = DocModel;

    open spec fn view(&self) -> DocModel
        decreases self,
    {
        match self {
            Doc::Nil => DocModel::Nil,
            Doc::Concat(x, y) => DocModel::Concat(Box::new((**x).view()), Box::new((**y).view())),
            Doc::Nest(i, x) => DocModel::Nest(*i as nat, Box::new((**x).view())),
            Doc::Text(s) => DocModel::Text(s@),
            Doc::Line => DocModel::Line,
            Doc::Group(x, y) => DocModel::Group(Box::new((**x).view()), Box::new((**y).view())),
        }
    }
}

impl Doc {
    /// A copy of this document that shares its children.
    pub fn copy(&self) -> (r: Doc)
        ensures
            r@ == self@,
    {
        match self {
            Doc::Nil => Doc::Nil,
            Doc::Concat(x, y) => Doc::Concat(Rc::clone(x), Rc::clone(y)),
            Doc::Nest(i, x) => Doc::Nest(*i, Rc::clone(x)),
            Doc::Text(s) => Doc::Text(s.clone()),
            Doc::Line => Doc::Line,
            Doc::Group(x, y) => Doc::Group(Rc::clone(x), Rc::clone(y)),
        }
    }
}

/// The single-line form of a document: every line break becomes one space
/// and every choice takes its flat branch.
pub open spec fn flattened(d: DocModel) -> DocModel
    decreases d,
{
    match d {
        DocModel::Nil => DocModel::Nil,
        DocModel::Concat(x, y) => DocModel::Concat(
            Box::new(flattened(*x)),
            Box::new(flattened(*y)),
        ),
        DocModel::Nest(i, x) => DocModel::Nest(i, Box::new(flattened(*x))),
        DocModel::Text(s) => DocModel::Text(s),
        DocModel::Line => DocModel::Text(seq![' ']),
        DocModel::Group(f, _) => flattened(*f),
    }
}

/// The choice between the flattening of `x` and `x` itself.
pub open spec fn grouped(x: DocModel) -> DocModel {
    DocModel::Group(Box::new(flattened(x)), Box::new(x))
}

/// Every choice in `d` pairs a document with its own flattening.
pub open spec fn well_formed(d: DocModel) -> bool
    decreases d,
{
    match d {
        DocModel::Concat(x, y) => well_formed(*x) && well_formed(*y),
        DocModel::Nest(_, x) => well_formed(*x),
        DocModel::Group(f, e) => *f == flattened(*e) && well_formed(*e),
        _ => true,
    }
}

/// A flattened document holds no line break and no choice.
pub open spec fn is_flat(d: DocModel) -> bool
    decreases d,
{
    match d {
        DocModel::Concat(x, y) => is_flat(*x) && is_flat(*y),
        DocModel::Nest(_, x) => is_flat(*x),
        DocModel::Line => false,
        DocModel::Group(_, _) => false,
        _ => true,
    }
}

/// The text of a document laid out on one line.
pub open spec fn flat_text(d: DocModel) -> Seq<char>
    decreases d,
{
    match d {
        DocModel::Nil => Seq::empty(),
        DocModel::Concat(x, y) => flat_text(*x) + flat_text(*y),
        DocModel::Nest(_, x) => flat_text(*x),
        DocModel::Text(s) => s,
        DocModel::Line => seq![' '],
        DocModel::Group(f, _) => flat_text(*f),
    }
}

pub proof fn lemma_flattened_is_flat(d: DocModel)
    ensures
        is_flat(flattened(d)),
        well_formed(flattened(d)),
        flattened(flattened(d)) == flattened(d),
        flat_text(flattened(d)) == flat_text(d),
    decreases d,
{
    match d {
        DocModel::Concat(x, y) => {
            lemma_flattened_is_flat(*x);
            lemma_flattened_is_flat(*y);
        },
        DocModel::Nest(_, x) => lemma_flattened_is_flat(*x),
        DocModel::Group(f, _) => lemma_flattened_is_flat(*f),
        _ => {},
    }
}

/// The empty document.
pub fn nil() -> (r: Doc)
    ensures
        r@ == DocModel::Nil,
{
    Doc::Nil
}

/// `x` followed by `y` on the same line.
pub fn concat(x: Doc, y: Doc) -> (r: Doc)
    ensures
        r@ == DocModel::Concat(Box::new(x@), Box::new(y@)),
        well_formed(x@) && well_formed(y@) ==> well_formed(r@),
{
    Doc::Concat(Rc::new(x), Rc::new(y))
}

/// `x` with `i` more columns of indentation after each of its line breaks.
pub fn nest(i: usize, x: Doc) -> (r: Doc)
    ensures
        r@ == DocModel::Nest(i as nat, Box::new(x@)),
        well_formed(x@) ==> well_formed(r@),
{
    Doc::Nest(i, Rc::new(x))
}

/// A literal piece of text, assumed to hold no line terminator.
pub fn text(s: &str) -> (r: Doc)
    ensures
        r@ == DocModel::Text(s@),
{
    Doc::Text(s.to_owned())
}

/// A line break, or a single space where it is flattened.
pub fn line() -> (r: Doc)
    ensures
        r@ == DocModel::Line,
{
    Doc::Line
}

/// The choice between `x` on one line and `x` as it stands.
pub fn group(x: Rc<Doc>) -> (r: Doc)
    ensures
        r@ == grouped(x@),
        well_formed(x@) ==> well_formed(r@),
{
    let f = flatten(&x);
    proof {
        lemma_flattened_is_flat(x@);
    }
    Doc::Group(Rc::new(f), x)
}

/// The single-line form of `x`.
pub fn flatten(x: &Doc) -> (r: Doc)
    ensures
        r@ == flattened(x@),
    decreases x,
{
    match x {
        Doc::Nil => Doc::Nil,
        Doc::Text(s) => Doc::Text(s.clone()),
        Doc::Line => {
            proof {
                reveal_strlit(" ");
                assert(" "@ =~= seq![' ']);
            }
            text(" ")
        },
        Doc::Concat(x, y) => concat(flatten(x), flatten(y)),
        Doc::Nest(i, x) => nest(*i, flatten(x)),
        Doc::Group(x, _) => flatten(x),
    }
}

} // verus!

//! Combinators built on the document algebra.
use std::rc::Rc;
use vstd::prelude::*;
use crate::{Doc, DocModel, flattened, grouped};

verus! {

/// The models of a sequence of documents.
pub open spec fn views(ds: Seq<Doc>) -> Seq<DocModel> {
    ds.map_values(|d: Doc| d@)
}

/// `x`, one space, then `y`.
pub open spec fn space_joined(x: DocModel, y: DocModel) -> DocModel {
    DocModel::Concat(
        Box::new(x),
        Box::new(DocModel::Concat(Box::new(DocModel::Text(seq![' '])), Box::new(y))),
    )
}

/// `x`, a line break, then `y`.
pub open spec fn line_joined(x: DocModel, y: DocModel) -> DocModel {
    DocModel::Concat(Box::new(x), Box::new(DocModel::Concat(Box::new(DocModel::Line), Box::new(y))))
}

/// `x`, a line break that is a space where it fits, then `y`.
pub open spec fn soft_joined(x: DocModel, y: DocModel) -> DocModel {
    DocModel::Concat(
        Box::new(x),
        Box::new(DocModel::Concat(Box::new(grouped(DocModel::Line)), Box::new(y))),
    )
}

/// The documents folded from the left with `space_joined`, starting from the
/// empty document.
pub open spec fn spread_model(ds: Seq<DocModel>) -> DocModel
    decreases ds.len(),
{
    if ds.len() == 0 {
        DocModel::Nil
    } else {
        space_joined(spread_model(ds.drop_last()), ds.last())
    }
}

/// The documents folded from the left with `line_joined`, starting from the
/// empty document.
pub open spec fn stack_model(ds: Seq<DocModel>) -> DocModel
    decreases ds.len(),
{
    if ds.len() == 0 {
        DocModel::Nil
    } else {
        line_joined(stack_model(ds.drop_last()), ds.last())
    }
}

/// The words as texts folded from the left with `soft_joined`, starting from
/// the empty document.
pub open spec fn words_model(ws: Seq<Seq<char>>) -> DocModel
    decreases ws.len(),
{
    if ws.len() == 0 {
        DocModel::Nil
    } else {
        soft_joined(words_model(ws.drop_last()), DocModel::Text(ws.last()))
    }
}

/// Word-wrap of a sequence of documents: between each two neighbours the
/// choice of keeping them on one line, both flattened, or breaking the line.
pub open spec fn fill_model(ds: Seq<DocModel>) -> DocModel
    decreases ds.len(),
{
    if ds.len() == 0 {
        DocModel::Nil
    } else if ds.len() == 1 {
        ds[0]
    } else {
        let rest = ds.subrange(2, ds.len() as int);
        DocModel::Group(
            Box::new(space_joined(flattened(ds[0]), fill_model(seq![flattened(ds[1])] + rest))),
            Box::new(line_joined(ds[0], fill_model(seq![ds[1]] + rest))),
        )
    }
}

/// The words of a string, split at whitespace.
pub uninterp spec fn whitespace_words(s: Seq<char>) -> Seq<Seq<char>>;

/// Relies on `str::split_whitespace`: the words of `s` in order, which depend
/// on its characters alone; an empty string has none.
#[verifier::external_body]
fn split_words(s: &str) -> (r: Vec<String>)
    ensures
        r@.len() == whitespace_words(s@).len(),
        forall|k: int| 0 <= k < r@.len() ==> #[trigger] r@[k]@ == whitespace_words(s@)[k],
        s@.len() == 0 ==> r@.len() == 0,
{
    s.split_whitespace().map(String::from).collect()
}

/// `x`, one space, then `y`.
pub fn space_concat(x: Doc, y: Doc) -> (r: Doc)
    ensures
        r@ == space_joined(x@, y@),
{
    proof {
        reveal_strlit(" ");
        assert(" "@ =~= seq![' ']);
    }
    crate::concat(x, crate::concat(crate::text(" "), y))
}

/// `x`, a line break, then `y`.
pub fn line_concat(x: Doc, y: Doc) -> (r: Doc)
    ensures
        r@ == line_joined(x@, y@),
{
    crate::concat(x, crate::concat(crate::line(), y))
}

/// The documents joined by single spaces, after a leading empty document.
pub fn spread(docs: Vec<Doc>) -> (r: Doc)
    ensures
        r@ == spread_model(views(docs@)),
{
    let mut acc = crate::nil();
    let mut k: usize = 0;
    while k < docs.len()
        invariant
            k <= docs.len(),
            acc@ == spread_model(views(docs@).take(k as int)),
        decreases docs.len() - k,
    {
        acc = space_concat(acc, docs[k].copy());
        proof {
            assert(views(docs@).take(k + 1).drop_last() =~= views(docs@).take(k as int));
        }
        k = k + 1;
    }
    assert(views(docs@).take(k as int) =~= views(docs@));
    acc
}

/// The documents joined by line breaks, after a leading empty document.
pub fn stack(docs: Vec<Doc>) -> (r: Doc)
    ensures
        r@ == stack_model(views(docs@)),
{
    let mut acc = crate::nil();
    let mut k: usize = 0;
    while k < docs.len()
        invariant
            k <= docs.len(),
            acc@ == stack_model(views(docs@).take(k as int)),
        decreases docs.len() - k,
    {
        acc = line_concat(acc, docs[k].copy());
        proof {
            assert(views(docs@).take(k + 1).drop_last() =~= views(docs@).take(k as int));
        }
        k = k + 1;
    }
    assert(views(docs@).take(k as int) =~= views(docs@));
    acc
}

/// `x`, a line break that is a space where it fits, then `y`.
pub fn space_or_line_concat(x: Doc, y: Doc) -> (r: Doc)
    ensures
        r@ == soft_joined(x@, y@),
{
    crate::concat(x, crate::concat(crate::group(Rc::new(crate::line())), y))
}

/// The words as texts, joined by line breaks that are spaces where they fit,
/// after a leading empty document.
pub fn fill_word_list(words: Vec<String>) -> (r: Doc)
    ensures
        r@ == words_model(words@.map_values(|w: String| w@)),
{
    let ghost ws = words@.map_values(|w: String| w@);
    let mut acc = crate::nil();
    let mut k: usize = 0;
    while k < words.len()
        invariant
            k <= words.len(),
            ws == words@.map_values(|w: String| w@),
            acc@ == words_model(ws.take(k as int)),
        decreases words.len() - k,
    {
        acc = space_or_line_concat(acc, crate::text(words[k].as_str()));
        proof {
            assert(ws.take(k + 1).drop_last() =~= ws.take(k as int));
        }
        k = k + 1;
    }
    assert(ws.take(k as int) =~= ws);
    acc
}

/// The whitespace-separated words of `words` filled as `fill_word_list` does.
pub fn fill_words(words: &str) -> (r: Doc)
    ensures
        r@ == words_model(whitespace_words(words@)),
{
    let list = split_words(words);
    proof {
        assert(list@.map_values(|w: String| w@) =~= whitespace_words(words@));
    }
    fill_word_list(list)
}

fn fill_from(head: Doc, docs: &Vec<Doc>, start: usize) -> (r: Doc)
    requires
        start <= docs@.len(),
    ensures
        r@ == fill_model(seq![head@] + views(docs@).subrange(start as int, docs@.len() as int)),
    decreases docs@.len() - start,
{
    let ghost tail = views(docs@).subrange(start as int, docs@.len() as int);
    let ghost s = seq![head@] + tail;
    if start == docs.len() {
        assert(s =~= seq![head@]);
        head
    } else {
        let y = &docs[start];
        let ghost rest = views(docs@).subrange(start + 1, docs@.len() as int);
        proof {
            assert(s[0] == head@);
            assert(s[1] == y@);
            assert(s.subrange(2, s.len() as int) =~= rest);
        }
        let a = fill_from(crate::flatten(y), docs, start + 1);
        let left = space_concat(crate::flatten(&head), a);
        let b = fill_from(y.copy(), docs, start + 1);
        let right = line_concat(head, b);
        Doc::Group(Rc::new(left), Rc::new(right))
    }
}

/// Word-wrap of `docs`: between each two neighbours a choice of one line,
/// with both flattened, or a line break.
pub fn fill(docs: Vec<Doc>) -> (r: Doc)
    ensures
        r@ == fill_model(views(docs@)),
{
    if docs.len() == 0 {
        crate::nil()
    } else {
        let head = docs[0].copy();
        proof {
            assert(seq![head@] + views(docs@).subrange(1, docs@.len() as int) =~= views(docs@));
        }
        fill_from(head, &docs, 1)
    }
}

} // verus!

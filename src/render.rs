use std::rc::Rc;
use vstd::prelude::*;
use vstd::string::StrSliceExecFns;
use crate::{Doc, DocModel};
use crate::layout::{LowDoc, LayoutModel, layout_text};

verus! {

/// The number of nodes in a document.
pub open spec fn doc_size(d: DocModel) -> nat
    decreases d,
{
    match d {
        DocModel::Concat(x, y) => 1 + doc_size(*x) + doc_size(*y),
        DocModel::Nest(_, x) => 1 + doc_size(*x),
        DocModel::Group(f, e) => 1 + doc_size(*f) + doc_size(*e),
        _ => 1,
    }
}

/// The number of document nodes still to be rendered in a work list.
pub open spec fn work_size(ws: Seq<(nat, DocModel)>) -> nat
    decreases ws.len(),
{
    if ws.len() == 0 {
        0
    } else {
        work_size(ws.drop_last()) + doc_size(ws.last().1)
    }
}

pub proof fn lemma_work_size_push(ws: Seq<(nat, DocModel)>, p: (nat, DocModel))
    ensures
        work_size(ws.push(p)) == work_size(ws) + doc_size(p.1),
        doc_size(p.1) >= 1,
{
    assert(ws.push(p).drop_last() =~= ws);
}

/// The largest indentation that the nests of `d` add up to.
pub open spec fn indent_depth(d: DocModel) -> nat
    decreases d,
{
    match d {
        DocModel::Concat(x, y) => vstd::math::max(
            indent_depth(*x) as int,
            indent_depth(*y) as int,
        ) as nat,
        DocModel::Nest(j, x) => j + indent_depth(*x),
        DocModel::Group(f, e) => vstd::math::max(
            indent_depth(*f) as int,
            indent_depth(*e) as int,
        ) as nat,
        _ => 0,
    }
}

/// Whether the current line of layout `l`, begun at column `c`, stays within
/// width `w` up to its next line break or its end.
pub open spec fn fits_line(w: nat, c: nat, l: LayoutModel) -> bool
    decreases l,
{
    if c > w {
        false
    } else {
        match l {
            LayoutModel::Text(s, r) => fits_line(w, c + s.len(), *r),
            _ => true,
        }
    }
}

/// The layout chosen for work list `ws` (next item last) at width `w` and
/// column `c`: each choice takes its flat branch where the rest of the line
/// then fits, and its expanded branch otherwise.
pub open spec fn best_layout(w: nat, c: nat, ws: Seq<(nat, DocModel)>) -> LayoutModel
    decreases work_size(ws),
{
    if ws.len() == 0 {
        LayoutModel::Nil
    } else {
        let i = ws.last().0;
        let rest = ws.drop_last();
        proof {
            assert(rest.push(ws.last()) =~= ws);
            lemma_work_size_push(rest, ws.last());
        }
        match ws.last().1 {
            DocModel::Nil => best_layout(w, c, rest),
            DocModel::Concat(x, y) => {
                proof {
                    lemma_work_size_push(rest, (i, *y));
                    lemma_work_size_push(rest.push((i, *y)), (i, *x));
                }
                best_layout(w, c, rest.push((i, *y)).push((i, *x)))
            },
            DocModel::Nest(j, x) => {
                proof {
                    lemma_work_size_push(rest, (i + j, *x));
                }
                best_layout(w, c, rest.push((i + j, *x)))
            },
            DocModel::Text(s) => LayoutModel::Text(s, Box::new(best_layout(w, c + s.len(), rest))),
            DocModel::Line => LayoutModel::Line(i, Box::new(best_layout(w, i, rest))),
            DocModel::Group(f, e) => {
                proof {
                    lemma_work_size_push(rest, (i, *f));
                    lemma_work_size_push(rest, (i, *e));
                }
                let a = best_layout(w, c, rest.push((i, *f)));
                if fits_line(w, c, a) {
                    a
                } else {
                    best_layout(w, c, rest.push((i, *e)))
                }
            },
        }
    }
}

/// The layout of document `d` at width `w`.
pub open spec fn render(w: nat, d: DocModel) -> LayoutModel {
    best_layout(w, 0, seq![(0nat, d)])
}

/// The text of document `d` rendered at width `w`.
pub open spec fn pretty_text(w: nat, d: DocModel) -> Seq<char> {
    layout_text(render(w, d))
}

/// The model of an executable work list.
pub open spec fn work_view(v: Seq<(usize, Rc<Doc>)>) -> Seq<(nat, DocModel)> {
    v.map_values(|p: (usize, Rc<Doc>)| (p.0 as nat, p.1@))
}

/// Every indentation that a work list can reach fits in a `usize`.
pub open spec fn indents_fit(ws: Seq<(nat, DocModel)>) -> bool {
    forall|k: int| 0 <= k < ws.len() ==> #[trigger] ws[k].0 + indent_depth(ws[k].1) <= usize::MAX
}

/// A column held no further than one past the width: every column beyond the
/// width fails alike.
pub open spec fn clamp(w: nat, c: nat) -> nat {
    if c > w {
        w + 1
    } else {
        c
    }
}

proof fn lemma_fits_clamp(w: nat, c: nat, l: LayoutModel)
    ensures
        fits_line(w, c, l) == fits_line(w, clamp(w, c), l),
{
    reveal_with_fuel(fits_line, 1);
}

fn clamp_column(width: usize, c: u128) -> (r: u128)
    ensures
        r as nat == clamp(width as nat, c as nat),
{
    if c > width as u128 {
        width as u128 + 1
    } else {
        c
    }
}

/// Whether the current line of `x`, begun at column `used`, fits in `width`.
fn fits(width: usize, used: u128, x: &LowDoc) -> (r: bool)
    requires
        used <= width as u128 + 1,
    ensures
        r == fits_line(width as nat, used as nat, x@),
    decreases x,
{
    if used > width as u128 {
        return false;
    }
    match x {
        LowDoc::Text(s, rest) => {
            let n = s.as_str().unicode_len();
            let next = clamp_column(width, used + n as u128);
            proof {
                lemma_fits_clamp(width as nat, used as nat + n as nat, rest@);
            }
            fits(width, next, rest)
        },
        _ => true,
    }
}

/// `x` where its current line fits from column `used`, else `y`.
fn better(width: usize, used: u128, x: LowDoc, y: LowDoc) -> (r: LowDoc)
    requires
        used <= width as u128 + 1,
    ensures
        r@ == if fits_line(width as nat, used as nat, x@) {
            x@
        } else {
            y@
        },
{
    if fits(width, used, &x) {
        x
    } else {
        y
    }
}

fn copy_work(v: &Vec<(usize, Rc<Doc>)>) -> (r: Vec<(usize, Rc<Doc>)>)
    ensures
        work_view(r@) == work_view(v@),
{
    let mut r: Vec<(usize, Rc<Doc>)> = Vec::new();
    let mut k: usize = 0;
    while k < v.len()
        invariant
            k <= v.len(),
            r@.len() == k,
            forall|m: int| 0 <= m < k ==> #[trigger] r@[m].0 == v@[m].0 && r@[m].1@ == v@[m].1@,
        decreases v.len() - k,
    {
        let i = v[k].0;
        let d = Rc::clone(&v[k].1);
        r.push((i, d));
        k = k + 1;
    }
    assert(work_view(r@) =~= work_view(v@));
    r
}

fn best_helper(width: usize, used: u128, options: Vec<(usize, Rc<Doc>)>, Ghost(col): Ghost<nat>) -> (r: LowDoc)
    requires
        used as nat == clamp(width as nat, col),
        indents_fit(work_view(options@)),
    ensures
        r@ == best_layout(width as nat, col, work_view(options@)),
    decreases work_size(work_view(options@)),
{
    let ghost ws = work_view(options@);
    let ghost w = width as nat;
    let mut options = options;
    match options.pop() {
        None => {
            assert(ws.len() == 0);
            LowDoc::Nil
        },
        Some((i, d)) => {
            let ghost rest = ws.drop_last();
            proof {
                assert(work_view(options@) =~= rest);
                assert(ws.last() == (i as nat, d@));
                assert(rest.push(ws.last()) =~= ws);
                lemma_work_size_push(rest, ws.last());
                assert(ws[ws.len() - 1] == ws.last());
            }
            match &*d {
                Doc::Nil => best_helper(width, used, options, Ghost(col)),
                Doc::Concat(x, y) => {
                    options.push((i, Rc::clone(y)));
                    options.push((i, Rc::clone(x)));
                    proof {
                        let ws2 = rest.push((i as nat, y@)).push((i as nat, x@));
                        assert(work_view(options@) =~= ws2);
                        lemma_work_size_push(rest, (i as nat, y@));
                        lemma_work_size_push(rest.push((i as nat, y@)), (i as nat, x@));
                        assert forall|k: int| 0 <= k < ws2.len() implies #[trigger] ws2[k].0 + indent_depth(ws2[k].1) <= usize::MAX by {
                            if k < rest.len() {
                                assert(ws2[k] == ws[k]);
                            }
                        }
                    }
                    best_helper(width, used, options, Ghost(col))
                },
                Doc::Nest(j, x) => {
                    options.push((i + *j, Rc::clone(x)));
                    proof {
                        let ws2 = rest.push(((i + *j) as nat, x@));
                        assert(work_view(options@) =~= ws2);
                        lemma_work_size_push(rest, ((i + *j) as nat, x@));
                        assert forall|k: int| 0 <= k < ws2.len() implies #[trigger] ws2[k].0 + indent_depth(ws2[k].1) <= usize::MAX by {
                            if k < rest.len() {
                                assert(ws2[k] == ws[k]);
                            }
                        }
                    }
                    best_helper(width, used, options, Ghost(col))
                },
                Doc::Text(s) => {
                    let n = s.as_str().unicode_len();
                    let next = clamp_column(width, used + n as u128);
                    let tail = best_helper(width, next, options, Ghost(col + n as nat));
                    LowDoc::Text(s.clone(), Rc::new(tail))
                },
                Doc::Line => {
                    let next = clamp_column(width, i as u128);
                    let tail = best_helper(width, next, options, Ghost(i as nat));
                    LowDoc::Line(i, Rc::new(tail))
                },
                Doc::Group(x, y) => {
                    let mut flat = copy_work(&options);
                    flat.push((i, Rc::clone(x)));
                    options.push((i, Rc::clone(y)));
                    proof {
                        let wa = rest.push((i as nat, x@));
                        let wb = rest.push((i as nat, y@));
                        assert(work_view(flat@) =~= wa);
                        assert(work_view(options@) =~= wb);
                        lemma_work_size_push(rest, (i as nat, x@));
                        lemma_work_size_push(rest, (i as nat, y@));
                        assert forall|k: int| 0 <= k < wa.len() implies #[trigger] wa[k].0 + indent_depth(wa[k].1) <= usize::MAX by {
                            if k < rest.len() {
                                assert(wa[k] == ws[k]);
                            }
                        }
                        assert forall|k: int| 0 <= k < wb.len() implies #[trigger] wb[k].0 + indent_depth(wb[k].1) <= usize::MAX by {
                            if k < rest.len() {
                                assert(wb[k] == ws[k]);
                            }
                        }
                    }
                    let a = best_helper(width, used, flat, Ghost(col));
                    let b = best_helper(width, used, options, Ghost(col));
                    proof {
                        lemma_fits_clamp(w, col, a@);
                    }
                    better(width, used, a, b)
                },
            }
        },
    }
}

/// The layout of `x` at `width`.
fn best(width: usize, x: Doc) -> (r: LowDoc)
    requires
        indent_depth(x@) <= usize::MAX,
    ensures
        r@ == render(width as nat, x@),
{
    let options = vec![(0usize, Rc::new(x))];
    proof {
        assert(work_view(options@) =~= seq![(0nat, x@)]);
    }
    best_helper(width, 0, options, Ghost(0))
}

/// `x` rendered at `width`: at each choice the flat branch is taken where the
/// rest of its line then fits in `width`, the expanded branch otherwise.
pub fn pretty(width: usize, x: Doc) -> (r: String)
    requires
        indent_depth(x@) <= usize::MAX,
    ensures
        r@ == pretty_text(width as nat, x@),
{
    best(width, x).to_string()
}

} // verus!

//! Properties of the renderer, proved over the models.
use vstd::prelude::*;
use crate::{DocModel, flattened, grouped, is_flat, flat_text, lemma_flattened_is_flat};
use crate::layout::{LayoutModel, layout_text};
use crate::render::{best_layout, fits_line, pretty_text, work_size, lemma_work_size_push};

verus! {

/// Rendering is a function of the width and of the document alone: equal
/// documents give equal text at equal widths.
pub proof fn pretty_deterministic(w: nat, d1: DocModel, d2: DocModel)
    requires
        d1 == d2,
    ensures
        pretty_text(w, d1) == pretty_text(w, d2),
{
}

/// Flattening twice is flattening once, so both render the same text at
/// every width.
pub proof fn flatten_idempotent(w: nat, d: DocModel)
    ensures
        flattened(flattened(d)) == flattened(d),
        pretty_text(w, flattened(flattened(d))) == pretty_text(w, flattened(d)),
{
    lemma_flattened_is_flat(d);
}

/// A line that fits at some width and column also fits at any larger width
/// and at any smaller column.
pub proof fn fits_monotone(w: nat, c: nat, l: LayoutModel, w2: nat, c2: nat)
    requires
        fits_line(w, c, l),
        w <= w2,
        c2 <= c,
    ensures
        fits_line(w2, c2, l),
    decreases l,
{
    if let LayoutModel::Text(s, r) = l {
        fits_monotone(w, c + s.len(), *r, w2, c2 + s.len());
    }
}

proof fn lemma_fits_column(w: nat, c: nat, l: LayoutModel)
    requires
        fits_line(w, c, l),
    ensures
        c <= w,
{
}

/// A document with no line break and no choice renders as its one-line text,
/// followed by the rest of the work list from the column it ends at.
proof fn lemma_flat_render(w: nat, c: nat, i: nat, d: DocModel, ws: Seq<(nat, DocModel)>)
    requires
        is_flat(d),
    ensures
        layout_text(best_layout(w, c, ws.push((i, d)))) == flat_text(d) + layout_text(
            best_layout(w, c + flat_text(d).len(), ws),
        ),
        fits_line(w, c, best_layout(w, c, ws.push((i, d)))) == fits_line(
            w,
            c + flat_text(d).len(),
            best_layout(w, c + flat_text(d).len(), ws),
        ),
    decreases d,
{
    let ws1 = ws.push((i, d));
    assert(ws1.drop_last() =~= ws);
    assert(ws1.last() == (i, d));
    lemma_work_size_push(ws, (i, d));
    match d {
        DocModel::Nil => {
            assert(flat_text(d) =~= Seq::<char>::empty());
            assert(layout_text(best_layout(w, c, ws)) =~= Seq::<char>::empty() + layout_text(
                best_layout(w, c, ws),
            ));
        },
        DocModel::Text(s) => {
            let tail = best_layout(w, c + s.len(), ws);
            assert(best_layout(w, c, ws1) == LayoutModel::Text(s, Box::new(tail)));
            if fits_line(w, c + s.len(), tail) {
                lemma_fits_column(w, c + s.len(), tail);
            }
        },
        DocModel::Concat(x, y) => {
            let wy = ws.push((i, *y));
            assert(best_layout(w, c, ws1) == best_layout(w, c, wy.push((i, *x))));
            lemma_flat_render(w, c, i, *x, wy);
            lemma_flat_render(w, c + flat_text(*x).len(), i, *y, ws);
            assert(flat_text(d) == flat_text(*x) + flat_text(*y));
            assert(c + flat_text(d).len() == c + flat_text(*x).len() + flat_text(*y).len());
            assert(layout_text(best_layout(w, c, ws1)) =~= flat_text(d) + layout_text(
                best_layout(w, c + flat_text(d).len(), ws),
            ));
        },
        DocModel::Nest(j, x) => {
            assert(best_layout(w, c, ws1) == best_layout(w, c, ws.push((i + j, *x))));
            lemma_flat_render(w, c, i + j, *x, ws);
        },
        _ => {},
    }
}

/// With a width no smaller than the one-line text of `x`, a group of `x`
/// renders as that one-line text.
pub proof fn wide_group_is_flat(w: nat, x: DocModel)
    requires
        flat_text(x).len() <= w,
    ensures
        pretty_text(w, grouped(x)) == flat_text(flattened(x)),
{
    lemma_flattened_is_flat(x);
    let fx = flattened(x);
    let ws = seq![(0nat, grouped(x))];
    let empty = Seq::<(nat, DocModel)>::empty();
    assert(ws.drop_last() =~= empty);
    lemma_work_size_push(empty, (0nat, grouped(x)));
    assert(empty.push((0nat, grouped(x))) =~= ws);
    lemma_work_size_push(empty, (0nat, fx));
    lemma_work_size_push(empty, (0nat, x));
    lemma_flat_render(w, 0, 0, fx, empty);
    let a = best_layout(w, 0, empty.push((0nat, fx)));
    assert(best_layout(w, flat_text(fx).len(), empty) == LayoutModel::Nil);
    assert(fits_line(w, 0, a));
    assert(flat_text(fx) + Seq::<char>::empty() =~= flat_text(fx));
    assert(best_layout(w, 0, ws) == a);
}

/// Whether some choice at each group before the next line break keeps the
/// current line of work list `ws`, begun at column `c`, within width `w`.
pub open spec fn line_can_fit(w: nat, c: nat, ws: Seq<(nat, DocModel)>) -> bool
    decreases work_size(ws),
{
    if c > w {
        false
    } else if ws.len() == 0 {
        true
    } else {
        let i = ws.last().0;
        let rest = ws.drop_last();
        proof {
            assert(rest.push(ws.last()) =~= ws);
            lemma_work_size_push(rest, ws.last());
        }
        match ws.last().1 {
            DocModel::Nil => line_can_fit(w, c, rest),
            DocModel::Concat(x, y) => {
                proof {
                    lemma_work_size_push(rest, (i, *y));
                    lemma_work_size_push(rest.push((i, *y)), (i, *x));
                }
                line_can_fit(w, c, rest.push((i, *y)).push((i, *x)))
            },
            DocModel::Nest(j, x) => {
                proof {
                    lemma_work_size_push(rest, (i + j, *x));
                }
                line_can_fit(w, c, rest.push((i + j, *x)))
            },
            DocModel::Text(s) => line_can_fit(w, c + s.len(), rest),
            DocModel::Line => true,
            DocModel::Group(f, e) => {
                proof {
                    lemma_work_size_push(rest, (i, *f));
                    lemma_work_size_push(rest, (i, *e));
                }
                line_can_fit(w, c, rest.push((i, *f))) || line_can_fit(w, c, rest.push((i, *e)))
            },
        }
    }
}

/// Where some choice at each group keeps the current line within the width,
/// the line the renderer chooses stays within it too.
pub proof fn best_line_fits(w: nat, c: nat, ws: Seq<(nat, DocModel)>)
    requires
        line_can_fit(w, c, ws),
    ensures
        fits_line(w, c, best_layout(w, c, ws)),
    decreases work_size(ws),
{
    if ws.len() > 0 {
        let i = ws.last().0;
        let rest = ws.drop_last();
        assert(rest.push(ws.last()) =~= ws);
        lemma_work_size_push(rest, ws.last());
        match ws.last().1 {
            DocModel::Nil => best_line_fits(w, c, rest),
            DocModel::Concat(x, y) => {
                lemma_work_size_push(rest, (i, *y));
                lemma_work_size_push(rest.push((i, *y)), (i, *x));
                best_line_fits(w, c, rest.push((i, *y)).push((i, *x)));
            },
            DocModel::Nest(j, x) => {
                lemma_work_size_push(rest, (i + j, *x));
                best_line_fits(w, c, rest.push((i + j, *x)));
            },
            DocModel::Text(s) => best_line_fits(w, c + s.len(), rest),
            DocModel::Line => {},
            DocModel::Group(f, e) => {
                lemma_work_size_push(rest, (i, *f));
                lemma_work_size_push(rest, (i, *e));
                if line_can_fit(w, c, rest.push((i, *f))) {
                    best_line_fits(w, c, rest.push((i, *f)));
                } else {
                    best_line_fits(w, c, rest.push((i, *e)));
                }
            },
        }
    }
}

/// At a group, the expanded branch is chosen exactly when the flat branch's
/// line does not fit; the chosen line fits whenever either branch's does.
pub proof fn group_choice(
    w: nat,
    c: nat,
    ws: Seq<(nat, DocModel)>,
    i: nat,
    f: DocModel,
    e: DocModel,
)
    ensures
        ({
            let a = best_layout(w, c, ws.push((i, f)));
            let b = best_layout(w, c, ws.push((i, e)));
            let r = best_layout(w, c, ws.push((i, DocModel::Group(Box::new(f), Box::new(e)))));
            &&& !fits_line(w, c, a) ==> r == b
            &&& fits_line(w, c, a) ==> r == a
            &&& fits_line(w, c, a) || fits_line(w, c, b) ==> fits_line(w, c, r)
        }),
{
    let g = DocModel::Group(Box::new(f), Box::new(e));
    let ws1 = ws.push((i, g));
    assert(ws1.drop_last() =~= ws);
    assert(ws1.last() == (i, g));
    lemma_work_size_push(ws, (i, g));
    lemma_work_size_push(ws, (i, f));
    lemma_work_size_push(ws, (i, e));
}

} // verus!

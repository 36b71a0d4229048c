use std::rc::Rc;
use vstd::prelude::*;
use vstd::string::StringExecFns;

verus! {

/// A resolved layout: a chain of text pieces and line breaks with no choice
/// left in it.
#[derive(Debug, Clone)]
pub enum LowDoc {
    Nil,
    Text(String, Rc<LowDoc>),
    Line(usize, Rc<LowDoc>),
}

/// The mathematical model of a layout.
pub enum LayoutModel {
    Nil,
    Text(Seq<char>, Box<LayoutModel>),
    Line(nat, Box<LayoutModel>),
}

impl View for LowDoc {
    type V = LayoutModel;

    open spec fn view(&self) -> LayoutModel
        decreases self,
    {
        match self {
            LowDoc::Nil => LayoutModel::Nil,
            LowDoc::Text(s, r) => LayoutModel::Text(s@, Box::new((**r).view())),
            LowDoc::Line(i, r) => LayoutModel::Line(*i as nat, Box::new((**r).view())),
        }
    }
}

/// `n` space characters.
pub open spec fn spaces(n: nat) -> Seq<char> {
    Seq::new(n, |k: int| ' ')
}

/// The text of a layout: a line break is one line terminator followed by its
/// indentation in spaces.
pub open spec fn layout_text(l: LayoutModel) -> Seq<char>
    decreases l,
{
    match l {
        LayoutModel::Nil => Seq::empty(),
        LayoutModel::Text(s, r) => s + layout_text(*r),
        LayoutModel::Line(i, r) => seq!['\n'] + spaces(i) + layout_text(*r),
    }
}

impl LowDoc {
    /// The text of this layout.
    pub fn to_string(&self) -> (r: String)
        ensures
            r@ == layout_text(self@),
    {
        let mut out = String::new();
        self.write_to(&mut out);
        proof {
            assert(out@ =~= Seq::<char>::empty() + layout_text(self@));
        }
        out
    }

    fn write_to(&self, out: &mut String)
        ensures
            final(out)@ == old(out)@ + layout_text(self@),
        decreases self,
    {
        match self {
            LowDoc::Nil => {
                assert(out@ =~= out@ + Seq::<char>::empty());
            },
            LowDoc::Text(s, r) => {
                out.append(s.as_str());
                r.write_to(out);
                assert(out@ =~= old(out)@ + layout_text(self@));
            },
            LowDoc::Line(i, r) => {
                proof {
                    reveal_strlit("\n");
                    reveal_strlit(" ");
                    assert("\n"@ =~= seq!['\n']);
                    assert(" "@ =~= seq![' ']);
                }
                out.append("\n");
                let ghost start = out@;
                let mut k: usize = 0;
                while k < *i
                    invariant
                        k <= *i,
                        out@ == start + spaces(k as nat),
                        " "@ == seq![' '],
                    decreases *i - k,
                {
                    out.append(" ");
                    k = k + 1;
                    assert(out@ =~= start + spaces(k as nat));
                }
                r.write_to(out);
                assert(out@ =~= old(out)@ + layout_text(self@));
            },
        }
    }
}

} // verus!

use vstd::prelude::*;
use vstd::string::StringExecFns;

verus! {

/// One step of writing text onto the screen's grid of letter tiles. A text
/// is written from a cursor; each character moves it one tile right.
#[derive(Clone, Debug, PartialEq, Eq)]
pub enum GridOp {
    /// Puts the cursor at column `x`, row `y`.
    Start { x: u8, y: u8 },
    /// Puts the cursor at column `x` of its row.
    SetX { x: u8 },
    /// Moves the cursor down `dy` rows.
    MoveY { dy: u8 },
    /// Writes `text` in small letters.
    Write { text: String },
    /// Writes `text` in big letters, two tiles tall.
    WriteBig { text: String },
}

/// A `GridOp` with its text as a sequence of characters.
pub enum GridOpView {
    Start { x: u8, y: u8 },
    SetX { x: u8 },
    MoveY { dy: u8 },
    Write { text: Seq<char> },
    WriteBig { text: Seq<char> },
}

impl View for GridOp {
    type V = GridOpView;

    open spec fn view(&self) -> GridOpView {
        match self {
            GridOp::Start { x, y } => GridOpView::Start { x: *x, y: *y },
            GridOp::SetX { x } => GridOpView::SetX { x: *x },
            GridOp::MoveY { dy } => GridOpView::MoveY { dy: *dy },
            GridOp::Write { text } => GridOpView::Write { text: text@ },
            GridOp::WriteBig { text } => GridOpView::WriteBig { text: text@ },
        }
    }
}

/// The steps of a list of `GridOp`, texts as characters.
pub open spec fn ops_view(ops: Seq<GridOp>) -> Seq<GridOpView> {
    ops.map_values(|o: GridOp| o@)
}

/// Writing `text` in small letters.
pub open spec fn write_view(text: Seq<char>) -> GridOpView {
    GridOpView::Write { text }
}

/// Appends a step to a list of steps.
pub fn push_op(ops: &mut Vec<GridOp>, op: GridOp)
    ensures
        ops_view(final(ops)@) == ops_view(old(ops)@).push(op@),
{
    let ghost before = ops@;
    ops.push(op);
    assert(ops_view(ops@) =~= ops_view(before).push(op@));
}

/// The step that writes `text` in small letters.
pub fn write_op(text: &str) -> (r: GridOp)
    ensures
        r@ == write_view(text@),
{
    GridOp::Write { text: String::from_str(text) }
}

/// The step that writes `text` in small letters if `cond` holds, and the
/// empty text otherwise.
pub fn write_if(cond: bool, text: &str) -> (r: GridOp)
    ensures
        r@ == write_view(if cond { text@ } else { ""@ }),
{
    if cond { write_op(text) } else { write_op("") }
}

/// The step that writes `text` in big letters.
pub fn write_big_op(text: &str) -> (r: GridOp)
    ensures
        r@ == (GridOpView::WriteBig { text: text@ }),
{
    GridOp::WriteBig { text: String::from_str(text) }
}

} // verus!

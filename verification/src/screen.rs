//! The screen's split into the display pane and the input pane, and the
//! room inside each pane's border.

use vstd::prelude::*;

verus! {

/// A rectangle on the terminal: column, row, width, height.
pub type Area = (u16, u16, u16, u16);

/// The row just below an area, as tui computes it (saturating at the
/// largest row).
pub open spec fn bottom_of(area: Area) -> int {
    if area.1 + area.3 > u16::MAX {
        u16::MAX as int
    } else {
        area.1 + area.3
    }
}

/// Whether `chunks` is one of the results that tui's vertical
/// `Layout::split` of `area` by these percentage constraints can give. It
/// names the set of possible results, not a result: tui's solver walks maps
/// that each process seeds, so two calls may pick different members.
pub uninterp spec fn tui_split_allows(area: Area, percentages: Seq<u16>, chunks: Seq<Area>) -> bool;

/// Calls tui's `Layout::split` with vertical direction and one
/// `Constraint::Percentage` per entry of `percentages`. The contract states
/// that the result is one that tui allows for these arguments, that there
/// is one rectangle per constraint, and that the last one ends on the
/// area's bottom edge (tui sets its height to make it so). Which rectangles
/// the solver picks is not stated. tui multiplies each percentage by the
/// height in 16 bits, and its solver requires every rectangle to fit in the
/// width, so both are bounded.
#[verifier::external_body]
fn split_vertical(area: Area, percentages: &[u16]) -> (chunks: Vec<Area>)
    requires
        area.0 + area.2 <= u16::MAX,
        forall|i: int| 0 <= i < percentages@.len() ==> percentages@[i] * area.3 <= u16::MAX,
    ensures
        tui_split_allows(area, percentages@, chunks@),
        chunks@.len() == percentages@.len(),
        chunks@.len() > 0 ==> chunks@.last().1 + chunks@.last().3 == bottom_of(area),
{
    let rect = tui::layout::Rect { x: area.0, y: area.1, width: area.2, height: area.3 };
    let constraints: Vec<tui::layout::Constraint> = percentages.iter().map(
        |p| tui::layout::Constraint::Percentage(*p),
    ).collect();
    let layout = tui::layout::Layout::default().direction(
        tui::layout::Direction::Vertical,
    ).constraints(constraints);
    layout.split(rect).into_iter().map(|r| (r.x, r.y, r.width, r.height)).collect()
}

/// The two panes and the room inside their borders.
#[derive(Clone, Copy, Debug, PartialEq, Eq)]
pub struct ScreenLayout {
    /// Where the received lines are shown.
    pub display: Area,
    /// Where the line being typed is shown.
    pub input: Area,
    /// Columns inside the display pane's border.
    pub pane_width: u16,
    /// Rows inside the display pane's border.
    pub pane_height: u16,
    /// Columns inside the input pane's border.
    pub input_width: u16,
}

/// A length less its two border cells, never below zero.
pub open spec fn inside_border(n: u16) -> u16 {
    if n < 2 {
        0
    } else {
        (n - 2) as u16
    }
}

pub open spec fn layout_of(display: Area, input: Area) -> ScreenLayout {
    ScreenLayout {
        display,
        input,
        pane_width: inside_border(display.2),
        pane_height: inside_border(display.3),
        input_width: inside_border(input.2),
    }
}

/// The shares of the screen's height: nine tenths for the display pane
/// above one tenth for the input pane.
pub open spec fn pane_shares() -> Seq<u16> {
    seq![90u16, 10u16]
}

/// The layout for a given pair of panes.
pub fn layout_from_panes(display: Area, input: Area) -> (l: ScreenLayout)
    ensures
        l == layout_of(display, input),
{
    ScreenLayout {
        display,
        input,
        pane_width: display.2.saturating_sub(2),
        pane_height: display.3.saturating_sub(2),
        input_width: input.2.saturating_sub(2),
    }
}

/// The screen split by `pane_shares` into the display pane above the input
/// pane. The input pane reaches the screen's bottom edge.
pub fn screen_layout(area: Area) -> (l: ScreenLayout)
    requires
        area.0 + area.2 <= u16::MAX,
        area.3 <= 728,
    ensures
        tui_split_allows(area, pane_shares(), seq![l.display, l.input]),
        l == layout_of(l.display, l.input),
        l.input.1 + l.input.3 == bottom_of(area),
{
    let shares: [u16; 2] = [90, 10];
    assert(shares@ =~= pane_shares());
    assert(90 * area.3 <= u16::MAX && 10 * area.3 <= u16::MAX) by (nonlinear_arith)
        requires
            area.3 <= 728,
    ;
    assert forall|i: int| 0 <= i < shares@.len() implies shares@[i] * area.3 <= u16::MAX by {
        if i == 0 {
            assert(shares@[0] == 90);
        } else {
            assert(shares@[1] == 10);
        }
    }
    let chunks = split_vertical(area, &shares);
    assert(chunks@ =~= seq![chunks@[0], chunks@[1]]);
    layout_from_panes(chunks[0], chunks[1])
}

} // verus!

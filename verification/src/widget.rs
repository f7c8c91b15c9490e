//! The table cell of the `tui` widget library, as far as a column needs it.
//!
//! A `tui` cell keeps its content to itself: once made, its text cannot be
//! read back. It is carried through as an opaque value; the cell that `tui`
//! makes from a text is given a name here, and the function below is believed
//! to return what that name says.

use std::borrow::Cow;
use vstd::prelude::*;

verus! {

#[verifier::external_type_specification]
#[verifier::external_body]
pub struct ExTableCell<'a>(tui::widgets::Cell<'a>);

/// The table cell that shows `content`: what `tui::widgets::Cell::from`
/// returns for a text that reads `content`.
pub uninterp spec fn table_cell(content: Seq<char>) -> tui::widgets::Cell<'static>;

/// Calls `tui::widgets::Cell::from` on `content`. Believed: the cell that
/// comes back is a function of the text alone, named `table_cell`. The `tui`
/// source builds it from the lines of the text and the default style, and
/// reads nothing else.
#[verifier::external_body]
pub(crate) fn table_cell_from<'a>(content: Cow<'a, str>) -> (cell: tui::widgets::Cell<'a>)
    ensures
        cell == table_cell(content@),
{
    tui::widgets::Cell::from(content)
}

} // verus!

//! Columns: what an item displays, sorts by and filters by under one name.

use std::borrow::Cow;
use std::marker::PhantomData;
use std::path::PathBuf;
use vstd::prelude::*;
use crate::path::{path_below, path_text, strip_prefix, to_string_lossy};
use crate::widget::{table_cell, table_cell_from};

verus! {

/// What a column displays for one item.
#[derive(Debug, PartialEq, Eq)]
pub struct TextCell<'a> {
    /// The text on display.
    pub content: Cow<'a, str>,
}

impl<'a> View for TextCell<'a> {
    type V = Seq<char>;

    open spec fn view(&self) -> Seq<char> {
        self.content@
    }
}

impl<'a> TextCell<'a> {
    /// The table cell that draws this cell.
    pub fn into_widget(self) -> (widget: tui::widgets::Cell<'a>)
        ensures
            widget == table_cell(self@),
    {
        table_cell_from(self.content)
    }
}

/// A named projection from an item to the text it displays, sorts by and
/// filters by.
///
/// A column is described by its name and by the text it displays for each
/// item. An implementation states both; one that states nothing leaves them
/// unspecified.
pub trait Column {
    /// What the column's rows are made from.
    type Item;

    /// The column's name. Queries address the column by it.
    open spec fn name_text(&self) -> Seq<char> {
        arbitrary()
    }

    /// The text that the column displays for `item`.
    open spec fn display(&self, item: &Self::Item) -> Seq<char> {
        arbitrary()
    }

    /// Whether the column brings a sort text of its own, in place of the
    /// text it displays.
    open spec fn own_sort_text(&self) -> bool {
        false
    }

    /// Whether the column brings a filter text of its own, in place of the
    /// text it displays.
    open spec fn own_filter_text(&self) -> bool {
        false
    }

    /// The column's name.
    fn name(&self) -> (name: &str)
        ensures
            name@ == self.name_text(),
    ;

    /// The cell that displays `item` in this column.
    fn format<'a>(&self, item: &'a Self::Item) -> (cell: TextCell<'a>)
        ensures
            cell@ == self.display(item),
    ;

    /// The text by which `item` is sorted in this column: the text on
    /// display, unless the column brings its own.
    fn sort_text<'a>(&self, item: &'a Self::Item) -> (text: Cow<'a, str>)
        ensures
            !self.own_sort_text() ==> text@ == self.display(item),
    {
        self.format(item).content
    }

    /// The text by which `item` is filtered in this column: the text on
    /// display, unless the column brings its own.
    fn filter_text<'a>(&self, item: &'a Self::Item) -> (text: Cow<'a, str>)
        ensures
            !self.own_filter_text() ==> text@ == self.display(item),
    {
        self.format(item).content
    }
}

/// Whether `format_fn` is a formatting function: it takes every item, and
/// the text it gives for an item is always the same.
pub open spec fn is_formatter<I, F: for<'a> Fn(&'a I) -> TextCell<'a>>(format_fn: F) -> bool {
    &&& forall|item: &I| call_requires(format_fn, (item,))
    &&& forall|item: &I, one: TextCell, other: TextCell|
        call_ensures(format_fn, (item,), one) && call_ensures(format_fn, (item,), other) ==> one@
            == other@
}

/// A column that displays what a formatting function makes of an item.
pub struct SimpleColumn<I, F: for<'a> Fn(&'a I) -> TextCell<'a>> {
    name: &'static str,
    format_fn: F,
    item: PhantomData<I>,
}

impl<I, F: for<'a> Fn(&'a I) -> TextCell<'a>> SimpleColumn<I, F> {
    #[verifier::type_invariant]
    spec fn formats(&self) -> bool {
        is_formatter::<I, F>(self.format_fn)
    }

    /// The formatting function that the column was made with.
    pub closed spec fn formatter(&self) -> F {
        self.format_fn
    }

    /// The column named `name` that displays items as `format_fn` does.
    pub fn new(name: &'static str, format_fn: F) -> (column: Self)
        requires
            is_formatter::<I, F>(format_fn),
        ensures
            column.name_text() == name@,
            column.formatter() == format_fn,
            !column.own_sort_text(),
            !column.own_filter_text(),
            forall|item: &I, cell: TextCell| #[trigger]
                call_ensures(format_fn, (item,), cell) ==> column.display(item) == cell@,
    {
        SimpleColumn { name, format_fn, item: PhantomData }
    }
}

impl<I, F: for<'a> Fn(&'a I) -> TextCell<'a>> Column for SimpleColumn<I, F> {
    type Item = I;

    closed spec fn name_text(&self) -> Seq<char> {
        self.name@
    }

    open spec fn display(&self, item: &I) -> Seq<char> {
        (choose|cell: TextCell| call_ensures(self.formatter(), (item,), cell))@
    }

    fn name(&self) -> (name: &str) {
        self.name
    }

    fn format<'a>(&self, item: &'a I) -> (cell: TextCell<'a>)
        ensures
            call_ensures(self.formatter(), (item,), cell),
    {
        proof {
            use_type_invariant(self);
        }
        (self.format_fn)(item)
    }
}

/// A column of file system paths, displayed relative to a root.
pub struct PathColumn {
    /// Root prefix to strip.
    prefix: PathBuf,
}

impl PathColumn {
    /// The root that the column strips from the paths it displays.
    pub closed spec fn prefix(&self) -> PathBuf {
        self.prefix
    }

    /// The path column that strips `prefix`.
    pub fn new(prefix: PathBuf) -> (column: PathColumn)
        ensures
            column.prefix() == prefix,
    {
        PathColumn { prefix }
    }
}

impl Column for PathColumn {
    type Item = PathBuf;

    open spec fn name_text(&self) -> Seq<char> {
        "path"@
    }

    open spec fn display(&self, item: &PathBuf) -> Seq<char> {
        match path_below(*item, self.prefix()) {
            Some(rest) => path_text(rest),
            None => path_text(*item),
        }
    }

    fn name(&self) -> (name: &str) {
        "path"
    }

    fn format<'a>(&self, item: &'a PathBuf) -> (cell: TextCell<'a>) {
        match strip_prefix(item, &self.prefix) {
            Some(rest) => TextCell { content: Cow::Owned(owned(to_string_lossy(&rest))) },
            None => TextCell { content: to_string_lossy(item) },
        }
    }
}

/// `text` as a string of its own.
fn owned(text: Cow<'_, str>) -> (copy: String)
    ensures
        copy@ == text@,
{
    match text {
        Cow::Borrowed(text) => text.to_owned(),
        Cow::Owned(text) => text,
    }
}

} // verus!

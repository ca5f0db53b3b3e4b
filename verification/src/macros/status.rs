//! The `status` macro: a label, rendered as its plain text.
use crate::macros::{find_parameter_text, first_parameter_text};
use crate::node::{Node, NodeView};
use crate::printer::{append_str, printer_text};
use html2md::StructuredPrinter;
use vstd::prelude::*;
use vstd::string::*;

verus! {

/// What a status macro renders to: its title, and nothing where it has none.
pub open spec fn status_text(tag: NodeView) -> Seq<char> {
    match first_parameter_text(tag.children, "title"@) {
        Some(title) => title,
        None => Seq::empty(),
    }
}

/// Renders a `status` macro.
pub struct StatusMacroHandler;

impl StatusMacroHandler {
    pub fn new() -> Self {
        Self {  }
    }

    /// Prints the title of the status as it is.
    pub fn handle(&mut self, tag: &Node, printer: &mut StructuredPrinter)
        ensures
            printer_text(*final(printer)) == printer_text(*old(printer)) + status_text(tag@),
    {
        match find_parameter_text(tag, "title") {
            Some(title) => {
                append_str(printer, title.as_str());
            },
            None => {
                assert(printer_text(*printer) =~= printer_text(*printer) + Seq::<char>::empty());
            },
        }
    }

    /// Nothing is left to do when the macro is left.
    pub fn after_handle(&mut self, printer: &mut StructuredPrinter)
        ensures
            *final(printer) == *old(printer),
    {
    }

    /// The children of a status macro are left to the walk.
    pub fn skip_descendants(&self) -> (skip: bool)
        ensures
            !skip,
    {
        false
    }
}

} // verus!

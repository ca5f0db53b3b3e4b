//! The `expand` macro: a collapsible section around the rendered body.
use crate::macros::{find_parameter_text, first_parameter_text};
use crate::node::Node;
use crate::printer::{append_str, insert_newline, printed_len, printer_bytes, printer_text};
use html2md::StructuredPrinter;
use vstd::prelude::*;
use vstd::string::*;

verus! {

/// The summary of a section that has no title.
pub const DEFAULT_TITLE: &'static str = "Click here to expand...";

/// What opens a collapsible section: a line break, the opening marker with the
/// visible summary, and a blank line before the body.
pub open spec fn expand_opening(title: Option<Seq<char>>) -> Seq<char> {
    seq!['\n'] + "<details><summary>"@ + match title {
        Some(title) => title,
        None => DEFAULT_TITLE@,
    } + "</summary>"@ + seq!['\n', '\n']
}

/// What closes a collapsible section: the closing marker and a blank line.
pub open spec fn expand_closing() -> Seq<char> {
    "</details>"@ + seq!['\n', '\n']
}

/// A section handler between enter and exit: the offset at which the section
/// starts, and its title.
pub struct ExpandState {
    pub start: nat,
    pub title: Option<Seq<char>>,
}

/// Renders an `expand` macro. The macro's body is rendered by the walk between
/// [`ExpandMacroHandler::handle`] and [`ExpandMacroHandler::after_handle`].
pub struct ExpandMacroHandler {
    start_pos: usize,
    title: Option<String>,
}

impl View for ExpandMacroHandler {
    type V = ExpandState;

    closed spec fn view(&self) -> ExpandState {
        ExpandState {
            start: self.start_pos as nat,
            title: match self.title {
                Some(title) => Some(title@),
                None => None,
            },
        }
    }
}

impl ExpandMacroHandler {
    pub fn new() -> (handler: Self)
        ensures
            handler@ == (ExpandState { start: 0, title: None }),
    {
        Self { start_pos: 0, title: None }
    }

    /// Enters an `expand` macro: notes where it starts and its title, and
    /// prints what opens the section.
    pub fn handle(&mut self, tag: &Node, printer: &mut StructuredPrinter)
        ensures
            final(self)@ == (ExpandState {
                start: printer_bytes(*old(printer)).len(),
                title: first_parameter_text(tag@.children, "title"@),
            }),
            printer_text(*final(printer)) == printer_text(*old(printer)) + expand_opening(
                first_parameter_text(tag@.children, "title"@),
            ),
    {
        self.start_pos = printed_len(printer);
        self.title = find_parameter_text(tag, "title");
        let mut opening = "<details><summary>".to_owned();
        match &self.title {
            Some(title) => opening.append(title.as_str()),
            None => opening.append(DEFAULT_TITLE),
        }
        opening.append("</summary>");
        insert_newline(printer);
        append_str(printer, opening.as_str());
        insert_newline(printer);
        insert_newline(printer);
        assert(printer_text(*printer) =~= printer_text(*old(printer)) + expand_opening(
            first_parameter_text(tag@.children, "title"@),
        ));
    }

    /// Leaves an `expand` macro: prints what closes the section.
    pub fn after_handle(&mut self, printer: &mut StructuredPrinter)
        ensures
            printer_text(*final(printer)) == printer_text(*old(printer)) + expand_closing(),
            *final(self) == *old(self),
    {
        append_str(printer, "</details>");
        insert_newline(printer);
        insert_newline(printer);
        assert(printer_text(*printer) =~= printer_text(*old(printer)) + expand_closing());
    }

    /// The body of a section is rendered by the walk.
    pub fn skip_descendants(&self) -> (skip: bool)
        ensures
            !skip,
    {
        false
    }
}

} // verus!

//! The handler of an element, whatever its kind: the closed set of handlers
//! that this library has, entered and left through one interface.
use crate::dummy::RecursiveDummyHandler;
use crate::emoticon::{emoticon_markup, EmoticonHandler};
use crate::image::{image_markup, ImageHandler};
use crate::link::{linked, LinkHandler, LinkState};
use crate::macros::{
    macro_closing, macro_opening, macro_owns_descendants, macro_selection, MacroSelection,
    MacroState, StructuredMacroHandler,
};
use crate::node::{Node, NodeView};
use crate::printer::{printer_bytes, printer_text};
use html2md::StructuredPrinter;
use vstd::prelude::*;
use vstd::utf8::*;

verus! {

/// The handler of one element, of one of the kinds that this library has.
pub enum ConfluenceHandler {
    Dummy(RecursiveDummyHandler),
    Emoticon(EmoticonHandler),
    Image(ImageHandler),
    Link(LinkHandler),
    StructuredMacro(StructuredMacroHandler),
}

/// Of which kind a handler is, and what it holds.
pub enum ConfluenceHandlerView {
    Dummy,
    Emoticon,
    Image(Option<(Seq<char>, nat)>),
    Link(LinkState),
    StructuredMacro(MacroState),
}

impl View for ConfluenceHandler {
    type V = ConfluenceHandlerView;

    open spec fn view(&self) -> ConfluenceHandlerView {
        match self {
            ConfluenceHandler::Dummy(_) => ConfluenceHandlerView::Dummy,
            ConfluenceHandler::Emoticon(_) => ConfluenceHandlerView::Emoticon,
            ConfluenceHandler::Image(handler) => ConfluenceHandlerView::Image(handler@),
            ConfluenceHandler::Link(handler) => ConfluenceHandlerView::Link(handler@),
            ConfluenceHandler::StructuredMacro(handler) => ConfluenceHandlerView::StructuredMacro(
                handler@,
            ),
        }
    }
}

impl ConfluenceHandlerView {
    /// The handler after it was entered at the element `tag` with `start`
    /// bytes printed.
    pub open spec fn entered(self, tag: NodeView, start: nat) -> ConfluenceHandlerView {
        match self {
            ConfluenceHandlerView::Link(state) => ConfluenceHandlerView::Link(
                LinkState {
                    start,
                    url: Some(state.builder.link_target(tag)),
                    builder: state.builder,
                },
            ),
            ConfluenceHandlerView::StructuredMacro(state) => ConfluenceHandlerView::StructuredMacro(
                MacroState {
                    selected: macro_selection(state.servers, tag, start),
                    servers: state.servers,
                },
            ),
            _ => self,
        }
    }

    /// What entering the element `tag` prints.
    pub open spec fn opening(self, tag: NodeView) -> Seq<char> {
        match self {
            ConfluenceHandlerView::Emoticon => emoticon_markup(tag),
            ConfluenceHandlerView::Image(page) => image_markup(page, tag),
            ConfluenceHandlerView::StructuredMacro(state) => macro_opening(state.servers, tag),
            _ => Seq::empty(),
        }
    }

    /// Whether the handler can be left with the text `bytes` printed: a link
    /// must have been entered, and the offset that a link or an alert noted
    /// must still fall between two characters.
    pub open spec fn can_leave(self, bytes: Seq<u8>) -> bool {
        match self {
            ConfluenceHandlerView::Link(state) => state.url is Some && is_char_boundary(
                bytes,
                state.start as int,
            ),
            ConfluenceHandlerView::StructuredMacro(state) => state.selected matches Some(
                MacroSelection::Alert(alert),
            ) ==> is_char_boundary(bytes, alert.start as int + 1),
            _ => true,
        }
    }

    /// The text after the handler was left, where `bytes` is the text before.
    pub open spec fn closing(self, bytes: Seq<u8>) -> Seq<u8> {
        match self {
            ConfluenceHandlerView::Link(state) => linked(
                bytes,
                state.start as int,
                encode_utf8(state.url->0),
            ),
            ConfluenceHandlerView::StructuredMacro(state) => macro_closing(state.selected, bytes),
            _ => bytes,
        }
    }

    /// Whether the walk stays out of the element's children.
    pub open spec fn owns_descendants(self) -> bool {
        match self {
            ConfluenceHandlerView::Dummy => true,
            ConfluenceHandlerView::Emoticon => true,
            ConfluenceHandlerView::Image(_) => true,
            ConfluenceHandlerView::Link(_) => false,
            ConfluenceHandlerView::StructuredMacro(state) => macro_owns_descendants(
                state.selected,
            ),
        }
    }
}

impl ConfluenceHandler {
    /// Enters the element `tag`.
    pub fn handle(&mut self, tag: &Node, printer: &mut StructuredPrinter)
        ensures
            final(self)@ == old(self)@.entered(tag@, printer_bytes(*old(printer)).len()),
            printer_text(*final(printer)) == printer_text(*old(printer)) + old(self)@.opening(
                tag@,
            ),
    {
        let ghost nothing = Seq::<char>::empty();
        assert(printer_text(*printer) + nothing =~= printer_text(*printer));
        match self {
            ConfluenceHandler::Dummy(handler) => handler.handle(tag, printer),
            ConfluenceHandler::Emoticon(handler) => handler.handle(tag, printer),
            ConfluenceHandler::Image(handler) => handler.handle(tag, printer),
            ConfluenceHandler::Link(handler) => handler.handle(tag, printer),
            ConfluenceHandler::StructuredMacro(handler) => handler.handle(tag, printer),
        }
    }

    /// Leaves the element that was entered.
    pub fn after_handle(&mut self, printer: &mut StructuredPrinter)
        requires
            old(self)@.can_leave(printer_bytes(*old(printer))),
        ensures
            printer_bytes(*final(printer)) == old(self)@.closing(printer_bytes(*old(printer))),
            final(self)@ == old(self)@,
    {
        match self {
            ConfluenceHandler::Dummy(handler) => handler.after_handle(printer),
            ConfluenceHandler::Emoticon(handler) => handler.after_handle(printer),
            ConfluenceHandler::Image(handler) => handler.after_handle(printer),
            ConfluenceHandler::Link(handler) => handler.after_handle(printer),
            ConfluenceHandler::StructuredMacro(handler) => handler.after_handle(printer),
        }
    }

    /// Tells whether the handler can be left with what `printer` holds.
    pub fn can_leave(&self, printer: &StructuredPrinter) -> (ready: bool)
        ensures
            ready == self@.can_leave(printer_bytes(*printer)),
    {
        match self {
            ConfluenceHandler::Link(handler) => handler.can_leave(printer),
            ConfluenceHandler::StructuredMacro(handler) => handler.can_leave(printer),
            _ => true,
        }
    }

    /// Tells whether the walk stays out of the element's children.
    pub fn skip_descendants(&self) -> (skip: bool)
        ensures
            skip == self@.owns_descendants(),
    {
        match self {
            ConfluenceHandler::Dummy(handler) => handler.skip_descendants(),
            ConfluenceHandler::Emoticon(handler) => handler.skip_descendants(),
            ConfluenceHandler::Image(handler) => handler.skip_descendants(),
            ConfluenceHandler::Link(handler) => handler.skip_descendants(),
            ConfluenceHandler::StructuredMacro(handler) => handler.skip_descendants(),
        }
    }
}

} // verus!

//! The handler for elements that must leave no trace: macro parameters, whose
//! text the macro handlers read themselves.
use crate::node::Node;
use html2md::StructuredPrinter;
use vstd::prelude::*;

verus! {

/// Prints nothing and keeps the walk out of the element's children.
pub struct RecursiveDummyHandler;

impl RecursiveDummyHandler {
    pub fn handle(&mut self, tag: &Node, printer: &mut StructuredPrinter)
        ensures
            *final(printer) == *old(printer),
    {
    }

    pub fn after_handle(&mut self, printer: &mut StructuredPrinter)
        ensures
            *final(printer) == *old(printer),
    {
    }

    pub fn skip_descendants(&self) -> (skip: bool)
        ensures
            skip,
    {
        true
    }
}

/// Makes a [`RecursiveDummyHandler`] for every element.
pub struct RecursiveDummyHandlerFactory;

impl RecursiveDummyHandlerFactory {
    pub fn instantiate(&self) -> RecursiveDummyHandler {
        RecursiveDummyHandler {  }
    }
}

} // verus!

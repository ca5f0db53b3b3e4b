//! Macro elements: the dispatcher that picks a handler by the macro's name,
//! and the reading of macro parameters that the handlers share.
//!
//! A macro whose name is not known is given no handler. It prints nothing,
//! and the walk stays out of its children, so that nothing of it shows up in
//! the output.
pub mod expand;
pub mod info;
pub mod jira;
pub mod quote;
pub mod status;

use crate::macros::expand::{expand_closing, expand_opening, ExpandMacroHandler, ExpandState};
use crate::macros::info::{alerted, highlight_type_of, AlertState, HighlightType, InfoMacroHandler};
use crate::macros::jira::{issue_reference, JiraMacroHandler};
use crate::macros::status::{status_text, StatusMacroHandler};
use crate::node::{get_tag_attr, Node, NodeView};
use crate::printer::{printer_bytes, printer_text};
use crate::encoding::lemma_encode_concat;
use crate::text::str_eq;
use crate::util::{get_text_content, text_content, JiraServerMap};
use html2md::StructuredPrinter;
use std::str::FromStr;
use vstd::prelude::*;
use vstd::string::*;
use vstd::utf8::*;

verus! {

/// Whether `child` is the parameter element called `name`.
pub open spec fn is_parameter(child: NodeView, name: Seq<char>) -> bool {
    child.is_element("ac:parameter"@) && child.attr("ac:name"@) == Some(name)
}

/// The text of the first parameter called `name` that has any text.
pub open spec fn first_parameter_text(children: Seq<NodeView>, name: Seq<char>) -> Option<
    Seq<char>,
>
    decreases children.len(),
{
    if children.len() == 0 {
        None
    } else if is_parameter(children[0], name) && text_content(children[0]).len() > 0 {
        Some(text_content(children[0]))
    } else {
        first_parameter_text(children.drop_first(), name)
    }
}

/// The text of the last parameter called `name`, which may be empty.
pub open spec fn last_parameter_text(children: Seq<NodeView>, name: Seq<char>) -> Option<
    Seq<char>,
>
    decreases children.len(),
{
    if children.len() == 0 {
        None
    } else if is_parameter(children.last(), name) {
        Some(text_content(children.last()))
    } else {
        last_parameter_text(children.drop_last(), name)
    }
}

/// Tells whether `child` is the parameter element called `name`.
pub fn is_parameter_named(child: &Node, name: &str) -> (r: bool)
    ensures
        r == is_parameter(child@, name@),
{
    if child.has_tag_name("ac:parameter") {
        match get_tag_attr(child, "ac:name") {
            Some(value) => str_eq(value.as_str(), name),
            None => false,
        }
    } else {
        false
    }
}

/// Reads a parameter of a macro element that only counts where it has text:
/// the text of the first child parameter called `name` whose text is not
/// empty.
pub fn find_parameter_text(tag: &Node, name: &str) -> (text: Option<String>)
    ensures
        match text {
            Some(t) => first_parameter_text(tag@.children, name@) == Some(t@),
            None => first_parameter_text(tag@.children, name@) is None,
        },
{
    let mut i: usize = 0;
    proof {
        tag.lemma_children();
    }
    assert(tag@.children.skip(0) =~= tag@.children);
    while i < tag.children.len()
        invariant
            i <= tag.children.len(),
            tag@.children.len() == tag.children@.len(),
            first_parameter_text(tag@.children, name@) == first_parameter_text(
                tag@.children.skip(i as int),
                name@,
            ),
        decreases tag.children.len() - i,
    {
        proof {
            tag.lemma_children();
        }
        assert(tag@.children.skip(i as int)[0] == tag.children@[i as int]@);
        assert(tag@.children.skip(i as int).drop_first() == tag@.children.skip(i as int + 1));
        if is_parameter_named(&tag.children[i], name) {
            let content = get_text_content(&tag.children[i]);
            if !content.as_str().is_empty() {
                return Some(content);
            }
        }
        i = i + 1;
    }
    None
}

/// Reads a parameter of a macro element where a later one overrides an
/// earlier one: the text of the last child parameter called `name`.
pub fn last_parameter(tag: &Node, name: &str) -> (text: Option<String>)
    ensures
        match text {
            Some(t) => last_parameter_text(tag@.children, name@) == Some(t@),
            None => last_parameter_text(tag@.children, name@) is None,
        },
{
    let mut i: usize = tag.children.len();
    proof {
        tag.lemma_children();
    }
    assert(tag@.children.take(i as int) =~= tag@.children);
    while i > 0
        invariant
            i <= tag.children.len(),
            tag@.children.len() == tag.children@.len(),
            last_parameter_text(tag@.children, name@) == last_parameter_text(
                tag@.children.take(i as int),
                name@,
            ),
        decreases i,
    {
        proof {
            tag.lemma_children();
        }
        assert(tag@.children.take(i as int).last() == tag.children@[i as int - 1]@);
        assert(tag@.children.take(i as int).drop_last() == tag@.children.take(i as int - 1));
        i = i - 1;
        if is_parameter_named(&tag.children[i], name) {
            return Some(get_text_content(&tag.children[i]));
        }
    }
    None
}

/// The handler that a macro element was given, with what it holds.
pub enum MacroSpecificHandler {
    Alert(InfoMacroHandler),
    Issue(JiraMacroHandler),
    Expand(ExpandMacroHandler),
    Status(StatusMacroHandler),
}

/// Which handler a macro element was given, and the state of that handler.
pub enum MacroSelection {
    Alert(AlertState),
    Issue(Map<Seq<char>, Seq<char>>),
    Expand(ExpandState),
    Status,
}

/// A macro dispatcher: the handler that it has picked, if any, and the
/// registry of issue trackers that it gives to a `jira` handler.
pub struct MacroState {
    pub selected: Option<MacroSelection>,
    pub servers: Map<Seq<char>, Seq<char>>,
}

impl View for MacroSpecificHandler {
    type V = MacroSelection;

    open spec fn view(&self) -> MacroSelection {
        match self {
            MacroSpecificHandler::Alert(handler) => MacroSelection::Alert(handler@),
            MacroSpecificHandler::Issue(handler) => MacroSelection::Issue(handler@),
            MacroSpecificHandler::Expand(handler) => MacroSelection::Expand(handler@),
            MacroSpecificHandler::Status(_) => MacroSelection::Status,
        }
    }
}

/// The handler that the macro element `tag` is given when it is entered with
/// `start` bytes printed, in the state in which entering leaves it. A macro
/// without a name, or with a name that is not known, is given none.
pub open spec fn macro_selection(
    servers: Map<Seq<char>, Seq<char>>,
    tag: NodeView,
    start: nat,
) -> Option<MacroSelection> {
    match tag.attr("ac:name"@) {
        Some(name) => match highlight_type_of(name) {
            Some(kind) => Some(
                MacroSelection::Alert(
                    AlertState {
                        start,
                        kind,
                        title: first_parameter_text(tag.children, "title"@),
                    },
                ),
            ),
            None => if name == "jira"@ {
                Some(MacroSelection::Issue(servers))
            } else if name == "expand"@ {
                Some(
                    MacroSelection::Expand(
                        ExpandState { start, title: first_parameter_text(tag.children, "title"@) },
                    ),
                )
            } else if name == "status"@ {
                Some(MacroSelection::Status)
            } else {
                None
            },
        },
        None => None,
    }
}

/// What entering the macro element `tag` prints.
pub open spec fn macro_opening(servers: Map<Seq<char>, Seq<char>>, tag: NodeView) -> Seq<char> {
    match macro_selection(servers, tag, 0) {
        Some(MacroSelection::Alert(_)) => seq!['\n'],
        Some(MacroSelection::Issue(_)) => issue_reference(servers, tag),
        Some(MacroSelection::Expand(state)) => expand_opening(state.title),
        Some(MacroSelection::Status) => status_text(tag),
        None => Seq::empty(),
    }
}

/// The text after a macro element was left, where `bytes` is the text before.
pub open spec fn macro_closing(selected: Option<MacroSelection>, bytes: Seq<u8>) -> Seq<u8> {
    match selected {
        Some(MacroSelection::Alert(state)) => alerted(
            bytes,
            state.start as int,
            state.kind,
            state.title,
        ),
        Some(MacroSelection::Expand(_)) => bytes + encode_utf8(expand_closing()),
        _ => bytes,
    }
}

/// Whether the walk stays out of the children of a macro element. It does for
/// an issue reference, and for a macro that was given no handler, so that
/// nothing of a macro that is not known gets printed.
pub open spec fn macro_owns_descendants(selected: Option<MacroSelection>) -> bool {
    match selected {
        Some(MacroSelection::Issue(_)) => true,
        Some(_) => false,
        None => true,
    }
}

/// Renders a macro element by the handler that belongs to the macro's name.
pub struct StructuredMacroHandler {
    macro_specific_handler: Option<MacroSpecificHandler>,
    jira_server_map: JiraServerMap,
}

impl View for StructuredMacroHandler {
    type V = MacroState;

    closed spec fn view(&self) -> MacroState {
        MacroState {
            selected: match self.macro_specific_handler {
                Some(handler) => Some(handler@),
                None => None,
            },
            servers: self.jira_server_map@,
        }
    }
}

impl Default for StructuredMacroHandler {
    fn default() -> (handler: Self)
        ensures
            handler@ == (MacroState { selected: None, servers: Map::empty() }),
    {
        Self { macro_specific_handler: None, jira_server_map: JiraServerMap::default() }
    }
}

impl StructuredMacroHandler {
    pub fn with_jira_server_map(jira_server_map: JiraServerMap) -> (handler: Self)
        ensures
            handler@ == (MacroState { selected: None, servers: jira_server_map@ }),
    {
        Self { jira_server_map, macro_specific_handler: None }
    }

    /// Enters a macro element: picks the handler by the macro's name and
    /// enters it.
    pub fn handle(&mut self, tag: &Node, printer: &mut StructuredPrinter)
        ensures
            final(self)@ == (MacroState {
                selected: macro_selection(
                    old(self)@.servers,
                    tag@,
                    printer_bytes(*old(printer)).len(),
                ),
                servers: old(self)@.servers,
            }),
            printer_text(*final(printer)) == printer_text(*old(printer)) + macro_opening(
                old(self)@.servers,
                tag@,
            ),
    {
        let ghost nothing = Seq::<char>::empty();
        assert(printer_text(*printer) + nothing =~= printer_text(*printer));
        let selected = match get_tag_attr(tag, "ac:name") {
            Some(name) => match HighlightType::from_str(name.as_str()) {
                Ok(_) => {
                    let mut handler = InfoMacroHandler::new();
                    handler.handle(tag, printer);
                    assert(printer_text(*printer) =~= printer_text(*old(printer)) + seq!['\n']);
                    Some(MacroSpecificHandler::Alert(handler))
                },
                Err(_) => {
                    if str_eq(name.as_str(), "jira") {
                        let mut handler = JiraMacroHandler::with_servers(
                            self.jira_server_map.clone(),
                        );
                        handler.handle(tag, printer);
                        Some(MacroSpecificHandler::Issue(handler))
                    } else if str_eq(name.as_str(), "expand") {
                        let mut handler = ExpandMacroHandler::new();
                        handler.handle(tag, printer);
                        Some(MacroSpecificHandler::Expand(handler))
                    } else if str_eq(name.as_str(), "status") {
                        let mut handler = StatusMacroHandler::new();
                        handler.handle(tag, printer);
                        Some(MacroSpecificHandler::Status(handler))
                    } else {
                        None
                    }
                },
            },
            None => None,
        };
        self.macro_specific_handler = selected;
    }

    /// Leaves a macro element: leaves the handler that was picked.
    ///
    /// For an alert, the line feed that entering printed must still stand in
    /// the text: the offset behind it must be a character boundary.
    pub fn after_handle(&mut self, printer: &mut StructuredPrinter)
        requires
            old(self)@.selected matches Some(MacroSelection::Alert(state)) ==> is_char_boundary(
                printer_bytes(*old(printer)),
                state.start as int + 1,
            ),
        ensures
            printer_bytes(*final(printer)) == macro_closing(
                old(self)@.selected,
                printer_bytes(*old(printer)),
            ),
            final(self)@ == old(self)@,
    {
        match &mut self.macro_specific_handler {
            Some(MacroSpecificHandler::Alert(handler)) => {
                handler.after_handle(printer);
            },
            Some(MacroSpecificHandler::Issue(handler)) => {
                handler.after_handle(printer);
            },
            Some(MacroSpecificHandler::Expand(handler)) => {
                proof {
                    lemma_encode_concat(printer_text(*printer), expand_closing());
                }
                handler.after_handle(printer);
            },
            Some(MacroSpecificHandler::Status(handler)) => {
                handler.after_handle(printer);
            },
            None => {},
        }
    }

    /// Tells whether the handler can be left with what `printer` holds.
    pub fn can_leave(&self, printer: &StructuredPrinter) -> (ready: bool)
        ensures
            ready == (self@.selected matches Some(MacroSelection::Alert(state))
                ==> is_char_boundary(printer_bytes(*printer), state.start as int + 1)),
    {
        match &self.macro_specific_handler {
            Some(MacroSpecificHandler::Alert(handler)) => handler.can_leave(printer),
            _ => true,
        }
    }

    /// Tells whether the walk stays out of the element's children.
    pub fn skip_descendants(&self) -> (skip: bool)
        ensures
            skip == macro_owns_descendants(self@.selected),
    {
        match &self.macro_specific_handler {
            Some(MacroSpecificHandler::Alert(handler)) => handler.skip_descendants(),
            Some(MacroSpecificHandler::Issue(handler)) => handler.skip_descendants(),
            Some(MacroSpecificHandler::Expand(handler)) => handler.skip_descendants(),
            Some(MacroSpecificHandler::Status(handler)) => handler.skip_descendants(),
            None => true,
        }
    }
}

/// Makes a fresh [`StructuredMacroHandler`] for every macro element.
pub struct StructuredMacroHandlerFactory {
    jira_server_map: JiraServerMap,
}

impl View for StructuredMacroHandlerFactory {
    type V = Map<Seq<char>, Seq<char>>;

    closed spec fn view(&self) -> Map<Seq<char>, Seq<char>> {
        self.jira_server_map@
    }
}

impl StructuredMacroHandlerFactory {
    pub fn with_jira_server_map(jira_server_map: JiraServerMap) -> (factory: Self)
        ensures
            factory@ == jira_server_map@,
    {
        Self { jira_server_map }
    }

    pub fn instantiate(&self) -> (handler: StructuredMacroHandler)
        ensures
            handler@ == (MacroState { selected: None, servers: self@ }),
    {
        StructuredMacroHandler::with_jira_server_map(self.jira_server_map.clone())
    }
}

} // verus!

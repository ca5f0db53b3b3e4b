//! Handlers that turn the elements of a wiki's storage format into Markdown.
//!
//! A document is walked element by element. For each element that this
//! library knows, [`ParseOptions::instantiate`] makes a handler; the walk
//! enters it, renders the element's children unless the handler keeps them to
//! itself, and leaves it. A handler prints into the walk's printer, and on
//! leaving may change what was printed since it was entered.
pub mod dummy;
pub mod emoticon;
pub mod encoding;
pub mod handler;
pub mod image;
pub mod link;
pub mod macros;
pub mod node;
pub mod printer;
pub mod text;
pub mod url;
pub mod util;

pub use crate::handler::{ConfluenceHandler, ConfluenceHandlerView};
pub use crate::node::{Attribute, AttributeView, Node, NodeKind, NodeKindView, NodeView};
pub use crate::util::{ConfluencePageId, ConfluenceServer, JiraServer, JiraServerMap};

use crate::dummy::RecursiveDummyHandler;
use crate::emoticon::EmoticonHandler;
use crate::image::ImageHandlerFactory;
use crate::link::{LinkHandlerFactory, LinkHandlerUrlBuilder, LinkState, UrlBuilderView};
use crate::macros::{MacroState, StructuredMacroHandlerFactory};
use crate::text::str_eq;
use vstd::prelude::*;

verus! {

/// The name of the macro element.
pub const STRUCTURED_MACRO: &'static str = "ac:structured-macro";

/// The name of the parameter element.
pub const PARAMETER: &'static str = "ac:parameter";

/// The name of the emoticon element.
pub const EMOTICON: &'static str = "ac:emoticon";

/// The name of the image element.
pub const IMAGE: &'static str = "ac:image";

/// The name of the link element.
pub const LINK: &'static str = "ac:link";

/// What a set of options holds: the registry of issue trackers, the wiki's
/// base URL, the space of pages without a space key, and the current page.
pub struct ParseOptionsView {
    pub jira_servers: Map<Seq<char>, Seq<char>>,
    pub confluence_server: Option<Seq<char>>,
    pub default_space_key: Option<Seq<char>>,
    pub default_page_id: Option<nat>,
}

impl ParseOptionsView {
    /// The page that the attachments of images are resolved against: known
    /// where both the server and the current page are.
    pub open spec fn image_page(self) -> Option<(Seq<char>, nat)> {
        match (self.confluence_server, self.default_page_id) {
            (Some(server), Some(page_id)) => Some((server, page_id)),
            _ => None,
        }
    }

    /// What the references of links are resolved against.
    pub open spec fn url_builder(self) -> UrlBuilderView {
        UrlBuilderView {
            server: self.confluence_server,
            default_space: self.default_space_key,
            page_id: self.default_page_id,
        }
    }
}

/// The configuration of a conversion. It is set up once and only read while
/// the document is walked.
#[derive(Debug)]
pub struct ParseOptions {
    jira_server_map: JiraServerMap,
    confluence_server: Option<ConfluenceServer>,
    default_space_key: Option<String>,
    default_page_id: Option<ConfluencePageId>,
}

impl View for ParseOptions {
    type V = ParseOptionsView;

    closed spec fn view(&self) -> ParseOptionsView {
        ParseOptionsView {
            jira_servers: self.jira_server_map@,
            confluence_server: match self.confluence_server {
                Some(server) => Some(server@),
                None => None,
            },
            default_space_key: match self.default_space_key {
                Some(key) => Some(key@),
                None => None,
            },
            default_page_id: match self.default_page_id {
                Some(page_id) => Some(page_id@),
                None => None,
            },
        }
    }
}

impl Default for ParseOptions {
    fn default() -> (options: Self)
        ensures
            options@ == (ParseOptionsView {
                jira_servers: Map::empty(),
                confluence_server: None,
                default_space_key: None,
                default_page_id: None,
            }),
    {
        ParseOptions {
            jira_server_map: JiraServerMap::default(),
            confluence_server: None,
            default_space_key: None,
            default_page_id: None,
        }
    }
}

impl Clone for ParseOptions {
    fn clone(&self) -> (options: Self)
        ensures
            options@ == self@,
    {
        ParseOptions {
            jira_server_map: self.jira_server_map.clone(),
            confluence_server: match &self.confluence_server {
                Some(server) => Some(server.clone()),
                None => None,
            },
            default_space_key: match &self.default_space_key {
                Some(key) => Some(key.clone()),
                None => None,
            },
            default_page_id: self.default_page_id,
        }
    }
}

impl ParseOptionsView {
    /// The fresh handler that an element called `element` is given; `None`
    /// for an element that this library does not handle.
    pub open spec fn handler_for(self, element: Seq<char>) -> Option<ConfluenceHandlerView> {
        if element == STRUCTURED_MACRO@ {
            Some(
                ConfluenceHandlerView::StructuredMacro(
                    MacroState { selected: None, servers: self.jira_servers },
                ),
            )
        } else if element == PARAMETER@ {
            Some(ConfluenceHandlerView::Dummy)
        } else if element == EMOTICON@ {
            Some(ConfluenceHandlerView::Emoticon)
        } else if element == IMAGE@ {
            Some(ConfluenceHandlerView::Image(self.image_page()))
        } else if element == LINK@ {
            Some(
                ConfluenceHandlerView::Link(
                    LinkState { start: 0, url: None, builder: self.url_builder() },
                ),
            )
        } else {
            None
        }
    }
}

impl ParseOptions {
    /// The options with `jira_server` registered under `server_id`.
    pub fn with_jira_server(self, server_id: String, jira_server: JiraServer) -> (options:
        ParseOptions)
        ensures
            options@ == (ParseOptionsView {
                jira_servers: self@.jira_servers.insert(server_id@, jira_server@),
                ..self@
            }),
    {
        let mut options = self;
        options.jira_server_map.insert(server_id, jira_server);
        options
    }

    /// The options with the wiki that pages, attachments and users belong
    /// to.
    pub fn with_confluence_server(self, confluence_server: ConfluenceServer) -> (options:
        ParseOptions)
        ensures
            options@ == (ParseOptionsView {
                confluence_server: Some(confluence_server@),
                ..self@
            }),
    {
        let mut options = self;
        options.confluence_server = Some(confluence_server);
        options
    }

    /// The options with the page that is being converted, on which its
    /// attachments hang.
    pub fn with_default_page_id(self, default_page_id: ConfluencePageId) -> (options:
        ParseOptions)
        ensures
            options@ == (ParseOptionsView { default_page_id: Some(default_page_id@), ..self@ }),
    {
        let mut options = self;
        options.default_page_id = Some(default_page_id);
        options
    }

    /// The options with the space of pages that are referred to without a
    /// space key.
    pub fn with_default_space_key(self, default_space_key: String) -> (options: ParseOptions)
        ensures
            options@ == (ParseOptionsView {
                default_space_key: Some(default_space_key@),
                ..self@
            }),
    {
        let mut options = self;
        options.default_space_key = Some(default_space_key);
        options
    }

    /// The factory of the handlers of macro elements.
    pub fn structured_macro_factory(&self) -> (factory: StructuredMacroHandlerFactory)
        ensures
            factory@ == self@.jira_servers,
    {
        StructuredMacroHandlerFactory::with_jira_server_map(self.jira_server_map.clone())
    }

    /// The factory of the handlers of image elements.
    pub fn image_factory(&self) -> (factory: ImageHandlerFactory)
        ensures
            factory@ == self@.image_page(),
    {
        let page = match (&self.confluence_server, &self.default_page_id) {
            (Some(server), Some(page_id)) => Some((server.clone(), *page_id)),
            _ => None,
        };
        ImageHandlerFactory::with_confluence_page(page)
    }

    /// The factory of the handlers of link elements.
    pub fn link_factory(&self) -> (factory: LinkHandlerFactory)
        ensures
            factory@ == self@.url_builder(),
    {
        LinkHandlerFactory::with_url_builder(
            LinkHandlerUrlBuilder::new(
                match &self.confluence_server {
                    Some(server) => Some(server.clone()),
                    None => None,
                },
                match &self.default_space_key {
                    Some(key) => Some(key.clone()),
                    None => None,
                },
                self.default_page_id,
            ),
        )
    }

    /// Makes the handler for one element of the given name, fresh for that
    /// element; `None` for an element that this library does not handle.
    pub fn instantiate(&self, element: &str) -> (handler: Option<ConfluenceHandler>)
        ensures
            match handler {
                Some(h) => self@.handler_for(element@) == Some(h@),
                None => self@.handler_for(element@) is None,
            },
    {
        if str_eq(element, STRUCTURED_MACRO) {
            Some(ConfluenceHandler::StructuredMacro(self.structured_macro_factory().instantiate()))
        } else if str_eq(element, PARAMETER) {
            Some(ConfluenceHandler::Dummy(RecursiveDummyHandler {  }))
        } else if str_eq(element, EMOTICON) {
            Some(ConfluenceHandler::Emoticon(EmoticonHandler {  }))
        } else if str_eq(element, IMAGE) {
            Some(ConfluenceHandler::Image(self.image_factory().instantiate()))
        } else if str_eq(element, LINK) {
            Some(ConfluenceHandler::Link(self.link_factory().instantiate()))
        } else {
            None
        }
    }
}

} // verus!

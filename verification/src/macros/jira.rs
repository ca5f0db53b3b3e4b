//! The `jira` macro: a reference into an issue tracker, by query or by key.
use crate::macros::{last_parameter, last_parameter_text};
use crate::node::{Node, NodeView};
use crate::printer::{append_str, printer_text};
use crate::text::as_text;
use crate::util::{spec_jql_url, spec_resolve_issue, JiraServerMap};
use html2md::StructuredPrinter;
use vstd::prelude::*;
use vstd::string::*;

verus! {

/// The text of an issue link: the query between one backtick on each side
/// where a query is given, else the key.
pub open spec fn issue_label(key: Option<Seq<char>>, jql: Option<Seq<char>>) -> Seq<char> {
    match (jql, key) {
        (Some(query), _) => "`"@ + query + "`"@,
        (None, Some(key)) => key,
        (None, None) => Seq::empty(),
    }
}

/// The Markdown for an issue reference: a link from the label to the resolved
/// URL, and nothing where no server is named or the reference does not
/// resolve.
pub open spec fn issue_markup(
    servers: Map<Seq<char>, Seq<char>>,
    server_id: Option<Seq<char>>,
    key: Option<Seq<char>>,
    jql: Option<Seq<char>>,
) -> Seq<char> {
    match server_id {
        Some(server_id) => match spec_resolve_issue(servers, server_id, key, jql) {
            Some(url) => "["@ + issue_label(key, jql) + "]("@ + url + ")"@,
            None => Seq::empty(),
        },
        None => Seq::empty(),
    }
}

/// What a `jira` macro renders to, by its parameters `serverId`, `key` and
/// `jqlQuery`.
pub open spec fn issue_reference(servers: Map<Seq<char>, Seq<char>>, tag: NodeView) -> Seq<char> {
    issue_markup(
        servers,
        last_parameter_text(tag.children, "serverId"@),
        last_parameter_text(tag.children, "key"@),
        last_parameter_text(tag.children, "jqlQuery"@),
    )
}

/// Resolving the same issue reference against the same registry gives the
/// same URL, and so the same Markdown: the outcome depends on nothing but the
/// servers that the registry holds and the three parameters.
pub proof fn lemma_issue_resolution_is_idempotent(
    first: JiraServerMap,
    second: JiraServerMap,
    server_id: Seq<char>,
    key: Option<Seq<char>>,
    jql: Option<Seq<char>>,
)
    requires
        first@ == second@,
    ensures
        spec_resolve_issue(first@, server_id, key, jql) == spec_resolve_issue(
            second@,
            server_id,
            key,
            jql,
        ),
        issue_markup(first@, Some(server_id), key, jql) == issue_markup(
            second@,
            Some(server_id),
            key,
            jql,
        ),
{
}

/// A reference that has a query renders as the query, linked to the search,
/// whether or not it has a key too.
pub proof fn lemma_query_precedes_key(
    servers: Map<Seq<char>, Seq<char>>,
    server_id: Seq<char>,
    key: Option<Seq<char>>,
    query: Seq<char>,
)
    requires
        servers.contains_key(server_id),
    ensures
        issue_markup(servers, Some(server_id), key, Some(query)) == "["@ + ("`"@ + query + "`"@)
            + "]("@ + spec_jql_url(servers[server_id], query) + ")"@,
        issue_markup(servers, Some(server_id), key, Some(query)) == issue_markup(
            servers,
            Some(server_id),
            None,
            Some(query),
        ),
{
}

/// A reference to a server that is not registered renders to nothing,
/// whatever else it holds.
pub proof fn lemma_unregistered_server_renders_nothing(
    servers: Map<Seq<char>, Seq<char>>,
    server_id: Seq<char>,
    key: Option<Seq<char>>,
    jql: Option<Seq<char>>,
)
    requires
        !servers.contains_key(server_id),
    ensures
        issue_markup(servers, Some(server_id), key, jql) == Seq::<char>::empty(),
{
}

/// Renders the reference that a resolved issue stands for.
pub fn render_issue(key: Option<&str>, jql: Option<&str>, url: &str) -> (link: String)
    ensures
        link@ == "["@ + issue_label(
            match key {
                Some(k) => Some(k@),
                None => None,
            },
            match jql {
                Some(q) => Some(q@),
                None => None,
            },
        ) + "]("@ + url@ + ")"@,
{
    let mut link = "[".to_owned();
    match jql {
        Some(query) => {
            link.append("`");
            link.append(query);
            link.append("`");
        },
        None => match key {
            Some(key) => {
                link.append(key);
            },
            None => {},
        },
    }
    link.append("](");
    link.append(url);
    link.append(")");
    assert(link@ =~= "["@ + issue_label(
        match key {
            Some(k) => Some(k@),
            None => None,
        },
        match jql {
            Some(q) => Some(q@),
            None => None,
        },
    ) + "]("@ + url@ + ")"@);
    link
}

/// Renders a `jira` macro. Its view is the registry of servers.
#[derive(Debug)]
pub struct JiraMacroHandler {
    servers: JiraServerMap,
}

impl View for JiraMacroHandler {
    type V = Map<Seq<char>, Seq<char>>;

    closed spec fn view(&self) -> Map<Seq<char>, Seq<char>> {
        self.servers@
    }
}

impl Clone for JiraMacroHandler {
    fn clone(&self) -> (r: Self)
        ensures
            r@ == self@,
    {
        JiraMacroHandler { servers: self.servers.clone() }
    }
}

impl JiraMacroHandler {
    pub fn with_servers(servers: JiraServerMap) -> (handler: Self)
        ensures
            handler@ == servers@,
    {
        Self { servers }
    }

    /// Prints the issue reference. A macro that names no server, or one that
    /// is not registered, prints nothing.
    pub fn handle(&mut self, tag: &Node, printer: &mut StructuredPrinter)
        ensures
            printer_text(*final(printer)) == printer_text(*old(printer)) + issue_reference(
                old(self)@,
                tag@,
            ),
            final(self)@ == old(self)@,
    {
        let key = last_parameter(tag, "key");
        let jql = last_parameter(tag, "jqlQuery");
        let server_id = last_parameter(tag, "serverId");
        let url = match &server_id {
            Some(server_id) => self.servers.resolve_issue(
                server_id.as_str(),
                as_text(&key),
                as_text(&jql),
            ),
            None => None,
        };
        match url {
            Some(url) => {
                let link = render_issue(as_text(&key), as_text(&jql), url.as_str());
                append_str(printer, link.as_str());
            },
            None => {
                assert(printer_text(*printer) =~= printer_text(*printer) + Seq::<char>::empty());
            },
        }
    }

    /// Nothing is left to do when the macro is left.
    pub fn after_handle(&mut self, printer: &mut StructuredPrinter)
        ensures
            *final(printer) == *old(printer),
            *final(self) == *old(self),
    {
    }

    /// The parameters of the macro are not rendered.
    pub fn skip_descendants(&self) -> (skip: bool)
        ensures
            skip,
    {
        true
    }
}

} // verus!

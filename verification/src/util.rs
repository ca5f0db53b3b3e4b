//! The server configuration that references are resolved against, and the two
//! readers of the document tree that every handler shares.
use crate::node::{Node, NodeKind, NodeKindView, NodeView};
use crate::text::{is_blank, minified, minify, str_eq, text_is_blank};
use crate::url::{
    decimal, decimal_string, decimal_value, url_encode, url_encoded, without_plus_sign,
};
use std::str::FromStr;
use vstd::prelude::*;
use vstd::string::*;

verus! {

/// The URL of an attachment of a page.
pub open spec fn spec_attachment_url(
    base_url: Seq<char>,
    page_id: nat,
    filename: Seq<char>,
) -> Seq<char> {
    base_url + "/download/attachments/"@ + decimal(page_id) + "/"@ + url_encoded(filename)
}

/// The URL of a user's profile, by user name.
pub open spec fn spec_user_url_with_name(base_url: Seq<char>, username: Seq<char>) -> Seq<char> {
    base_url + "/users/viewuserprofile.action?username="@ + url_encoded(username)
}

/// The URL of a user's profile, by user key.
pub open spec fn spec_user_url_with_key(base_url: Seq<char>, userkey: Seq<char>) -> Seq<char> {
    base_url + "/users/viewuserprofile.action?userkey="@ + url_encoded(userkey)
}

/// The URL of a page, by space key and title.
pub open spec fn spec_page_url(
    base_url: Seq<char>,
    space: Seq<char>,
    page_title: Seq<char>,
) -> Seq<char> {
    base_url + "/display/"@ + url_encoded(space) + "/"@ + url_encoded(page_title)
}

/// The URL of an issue, by its key. The key is an identifier and goes in as
/// it is.
pub open spec fn spec_issue_url(base_url: Seq<char>, key: Seq<char>) -> Seq<char> {
    base_url + "/browse/"@ + key
}

/// The URL of an issue search, by its query.
pub open spec fn spec_jql_url(base_url: Seq<char>, jql: Seq<char>) -> Seq<char> {
    base_url + "/issues/?jql="@ + url_encoded(jql)
}

/// The URL of an issue reference on the server registered as `server_id`:
/// the search URL where a query is given, else the issue URL where a key is
/// given. Unresolved where the server is not registered, and where neither a
/// query nor a key is given.
pub open spec fn spec_resolve_issue(
    servers: Map<Seq<char>, Seq<char>>,
    server_id: Seq<char>,
    key: Option<Seq<char>>,
    jql: Option<Seq<char>>,
) -> Option<Seq<char>> {
    if !servers.contains_key(server_id) {
        None
    } else {
        match (jql, key) {
            (Some(query), _) => Some(spec_jql_url(servers[server_id], query)),
            (None, Some(key)) => Some(spec_issue_url(servers[server_id], key)),
            (None, None) => None,
        }
    }
}

/// The identifier of a page. Its view is the number.
#[derive(Debug, Clone, Copy)]
pub struct ConfluencePageId(usize);

impl View for ConfluencePageId {
    type V = nat;

    closed spec fn view(&self) -> nat {
        self.0 as nat
    }
}

impl From<usize> for ConfluencePageId {
    /// The identifier of the page with the given number.
    fn from(page_id: usize) -> (id: Self)
        ensures
            id@ == page_id,
    {
        Self(page_id)
    }
}

impl vstd::std_specs::convert::FromSpecImpl<usize> for ConfluencePageId {
    open spec fn obeys_from_spec() -> bool {
        true
    }

    closed spec fn from_spec(page_id: usize) -> Self {
        Self(page_id)
    }
}

/// `std::num::ParseIntError`, the failure of reading a number. It is only
/// handed through.
#[verifier::external_type_specification]
#[verifier::external_body]
pub struct ExParseIntError(std::num::ParseIntError);

/// Calls `str::parse` for a `usize`, which reads an optional plus sign and
/// then decimal digits, at least one of them. It fails on anything else, and
/// on a number that does not fit.
#[verifier::external_body]
fn parse_usize(s: &str) -> (parsed: Result<usize, std::num::ParseIntError>)
    ensures
        match parsed {
            Ok(v) => decimal_value(without_plus_sign(s@)) == Some(v as nat),
            Err(_) => match decimal_value(without_plus_sign(s@)) {
                Some(n) => n > usize::MAX,
                None => true,
            },
        },
{
    s.parse::<usize>()
}

impl FromStr for ConfluencePageId {
    type Err = std::num::ParseIntError;

    /// Reads an identifier that is written in decimal, with or without a plus
    /// sign before it. It fails on anything else, and on a number that does
    /// not fit.
    fn from_str(s: &str) -> (r: Result<Self, Self::Err>)
        ensures
            match r {
                Ok(id) => decimal_value(without_plus_sign(s@)) == Some(id@),
                Err(_) => match decimal_value(without_plus_sign(s@)) {
                    Some(n) => n > usize::MAX,
                    None => true,
                },
            },
    {
        match parse_usize(s) {
            Ok(page_id) => Ok(Self(page_id)),
            Err(error) => Err(error),
        }
    }
}

impl ConfluencePageId {
    /// The identifier of the page with the given number.
    pub fn new(page_id: usize) -> (id: Self)
        ensures
            id@ == page_id,
    {
        Self(page_id)
    }

    /// The identifier in decimal, as it stands in URLs.
    pub fn to_string(&self) -> (r: String)
        ensures
            r@ == decimal(self@),
    {
        decimal_string(self.0)
    }
}

/// A wiki server, known by its base URL. Its view is that URL.
#[derive(Debug)]
pub struct ConfluenceServer {
    base_url: String,
}

impl View for ConfluenceServer {
    type V = Seq<char>;

    closed spec fn view(&self) -> Seq<char> {
        self.base_url@
    }
}

impl Clone for ConfluenceServer {
    fn clone(&self) -> (r: Self)
        ensures
            r == *self,
    {
        ConfluenceServer { base_url: self.base_url.clone() }
    }
}

impl ConfluenceServer {
    /// The server at `base_url`, which is taken as it is.
    pub fn new(base_url: &str) -> (server: Self)
        ensures
            server@ == base_url@,
    {
        ConfluenceServer { base_url: base_url.to_owned() }
    }

    pub fn attachment_url(&self, page_id: &ConfluencePageId, filename: &str) -> (url: String)
        ensures
            url@ == spec_attachment_url(self@, page_id@, filename@),
    {
        let mut url = self.base_url.clone();
        url.append("/download/attachments/");
        url.append(page_id.to_string().as_str());
        url.append("/");
        url.append(url_encode(filename).as_str());
        url
    }

    pub fn user_url_with_name(&self, username: &str) -> (url: String)
        ensures
            url@ == spec_user_url_with_name(self@, username@),
    {
        let mut url = self.base_url.clone();
        url.append("/users/viewuserprofile.action?username=");
        url.append(url_encode(username).as_str());
        url
    }

    pub fn user_url_with_key(&self, userkey: &str) -> (url: String)
        ensures
            url@ == spec_user_url_with_key(self@, userkey@),
    {
        let mut url = self.base_url.clone();
        url.append("/users/viewuserprofile.action?userkey=");
        url.append(url_encode(userkey).as_str());
        url
    }

    pub fn page_url_with_space_and_title(&self, space: &str, page_title: &str) -> (url: String)
        ensures
            url@ == spec_page_url(self@, space@, page_title@),
    {
        let mut url = self.base_url.clone();
        url.append("/display/");
        url.append(url_encode(space).as_str());
        url.append("/");
        url.append(url_encode(page_title).as_str());
        url
    }
}

impl FromStr for ConfluenceServer {
    type Err = ();

    fn from_str(s: &str) -> (r: Result<Self, Self::Err>)
        ensures
            r is Ok,
            r->Ok_0@ == s@,
    {
        Ok(ConfluenceServer::new(s))
    }
}

/// An issue tracker, known by its base URL. Its view is that URL.
#[derive(Debug)]
pub struct JiraServer {
    base_url: String,
}

impl View for JiraServer {
    type V = Seq<char>;

    closed spec fn view(&self) -> Seq<char> {
        self.base_url@
    }
}

impl Clone for JiraServer {
    fn clone(&self) -> (r: Self)
        ensures
            r == *self,
    {
        JiraServer { base_url: self.base_url.clone() }
    }
}

impl JiraServer {
    /// The tracker at `base_url`, which is taken as it is.
    pub fn new(base_url: &str) -> (server: Self)
        ensures
            server@ == base_url@,
    {
        JiraServer { base_url: base_url.to_owned() }
    }

    pub fn issue_url(&self, key: &str) -> (url: String)
        ensures
            url@ == spec_issue_url(self@, key@),
    {
        let mut url = self.base_url.clone();
        url.append("/browse/");
        url.append(key);
        url
    }

    pub fn jql_url(&self, jql: &str) -> (url: String)
        ensures
            url@ == spec_jql_url(self@, jql@),
    {
        let mut url = self.base_url.clone();
        url.append("/issues/?jql=");
        url.append(url_encode(jql).as_str());
        url
    }
}

impl FromStr for JiraServer {
    type Err = ();

    fn from_str(s: &str) -> (r: Result<Self, Self::Err>)
        ensures
            r is Ok,
            r->Ok_0@ == s@,
    {
        Ok(JiraServer::new(s))
    }
}

/// One registered issue tracker.
#[derive(Debug)]
struct JiraServerEntry {
    server_id: String,
    server: JiraServer,
}

/// The base URL that the first entry called `server_id` holds.
spec fn lookup(entries: Seq<JiraServerEntry>, server_id: Seq<char>) -> Option<Seq<char>>
    decreases entries.len(),
{
    if entries.len() == 0 {
        None
    } else if entries[0].server_id@ == server_id {
        Some(entries[0].server@)
    } else {
        lookup(entries.drop_first(), server_id)
    }
}

/// The servers that a list of pairs of identifier and base URL registers; of
/// two pairs with one identifier the later one counts.
pub open spec fn servers_of(pairs: Seq<(&str, &str)>) -> Map<Seq<char>, Seq<char>>
    decreases pairs.len(),
{
    if pairs.len() == 0 {
        Map::empty()
    } else {
        servers_of(pairs.drop_last()).insert(pairs.last().0@, pairs.last().1@)
    }
}

proof fn lemma_lookup_none(entries: Seq<JiraServerEntry>, server_id: Seq<char>)
    requires
        forall|i: int| 0 <= i < entries.len() ==> (#[trigger] entries[i]).server_id@ != server_id,
    ensures
        lookup(entries, server_id) is None,
    decreases entries.len(),
{
    if entries.len() > 0 {
        let rest = entries.drop_first();
        assert(entries[0].server_id@ != server_id);
        assert forall|i: int| 0 <= i < rest.len() implies (#[trigger] rest[i]).server_id@
            != server_id by {
            assert(rest[i] == entries[i + 1]);
        }
        lemma_lookup_none(rest, server_id);
    }
}

proof fn lemma_lookup_at(entries: Seq<JiraServerEntry>, at: int, server_id: Seq<char>)
    requires
        0 <= at < entries.len(),
        entries[at].server_id@ == server_id,
        forall|i: int| 0 <= i < at ==> (#[trigger] entries[i]).server_id@ != server_id,
    ensures
        lookup(entries, server_id) == Some(entries[at].server@),
    decreases entries.len(),
{
    if at > 0 {
        let rest = entries.drop_first();
        assert(entries[0].server_id@ != server_id);
        assert forall|i: int| 0 <= i < at - 1 implies (#[trigger] rest[i]).server_id@
            != server_id by {
            assert(rest[i] == entries[i + 1]);
        }
        assert(rest[at - 1] == entries[at]);
        lemma_lookup_at(rest, at - 1, server_id);
    }
}

proof fn lemma_lookup_update(
    entries: Seq<JiraServerEntry>,
    at: int,
    entry: JiraServerEntry,
    server_id: Seq<char>,
)
    requires
        0 <= at < entries.len(),
        entries[at].server_id@ == entry.server_id@,
        forall|i: int| 0 <= i < at ==> (#[trigger] entries[i]).server_id@ != entry.server_id@,
    ensures
        lookup(entries.update(at, entry), server_id) == if server_id == entry.server_id@ {
            Some(entry.server@)
        } else {
            lookup(entries, server_id)
        },
    decreases entries.len(),
{
    let updated = entries.update(at, entry);
    if at == 0 {
        assert(updated.drop_first() =~= entries.drop_first());
    } else {
        let rest = entries.drop_first();
        assert(updated[0] == entries[0]);
        assert(entries[0].server_id@ != entry.server_id@);
        assert(updated.drop_first() =~= rest.update(at - 1, entry));
        assert(rest[at - 1] == entries[at]);
        assert forall|i: int| 0 <= i < at - 1 implies (#[trigger] rest[i]).server_id@
            != entry.server_id@ by {
            assert(rest[i] == entries[i + 1]);
        }
        lemma_lookup_update(rest, at - 1, entry, server_id);
    }
}

proof fn lemma_lookup_push(
    entries: Seq<JiraServerEntry>,
    entry: JiraServerEntry,
    server_id: Seq<char>,
)
    requires
        forall|i: int| 0 <= i < entries.len() ==> (#[trigger] entries[i]).server_id@
            != entry.server_id@,
    ensures
        lookup(entries.push(entry), server_id) == if server_id == entry.server_id@ {
            Some(entry.server@)
        } else {
            lookup(entries, server_id)
        },
    decreases entries.len(),
{
    let pushed = entries.push(entry);
    if entries.len() == 0 {
        assert(pushed[0] == entry);
        assert(pushed.drop_first() =~= Seq::<JiraServerEntry>::empty());
    } else {
        let rest = entries.drop_first();
        assert(pushed[0] == entries[0]);
        assert(entries[0].server_id@ != entry.server_id@);
        assert(pushed.drop_first() =~= rest.push(entry));
        assert forall|i: int| 0 <= i < rest.len() implies (#[trigger] rest[i]).server_id@
            != entry.server_id@ by {
            assert(rest[i] == entries[i + 1]);
        }
        lemma_lookup_push(rest, entry, server_id);
    }
}

/// The registry of issue trackers, by server identifier. Its view is the map
/// from identifier to base URL. No identifier is registered twice.
#[derive(Debug)]
pub struct JiraServerMap {
    entries: Vec<JiraServerEntry>,
}

impl View for JiraServerMap {
    type V = Map<Seq<char>, Seq<char>>;

    closed spec fn view(&self) -> Map<Seq<char>, Seq<char>> {
        Map::new(
            |server_id: Seq<char>| lookup(self.entries@, server_id) is Some,
            |server_id: Seq<char>| lookup(self.entries@, server_id)->0,
        )
    }
}

impl Default for JiraServerMap {
    fn default() -> (map: Self)
        ensures
            map@ == Map::<Seq<char>, Seq<char>>::empty(),
    {
        let map = JiraServerMap { entries: Vec::new() };
        assert(map@ =~= Map::<Seq<char>, Seq<char>>::empty());
        map
    }
}

impl Clone for JiraServerMap {
    fn clone(&self) -> (map: Self)
        ensures
            map@ == self@,
    {
        proof {
            use_type_invariant(self);
        }
        let mut entries: Vec<JiraServerEntry> = Vec::new();
        let mut i: usize = 0;
        while i < self.entries.len()
            invariant
                i <= self.entries.len(),
                entries@ == self.entries@.take(i as int),
                self.identifiers_differ(),
            decreases self.entries.len() - i,
        {
            let entry = &self.entries[i];
            entries.push(
                JiraServerEntry { server_id: entry.server_id.clone(), server: entry.server.clone() },
            );
            assert(entries@ =~= self.entries@.take(i as int + 1));
            i = i + 1;
        }
        assert(entries@ =~= self.entries@);
        JiraServerMap { entries }
    }
}

impl JiraServerMap {
    #[verifier::type_invariant]
    spec fn identifiers_differ(&self) -> bool {
        forall|i: int, j: int|
            0 <= i < j < self.entries@.len() ==> (#[trigger] self.entries@[i]).server_id@ != (
            #[trigger] self.entries@[j]).server_id@
    }

    /// Registers `server` under `server_id`, in place of the server that was
    /// registered under it before. That server, if there was one, is returned.
    pub fn insert(&mut self, server_id: String, server: JiraServer) -> (previous: Option<
        JiraServer,
    >)
        ensures
            final(self)@ == old(self)@.insert(server_id@, server@),
            match previous {
                Some(p) => old(self)@.contains_key(server_id@) && old(self)@[server_id@] == p@,
                None => !old(self)@.contains_key(server_id@),
            },
    {
        proof {
            use_type_invariant(&*self);
        }
        let ghost before = self.entries@;
        let found = self.position(server_id.as_str());
        let entry = JiraServerEntry { server_id, server };
        let mut entries: Vec<JiraServerEntry> = Vec::new();
        core::mem::swap(&mut self.entries, &mut entries);
        let previous = match found {
            Some(at) => {
                let previous = entries[at].server.clone();
                proof {
                    lemma_lookup_at(before, at as int, entry.server_id@);
                    assert forall|id: Seq<char>|
                        lookup(before.update(at as int, entry), id) == if id == entry.server_id@ {
                            Some(entry.server@)
                        } else {
                            lookup(before, id)
                        } by {
                        lemma_lookup_update(before, at as int, entry, id);
                    }
                }
                entries.set(at, entry);
                Some(previous)
            },
            None => {
                proof {
                    lemma_lookup_none(before, entry.server_id@);
                    assert forall|id: Seq<char>|
                        lookup(before.push(entry), id) == if id == entry.server_id@ {
                            Some(entry.server@)
                        } else {
                            lookup(before, id)
                        } by {
                        lemma_lookup_push(before, entry, id);
                    }
                }
                entries.push(entry);
                None
            },
        };
        core::mem::swap(&mut self.entries, &mut entries);
        assert(self@ =~= old(self)@.insert(entry.server_id@, entry.server@));
        previous
    }

    /// The index of the entry called `server_id`, if there is one.
    fn position(&self, server_id: &str) -> (found: Option<usize>)
        ensures
            match found {
                Some(at) => at < self.entries@.len() && self.entries@[at as int].server_id@
                    == server_id@ && forall|j: int|
                    0 <= j < at ==> (#[trigger] self.entries@[j]).server_id@ != server_id@,
                None => forall|j: int|
                    0 <= j < self.entries@.len() ==> (#[trigger] self.entries@[j]).server_id@
                        != server_id@,
            },
    {
        let mut i: usize = 0;
        while i < self.entries.len()
            invariant
                i <= self.entries.len(),
                forall|j: int| 0 <= j < i ==> (#[trigger] self.entries@[j]).server_id@ != server_id@,
            decreases self.entries.len() - i,
        {
            if str_eq(self.entries[i].server_id.as_str(), server_id) {
                return Some(i);
            }
            i = i + 1;
        }
        None
    }

    /// The server registered under `server_id`, if there is one.
    pub fn by_id(&self, server_id: &str) -> (server: Option<&JiraServer>)
        ensures
            match server {
                Some(s) => self@.contains_key(server_id@) && self@[server_id@] == s@,
                None => !self@.contains_key(server_id@),
            },
    {
        match self.position(server_id) {
            Some(at) => {
                proof {
                    lemma_lookup_at(self.entries@, at as int, server_id@);
                }
                Some(&self.entries[at].server)
            },
            None => {
                proof {
                    lemma_lookup_none(self.entries@, server_id@);
                }
                None
            },
        }
    }

    /// Resolves an issue reference: by query where one is given, else by
    /// key; `None` where the server is not registered or neither is given.
    pub fn resolve_issue(&self, server_id: &str, key: Option<&str>, jql: Option<&str>) -> (url:
        Option<String>)
        ensures
            match url {
                Some(u) => spec_resolve_issue(
                    self@,
                    server_id@,
                    match key {
                        Some(k) => Some(k@),
                        None => None,
                    },
                    match jql {
                        Some(q) => Some(q@),
                        None => None,
                    },
                ) == Some(u@),
                None => spec_resolve_issue(
                    self@,
                    server_id@,
                    match key {
                        Some(k) => Some(k@),
                        None => None,
                    },
                    match jql {
                        Some(q) => Some(q@),
                        None => None,
                    },
                ) is None,
            },
    {
        match self.by_id(server_id) {
            Some(server) => match jql {
                Some(query) => Some(server.jql_url(query)),
                None => match key {
                    Some(key) => Some(server.issue_url(key)),
                    None => None,
                },
            },
            None => None,
        }
    }
}

impl<'a, 'b, 'c> From<&'a [(&'b str, &'c str)]> for JiraServerMap {
    /// The registry that a list of pairs of identifier and base URL describes.
    fn from(servers: &'a [(&'b str, &'c str)]) -> (map: Self)
        ensures
            map@ == servers_of(servers@),
    {
        let mut map = JiraServerMap::default();
        let mut i: usize = 0;
        assert(servers@.take(0) =~= Seq::<(&str, &str)>::empty());
        while i < servers.len()
            invariant
                i <= servers.len(),
                map@ == servers_of(servers@.take(i as int)),
            decreases servers.len() - i,
        {
            let ghost upto = servers@.take(i as int + 1);
            assert(upto.drop_last() =~= servers@.take(i as int));
            assert(upto.last() == servers@[i as int]);
            map.insert(servers[i].0.to_owned(), JiraServer::new(servers[i].1));
            i = i + 1;
        }
        assert(servers@.take(i as int) =~= servers@);
        map
    }
}

/// What [`JiraServerMap::from`] returns is stated by its own contract: it is
/// told by its view, and no function picks one registry for each list.
impl<'a, 'b, 'c> vstd::std_specs::convert::FromSpecImpl<&'a [(&'b str, &'c str)]> for JiraServerMap {
    open spec fn obeys_from_spec() -> bool {
        false
    }

    open spec fn from_spec(servers: &'a [(&'b str, &'c str)]) -> Self {
        arbitrary()
    }
}

/// The element's name as an owned text; `None` for a node that is no element.
pub fn get_tag_name(tag: &Node) -> (name: Option<String>)
    ensures
        match name {
            Some(n) => tag@.tag_name() == Some(n@),
            None => tag@.tag_name() is None,
        },
{
    match &tag.kind {
        NodeKind::Element { name, .. } => Some(name.clone()),
        _ => None,
    }
}

/// What a node contributes itself to the text of its subtree: the minified
/// contents of a text node that is not blank, and nothing otherwise.
pub open spec fn own_text(tag: NodeView) -> Seq<char> {
    match tag.kind {
        NodeKindView::Text { contents } => if is_blank(contents) {
            Seq::empty()
        } else {
            minified(contents)
        },
        _ => Seq::empty(),
    }
}

/// The text of a subtree: the node's own text, then the text of each child in
/// document order.
pub open spec fn text_content(tag: NodeView) -> Seq<char>
    decreases tag,
{
    own_text(tag) + text_content_of(tag.children)
}

/// The texts of several subtrees, one after the other.
pub open spec fn text_content_of(nodes: Seq<NodeView>) -> Seq<char>
    decreases nodes,
{
    if nodes.len() == 0 {
        Seq::empty()
    } else {
        text_content(nodes[0]) + text_content_of(nodes.drop_first())
    }
}

/// Collects the text of a subtree.
pub fn get_text_content(tag: &Node) -> (content: String)
    ensures
        content@ == text_content(tag@),
    decreases tag,
{
    let mut content = match &tag.kind {
        NodeKind::Text { contents } => {
            if text_is_blank(contents.as_str()) {
                String::new()
            } else {
                minify(contents.as_str())
            }
        },
        _ => String::new(),
    };
    assert(content@ == own_text(tag@));
    let mut i: usize = 0;
    proof {
        tag.lemma_children();
    }
    assert(tag@.children.skip(0) =~= tag@.children);
    assert(content@ + text_content_of(tag@.children.skip(0)) == text_content(tag@));
    while i < tag.children.len()
        invariant
            i <= tag.children.len(),
            tag@.children.len() == tag.children@.len(),
            content@ + text_content_of(tag@.children.skip(i as int)) == text_content(tag@),
        decreases tag.children.len() - i,
    {
        let ghost rest = tag@.children.skip(i as int);
        let ghost before = content@;
        proof {
            tag.lemma_children();
        }
        assert(rest[0] == tag.children@[i as int]@);
        assert(rest.drop_first() == tag@.children.skip(i as int + 1));
        let child = get_text_content(&tag.children[i]);
        content.append(child.as_str());
        assert(content@ + text_content_of(tag@.children.skip(i as int + 1)) =~= before
            + text_content_of(rest));
        i = i + 1;
    }
    assert(tag@.children.skip(i as int) =~= Seq::<NodeView>::empty());
    assert(content@ + Seq::<char>::empty() =~= content@);
    content
}

} // verus!

//! Links: the body is rendered by the walk, then wrapped into `[body](url)`.
//!
//! A link points to what the first of its references resolves to. A reference
//! that does not resolve, for want of configuration, is passed over, and a
//! link none of whose references resolves gets the empty target: `[body]()`.
//! A link never makes the conversion fail.
use crate::encoding::{lemma_ascii_bytes, lemma_boundary_in_extension, lemma_encode_concat};
use crate::node::{get_tag_attr, Node, NodeView};
use crate::printer::{
    append_str, insert_str, printed_len, printer_bytes, printer_data, printer_text,
};
use crate::text::as_text;
use crate::util::{
    spec_attachment_url, spec_page_url, spec_user_url_with_key, spec_user_url_with_name,
    ConfluencePageId, ConfluenceServer,
};
use html2md::StructuredPrinter;
use vstd::prelude::*;
use vstd::string::*;
use vstd::utf8::*;

verus! {

/// What a URL builder knows: the wiki's base URL, the space that pages without
/// a space key belong to, and the page that attachments hang on. Each may be
/// missing.
pub struct UrlBuilderView {
    pub server: Option<Seq<char>>,
    pub default_space: Option<Seq<char>>,
    pub page_id: Option<nat>,
}

impl UrlBuilderView {
    /// The URL of the page called `title` in the space `space_key`, or in the
    /// default space where no key is given. Unresolved without a server, and
    /// without any space.
    pub open spec fn page_url(self, space_key: Option<Seq<char>>, title: Seq<char>) -> Option<
        Seq<char>,
    > {
        match (self.server, space_key, self.default_space) {
            (Some(base), Some(space), _) => Some(spec_page_url(base, space, title)),
            (Some(base), None, Some(space)) => Some(spec_page_url(base, space, title)),
            _ => None,
        }
    }

    /// The URL of the attachment `filename` of the current page. Unresolved
    /// without a server or without a current page.
    pub open spec fn attachment_url(self, filename: Seq<char>) -> Option<Seq<char>> {
        match (self.server, self.page_id) {
            (Some(base), Some(page_id)) => Some(spec_attachment_url(base, page_id, filename)),
            _ => None,
        }
    }

    /// The URL of a user's profile, by name where a name is given and else by
    /// key. Unresolved without a server, and where neither is given.
    pub open spec fn user_url(
        self,
        username: Option<Seq<char>>,
        userkey: Option<Seq<char>>,
    ) -> Option<Seq<char>> {
        match (self.server, username, userkey) {
            (Some(base), Some(name), _) => Some(spec_user_url_with_name(base, name)),
            (Some(base), None, Some(key)) => Some(spec_user_url_with_key(base, key)),
            _ => None,
        }
    }

    /// The URL that one child of a link stands for: a page, an attachment or a
    /// user reference that can be resolved. Any other child stands for none.
    pub open spec fn reference_url(self, child: NodeView) -> Option<Seq<char>> {
        if child.is_element("ri:page"@) {
            match child.attr("ri:content-title"@) {
                Some(title) => self.page_url(child.attr("ri:space-key"@), title),
                None => None,
            }
        } else if child.is_element("ri:attachment"@) {
            match child.attr("ri:filename"@) {
                Some(filename) => self.attachment_url(filename),
                None => None,
            }
        } else if child.is_element("ri:user"@) {
            self.user_url(child.attr("ri:username"@), child.attr("ri:userkey"@))
        } else {
            None
        }
    }

    /// The URL of the first of `children` that stands for one.
    pub open spec fn first_reference_url(self, children: Seq<NodeView>) -> Option<Seq<char>>
        decreases children.len(),
    {
        if children.len() == 0 {
            None
        } else if self.reference_url(children[0]) is Some {
            self.reference_url(children[0])
        } else {
            self.first_reference_url(children.drop_first())
        }
    }

    /// Where a link element points: the URL of its first resolvable
    /// reference, or nothing where there is none, and then, where the element
    /// has an anchor, `#` and the anchor.
    pub open spec fn link_target(self, tag: NodeView) -> Seq<char> {
        let url = match self.first_reference_url(tag.children) {
            Some(url) => url,
            None => Seq::empty(),
        };
        match tag.attr("ac:anchor"@) {
            Some(anchor) => url + "#"@ + anchor,
            None => url,
        }
    }
}

/// Resolves the references of links against one wiki.
#[derive(Debug)]
pub struct LinkHandlerUrlBuilder {
    server: Option<ConfluenceServer>,
    default_space: Option<String>,
    page_id: Option<ConfluencePageId>,
}

impl View for LinkHandlerUrlBuilder {
    type V = UrlBuilderView;

    closed spec fn view(&self) -> UrlBuilderView {
        UrlBuilderView {
            server: match self.server {
                Some(server) => Some(server@),
                None => None,
            },
            default_space: match self.default_space {
                Some(space) => Some(space@),
                None => None,
            },
            page_id: match self.page_id {
                Some(page_id) => Some(page_id@),
                None => None,
            },
        }
    }
}

impl Clone for LinkHandlerUrlBuilder {
    fn clone(&self) -> (r: Self)
        ensures
            r@ == self@,
    {
        LinkHandlerUrlBuilder {
            server: match &self.server {
                Some(server) => Some(server.clone()),
                None => None,
            },
            default_space: match &self.default_space {
                Some(space) => Some(space.clone()),
                None => None,
            },
            page_id: self.page_id,
        }
    }
}

impl LinkHandlerUrlBuilder {
    pub fn new(
        server: Option<ConfluenceServer>,
        default_space: Option<String>,
        page_id: Option<ConfluencePageId>,
    ) -> (builder: Self)
        ensures
            builder@.server == match server {
                Some(s) => Some(s@),
                None => None,
            },
            builder@.default_space == match default_space {
                Some(s) => Some(s@),
                None => None,
            },
            builder@.page_id == match page_id {
                Some(p) => Some(p@),
                None => None,
            },
    {
        Self { server, default_space, page_id }
    }

    /// The URL of a page in a given space; `None` without a server.
    pub fn url_from_page_space_and_title(&self, space_key: &str, page_title: &str) -> (url:
        Option<String>)
        ensures
            match url {
                Some(u) => self@.page_url(Some(space_key@), page_title@) == Some(u@),
                None => self@.page_url(Some(space_key@), page_title@) is None,
            },
    {
        match &self.server {
            Some(server) => Some(server.page_url_with_space_and_title(space_key, page_title)),
            None => None,
        }
    }

    /// The URL of a page in the default space; `None` without a server or
    /// without a default space.
    pub fn url_from_page_title(&self, page_title: &str) -> (url: Option<String>)
        ensures
            match url {
                Some(u) => self@.page_url(None, page_title@) == Some(u@),
                None => self@.page_url(None, page_title@) is None,
            },
    {
        match &self.default_space {
            Some(space) => self.url_from_page_space_and_title(space.as_str(), page_title),
            None => None,
        }
    }

    /// The URL of an attachment of the current page; `None` without a server
    /// or without a current page.
    pub fn url_from_attachment_filename(&self, filename: &str) -> (url: Option<String>)
        ensures
            match url {
                Some(u) => self@.attachment_url(filename@) == Some(u@),
                None => self@.attachment_url(filename@) is None,
            },
    {
        match (&self.server, &self.page_id) {
            (Some(server), Some(page_id)) => Some(server.attachment_url(page_id, filename)),
            _ => None,
        }
    }

    /// The URL of a user's profile by user name; `None` without a server.
    pub fn url_from_user_name(&self, username: &str) -> (url: Option<String>)
        ensures
            match url {
                Some(u) => self@.user_url(Some(username@), None) == Some(u@),
                None => self@.user_url(Some(username@), None) is None,
            },
    {
        match &self.server {
            Some(server) => Some(server.user_url_with_name(username)),
            None => None,
        }
    }

    /// The URL of a user's profile by user key; `None` without a server.
    pub fn url_from_user_key(&self, userkey: &str) -> (url: Option<String>)
        ensures
            match url {
                Some(u) => self@.user_url(None, Some(userkey@)) == Some(u@),
                None => self@.user_url(None, Some(userkey@)) is None,
            },
    {
        match &self.server {
            Some(server) => Some(server.user_url_with_key(userkey)),
            None => None,
        }
    }

    /// Resolves a page reference: in the space given, else in the default
    /// space.
    pub fn resolve_page(&self, space_key: Option<&str>, title: &str) -> (url: Option<String>)
        ensures
            match url {
                Some(u) => self@.page_url(
                    match space_key {
                        Some(s) => Some(s@),
                        None => None,
                    },
                    title@,
                ) == Some(u@),
                None => self@.page_url(
                    match space_key {
                        Some(s) => Some(s@),
                        None => None,
                    },
                    title@,
                ) is None,
            },
    {
        match space_key {
            Some(space) => self.url_from_page_space_and_title(space, title),
            None => self.url_from_page_title(title),
        }
    }

    /// Resolves a user reference: by name where a name is given, else by key.
    pub fn resolve_user(&self, username: Option<&str>, userkey: Option<&str>) -> (url: Option<
        String,
    >)
        ensures
            match url {
                Some(u) => self@.user_url(
                    match username {
                        Some(s) => Some(s@),
                        None => None,
                    },
                    match userkey {
                        Some(s) => Some(s@),
                        None => None,
                    },
                ) == Some(u@),
                None => self@.user_url(
                    match username {
                        Some(s) => Some(s@),
                        None => None,
                    },
                    match userkey {
                        Some(s) => Some(s@),
                        None => None,
                    },
                ) is None,
            },
    {
        match username {
            Some(name) => self.url_from_user_name(name),
            None => match userkey {
                Some(key) => self.url_from_user_key(key),
                None => None,
            },
        }
    }

    /// Resolves one child of a link element.
    pub fn resolve_reference(&self, child: &Node) -> (url: Option<String>)
        ensures
            match url {
                Some(u) => self@.reference_url(child@) == Some(u@),
                None => self@.reference_url(child@) is None,
            },
    {
        if child.has_tag_name("ri:page") {
            let title = get_tag_attr(child, "ri:content-title");
            let space_key = get_tag_attr(child, "ri:space-key");
            match title {
                Some(title) => self.resolve_page(as_text(&space_key), title.as_str()),
                None => None,
            }
        } else if child.has_tag_name("ri:attachment") {
            match get_tag_attr(child, "ri:filename") {
                Some(filename) => self.url_from_attachment_filename(filename.as_str()),
                None => None,
            }
        } else if child.has_tag_name("ri:user") {
            let username = get_tag_attr(child, "ri:username");
            let userkey = get_tag_attr(child, "ri:userkey");
            self.resolve_user(as_text(&username), as_text(&userkey))
        } else {
            None
        }
    }
}

/// Resolving the same reference against the same configuration gives the
/// same URL: the outcome depends on nothing but what the builder holds and
/// what the reference holds. Two builders and two nodes with equal views
/// cannot be told apart by resolving.
pub proof fn lemma_resolution_is_idempotent(
    first: LinkHandlerUrlBuilder,
    second: LinkHandlerUrlBuilder,
    a: Node,
    b: Node,
)
    requires
        first@ == second@,
        a@ == b@,
    ensures
        first@.reference_url(a@) == second@.reference_url(b@),
        first@.link_target(a@) == second@.link_target(b@),
{
}

/// A link handler between enter and exit: the offset at which the link's body
/// starts, where the link points once it was entered, and the builder.
pub struct LinkState {
    pub start: nat,
    pub url: Option<Seq<char>>,
    pub builder: UrlBuilderView,
}

/// `bytes` with the text from `start` on made the body of a link to `target`:
/// `[` goes in at `start`, and `](`, the target and `)` follow at the end.
pub open spec fn linked(bytes: Seq<u8>, start: int, target: Seq<u8>) -> Seq<u8> {
    bytes.subrange(0, start) + seq![0x5bu8] + bytes.subrange(start, bytes.len() as int)
        + seq![0x5du8, 0x28u8] + target + seq![0x29u8]
}

/// Entering a link, printing a body and leaving the link wraps the body: where
/// the text has only grown by `body` since the link was entered, the noted
/// offset is a character boundary, and leaving turns the text into
/// `before[body](target)`.
pub proof fn lemma_link_wraps_body(before: Seq<char>, body: Seq<char>, target: Seq<char>)
    ensures
        is_char_boundary(encode_utf8(before + body), encode_utf8(before).len() as int),
        linked(encode_utf8(before + body), encode_utf8(before).len() as int, encode_utf8(target))
            == encode_utf8(before + "["@ + body + "]("@ + target + ")"@),
{
    let start = encode_utf8(before).len() as int;
    let grown = encode_utf8(before + body);
    reveal_strlit("](");
    reveal_strlit(")");
    reveal_strlit("[");
    lemma_ascii_bytes("]("@, seq![0x5du8, 0x28u8]);
    lemma_ascii_bytes(")"@, seq![0x29u8]);
    lemma_ascii_bytes("["@, seq![0x5bu8]);
    lemma_encode_concat(before, body);
    lemma_encode_concat(before, "["@);
    lemma_encode_concat(before + "["@, body);
    lemma_encode_concat(before + "["@ + body, "]("@);
    lemma_encode_concat(before + "["@ + body + "]("@, target);
    lemma_encode_concat(before + "["@ + body + "]("@ + target, ")"@);
    encode_utf8_valid_utf8(before);
    encode_utf8_valid_utf8(body);
    is_char_boundary_start_end_of_seq(encode_utf8(before));
    lemma_boundary_in_extension(encode_utf8(before), encode_utf8(body), start);
    assert(grown.subrange(0, start) =~= encode_utf8(before));
    assert(grown.subrange(start, grown.len() as int) =~= encode_utf8(body));
}

/// Renders a link element. The element's body is rendered by the walk between
/// [`LinkHandler::handle`] and [`LinkHandler::after_handle`].
pub struct LinkHandler {
    start_pos: usize,
    url: Option<String>,
    url_builder: LinkHandlerUrlBuilder,
}

impl View for LinkHandler {
    type V = LinkState;

    closed spec fn view(&self) -> LinkState {
        LinkState {
            start: self.start_pos as nat,
            url: match self.url {
                Some(url) => Some(url@),
                None => None,
            },
            builder: self.url_builder@,
        }
    }
}

impl LinkHandler {
    pub fn with_url_builder(url_builder: LinkHandlerUrlBuilder) -> (handler: Self)
        ensures
            handler@ == (LinkState { start: 0, url: None, builder: url_builder@ }),
    {
        Self { start_pos: 0, url: None, url_builder }
    }

    /// Enters a link element: notes where its body will start and where the
    /// link points. Nothing is printed yet.
    pub fn handle(&mut self, tag: &Node, printer: &mut StructuredPrinter)
        ensures
            final(self)@ == (LinkState {
                start: printer_bytes(*old(printer)).len(),
                url: Some(old(self)@.builder.link_target(tag@)),
                builder: old(self)@.builder,
            }),
            *final(printer) == *old(printer),
    {
        self.start_pos = printed_len(printer);
        let anchor = get_tag_attr(tag, "ac:anchor");
        let mut url: Option<String> = None;
        let mut i: usize = 0;
        proof {
            tag.lemma_children();
        }
        assert(tag@.children.skip(0) =~= tag@.children);
        while i < tag.children.len() && url.is_none()
            invariant
                i <= tag.children.len(),
                tag@.children.len() == tag.children@.len(),
                self.url_builder@ == old(self)@.builder,
                self.url_builder@.first_reference_url(tag@.children) == match url {
                    Some(u) => Some(u@),
                    None => self.url_builder@.first_reference_url(tag@.children.skip(i as int)),
                },
            decreases tag.children.len() - i,
        {
            proof {
                tag.lemma_children();
            }
            assert(tag@.children.skip(i as int)[0] == tag.children@[i as int]@);
            assert(tag@.children.skip(i as int).drop_first() == tag@.children.skip(i as int + 1));
            url = self.url_builder.resolve_reference(&tag.children[i]);
            i = i + 1;
        }
        let mut target = match url {
            Some(u) => u,
            None => String::new(),
        };
        match anchor {
            Some(anchor) => {
                target.append("#");
                target.append(anchor.as_str());
            },
            None => {},
        }
        assert(target@ =~= self.url_builder@.link_target(tag@));
        self.url = Some(target);
    }

    /// Leaves a link element: what was printed since the element was entered
    /// becomes the link's text, followed by the target.
    ///
    /// The handler must have been entered, and the offset that it noted must
    /// still be a character boundary of the text, as it is when the text has
    /// only grown since.
    pub fn after_handle(&mut self, printer: &mut StructuredPrinter)
        requires
            old(self)@.url is Some,
            is_char_boundary(printer_bytes(*old(printer)), old(self)@.start as int),
        ensures
            printer_bytes(*final(printer)) == linked(
                printer_bytes(*old(printer)),
                old(self)@.start as int,
                encode_utf8(old(self)@.url->0),
            ),
            *final(self) == *old(self),
    {
        match &self.url {
            Some(url) => {
                let mut suffix = "](".to_owned();
                suffix.append(url.as_str());
                suffix.append(")");
                let ghost before = printer_bytes(*printer);
                let ghost start = self.start_pos as int;
                proof {
                    reveal_strlit("](");
                    reveal_strlit(")");
                    reveal_strlit("[");
                    lemma_ascii_bytes("]("@, seq![0x5du8, 0x28u8]);
                    lemma_ascii_bytes(")"@, seq![0x29u8]);
                    lemma_ascii_bytes("["@, seq![0x5bu8]);
                    lemma_encode_concat("]("@, url@);
                    lemma_encode_concat("]("@ + url@, ")"@);
                    lemma_encode_concat(printer_text(*printer), suffix@);
                    encode_utf8_valid_utf8(printer_text(*printer));
                    encode_utf8_valid_utf8(suffix@);
                    lemma_boundary_in_extension(before, encode_utf8(suffix@), start);
                    assert(0 <= start <= before.len());
                }
                append_str(printer, suffix.as_str());
                let ghost grown = printer_bytes(*printer);
                assert(grown == before + encode_utf8(suffix@));
                assert(grown.subrange(0, start) =~= before.subrange(0, start));
                assert(grown.subrange(start, grown.len() as int) =~= before.subrange(
                    start,
                    before.len() as int,
                ) + encode_utf8(suffix@));
                insert_str(printer, self.start_pos, "[");
                assert(printer_bytes(*printer) =~= linked(before, start, encode_utf8(url@)));
            },
            None => {},
        }
    }

    /// Tells whether the handler can be left with what `printer` holds: it
    /// was entered, and the offset that it noted falls between two characters
    /// of the text.
    pub fn can_leave(&self, printer: &StructuredPrinter) -> (ready: bool)
        ensures
            ready == (self@.url is Some && is_char_boundary(
                printer_bytes(*printer),
                self@.start as int,
            )),
    {
        self.url.is_some() && printer_data(printer).is_char_boundary(self.start_pos)
    }

    /// The body of a link is rendered by the walk.
    pub fn skip_descendants(&self) -> (skip: bool)
        ensures
            !skip,
    {
        false
    }
}

/// Makes a fresh [`LinkHandler`] for every link element.
pub struct LinkHandlerFactory {
    url_builder: LinkHandlerUrlBuilder,
}

impl View for LinkHandlerFactory {
    type V = UrlBuilderView;

    closed spec fn view(&self) -> UrlBuilderView {
        self.url_builder@
    }
}

impl LinkHandlerFactory {
    pub fn with_url_builder(url_builder: LinkHandlerUrlBuilder) -> (factory: Self)
        ensures
            factory@ == url_builder@,
    {
        Self { url_builder }
    }

    pub fn instantiate(&self) -> (handler: LinkHandler)
        ensures
            handler@ == (LinkState { start: 0, url: None, builder: self@ }),
    {
        LinkHandler::with_url_builder(self.url_builder.clone())
    }
}

} // verus!

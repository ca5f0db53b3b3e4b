//! Images: one inline `![caption](url)` for the whole element.
//!
//! An image shows what the first of its sources resolves to. A source that
//! does not resolve, for want of configuration, is passed over, and an image
//! none of whose sources resolves is left out. An image never makes the
//! conversion fail.
use crate::node::{get_tag_attr, Node, NodeView};
use crate::printer::{append_str, printer_text};
use crate::util::{spec_attachment_url, ConfluencePageId, ConfluenceServer};
use html2md::StructuredPrinter;
use vstd::prelude::*;
use vstd::string::*;

verus! {

/// The URL that one child of an image element stands for: the value of a URL
/// reference, or the URL of an attachment of `page`. An attachment stands for
/// no URL where the page is not known.
pub open spec fn image_source(page: Option<(Seq<char>, nat)>, child: NodeView) -> Option<
    Seq<char>,
> {
    if child.is_element("ri:url"@) {
        child.attr("ri:value"@)
    } else if child.is_element("ri:attachment"@) {
        match (page, child.attr("ri:filename"@)) {
            (Some((base_url, page_id)), Some(filename)) => Some(
                spec_attachment_url(base_url, page_id, filename),
            ),
            _ => None,
        }
    } else {
        None
    }
}

/// The URL of the first of `children` that stands for one.
pub open spec fn first_image_source(
    page: Option<(Seq<char>, nat)>,
    children: Seq<NodeView>,
) -> Option<Seq<char>>
    decreases children.len(),
{
    if children.len() == 0 {
        None
    } else if image_source(page, children[0]) is Some {
        image_source(page, children[0])
    } else {
        first_image_source(page, children.drop_first())
    }
}

/// The caption of an image element: its title, else its alternative text,
/// else nothing.
pub open spec fn image_caption(tag: NodeView) -> Seq<char> {
    match (tag.attr("ac:title"@), tag.attr("ac:alt"@)) {
        (Some(title), _) => title,
        (None, Some(alt)) => alt,
        (None, None) => Seq::empty(),
    }
}

/// What an image element renders to: `![caption](url)`, and nothing where no
/// child stands for a URL.
pub open spec fn image_markup(page: Option<(Seq<char>, nat)>, tag: NodeView) -> Seq<char> {
    match first_image_source(page, tag.children) {
        Some(url) => "!["@ + image_caption(tag) + "]("@ + url + ")"@,
        None => Seq::empty(),
    }
}

/// The view of the page that attachments are resolved against.
pub open spec fn page_view(page: Option<(ConfluenceServer, ConfluencePageId)>) -> Option<
    (Seq<char>, nat),
> {
    match page {
        Some((server, page_id)) => Some((server@, page_id@)),
        None => None,
    }
}

fn clone_page(page: &Option<(ConfluenceServer, ConfluencePageId)>) -> (r: Option<
    (ConfluenceServer, ConfluencePageId),
>)
    ensures
        r == *page,
{
    match page {
        Some((server, page_id)) => Some((server.clone(), *page_id)),
        None => None,
    }
}

/// Renders an image element. Its view is the page that attachments are
/// resolved against: the server's base URL and the page's number.
pub struct ImageHandler {
    page: Option<(ConfluenceServer, ConfluencePageId)>,
}

impl Default for ImageHandler {
    fn default() -> (handler: Self)
        ensures
            handler@ is None,
    {
        Self { page: None }
    }
}

impl View for ImageHandler {
    type V = Option<(Seq<char>, nat)>;

    closed spec fn view(&self) -> Option<(Seq<char>, nat)> {
        page_view(self.page)
    }
}

impl ImageHandler {
    pub fn with_confluence_page(page: Option<(ConfluenceServer, ConfluencePageId)>) -> (handler:
        Self)
        ensures
            handler@ == page_view(page),
    {
        Self { page }
    }

    /// Resolves one child of an image element.
    pub fn resolve_source(&self, child: &Node) -> (url: Option<String>)
        ensures
            match url {
                Some(u) => image_source(self@, child@) == Some(u@),
                None => image_source(self@, child@) is None,
            },
    {
        if child.has_tag_name("ri:url") {
            get_tag_attr(child, "ri:value")
        } else if child.has_tag_name("ri:attachment") {
            match &self.page {
                Some((server, page_id)) => match get_tag_attr(child, "ri:filename") {
                    Some(filename) => Some(server.attachment_url(page_id, filename.as_str())),
                    None => None,
                },
                None => None,
            }
        } else {
            None
        }
    }

    /// Prints the image. An image without a resolvable source prints
    /// nothing.
    pub fn handle(&mut self, tag: &Node, printer: &mut StructuredPrinter)
        ensures
            printer_text(*final(printer)) == printer_text(*old(printer)) + image_markup(
                old(self)@,
                tag@,
            ),
            *final(self) == *old(self),
    {
        let caption = match get_tag_attr(tag, "ac:title") {
            Some(title) => Some(title),
            None => get_tag_attr(tag, "ac:alt"),
        };
        let mut url: Option<String> = None;
        let mut i: usize = 0;
        proof {
            tag.lemma_children();
        }
        assert(tag@.children.skip(0) =~= tag@.children);
        while i < tag.children.len() && url.is_none()
            invariant
                i <= tag.children.len(),
                tag@.children.len() == tag.children@.len(),
                *self == *old(self),
                first_image_source(self@, tag@.children) == match url {
                    Some(u) => Some(u@),
                    None => first_image_source(self@, tag@.children.skip(i as int)),
                },
            decreases tag.children.len() - i,
        {
            proof {
                tag.lemma_children();
            }
            assert(tag@.children.skip(i as int)[0] == tag.children@[i as int]@);
            assert(tag@.children.skip(i as int).drop_first() == tag@.children.skip(i as int + 1));
            url = self.resolve_source(&tag.children[i]);
            i = i + 1;
        }
        match url {
            Some(url) => {
                let mut markup = "![".to_owned();
                match &caption {
                    Some(caption) => markup.append(caption.as_str()),
                    None => {},
                }
                markup.append("](");
                markup.append(url.as_str());
                markup.append(")");
                assert(markup@ =~= image_markup(self@, tag@));
                append_str(printer, markup.as_str());
            },
            None => {
                assert(printer_text(*printer) =~= printer_text(*printer) + Seq::<char>::empty());
            },
        }
    }

    /// Nothing is left to do when the element is left.
    pub fn after_handle(&mut self, printer: &mut StructuredPrinter)
        ensures
            *final(printer) == *old(printer),
            *final(self) == *old(self),
    {
    }

    /// The children of an image are read by the handler, not rendered.
    pub fn skip_descendants(&self) -> (skip: bool)
        ensures
            skip,
    {
        true
    }
}

/// Makes a fresh [`ImageHandler`] for every image element.
pub struct ImageHandlerFactory {
    page: Option<(ConfluenceServer, ConfluencePageId)>,
}

impl View for ImageHandlerFactory {
    type V = Option<(Seq<char>, nat)>;

    closed spec fn view(&self) -> Option<(Seq<char>, nat)> {
        page_view(self.page)
    }
}

impl ImageHandlerFactory {
    pub fn with_confluence_page(page: Option<(ConfluenceServer, ConfluencePageId)>) -> (factory:
        Self)
        ensures
            factory@ == page_view(page),
    {
        Self { page }
    }

    pub fn instantiate(&self) -> (handler: ImageHandler)
        ensures
            handler@ == self@,
    {
        ImageHandler::with_confluence_page(clone_page(&self.page))
    }
}

} // verus!

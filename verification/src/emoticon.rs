//! Emoticons: a fixed table from emoticon names to emoji shortcodes.
use crate::node::{get_tag_attr, Node, NodeView};
use crate::printer::{append_str, printer_text};
use crate::text::str_eq;
use html2md::StructuredPrinter;
use vstd::prelude::*;
use vstd::string::*;

verus! {

/// The shortcode for an emoticon name; `None` for a name that is not known.
pub open spec fn emoticon_shortcode(name: Seq<char>) -> Option<Seq<char>> {
    if name == "smile"@ {
        Some(":slightly_smiling_face:"@)
    } else if name == "sad"@ {
        Some(":slightly_frowning_face:"@)
    } else if name == "cheeky"@ {
        Some(":stuck_out_tongue:"@)
    } else if name == "laugh"@ {
        Some(":smiley:"@)
    } else if name == "wink"@ {
        Some(":wink:"@)
    } else if name == "thumbs-up"@ {
        Some(":thumbsup:"@)
    } else if name == "thumbs-down"@ {
        Some(":thumbsdown:"@)
    } else if name == "information"@ {
        Some(":information_source:"@)
    } else if name == "tick"@ {
        Some(":white_check_mark:"@)
    } else if name == "cross"@ {
        Some(":x:"@)
    } else if name == "warning"@ {
        Some(":warning:"@)
    } else if name == "plus"@ {
        Some(":heavy_plus_sign:"@)
    } else if name == "minus"@ {
        Some(":heavy_minus_sign:"@)
    } else if name == "question"@ {
        Some(":question:"@)
    } else if name == "light-on"@ {
        Some(":bulb:"@)
    } else if name == "light-off"@ {
        Some(":bulb: (off)"@)
    } else if name == "yellow-star"@ {
        Some(":star:"@)
    } else if name == "red-star"@ {
        Some(":star: (red)"@)
    } else if name == "green-star"@ {
        Some(":star: (green)"@)
    } else if name == "blue-star"@ {
        Some(":star: (blue)"@)
    } else {
        None
    }
}

/// What an emoticon element renders to: the shortcode for its name, and
/// nothing for an element without a name or with a name that is not known.
pub open spec fn emoticon_markup(tag: NodeView) -> Seq<char> {
    match tag.attr("ac:name"@) {
        Some(name) => match emoticon_shortcode(name) {
            Some(shortcode) => shortcode,
            None => Seq::empty(),
        },
        None => Seq::empty(),
    }
}

/// Looks up the shortcode for an emoticon name.
pub fn confluence_emoticon_to_markdown(name: &str) -> (shortcode: Option<&'static str>)
    ensures
        match shortcode {
            Some(s) => emoticon_shortcode(name@) == Some(s@),
            None => emoticon_shortcode(name@) is None,
        },
{
    if str_eq(name, "smile") {
        Some(":slightly_smiling_face:")
    } else if str_eq(name, "sad") {
        Some(":slightly_frowning_face:")
    } else if str_eq(name, "cheeky") {
        Some(":stuck_out_tongue:")
    } else if str_eq(name, "laugh") {
        Some(":smiley:")
    } else if str_eq(name, "wink") {
        Some(":wink:")
    } else if str_eq(name, "thumbs-up") {
        Some(":thumbsup:")
    } else if str_eq(name, "thumbs-down") {
        Some(":thumbsdown:")
    } else if str_eq(name, "information") {
        Some(":information_source:")
    } else if str_eq(name, "tick") {
        Some(":white_check_mark:")
    } else if str_eq(name, "cross") {
        Some(":x:")
    } else if str_eq(name, "warning") {
        Some(":warning:")
    } else if str_eq(name, "plus") {
        Some(":heavy_plus_sign:")
    } else if str_eq(name, "minus") {
        Some(":heavy_minus_sign:")
    } else if str_eq(name, "question") {
        Some(":question:")
    } else if str_eq(name, "light-on") {
        Some(":bulb:")
    } else if str_eq(name, "light-off") {
        Some(":bulb: (off)")
    } else if str_eq(name, "yellow-star") {
        Some(":star:")
    } else if str_eq(name, "red-star") {
        Some(":star: (red)")
    } else if str_eq(name, "green-star") {
        Some(":star: (green)")
    } else if str_eq(name, "blue-star") {
        Some(":star: (blue)")
    } else {
        None
    }
}

/// Renders an emoticon element.
#[derive(Default)]
pub struct EmoticonHandler;

impl EmoticonHandler {
    /// Prints the shortcode of the emoticon.
    pub fn handle(&mut self, tag: &Node, printer: &mut StructuredPrinter)
        ensures
            printer_text(*final(printer)) == printer_text(*old(printer)) + emoticon_markup(tag@),
    {
        let name = get_tag_attr(tag, "ac:name");
        let emoticon = match &name {
            Some(name) => confluence_emoticon_to_markdown(name.as_str()),
            None => None,
        };
        match emoticon {
            Some(emoticon) => {
                append_str(printer, emoticon);
            },
            None => {
                assert(printer_text(*printer) =~= printer_text(*printer) + Seq::<char>::empty());
            },
        }
    }

    /// Nothing is left to do when the element is left.
    pub fn after_handle(&mut self, printer: &mut StructuredPrinter)
        ensures
            *final(printer) == *old(printer),
    {
    }

    /// An emoticon has no children worth rendering.
    pub fn skip_descendants(&self) -> (skip: bool)
        ensures
            skip,
    {
        true
    }
}

/// Makes an [`EmoticonHandler`] for every emoticon element.
pub struct EmoticonHandlerFactory;

impl EmoticonHandlerFactory {
    pub fn instantiate(&self) -> EmoticonHandler {
        EmoticonHandler {  }
    }
}

} // verus!

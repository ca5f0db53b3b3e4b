//! Alert macros (`info`, `tip`, `note`, `warning`): the body is rendered by the
//! walk, then turned into a quote block under a header line.
use crate::encoding::{
    lemma_ascii_bytes, lemma_boundary_in_extension, lemma_boundary_same_prefix,
    lemma_encode_concat, lemma_two_line_feeds,
};
use crate::macros::quote::{
    lemma_counts_behind_plain_prefix, lemma_plain_has_no_line_feeds, lemma_quoted_counts,
    lemma_quoted_text_bytes, line_feed, line_feeds, lines, quote_printed_lines, quoted,
    quoted_lines, quoted_text, starts_quoted,
};
use crate::macros::{find_parameter_text, first_parameter_text};
use crate::node::{get_tag_attr, Node};
use crate::printer::{
    insert_newline, insert_str, lemma_spliced_twice, printed_len, printer_bytes, printer_data,
    printer_text,
};
use crate::text::str_eq;
use html2md::StructuredPrinter;
use std::str::FromStr;
use vstd::prelude::*;
use vstd::string::*;
use vstd::utf8::*;

verus! {

/// The four kinds of alert.
#[derive(Debug, Clone, Copy, PartialEq, Eq, Structural)]
pub enum HighlightType {
    Info,
    Tip,
    Note,
    Warning,
}

/// The kind of alert that a macro name stands for.
pub open spec fn highlight_type_of(name: Seq<char>) -> Option<HighlightType> {
    if name == "info"@ {
        Some(HighlightType::Info)
    } else if name == "tip"@ {
        Some(HighlightType::Tip)
    } else if name == "note"@ {
        Some(HighlightType::Note)
    } else if name == "warning"@ {
        Some(HighlightType::Warning)
    } else {
        None
    }
}

impl HighlightType {
    pub const GFM_ALERT_NOTE: &'static str = "[!NOTE]";

    pub const GFM_ALERT_TIP: &'static str = "[!TIP]";

    pub const GFM_ALERT_INFO: &'static str = "[!IMPORTANT]";

    pub const GFM_ALERT_WARNING: &'static str = "[!WARNING]";

    /// The marker that opens an alert of this kind.
    pub open spec fn marker(self) -> Seq<char> {
        match self {
            HighlightType::Info => "[!IMPORTANT]"@,
            HighlightType::Tip => "[!TIP]"@,
            HighlightType::Note => "[!NOTE]"@,
            HighlightType::Warning => "[!WARNING]"@,
        }
    }

    pub fn as_gfm_alert(&self) -> (marker: &'static str)
        ensures
            marker@ == self.marker(),
    {
        match self {
            HighlightType::Info => Self::GFM_ALERT_INFO,
            HighlightType::Tip => Self::GFM_ALERT_TIP,
            HighlightType::Note => Self::GFM_ALERT_NOTE,
            HighlightType::Warning => Self::GFM_ALERT_WARNING,
        }
    }
}

impl FromStr for HighlightType {
    type Err = &'static str;

    fn from_str(s: &str) -> (r: Result<Self, Self::Err>)
        ensures
            match r {
                Ok(kind) => highlight_type_of(s@) == Some(kind),
                Err(message) => highlight_type_of(s@) is None && message@ == "invalid name"@,
            },
    {
        if str_eq(s, "info") {
            Ok(HighlightType::Info)
        } else if str_eq(s, "tip") {
            Ok(HighlightType::Tip)
        } else if str_eq(s, "note") {
            Ok(HighlightType::Note)
        } else if str_eq(s, "warning") {
            Ok(HighlightType::Warning)
        } else {
            Err("invalid name")
        }
    }
}

/// The header of an alert: the quote marker and the alert's marker, and for an
/// alert with a title a second quoted line that holds the title in bold.
pub open spec fn alert_header(kind: HighlightType, title: Option<Seq<char>>) -> Seq<u8> {
    seq![0x3eu8, 0x20u8] + encode_utf8(kind.marker()) + match title {
        Some(title) => seq![line_feed(), 0x3eu8, 0x20u8, 0x2au8, 0x2au8] + encode_utf8(title)
            + seq![0x2au8, 0x2au8],
        None => Seq::empty(),
    }
}

/// The block that an alert becomes: its header, then its rendered body with
/// every line quoted.
pub open spec fn alert_block(kind: HighlightType, title: Option<Seq<char>>, body: Seq<u8>) -> Seq<
    u8,
> {
    alert_header(kind, title) + quoted(body)
}

/// The block that an alert becomes, as text: the quoted marker, for an alert
/// with a title a second quoted line with the title in bold, and then the
/// rendered body with every line quoted.
pub open spec fn alert_text(
    kind: HighlightType,
    title: Option<Seq<char>>,
    body: Seq<char>,
) -> Seq<char> {
    seq!['>', ' '] + kind.marker() + match title {
        Some(title) => seq!['\n', '>', ' ', '*', '*'] + title + seq!['*', '*'],
        None => Seq::empty(),
    } + quoted_text(body)
}

/// The text after an alert was left. `bytes` is the text before, in which the
/// line feed of the alert stands at `start` and the rendered body behind it.
/// The body becomes the alert's block, and two line feeds end it.
pub open spec fn alerted(
    bytes: Seq<u8>,
    start: int,
    kind: HighlightType,
    title: Option<Seq<char>>,
) -> Seq<u8> {
    bytes.subrange(0, start + 1) + alert_block(
        kind,
        title,
        bytes.subrange(start + 1, bytes.len() as int),
    ) + seq![line_feed(), line_feed()]
}

proof fn lemma_marker_is_plain(kind: HighlightType)
    ensures
        forall|i: int|
            0 <= i < encode_utf8(kind.marker()).len() ==> #[trigger] encode_utf8(kind.marker())[i]
                != line_feed(),
{
    reveal_strlit("[!IMPORTANT]");
    reveal_strlit("[!TIP]");
    reveal_strlit("[!NOTE]");
    reveal_strlit("[!WARNING]");
    is_ascii_chars_encode_utf8(kind.marker());
}

/// An alert whose rendered body holds `n` line feeds becomes a block of
/// `n + 1` lines, and of one more where it has a title. Every line of the
/// block starts with the quote marker: the header, each line of the body, and
/// the blank line that the body's last line feed leaves behind.
///
/// A title is taken to stand on one line.
pub proof fn lemma_alert_lines_are_quoted(
    kind: HighlightType,
    title: Option<Seq<char>>,
    body: Seq<u8>,
)
    requires
        title matches Some(t) ==> line_feeds(encode_utf8(t)) == 0,
    ensures
        lines(alert_block(kind, title, body)) == line_feeds(body) + 1 + if title is Some {
            1nat
        } else {
            0nat
        },
        quoted_lines(alert_block(kind, title, body)) == lines(alert_block(kind, title, body)),
{
    let block = alert_block(kind, title, body);
    let marker = encode_utf8(kind.marker());
    let first = seq![0x3eu8, 0x20u8] + marker;
    lemma_marker_is_plain(kind);
    lemma_quoted_counts(body);
    assert(starts_quoted(block));
    match title {
        Some(t) => {
            let second = seq![0x3eu8, 0x20u8, 0x2au8, 0x2au8] + encode_utf8(t) + seq![
                0x2au8,
                0x2au8,
            ];
            let behind = seq![line_feed()] + (second + quoted(body));
            lemma_plain_has_no_line_feeds(encode_utf8(t));
            assert(block =~= first + behind);
            lemma_counts_behind_plain_prefix(first, behind);
            assert(behind.drop_first() =~= second + quoted(body));
            assert(starts_quoted(second + quoted(body)));
            lemma_counts_behind_plain_prefix(second, quoted(body));
        },
        None => {
            assert(block =~= first + quoted(body));
            lemma_counts_behind_plain_prefix(first, quoted(body));
        },
    }
}

/// The bytes of an alert's block are the encoding of its text.
pub proof fn lemma_alert_block_is_text(
    kind: HighlightType,
    title: Option<Seq<char>>,
    body: Seq<char>,
)
    ensures
        alert_block(kind, title, encode_utf8(body)) == encode_utf8(alert_text(kind, title, body)),
{
    let quote = seq!['>', ' '];
    lemma_ascii_bytes(quote, seq![0x3eu8, 0x20u8]);
    lemma_quoted_text_bytes(body);
    lemma_encode_concat(quote, kind.marker());
    match title {
        Some(t) => {
            let opening = seq!['\n', '>', ' ', '*', '*'];
            let closing = seq!['*', '*'];
            lemma_ascii_bytes(opening, seq![0x0au8, 0x3eu8, 0x20u8, 0x2au8, 0x2au8]);
            lemma_ascii_bytes(closing, seq![0x2au8, 0x2au8]);
            lemma_encode_concat(opening, t);
            lemma_encode_concat(opening + t, closing);
            lemma_encode_concat(quote + kind.marker(), opening + t + closing);
            lemma_encode_concat(
                quote + kind.marker() + (opening + t + closing),
                quoted_text(body),
            );
            assert(alert_block(kind, title, encode_utf8(body)) =~= encode_utf8(
                alert_text(kind, title, body),
            ));
        },
        None => {
            let nothing = Seq::<char>::empty();
            assert(quote + kind.marker() + nothing =~= quote + kind.marker());
            lemma_encode_concat(quote + kind.marker(), quoted_text(body));
            assert(alert_block(kind, title, encode_utf8(body)) =~= encode_utf8(
                alert_text(kind, title, body),
            ));
        },
    }
}

/// Entering an alert, printing a body and leaving the alert wraps the body:
/// where the text has only grown by `body` since the alert was entered, the
/// offset behind the alert's line feed is a character boundary, and leaving
/// puts the alert's block and two line feeds in the place of the body.
pub proof fn lemma_alert_wraps_body(
    before: Seq<char>,
    body: Seq<char>,
    kind: HighlightType,
    title: Option<Seq<char>>,
)
    ensures
        is_char_boundary(
            encode_utf8(before.push('\n') + body),
            encode_utf8(before).len() as int + 1,
        ),
        alerted(
            encode_utf8(before.push('\n') + body),
            encode_utf8(before).len() as int,
            kind,
            title,
        ) == encode_utf8(
            before.push('\n') + alert_text(kind, title, body) + seq!['\n', '\n'],
        ),
{
    let start = encode_utf8(before).len() as int;
    let entered = encode_utf8(before.push('\n'));
    let grown = encode_utf8(before.push('\n') + body);
    lemma_ascii_bytes(seq!['\n'], seq![0x0au8]);
    lemma_ascii_bytes(seq!['\n', '\n'], seq![0x0au8, 0x0au8]);
    assert(before.push('\n') =~= before + seq!['\n']);
    lemma_encode_concat(before, seq!['\n']);
    lemma_encode_concat(before.push('\n'), body);
    lemma_encode_concat(before.push('\n'), alert_text(kind, title, body));
    lemma_encode_concat(before.push('\n') + alert_text(kind, title, body), seq!['\n', '\n']);
    lemma_alert_block_is_text(kind, title, body);
    encode_utf8_valid_utf8(before.push('\n'));
    encode_utf8_valid_utf8(body);
    is_char_boundary_start_end_of_seq(entered);
    lemma_boundary_in_extension(entered, encode_utf8(body), start + 1);
    assert(grown.subrange(0, start + 1) =~= entered);
    assert(grown.subrange(start + 1, grown.len() as int) =~= encode_utf8(body));
}

/// An alert handler between enter and exit: the offset at which the alert
/// starts, its kind and its title.
pub struct AlertState {
    pub start: nat,
    pub kind: HighlightType,
    pub title: Option<Seq<char>>,
}

/// Renders an alert macro. The macro's body is rendered by the walk between
/// [`InfoMacroHandler::handle`] and [`InfoMacroHandler::after_handle`].
pub struct InfoMacroHandler {
    start_pos: usize,
    highlight_type: HighlightType,
    title: Option<String>,
}

impl View for InfoMacroHandler {
    type V = AlertState;

    closed spec fn view(&self) -> AlertState {
        AlertState {
            start: self.start_pos as nat,
            kind: self.highlight_type,
            title: match self.title {
                Some(title) => Some(title@),
                None => None,
            },
        }
    }
}

impl InfoMacroHandler {
    pub const QUOTE: &'static str = "> ";

    pub fn new() -> (handler: Self)
        ensures
            handler@ == (AlertState { start: 0, kind: HighlightType::Info, title: None }),
    {
        Self { start_pos: 0, title: None, highlight_type: HighlightType::Info }
    }

    /// Enters an alert macro: notes where it starts, which kind it is and its
    /// title, and starts a new line for the body.
    ///
    /// The macro's name must be that of an alert.
    pub fn handle(&mut self, tag: &Node, printer: &mut StructuredPrinter)
        requires
            tag@.attr("ac:name"@) is Some,
            highlight_type_of(tag@.attr("ac:name"@)->0) is Some,
        ensures
            final(self)@ == (AlertState {
                start: printer_bytes(*old(printer)).len(),
                kind: highlight_type_of(tag@.attr("ac:name"@)->0)->0,
                title: first_parameter_text(tag@.children, "title"@),
            }),
            printer_text(*final(printer)) == printer_text(*old(printer)).push('\n'),
    {
        self.start_pos = printed_len(printer);
        match get_tag_attr(tag, "ac:name") {
            Some(name) => match HighlightType::from_str(name.as_str()) {
                Ok(kind) => {
                    self.highlight_type = kind;
                },
                Err(_) => {},
            },
            None => {},
        }
        self.title = find_parameter_text(tag, "title");
        insert_newline(printer);
    }

    /// The alert's marker and, for an alert with a title, the line with the
    /// title: the header without its leading quote marker.
    fn header_line(&self) -> (header: String)
        ensures
            seq![0x3eu8, 0x20u8] + encode_utf8(header@) == alert_header(self@.kind, self@.title),
    {
        let mut header = self.highlight_type.as_gfm_alert().to_owned();
        match &self.title {
            Some(title) => {
                header.append("\n> **");
                header.append(title.as_str());
                header.append("**");
                proof {
                    reveal_strlit("\n> **");
                    reveal_strlit("**");
                    lemma_ascii_bytes("\n> **"@, seq![0x0au8, 0x3eu8, 0x20u8, 0x2au8, 0x2au8]);
                    lemma_ascii_bytes("**"@, seq![0x2au8, 0x2au8]);
                    lemma_encode_concat(self.highlight_type.marker(), "\n> **"@);
                    lemma_encode_concat(self.highlight_type.marker() + "\n> **"@, title@);
                    lemma_encode_concat(
                        self.highlight_type.marker() + "\n> **"@ + title@,
                        "**"@,
                    );
                }
            },
            None => {},
        }
        assert(seq![0x3eu8, 0x20u8] + encode_utf8(header@) =~= alert_header(
            self@.kind,
            self@.title,
        ));
        header
    }

    /// Leaves an alert macro: what was printed since the macro was entered
    /// becomes a quote block under the alert's header.
    ///
    /// The line feed that entering printed must still stand in the text: the
    /// offset behind it must be a character boundary.
    pub fn after_handle(&mut self, printer: &mut StructuredPrinter)
        requires
            is_char_boundary(printer_bytes(*old(printer)), old(self)@.start as int + 1),
        ensures
            printer_bytes(*final(printer)) == alerted(
                printer_bytes(*old(printer)),
                old(self)@.start as int,
                old(self)@.kind,
                old(self)@.title,
            ),
            *final(self) == *old(self),
    {
        let ghost before = printer_bytes(*printer);
        let ghost start = self.start_pos as int;
        let len = printed_len(printer);
        proof {
            encode_utf8_valid_utf8(printer_text(*printer));
            assert(start + 1 <= len);
        }
        let pos = self.start_pos + 1;
        let header = self.header_line();
        quote_printed_lines(printer, pos);
        let ghost scanned = printer_bytes(*printer);
        proof {
            encode_utf8_valid_utf8(printer_text(*printer));
            assert(scanned.subrange(0, start + 1) =~= before.subrange(0, start + 1));
            lemma_boundary_same_prefix(before, scanned, start + 1);
        }
        insert_str(printer, pos, header.as_str());
        let ghost headed = printer_bytes(*printer);
        proof {
            encode_utf8_valid_utf8(printer_text(*printer));
            assert(headed.subrange(0, start + 1) =~= before.subrange(0, start + 1));
            lemma_boundary_same_prefix(before, headed, start + 1);
            reveal_strlit("> ");
            lemma_ascii_bytes("> "@, seq![0x3eu8, 0x20u8]);
        }
        insert_str(printer, pos, Self::QUOTE);
        let ghost marked = printer_bytes(*printer);
        proof {
            lemma_spliced_twice(scanned, start + 1, encode_utf8(header@), seq![0x3eu8, 0x20u8]);
            lemma_two_line_feeds(printer_text(*printer));
        }
        insert_newline(printer);
        insert_newline(printer);
        assert(printer_bytes(*printer) =~= alerted(before, start, self@.kind, self@.title));
    }

    /// Tells whether the handler can be left with what `printer` holds: the
    /// offset behind the one that it noted falls between two characters of
    /// the text.
    pub fn can_leave(&self, printer: &StructuredPrinter) -> (ready: bool)
        ensures
            ready == is_char_boundary(printer_bytes(*printer), self@.start as int + 1),
    {
        proof {
            encode_utf8_valid_utf8(printer_text(*printer));
        }
        self.start_pos < printed_len(printer) && printer_data(printer).is_char_boundary(
            self.start_pos + 1,
        )
    }

    /// The body of an alert is rendered by the walk.
    pub fn skip_descendants(&self) -> (skip: bool)
        ensures
            !skip,
    {
        false
    }
}

} // verus!

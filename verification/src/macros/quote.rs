//! Quoting: the marker `"> "` behind every line feed, in bytes and in text,
//! and the counting of lines that start with it.
use crate::encoding::{lemma_ascii_bytes, lemma_boundary_after_ascii, lemma_encode_concat};
use crate::printer::{insert_str, printed_byte, printed_len, printer_bytes, printer_text};
use html2md::StructuredPrinter;
use vstd::prelude::*;
use vstd::string::*;
use vstd::utf8::*;

verus! {

/// The byte of the line feed.
pub open spec fn line_feed() -> u8 {
    0x0au8
}

/// `body` with the quote marker `"> "` put behind every line feed.
pub open spec fn quoted(body: Seq<u8>) -> Seq<u8>
    decreases body.len(),
{
    if body.len() == 0 {
        Seq::empty()
    } else if body[0] == line_feed() {
        seq![line_feed(), 0x3eu8, 0x20u8] + quoted(body.drop_first())
    } else {
        seq![body[0]] + quoted(body.drop_first())
    }
}

/// `body` with the quote marker `"> "` put behind every line feed, as text.
pub open spec fn quoted_text(body: Seq<char>) -> Seq<char>
    decreases body.len(),
{
    if body.len() == 0 {
        Seq::empty()
    } else if body[0] == '\n' {
        seq!['\n', '>', ' '] + quoted_text(body.drop_first())
    } else {
        seq![body[0]] + quoted_text(body.drop_first())
    }
}

/// The number of line feeds in `text`.
pub open spec fn line_feeds(text: Seq<u8>) -> nat
    decreases text.len(),
{
    if text.len() == 0 {
        0
    } else if text[0] == line_feed() {
        1 + line_feeds(text.drop_first())
    } else {
        line_feeds(text.drop_first())
    }
}

/// Whether `text` begins with the quote marker `"> "`.
pub open spec fn starts_quoted(text: Seq<u8>) -> bool {
    text.len() >= 2 && text[0] == 0x3eu8 && text[1] == 0x20u8
}

/// The number of line feeds in `text` that the quote marker follows.
pub open spec fn quoted_line_feeds(text: Seq<u8>) -> nat
    decreases text.len(),
{
    if text.len() == 0 {
        0
    } else if text[0] == line_feed() && starts_quoted(text.drop_first()) {
        1 + quoted_line_feeds(text.drop_first())
    } else {
        quoted_line_feeds(text.drop_first())
    }
}

/// The number of lines of `text`: a line ends at each line feed, and the
/// last line at the end of the text.
pub open spec fn lines(text: Seq<u8>) -> nat {
    line_feeds(text) + 1
}

/// The number of lines of `text` that start with the quote marker.
pub open spec fn quoted_lines(text: Seq<u8>) -> nat {
    quoted_line_feeds(text) + if starts_quoted(text) {
        1nat
    } else {
        0nat
    }
}

/// A text that counts no line feeds holds none.
pub proof fn lemma_plain_has_no_line_feeds(text: Seq<u8>)
    requires
        line_feeds(text) == 0,
    ensures
        forall|i: int| 0 <= i < text.len() ==> #[trigger] text[i] != line_feed(),
    decreases text.len(),
{
    if text.len() > 0 {
        let rest = text.drop_first();
        lemma_plain_has_no_line_feeds(rest);
        assert forall|i: int| 0 <= i < text.len() implies #[trigger] text[i] != line_feed() by {
            if i > 0 {
                assert(text[i] == rest[i - 1]);
            }
        }
    }
}

/// A prefix without line feeds changes neither count.
pub proof fn lemma_counts_behind_plain_prefix(prefix: Seq<u8>, rest: Seq<u8>)
    requires
        forall|i: int| 0 <= i < prefix.len() ==> #[trigger] prefix[i] != line_feed(),
    ensures
        line_feeds(prefix + rest) == line_feeds(rest),
        quoted_line_feeds(prefix + rest) == quoted_line_feeds(rest),
    decreases prefix.len(),
{
    if prefix.len() == 0 {
        assert(prefix + rest =~= rest);
    } else {
        let shorter = prefix.drop_first();
        assert((prefix + rest)[0] == prefix[0]);
        assert((prefix + rest).drop_first() =~= shorter + rest);
        assert forall|i: int| 0 <= i < shorter.len() implies #[trigger] shorter[i]
            != line_feed() by {
            assert(shorter[i] == prefix[i + 1]);
        }
        lemma_counts_behind_plain_prefix(shorter, rest);
    }
}

proof fn lemma_counts_behind_quoted_line_feed(rest: Seq<u8>)
    ensures
        line_feeds(seq![line_feed(), 0x3eu8, 0x20u8] + rest) == 1 + line_feeds(rest),
        quoted_line_feeds(seq![line_feed(), 0x3eu8, 0x20u8] + rest) == 1 + quoted_line_feeds(
            rest,
        ),
{
    let whole = seq![line_feed(), 0x3eu8, 0x20u8] + rest;
    let marker = seq![0x3eu8, 0x20u8];
    assert(whole.drop_first() =~= marker + rest);
    assert(starts_quoted(marker + rest));
    lemma_counts_behind_plain_prefix(marker, rest);
}

/// Quoting keeps the number of line feeds, and the quote marker follows every
/// one of them.
pub proof fn lemma_quoted_counts(body: Seq<u8>)
    ensures
        line_feeds(quoted(body)) == line_feeds(body),
        quoted_line_feeds(quoted(body)) == line_feeds(body),
    decreases body.len(),
{
    if body.len() > 0 {
        let rest = body.drop_first();
        lemma_quoted_counts(rest);
        if body[0] == line_feed() {
            lemma_counts_behind_quoted_line_feed(quoted(rest));
        } else {
            lemma_counts_behind_plain_prefix(seq![body[0]], quoted(rest));
        }
    }
}

proof fn lemma_wide_scalar_bytes(scalar: u32)
    by (bit_vector)
    requires
        scalar >= 0x80,
    ensures
        (0xC0u8 | ((scalar >> 6) & 0x1F) as u8) >= 0x80u8,
        (0xE0u8 | ((scalar >> 12) & 0x0F) as u8) >= 0x80u8,
        (0xF0u8 | ((scalar >> 18) & 0x7) as u8) >= 0x80u8,
        (0x80u8 | (scalar & 0x3F) as u8) >= 0x80u8,
        (0x80u8 | ((scalar >> 6) & 0x3F) as u8) >= 0x80u8,
        (0x80u8 | ((scalar >> 12) & 0x3F) as u8) >= 0x80u8,
{
}

proof fn lemma_narrow_scalar_byte(scalar: u32)
    by (bit_vector)
    requires
        scalar <= 0x7F,
    ensures
        ((scalar & 0x7F) as u8) as u32 == scalar,
{
}

/// The encoding of a character holds a line feed only where the character is
/// one.
proof fn lemma_line_feed_in_scalar(c: char)
    ensures
        c == '\n' ==> encode_scalar(c as u32) == seq![line_feed()],
        c != '\n' ==> forall|i: int|
            0 <= i < encode_scalar(c as u32).len() ==> #[trigger] encode_scalar(c as u32)[i]
                != line_feed(),
{
    let scalar = c as u32;
    if has_width_1_encoding(scalar) {
        lemma_narrow_scalar_byte(scalar);
        if c == '\n' {
            assert(encode_scalar(scalar) =~= seq![line_feed()]);
        }
    } else {
        lemma_wide_scalar_bytes(scalar);
    }
}

proof fn lemma_quoted_concat(a: Seq<u8>, b: Seq<u8>)
    ensures
        quoted(a + b) == quoted(a) + quoted(b),
    decreases a.len(),
{
    if a.len() == 0 {
        assert(a + b =~= b);
        assert(quoted(a) + quoted(b) =~= quoted(b));
    } else {
        assert((a + b)[0] == a[0]);
        assert((a + b).drop_first() =~= a.drop_first() + b);
        lemma_quoted_concat(a.drop_first(), b);
        assert(quoted(a + b) =~= quoted(a) + quoted(b));
    }
}

proof fn lemma_quoted_plain(text: Seq<u8>)
    requires
        forall|i: int| 0 <= i < text.len() ==> #[trigger] text[i] != line_feed(),
    ensures
        quoted(text) == text,
    decreases text.len(),
{
    if text.len() > 0 {
        let rest = text.drop_first();
        assert forall|i: int| 0 <= i < rest.len() implies #[trigger] rest[i] != line_feed() by {
            assert(rest[i] == text[i + 1]);
        }
        lemma_quoted_plain(rest);
        assert(seq![text[0]] + rest =~= text);
    }
}

/// Quoting the text and quoting its bytes come to the same.
pub proof fn lemma_quoted_text_bytes(body: Seq<char>)
    ensures
        encode_utf8(quoted_text(body)) == quoted(encode_utf8(body)),
    decreases body.len(),
{
    if body.len() > 0 {
        let rest = body.drop_first();
        let one = encode_scalar(body[0] as u32);
        lemma_quoted_text_bytes(rest);
        lemma_line_feed_in_scalar(body[0]);
        lemma_quoted_concat(one, encode_utf8(rest));
        if body[0] == '\n' {
            lemma_ascii_bytes(seq!['\n', '>', ' '], seq![0x0au8, 0x3eu8, 0x20u8]);
            lemma_encode_concat(seq!['\n', '>', ' '], quoted_text(rest));
            assert(one.drop_first() =~= Seq::<u8>::empty());
            assert(quoted(one.drop_first()) =~= Seq::<u8>::empty());
            assert(quoted(one) =~= seq![0x0au8, 0x3eu8, 0x20u8]);
        } else {
            let single = seq![body[0]];
            assert(single.drop_first() =~= Seq::<char>::empty());
            assert(encode_utf8(single.drop_first()) =~= Seq::<u8>::empty());
            assert(encode_utf8(single) =~= one);
            lemma_encode_concat(single, quoted_text(rest));
            lemma_quoted_plain(one);
        }
    }
}

/// Quotes what stands in the printer from the offset `from` on: scans the
/// text from its end back to `from` and puts the quote marker behind every
/// line feed that it finds. The scan goes backwards so that an insertion
/// never moves a byte that is still to be looked at.
pub fn quote_printed_lines(printer: &mut StructuredPrinter, from: usize)
    requires
        from <= printer_bytes(*old(printer)).len(),
    ensures
        printer_bytes(*final(printer)) == printer_bytes(*old(printer)).subrange(0, from as int)
            + quoted(
            printer_bytes(*old(printer)).subrange(
                from as int,
                printer_bytes(*old(printer)).len() as int,
            ),
        ),
{
    let ghost before = printer_bytes(*printer);
    let len = printed_len(printer);
    proof {
        reveal_strlit("> ");
        lemma_ascii_bytes("> "@, seq![0x3eu8, 0x20u8]);
    }
    let mut index = len;
    assert(before.subrange(index as int, len as int) =~= Seq::<u8>::empty());
    assert(before.subrange(0, index as int) =~= before);
    while index > from
        invariant
            len == before.len(),
            from <= index <= len,
            "> ".spec_bytes() == seq![0x3eu8, 0x20u8],
            printer_bytes(*printer) == before.subrange(0, index as int) + quoted(
                before.subrange(index as int, len as int),
            ),
        decreases index,
    {
        let ghost current = printer_bytes(*printer);
        let ghost tail = before.subrange(index as int, len as int);
        index = index - 1;
        let ghost rest = before.subrange(index as int, len as int);
        assert(rest.drop_first() =~= tail);
        assert(rest[0] == before[index as int]);
        assert(current[index as int] == before[index as int]);
        assert(before.subrange(0, index as int + 1) =~= before.subrange(0, index as int) + seq![
            before[index as int],
        ]);
        if printed_byte(printer, index) == 0x0au8 {
            proof {
                encode_utf8_valid_utf8(printer_text(*printer));
                lemma_boundary_after_ascii(current, index as int);
                assert(current.subrange(0, index as int + 1) =~= before.subrange(
                    0,
                    index as int + 1,
                ));
                assert(current.subrange(index as int + 1, current.len() as int) =~= quoted(tail));
            }
            insert_str(printer, index + 1, "> ");
            assert(printer_bytes(*printer) =~= before.subrange(0, index as int) + quoted(rest));
        } else {
            assert(printer_bytes(*printer) =~= before.subrange(0, index as int) + quoted(rest));
        }
    }
}

} // verus!

//! Facts about UTF-8 that the offset bookkeeping of the handlers rests on.
//!
//! Offsets into the output are byte offsets, while text is a sequence of
//! characters. The lemmas here connect the two: encoding distributes over
//! concatenation, and an offset is a character boundary exactly when the bytes
//! before it are themselves well-formed.
use vstd::prelude::*;
use vstd::utf8::*;

verus! {

/// The bytes of an ASCII-only byte sequence read back as characters.
pub open spec fn ascii_text(bytes: Seq<u8>) -> Seq<char> {
    Seq::new(bytes.len(), |i: int| bytes[i] as char)
}

/// Encoding a concatenation is concatenating the encodings.
pub proof fn lemma_encode_concat(a: Seq<char>, b: Seq<char>)
    ensures
        encode_utf8(a + b) == encode_utf8(a) + encode_utf8(b),
    decreases a.len(),
{
    if a.len() == 0 {
        assert(a + b =~= b);
        assert(encode_utf8(a) + encode_utf8(b) =~= encode_utf8(b));
    } else {
        lemma_encode_concat(a.drop_first(), b);
        assert((a + b).drop_first() =~= a.drop_first() + b);
        assert((a + b)[0] == a[0]);
        assert(encode_utf8(a + b) =~= encode_utf8(a) + encode_utf8(b));
    }
}

/// An offset whose preceding bytes are well-formed is a character boundary.
pub proof fn lemma_valid_prefix_is_boundary(bytes: Seq<u8>, i: int)
    requires
        valid_utf8(bytes),
        0 <= i <= bytes.len(),
        valid_utf8(bytes.subrange(0, i)),
    ensures
        is_char_boundary(bytes, i),
    decreases bytes.len(),
{
    if i != 0 {
        let prefix = bytes.subrange(0, i);
        let width = length_of_first_scalar(bytes);
        assert(prefix[0] == bytes[0]);
        assert(length_of_first_scalar(prefix) == width);
        assert(width <= i);
        assert(pop_first_scalar(prefix) =~= pop_first_scalar(bytes).subrange(0, i - width));
        lemma_valid_prefix_is_boundary(pop_first_scalar(bytes), i - width);
    }
}

/// A character boundary stays one when both texts agree up to it.
pub proof fn lemma_boundary_same_prefix(before: Seq<u8>, after: Seq<u8>, i: int)
    requires
        valid_utf8(before),
        valid_utf8(after),
        is_char_boundary(before, i),
        i <= after.len(),
        before.subrange(0, i) == after.subrange(0, i),
    ensures
        is_char_boundary(after, i),
{
    if i > 0 {
        assert(i <= before.len());
        valid_utf8_split(before, i);
        lemma_valid_prefix_is_boundary(after, i);
    } else {
        assert(i == 0);
    }
}

/// The offset just behind an ASCII byte is a character boundary.
pub proof fn lemma_boundary_after_ascii(bytes: Seq<u8>, i: int)
    requires
        valid_utf8(bytes),
        0 <= i < bytes.len(),
        bytes[i] <= 0x7f,
    ensures
        is_char_boundary(bytes, i),
        is_char_boundary(bytes, i + 1),
{
    is_char_boundary_iff_not_is_continuation_byte(bytes, i);
    valid_utf8_split(bytes, i);
    let head = bytes.subrange(0, i);
    let one = seq![bytes[i]];
    assert(valid_utf8(one)) by {
        assert(valid_first_scalar(one));
        assert(pop_first_scalar(one) =~= Seq::<u8>::empty());
        assert(valid_utf8(Seq::<u8>::empty()));
    }
    valid_utf8_concat(head, one);
    assert(head + one =~= bytes.subrange(0, i + 1));
    lemma_valid_prefix_is_boundary(bytes, i + 1);
}

/// Appending well-formed bytes keeps every character boundary.
pub proof fn lemma_boundary_in_extension(bytes: Seq<u8>, more: Seq<u8>, i: int)
    requires
        valid_utf8(bytes),
        valid_utf8(more),
        is_char_boundary(bytes, i),
    ensures
        is_char_boundary(bytes + more, i),
{
    valid_utf8_concat(bytes, more);
    if i > 0 {
        assert(i <= bytes.len());
        assert((bytes + more).subrange(0, i) =~= bytes.subrange(0, i));
        lemma_boundary_same_prefix(bytes, bytes + more, i);
    } else {
        assert(i == 0);
    }
}

/// ASCII text encodes to one byte per character, the character's own code.
pub proof fn lemma_ascii_bytes(text: Seq<char>, bytes: Seq<u8>)
    requires
        is_ascii_chars(text),
        bytes.len() == text.len(),
        forall|i: int| 0 <= i < text.len() ==> #[trigger] bytes[i] == text[i] as u8,
    ensures
        encode_utf8(text) == bytes,
{
    is_ascii_chars_encode_utf8(text);
    assert(encode_utf8(text) =~= bytes);
}

/// Two line feeds at the end of a text are two bytes at the end of its bytes.
pub proof fn lemma_two_line_feeds(text: Seq<char>)
    ensures
        encode_utf8(text.push('\n').push('\n')) == encode_utf8(text) + seq![0x0au8, 0x0au8],
{
    lemma_ascii_bytes(seq!['\n', '\n'], seq![0x0au8, 0x0au8]);
    assert(text.push('\n').push('\n') =~= text + seq!['\n', '\n']);
    lemma_encode_concat(text, seq!['\n', '\n']);
}

} // verus!

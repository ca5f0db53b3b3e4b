//! The output buffer of the conversion: the printer of `html2md`, seen as the
//! text it holds.
//!
//! Handlers append to the printer and insert into it at byte offsets that they
//! captured earlier. Verified code reaches the printer only through the
//! functions of this module, whose contracts speak of [`printer_text`].
use html2md::StructuredPrinter;
use vstd::prelude::*;
use vstd::string::StringSliceAdditionalSpecFns;
use vstd::utf8::*;

verus! {

/// `html2md::StructuredPrinter`, the printer that the walk hands to every
/// handler. Nothing inside it is visible to the proofs; what it holds is
/// spoken of through [`printer_text`].
#[verifier::external_type_specification]
#[verifier::external_body]
pub struct ExStructuredPrinter(html2md::StructuredPrinter);

/// The text that a printer has accumulated: the contents of its `data` field.
pub uninterp spec fn printer_text(printer: StructuredPrinter) -> Seq<char>;

/// The accumulated text as UTF-8 bytes, the unit in which offsets are counted.
pub open spec fn printer_bytes(printer: StructuredPrinter) -> Seq<u8> {
    encode_utf8(printer_text(printer))
}

/// `bytes` with `inserted` put in at `offset`; everything from `offset` on moves
/// back by the length of `inserted`.
pub open spec fn spliced(bytes: Seq<u8>, offset: int, inserted: Seq<u8>) -> Seq<u8> {
    bytes.subrange(0, offset) + inserted + bytes.subrange(offset, bytes.len() as int)
}

/// Two insertions at one offset: what is inserted second stands first.
pub proof fn lemma_spliced_twice(bytes: Seq<u8>, offset: int, first: Seq<u8>, second: Seq<u8>)
    requires
        0 <= offset <= bytes.len(),
    ensures
        spliced(spliced(bytes, offset, first), offset, second) == bytes.subrange(0, offset)
            + second + first + bytes.subrange(offset, bytes.len() as int),
{
    let once = spliced(bytes, offset, first);
    assert(once.subrange(0, offset) =~= bytes.subrange(0, offset));
    assert(once.subrange(offset, once.len() as int) =~= first + bytes.subrange(
        offset,
        bytes.len() as int,
    ));
    assert(spliced(once, offset, second) =~= bytes.subrange(0, offset) + second + first
        + bytes.subrange(offset, bytes.len() as int));
}

/// Reads the public field `data` of `html2md::StructuredPrinter`. The contract
/// ties the name [`printer_text`] to that field: what is returned is the
/// accumulated text.
#[verifier::external_body]
pub(crate) fn printer_data(printer: &StructuredPrinter) -> (data: &str)
    ensures
        data@ == printer_text(*printer),
{
    printer.data.as_str()
}

/// Calls `html2md::StructuredPrinter::append_str`, which pushes `it` onto the
/// end of the accumulated text and touches nothing before it.
#[verifier::external_body]
pub(crate) fn append_str(printer: &mut StructuredPrinter, it: &str)
    ensures
        printer_text(*final(printer)) == printer_text(*old(printer)) + it@,
{
    printer.append_str(it)
}

/// Calls `html2md::StructuredPrinter::insert_newline`, which appends a single
/// line feed.
#[verifier::external_body]
pub(crate) fn insert_newline(printer: &mut StructuredPrinter)
    ensures
        printer_text(*final(printer)) == printer_text(*old(printer)).push('\n'),
{
    printer.insert_newline()
}

/// Calls `html2md::StructuredPrinter::insert_str`, which hands over to
/// `String::insert_str`: `it` is put in at byte offset `pos`, the bytes before
/// `pos` stay and the bytes from `pos` on follow the insertion. That call
/// panics when `pos` is behind the end or inside a character, so both are
/// required not to be the case.
#[verifier::external_body]
pub(crate) fn insert_str(printer: &mut StructuredPrinter, pos: usize, it: &str)
    requires
        is_char_boundary(printer_bytes(*old(printer)), pos as int),
    ensures
        printer_bytes(*final(printer)) == spliced(
            printer_bytes(*old(printer)),
            pos as int,
            it.spec_bytes(),
        ),
{
    printer.insert_str(pos, it)
}

/// The length of the accumulated text in bytes: the offset at which the next
/// appended character will stand.
pub fn printed_len(printer: &StructuredPrinter) -> (len: usize)
    ensures
        len == printer_bytes(*printer).len(),
{
    printer_data(printer).as_bytes().len()
}

/// The byte at `offset` of the accumulated text.
pub fn printed_byte(printer: &StructuredPrinter, offset: usize) -> (byte: u8)
    requires
        offset < printer_bytes(*printer).len(),
    ensures
        byte == printer_bytes(*printer)[offset as int],
{
    let bytes = printer_data(printer).as_bytes();
    bytes[offset]
}

} // verus!

//! Text helpers: comparison, blankness, whitespace minification.
use regex::Regex;
use vstd::prelude::*;
use vstd::std_specs::iter::IteratorSpec;
use vstd::string::*;
use vstd::utf8::*;

verus! {

/// The pattern whose matches are squeezed to one space: runs of two or more
/// whitespace characters.
pub const EXCESSIVE_WHITESPACE_PATTERN: &'static str = "\\s{2,}";

/// Whether `c` is whitespace, as Unicode's `White_Space` has it.
pub open spec fn is_whitespace(c: char) -> bool {
    let code = c as u32;
    ||| 0x09 <= code <= 0x0d
    ||| code == 0x20
    ||| code == 0x85
    ||| code == 0xa0
    ||| code == 0x1680
    ||| 0x2000 <= code <= 0x200a
    ||| code == 0x2028
    ||| code == 0x2029
    ||| code == 0x202f
    ||| code == 0x205f
    ||| code == 0x3000
}

/// Whether `text` holds nothing but whitespace.
pub open spec fn is_blank(text: Seq<char>) -> bool {
    forall|i: int| 0 <= i < text.len() ==> is_whitespace(#[trigger] text[i])
}

/// Whether `c` is a line feed or a carriage return.
pub open spec fn is_line_break(c: char) -> bool {
    c == '\n' || c == '\r'
}

/// The index of the first character of `text` that is no line break, or the
/// length of `text` where every character is one.
pub open spec fn kept_from(text: Seq<char>) -> int
    decreases text.len(),
{
    if text.len() == 0 || !is_line_break(text[0]) {
        0
    } else {
        1 + kept_from(text.drop_first())
    }
}

/// The index behind the last character of `text` that is no line break, or 0
/// where every character is one.
pub open spec fn kept_to(text: Seq<char>) -> int
    decreases text.len(),
{
    if text.len() == 0 || !is_line_break(text.last()) {
        text.len() as int
    } else {
        kept_to(text.drop_last())
    }
}

/// `text` without the line breaks at its two ends.
pub open spec fn without_outer_line_breaks(text: Seq<char>) -> Seq<char> {
    if kept_from(text) < kept_to(text) {
        text.subrange(kept_from(text), kept_to(text))
    } else {
        Seq::empty()
    }
}

/// The number of whitespace characters that `text` starts with.
pub open spec fn leading_whitespace(text: Seq<char>) -> nat
    decreases text.len(),
{
    if text.len() > 0 && is_whitespace(text[0]) {
        1 + leading_whitespace(text.drop_first())
    } else {
        0
    }
}

/// `text` with its whitespace runs squeezed: every run of two or more
/// whitespace characters, taken as long as it goes, becomes one space. A
/// whitespace character that stands alone stays as it is.
pub open spec fn squeezed(text: Seq<char>) -> Seq<char>
    decreases text.len(),
    via squeezed_decreases
{
    if text.len() == 0 {
        Seq::empty()
    } else if leading_whitespace(text) >= 2 {
        seq![' '] + squeezed(text.skip(leading_whitespace(text) as int))
    } else {
        seq![text[0]] + squeezed(text.drop_first())
    }
}

#[via_fn]
proof fn squeezed_decreases(text: Seq<char>) {
    lemma_leading_whitespace(text);
}

/// A text starts with no more whitespace characters than it has characters,
/// those that are counted are whitespace, and the one behind them is not.
pub proof fn lemma_leading_whitespace(text: Seq<char>)
    ensures
        leading_whitespace(text) <= text.len(),
        forall|i: int| 0 <= i < leading_whitespace(text) ==> is_whitespace(#[trigger] text[i]),
        leading_whitespace(text) < text.len() ==> !is_whitespace(
            text[leading_whitespace(text) as int],
        ),
    decreases text.len(),
{
    if text.len() > 0 && is_whitespace(text[0]) {
        let rest = text.drop_first();
        lemma_leading_whitespace(rest);
        assert forall|i: int| 0 <= i < leading_whitespace(text) implies is_whitespace(
            #[trigger] text[i],
        ) by {
            if i > 0 {
                assert(text[i] == rest[i - 1]);
            }
        }
        if leading_whitespace(text) < text.len() {
            assert(text[leading_whitespace(text) as int] == rest[leading_whitespace(rest) as int]);
        }
    }
}

/// What squeezing leaves starts as the text does where the text starts with no
/// whitespace.
proof fn lemma_squeezed_start(text: Seq<char>)
    requires
        text.len() > 0,
        !is_whitespace(text[0]),
    ensures
        squeezed(text).len() > 0,
        squeezed(text)[0] == text[0],
{
    assert(leading_whitespace(text) == 0);
}

/// In what squeezing leaves, no two whitespace characters stand side by side.
pub proof fn lemma_squeezed_has_no_runs(text: Seq<char>)
    ensures
        forall|i: int|
            0 <= i && i + 1 < squeezed(text).len() ==> !(is_whitespace(
                #[trigger] squeezed(text)[i],
            ) && is_whitespace(squeezed(text)[i + 1])),
    decreases text.len(),
{
    if text.len() > 0 {
        lemma_leading_whitespace(text);
        let run = leading_whitespace(text) as int;
        let rest = if run >= 2 {
            text.skip(run)
        } else {
            text.drop_first()
        };
        lemma_squeezed_has_no_runs(rest);
        let kept = squeezed(text);
        let behind = squeezed(rest);
        assert(kept.len() == behind.len() + 1);
        assert(forall|i: int| 0 <= i < behind.len() ==> kept[i + 1] == behind[i]);
        if rest.len() > 0 && run >= 1 {
            assert(rest[0] == text[run]);
            lemma_squeezed_start(rest);
        }
        assert forall|i: int| 0 <= i && i + 1 < kept.len() implies !(is_whitespace(
            #[trigger] kept[i],
        ) && is_whitespace(kept[i + 1])) by {
            if i > 0 {
                assert(kept[i] == behind[i - 1]);
                assert(kept[i + 1] == behind[i]);
            } else if run == 0 {
                assert(kept[0] == text[0]);
            } else {
                assert(behind.len() > 0);
                assert(rest.len() > 0) by {
                    if rest.len() == 0 {
                        assert(squeezed(rest).len() == 0);
                    }
                }
                assert(kept[1] == behind[0]);
            }
        }
    }
}

/// Text as it is taken out of a text node: whitespace runs squeezed, then the
/// line breaks at the two ends dropped.
pub open spec fn minified(text: Seq<char>) -> Seq<char> {
    without_outer_line_breaks(squeezed(text))
}

/// Compiles `pattern` with `regex::Regex::new` and calls
/// `regex::Regex::replace_all` on `haystack` with the replacement `rep`, for
/// the one pattern and the one replacement that this library has.
///
/// The pattern is `\s{2,}`. In it `\s` stands for a character with Unicode's
/// `White_Space`, which are the characters of [`is_whitespace`], and `{2,}`
/// takes two or more of them, as many as there are. The matches are found from
/// left to right and do not overlap, so each is a whole run. The replacement,
/// one space, holds no `$` and stands for itself. The pattern compiles, so the
/// result is never `None`.
#[verifier::external_body]
pub(crate) fn replace_all(pattern: &str, haystack: &str, rep: &str) -> (replaced: Option<String>)
    requires
        pattern@ == EXCESSIVE_WHITESPACE_PATTERN@,
        rep@ == " "@,
    ensures
        match replaced {
            Some(text) => text@ == squeezed(haystack@),
            None => false,
        },
{
    match Regex::new(pattern) {
        Ok(re) => Some(re.replace_all(haystack, rep).into_owned()),
        Err(_) => None,
    }
}

/// A text that may be missing, borrowed.
pub(crate) fn as_text(value: &Option<String>) -> (r: Option<&str>)
    ensures
        match r {
            Some(text) => *value matches Some(v) && v@ == text@,
            None => *value is None,
        },
{
    match value {
        Some(v) => Some(v.as_str()),
        None => None,
    }
}

/// Tells whether two texts are the same sequence of characters.
pub fn str_eq(a: &str, b: &str) -> (same: bool)
    ensures
        same == (a@ == b@),
{
    let x = a.as_bytes();
    let y = b.as_bytes();
    if x.len() != y.len() {
        return false;
    }
    let mut i: usize = 0;
    while i < x.len()
        invariant
            x.len() == y.len(),
            i <= x.len(),
            x@ == a.spec_bytes(),
            y@ == b.spec_bytes(),
            forall|j: int| 0 <= j < i ==> x@[j] == y@[j],
        decreases x.len() - i,
    {
        if x[i] != y[i] {
            return false;
        }
        i = i + 1;
    }
    proof {
        assert(x@ =~= y@);
        encode_utf8_decode_utf8(a@);
        encode_utf8_decode_utf8(b@);
    }
    true
}

/// Tells whether `c` is a whitespace character.
pub fn char_is_whitespace(c: char) -> (r: bool)
    ensures
        r == is_whitespace(c),
{
    let code: u32 = c as u32;
    (0x09 <= code && code <= 0x0d) || code == 0x20 || code == 0x85 || code == 0xa0 || code
        == 0x1680 || (0x2000 <= code && code <= 0x200a) || code == 0x2028 || code == 0x2029
        || code == 0x202f || code == 0x205f || code == 0x3000
}

/// Tells whether `text` holds nothing but whitespace. The empty text is blank.
pub fn text_is_blank(text: &str) -> (r: bool)
    ensures
        r == is_blank(text@),
{
    let mut it = text.chars();
    let ghost mut seen: int = 0;
    loop
        invariant
            0 <= seen <= text@.len(),
            it.remaining() == text@.skip(seen),
            forall|i: int| 0 <= i < seen ==> is_whitespace(#[trigger] text@[i]),
        decreases text@.len() - seen,
    {
        match it.next() {
            Some(c) => {
                assert(text@[seen] == c);
                if !char_is_whitespace(c) {
                    return false;
                }
                proof {
                    assert(text@.skip(seen).drop_first() == text@.skip(seen + 1));
                    seen = seen + 1;
                }
            },
            None => {
                return true;
            },
        }
    }
}

/// Squeezes the whitespace runs of `text`: replaces every match of
/// [`EXCESSIVE_WHITESPACE_PATTERN`] by one space.
pub fn collapse_whitespace(text: &str) -> (r: String)
    ensures
        r@ == squeezed(text@),
{
    match replace_all(EXCESSIVE_WHITESPACE_PATTERN, text, " ") {
        Some(replaced) => replaced,
        // The pattern compiles, so this is never reached.
        None => text.to_owned(),
    }
}

proof fn lemma_kept_from(text: Seq<char>, from: int)
    requires
        0 <= from <= text.len(),
        forall|i: int| 0 <= i < from ==> is_line_break(#[trigger] text[i]),
        from < text.len() ==> !is_line_break(text[from]),
    ensures
        kept_from(text) == from,
    decreases text.len(),
{
    if from > 0 {
        assert(is_line_break(text[0]));
        let rest = text.drop_first();
        assert forall|i: int| 0 <= i < from - 1 implies is_line_break(#[trigger] rest[i]) by {
            assert(rest[i] == text[i + 1]);
        }
        lemma_kept_from(rest, from - 1);
    }
}

proof fn lemma_kept_to(text: Seq<char>, to: int)
    requires
        0 <= to <= text.len(),
        forall|i: int| to <= i < text.len() ==> is_line_break(#[trigger] text[i]),
        to > 0 ==> !is_line_break(text[to - 1]),
    ensures
        kept_to(text) == to,
    decreases text.len(),
{
    if to < text.len() {
        assert(is_line_break(text[text.len() - 1]));
        let rest = text.drop_last();
        assert forall|i: int| to <= i < rest.len() implies is_line_break(#[trigger] rest[i]) by {
            assert(rest[i] == text[i]);
        }
        if to > 0 {
            assert(rest[to - 1] == text[to - 1]);
        }
        lemma_kept_to(rest, to);
    }
}

proof fn lemma_kept_from_bounds(text: Seq<char>)
    ensures
        0 <= kept_from(text) <= text.len(),
        forall|i: int| 0 <= i < kept_from(text) ==> is_line_break(#[trigger] text[i]),
        kept_from(text) < text.len() ==> !is_line_break(text[kept_from(text)]),
    decreases text.len(),
{
    if text.len() > 0 && is_line_break(text[0]) {
        let rest = text.drop_first();
        lemma_kept_from_bounds(rest);
        assert forall|i: int| 0 <= i < kept_from(text) implies is_line_break(
            #[trigger] text[i],
        ) by {
            if i > 0 {
                assert(text[i] == rest[i - 1]);
            }
        }
        if kept_from(text) < text.len() {
            assert(text[kept_from(text)] == rest[kept_from(rest)]);
        }
    }
}

proof fn lemma_kept_to_bounds(text: Seq<char>)
    ensures
        0 <= kept_to(text) <= text.len(),
        forall|i: int| kept_to(text) <= i < text.len() ==> is_line_break(#[trigger] text[i]),
        kept_to(text) > 0 ==> !is_line_break(text[kept_to(text) - 1]),
    decreases text.len(),
{
    if text.len() > 0 && is_line_break(text.last()) {
        let rest = text.drop_last();
        lemma_kept_to_bounds(rest);
        assert forall|i: int| kept_to(text) <= i < text.len() implies is_line_break(
            #[trigger] text[i],
        ) by {
            if i < rest.len() {
                assert(text[i] == rest[i]);
            }
        }
        if kept_to(text) > 0 {
            assert(text[kept_to(text) - 1] == rest[kept_to(rest) - 1]);
        }
    }
}

/// What is left of a text without its outer line breaks neither starts nor
/// ends with a line break, and the text holds nothing but line breaks before
/// and behind it. Where nothing is left, the text holds nothing but line
/// breaks.
pub proof fn lemma_outer_line_breaks(text: Seq<char>)
    ensures
        0 <= kept_from(text) <= text.len(),
        0 <= kept_to(text) <= text.len(),
        forall|i: int| 0 <= i < kept_from(text) ==> is_line_break(#[trigger] text[i]),
        forall|i: int| kept_to(text) <= i < text.len() ==> is_line_break(#[trigger] text[i]),
        without_outer_line_breaks(text).len() > 0 ==> {
            &&& without_outer_line_breaks(text) == text.subrange(kept_from(text), kept_to(text))
            &&& !is_line_break(without_outer_line_breaks(text)[0])
            &&& !is_line_break(without_outer_line_breaks(text).last())
        },
        without_outer_line_breaks(text).len() == 0 ==> kept_from(text) == text.len(),
{
    lemma_kept_from_bounds(text);
    lemma_kept_to_bounds(text);
    if kept_from(text) < kept_to(text) {
        let kept = text.subrange(kept_from(text), kept_to(text));
        assert(kept[0] == text[kept_from(text)]);
        assert(kept.last() == text[kept_to(text) - 1]);
    } else if kept_from(text) < text.len() {
        assert(kept_to(text) <= kept_from(text));
        assert(is_line_break(text[kept_from(text)]));
    }
}

/// Drops the line feeds and carriage returns at the two ends of `text`.
pub fn trim_line_breaks(text: &str) -> (r: &str)
    ensures
        r@ == without_outer_line_breaks(text@),
{
    let len = text.unicode_len();
    let mut it = text.chars();
    let mut i: usize = 0;
    let mut from: usize = 0;
    let mut found: bool = false;
    let mut to: usize = 0;
    while i < len
        invariant
            len == text@.len(),
            0 <= i <= len,
            it.remaining() == text@.skip(i as int),
            to <= i,
            forall|k: int| to <= k < i ==> is_line_break(#[trigger] text@[k]),
            to > 0 ==> !is_line_break(text@[to - 1]),
            found ==> from < to && !is_line_break(text@[from as int]),
            !found ==> to == 0 && from == 0,
            forall|k: int| 0 <= k < from ==> is_line_break(#[trigger] text@[k]),
        decreases len - i,
    {
        let next = it.next();
        proof {
            assert(text@.skip(i as int).len() > 0);
            assert(text@.skip(i as int)[0] == text@[i as int]);
            assert(text@.skip(i as int).drop_first() == text@.skip(i as int + 1));
        }
        match next {
            Some(c) => {
                if !(c == '\n' || c == '\r') {
                    if !found {
                        found = true;
                        from = i;
                    }
                    to = i + 1;
                }
            },
            None => {},
        }
        i = i + 1;
    }
    proof {
        if found {
            lemma_kept_from(text@, from as int);
        } else {
            lemma_kept_from(text@, len as int);
        }
        lemma_kept_to(text@, to as int);
    }
    if found {
        text.substring_char(from, to)
    } else {
        text.substring_char(0, 0)
    }
}

/// Minifies the text of a text node: squeezes whitespace runs, then drops the
/// line breaks at the two ends.
pub fn minify(text: &str) -> (r: String)
    ensures
        r@ == minified(text@),
{
    let squeezed = collapse_whitespace(text);
    trim_line_breaks(squeezed.as_str()).to_owned()
}

} // verus!

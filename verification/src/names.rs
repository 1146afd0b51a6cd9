//! Device names as they are shown and compared.
//!
//! A name read from an advertisement may hold control characters where the
//! name stored on the device is damaged. Before a name is shown, used as a
//! key or compared, those characters are taken out and the white space at
//! both ends is cut off.

use vstd::prelude::*;
use vstd::string::StringExecFns;

verus! {

/// Whether `c` is a control character: one of the code points of the
/// Unicode general category `Cc`, which are U+0000 to U+001F and U+007F to
/// U+009F.
pub open spec fn is_control(c: char) -> bool {
    let code = c as u32;
    code <= 0x1F || (0x7F <= code && code <= 0x9F)
}

/// Whether `c` is white space: one of the code points with the Unicode
/// property `White_Space`.
pub open spec fn is_whitespace(c: char) -> bool {
    let code = c as u32;
    ||| (0x09 <= code && code <= 0x0D)
    ||| code == 0x20
    ||| code == 0x85
    ||| code == 0xA0
    ||| code == 0x1680
    ||| (0x2000 <= code && code <= 0x200A)
    ||| code == 0x2028
    ||| code == 0x2029
    ||| code == 0x202F
    ||| code == 0x205F
    ||| code == 0x3000
}

/// `text` without its control characters, the others in their order.
pub open spec fn without_control(text: Seq<char>) -> Seq<char>
    decreases text.len(),
{
    if text.len() == 0 {
        Seq::empty()
    } else if is_control(text.last()) {
        without_control(text.drop_last())
    } else {
        without_control(text.drop_last()).push(text.last())
    }
}

/// Number of white-space characters at the front of `text`.
pub open spec fn leading_whitespace(text: Seq<char>) -> nat
    decreases text.len(),
{
    if text.len() > 0 && is_whitespace(text.first()) {
        1 + leading_whitespace(text.drop_first())
    } else {
        0
    }
}

/// Number of white-space characters at the back of `text`.
pub open spec fn trailing_whitespace(text: Seq<char>) -> nat
    decreases text.len(),
{
    if text.len() > 0 && is_whitespace(text.last()) {
        1 + trailing_whitespace(text.drop_last())
    } else {
        0
    }
}

/// `text` without the white space at its two ends.
pub open spec fn trimmed(text: Seq<char>) -> Seq<char> {
    if leading_whitespace(text) == text.len() {
        Seq::empty()
    } else {
        text.subrange(
            leading_whitespace(text) as int,
            text.len() - trailing_whitespace(text),
        )
    }
}

/// The clean form of a device name.
pub open spec fn sanitized(name: Seq<char>) -> Seq<char> {
    trimmed(without_control(name))
}

/// Specifies `char::is_control`: true exactly for the code points of the
/// general category `Cc`, a set that Unicode has closed for good.
pub assume_specification[ char::is_control ](c: char) -> (control: bool)
    ensures
        control == is_control(c),
;

/// Specifies `String::push`: the character is appended and nothing else
/// changes.
pub assume_specification[ String::push ](text: &mut String, c: char)
    ensures
        final(text)@ == old(text)@.push(c),
;

/// Specifies `str::trim`: the slice returned is the text between the first
/// and the last character that is not white space, and is empty where all
/// characters are white space.
pub assume_specification[ str::trim ](text: &str) -> (inner: &str)
    ensures
        inner@ == trimmed(text@),
;

/// Sanitize a device name by removing control characters and trimming
/// white space.
pub fn sanitize_name(name: &str) -> (clean: String)
    ensures
        clean@ == sanitized(name@),
{
    let mut kept = String::new();
    let mut chars = name.chars();
    for c in it: chars
        invariant
            kept@ == without_control(it.seq().take(it.index() as int)),
            it.seq() == name@,
    {
        proof {
            let next = name@.take(it.index() + 1);
            assert(next.drop_last() =~= name@.take(it.index() as int));
        }
        if !c.is_control() {
            kept.push(c);
        }
    }
    proof {
        assert(name@.take(name@.len() as int) =~= name@);
    }
    String::from_str(kept.as_str().trim())
}

/// `c` with an upper-case letter of ASCII turned into its lower-case form.
pub open spec fn ascii_lower(c: char) -> char {
    if 'A' <= c && c <= 'Z' {
        ((c as u32) + 32) as char
    } else {
        c
    }
}

/// Whether `a` and `b` are the same text but for the case of ASCII letters.
pub open spec fn same_ignoring_ascii_case(a: Seq<char>, b: Seq<char>) -> bool {
    &&& a.len() == b.len()
    &&& forall|i: int| 0 <= i < a.len() ==> ascii_lower(#[trigger] a[i]) == ascii_lower(b[i])
}

/// Specifies `str::eq_ignore_ascii_case`: the two texts are equal once the
/// upper-case letters of ASCII in both are turned into lower case.
pub assume_specification[ str::eq_ignore_ascii_case ](a: &str, b: &str) -> (same: bool)
    ensures
        same == same_ignoring_ascii_case(a@, b@),
;

/// Calls `str::starts_with` with a text as the pattern: true exactly when
/// `prefix` is how `text` begins.
#[verifier::external_body]
pub(crate) fn starts_with(text: &str, prefix: &str) -> (starts: bool)
    ensures
        starts == prefix@.is_prefix_of(text@),
{
    text.starts_with(prefix)
}

/// Whether `text` holds no control character.
pub open spec fn control_free(text: Seq<char>) -> bool {
    forall|i: int| 0 <= i < text.len() ==> !is_control(#[trigger] text[i])
}

/// Whether `text` neither begins nor ends with white space.
pub open spec fn trim_free(text: Seq<char>) -> bool {
    text.len() > 0 ==> !is_whitespace(text.first()) && !is_whitespace(text.last())
}

/// Taking out the control characters leaves none, and leaves a text
/// without any as it is.
pub proof fn lemma_without_control(text: Seq<char>)
    ensures
        control_free(without_control(text)),
        control_free(text) ==> without_control(text) == text,
    decreases text.len(),
{
    if text.len() > 0 {
        let init = text.drop_last();
        lemma_without_control(init);
    }
}

/// The white space counted at the front is white space, and what follows
/// it is not.
proof fn lemma_leading(text: Seq<char>)
    ensures
        leading_whitespace(text) <= text.len(),
        forall|i: int| 0 <= i < leading_whitespace(text) ==> is_whitespace(#[trigger] text[i]),
        leading_whitespace(text) < text.len() ==> !is_whitespace(
            text[leading_whitespace(text) as int],
        ),
    decreases text.len(),
{
    if text.len() > 0 && is_whitespace(text.first()) {
        let rest = text.drop_first();
        lemma_leading(rest);
        assert forall|i: int| 0 <= i < leading_whitespace(text) implies is_whitespace(
            #[trigger] text[i],
        ) by {
            if i > 0 {
                assert(text[i] == rest[i - 1]);
            }
        }
    }
}

/// The white space counted at the back is white space, and what precedes
/// it is not.
proof fn lemma_trailing(text: Seq<char>)
    ensures
        trailing_whitespace(text) <= text.len(),
        forall|i: int|
            text.len() - trailing_whitespace(text) <= i < text.len() ==> is_whitespace(
                #[trigger] text[i],
            ),
        trailing_whitespace(text) < text.len() ==> !is_whitespace(
            text[text.len() - trailing_whitespace(text) - 1],
        ),
    decreases text.len(),
{
    if text.len() > 0 && is_whitespace(text.last()) {
        let init = text.drop_last();
        lemma_trailing(init);
        assert forall|i: int|
            text.len() - trailing_whitespace(text) <= i < text.len() implies is_whitespace(
            #[trigger] text[i],
        ) by {
            if i < init.len() {
                assert(text[i] == init[i]);
            }
        }
    }
}

/// Trimming cuts a piece out of the text: the characters from the first to
/// the last that is not white space.
pub proof fn lemma_trimmed(text: Seq<char>)
    ensures
        trim_free(trimmed(text)),
        trimmed(text).len() <= text.len(),
        leading_whitespace(text) < text.len() ==> leading_whitespace(text) + trailing_whitespace(
            text,
        ) < text.len() && trimmed(text) == text.subrange(
            leading_whitespace(text) as int,
            text.len() - trailing_whitespace(text),
        ),
        trim_free(text) ==> trimmed(text) == text,
{
    lemma_leading(text);
    lemma_trailing(text);
}

/// A clean name holds no control character, neither begins nor ends with
/// white space, and is left as it is when it is cleaned again.
pub proof fn lemma_sanitized_is_clean(name: Seq<char>)
    ensures
        control_free(sanitized(name)),
        trim_free(sanitized(name)),
        sanitized(sanitized(name)) == sanitized(name),
{
    let kept = without_control(name);
    let clean = trimmed(kept);
    lemma_without_control(name);
    lemma_trimmed(kept);
    lemma_leading(kept);
    lemma_without_control(clean);
}

} // verus!

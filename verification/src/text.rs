//! Decimal text, character deletion and the framing of outgoing payloads.

use vstd::prelude::*;
use vstd::string::*;

verus! {

/// The character of one decimal digit.
pub open spec fn digit_char(d: nat) -> char {
    if d == 0 {
        '0'
    } else if d == 1 {
        '1'
    } else if d == 2 {
        '2'
    } else if d == 3 {
        '3'
    } else if d == 4 {
        '4'
    } else if d == 5 {
        '5'
    } else if d == 6 {
        '6'
    } else if d == 7 {
        '7'
    } else if d == 8 {
        '8'
    } else {
        '9'
    }
}

/// A number in decimal, without sign or leading zeros.
pub open spec fn decimal_text(n: nat) -> Seq<char>
    decreases n,
{
    if n < 10 {
        seq![digit_char(n)]
    } else {
        decimal_text(n / 10).push(digit_char(n % 10))
    }
}

/// A text with every occurrence of one character taken out.
pub open spec fn without_char(text: Seq<char>, del: char) -> Seq<char> {
    text.filter(differs_from(del))
}

/// The test that keeps every character but `del`.
pub open spec fn differs_from(del: char) -> spec_fn(char) -> bool {
    |c: char| c != del
}

/// A text written twice.
pub open spec fn doubled(text: Seq<char>) -> Seq<char> {
    text + text
}

/// The payload of one datagram: the text's bytes and a line feed.
pub open spec fn packet_bytes(text: Seq<char>) -> Seq<u8> {
    vstd::utf8::encode_utf8(text).push(10u8)
}

/// Calls `ToString::to_string` on a `u64`, which std documents to give the
/// number in decimal: its digits, most significant first, and `0` for zero.
#[verifier::external_body]
pub(crate) fn decimal_string(n: u64) -> (s: String)
    ensures
        s@ == decimal_text(n as nat),
{
    n.to_string()
}

/// Calls `str::replace` with a character as the pattern and the empty string
/// as its replacement. std documents that every match is replaced, so what is
/// left are the other characters, in their order.
#[verifier::external_body]
pub(crate) fn replace_with_nothing(text: &str, del: char) -> (s: String)
    ensures
        s@ == without_char(text@, del),
{
    text.replace(del, "")
}

/// Calls `char::to_string`, which gives the text of that one character.
#[verifier::external_body]
pub(crate) fn char_string(c: char) -> (s: String)
    ensures
        s@ == seq![c],
{
    c.to_string()
}

/// The decimal text of a number.
pub fn decimal(n: u64) -> (s: String)
    ensures
        s@ == decimal_text(n as nat),
        s@.len() >= 1,
{
    proof {
        lemma_decimal_nonempty(n as nat);
    }
    decimal_string(n)
}

/// Removes every occurrence of `del` from `text`.
pub fn delete_char(text: &str, del: char) -> (s: String)
    ensures
        s@ == without_char(text@, del),
        !s@.contains(del),
        s@.len() <= text@.len(),
{
    proof {
        lemma_deletion(text@, del);
    }
    replace_with_nothing(text, del)
}

/// Writes `text` twice, with nothing between.
pub fn concat_twice(text: &str) -> (s: String)
    ensures
        s@ == doubled(text@),
        s@.len() == 2 * text@.len(),
{
    let first = String::from_str(text);
    first.concat(text)
}

/// Frames a text for the wire: its bytes, then one line feed.
pub fn packet(data: &str) -> (bytes: Vec<u8>)
    ensures
        bytes@ == packet_bytes(data@),
{
    let mut bytes = data.as_bytes_vec();
    bytes.push(10u8);
    bytes
}

/// A decimal text has at least one character.
pub proof fn lemma_decimal_nonempty(n: nat)
    ensures
        decimal_text(n).len() >= 1,
    decreases n,
{
    if n >= 10 {
        lemma_decimal_nonempty(n / 10);
    }
}

/// Deleting a character leaves none of it, adds nothing that the text did not
/// hold, keeps every other character, and keeps what is left in the order it
/// had: the result is the text filtered.
pub proof fn lemma_deletion(text: Seq<char>, del: char)
    ensures
        !without_char(text, del).contains(del),
        without_char(text, del).len() <= text.len(),
        forall|c: char| c != del && text.contains(c) ==> without_char(text, del).contains(c),
        forall|c: char| without_char(text, del).contains(c) ==> text.contains(c),
        forall|a: Seq<char>, b: Seq<char>|
            text == a + b ==> without_char(text, del) == without_char(a, del) + without_char(
                b,
                del,
            ),
{
    let keep = differs_from(del);
    let left = without_char(text, del);
    text.lemma_filter_len(keep);
    if left.contains(del) {
        let i = choose|i: int| 0 <= i < left.len() && left[i] == del;
        text.lemma_filter_pred(keep, i);
    }
    assert forall|c: char| c != del && text.contains(c) implies without_char(text, del).contains(
        c,
    ) by {
        let i = choose|i: int| 0 <= i < text.len() && text[i] == c;
        text.lemma_filter_contains(keep, i);
    }
    assert forall|c: char| without_char(text, del).contains(c) implies text.contains(c) by {
        text.lemma_filter_contains_rev(keep, c);
    }
    assert forall|a: Seq<char>, b: Seq<char>| text == a + b implies without_char(text, del)
        == without_char(a, del) + without_char(b, del) by {
        Seq::filter_distributes_over_add(a, b, keep);
    }
}

/// A text written twice has even length, twice that of the text, and both
/// halves are the text.
pub proof fn lemma_doubled(text: Seq<char>)
    ensures
        doubled(text).len() == 2 * text.len(),
        doubled(text).len() % 2 == 0,
        doubled(text).subrange(0, text.len() as int) == text,
        doubled(text).subrange(text.len() as int, (2 * text.len()) as int) == text,
{
    assert(doubled(text).subrange(0, text.len() as int) =~= text);
    assert(doubled(text).subrange(text.len() as int, (2 * text.len()) as int) =~= text);
}

} // verus!

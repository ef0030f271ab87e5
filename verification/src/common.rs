//! The record that the program scraper reads: two fixed-size byte fields,
//! each holding a text that a zero byte ends.

use vstd::prelude::*;
use vstd::slice::slice_subrange;
use vstd::utf8::{decode_utf8, encode_utf8, encode_utf8_decode_utf8, valid_utf8, encode_utf8_valid_utf8};

verus! {

/// The index of the first zero byte of `field` at or after `from`, or the
/// length of `field`.
pub open spec fn nul_at(field: Seq<u8>, from: int) -> int
    decreases field.len() - from,
{
    if 0 <= from < field.len() && field[from] != 0 {
        nul_at(field, from + 1)
    } else {
        from
    }
}

/// The bytes of the text in `field`: those before its first zero byte, or
/// all of them where it holds none.
pub open spec fn c_string(field: Seq<u8>) -> Seq<u8> {
    field.take(nul_at(field, 0))
}

/// The text in `field`: its bytes read as UTF-8, or the empty text where
/// they are not UTF-8.
pub open spec fn text_of(field: Seq<u8>) -> Seq<char> {
    if valid_utf8(c_string(field)) {
        decode_utf8(c_string(field))
    } else {
        Seq::empty()
    }
}

/// A record of the program scraper as a mathematical value.
pub struct ProgResultView {
    pub name: Seq<u8>,
    pub attached: Seq<u8>,
}

/// One loaded program, as the kernel iterator writes it: the bytes of the
/// field with its name and of the field with what it is attached to.
#[allow(non_camel_case_types)]
pub struct bpf_prog_result {
    pub name: Vec<u8>,
    pub attached: Vec<u8>,
}

impl View for bpf_prog_result {
    type V = ProgResultView;

    open spec fn view(&self) -> ProgResultView {
        ProgResultView { name: self.name@, attached: self.attached@ }
    }
}

/// Calls `core::str::from_utf8` and copies the string slice that it gives.
/// The call succeeds exactly on bytes that are UTF-8, and the string it
/// gives is made of the very bytes it was given.
#[verifier::external_body]
fn utf8_text(bytes: &[u8]) -> (text: Option<String>)
    ensures
        text is Some <==> valid_utf8(bytes@),
        text matches Some(t) ==> encode_utf8(t@) == bytes@,
{
    match core::str::from_utf8(bytes) {
        Ok(s) => Some(s.to_owned()),
        Err(_) => None,
    }
}

/// Reads the text of a field.
pub fn field_text(field: &Vec<u8>) -> (text: String)
    ensures
        text@ == text_of(field@),
{
    let mut end: usize = 0;
    while end < field.len() && field[end] != 0
        invariant
            end <= field.len(),
            nul_at(field@, 0) == nul_at(field@, end as int),
        decreases field.len() - end,
    {
        end = end + 1;
    }
    let bytes = slice_subrange(field.as_slice(), 0, end);
    assert(bytes@ =~= c_string(field@));
    match utf8_text(bytes) {
        Some(text) => {
            proof {
                encode_utf8_decode_utf8(text@);
            }
            text
        },
        None => String::new(),
    }
}

impl bpf_prog_result {
    /// The name of the program, or the empty text where the field does not
    /// hold UTF-8.
    pub fn name(&self) -> (text: String)
        ensures
            text@ == text_of(self@.name),
    {
        field_text(&self.name)
    }

    /// What the program is attached to, or the empty text where the field
    /// does not hold UTF-8.
    pub fn attached(&self) -> (text: String)
        ensures
            text@ == text_of(self@.attached),
    {
        field_text(&self.attached)
    }
}

/// A text without a zero byte that fills a field up to its first zero byte
/// is read back as it is.
pub proof fn lemma_text_of_encoded(text: Seq<char>, padding: Seq<u8>)
    requires
        forall|i: int| 0 <= i < encode_utf8(text).len() ==> encode_utf8(text)[i] != 0,
        padding.len() == 0 || padding[0] == 0,
    ensures
        text_of(encode_utf8(text) + padding) == text,
{
    let bytes = encode_utf8(text);
    let field = bytes + padding;
    lemma_nul_at_after(field, 0, bytes.len() as int);
    assert(c_string(field) =~= bytes);
    encode_utf8_valid_utf8(text);
    encode_utf8_decode_utf8(text);
}

/// Where no byte of `field[from..to]` is zero and a zero byte or the end
/// follows, the first zero byte at or after `from` is at `to`.
proof fn lemma_nul_at_after(field: Seq<u8>, from: int, to: int)
    requires
        0 <= from <= to <= field.len(),
        forall|i: int| from <= i < to ==> field[i] != 0,
        to < field.len() ==> field[to] == 0,
    ensures
        nul_at(field, from) == to,
    decreases to - from,
{
    if from < to {
        lemma_nul_at_after(field, from + 1, to);
    }
}

} // verus!

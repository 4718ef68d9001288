//! Text as an element type.

use vstd::prelude::*;
use vstd::string::{StringSliceAdditionalSpecFns, StrSliceExecFns};
use vstd::utf8::*;

use crate::crdt::{CodecError, ElementCodec};

verus! {

/// `String::from_utf8`: the text that the bytes encode, or none when they are
/// not valid UTF-8.
#[verifier::external_body]
fn string_from_utf8(bytes: Vec<u8>) -> (r: Option<String>)
    ensures
        match r {
            Some(s) => valid_utf8(bytes@) && s@ == decode_utf8(bytes@),
            None => !valid_utf8(bytes@),
        },
{
    String::from_utf8(bytes).ok()
}

/// The debug form of a text: quoted, with special characters escaped.
pub uninterp spec fn debug_text(s: Seq<char>) -> Seq<char>;

/// `format!("{:?}")` of a text: its debug form, which depends on the text
/// alone. What the escapes look like is left unsaid.
#[verifier::external_body]
pub(crate) fn debug_string(s: &str) -> (r: String)
    ensures
        r@ == debug_text(s@),
{
    format!("{:?}", s)
}

impl ElementCodec for String {
    open spec fn encoding(v: Seq<char>) -> Seq<u8> {
        encode_utf8(v)
    }

    open spec fn decoding(bytes: Seq<u8>) -> Option<Seq<char>> {
        if valid_utf8(bytes) {
            Some(decode_utf8(bytes))
        } else {
            None
        }
    }

    open spec fn printed(v: Seq<char>) -> Seq<char> {
        debug_text(v)
    }

    /// A text names itself.
    open spec fn named(v: Seq<char>) -> Seq<char> {
        v
    }

    proof fn law_decode_encode(v: Seq<char>) {
        encode_utf8_valid_utf8(v);
        encode_utf8_decode_utf8(v);
    }

    fn encode_elem(&self) -> (r: Vec<u8>) {
        self.as_str().as_bytes_vec()
    }

    fn decode_elem(bytes: &[u8]) -> (r: Result<String, CodecError>) {
        let mut copy: Vec<u8> = Vec::new();
        let mut i: usize = 0;
        while i < bytes.len()
            invariant
                i <= bytes.len(),
                copy@ == bytes@.take(i as int),
            decreases bytes.len() - i,
        {
            copy.push(bytes[i]);
            assert(bytes@.take(i + 1) =~= bytes@.take(i as int).push(bytes@[i as int]));
            i += 1;
        }
        assert(bytes@.take(i as int) =~= bytes@);
        match string_from_utf8(copy) {
            Some(s) => Ok(s),
            None => Err(CodecError::InvalidElement),
        }
    }

    fn same_elem(&self, other: &String) -> (r: bool) {
        *self == *other
    }

    fn clone_elem(&self) -> (r: String) {
        self.clone()
    }

    fn name_elem(&self) -> (r: String) {
        self.clone()
    }

    fn print_elem(&self) -> (r: String) {
        debug_string(self.as_str())
    }
}

} // verus!

//! Delta-state replicated data types.
//!
//! A data type receives a freshly minted [`Dot`] and the current
//! [`DotVersionVector`] with each local operation and each state query, so
//! that it fills in causal metadata itself.

pub mod or_set;
pub mod or_set_laws;
pub mod or_set_wire;
pub mod text_codec;

use vstd::prelude::*;

use crate::common::{ClockModel, Counter, NodeId};
use crate::logical_clocks::dot_version_vector::{Dot, DotModel, DotVersionVector, DvvModel};
use crate::logical_clocks::version_vector::VersionVector;

verus! {

/// Why bytes from the wire could not be read.
#[derive(Clone, Copy, Debug, PartialEq, Eq, Structural)]
pub enum CodecError {
    /// The bytes of an element are no encoding of one.
    InvalidElement,
    /// A dot is missing from an entry.
    MissingDot,
    /// An operation message holds no operation.
    MissingOperation,
    /// The bytes are no message.
    InvalidMessage,
}

/// What an element type offers to be held in a set: an encoding to bytes and
/// back, equality, a printed form, and a name.
pub trait ElementCodec: View + Sized {
    /// The bytes of an element.
    spec fn encoding(v: Self::V) -> Seq<u8>;

    /// The element that some bytes encode, if they encode one.
    spec fn decoding(bytes: Seq<u8>) -> Option<Self::V>;

    /// The printed form of an element.
    spec fn printed(v: Self::V) -> Seq<char>;

    /// The text by which a client names an element.
    spec fn named(v: Self::V) -> Seq<char>;

    /// Decoding undoes encoding.
    proof fn law_decode_encode(v: Self::V)
        ensures
            Self::decoding(Self::encoding(v)) == Some(v),
    ;

    fn encode_elem(&self) -> (r: Vec<u8>)
        ensures
            r@ == Self::encoding(self@),
    ;

    fn decode_elem(bytes: &[u8]) -> (r: Result<Self, CodecError>)
        ensures
            match r {
                Ok(e) => Self::decoding(bytes@) == Some(e@),
                Err(err) => Self::decoding(bytes@) is None && err == CodecError::InvalidElement,
            },
    ;

    fn same_elem(&self, other: &Self) -> (r: bool)
        ensures
            r == (self@ == other@),
    ;

    fn clone_elem(&self) -> (r: Self)
        ensures
            r@ == self@,
    ;

    fn print_elem(&self) -> (r: String)
        ensures
            r@ == Self::printed(self@),
    ;

    fn name_elem(&self) -> (r: String)
        ensures
            r@ == Self::named(self@),
    ;
}

/// A delta that carries causal metadata.
pub trait DeltaContext: View {
    /// The sender's clock, the replica of its dot and the dot's counter.
    spec fn metadata(d: Self::V) -> (ClockModel, Seq<char>, u64);

    fn causal_context(&self) -> (r: (VersionVector, NodeId, Counter))
        ensures
            (r.0@, r.1@, r.2) == Self::metadata(self@),
    ;
}

/// A delta-state replicated data type whose causality is tracked by its owner.
pub trait DeltaCrdt: View + Sized {
    /// An operation of the application.
    type Op: View;

    /// A change, or a whole state, with causal metadata.
    type Delta: DeltaContext;

    /// A delta as it goes over the wire.
    type DeltaMessage: View;

    /// An operation as it goes over the wire.
    type OpMessage: View;

    /// The state after a local operation with event `dot`.
    spec fn after_local(s: Self::V, dot: DotModel, op: <Self::Op as View>::V) -> Self::V;

    /// Is `d` a delta that a local operation may announce?
    spec fn announces_local(
        s: Self::V,
        dot: DotModel,
        op: <Self::Op as View>::V,
        dvv: DvvModel,
        d: <Self::Delta as View>::V,
    ) -> bool;

    /// The state after merging a delta.
    spec fn after_merge(s: Self::V, d: <Self::Delta as View>::V) -> Self::V;

    /// Is `d` a delta that carries the whole state?
    spec fn is_full_state(s: Self::V, dvv: DvvModel, d: <Self::Delta as View>::V) -> bool;

    /// Is `d` a delta that carries what an observer with clock `known` misses?
    spec fn is_delta_since(
        s: Self::V,
        known: ClockModel,
        dvv: DvvModel,
        d: <Self::Delta as View>::V,
    ) -> bool;

    /// The state without the metadata that is stable under `frontier`.
    spec fn after_gc(s: Self::V, frontier: DvvModel) -> Self::V;

    /// Is `text` the printed form of the state?
    spec fn shows(s: Self::V, text: Seq<char>) -> bool;

    /// May a request for some element be answered with the element of this
    /// name?
    spec fn may_offer(s: Self::V, choice: Option<Seq<char>>) -> bool;

    /// The message that carries a delta.
    spec fn delta_message(d: <Self::Delta as View>::V) -> <Self::DeltaMessage as View>::V;

    /// The delta in a message, or why there is none.
    spec fn read_delta(m: <Self::DeltaMessage as View>::V) -> Result<
        <Self::Delta as View>::V,
        CodecError,
    >;

    /// The message that carries an operation.
    spec fn op_message(op: <Self::Op as View>::V) -> <Self::OpMessage as View>::V;

    /// The operation in a message, or why there is none.
    spec fn read_op(m: <Self::OpMessage as View>::V) -> Result<<Self::Op as View>::V, CodecError>;

    /// A delta that was written is read back.
    proof fn law_delta_round_trip(d: <Self::Delta as View>::V)
        ensures
            Self::read_delta(Self::delta_message(d)) == Ok::<<Self::Delta as View>::V, CodecError>(
                d,
            ),
    ;

    /// An operation that was written is read back.
    proof fn law_op_round_trip(op: <Self::Op as View>::V)
        ensures
            Self::read_op(Self::op_message(op)) == Ok::<<Self::Op as View>::V, CodecError>(op),
    ;

    /// Apply a local operation. `dvv` is the vector after its event.
    fn apply_local(&mut self, dot: Dot, op: Self::Op, dvv: &DotVersionVector) -> (r: Self::Delta)
        ensures
            final(self)@ == Self::after_local(old(self)@, dot@, op@),
            Self::announces_local(old(self)@, dot@, op@, dvv@, r@),
    ;

    /// Merge a remote delta.
    fn merge_delta(&mut self, delta: &Self::Delta)
        ensures
            final(self)@ == Self::after_merge(old(self)@, delta@),
    ;

    /// A delta that carries the whole state.
    fn full_state(&self, dvv: &DotVersionVector) -> (r: Self::Delta)
        ensures
            Self::is_full_state(self@, dvv@, r@),
    ;

    /// A delta that carries only what a peer with clock `remote_knowledge`
    /// has not seen.
    fn delta_since(&self, remote_knowledge: &VersionVector, dvv: &DotVersionVector) -> (r:
        Self::Delta)
        ensures
            Self::is_delta_since(self@, remote_knowledge@, dvv@, r@),
    ;

    /// Remove the metadata that is causally stable under `frontier`.
    fn perform_gc(&mut self, frontier: &DotVersionVector)
        ensures
            final(self)@ == Self::after_gc(old(self)@, frontier@),
    ;

    /// The state as text.
    fn print_state(&self) -> (r: String)
        ensures
            Self::shows(self@, r@),
    ;

    /// The name of some element of the state, if there is one.
    fn get_random_element(&self) -> (r: Option<String>)
        ensures
            match r {
                Some(text) => Self::may_offer(self@, Some(text@)),
                None => Self::may_offer(self@, None),
            },
    ;

    fn encode_delta(delta: &Self::Delta) -> (r: Self::DeltaMessage)
        ensures
            r@ == Self::delta_message(delta@),
    ;

    fn decode_delta(message: &Self::DeltaMessage) -> (r: Result<Self::Delta, CodecError>)
        ensures
            match r {
                Ok(d) => Self::read_delta(message@) == Ok::<<Self::Delta as View>::V, CodecError>(
                    d@,
                ),
                Err(e) => Self::read_delta(message@) == Err::<<Self::Delta as View>::V, CodecError>(
                    e,
                ),
            },
    ;

    fn encode_op(op: &Self::Op) -> (r: Self::OpMessage)
        ensures
            r@ == Self::op_message(op@),
    ;

    fn decode_op(message: &Self::OpMessage) -> (r: Result<Self::Op, CodecError>)
        ensures
            match r {
                Ok(op) => Self::read_op(message@) == Ok::<<Self::Op as View>::V, CodecError>(op@),
                Err(e) => Self::read_op(message@) == Err::<<Self::Op as View>::V, CodecError>(e),
            },
    ;
}

} // verus!

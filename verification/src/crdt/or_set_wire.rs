//! Sets on the wire: deltas and operations as messages, and back.

use vstd::prelude::*;

use crate::crdt::or_set as sets;
use crate::crdt::or_set::{DeltaModel, OpModel, OrSetDelta, OrSetOp};
use crate::crdt::{CodecError, ElementCodec};
use crate::logical_clocks::dot_version_vector::{Dot, DotModel};
use crate::proto::proto_or_set_op::Op;
use crate::proto::{ProtoDot, ProtoDotPair, ProtoElemDot, ProtoOrSetDelta, ProtoOrSetOp, WireDelta};

verus! {

/// The message that carries a delta.
pub open spec fn delta_message<E: ElementCodec>(d: DeltaModel<E::V>) -> WireDelta {
    WireDelta {
        adds: d.adds.map_values(|p: (E::V, DotModel)| (E::encoding(p.0), Some(p.1))),
        tombstones: d.tombstones.map_values(|p: (DotModel, DotModel)| (Some(p.0), Some(p.1))),
        context: d.context,
        dot_node: d.dot_node,
        dot_counter: d.dot_counter,
    }
}

/// The addition in an entry of a message.
pub open spec fn read_add<E: ElementCodec>(e: (Seq<u8>, Option<DotModel>)) -> Result<
    (E::V, DotModel),
    CodecError,
> {
    match (E::decoding(e.0), e.1) {
        (Some(v), Some(d)) => Ok((v, d)),
        (None, _) => Err(CodecError::InvalidElement),
        (_, None) => Err(CodecError::MissingDot),
    }
}

/// The tombstone in an entry of a message.
pub open spec fn read_stone(p: (Option<DotModel>, Option<DotModel>)) -> Result<
    (DotModel, DotModel),
    CodecError,
> {
    match p {
        (Some(a), Some(r)) => Ok((a, r)),
        _ => Err(CodecError::MissingDot),
    }
}

/// The additions in a message, or what is wrong with the first bad entry.
pub open spec fn read_adds<E: ElementCodec>(adds: Seq<(Seq<u8>, Option<DotModel>)>) -> Result<
    Seq<(E::V, DotModel)>,
    CodecError,
>
    decreases adds.len(),
{
    if adds.len() == 0 {
        Ok(Seq::empty())
    } else {
        match (read_adds::<E>(adds.drop_last()), read_add::<E>(adds.last())) {
            (Ok(l), Ok(p)) => Ok(l.push(p)),
            (Err(e), _) => Err(e),
            (_, Err(e)) => Err(e),
        }
    }
}

/// The tombstones in a message, or what is wrong with the first bad entry.
pub open spec fn read_stones(stones: Seq<(Option<DotModel>, Option<DotModel>)>) -> Result<
    Seq<(DotModel, DotModel)>,
    CodecError,
>
    decreases stones.len(),
{
    if stones.len() == 0 {
        Ok(Seq::empty())
    } else {
        match (read_stones(stones.drop_last()), read_stone(stones.last())) {
            (Ok(l), Ok(p)) => Ok(l.push(p)),
            (Err(e), _) => Err(e),
            (_, Err(e)) => Err(e),
        }
    }
}

/// The delta in a message, or what is wrong with its first bad entry.
pub open spec fn read_delta<E: ElementCodec>(w: WireDelta) -> Result<DeltaModel<E::V>, CodecError> {
    match (read_adds::<E>(w.adds), read_stones(w.tombstones)) {
        (Ok(adds), Ok(tombstones)) => Ok(
            DeltaModel {
                adds,
                tombstones,
                context: w.context,
                dot_node: w.dot_node,
                dot_counter: w.dot_counter,
            },
        ),
        (Err(e), _) => Err(e),
        (_, Err(e)) => Err(e),
    }
}

/// The message that carries an operation.
pub open spec fn op_message<E: ElementCodec>(op: OpModel<E::V>) -> Option<OpModel<Seq<u8>>> {
    match op {
        OpModel::Add(e) => Some(OpModel::Add(E::encoding(e))),
        OpModel::Remove(e) => Some(OpModel::Remove(E::encoding(e))),
    }
}

/// The operation in a message.
pub open spec fn read_op<E: ElementCodec>(m: Option<OpModel<Seq<u8>>>) -> Result<
    OpModel<E::V>,
    CodecError,
> {
    match m {
        None => Err(CodecError::MissingOperation),
        Some(OpModel::Add(bytes)) => match E::decoding(bytes) {
            Some(e) => Ok(OpModel::Add(e)),
            None => Err(CodecError::InvalidElement),
        },
        Some(OpModel::Remove(bytes)) => match E::decoding(bytes) {
            Some(e) => Ok(OpModel::Remove(e)),
            None => Err(CodecError::InvalidElement),
        },
    }
}

/// A message read back gives the delta that was written.
pub proof fn lemma_delta_round_trip<E: ElementCodec>(d: DeltaModel<E::V>)
    ensures
        read_delta::<E>(delta_message::<E>(d)) == Ok::<DeltaModel<E::V>, CodecError>(d),
{
    lemma_adds_round_trip::<E>(d.adds);
    lemma_stones_round_trip(d.tombstones);
}

proof fn lemma_adds_round_trip<E: ElementCodec>(adds: Seq<(E::V, DotModel)>)
    ensures
        read_adds::<E>(adds.map_values(|p: (E::V, DotModel)| (E::encoding(p.0), Some(p.1)))) == Ok::<
            Seq<(E::V, DotModel)>,
            CodecError,
        >(adds),
    decreases adds.len(),
{
    let write = |p: (E::V, DotModel)| (E::encoding(p.0), Some(p.1));
    if adds.len() == 0 {
        assert(adds =~= Seq::empty());
    } else {
        let rest = adds.drop_last();
        lemma_adds_round_trip::<E>(rest);
        E::law_decode_encode(adds.last().0);
        assert(adds.map_values(write).drop_last() =~= rest.map_values(write));
        assert(rest.push(adds.last()) =~= adds);
    }
}

proof fn lemma_stones_round_trip(stones: Seq<(DotModel, DotModel)>)
    ensures
        read_stones(stones.map_values(|p: (DotModel, DotModel)| (Some(p.0), Some(p.1)))) == Ok::<
            Seq<(DotModel, DotModel)>,
            CodecError,
        >(stones),
    decreases stones.len(),
{
    let write = |p: (DotModel, DotModel)| (Some(p.0), Some(p.1));
    if stones.len() == 0 {
        assert(stones =~= Seq::empty());
    } else {
        let rest = stones.drop_last();
        lemma_stones_round_trip(rest);
        assert(stones.map_values(write).drop_last() =~= rest.map_values(write));
        assert(rest.push(stones.last()) =~= stones);
    }
}

/// Reading fails as soon as a prefix of the entries does.
proof fn lemma_adds_prefix<E: ElementCodec>(adds: Seq<(Seq<u8>, Option<DotModel>)>, i: int)
    requires
        0 <= i <= adds.len(),
        read_adds::<E>(adds.take(i)) is Err,
    ensures
        read_adds::<E>(adds) == read_adds::<E>(adds.take(i)),
    decreases adds.len(),
{
    if i == adds.len() {
        assert(adds.take(i) =~= adds);
    } else {
        assert(adds.drop_last().take(i) =~= adds.take(i));
        lemma_adds_prefix::<E>(adds.drop_last(), i);
    }
}

proof fn lemma_stones_prefix(stones: Seq<(Option<DotModel>, Option<DotModel>)>, i: int)
    requires
        0 <= i <= stones.len(),
        read_stones(stones.take(i)) is Err,
    ensures
        read_stones(stones) == read_stones(stones.take(i)),
    decreases stones.len(),
{
    if i == stones.len() {
        assert(stones.take(i) =~= stones);
    } else {
        assert(stones.drop_last().take(i) =~= stones.take(i));
        lemma_stones_prefix(stones.drop_last(), i);
    }
}

fn write_dot(dot: &Dot) -> (r: ProtoDot)
    ensures
        r@ == dot@,
{
    ProtoDot { node_id: dot.node_id.clone(), counter: dot.counter }
}

fn dot_from(dot: &ProtoDot) -> (r: Dot)
    ensures
        r@ == dot@,
{
    Dot { node_id: dot.node_id.clone(), counter: dot.counter }
}

/// Write a delta as a message.
pub fn write_delta<E: ElementCodec>(d: &OrSetDelta<E>) -> (r: ProtoOrSetDelta)
    ensures
        r@ == delta_message::<E>(d@),
{
    let mut adds: Vec<ProtoElemDot> = Vec::new();
    let mut i: usize = 0;
    while i < d.adds.len()
        invariant
            i <= d.adds.len(),
            adds.len() == i,
            forall|j: int|
                0 <= j < i ==> (#[trigger] adds@[j])@ == (
                    E::encoding(d.adds@[j].0@),
                    Some(d.adds@[j].1@),
                ),
        decreases d.adds.len() - i,
    {
        adds.push(
            ProtoElemDot { element: d.adds[i].0.encode_elem(), dot: Some(write_dot(&d.adds[i].1)) },
        );
        i += 1;
    }
    let mut tombstones: Vec<ProtoDotPair> = Vec::new();
    let mut k: usize = 0;
    while k < d.tombstones.len()
        invariant
            k <= d.tombstones.len(),
            tombstones.len() == k,
            forall|j: int|
                0 <= j < k ==> (#[trigger] tombstones@[j])@ == (
                    Some(d.tombstones@[j].0@),
                    Some(d.tombstones@[j].1@),
                ),
        decreases d.tombstones.len() - k,
    {
        tombstones.push(
            ProtoDotPair {
                add_dot: Some(write_dot(&d.tombstones[k].0)),
                remove_dot: Some(write_dot(&d.tombstones[k].1)),
            },
        );
        k += 1;
    }
    let r = ProtoOrSetDelta {
        adds,
        tombstones,
        context: d.context.clone(),
        dot_node: d.dot_node.clone(),
        dot_counter: d.dot_counter,
    };
    proof {
        assert(r@.adds =~= delta_message::<E>(d@).adds);
        assert(r@.tombstones =~= delta_message::<E>(d@).tombstones);
    }
    r
}

/// Read a delta from a message.
pub fn parse_delta<E: ElementCodec>(m: &ProtoOrSetDelta) -> (r: Result<OrSetDelta<E>, CodecError>)
    ensures
        match r {
            Ok(d) => read_delta::<E>(m@) == Ok::<DeltaModel<E::V>, CodecError>(d@),
            Err(e) => read_delta::<E>(m@) == Err::<DeltaModel<E::V>, CodecError>(e),
        },
{
    let ghost wire_adds = m@.adds;
    let ghost wire_stones = m@.tombstones;
    let mut adds: Vec<(E, Dot)> = Vec::new();
    assert(sets::pairs_of(adds@) =~= Seq::empty());
    let mut i: usize = 0;
    while i < m.adds.len()
        invariant
            i <= m.adds.len(),
            wire_adds == m@.adds,
            read_adds::<E>(wire_adds.take(i as int)) == Ok::<Seq<(E::V, DotModel)>, CodecError>(
                sets::pairs_of(adds@),
            ),
        decreases m.adds.len() - i,
    {
        let ghost head = wire_adds.take(i + 1);
        proof {
            assert(head.drop_last() =~= wire_adds.take(i as int));
            assert(head.last() == m.adds@[i as int]@);
        }
        match E::decode_elem(m.adds[i].element.as_slice()) {
            Err(e) => {
                proof {
                    lemma_adds_prefix::<E>(wire_adds, i + 1);
                }
                return Err(e);
            },
            Ok(elem) => match &m.adds[i].dot {
                None => {
                    proof {
                        lemma_adds_prefix::<E>(wire_adds, i + 1);
                    }
                    return Err(CodecError::MissingDot);
                },
                Some(dot) => {
                    let pair = (elem, dot_from(dot));
                    assert(sets::pairs_of(adds@.push(pair)) =~= sets::pairs_of(adds@).push(
                        (pair.0@, pair.1@),
                    ));
                    adds.push(pair);
                },
            },
        }
        i += 1;
    }
    assert(wire_adds.take(i as int) =~= wire_adds);
    let mut tombstones: Vec<(Dot, Dot)> = Vec::new();
    assert(sets::stones_of(tombstones@) =~= Seq::empty());
    let mut k: usize = 0;
    while k < m.tombstones.len()
        invariant
            k <= m.tombstones.len(),
            wire_stones == m@.tombstones,
            read_adds::<E>(m@.adds) is Ok,
            read_stones(wire_stones.take(k as int)) == Ok::<Seq<(DotModel, DotModel)>, CodecError>(
                sets::stones_of(tombstones@),
            ),
        decreases m.tombstones.len() - k,
    {
        let ghost head = wire_stones.take(k + 1);
        proof {
            assert(head.drop_last() =~= wire_stones.take(k as int));
            assert(head.last() == m.tombstones@[k as int]@);
        }
        match (&m.tombstones[k].add_dot, &m.tombstones[k].remove_dot) {
            (Some(a), Some(r)) => {
                let pair = (dot_from(a), dot_from(r));
                assert(sets::stones_of(tombstones@.push(pair)) =~= sets::stones_of(
                    tombstones@,
                ).push((pair.0@, pair.1@)));
                tombstones.push(pair);
            },
            _ => {
                proof {
                    lemma_stones_prefix(wire_stones, k + 1);
                }
                return Err(CodecError::MissingDot);
            },
        }
        k += 1;
    }
    assert(wire_stones.take(k as int) =~= wire_stones);
    Ok(
        OrSetDelta {
            adds,
            tombstones,
            context: m.context.clone(),
            dot_node: m.dot_node.clone(),
            dot_counter: m.dot_counter,
        },
    )
}

/// Write an operation as a message.
pub fn write_op<E: ElementCodec>(op: &OrSetOp<E>) -> (r: ProtoOrSetOp)
    ensures
        r@ == op_message::<E>(op@),
{
    match op {
        OrSetOp::Add(e) => ProtoOrSetOp { op: Some(Op::AddElement(e.encode_elem())) },
        OrSetOp::Remove(e) => ProtoOrSetOp { op: Some(Op::RemoveElement(e.encode_elem())) },
    }
}

/// Read an operation from a message.
pub fn parse_op<E: ElementCodec>(m: &ProtoOrSetOp) -> (r: Result<OrSetOp<E>, CodecError>)
    ensures
        match r {
            Ok(op) => read_op::<E>(m@) == Ok::<OpModel<E::V>, CodecError>(op@),
            Err(e) => read_op::<E>(m@) == Err::<OpModel<E::V>, CodecError>(e),
        },
{
    match &m.op {
        None => Err(CodecError::MissingOperation),
        Some(Op::AddElement(bytes)) => match E::decode_elem(bytes.as_slice()) {
            Ok(e) => Ok(OrSetOp::Add(e)),
            Err(e) => Err(e),
        },
        Some(Op::RemoveElement(bytes)) => match E::decode_elem(bytes.as_slice()) {
            Ok(e) => Ok(OrSetOp::Remove(e)),
            Err(e) => Err(e),
        },
    }
}

} // verus!

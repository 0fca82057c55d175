//! Byte layout of the uniform block: a fixed base block followed by one
//! 16-byte slot per exposed property, in declaration order.
use vstd::prelude::*;
use crate::project::{PropertyValue, ShaderProperty};

verus! {

/// Size in bytes of the base block (view-projection matrix, time, three
/// spare scalars, resolution and mouse position).
pub const BASE_UNIFORM_SIZE: u64 = 96;

/// Bytes taken by each exposed property.
pub const SLOT_SIZE: u64 = 16;

/// The four bytes of `w`, least significant first.
pub open spec fn le_bytes(w: u32) -> Seq<u8> {
    seq![
        (w % 256) as u8,
        ((w / 256) % 256) as u8,
        ((w / 65536) % 256) as u8,
        ((w / 16777216) % 256) as u8,
    ]
}

/// `n` zero bytes.
pub open spec fn zeros(n: nat) -> Seq<u8> {
    Seq::new(n, |i: int| 0u8)
}

/// The 16 bytes of one property's slot: its components, then zero padding.
pub open spec fn slot_bytes(v: PropertyValue) -> Seq<u8> {
    match v {
        PropertyValue::Float(x) => le_bytes(x) + zeros(12),
        PropertyValue::Vec2(x, y) => le_bytes(x) + le_bytes(y) + zeros(8),
        PropertyValue::Color(r, g, b, a) => le_bytes(r) + le_bytes(g) + le_bytes(b) + le_bytes(a),
        PropertyValue::Float4(x, y, z, w) => le_bytes(x) + le_bytes(y) + le_bytes(z) + le_bytes(w),
    }
}

/// The slots of `props`, in order.
pub open spec fn packed(props: Seq<ShaderProperty>) -> Seq<u8>
    decreases props.len(),
{
    if props.len() == 0 {
        Seq::empty()
    } else {
        packed(props.drop_last()) + slot_bytes(props.last().value)
    }
}

/// Size of the whole uniform block for `props`.
pub fn compute_total_size(props: &Vec<ShaderProperty>) -> (r: u64)
    requires
        BASE_UNIFORM_SIZE + SLOT_SIZE * props@.len() <= u64::MAX,
    ensures
        r == BASE_UNIFORM_SIZE + SLOT_SIZE * props@.len(),
{
    BASE_UNIFORM_SIZE + SLOT_SIZE * (props.len() as u64)
}

fn push_word(out: &mut Vec<u8>, w: u32)
    ensures
        final(out)@ == old(out)@ + le_bytes(w),
{
    out.push((w % 256) as u8);
    out.push(((w / 256) % 256) as u8);
    out.push(((w / 65536) % 256) as u8);
    out.push(((w / 16777216) % 256) as u8);
    assert(final(out)@ =~= old(out)@ + le_bytes(w));
}

fn push_zeros(out: &mut Vec<u8>, n: usize)
    ensures
        final(out)@ == old(out)@ + zeros(n as nat),
{
    let mut i: usize = 0;
    while i < n
        invariant
            i <= n,
            out@ == old(out)@ + zeros(i as nat),
        decreases n - i,
    {
        out.push(0u8);
        i = i + 1;
        assert(out@ =~= old(out)@ + zeros(i as nat));
    }
}

/// Appends the slot of `v`.
pub fn push_slot(out: &mut Vec<u8>, v: PropertyValue)
    ensures
        final(out)@ == old(out)@ + slot_bytes(v),
{
    let ghost start = out@;
    match v {
        PropertyValue::Float(x) => {
            push_word(out, x);
            push_zeros(out, 12);
        },
        PropertyValue::Vec2(x, y) => {
            push_word(out, x);
            push_word(out, y);
            push_zeros(out, 8);
        },
        PropertyValue::Color(a, b, c, d) | PropertyValue::Float4(a, b, c, d) => {
            push_word(out, a);
            push_word(out, b);
            push_word(out, c);
            push_word(out, d);
        },
    }
    assert(out@ =~= start + slot_bytes(v));
}

/// The uniform bytes: `base` followed by one slot per property, in order.
pub fn pack_buffer(base: &Vec<u8>, props: &Vec<ShaderProperty>) -> (r: Vec<u8>)
    ensures
        r@ == base@ + packed(props@),
{
    let mut out: Vec<u8> = Vec::new();
    let mut i: usize = 0;
    while i < base.len()
        invariant
            i <= base@.len(),
            out@ == base@.subrange(0, i as int),
        decreases base@.len() - i,
    {
        out.push(base[i]);
        i = i + 1;
        assert(out@ =~= base@.subrange(0, i as int));
    }
    assert(base@.subrange(0, base@.len() as int) =~= base@);
    let mut k: usize = 0;
    while k < props.len()
        invariant
            k <= props@.len(),
            out@ == base@ + packed(props@.subrange(0, k as int)),
        decreases props@.len() - k,
    {
        let ghost before = out@;
        push_slot(&mut out, props[k].value);
        k = k + 1;
        proof {
            let pre = props@.subrange(0, k as int);
            assert(pre.drop_last() =~= props@.subrange(0, k - 1));
            assert(out@ =~= base@ + packed(pre));
        }
    }
    assert(props@.subrange(0, props@.len() as int) =~= props@);
    out
}

pub proof fn lemma_slot_len(v: PropertyValue)
    ensures
        slot_bytes(v).len() == SLOT_SIZE,
{
}

/// Every property's slot starts at `16 * i` of the packed bytes, holds that
/// property's bytes, and the slots leave no gap.
pub proof fn lemma_packed_slots(props: Seq<ShaderProperty>)
    ensures
        packed(props).len() == SLOT_SIZE * props.len(),
        forall|i: int|
            0 <= i < props.len() ==> #[trigger] packed(props).subrange(
                SLOT_SIZE * i,
                SLOT_SIZE * i + SLOT_SIZE,
            ) == slot_bytes(props[i].value),
    decreases props.len(),
{
    if props.len() > 0 {
        let init = props.drop_last();
        lemma_packed_slots(init);
        lemma_slot_len(props.last().value);
        let p = packed(props);
        assert forall|i: int| 0 <= i < props.len() implies #[trigger] p.subrange(
            SLOT_SIZE * i,
            SLOT_SIZE * i + SLOT_SIZE,
        ) == slot_bytes(props[i].value) by {
            if i < props.len() - 1 {
                assert(init[i] == props[i]);
                assert(p.subrange(SLOT_SIZE * i, SLOT_SIZE * i + SLOT_SIZE) =~= packed(
                    init,
                ).subrange(SLOT_SIZE * i, SLOT_SIZE * i + SLOT_SIZE));
            } else {
                assert(p.subrange(SLOT_SIZE * i, SLOT_SIZE * i + SLOT_SIZE) =~= slot_bytes(
                    props.last().value,
                ));
            }
        }
    }
}

} // verus!

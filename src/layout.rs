//! Layout facts reported by the foreign compiler, and the layout that the host
//! gives a mirror with C representation on a 64-bit target.
use vstd::prelude::*;
use crate::types::{is_mirrored, HostType, RecordState};

verus! {

/// Size, alignment and field offsets of a struct, as the foreign compiler laid
/// it out. Offsets are in bits, one per field in declaration order.
#[derive(Debug)]
pub struct LayoutFact {
    pub size: u64,
    pub align: u64,
    pub field_bit_offsets: Vec<u64>,
}

/// Rounds `x` up to a multiple of `a`; an alignment of 0 or 1 leaves it as is.
pub open spec fn align_up(x: nat, a: nat) -> nat {
    if a <= 1 {
        x
    } else {
        (x + (a - x % a) as int % (a as int)) as nat
    }
}

/// Size in bytes of a host type; a mirror has the size recorded in `env`.
pub open spec fn host_size(h: HostType, env: Seq<RecordState>) -> nat {
    match h {
        HostType::Bool | HostType::U8 | HostType::I8 => 1,
        HostType::U16 | HostType::I16 => 2,
        HostType::U32 | HostType::I32 | HostType::Float32 => 4,
        HostType::U64 | HostType::I64 | HostType::Float64 => 8,
        HostType::Isize | HostType::Usize => 8,
        HostType::MutPtr(_) | HostType::ConstPtr(_) => 8,
        HostType::Unit => 0,
        HostType::Mirror(i) => if is_mirrored(env, i) {
            env[i as int]->size as nat
        } else {
            0
        },
    }
}

/// Alignment in bytes of a host type; a mirror has the alignment recorded in
/// `env`.
pub open spec fn host_align(h: HostType, env: Seq<RecordState>) -> nat {
    match h {
        HostType::Bool | HostType::U8 | HostType::I8 => 1,
        HostType::U16 | HostType::I16 => 2,
        HostType::U32 | HostType::I32 | HostType::Float32 => 4,
        HostType::U64 | HostType::I64 | HostType::Float64 => 8,
        HostType::Isize | HostType::Usize => 8,
        HostType::MutPtr(_) | HostType::ConstPtr(_) => 8,
        HostType::Unit => 1,
        HostType::Mirror(i) => if is_mirrored(env, i) {
            env[i as int]->align as nat
        } else {
            1
        },
    }
}

/// The byte just past the last field when `tys` are laid out in order, each
/// at the first offset that its alignment allows.
pub open spec fn layout_end(tys: Seq<HostType>, env: Seq<RecordState>) -> nat
    decreases tys.len(),
{
    if tys.len() == 0 {
        0
    } else {
        let last = tys.last();
        align_up(layout_end(tys.drop_last(), env), host_align(last, env)) + host_size(last, env)
    }
}

/// Byte offset of field `k`.
pub open spec fn field_offset(tys: Seq<HostType>, k: int, env: Seq<RecordState>) -> nat {
    align_up(layout_end(tys.take(k), env), host_align(tys[k], env))
}

/// Alignment of the struct: the largest field alignment, and at least 1.
pub open spec fn layout_align(tys: Seq<HostType>, env: Seq<RecordState>) -> nat
    decreases tys.len(),
{
    if tys.len() == 0 {
        1
    } else {
        let a = layout_align(tys.drop_last(), env);
        let b = host_align(tys.last(), env);
        if a >= b {
            a
        } else {
            b
        }
    }
}

/// Size of the struct: the end of its last field, rounded up to its alignment.
pub open spec fn layout_size(tys: Seq<HostType>, env: Seq<RecordState>) -> nat {
    align_up(layout_end(tys, env), layout_align(tys, env))
}

/// The host layout of fields `tys` agrees with the foreign one: same size,
/// same alignment, and each field at the reported bit offset.
pub open spec fn layout_agrees(
    tys: Seq<HostType>,
    size: u64,
    align: u64,
    bit_offsets: Seq<u64>,
    env: Seq<RecordState>,
) -> bool {
    &&& layout_size(tys, env) == size
    &&& layout_align(tys, env) == align
    &&& bit_offsets.len() == tys.len()
    &&& forall|k: int| 0 <= k < tys.len() ==> #[trigger] bit_offsets[k] == field_offset(tys, k, env) * 8
}

proof fn lemma_align_up_grows(x: nat, a: nat)
    ensures
        x <= align_up(x, a),
        align_up(x, a) < x + a || a <= 1,
{
    if a > 1 {
        assert(0 <= (a - x % a) as int % (a as int) < a) by (nonlinear_arith)
            requires
                a > 1,
        ;
    }
}

/// The end of the fields never shrinks as fields are added.
proof fn lemma_end_monotone(tys: Seq<HostType>, j: int, k: int, env: Seq<RecordState>)
    requires
        0 <= j <= k <= tys.len(),
    ensures
        layout_end(tys.take(j), env) <= layout_end(tys.take(k), env),
    decreases k - j,
{
    if j < k {
        lemma_end_monotone(tys, j, k - 1, env);
        assert(tys.take(k).drop_last() =~= tys.take(k - 1));
        lemma_align_up_grows(layout_end(tys.take(k - 1), env), host_align(tys[k - 1], env));
    }
}

fn align_up_exec(x: u128, a: u64) -> (r: u128)
    requires
        x <= u64::MAX,
    ensures
        r == align_up(x as nat, a as nat),
        r < x + a || a <= 1,
{
    proof {
        lemma_align_up_grows(x as nat, a as nat);
    }
    if a <= 1 {
        x
    } else {
        let a = a as u128;
        x + (a - x % a) % a
    }
}

/// Size and alignment of a host type, as `host_size` and `host_align` give them.
pub fn host_size_align(h: &HostType, env: &Vec<RecordState>) -> (r: (u64, u64))
    ensures
        r.0 == host_size(*h, env@),
        r.1 == host_align(*h, env@),
{
    match h {
        HostType::Bool | HostType::U8 | HostType::I8 => (1, 1),
        HostType::U16 | HostType::I16 => (2, 2),
        HostType::U32 | HostType::I32 | HostType::Float32 => (4, 4),
        HostType::U64 | HostType::I64 | HostType::Float64 => (8, 8),
        HostType::Isize | HostType::Usize => (8, 8),
        HostType::MutPtr(_) | HostType::ConstPtr(_) => (8, 8),
        HostType::Unit => (0, 1),
        HostType::Mirror(i) => if *i < env.len() {
            match env[*i] {
                RecordState::Mirrored { size, align } => (size, align),
                _ => (0, 1),
            }
        } else {
            (0, 1)
        },
    }
}

/// Checks the host layout of fields `tys` against a layout fact: the check
/// that a mirror must pass before it is emitted.
pub fn layout_agrees_with(
    tys: &Vec<HostType>,
    size: u64,
    align: u64,
    bit_offsets: &Vec<u64>,
    env: &Vec<RecordState>,
) -> (r: bool)
    ensures
        r == layout_agrees(tys@, size, align, bit_offsets@, env@),
{
    if bit_offsets.len() != tys.len() {
        return false;
    }
    let mut end: u128 = 0;
    let mut max_align: u64 = 1;
    let mut i: usize = 0;
    while i < tys.len()
        invariant
            i <= tys.len(),
            bit_offsets.len() == tys.len(),
            end == layout_end(tys@.take(i as int), env@),
            end <= size,
            max_align == layout_align(tys@.take(i as int), env@),
            forall|k: int| 0 <= k < i ==> #[trigger] bit_offsets@[k] == field_offset(tys@, k, env@) * 8,
        decreases tys.len() - i,
    {
        let (fsize, falign) = host_size_align(&tys[i], env);
        let offset = align_up_exec(end, falign);
        assert(tys@.take(i + 1).drop_last() =~= tys@.take(i as int));
        assert(tys@.take(i + 1).last() == tys@[i as int]);
        proof {
            assert(offset == field_offset(tys@, i as int, env@));
        }
        if offset * 8 != bit_offsets[i] as u128 {
            return false;
        }
        let next = offset + fsize as u128;
        assert(next == layout_end(tys@.take(i + 1), env@));
        if next > size as u128 {
            proof {
                lemma_end_monotone(tys@, i + 1, tys@.len() as int, env@);
                assert(tys@.take(tys@.len() as int) =~= tys@);
                lemma_align_up_grows(layout_end(tys@, env@), layout_align(tys@, env@));
            }
            return false;
        }
        end = next;
        if falign > max_align {
            max_align = falign;
        }
        i = i + 1;
    }
    assert(tys@.take(tys@.len() as int) =~= tys@);
    let total = align_up_exec(end, max_align);
    total == size as u128 && max_align == align
}

} // verus!

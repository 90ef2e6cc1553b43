use vstd::prelude::*;

verus! {

/// Size in bytes of one per-view parameter record: a splat count, three scalar
/// time fields, a centre and a radius, packed to sixteen-byte rows.
pub const PARAMS_SIZE: u64 = 32;

/// Alignment that every uniform record must keep.
pub const UNIFORM_ALIGN: u64 = 16;

/// The parameter record keeps the uniform alignment, so consecutive records in one
/// buffer stay aligned.
pub proof fn lemma_params_record_aligned()
    ensures
        PARAMS_SIZE % UNIFORM_ALIGN == 0,
{
}

/// The smallest multiple of `align` that is at least `size`.
pub open spec fn align_up_spec(size: nat, align: nat) -> nat
    recommends
        align > 0,
{
    if size % align == 0 {
        size
    } else {
        (size - size % align + align) as nat
    }
}

/// `align_up_spec` lies between `size` and `size + align` and is a multiple of `align`.
pub proof fn lemma_align_up_bounds(size: nat, align: nat)
    requires
        align > 0,
    ensures
        size <= align_up_spec(size, align) < size + align,
        align_up_spec(size, align) % align == 0,
        size % align <= size,
{
    let r = size % align;
    assert(0 <= r < align) by (nonlinear_arith)
        requires
            align > 0,
            r == size % align,
    ;
    let q = size / align;
    assert(size == align * q + r && q >= 0) by (nonlinear_arith)
        requires
            align > 0,
            r == size % align,
            q == size / align,
    ;
    assert(r <= size) by (nonlinear_arith)
        requires
            size == align * q + r,
            q >= 0,
            align > 0,
            r >= 0,
    ;
    if r == 0 {
        assert(size % align == 0);
    } else {
        assert((size - r + align) as int == align * (q + 1)) by (nonlinear_arith)
            requires
                size == align * q + r,
        ;
        vstd::arithmetic::div_mod::lemma_mod_multiples_basic((size / align + 1) as int, align as int);
    }
}

/// Rounds `size` up to a multiple of `align`; `None` when that does not fit in 64 bits.
pub fn align_up(size: u64, align: u64) -> (r: Option<u64>)
    requires
        align > 0,
    ensures
        align_up_spec(size as nat, align as nat) <= u64::MAX ==> r == Some(
            align_up_spec(size as nat, align as nat) as u64,
        ),
        align_up_spec(size as nat, align as nat) > u64::MAX ==> r is None,
{
    let rem = size % align;
    proof {
        lemma_align_up_bounds(size as nat, align as nat);
    }
    if rem == 0 {
        Some(size)
    } else if size - rem > u64::MAX - align {
        None
    } else {
        Some(size - rem + align)
    }
}

/// Byte distance between two consecutive per-view records for a device whose
/// minimum uniform offset alignment is `min_align`.
pub open spec fn params_stride_spec(min_align: nat) -> nat {
    align_up_spec(PARAMS_SIZE as nat, min_align)
}

/// The dynamic offset of view slot `slot`; `None` when it does not fit in the
/// 32 bits that a dynamic offset has.
pub fn view_params_offset(slot: u32, min_align: u32) -> (r: Option<u32>)
    requires
        min_align > 0,
    ensures
        (slot as nat) * params_stride_spec(min_align as nat) <= u32::MAX ==> r == Some(
            ((slot as nat) * params_stride_spec(min_align as nat)) as u32,
        ),
        (slot as nat) * params_stride_spec(min_align as nat) > u32::MAX ==> r is None,
{
    let stride = align_up(PARAMS_SIZE, min_align as u64);
    match stride {
        None => {
            proof {
                lemma_align_up_bounds(PARAMS_SIZE as nat, min_align as nat);
            }
            None
        },
        Some(s) => {
            assert((slot as u128) * (s as u128) <= u128::MAX) by (nonlinear_arith)
                requires
                    slot <= u32::MAX,
                    s <= u64::MAX,
            ;
            let wide = (slot as u128) * (s as u128);
            if wide > u32::MAX as u128 {
                None
            } else {
                Some(wide as u32)
            }
        },
    }
}

/// Largest of a sequence of counts, zero when empty.
pub open spec fn seq_max(s: Seq<u32>) -> nat
    decreases s.len(),
{
    if s.len() == 0 {
        0
    } else {
        let rest = seq_max(s.drop_last());
        if s.last() as nat > rest {
            s.last() as nat
        } else {
            rest
        }
    }
}

/// The splat-count bound for this frame's parameters: the largest triangle count
/// among the captured clouds, or `None` when no cloud has any splat, in which
/// case the views keep their parameters.
pub fn max_gaussian_count(tri_counts: &[u32]) -> (r: Option<u32>)
    ensures
        seq_max(tri_counts@) == 0 ==> r is None,
        seq_max(tri_counts@) > 0 ==> r == Some(seq_max(tri_counts@) as u32),
{
    let mut best: u32 = 0;
    let mut i: usize = 0;
    while i < tri_counts.len()
        invariant
            i <= tri_counts@.len(),
            best as nat == seq_max(tri_counts@.take(i as int)),
        decreases tri_counts@.len() - i,
    {
        proof {
            assert(tri_counts@.take(i as int + 1).drop_last() =~= tri_counts@.take(i as int));
        }
        if tri_counts[i] > best {
            best = tri_counts[i];
        }
        i = i + 1;
    }
    assert(tri_counts@.take(i as int) =~= tri_counts@);
    if best == 0 {
        None
    } else {
        Some(best)
    }
}

} // verus!

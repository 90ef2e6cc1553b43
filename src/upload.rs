use vstd::prelude::*;
use crate::mesh_input::TriToSplatCpuInput;
use crate::workgroups::workgroup_count;
use crate::workgroups::workgroups_spec;

verus! {

/// Size in bytes of the per-job constants uniform: four 32-bit words.
pub const COUNTS_UNIFORM_SIZE: usize = 16;

/// Byte `k` (0 to 3, least significant first) of a word.
pub open spec fn byte_of(w: u32, k: int) -> u8 {
    if k == 0 {
        (w & 0xff) as u8
    } else if k == 1 {
        ((w >> 8u32) & 0xff) as u8
    } else if k == 2 {
        ((w >> 16u32) & 0xff) as u8
    } else {
        ((w >> 24u32) & 0xff) as u8
    }
}

/// The little-endian bytes of a word sequence, as GPU buffers hold it.
pub open spec fn le_bytes(ws: Seq<u32>) -> Seq<u8> {
    Seq::new(4 * ws.len(), |i: int| byte_of(ws[i / 4], i % 4))
}

/// The four bytes of a word give the word back, least significant first.
pub proof fn lemma_le_bytes_value(w: u32)
    ensures
        w as int == byte_of(w, 0) as int + 256 * (byte_of(w, 1) as int) + 65536 * (byte_of(w, 2) as int)
            + 16777216 * (byte_of(w, 3) as int),
{
    let b0 = w & 0xff;
    let b1 = (w >> 8u32) & 0xff;
    let b2 = (w >> 16u32) & 0xff;
    let b3 = (w >> 24u32) & 0xff;
    assert(b0 <= 0xff && b1 <= 0xff && b2 <= 0xff && b3 <= 0xff) by (bit_vector)
        requires
            b0 == w & 0xff,
            b1 == (w >> 8u32) & 0xff,
            b2 == (w >> 16u32) & 0xff,
            b3 == (w >> 24u32) & 0xff,
    ;
    assert(w == b0 | (b1 << 8u32) | (b2 << 16u32) | (b3 << 24u32)) by (bit_vector)
        requires
            b0 == w & 0xff,
            b1 == (w >> 8u32) & 0xff,
            b2 == (w >> 16u32) & 0xff,
            b3 == (w >> 24u32) & 0xff,
    ;
    assert(b0 | (b1 << 8u32) | (b2 << 16u32) | (b3 << 24u32) == b0 + b1 * 256 + b2 * 65536 + b3 * 16777216)
        by (bit_vector)
        requires
            b0 <= 0xff,
            b1 <= 0xff,
            b2 <= 0xff,
            b3 <= 0xff,
    ;
}

/// Encodes words as their little-endian bytes, four per word.
pub fn le_bytes_of(words: &[u32]) -> (r: Vec<u8>)
    ensures
        r@ == le_bytes(words@),
{
    let mut r: Vec<u8> = Vec::new();
    let mut i: usize = 0;
    while i < words.len()
        invariant
            i <= words@.len(),
            r@ =~= le_bytes(words@.take(i as int)),
        decreases words@.len() - i,
    {
        let w = words[i];
        r.push((w & 0xff) as u8);
        r.push(((w >> 8u32) & 0xff) as u8);
        r.push(((w >> 16u32) & 0xff) as u8);
        r.push(((w >> 24u32) & 0xff) as u8);
        proof {
            let next = le_bytes(words@.take(i as int + 1));
            assert forall|j: int| 0 <= j < r@.len() implies r@[j] == next[j] by {
                if j < 4 * i {
                    assert(words@.take(i as int + 1)[j / 4] == words@.take(i as int)[j / 4]);
                } else {
                    assert(j / 4 == i as int);
                    assert(words@.take(i as int + 1)[i as int] == w);
                }
            }
            assert(r@ =~= next);
        }
        i = i + 1;
    }
    assert(words@.take(i as int) =~= words@);
    r
}

/// The per-job constants of a capture: vertex count, index count, triangle count, padding.
pub open spec fn counts_spec(vertex_count: nat, index_count: nat, tri_count: nat) -> Seq<u32> {
    seq![vertex_count as u32, index_count as u32, tri_count as u32, 0u32]
}

/// The four words of the per-job constants uniform of `input`.
pub fn counts_words(input: &TriToSplatCpuInput) -> (r: Vec<u32>)
    requires
        input.wf(),
    ensures
        r@ == counts_spec(
            input.vertex_count_spec(),
            input.indices_spec().len(),
            input.tri_count_spec(),
        ),
        r@[1] as nat == 3 * input.tri_count_spec(),
{
    let ix = input.indices();
    let n = ix.len() as u32;
    let mut r: Vec<u32> = Vec::new();
    r.push(input.vertex_count());
    r.push(n);
    r.push(input.tri_count());
    r.push(0);
    assert(r@ =~= counts_spec(
        input.vertex_count_spec(),
        input.indices_spec().len(),
        input.tri_count_spec(),
    ));
    r
}

/// `p` is the upload plan of `input`: its exact buffer contents and dispatch size.
pub open spec fn plan_matches(p: UploadPlan, input: TriToSplatCpuInput) -> bool {
    &&& p.index_bytes@ == le_bytes(input.indices_spec())
    &&& p.counts_bytes@ == le_bytes(
        counts_spec(input.vertex_count_spec(), input.indices_spec().len(), input.tri_count_spec()),
    )
    &&& p.workgroups as nat == workgroups_spec(input.tri_count_spec())
}

/// Everything the upload stage needs to back the inputs binding of one mesh:
/// the index buffer contents, the constants uniform contents, and the dispatch size.
pub struct UploadPlan {
    pub index_bytes: Vec<u8>,
    pub counts_bytes: Vec<u8>,
    pub workgroups: u32,
}

/// Plans the one-time upload of a captured mesh. The index buffer holds the
/// little-endian bytes of the indices, the constants uniform those of
/// `{vertices, indices, triangles, 0}`, and the job covers
/// every triangle with `ceil(tri_count / K)` workgroups (at least one, since a
/// captured mesh is never empty).
pub fn plan_upload(input: &TriToSplatCpuInput) -> (r: UploadPlan)
    requires
        input.wf(),
    ensures
        plan_matches(r, *input),
        r.index_bytes@ == le_bytes(input.indices_spec()),
        r.counts_bytes@ == le_bytes(
            counts_spec(input.vertex_count_spec(), input.indices_spec().len(), input.tri_count_spec()),
        ),
        r.index_bytes@.len() == 4 * input.indices_spec().len(),
        r.counts_bytes@.len() == COUNTS_UNIFORM_SIZE,
        r.workgroups as nat == workgroups_spec(input.tri_count_spec()),
        r.workgroups >= 1,
{
    let index_bytes = le_bytes_of(input.indices());
    let counts = counts_words(input);
    let counts_bytes = le_bytes_of(counts.as_slice());
    let workgroups = workgroup_count(input.tri_count());
    UploadPlan { index_bytes, counts_bytes, workgroups }
}

} // verus!

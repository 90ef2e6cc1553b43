use vstd::prelude::*;

verus! {

/// Number of kernel invocations in one workgroup; it must equal the
/// `@workgroup_size` that the conversion kernel declares.
pub const KERNEL_GROUP_SIZE: u32 = 64;

/// `ceil(t / k)` over the naturals.
pub open spec fn ceil_div(t: nat, k: nat) -> nat
    recommends
        k > 0,
{
    ((t + k - 1) as nat / k) as nat
}

/// Workgroups needed to cover `tri_count` triangles, one invocation per triangle.
pub open spec fn workgroups_spec(tri_count: nat) -> nat {
    ceil_div(tri_count, KERNEL_GROUP_SIZE as nat)
}

/// Number of workgroups to dispatch for `tri_count` triangles: `ceil(tri_count / K)`.
pub fn workgroup_count(tri_count: u32) -> (r: u32)
    ensures
        r as nat == workgroups_spec(tri_count as nat),
        (r as int) * (KERNEL_GROUP_SIZE as int) >= tri_count as int,
        tri_count > 0 ==> ((r as int) - 1) * (KERNEL_GROUP_SIZE as int) < tri_count as int,
{
    let full = tri_count / KERNEL_GROUP_SIZE;
    let rest = tri_count % KERNEL_GROUP_SIZE;
    let r: u32 = if rest == 0 { full } else { full + 1 };
    assert(r as nat == workgroups_spec(tri_count as nat)) by (nonlinear_arith)
        requires
            full == tri_count / 64,
            rest == tri_count % 64,
            r == (if rest == 0 { full } else { (full + 1) as u32 }),
            workgroups_spec(tri_count as nat) == ((tri_count + 63) as nat / 64) as nat,
    ;
    r
}

/// One workgroup covers up to `K` triangles: counts from one to `K` need one
/// workgroup, `K + 1` needs two, and an empty mesh needs none.
pub proof fn lemma_workgroup_steps(t: nat)
    ensures
        t == 0 ==> workgroups_spec(t) == 0,
        1 <= t <= KERNEL_GROUP_SIZE ==> workgroups_spec(t) == 1,
        t == KERNEL_GROUP_SIZE + 1 ==> workgroups_spec(t) == 2,
{
}

} // verus!

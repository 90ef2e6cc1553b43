use vstd::prelude::*;
use crate::mesh_input::TriToSplatCpuInput;
use crate::mesh_input::Triangle;

verus! {

/// A splat cloud as four parallel, index-aligned sequences: position and
/// visibility, colour-basis coefficients, rotation, and scale and opacity.
/// Entry `i` of each sequence belongs to the same splat.
pub struct SplatCloud<P, C, R, S> {
    position_visibility: Vec<P>,
    color: Vec<C>,
    rotation: Vec<R>,
    scale_opacity: Vec<S>,
}

impl<P: Copy, C: Copy, R: Copy, S: Copy> SplatCloud<P, C, R, S> {
    pub closed spec fn positions_spec(&self) -> Seq<P> {
        self.position_visibility@
    }

    pub closed spec fn colors_spec(&self) -> Seq<C> {
        self.color@
    }

    pub closed spec fn rotations_spec(&self) -> Seq<R> {
        self.rotation@
    }

    pub closed spec fn scales_spec(&self) -> Seq<S> {
        self.scale_opacity@
    }

    pub open spec fn len_spec(&self) -> nat {
        self.positions_spec().len()
    }

    /// The four sequences have one common length.
    pub open spec fn wf(&self) -> bool {
        &&& self.colors_spec().len() == self.len_spec()
        &&& self.rotations_spec().len() == self.len_spec()
        &&& self.scales_spec().len() == self.len_spec()
    }

    /// A cloud of `n` splats, every one of them equal to the given template
    /// components. It sizes the GPU storage that the conversion then fills.
    pub fn template(n: usize, p: P, c: C, r: R, s: S) -> (cloud: Self)
        ensures
            cloud.wf(),
            cloud.len_spec() == n,
            cloud.positions_spec() == Seq::new(n as nat, |i: int| p),
            cloud.colors_spec() == Seq::new(n as nat, |i: int| c),
            cloud.rotations_spec() == Seq::new(n as nat, |i: int| r),
            cloud.scales_spec() == Seq::new(n as nat, |i: int| s),
    {
        let mut pv: Vec<P> = Vec::new();
        let mut co: Vec<C> = Vec::new();
        let mut ro: Vec<R> = Vec::new();
        let mut so: Vec<S> = Vec::new();
        let mut i: usize = 0;
        while i < n
            invariant
                i <= n,
                pv@ =~= Seq::new(i as nat, |k: int| p),
                co@ =~= Seq::new(i as nat, |k: int| c),
                ro@ =~= Seq::new(i as nat, |k: int| r),
                so@ =~= Seq::new(i as nat, |k: int| s),
            decreases n - i,
        {
            pv.push(p);
            co.push(c);
            ro.push(r);
            so.push(s);
            i = i + 1;
        }
        SplatCloud { position_visibility: pv, color: co, rotation: ro, scale_opacity: so }
    }

    /// The cloud for a captured mesh in one-splat-per-triangle mode: one template
    /// splat per triangle, that is `indices.len() / 3` of them.
    pub fn for_mesh(input: &TriToSplatCpuInput, p: P, c: C, r: R, s: S) -> (cloud: Self)
        requires
            input.wf(),
        ensures
            cloud.wf(),
            cloud.len_spec() == input.tri_count_spec(),
            cloud.len_spec() == input.indices_spec().len() / 3,
            cloud.positions_spec() == Seq::new(input.tri_count_spec(), |i: int| p),
            cloud.colors_spec() == Seq::new(input.tri_count_spec(), |i: int| c),
            cloud.rotations_spec() == Seq::new(input.tri_count_spec(), |i: int| r),
            cloud.scales_spec() == Seq::new(input.tri_count_spec(), |i: int| s),
    {
        let n = input.tri_count() as usize;
        Self::template(n, p, c, r, s)
    }

    pub fn len(&self) -> (r: usize)
        requires
            self.wf(),
        ensures
            r == self.len_spec(),
    {
        self.position_visibility.len()
    }

    pub fn position(&self, i: usize) -> (r: P)
        requires
            self.wf(),
            i < self.len_spec(),
        ensures
            r == self.positions_spec()[i as int],
    {
        self.position_visibility[i]
    }

    pub fn color(&self, i: usize) -> (r: C)
        requires
            self.wf(),
            i < self.len_spec(),
        ensures
            r == self.colors_spec()[i as int],
    {
        self.color[i]
    }

    pub fn rotation(&self, i: usize) -> (r: R)
        requires
            self.wf(),
            i < self.len_spec(),
        ensures
            r == self.rotations_spec()[i as int],
    {
        self.rotation[i]
    }

    pub fn scale_opacity(&self, i: usize) -> (r: S)
        requires
            self.wf(),
            i < self.len_spec(),
        ensures
            r == self.scales_spec()[i as int],
    {
        self.scale_opacity[i]
    }

    /// Overwrites the position and visibility of splat `i`; the other components
    /// and every length stay as they were.
    pub fn set_position(&mut self, i: usize, p: P)
        requires
            old(self).wf(),
            i < old(self).len_spec(),
        ensures
            final(self).wf(),
            final(self).len_spec() == old(self).len_spec(),
            final(self).positions_spec() == old(self).positions_spec().update(i as int, p),
            final(self).colors_spec() == old(self).colors_spec(),
            final(self).rotations_spec() == old(self).rotations_spec(),
            final(self).scales_spec() == old(self).scales_spec(),
    {
        self.position_visibility.set(i, p);
    }

    /// Seeds splat `i` with `centre(v_a, v_b, v_c)` of triangle `i`'s vertices, for
    /// every splat that has a triangle; the rest of the cloud is left as it was.
    /// The centre is the caller's function (the centroid, as a rule).
    pub fn seed_positions<V: Copy, F: Fn(V, V, V) -> P>(
        &mut self,
        triangles: &[Triangle],
        vertices: &[V],
        centre: F,
    )
        requires
            old(self).wf(),
            forall|t: int|
                0 <= t < triangles@.len() ==> (#[trigger] triangles@[t]).a < vertices@.len()
                    && triangles@[t].b < vertices@.len() && triangles@[t].c < vertices@.len(),
            forall|x: V, y: V, z: V| centre.requires((x, y, z)),
        ensures
            final(self).wf(),
            final(self).len_spec() == old(self).len_spec(),
            final(self).colors_spec() == old(self).colors_spec(),
            final(self).rotations_spec() == old(self).rotations_spec(),
            final(self).scales_spec() == old(self).scales_spec(),
            forall|i: int|
                0 <= i < old(self).len_spec() && i < triangles@.len() ==> centre.ensures(
                    (
                        vertices@[triangles@[i].a as int],
                        vertices@[triangles@[i].b as int],
                        vertices@[triangles@[i].c as int],
                    ),
                    #[trigger] final(self).positions_spec()[i],
                ),
            forall|i: int|
                0 <= i < old(self).len_spec() && i >= triangles@.len() ==> #[trigger] final(self).positions_spec()[i]
                    == old(self).positions_spec()[i],
    {
        let n = if self.position_visibility.len() < triangles.len() {
            self.position_visibility.len()
        } else {
            triangles.len()
        };
        let mut i: usize = 0;
        while i < n
            invariant
                n <= old(self).len_spec(),
                n <= triangles@.len(),
                i <= n,
                self.wf(),
                self.len_spec() == old(self).len_spec(),
                self.colors_spec() == old(self).colors_spec(),
                self.rotations_spec() == old(self).rotations_spec(),
                self.scales_spec() == old(self).scales_spec(),
                n == (if old(self).len_spec() < triangles@.len() { old(self).len_spec() } else { triangles@.len() }),
                forall|t: int|
                    0 <= t < triangles@.len() ==> (#[trigger] triangles@[t]).a < vertices@.len()
                        && triangles@[t].b < vertices@.len() && triangles@[t].c < vertices@.len(),
                forall|x: V, y: V, z: V| centre.requires((x, y, z)),
                forall|k: int|
                    0 <= k < i ==> centre.ensures(
                        (
                            vertices@[triangles@[k].a as int],
                            vertices@[triangles@[k].b as int],
                            vertices@[triangles@[k].c as int],
                        ),
                        #[trigger] self.positions_spec()[k],
                    ),
                forall|k: int|
                    i <= k < old(self).len_spec() ==> #[trigger] self.positions_spec()[k]
                        == old(self).positions_spec()[k],
            decreases n - i,
        {
            let t = triangles[i];
            let p = centre(vertices[t.a as usize], vertices[t.b as usize], vertices[t.c as usize]);
            self.position_visibility.set(i, p);
            i = i + 1;
        }
    }
}

} // verus!

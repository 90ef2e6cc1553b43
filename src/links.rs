use vstd::prelude::*;

verus! {

/// Side table of the main world: which cloud each source owns, and which source
/// each cloud was derived from, both by scene-node index.
pub struct LinkTable {
    cloud_of: Vec<Option<usize>>,
    source_of: Vec<Option<usize>>,
}

/// The two directions agree: `s` owns `c` exactly when `c` records `s`.
pub open spec fn links_agree(cloud_of: Seq<Option<usize>>, source_of: Seq<Option<usize>>) -> bool {
    &&& cloud_of.len() == source_of.len()
    &&& forall|s: int|
        0 <= s < cloud_of.len() && (#[trigger] cloud_of[s]) is Some ==> {
            let c = cloud_of[s]->Some_0;
            &&& (c as int) < source_of.len()
            &&& source_of[c as int] == Some(s as usize)
        }
    &&& forall|c: int|
        0 <= c < source_of.len() && (#[trigger] source_of[c]) is Some ==> {
            let s = source_of[c]->Some_0;
            &&& (s as int) < cloud_of.len()
            &&& cloud_of[s as int] == Some(c as usize)
        }
}

impl LinkTable {
    pub closed spec fn cloud_of_spec(&self) -> Seq<Option<usize>> {
        self.cloud_of@
    }

    pub closed spec fn source_of_spec(&self) -> Seq<Option<usize>> {
        self.source_of@
    }

    pub open spec fn wf(&self) -> bool {
        links_agree(self.cloud_of_spec(), self.source_of_spec())
    }

    pub fn new() -> (r: LinkTable)
        ensures
            r.wf(),
            r.cloud_of_spec().len() == 0,
    {
        LinkTable { cloud_of: Vec::new(), source_of: Vec::new() }
    }

    pub fn len(&self) -> (r: usize)
        requires
            self.wf(),
        ensures
            r == self.cloud_of_spec().len(),
    {
        self.cloud_of.len()
    }

    /// Adds room for one more scene node, linked to nothing.
    pub fn register(&mut self)
        requires
            old(self).wf(),
        ensures
            final(self).wf(),
            final(self).cloud_of_spec() == old(self).cloud_of_spec().push(None),
            final(self).source_of_spec() == old(self).source_of_spec().push(None),
    {
        self.cloud_of.push(None);
        self.source_of.push(None);
        proof {
            let co = self.cloud_of@;
            let so = self.source_of@;
            assert forall|s: int| 0 <= s < co.len() && (#[trigger] co[s]) is Some implies {
                let c = co[s]->Some_0;
                &&& (c as int) < so.len()
                &&& so[c as int] == Some(s as usize)
            } by {
                assert(co[s] == old(self).cloud_of@[s]);
            }
            assert forall|c: int| 0 <= c < so.len() && (#[trigger] so[c]) is Some implies {
                let s = so[c]->Some_0;
                &&& (s as int) < co.len()
                &&& co[s as int] == Some(c as usize)
            } by {
                assert(so[c] == old(self).source_of@[c]);
            }
        }
    }

    /// The cloud that `source` owns, if any.
    pub fn cloud_of(&self, source: usize) -> (r: Option<usize>)
        requires
            source < self.cloud_of_spec().len(),
        ensures
            r == self.cloud_of_spec()[source as int],
    {
        self.cloud_of[source]
    }

    /// The source that `cloud` was derived from, if any.
    pub fn source_of(&self, cloud: usize) -> (r: Option<usize>)
        requires
            self.wf(),
            cloud < self.source_of_spec().len(),
        ensures
            r == self.source_of_spec()[cloud as int],
    {
        self.source_of[cloud]
    }

    /// Links `cloud` to `source`. A source owns at most one cloud and a cloud has
    /// at most one source: when either is linked already, or both are the same
    /// node, nothing changes and the result is `false`.
    pub fn link(&mut self, source: usize, cloud: usize) -> (r: bool)
        requires
            old(self).wf(),
            source < old(self).cloud_of_spec().len(),
            cloud < old(self).cloud_of_spec().len(),
        ensures
            final(self).wf(),
            r == (old(self).cloud_of_spec()[source as int] is None && old(self).source_of_spec()[cloud as int] is None
                && source != cloud),
            r ==> final(self).cloud_of_spec() == old(self).cloud_of_spec().update(source as int, Some(cloud)),
            r ==> final(self).source_of_spec() == old(self).source_of_spec().update(cloud as int, Some(source)),
            !r ==> final(self).cloud_of_spec() == old(self).cloud_of_spec() && final(self).source_of_spec() == old(self).source_of_spec(),
    {
        if source == cloud || self.cloud_of[source].is_some() || self.source_of[cloud].is_some() {
            return false;
        }
        self.cloud_of.set(source, Some(cloud));
        self.source_of.set(cloud, Some(source));
        proof {
            let co0 = old(self).cloud_of@;
            let so0 = old(self).source_of@;
            let co = self.cloud_of@;
            let so = self.source_of@;
            assert forall|s: int| 0 <= s < co.len() && (#[trigger] co[s]) is Some implies {
                let c = co[s]->Some_0;
                &&& (c as int) < so.len()
                &&& so[c as int] == Some(s as usize)
            } by {
                if s != source {
                    assert(co[s] == co0[s]);
                    let c = co0[s]->Some_0;
                    assert(so0[c as int] == Some(s as usize));
                }
            }
            assert forall|c: int| 0 <= c < so.len() && (#[trigger] so[c]) is Some implies {
                let s = so[c]->Some_0;
                &&& (s as int) < co.len()
                &&& co[s as int] == Some(c as usize)
            } by {
                if c != cloud {
                    assert(so[c] == so0[c]);
                    let s = so0[c]->Some_0;
                    assert(co0[s as int] == Some(c as usize));
                }
            }
        }
        true
    }
}

} // verus!

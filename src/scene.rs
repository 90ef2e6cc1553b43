use vstd::prelude::*;

verus! {

/// One node of the main-world scene arena: its children by index, the mesh it
/// renders (by asset id) if any, and whether its global transform is known.
pub struct SceneNode {
    pub children: Vec<usize>,
    pub mesh: Option<u64>,
    pub has_transform: bool,
}

/// A node whose mesh and transform can both be read.
pub open spec fn carries_mesh(n: SceneNode) -> bool {
    n.mesh is Some && n.has_transform
}

/// `b` is a child of `a`.
pub open spec fn edge(g: Seq<SceneNode>, a: usize, b: usize) -> bool {
    (a as int) < g.len() && g[a as int].children@.contains(b)
}

/// `n` can be reached from `root` in at most `k` parent-to-child steps.
pub open spec fn reach_within(g: Seq<SceneNode>, root: usize, n: usize, k: nat) -> bool
    decreases k,
{
    n == root || (k > 0 && exists|m: usize| reach_within(g, root, m, (k - 1) as nat) && #[trigger] edge(g, m, n))
}

/// `n` is `root` or one of its descendants.
pub open spec fn reachable(g: Seq<SceneNode>, root: usize, n: usize) -> bool {
    exists|k: nat| reach_within(g, root, n, k)
}

/// Every child index names a node of the arena.
pub open spec fn children_in_range(g: Seq<SceneNode>) -> bool {
    forall|a: int, j: int|
        0 <= a < g.len() && 0 <= j < g[a].children@.len() ==> (#[trigger] g[a].children@[j] as int)
            < g.len()
}

/// Number of `false` entries.
pub open spec fn unvisited(v: Seq<bool>) -> nat
    decreases v.len(),
{
    if v.len() == 0 {
        0
    } else {
        unvisited(v.drop_last()) + if v.last() {
            0nat
        } else {
            1nat
        }
    }
}

proof fn lemma_unvisited_mark(v: Seq<bool>, i: int)
    requires
        0 <= i < v.len(),
        !v[i],
    ensures
        unvisited(v.update(i, true)) + 1 == unvisited(v),
    decreases v.len(),
{
    let w = v.update(i, true);
    if i == v.len() - 1 {
        assert(w.drop_last() =~= v.drop_last());
    } else {
        assert(w.drop_last() =~= v.drop_last().update(i, true));
        lemma_unvisited_mark(v.drop_last(), i);
    }
}

/// A set of nodes that holds `root` and every child of each of its members holds
/// every descendant of `root`.
proof fn lemma_closed_holds_reachable(g: Seq<SceneNode>, root: usize, visited: Seq<bool>, n: usize, k: nat)
    requires
        (root as int) < visited.len(),
        visited.len() == g.len(),
        visited[root as int],
        forall|a: usize, b: usize|
            (a as int) < visited.len() && visited[a as int] && #[trigger] edge(g, a, b) ==> (b as int) < visited.len() && visited[b as int],
        reach_within(g, root, n, k),
    ensures
        (n as int) < visited.len() && visited[n as int],
    decreases k,
{
    if n != root {
        let m = choose|m: usize| reach_within(g, root, m, (k - 1) as nat) && #[trigger] edge(g, m, n);
        lemma_closed_holds_reachable(g, root, visited, m, (k - 1) as nat);
    }
}

/// The main-world scene as an arena: nodes by index, each with its child list.
pub struct SceneGraph {
    nodes: Vec<SceneNode>,
}

impl SceneGraph {
    pub closed spec fn nodes_spec(&self) -> Seq<SceneNode> {
        self.nodes@
    }

    /// Child indices always name nodes of the arena.
    pub open spec fn wf(&self) -> bool {
        children_in_range(self.nodes_spec())
    }

    pub fn new() -> (r: SceneGraph)
        ensures
            r.wf(),
            r.nodes_spec().len() == 0,
    {
        SceneGraph { nodes: Vec::new() }
    }

    pub fn len(&self) -> (r: usize)
        ensures
            r == self.nodes_spec().len(),
    {
        self.nodes.len()
    }

    /// Adds a childless node and returns its index.
    pub fn add_node(&mut self, mesh: Option<u64>, has_transform: bool) -> (r: usize)
        requires
            old(self).wf(),
        ensures
            final(self).wf(),
            r == old(self).nodes_spec().len(),
            final(self).nodes_spec().len() == old(self).nodes_spec().len() + 1,
            forall|i: int| 0 <= i < r ==> final(self).nodes_spec()[i] == old(self).nodes_spec()[i],
            final(self).nodes_spec()[r as int].children@.len() == 0,
            final(self).nodes_spec()[r as int].mesh == mesh,
            final(self).nodes_spec()[r as int].has_transform == has_transform,
    {
        let r = self.nodes.len();
        self.nodes.push(SceneNode { children: Vec::new(), mesh, has_transform });
        proof {
            let g = self.nodes@;
            assert forall|a: int, j: int|
                0 <= a < g.len() && 0 <= j < g[a].children@.len() implies (#[trigger] g[a].children@[j] as int) < g.len() by {
                assert(a < r);
                assert(g[a] == old(self).nodes@[a]);
            }
        }
        r
    }

    /// Makes `child` a child of `parent`.
    pub fn add_child(&mut self, parent: usize, child: usize)
        requires
            old(self).wf(),
            parent < old(self).nodes_spec().len(),
            child < old(self).nodes_spec().len(),
        ensures
            final(self).wf(),
            final(self).nodes_spec().len() == old(self).nodes_spec().len(),
            forall|i: int|
                0 <= i < old(self).nodes_spec().len() && i != parent ==> final(self).nodes_spec()[i]
                    == old(self).nodes_spec()[i],
            final(self).nodes_spec()[parent as int].children@ == old(self).nodes_spec()[parent as int].children@.push(child),
            final(self).nodes_spec()[parent as int].mesh == old(self).nodes_spec()[parent as int].mesh,
            final(self).nodes_spec()[parent as int].has_transform == old(self).nodes_spec()[parent as int].has_transform,
    {
        let mut node = SceneNode { children: Vec::new(), mesh: None, has_transform: false };
        std::mem::swap(&mut node, &mut self.nodes[parent]);
        node.children.push(child);
        std::mem::swap(&mut node, &mut self.nodes[parent]);
        proof {
            let g = self.nodes@;
            assert forall|a: int, j: int|
                0 <= a < g.len() && 0 <= j < g[a].children@.len() implies (#[trigger] g[a].children@[j] as int) < g.len() by {
                if a != parent {
                    assert(g[a] == old(self).nodes@[a]);
                } else if j < old(self).nodes@[a].children@.len() {
                    assert(g[a].children@[j] == old(self).nodes@[a].children@[j]);
                }
            }
        }
    }

    /// Searches `root` and its descendants, depth first over an explicit stack,
    /// for a node whose mesh and transform are both known. `None` means that no
    /// such node exists below `root`; the root itself is found first when it
    /// qualifies.
    pub fn find_descendant_mesh(&self, root: usize) -> (r: Option<usize>)
        requires
            self.wf(),
            root < self.nodes_spec().len(),
        ensures
            match r {
                Some(n) => {
                    &&& (n as int) < self.nodes_spec().len()
                    &&& carries_mesh(self.nodes_spec()[n as int])
                    &&& reachable(self.nodes_spec(), root, n)
                },
                None => forall|n: usize|
                    #[trigger] reachable(self.nodes_spec(), root, n) ==> !carries_mesh(self.nodes_spec()[n as int]),
            },
            carries_mesh(self.nodes_spec()[root as int]) ==> r == Some(root),
    {
        let ghost g = self.nodes@;
        let n = self.nodes.len();
        let mut visited: Vec<bool> = vec![false; n];
        let mut stack: Vec<usize> = vec![root];
        proof {
            assert(reach_within(g, root, root, 0));
        }
        while stack.len() > 0
            invariant
                g == self.nodes@,
                n == g.len(),
                children_in_range(g),
                (root as int) < n,
                visited@.len() == n,
                forall|i: int| 0 <= i < stack@.len() ==> (#[trigger] stack@[i] as int) < n,
                forall|i: int| 0 <= i < stack@.len() ==> reachable(g, root, #[trigger] stack@[i]),
                forall|v: usize| (v as int) < n && #[trigger] visited@[v as int] ==> reachable(g, root, v)
                    && !carries_mesh(g[v as int]),
                forall|a: usize, b: usize|
                    (a as int) < n && visited@[a as int] && #[trigger] edge(g, a, b) ==> visited@[b as int] || stack@.contains(b),
                visited@[root as int] || stack@.contains(root),
                !visited@[root as int] ==> stack@ == seq![root],
            decreases unvisited(visited@), stack@.len(),
        {
            let ghost pre = stack@;
            let x = stack.pop().unwrap();
            let ghost st = stack@;
            proof {
                assert(pre =~= st.push(x));
            }
            if visited[x] {
                proof {
                    assert forall|a: usize, b: usize|
                        (a as int) < n && visited@[a as int] && #[trigger] edge(g, a, b) implies visited@[b as int] || stack@.contains(b) by {
                        if !visited@[b as int] {
                            assert(pre.contains(b));
                            let i = choose|i: int| 0 <= i < st.push(x).len() && st.push(x)[i] == b;
                            if i < st.len() {
                                assert(st[i] == b);
                            }
                        }
                    }
                }
                continue;
            }
            if self.nodes[x].mesh.is_some() && self.nodes[x].has_transform {
                return Some(x);
            }
            let ghost before = visited@;
            visited.set(x, true);
            proof {
                lemma_unvisited_mark(before, x as int);
            }
            let kids = &self.nodes[x].children;
            let mut j: usize = 0;
            while j < kids.len()
                invariant
                    g == self.nodes@,
                    n == g.len(),
                    children_in_range(g),
                    (root as int) < n,
                    (x as int) < n,
                    kids@ == g[x as int].children@,
                    j <= kids@.len(),
                    visited@.len() == n,
                    visited@[x as int],
                    reachable(g, root, x),
                    forall|i: int| 0 <= i < stack@.len() ==> (#[trigger] stack@[i] as int) < n,
                    forall|i: int| 0 <= i < stack@.len() ==> reachable(g, root, #[trigger] stack@[i]),
                    forall|i: int| 0 <= i < st.len() ==> stack@[i] == st[i],
                    st.len() <= stack@.len(),
                    forall|i: int| 0 <= i < j ==> stack@.contains(#[trigger] kids@[i]),
                decreases kids@.len() - j,
            {
                let c = kids[j];
                proof {
                    assert(g[x as int].children@[j as int] == c);
                    assert(edge(g, x, c));
                    let k = choose|k: nat| reach_within(g, root, x, k);
                    assert(reach_within(g, root, c, k + 1));
                    assert forall|i: int| 0 <= i < j implies stack@.push(c).contains(#[trigger] kids@[i]) by {
                        let q = choose|q: int| 0 <= q < stack@.len() && stack@[q] == kids@[i];
                        assert(stack@.push(c)[q] == kids@[i]);
                    }
                    assert(stack@.push(c)[stack@.len() as int] == c);
                }
                stack.push(c);
                j = j + 1;
            }
            proof {
                assert forall|a: usize, b: usize|
                    (a as int) < n && visited@[a as int] && #[trigger] edge(g, a, b) implies visited@[b as int] || stack@.contains(b) by {
                    if a == x {
                        let q = choose|q: int| 0 <= q < g[x as int].children@.len() && g[x as int].children@[q] == b;
                        assert(stack@.contains(kids@[q]));
                    } else if !visited@[b as int] {
                        assert(before[a as int]);
                        assert(pre.contains(b));
                        let i = choose|i: int| 0 <= i < st.push(x).len() && st.push(x)[i] == b;
                        if i < st.len() {
                            assert(stack@[i] == b);
                        }
                    }
                }
            }
        }
        proof {
            assert forall|n2: usize| #[trigger] reachable(g, root, n2) implies !carries_mesh(g[n2 as int]) by {
                let k = choose|k: nat| reach_within(g, root, n2, k);
                lemma_closed_holds_reachable(g, root, visited@, n2, k);
            }
        }
        None
    }
}

} // verus!

//! The branching structure of a dendritic tree, held as an arena: segments are
//! numbered in the order they were created, and parent and child links are
//! stored as those numbers, never as references.
use rand::Rng;
use rand::SeedableRng;
use vstd::prelude::*;

verus! {

/// Segments at this branch depth or deeper do not branch further.
pub const MAX_BRANCHING_DEPTH: u8 = 6;

/// A segment's weight in the draw of a growth site, in tenths: three minus
/// its child count (at least one), times seven tenths past depth two, and
/// nothing at the maximal depth. The segment gets that many candidate slots,
/// so every segment below the maximal depth can be drawn.
pub open spec fn growth_weight_of(depth: u8, child_count: nat) -> nat {
    if depth >= MAX_BRANCHING_DEPTH {
        0
    } else {
        let base: nat = if child_count >= 3 {
            1
        } else {
            (3 - child_count) as nat
        };
        if depth > 2 {
            base * 7
        } else {
            base * 10
        }
    }
}

/// The index that a generator seeded with `seed` draws uniformly below `bound`.
pub uninterp spec fn seeded_index(seed: u64, bound: nat) -> nat;

/// Relies on rand's `StdRng::seed_from_u64` and `Rng::gen_range`: the value
/// drawn lies in `0..bound` and depends on the seed and the bound alone.
#[verifier::external_body]
fn draw_index(seed: u64, bound: usize) -> (r: usize)
    requires
        bound > 0,
    ensures
        r < bound,
        r == seeded_index(seed, bound as nat),
{
    rand::rngs::StdRng::seed_from_u64(seed).gen_range(0..bound)
}

/// The candidate list for segments `0..n`: each segment number repeated as
/// often as its growth weight, in segment order.
pub open spec fn candidates_upto(depths: Seq<u8>, children: Seq<Vec<usize>>, n: nat) -> Seq<usize>
    decreases n,
{
    if n == 0 {
        Seq::empty()
    } else {
        let i = (n - 1) as int;
        candidates_upto(depths, children, (n - 1) as nat) + Seq::new(
            growth_weight_of(depths[i], children[i]@.len()),
            |k: int| i as usize,
        )
    }
}

/// The chain of segments from `i` up to its root, `i` first.
pub open spec fn chain_of(parents: Seq<Option<usize>>, i: nat) -> Seq<usize>
    decreases i,
{
    match parents[i as int] {
        Some(p) => if p < i {
            seq![i as usize] + chain_of(parents, p as nat)
        } else {
            seq![i as usize]
        },
        None => seq![i as usize],
    }
}

/// How many of the first `n` segments have no child.
pub open spec fn terminals_upto(children: Seq<Vec<usize>>, n: nat) -> nat
    decreases n,
{
    if n == 0 {
        0
    } else {
        terminals_upto(children, (n - 1) as nat) + if children[n - 1]@.len() == 0 {
            1nat
        } else {
            0nat
        }
    }
}

proof fn lemma_candidates_valid(depths: Seq<u8>, children: Seq<Vec<usize>>, n: nat, k: int)
    requires
        n <= depths.len(),
        n <= children.len(),
        n <= usize::MAX + 1,
        0 <= k < candidates_upto(depths, children, n).len(),
    ensures
        (candidates_upto(depths, children, n)[k] as int) < n,
        depths[candidates_upto(depths, children, n)[k] as int] < MAX_BRANCHING_DEPTH,
    decreases n,
{
    if n > 0 {
        let prev = candidates_upto(depths, children, (n - 1) as nat);
        if k < prev.len() {
            lemma_candidates_valid(depths, children, (n - 1) as nat, k);
        } else {
            let i = (n - 1) as int;
            assert(candidates_upto(depths, children, n)[k] == i as usize);
            assert(growth_weight_of(depths[i], children[i]@.len()) > 0);
        }
    }
}

proof fn lemma_candidates_empty(depths: Seq<u8>, children: Seq<Vec<usize>>, n: nat)
    requires
        n <= depths.len(),
        n <= children.len(),
    ensures
        candidates_upto(depths, children, n).len() == 0 <==> forall|i: int|
            0 <= i < n ==> #[trigger] depths[i] >= MAX_BRANCHING_DEPTH,
    decreases n,
{
    if n > 0 {
        lemma_candidates_empty(depths, children, (n - 1) as nat);
        let i = (n - 1) as int;
        let w = growth_weight_of(depths[i], children[i]@.len());
        assert(w == 0 <==> depths[i] >= MAX_BRANCHING_DEPTH);
        if candidates_upto(depths, children, n).len() == 0 {
            assert forall|j: int| 0 <= j < n implies #[trigger] depths[j] >= MAX_BRANCHING_DEPTH by {
                if j < i {
                }
            }
        }
    }
}

/// The links of a dendritic tree's segments.
#[derive(Debug, Clone)]
pub struct SegmentArena {
    parents: Vec<Option<usize>>,
    depths: Vec<u8>,
    children: Vec<Vec<usize>>,
    roots: Vec<usize>,
    signature: u64,
}

impl SegmentArena {
    pub closed spec fn parents_view(&self) -> Seq<Option<usize>> {
        self.parents@
    }

    pub closed spec fn depths_view(&self) -> Seq<u8> {
        self.depths@
    }

    pub closed spec fn children_view(&self) -> Seq<Vec<usize>> {
        self.children@
    }

    pub closed spec fn roots_view(&self) -> Seq<usize> {
        self.roots@
    }

    /// Bumped on every structural change; cached values derived from the
    /// structure are valid only while it stays the same.
    pub closed spec fn signature_view(&self) -> u64 {
        self.signature
    }

    pub open spec fn count(&self) -> nat {
        self.parents_view().len()
    }

    /// The structure is a forest: a parent is created before its children, a
    /// child is one level deeper than its parent, parents and child lists
    /// agree, and the roots are exactly the segments without a parent.
    pub open spec fn wf(&self) -> bool {
        let n = self.count();
        &&& self.depths_view().len() == n
        &&& self.children_view().len() == n
        &&& forall|i: int|
            0 <= i < n ==> match #[trigger] self.parents_view()[i] {
                Some(p) => p < i && self.depths_view()[i] == self.depths_view()[p as int] + 1
                    && self.children_view()[p as int]@.contains(i as usize),
                None => self.depths_view()[i] == 0 && self.roots_view().contains(i as usize),
            }
        &&& forall|i: int, k: int|
            0 <= i < n && 0 <= k < self.children_view()[i]@.len() ==> {
                let c = #[trigger] self.children_view()[i]@[k];
                c < n && self.parents_view()[c as int] == Some(i as usize)
            }
        &&& forall|k: int|
            0 <= k < self.roots_view().len() ==> {
                let r = #[trigger] self.roots_view()[k];
                r < n && self.parents_view()[r as int] is None
            }
        &&& forall|i: int| 0 <= i < n ==> #[trigger] self.depths_view()[i] <= MAX_BRANCHING_DEPTH
    }

    /// The next signature after a structural change.
    pub open spec fn bumped(sig: u64) -> u64 {
        if sig == u64::MAX {
            0
        } else {
            (sig + 1) as u64
        }
    }

    pub fn new() -> (r: Self)
        ensures
            r.wf(),
            r.count() == 0,
            r.roots_view() == Seq::<usize>::empty(),
            r.signature_view() == 0,
    {
        SegmentArena {
            parents: Vec::new(),
            depths: Vec::new(),
            children: Vec::new(),
            roots: Vec::new(),
            signature: 0,
        }
    }

    fn bump(&mut self)
        ensures
            final(self).signature == Self::bumped(old(self).signature),
            final(self).parents == old(self).parents,
            final(self).depths == old(self).depths,
            final(self).children == old(self).children,
            final(self).roots == old(self).roots,
    {
        self.signature = if self.signature == u64::MAX {
            0
        } else {
            self.signature + 1
        };
    }

    pub fn len(&self) -> (r: usize)
        ensures
            r == self.count(),
    {
        self.parents.len()
    }

    pub fn signature(&self) -> (r: u64)
        ensures
            r == self.signature_view(),
    {
        self.signature
    }

    pub fn roots(&self) -> (r: &Vec<usize>)
        ensures
            r@ == self.roots_view(),
    {
        &self.roots
    }

    pub fn depth(&self, i: usize) -> (r: u8)
        requires
            self.wf(),
            i < self.count(),
        ensures
            r == self.depths_view()[i as int],
    {
        self.depths[i]
    }

    pub fn parent(&self, i: usize) -> (r: Option<usize>)
        requires
            self.wf(),
            i < self.count(),
        ensures
            r == self.parents_view()[i as int],
    {
        self.parents[i]
    }

    pub fn children(&self, i: usize) -> (r: &Vec<usize>)
        requires
            self.wf(),
            i < self.count(),
        ensures
            r@ == self.children_view()[i as int]@,
    {
        &self.children[i]
    }

    /// Adds a primary segment (a new root) and returns its number.
    pub fn add_root(&mut self) -> (r: usize)
        requires
            old(self).wf(),
            old(self).count() < usize::MAX,
        ensures
            final(self).wf(),
            r == old(self).count(),
            final(self).parents_view() == old(self).parents_view().push(None),
            final(self).depths_view() == old(self).depths_view().push(0),
            final(self).children_view().len() == r + 1,
            final(self).children_view()[r as int]@ == Seq::<usize>::empty(),
            final(self).children_view().take(r as int) == old(self).children_view(),
            final(self).roots_view() == old(self).roots_view().push(r),
            final(self).signature_view() == Self::bumped(old(self).signature_view()),
    {
        let id = self.parents.len();
        self.parents.push(None);
        self.depths.push(0);
        self.children.push(Vec::new());
        self.roots.push(id);
        self.bump();
        proof {
            assert(self.children@.take(id as int) =~= old(self).children@);
            assert forall|i: int| 0 <= i < self.count() implies match #[trigger] self.parents_view()[i] {
                Some(p) => p < i && self.depths_view()[i] == self.depths_view()[p as int] + 1
                    && self.children_view()[p as int]@.contains(i as usize),
                None => self.depths_view()[i] == 0 && self.roots_view().contains(i as usize),
            } by {
                if i < id {
                    assert(old(self).parents_view()[i] == self.parents_view()[i]);
                    match self.parents_view()[i] {
                        Some(p) => {},
                        None => {
                            let k = choose|k: int| 0 <= k < old(self).roots@.len() && old(self).roots@[k] == i as usize;
                            assert(self.roots@[k] == i as usize);
                        },
                    }
                } else {
                    assert(self.roots@[self.roots@.len() - 1] == id);
                }
            }
            assert forall|i: int, k: int|
                0 <= i < self.count() && 0 <= k < self.children_view()[i]@.len() implies {
                let c = #[trigger] self.children_view()[i]@[k];
                c < self.count() && self.parents_view()[c as int] == Some(i as usize)
            } by {
                assert(i < id);
                assert(self.children_view()[i] == old(self).children_view()[i]);
            }
            assert forall|k: int| 0 <= k < self.roots_view().len() implies {
                let r = #[trigger] self.roots_view()[k];
                r < self.count() && self.parents_view()[r as int] is None
            } by {
                if k < old(self).roots@.len() {
                    assert(self.roots_view()[k] == old(self).roots_view()[k]);
                }
            }
            assert forall|i: int| 0 <= i < self.count() implies #[trigger] self.depths_view()[i]
                <= MAX_BRANCHING_DEPTH by {
                if i < id {
                    assert(self.depths_view()[i] == old(self).depths_view()[i]);
                }
            }
        }
        id
    }

    /// Adds a child segment below `parent` and returns its number; refuses,
    /// changing nothing, when `parent` does not exist or is at the maximal depth.
    pub fn add_branch(&mut self, parent: usize) -> (r: Option<usize>)
        requires
            old(self).wf(),
            old(self).count() < usize::MAX,
        ensures
            final(self).wf(),
            r is None <==> (parent >= old(self).count() || old(self).depths_view()[parent as int]
                >= MAX_BRANCHING_DEPTH),
            r is None ==> *final(self) == *old(self),
            r is Some ==> {
                let c = r->Some_0;
                &&& c == old(self).count()
                &&& final(self).parents_view() == old(self).parents_view().push(Some(parent))
                &&& final(self).depths_view() == old(self).depths_view().push(
                    (old(self).depths_view()[parent as int] + 1) as u8,
                )
                &&& final(self).children_view().len() == c + 1
                &&& final(self).children_view()[c as int]@ == Seq::<usize>::empty()
                &&& final(self).children_view()[parent as int]@ == old(
                    self,
                ).children_view()[parent as int]@.push(c)
                &&& forall|i: int|
                    0 <= i < c && i != parent ==> #[trigger] final(self).children_view()[i]
                        == old(self).children_view()[i]
                &&& final(self).roots_view() == old(self).roots_view()
                &&& final(self).signature_view() == Self::bumped(old(self).signature_view())
            },
    {
        if parent >= self.parents.len() || self.depths[parent] >= MAX_BRANCHING_DEPTH {
            return None;
        }
        let id = self.parents.len();
        let d = self.depths[parent] + 1;
        self.parents.push(Some(parent));
        self.depths.push(d);
        self.children.push(Vec::new());
        self.children[parent].push(id);
        self.bump();
        proof {
            let o = *old(self);
            assert forall|i: int| 0 <= i < self.count() implies match #[trigger] self.parents_view()[i] {
                Some(p) => p < i && self.depths_view()[i] == self.depths_view()[p as int] + 1
                    && self.children_view()[p as int]@.contains(i as usize),
                None => self.depths_view()[i] == 0 && self.roots_view().contains(i as usize),
            } by {
                if i < id {
                    assert(o.parents_view()[i] == self.parents_view()[i]);
                    match self.parents_view()[i] {
                        Some(p) => {
                            assert(o.children_view()[p as int]@.contains(i as usize));
                            if p == parent {
                                let k = choose|k: int| 0 <= k < o.children@[p as int]@.len() && o.children@[p as int]@[k] == i as usize;
                                assert(self.children@[p as int]@[k] == i as usize);
                            }
                        },
                        None => {},
                    }
                } else {
                    assert(self.children@[parent as int]@.last() == id);
                }
            }
            assert forall|i: int, k: int|
                0 <= i < self.count() && 0 <= k < self.children_view()[i]@.len() implies {
                let c = #[trigger] self.children_view()[i]@[k];
                c < self.count() && self.parents_view()[c as int] == Some(i as usize)
            } by {
                assert(i < id);
                if i == parent {
                    if k < o.children@[i]@.len() {
                        assert(self.children_view()[i]@[k] == o.children_view()[i]@[k]);
                    }
                } else {
                    assert(self.children_view()[i] == o.children_view()[i]);
                }
            }
            assert forall|i: int| 0 <= i < self.count() implies #[trigger] self.depths_view()[i]
                <= MAX_BRANCHING_DEPTH by {
                if i < id {
                    assert(self.depths_view()[i] == o.depths_view()[i]);
                }
            }
        }
        Some(id)
    }

    /// The growth weight of segment `i` (see `growth_weight_of`).
    pub fn growth_weight(&self, i: usize) -> (r: usize)
        requires
            self.wf(),
            i < self.count(),
        ensures
            r == growth_weight_of(self.depths_view()[i as int], self.children_view()[i as int]@.len()),
    {
        let depth = self.depths[i];
        if depth >= MAX_BRANCHING_DEPTH {
            return 0;
        }
        let child_count = self.children[i].len();
        let base: usize = if child_count >= 3 {
            1
        } else {
            3 - child_count
        };
        if depth > 2 {
            base * 7
        } else {
            base * 10
        }
    }

    /// Every segment number repeated as often as its growth weight, in segment
    /// order: the slots among which a growth site is drawn.
    pub fn growth_candidates(&self) -> (r: Vec<usize>)
        requires
            self.wf(),
        ensures
            r@ == candidates_upto(self.depths_view(), self.children_view(), self.count()),
    {
        let mut out: Vec<usize> = Vec::new();
        let n = self.parents.len();
        let mut i: usize = 0;
        while i < n
            invariant
                self.wf(),
                n == self.count(),
                i <= n,
                out@ == candidates_upto(self.depths_view(), self.children_view(), i as nat),
            decreases n - i,
        {
            let w = self.growth_weight(i);
            let ghost before = out@;
            let mut k: usize = 0;
            while k < w
                invariant
                    k <= w,
                    out@ == before + Seq::new(k as nat, |j: int| i),
                decreases w - k,
            {
                out.push(i);
                k += 1;
                proof {
                    assert(out@ =~= before + Seq::new(k as nat, |j: int| i));
                }
            }
            proof {
                assert(Seq::new(w as nat, |j: int| i) =~= Seq::new(
                    growth_weight_of(self.depths_view()[i as int], self.children_view()[i as int]@.len()),
                    |j: int| i as usize,
                ));
            }
            i += 1;
        }
        out
    }

    /// Draws a growth site among the candidate slots with a generator seeded
    /// with `seed`: an existing segment below the maximal depth, or `None`
    /// when every segment is at the maximal depth.
    pub fn select_growth_segment(&self, seed: u64) -> (r: Option<usize>)
        requires
            self.wf(),
        ensures
            ({
                let cands = candidates_upto(self.depths_view(), self.children_view(), self.count());
                &&& r is None <==> forall|i: int|
                    0 <= i < self.count() ==> #[trigger] self.depths_view()[i] >= MAX_BRANCHING_DEPTH
                &&& r is None <==> cands.len() == 0
                &&& r is Some ==> seeded_index(seed, cands.len()) < cands.len()
                &&& r is Some ==> r == Some(cands[seeded_index(seed, cands.len()) as int])
                &&& r is Some ==> r->Some_0 < self.count()
                &&& r is Some ==> self.depths_view()[r->Some_0 as int] < MAX_BRANCHING_DEPTH
            }),
    {
        let count = self.parents.len();
        let cands = self.growth_candidates();
        proof {
            lemma_candidates_empty(self.depths_view(), self.children_view(), self.count());
        }
        if cands.len() == 0 {
            return None;
        }
        let k = draw_index(seed, cands.len());
        proof {
            lemma_candidates_valid(self.depths_view(), self.children_view(), count as nat, k as int);
        }
        Some(cands[k])
    }

    /// The chain of segments from `i` up to its root, `i` first: the segments
    /// whose electrotonic lengths add up to the path length of `i`.
    pub fn ancestors(&self, i: usize) -> (r: Vec<usize>)
        requires
            self.wf(),
            i < self.count(),
        ensures
            r@ == chain_of(self.parents_view(), i as nat),
    {
        let mut out: Vec<usize> = Vec::new();
        let mut cur: usize = i;
        loop
            invariant
                self.wf(),
                cur < self.count(),
                out@ + chain_of(self.parents_view(), cur as nat) == chain_of(
                    self.parents_view(),
                    i as nat,
                ),
            decreases cur,
        {
            out.push(cur);
            match self.parents[cur] {
                Some(p) => {
                    proof {
                        assert(self.parents_view()[cur as int] == Some(p));
                        assert(chain_of(self.parents_view(), cur as nat) == seq![cur] + chain_of(
                            self.parents_view(),
                            p as nat,
                        ));
                        assert(out@ + chain_of(self.parents_view(), p as nat) =~= out@.drop_last()
                            + chain_of(self.parents_view(), cur as nat));
                    }
                    cur = p;
                },
                None => {
                    proof {
                        assert(out@ =~= out@.drop_last() + chain_of(self.parents_view(), cur as nat));
                    }
                    return out;
                },
            }
        }
    }

    /// How many segments have no child.
    pub fn terminal_count(&self) -> (r: usize)
        requires
            self.wf(),
        ensures
            r == terminals_upto(self.children_view(), self.count()),
    {
        let n = self.parents.len();
        let mut t: usize = 0;
        let mut i: usize = 0;
        while i < n
            invariant
                self.wf(),
                n == self.count(),
                i <= n,
                t == terminals_upto(self.children_view(), i as nat),
                t <= i,
            decreases n - i,
        {
            if self.children[i].len() == 0 {
                t += 1;
            }
            i += 1;
        }
        t
    }
}

/// Two arenas hold the same structure: the same parents, depths and child lists.
pub open spec fn same_structure(a: SegmentArena, b: SegmentArena) -> bool {
    &&& a.parents_view() == b.parents_view()
    &&& a.depths_view() == b.depths_view()
    &&& a.children_view().len() == b.children_view().len()
    &&& forall|i: int|
        0 <= i < a.children_view().len() ==> (#[trigger] a.children_view()[i])@ == b.children_view()[i]@
}

proof fn lemma_same_candidates(a: SegmentArena, b: SegmentArena, n: nat)
    requires
        same_structure(a, b),
        n <= a.children_view().len(),
    ensures
        candidates_upto(a.depths_view(), a.children_view(), n) == candidates_upto(
            b.depths_view(),
            b.children_view(),
            n,
        ),
    decreases n,
{
    if n > 0 {
        lemma_same_candidates(a, b, (n - 1) as nat);
        assert(a.children_view()[n - 1]@ == b.children_view()[n - 1]@);
    }
}

/// Growth on the structure is reproducible: arenas with the same structure
/// offer the same candidate slots, so the same seed draws the same growth
/// site in both, and the chain from any segment to its root is the same.
pub proof fn lemma_growth_site_reproducible(a: SegmentArena, b: SegmentArena, seed: u64, i: nat)
    requires
        a.wf(),
        b.wf(),
        same_structure(a, b),
    ensures
        candidates_upto(a.depths_view(), a.children_view(), a.count()) == candidates_upto(
            b.depths_view(),
            b.children_view(),
            b.count(),
        ),
        chain_of(a.parents_view(), i) == chain_of(b.parents_view(), i),
{
    lemma_same_candidates(a, b, a.count());
}

/// Every structural change gives the arena a new signature, so values cached
/// under the signature from before a change never pass for current after it.
pub proof fn lemma_change_invalidates(sig: u64)
    ensures
        SegmentArena::bumped(sig) != sig,
{
}

} // verus!

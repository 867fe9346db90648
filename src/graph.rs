use vstd::prelude::*;

verus! {

/// Why a set of stages cannot be wired into a frame.
#[derive(Clone, Copy, Debug, PartialEq, Eq, Structural)]
pub enum SetupError {
    /// No stage at all: there is nothing to present.
    NoStages,
    /// An edge names a stage index that does not exist.
    UnknownStage,
    /// The producer edges form a cycle.
    CyclicDependency,
    /// A stage's declared binding count does not match its producers.
    BindingMismatch,
    /// A workgroup side of zero cannot tile a texture.
    ZeroWorkgroupSize,
}

/// Every producer index names an existing stage.
pub open spec fn edges_in_range(p: Seq<Seq<usize>>) -> bool {
    forall|v: int, k: int| 0 <= v < p.len() && 0 <= k < p[v].len() ==> p[v][k] < p.len()
}

/// `rank` strictly decreases along every producer → consumer edge.
pub open spec fn is_ranking(p: Seq<Seq<usize>>, rank: Seq<nat>) -> bool {
    &&& rank.len() == p.len()
    &&& forall|v: int, k: int|
        0 <= v < p.len() && 0 <= k < p[v].len() ==> rank[p[v][k] as int] < rank[v]
}

/// The graph has no cycle: some ranking of the stages decreases along every edge.
pub open spec fn acyclic(p: Seq<Seq<usize>>) -> bool {
    exists|rank: Seq<nat>| is_ranking(p, rank)
}

/// `order` lists every stage exactly once, each after all of its producers.
pub open spec fn is_topological_order(p: Seq<Seq<usize>>, order: Seq<usize>) -> bool {
    &&& order.len() == p.len()
    &&& order.no_duplicates()
    &&& forall|i: int| 0 <= i < order.len() ==> order[i] < p.len()
    &&& forall|i: int, j: int, k: int|
        0 <= i < order.len() && 0 <= j < order.len() && 0 <= k < p[order[j] as int].len()
            && order[i] == p[order[j] as int][k] ==> i < j
}

/// `order` and `pos` are inverse permutations of the stages, and every
/// producer sits at an earlier position than its consumer.
pub open spec fn order_with_positions(p: Seq<Seq<usize>>, order: Seq<usize>, pos: Seq<usize>) -> bool {
    &&& order.len() == p.len()
    &&& pos.len() == p.len()
    &&& forall|i: int| 0 <= i < order.len() ==> order[i] < p.len() && pos[order[i] as int] == i
    &&& forall|v: int| 0 <= v < pos.len() ==> pos[v] < p.len() && order[pos[v] as int] == v
    &&& forall|v: int, k: int|
        0 <= v < p.len() && 0 <= k < p[v].len() ==> pos[p[v][k] as int] < pos[v]
}

pub open spec fn unplaced_count(s: Seq<bool>) -> nat
    decreases s.len(),
{
    if s.len() == 0 {
        0
    } else {
        unplaced_count(s.drop_last()) + if s.last() {
            0nat
        } else {
            1nat
        }
    }
}

proof fn lemma_place_one(s: Seq<bool>, i: int)
    requires
        0 <= i < s.len(),
        !s[i],
    ensures
        unplaced_count(s.update(i, true)) + 1 == unplaced_count(s),
    decreases s.len(),
{
    let t = s.update(i, true);
    if i == s.len() - 1 {
        assert(t.drop_last() =~= s.drop_last());
    } else {
        assert(t.drop_last() =~= s.drop_last().update(i, true));
        lemma_place_one(s.drop_last(), i);
    }
}

proof fn lemma_count_uniform(s: Seq<bool>)
    ensures
        (forall|j: int| 0 <= j < s.len() ==> !s[j]) ==> unplaced_count(s) == s.len(),
        (forall|j: int| 0 <= j < s.len() ==> s[j]) ==> unplaced_count(s) == 0,
    decreases s.len(),
{
    if s.len() > 0 {
        lemma_count_uniform(s.drop_last());
    }
}

/// Positions give a topological order and a ranking.
proof fn lemma_positions_give_order(p: Seq<Seq<usize>>, order: Seq<usize>, pos: Seq<usize>)
    requires
        edges_in_range(p),
        order_with_positions(p, order, pos),
    ensures
        is_topological_order(p, order),
        acyclic(p),
{
    assert forall|i: int, j: int| 0 <= i < j < order.len() implies order[i] != order[j] by {
        assert(pos[order[i] as int] == i);
        assert(pos[order[j] as int] == j);
    }
    assert forall|i: int, j: int, k: int|
        0 <= i < order.len() && 0 <= j < order.len() && 0 <= k < p[order[j] as int].len()
            && order[i] == p[order[j] as int][k] implies i < j by {
        let v = order[j] as int;
        assert(pos[p[v][k] as int] < pos[v]);
    }
    let rank = Seq::new(p.len(), |v: int| pos[v] as nat);
    assert forall|v: int, k: int| 0 <= v < p.len() && 0 <= k < p[v].len() implies rank[p[v][k] as int]
        < rank[v] by {
        assert(pos[p[v][k] as int] < pos[v]);
    }
    assert(is_ranking(p, rank));
}

/// If some unplaced stage exists and every unplaced stage has an unplaced
/// producer, no ranking exists.
proof fn lemma_stuck_means_cycle(p: Seq<Seq<usize>>, placed: Seq<bool>, w: int)
    requires
        placed.len() == p.len(),
        edges_in_range(p),
        0 <= w < p.len(),
        !placed[w],
        forall|v: int| 0 <= v < p.len() && !placed[v] ==>
            exists|k: int| 0 <= k < p[v].len() && !placed[p[v][k] as int],
    ensures
        !acyclic(p),
{
    if acyclic(p) {
        let rank = choose|rank: Seq<nat>| is_ranking(p, rank);
        lemma_descent(p, placed, rank, rank[w], w);
    }
}

proof fn lemma_descent(p: Seq<Seq<usize>>, placed: Seq<bool>, rank: Seq<nat>, r: nat, v: int)
    requires
        placed.len() == p.len(),
        edges_in_range(p),
        is_ranking(p, rank),
        0 <= v < p.len(),
        rank[v] == r,
        forall|u: int| 0 <= u < p.len() && !placed[u] ==>
            exists|k: int| 0 <= k < p[u].len() && !placed[p[u][k] as int],
    ensures
        placed[v],
    decreases r,
{
    if !placed[v] {
        let k = choose|k: int| 0 <= k < p[v].len() && !placed[p[v][k] as int];
        let u = p[v][k] as int;
        lemma_descent(p, placed, rank, rank[u], u);
    }
}

/// Stages and their producer → consumer edges, with a topological order
/// fixed once at construction.
pub struct DependencyGraph {
    producers: Vec<Vec<usize>>,
    order: Vec<usize>,
    pos: Vec<usize>,
}

impl DependencyGraph {
    /// The producers of each stage, in declared order.
    pub closed spec fn producers_view(&self) -> Seq<Seq<usize>> {
        self.producers@.map_values(|v: Vec<usize>| v@)
    }

    pub closed spec fn order_view(&self) -> Seq<usize> {
        self.order@
    }

    pub closed spec fn pos_view(&self) -> Seq<usize> {
        self.pos@
    }

    pub open spec fn wf(&self) -> bool {
        &&& edges_in_range(self.producers_view())
        &&& order_with_positions(self.producers_view(), self.order_view(), self.pos_view())
        &&& self.producers_view().len() > 0
    }

    /// Builds the graph from the producers of each stage. Fails when there is
    /// no stage, when an edge names a missing stage, or when the edges form a
    /// cycle; nothing is ever driven on such a graph.
    pub fn new(producers: Vec<Vec<usize>>) -> (r: Result<DependencyGraph, SetupError>)
        ensures
            match r {
                Ok(g) => {
                    &&& g.wf()
                    &&& g.producers_view() == producers@.map_values(|v: Vec<usize>| v@)
                    &&& producers@.len() > 0
                    &&& acyclic(g.producers_view())
                },
                Err(e) => {
                    let p = producers@.map_values(|v: Vec<usize>| v@);
                    &&& e == SetupError::NoStages <==> p.len() == 0
                    &&& e == SetupError::UnknownStage <==> p.len() > 0 && !edges_in_range(p)
                    &&& e == SetupError::CyclicDependency <==> p.len() > 0 && edges_in_range(p)
                        && !acyclic(p)
                    &&& e != SetupError::BindingMismatch && e != SetupError::ZeroWorkgroupSize
                },
            },
            r is Ok <==> {
                let p = producers@.map_values(|v: Vec<usize>| v@);
                p.len() > 0 && edges_in_range(p) && acyclic(p)
            },
    {
        let ghost p = producers@.map_values(|v: Vec<usize>| v@);
        let n = producers.len();
        if n == 0 {
            return Err(SetupError::NoStages);
        }
        let mut v: usize = 0;
        while v < n
            invariant
                0 <= v <= n,
                n == producers@.len(),
                p == producers@.map_values(|v: Vec<usize>| v@),
                forall|w: int, k: int| 0 <= w < v && 0 <= k < p[w].len() ==> p[w][k] < n,
            decreases n - v,
        {
            let mut k: usize = 0;
            while k < producers[v].len()
                invariant
                    0 <= v < n,
                    n == producers@.len(),
                    p == producers@.map_values(|v: Vec<usize>| v@),
                    0 <= k <= p[v as int].len(),
                    forall|w: int, j: int| 0 <= w < v && 0 <= j < p[w].len() ==> p[w][j] < n,
                    forall|j: int| 0 <= j < k ==> p[v as int][j] < n,
                decreases p[v as int].len() - k,
            {
                if producers[v][k] >= n {
                    return Err(SetupError::UnknownStage);
                }
                k = k + 1;
            }
            v = v + 1;
        }
        match topological_order(&producers) {
            Some((order, pos)) => {
                proof {
                    lemma_positions_give_order(p, order@, pos@);
                }
                let g = DependencyGraph { producers, order, pos };
                assert(g.producers_view() == p);
                Ok(g)
            },
            None => Err(SetupError::CyclicDependency),
        }
    }

    /// The order in which stages are walked each frame.
    pub fn order(&self) -> (r: &Vec<usize>)
        requires
            self.wf(),
        ensures
            r@ == self.order_view(),
            is_topological_order(self.producers_view(), r@),
    {
        proof {
            lemma_positions_give_order(self.producers_view(), self.order_view(), self.pos_view());
        }
        &self.order
    }

    /// Number of stages.
    pub fn len(&self) -> (r: usize)
        ensures
            r == self.producers_view().len(),
    {
        self.producers.len()
    }

    /// The producers of stage `v`, in declared order.
    pub fn producers(&self, v: usize) -> (r: &Vec<usize>)
        requires
            v < self.producers_view().len(),
        ensures
            r@ == self.producers_view()[v as int],
    {
        &self.producers[v]
    }

    /// The stage whose output is presented: the last one in the order.
    pub fn presentation_stage(&self) -> (r: usize)
        requires
            self.wf(),
        ensures
            r == self.order_view().last(),
            r < self.producers_view().len(),
    {
        self.order[self.order.len() - 1]
    }
}

/// Kahn's walk: repeatedly place a stage whose producers are all placed.
/// Returns the order and each stage's position in it, or `None` when the
/// walk gets stuck, which happens exactly when the edges form a cycle.
pub fn topological_order(producers: &Vec<Vec<usize>>) -> (r: Option<(Vec<usize>, Vec<usize>)>)
    requires
        edges_in_range(producers@.map_values(|v: Vec<usize>| v@)),
    ensures
        match r {
            Some((order, pos)) => order_with_positions(
                producers@.map_values(|v: Vec<usize>| v@),
                order@,
                pos@,
            ),
            None => !acyclic(producers@.map_values(|v: Vec<usize>| v@)),
        },
        r is Some <==> acyclic(producers@.map_values(|v: Vec<usize>| v@)),
{
    let ghost p = producers@.map_values(|v: Vec<usize>| v@);
    let n = producers.len();
    let mut placed: Vec<bool> = Vec::new();
    let mut pos: Vec<usize> = Vec::new();
    let mut i: usize = 0;
    while i < n
        invariant
            0 <= i <= n,
            placed@.len() == i,
            pos@.len() == i,
            forall|j: int| 0 <= j < i ==> !placed@[j] && pos@[j] == 0,
        decreases n - i,
    {
        placed.push(false);
        pos.push(0);
        i = i + 1;
    }
    proof {
        lemma_count_uniform(placed@);
    }
    let mut order: Vec<usize> = Vec::new();
    loop
        invariant
            n == producers@.len(),
            p == producers@.map_values(|v: Vec<usize>| v@),
            edges_in_range(p),
            placed@.len() == n,
            pos@.len() == n,
            unplaced_count(placed@) + order@.len() == n,
            forall|j: int| 0 <= j < order@.len() ==> order@[j] < n && placed@[order@[j] as int]
                && pos@[order@[j] as int] == j,
            forall|v: int| 0 <= v < n && placed@[v] ==> pos@[v] < order@.len() && order@[pos@[v] as int] == v,
            forall|v: int, k: int| 0 <= v < n && placed@[v] && 0 <= k < p[v].len() ==>
                placed@[p[v][k] as int] && pos@[p[v][k] as int] < pos@[v],
        decreases unplaced_count(placed@),
    {
        let mut found: Option<usize> = None;
        let mut any_unplaced: Option<usize> = None;
        let mut v: usize = 0;
        while v < n
            invariant
                n == producers@.len(),
                p == producers@.map_values(|v: Vec<usize>| v@),
                placed@.len() == n,
                edges_in_range(p),
                0 <= v <= n,
                match found {
                    Some(w) => w < n && !placed@[w as int] && forall|k: int| 0 <= k < p[w as int].len() ==> placed@[p[w as int][k] as int],
                    None => forall|w: int| 0 <= w < v && !placed@[w] ==>
                        exists|k: int| 0 <= k < p[w].len() && !placed@[p[w][k] as int],
                },
                found is Some ==> any_unplaced is Some,
                match any_unplaced {
                    Some(w) => w < n && !placed@[w as int],
                    None => forall|w: int| 0 <= w < v ==> placed@[w],
                },
            decreases n - v,
        {
            if found.is_none() && !placed[v] {
                any_unplaced = Some(v);
                let ps = &producers[v];
                assert(ps@ == p[v as int]);
                let mut ready = true;
                let mut k: usize = 0;
                while k < ps.len()
                    invariant
                        placed@.len() == n,
                        edges_in_range(p),
                        0 <= v < n,
                        n == p.len(),
                        ps@ == p[v as int],
                        0 <= k <= ps@.len(),
                        ready ==> forall|j: int| 0 <= j < k ==> placed@[ps@[j] as int],
                        !ready ==> exists|j: int| 0 <= j < ps@.len() && !placed@[ps@[j] as int],
                    decreases ps@.len() - k,
                {
                    if !placed[ps[k]] {
                        ready = false;
                    }
                    k = k + 1;
                }
                if ready {
                    found = Some(v);
                }
            }
            v = v + 1;
        }
        match found {
            Some(w) => {
                proof {
                    lemma_place_one(placed@, w as int);
                }
                let ghost old_placed = placed@;
                let idx = order.len();
                placed.set(w, true);
                pos.set(w, idx);
                order.push(w);
            },
            None => {
                match any_unplaced {
                    Some(w) => {
                        proof {
                            lemma_stuck_means_cycle(p, placed@, w as int);
                        }
                        return None;
                    },
                    None => {
                        proof {
                            lemma_count_uniform(placed@);
                            assert forall|v: int| 0 <= v < pos@.len() implies pos@[v] < p.len()
                                && order@[pos@[v] as int] == v by {
                                assert(placed@[v]);
                            }
                            lemma_positions_give_order(p, order@, pos@);
                        }
                        return Some((order, pos));
                    },
                }
            },
        }
    }
}

} // verus!

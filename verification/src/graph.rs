//! Road graphs: places, and which of them are joined by a road.

use crate::double::Double;
use crate::rng::Rng;
use vstd::prelude::*;

verus! {

/// A place, in degrees.
#[derive(Debug, Clone, Copy, PartialEq, Eq, Structural)]
pub struct Place {
    pub lat: Double,
    pub lon: Double,
}

/// A road graph.
#[derive(Debug)]
pub struct Graph {
    /// Where each node is.
    pub nodes: Vec<Place>,
    /// The nodes that a road leads to from each node.
    pub adj: Vec<Vec<u32>>,
}

/// What a road graph holds.
pub struct Roads {
    pub nodes: Seq<Place>,
    pub adj: Seq<Seq<u32>>,
}

impl View for Graph {
    type V = Roads;

    open spec fn view(&self) -> Roads {
        Roads { nodes: self.nodes@, adj: self.adj@.map_values(|v: Vec<u32>| v@) }
    }
}

/// The numbers in `s` other than `avoid`, in order.
pub open spec fn others(s: Seq<u32>, avoid: int) -> Seq<u32>
    decreases s.len(),
{
    if s.len() == 0 {
        s
    } else {
        let before = others(s.drop_last(), avoid);
        if s.last() != avoid {
            before.push(s.last())
        } else {
            before
        }
    }
}

proof fn lemma_others(s: Seq<u32>, avoid: int, k: int)
    requires
        0 <= k < others(s, avoid).len(),
    ensures
        others(s, avoid)[k] != avoid,
        s.contains(others(s, avoid)[k]),
    decreases s.len(),
{
    let before = others(s.drop_last(), avoid);
    if k < before.len() {
        lemma_others(s.drop_last(), avoid, k);
        let i = choose|i: int| 0 <= i < s.drop_last().len() && s.drop_last()[i] == before[k];
        assert(s[i] == before[k]);
    } else {
        assert(s[s.len() - 1] == others(s, avoid)[k]);
    }
}

impl Roads {
    /// Every node has its list of roads.
    pub open spec fn listed(self) -> bool {
        self.nodes.len() <= self.adj.len()
    }

    /// Every node has its list of roads, and every road leads to a node.
    pub open spec fn wf(self) -> bool {
        &&& self.listed()
        &&& forall|i: int, k: int|
            0 <= i < self.nodes.len() && 0 <= k < self.adj[i].len() ==> (#[trigger] self.adj[i][k])
                < self.nodes.len()
    }

    /// A road leads from `a` to `b`.
    pub open spec fn leads(self, a: int, b: int) -> bool {
        0 <= b <= u32::MAX && self.adj[a].contains(b as u32)
    }

    /// A road joins `a` and `b`, in one direction or the other.
    pub open spec fn joined(self, a: int, b: int) -> bool {
        self.leads(a, b) || self.leads(b, a)
    }

    /// Every road can be driven both ways.
    pub open spec fn undirected(self) -> bool {
        forall|a: int, b: int|
            0 <= a < self.nodes.len() && 0 <= b < self.nodes.len() && #[trigger] self.leads(a, b)
                ==> self.leads(b, a)
    }

    /// A node is an intersection unless exactly two roads leave it.
    pub open spec fn intersection(self, i: int) -> bool {
        self.adj[i].len() != 2
    }

    /// The ways on from `node`, other than back to `avoid`.
    pub open spec fn ways_on(self, node: int, avoid: int) -> Seq<u32> {
        others(self.adj[node], avoid)
    }

    /// Where a vehicle goes on to from `node`, having come from `avoid`: one of
    /// the ways on, by the generator's next number; back, where there is none.
    pub open spec fn onward(self, rng: Rng, node: int, avoid: int) -> int {
        let ways = self.ways_on(node, avoid);
        if ways.len() == 0 {
            avoid
        } else {
            ways[rng.output() as int % ways.len() as int] as int
        }
    }

    /// The generator after the choice of where to go on.
    pub open spec fn after_choice(self, rng: Rng, node: int, avoid: int) -> Rng {
        if self.ways_on(node, avoid).len() == 0 {
            rng
        } else {
            rng.next()
        }
    }

    /// The first node with a road, looking at `tries` nodes from `from` on and
    /// beginning anew after the last; the one that comes after them, when none
    /// of them has one.
    pub open spec fn search(self, from: int, tries: nat) -> int
        decreases tries,
    {
        if tries == 0 || self.adj[from].len() > 0 {
            from
        } else {
            self.search((from + 1) % (self.nodes.len() as int), (tries - 1) as nat)
        }
    }

    /// No node has a road.
    pub open spec fn barren(self) -> bool {
        forall|i: int| 0 <= i < self.nodes.len() ==> #[trigger] self.adj[i].len() == 0
    }
}

impl Graph {
    /// Whether every node has its list of roads, and every road leads to a
    /// node.
    pub fn is_well_formed(&self) -> (b: bool)
        ensures
            b == self@.wf(),
    {
        let n: usize = self.nodes.len();
        if n > self.adj.len() {
            return false;
        }
        let mut i: usize = 0;
        while i < n
            invariant
                n == self.nodes@.len(),
                n <= self.adj@.len(),
                i <= n,
                forall|a: int, k: int|
                    0 <= a < i && 0 <= k < self@.adj[a].len() ==> (#[trigger] self@.adj[a][k]) < n,
            decreases n - i,
        {
            let roads: &Vec<u32> = &self.adj[i];
            let m: usize = roads.len();
            assert(self@.adj[i as int] == roads@);
            let mut k: usize = 0;
            while k < m
                invariant
                    n == self.nodes@.len(),
                    i < n <= self.adj@.len(),
                    m == roads@.len(),
                    self@.adj[i as int] == roads@,
                    k <= m,
                    forall|j: int| 0 <= j < k ==> #[trigger] roads@[j] < n,
                decreases m - k,
            {
                if (roads[k] as usize) >= n {
                    assert(self@.adj[i as int][k as int] >= n);
                    return false;
                }
                k = k + 1;
            }
            i = i + 1;
        }
        true
    }

    /// Where a node is.
    pub fn coord(&self, i: usize) -> (p: Place)
        requires
            i < self@.nodes.len(),
        ensures
            p == self@.nodes[i as int],
    {
        self.nodes[i]
    }

    /// Whether a node is an intersection.
    pub fn is_intersection(&self, i: usize) -> (b: bool)
        requires
            i < self@.adj.len(),
        ensures
            b == self@.intersection(i as int),
    {
        self.adj[i].len() != 2
    }

    /// Chooses where to go on from a node, not back to where one came from
    /// unless there is no other way.
    pub fn pick_next(&self, rng: &mut Rng, node: usize, avoid: usize) -> (next: usize)
        requires
            node < self@.adj.len(),
        ensures
            next == self@.onward(*old(rng), node as int, avoid as int),
            *final(rng) == self@.after_choice(*old(rng), node as int, avoid as int),
    {
        let roads: &Vec<u32> = &self.adj[node];
        assert(self@.adj[node as int] == roads@);
        let n: usize = roads.len();
        let mut ways: Vec<usize> = Vec::new();
        let mut i: usize = 0;
        while i < n
            invariant
                n == roads@.len(),
                i <= n,
                ways@ == others(roads@.take(i as int), avoid as int).map_values(
                    |x: u32| x as usize,
                ),
            decreases n - i,
        {
            let x: u32 = roads[i];
            assert(roads@.take(i + 1).drop_last() =~= roads@.take(i as int));
            if x as usize != avoid {
                ways.push(x as usize);
            }
            assert(ways@ =~= others(roads@.take(i + 1), avoid as int).map_values(
                |x: u32| x as usize,
            ));
            i = i + 1;
        }
        assert(roads@.take(n as int) =~= roads@);
        if ways.len() == 0 {
            return avoid;
        }
        let k: usize = rng.below(ways.len());
        ways[k]
    }
}

/// One goes on along a road that leaves the node, and never straight back while
/// there is another way.
pub proof fn law_onward_follows_a_road(g: Roads, rng: Rng, node: int, avoid: int)
    requires
        g.wf(),
        0 <= node < g.nodes.len(),
        0 <= avoid < g.nodes.len(),
        g.joined(avoid, node),
    ensures
        0 <= g.onward(rng, node, avoid) < g.nodes.len(),
        g.joined(node, g.onward(rng, node, avoid)),
        g.onward(rng, node, avoid) == avoid <==> g.ways_on(node, avoid).len() == 0,
{
    let ways = g.ways_on(node, avoid);
    if ways.len() > 0 {
        let k = rng.output() as int % ways.len() as int;
        assert(0 <= k < ways.len());
        lemma_others(g.adj[node], avoid, k);
        let i = choose|i: int| 0 <= i < g.adj[node].len() && g.adj[node][i] == ways[k];
        assert(g.adj[node][i] < g.nodes.len());
    }
}

proof fn lemma_filtered(s: Seq<u32>, avoid: int)
    ensures
        others(s, avoid) == s.filter(|x: u32| x != avoid),
    decreases s.len(),
{
    reveal(Seq::filter);
    if s.len() > 0 {
        lemma_filtered(s.drop_last(), avoid);
    }
}

/// Where a vehicle goes on to: of the neighbours of the node other than the one
/// that it comes from, in the order in which the graph lists them, the one at the
/// generator's next number modulo their count; back, where there are none. The
/// generator gives up that one number, or none.
pub proof fn law_way_on_is_the_generators_choice(
    g: Roads,
    rng: Rng,
    node: int,
    avoid: int,
    ways: Seq<u32>,
    k: int,
)
    requires
        ways == g.adj[node].filter(|x: u32| x != avoid),
    ensures
        ways.len() > 0 && k == rng.output() as int % ways.len() as int ==> g.onward(
            rng,
            node,
            avoid,
        ) == ways[k],
        ways.len() > 0 ==> g.after_choice(rng, node, avoid) == rng.next(),
        ways.len() == 0 ==> g.onward(rng, node, avoid) == avoid,
        ways.len() == 0 ==> g.after_choice(rng, node, avoid) == rng,
{
    lemma_filtered(g.adj[node], avoid);
}

/// Every way on is taken: for each of the neighbours other than the one that the
/// vehicle comes from, there is a generator that can occur and that makes it go
/// there, however many they are.
pub proof fn law_every_way_on_is_taken(
    g: Roads,
    node: int,
    avoid: int,
    ways: Seq<u32>,
    k: int,
) -> (rng: Rng)
    requires
        ways == g.adj[node].filter(|x: u32| x != avoid),
        0 <= k < ways.len() <= u32::MAX,
    ensures
        rng.state != 0,
        g.onward(rng, node, avoid) == ways[k],
{
    let n = (k + ways.len()) as u64;
    let rng = crate::rng::law_every_number_is_given(n);
    vstd::arithmetic::div_mod::lemma_mod_add_multiples_vanish(k, ways.len() as int);
    vstd::arithmetic::div_mod::lemma_small_mod(k as nat, ways.len());
    law_way_on_is_the_generators_choice(g, rng, node, avoid, ways, k);
    rng
}

/// A vehicle starts from the first node with a road, at or after the one that was
/// drawn, going round: the nodes that it passes over have none.
pub proof fn law_start_is_the_first_node_with_a_road(g: Roads, from: int) -> (j: int)
    requires
        0 <= from < g.nodes.len(),
        !g.barren(),
    ensures
        0 <= j < g.nodes.len(),
        g.search(from, g.nodes.len()) == (from + j) % (g.nodes.len() as int),
        g.adj[(from + j) % (g.nodes.len() as int)].len() > 0,
        forall|i: int|
            0 <= i < j ==> #[trigger] g.adj[(from + i) % (g.nodes.len() as int)].len() == 0,
{
    law_search_finds_a_road(g, from);
    let j = lemma_search_distance(g, from, g.nodes.len());
    if j == g.nodes.len() {
        vstd::arithmetic::div_mod::lemma_mod_add_multiples_vanish(from, j);
        assert(g.adj[(from + 0) % (g.nodes.len() as int)].len() == 0);
    }
    j
}

proof fn lemma_search_distance(g: Roads, from: int, tries: nat) -> (j: int)
    requires
        0 <= from < g.nodes.len(),
        g.adj[g.search(from, tries)].len() > 0,
    ensures
        0 <= j <= tries,
        g.search(from, tries) == (from + j) % (g.nodes.len() as int),
        forall|i: int|
            0 <= i < j ==> #[trigger] g.adj[(from + i) % (g.nodes.len() as int)].len() == 0,
    decreases tries,
{
    let n = g.nodes.len() as int;
    vstd::arithmetic::div_mod::lemma_small_mod(from as nat, n as nat);
    if tries == 0 || g.adj[from].len() > 0 {
        0
    } else {
        let next = (from + 1) % n;
        let j = lemma_search_distance(g, next, (tries - 1) as nat);
        assert forall|i: int| 1 <= i implies #[trigger] ((from + i) % n) == (next + (i - 1))
            % n by {
            vstd::arithmetic::div_mod::lemma_add_mod_noop(from + 1, i - 1, n);
            vstd::arithmetic::div_mod::lemma_add_mod_noop(next, i - 1, n);
            vstd::arithmetic::div_mod::lemma_mod_twice(from + 1, n);
        }
        assert forall|i: int| 0 <= i < j + 1 implies #[trigger] g.adj[(from + i) % n].len()
            == 0 by {
            if i > 0 {
                assert(g.adj[(next + (i - 1)) % n].len() == 0);
            }
        }
        j + 1
    }
}

/// What the graph says of a node and of two.
pub proof fn law_graph_is_what_it_lists(g: Roads, a: int, b: int)
    ensures
        g.intersection(a) <==> g.adj[a].len() != 2,
        0 <= b <= u32::MAX ==> (g.leads(a, b) <==> exists|k: int|
            0 <= k < g.adj[a].len() && #[trigger] g.adj[a][k] == b),
        g.joined(a, b) <==> g.leads(a, b) || g.leads(b, a),
        g.barren() <==> forall|i: int|
            0 <= i < g.nodes.len() ==> #[trigger] g.adj[i] == Seq::<u32>::empty(),
        g.wf() <==> g.nodes.len() <= g.adj.len() && forall|i: int, k: int|
            0 <= i < g.nodes.len() && 0 <= k < g.adj[i].len() ==> (#[trigger] g.adj[i][k])
                < g.nodes.len(),
{
    if 0 <= b <= u32::MAX {
        if g.leads(a, b) {
            let k = choose|k: int| 0 <= k < g.adj[a].len() && g.adj[a][k] == b as u32;
            assert(g.adj[a][k] == b);
        }
        if exists|k: int| 0 <= k < g.adj[a].len() && #[trigger] g.adj[a][k] == b {
            let k = choose|k: int| 0 <= k < g.adj[a].len() && #[trigger] g.adj[a][k] == b;
            assert(g.adj[a][k] == b as u32);
        }
    }
    if g.barren() {
        assert forall|i: int| 0 <= i < g.nodes.len() implies #[trigger] g.adj[i] == Seq::<
            u32,
        >::empty() by {
            assert(g.adj[i].len() == 0);
            assert(g.adj[i] =~= Seq::<u32>::empty());
        }
    }
}

/// Unless the node that a search ends at has a road, none of the nodes that it
/// looked at has.
proof fn lemma_search(g: Roads, from: int, tries: nat)
    requires
        0 <= from < g.nodes.len(),
    ensures
        0 <= g.search(from, tries) < g.nodes.len(),
        g.adj[g.search(from, tries)].len() == 0 ==> forall|j: int|
            0 <= j < tries ==> #[trigger] g.adj[(from + j) % (g.nodes.len() as int)].len() == 0,
    decreases tries,
{
    let n = g.nodes.len() as int;
    if tries > 0 && g.adj[from].len() == 0 {
        let next = (from + 1) % n;
        lemma_search(g, next, (tries - 1) as nat);
        if g.adj[g.search(from, tries)].len() == 0 {
            assert forall|j: int| 0 <= j < tries implies #[trigger] g.adj[(from + j) % n].len()
                == 0 by {
                if j == 0 {
                    vstd::arithmetic::div_mod::lemma_small_mod(from as nat, n as nat);
                } else {
                    assert((next + (j - 1)) % n == (from + j) % n) by {
                        vstd::arithmetic::div_mod::lemma_add_mod_noop(from + 1, j - 1, n);
                        vstd::arithmetic::div_mod::lemma_add_mod_noop(next, j - 1, n);
                        vstd::arithmetic::div_mod::lemma_mod_twice(from + 1, n);
                    }
                    assert(g.adj[(next + (j - 1)) % n].len() == 0);
                }
            }
        }
    }
}

/// The search for a node with a road finds one whenever there is one.
pub proof fn law_search_finds_a_road(g: Roads, from: int)
    requires
        0 <= from < g.nodes.len(),
    ensures
        0 <= g.search(from, g.nodes.len()) < g.nodes.len(),
        g.adj[g.search(from, g.nodes.len())].len() == 0 <==> g.barren(),
{
    let n = g.nodes.len() as int;
    lemma_search(g, from, g.nodes.len());
    if g.adj[g.search(from, g.nodes.len())].len() == 0 {
        assert forall|i: int| 0 <= i < n implies #[trigger] g.adj[i].len() == 0 by {
            let j = if i >= from {
                i - from
            } else {
                i - from + n
            };
            if i >= from {
                vstd::arithmetic::div_mod::lemma_small_mod(i as nat, n as nat);
            } else {
                vstd::arithmetic::div_mod::lemma_mod_add_multiples_vanish(i, n);
                vstd::arithmetic::div_mod::lemma_small_mod(i as nat, n as nat);
                assert(from + j == n + i);
            }
            assert(g.adj[(from + j) % n].len() == 0);
        }
    }
}

/// The view of a graph is its nodes and, for each row, the neighbours listed.
pub proof fn law_graph_view(g: Graph, i: int)
    requires
        0 <= i < g.adj@.len(),
    ensures
        g@.nodes == g.nodes@,
        g@.adj.len() == g.adj@.len(),
        g@.adj[i] == g.adj@[i]@,
{
}

}

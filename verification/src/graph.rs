//! Typed knowledge graph: a bounded breadth-first walk from seed entities,
//! used to expand graph retrieval and hybrid ranking.
use crate::wiki_core::RelationKind;
use vstd::prelude::*;

verus! {

/// Snapshot of the graph's edges: (from, to, relation), entities by id.
#[derive(Debug, Clone, Default)]
pub struct GraphSnapshot {
    pub edges: Vec<(u128, u128, RelationKind)>,
}

/// Bounds of a walk: how many hops from a seed, and which relations may
/// be followed (all when `None`).
#[derive(Debug, Clone)]
pub struct GraphWalkOptions {
    pub max_depth: u32,
    pub allowed_relations: Option<Vec<RelationKind>>,
}

impl Default for GraphWalkOptions {
    fn default() -> (r: Self)
        ensures
            r.max_depth == 3,
            r.allowed_relations is None,
    {
        GraphWalkOptions { max_depth: 3, allowed_relations: None }
    }
}

/// Whether a walk may follow an edge of relation `r`.
pub open spec fn allowed(allow: Option<Seq<RelationKind>>, r: RelationKind) -> bool {
    match allow {
        None => true,
        Some(v) => v.contains(r),
    }
}

/// Whether an edge that may be followed leads from `x` to `y`.
pub open spec fn step(edges: Seq<(u128, u128, RelationKind)>, allow: Option<Seq<RelationKind>>, x: u128, y: u128) -> bool {
    exists|i: int|
        0 <= i < edges.len() && (#[trigger] edges[i]).0 == x && edges[i].1 == y && allowed(
            allow,
            edges[i].2,
        )
}

/// Whether `y` is at most `d` followable hops from a seed.
pub open spec fn within(
    edges: Seq<(u128, u128, RelationKind)>,
    allow: Option<Seq<RelationKind>>,
    seeds: Seq<u128>,
    y: u128,
    d: nat,
) -> bool
    decreases d,
{
    seeds.contains(y) || (d > 0 && exists|x: u128|
        #![trigger step(edges, allow, x, y)]
        within(edges, allow, seeds, x, (d - 1) as nat) && step(edges, allow, x, y))
}

/// The relations a walk may follow, as a sequence view.
pub open spec fn allow_view(opts: GraphWalkOptions) -> Option<Seq<RelationKind>> {
    match opts.allowed_relations {
        None => None,
        Some(v) => Some(v@),
    }
}

/// A walk allowed more hops reaches every entity a shorter walk reaches:
/// expanding the graph to a greater depth never loses an entity.
pub proof fn lemma_within_mono(
    edges: Seq<(u128, u128, RelationKind)>,
    allow: Option<Seq<RelationKind>>,
    seeds: Seq<u128>,
    y: u128,
    a: nat,
    b: nat,
)
    requires
        a <= b,
        within(edges, allow, seeds, y, a),
    ensures
        within(edges, allow, seeds, y, b),
    decreases b,
{
    if !seeds.contains(y) && a < b {
        let x = choose|x: u128|
            #![trigger step(edges, allow, x, y)]
            within(edges, allow, seeds, x, (a - 1) as nat) && step(edges, allow, x, y);
        lemma_within_mono(edges, allow, seeds, x, (a - 1) as nat, (b - 1) as nat);
    }
}

proof fn lemma_bounded_by_universe(visited: Seq<u128>, universe: Seq<u128>)
    requires
        visited.no_duplicates(),
        forall|k: int| 0 <= k < visited.len() ==> universe.contains(#[trigger] visited[k]),
    ensures
        visited.len() <= universe.len(),
{
    broadcast use vstd::seq_lib::seq_to_set_is_finite;
    visited.unique_seq_to_set();
    universe.lemma_cardinality_of_set();
    assert(visited.to_set().subset_of(universe.to_set())) by {
        assert forall|x: u128| visited.to_set().contains(x) implies universe.to_set().contains(x) by {
            let k = choose|k: int| 0 <= k < visited.len() && visited[k] == x;
        }
    }
    vstd::set_lib::lemma_len_subset(visited.to_set(), universe.to_set());
}

/// Nodes a walk can reach: the seeds and the edges' targets.
pub open spec fn universe(seeds: Seq<u128>, edges: Seq<(u128, u128, RelationKind)>) -> Seq<u128> {
    seeds + edges.map_values(|e: (u128, u128, RelationKind)| e.1)
}

fn index_of(v: &Vec<u128>, x: u128) -> (r: Option<usize>)
    ensures
        match r {
            Some(k) => k < v.len() && v@[k as int] == x,
            None => !v@.contains(x),
        },
{
    let mut i: usize = 0;
    while i < v.len()
        invariant
            i <= v.len(),
            forall|k: int| 0 <= k < i ==> v@[k] != x,
        decreases v.len() - i,
    {
        if v[i] == x {
            return Some(i);
        }
        i = i + 1;
    }
    None
}

fn relation_allowed(allow: &Option<Vec<RelationKind>>, r: RelationKind) -> (b: bool)
    ensures
        b == allowed(
            match allow {
                None => None,
                Some(v) => Some(v@),
            },
            r,
        ),
{
    match allow {
        None => true,
        Some(v) => contains_relation(v, r),
    }
}

fn contains_relation(v: &Vec<RelationKind>, r: RelationKind) -> (b: bool)
    ensures
        b == v@.contains(r),
{
    let mut i: usize = 0;
    while i < v.len()
        invariant
            i <= v.len(),
            forall|k: int| 0 <= k < i ==> v@[k] != r,
        decreases v.len() - i,
    {
        if v[i] == r {
            assert(v@[i as int] == r);
            return true;
        }
        i = i + 1;
    }
    false
}

/// The state of the walk every loop keeps: visited nodes with their depth,
/// no repeats, depths never decreasing and within the bound, each node
/// reachable within its depth, and every node drawn from the universe.
pub open spec fn walk_inv(
    edges: Seq<(u128, u128, RelationKind)>,
    allow: Option<Seq<RelationKind>>,
    seeds: Seq<u128>,
    max_depth: nat,
    visited: Seq<u128>,
    depth: Seq<u32>,
) -> bool {
    &&& visited.len() == depth.len()
    &&& visited.no_duplicates()
    &&& forall|a: int, b: int| 0 <= a <= b < depth.len() ==> depth[a] <= depth[b]
    &&& forall|k: int| 0 <= k < depth.len() ==> #[trigger] depth[k] <= max_depth
    &&& forall|k: int|
        0 <= k < visited.len() ==> within(edges, allow, seeds, #[trigger] visited[k], depth[k] as nat)
    &&& forall|k: int| 0 <= k < visited.len() ==> universe(seeds, edges).contains(#[trigger] visited[k])
}

/// Whether every followable edge out of the `k`-th visited node leads to a
/// visited node at most one level deeper.
pub open spec fn expanded(
    edges: Seq<(u128, u128, RelationKind)>,
    allow: Option<Seq<RelationKind>>,
    visited: Seq<u128>,
    depth: Seq<u32>,
    k: int,
) -> bool {
    forall|y: u128|
        #![trigger step(edges, allow, visited[k], y)]
        step(edges, allow, visited[k], y) ==> exists|m: int|
            0 <= m < visited.len() && visited[m] == y && depth[m] <= depth[k] + 1
}

/// The seeds without repeats, each at its first occurrence.
pub open spec fn distinct_seeds(s: Seq<u128>) -> Seq<u128>
    decreases s.len(),
{
    if s.len() == 0 {
        seq![]
    } else {
        let p = distinct_seeds(s.drop_last());
        if p.contains(s.last()) {
            p
        } else {
            p.push(s.last())
        }
    }
}

/// Whether `d[k]` is the distance of `r[k]` (the fewest followable hops
/// from a seed that reach it) and the entities come in nondecreasing
/// order of distance.
pub open spec fn by_distance(
    edges: Seq<(u128, u128, RelationKind)>,
    allow: Option<Seq<RelationKind>>,
    seeds: Seq<u128>,
    r: Seq<u128>,
    d: Seq<u32>,
) -> bool {
    &&& d.len() == r.len()
    &&& forall|a: int, b: int| 0 <= a <= b < d.len() ==> d[a] <= d[b]
    &&& forall|k: int| 0 <= k < r.len() ==> within(edges, allow, seeds, #[trigger] r[k], d[k] as nat)
    &&& forall|k: int, t: nat|
        0 <= k < r.len() && #[trigger] within(edges, allow, seeds, r[k], t) ==> d[k] <= t
}

/// Breadth-first walk from the seeds: the entities at most
/// `opts.max_depth` followable hops from a seed, each once; the distinct
/// seeds first in their given order, then by nondecreasing distance.
pub fn walk_entities(graph: &GraphSnapshot, seeds: &[u128], opts: &GraphWalkOptions) -> (r: Vec<u128>)
    requires
        seeds.len() + graph.edges.len() <= usize::MAX,
    ensures
        r@.no_duplicates(),
        forall|y: u128|
            r@.contains(y) <==> within(
                graph.edges@,
                allow_view(*opts),
                seeds@,
                y,
                opts.max_depth as nat,
            ),
        r@.take(distinct_seeds(seeds@).len() as int) == distinct_seeds(seeds@),
        exists|d: Seq<u32>| by_distance(graph.edges@, allow_view(*opts), seeds@, r@, d),
{
    let ghost edges = graph.edges@;
    let ghost allow = allow_view(*opts);
    let ghost max = opts.max_depth as nat;
    let ghost uni = universe(seeds@, edges);
    let bound: usize = seeds.len() + graph.edges.len();
    let mut visited: Vec<u128> = Vec::new();
    let mut depth: Vec<u32> = Vec::new();
    let mut i: usize = 0;
    while i < seeds.len()
        invariant
            i <= seeds.len(),
            edges == graph.edges@,
            allow == allow_view(*opts),
            max == opts.max_depth as nat,
            uni == universe(seeds@, edges),
            uni.len() == bound,
            walk_inv(edges, allow, seeds@, max, visited@, depth@),
            forall|k: int| 0 <= k < depth.len() ==> #[trigger] depth@[k] == 0,
            forall|k: int| 0 <= k < i ==> visited@.contains(#[trigger] seeds@[k]),
            visited.len() <= i,
            visited@ == distinct_seeds(seeds@.take(i as int)),
        decreases seeds.len() - i,
    {
        let s = seeds[i];
        assert(seeds@.take(i + 1).drop_last() =~= seeds@.take(i as int));
        assert(seeds@.take(i + 1).last() == s);
        let found = index_of(&visited, s);
        if let Some(k) = found {
            assert(visited@[k as int] == s);
        } else {
            let ghost old_visited = visited@;
            proof {
                assert(seeds@.contains(s));
                assert(uni[i as int] == s);
            }
            visited.push(s);
            depth.push(0);
            proof {
                assert forall|a: int, b: int| 0 <= a < b < visited.len() implies visited@[a]
                    != visited@[b] by {
                    if b == visited.len() - 1 {
                        assert(visited@[b] == s);
                    }
                }
                assert forall|k: int| 0 <= k < visited.len() implies within(
                    edges,
                    allow,
                    seeds@,
                    #[trigger] visited@[k],
                    depth@[k] as nat,
                ) by {
                    if k == visited.len() - 1 {
                        assert(seeds@.contains(visited@[k]));
                    }
                }
                assert(visited@[visited.len() - 1] == s);
                assert forall|k: int| 0 <= k < i implies visited@.contains(#[trigger] seeds@[k]) by {
                    let m = choose|m: int| 0 <= m < old_visited.len() && old_visited[m] == seeds@[k];
                    assert(visited@[m] == seeds@[k]);
                }
            }
        }
        assert(visited@.contains(seeds@[i as int]));
        i = i + 1;
    }
    assert(seeds@.take(seeds.len() as int) =~= seeds@);
    let ghost first = visited@;
    let mut h: usize = 0;
    while h < visited.len()
        invariant
            h <= visited.len(),
            visited.len() <= bound,
            edges == graph.edges@,
            allow == allow_view(*opts),
            max == opts.max_depth as nat,
            uni == universe(seeds@, edges),
            uni.len() == bound,
            walk_inv(edges, allow, seeds@, max, visited@, depth@),
            forall|k: int| 0 <= k < seeds.len() ==> visited@.contains(#[trigger] seeds@[k]),
            forall|k: int| 0 <= k < depth.len() && seeds@.contains(#[trigger] visited@[k]) ==> depth@[k] == 0,
            forall|k: int|
                0 <= k < h && depth@[k] < max ==> #[trigger] expanded(edges, allow, visited@, depth@, k),
            h < visited.len() ==> forall|k: int| h <= k < depth.len() ==> #[trigger] depth@[k] <= depth@[h as int] + 1,
            first == distinct_seeds(seeds@),
            first.len() <= visited.len(),
            visited@.take(first.len() as int) == first,
        decreases bound - h,
    {
        let node = visited[h];
        let d = depth[h];
        if d < opts.max_depth {
            let mut j: usize = 0;
            while j < graph.edges.len()
                invariant
                    j <= graph.edges.len(),
                    h < visited.len(),
                    visited.len() <= bound,
                    node == visited@[h as int],
                    d == depth@[h as int],
                    d < max,
                    edges == graph.edges@,
                    allow == allow_view(*opts),
                    max == opts.max_depth as nat,
                    uni == universe(seeds@, edges),
                    uni.len() == bound,
                    walk_inv(edges, allow, seeds@, max, visited@, depth@),
                    forall|k: int| 0 <= k < seeds.len() ==> visited@.contains(#[trigger] seeds@[k]),
                    forall|k: int| 0 <= k < depth.len() && seeds@.contains(#[trigger] visited@[k]) ==> depth@[k] == 0,
                    forall|k: int|
                        0 <= k < h && depth@[k] < max ==> #[trigger] expanded(
                            edges,
                            allow,
                            visited@,
                            depth@,
                            k,
                        ),
                    forall|k: int| h <= k < depth.len() ==> #[trigger] depth@[k] <= d + 1,
                    forall|e: int|
                        0 <= e < j && (#[trigger] edges[e]).0 == node && allowed(allow, edges[e].2)
                            ==> exists|m: int|
                            0 <= m < visited.len() && visited@[m] == edges[e].1 && depth@[m] <= d + 1,
                    first.len() <= visited.len(),
                    visited@.take(first.len() as int) == first,
                decreases graph.edges.len() - j,
            {
                let (a, b, rel) = graph.edges[j];
                if a == node && relation_allowed(&opts.allowed_relations, rel) {
                    match index_of(&visited, b) {
                        Some(m) => {
                            assert(depth@[m as int] <= d + 1) by {
                                if m < h {
                                    assert(depth@[m as int] <= depth@[h as int]);
                                }
                            }
                        },
                        None => {
                            let ghost old_visited = visited@;
                            let ghost old_depth = depth@;
                            proof {
                                assert(step(edges, allow, node, b)) by {
                                    assert(edges[j as int].0 == node);
                                }
                                assert(within(edges, allow, seeds@, node, d as nat));
                                assert(within(edges, allow, seeds@, b, (d + 1) as nat));
                                let ghost tgt = edges.map_values(|e: (u128, u128, RelationKind)| e.1);
                                assert(tgt[j as int] == b);
                                assert(uni[seeds.len() + j] == b);
                                assert(uni.contains(b));
                            }
                            visited.push(b);
                            depth.push(d + 1);
                            assert(visited@.take(first.len() as int) =~= old_visited.take(first.len() as int));
                            proof {
                                assert forall|x: int, y: int| 0 <= x < y < visited.len() implies visited@[x]
                                    != visited@[y] by {
                                    if y == visited.len() - 1 {
                                        assert(!old_visited.contains(b));
                                        assert(old_visited[x] == visited@[x]);
                                    } else {
                                        assert(old_visited[x] == visited@[x]);
                                        assert(old_visited[y] == visited@[y]);
                                    }
                                }
                                assert forall|k: int| 0 <= k < visited.len() implies uni.contains(
                                    #[trigger] visited@[k],
                                ) by {
                                    if k < old_visited.len() {
                                        assert(old_visited[k] == visited@[k]);
                                    }
                                }
                                lemma_bounded_by_universe(visited@, uni);
                                assert forall|k: int| 0 <= k < visited.len() implies within(
                                    edges,
                                    allow,
                                    seeds@,
                                    #[trigger] visited@[k],
                                    depth@[k] as nat,
                                ) by {
                                    if k < old_visited.len() {
                                        assert(old_visited[k] == visited@[k]);
                                        assert(old_depth[k] == depth@[k]);
                                    }
                                }
                                assert forall|k: int|
                                    0 <= k < h && depth@[k] < max implies #[trigger] expanded(
                                    edges,
                                    allow,
                                    visited@,
                                    depth@,
                                    k,
                                ) by {
                                    assert(expanded(edges, allow, old_visited, old_depth, k));
                                    assert forall|y: u128|
                                        #![trigger step(edges, allow, visited@[k], y)]
                                        step(edges, allow, visited@[k], y) implies exists|m: int|
                                        0 <= m < visited.len() && visited@[m] == y && depth@[m]
                                            <= depth@[k] + 1 by {
                                        assert(old_visited[k] == visited@[k]);
                                        let m = choose|m: int|
                                            0 <= m < old_visited.len() && old_visited[m] == y
                                                && old_depth[m] <= old_depth[k] + 1;
                                        assert(visited@[m] == y);
                                    }
                                }
                                assert forall|e: int|
                                    0 <= e < j + 1 && (#[trigger] edges[e]).0 == node && allowed(
                                        allow,
                                        edges[e].2,
                                    ) implies exists|m: int|
                                    0 <= m < visited.len() && visited@[m] == edges[e].1
                                        && depth@[m] <= d + 1 by {
                                    if e < j {
                                        let m = choose|m: int|
                                            0 <= m < old_visited.len() && old_visited[m]
                                                == edges[e].1 && old_depth[m] <= d + 1;
                                        assert(visited@[m] == edges[e].1);
                                    } else {
                                        assert(visited@[visited.len() - 1] == edges[e].1);
                                    }
                                }
                                assert(!seeds@.contains(b)) by {
                                    if seeds@.contains(b) {
                                        let s = choose|s: int| 0 <= s < seeds.len() && seeds@[s] == b;
                                        assert(old_visited.contains(seeds@[s]));
                                    }
                                }
                                assert forall|k: int| 0 <= k < depth.len() && seeds@.contains(#[trigger] visited@[k]) implies depth@[k] == 0 by {
                                    if k < old_visited.len() {
                                        assert(old_visited[k] == visited@[k]);
                                    }
                                }
                                assert forall|k: int| 0 <= k < seeds.len() implies visited@.contains(
                                    #[trigger] seeds@[k],
                                ) by {
                                    let m = choose|m: int| 0 <= m < old_visited.len() && old_visited[m] == seeds@[k];
                                    assert(visited@[m] == seeds@[k]);
                                }
                            }
                        },
                    }
                }
                j = j + 1;
            }
            proof {
                assert forall|y: u128|
                    #![trigger step(edges, allow, visited@[h as int], y)]
                    step(edges, allow, visited@[h as int], y) implies exists|m: int|
                    0 <= m < visited.len() && visited@[m] == y && depth@[m] <= depth@[h as int] + 1 by {
                    let e = choose|e: int|
                        0 <= e < edges.len() && (#[trigger] edges[e]).0 == visited@[h as int] && edges[e].1 == y
                            && allowed(allow, edges[e].2);
                }
                assert(expanded(edges, allow, visited@, depth@, h as int));
            }
        }
        proof {
            if h + 1 < visited.len() {
                assert forall|k: int| h + 1 <= k < depth.len() implies #[trigger] depth@[k] <= depth@[h + 1] + 1 by {
                    assert(depth@[h as int] <= depth@[h + 1]);
                }
            }
        }
        h = h + 1;
    }
    proof {
        assert forall|y: u128| within(edges, allow, seeds@, y, max) implies visited@.contains(y) by {
            lemma_walk_complete(edges, allow, seeds@, max, visited@, depth@, y, max);
        }
        assert forall|y: u128| visited@.contains(y) implies within(edges, allow, seeds@, y, max) by {
            let k = choose|k: int| 0 <= k < visited.len() && visited@[k] == y;
            lemma_within_mono(edges, allow, seeds@, y, depth@[k] as nat, max);
        }
        assert forall|k: int, t: nat|
            0 <= k < visited.len() && #[trigger] within(edges, allow, seeds@, visited@[k], t) implies depth@[k]
            <= t by {
            if t < max {
                lemma_walk_complete(edges, allow, seeds@, max, visited@, depth@, visited@[k], t);
                let m = choose|m: int| 0 <= m < visited.len() && visited@[m] == visited@[k] && depth@[m] <= t;
                assert(m == k);
            }
        }
        assert(by_distance(edges, allow, seeds@, visited@, depth@));
    }
    visited
}

proof fn lemma_walk_complete(
    edges: Seq<(u128, u128, RelationKind)>,
    allow: Option<Seq<RelationKind>>,
    seeds: Seq<u128>,
    max: nat,
    visited: Seq<u128>,
    depth: Seq<u32>,
    y: u128,
    d: nat,
)
    requires
        d <= max,
        within(edges, allow, seeds, y, d),
        walk_inv(edges, allow, seeds, max, visited, depth),
        forall|k: int| 0 <= k < seeds.len() ==> visited.contains(#[trigger] seeds[k]),
        forall|k: int| 0 <= k < depth.len() && seeds.contains(#[trigger] visited[k]) ==> depth[k] == 0,
        forall|k: int|
            0 <= k < visited.len() && depth[k] < max ==> #[trigger] expanded(edges, allow, visited, depth, k),
    ensures
        exists|m: int| 0 <= m < visited.len() && visited[m] == y && depth[m] <= d,
    decreases d,
{
    if seeds.contains(y) {
        let s = choose|s: int| 0 <= s < seeds.len() && seeds[s] == y;
        assert(visited.contains(seeds[s]));
        let m = choose|m: int| 0 <= m < visited.len() && visited[m] == y;
        assert(depth[m] == 0);
    } else {
        let x = choose|x: u128|
            #![trigger step(edges, allow, x, y)]
            within(edges, allow, seeds, x, (d - 1) as nat) && step(edges, allow, x, y);
        lemma_walk_complete(edges, allow, seeds, max, visited, depth, x, (d - 1) as nat);
        let mx = choose|m: int| 0 <= m < visited.len() && visited[m] == x && depth[m] <= (d - 1) as nat;
        assert(expanded(edges, allow, visited, depth, mx));
        assert(step(edges, allow, visited[mx], y));
    }
}

} // verus!

//! Routing across areas: which areas a route passes through, and by which connections.
//!
//! Areas, connections and connection points are numbered; the travel cost between two
//! connection points is given as an integer matrix, so the search itself is exact.
use vstd::prelude::*;
use std::collections::BTreeMap;
use crate::schema::places::ConnectionType;
use crate::pathfinding::grid::{is_predecessor_chain, reaches_start, reconstruct_path};
use crate::pathfinding::errors::InterPathError;
use crate::text::str_eq;

verus! {

/// Which kinds of connection a route may take; the others (gates, rails, shuttles) are always
/// allowed.
#[derive(Debug, Clone, Copy, PartialEq, Eq, Structural)]
pub struct ConnectivityLimits {
    pub elevator: bool,
    pub stairs: bool,
    pub escalator: bool,
}

impl ConnectivityLimits {
    /// Whether a connection of kind `t` may be taken.
    pub open spec fn permits(self, t: ConnectionType) -> bool {
        match t {
            ConnectionType::Elevator => self.elevator,
            ConnectionType::Stairs => self.stairs,
            ConnectionType::Escalator => self.escalator,
            _ => true,
        }
    }

    /// Whether a connection of kind `t` may be taken.
    pub fn allows(&self, t: ConnectionType) -> (b: bool)
        ensures
            b == self.permits(t),
    {
        match t {
            ConnectionType::Elevator => self.elevator,
            ConnectionType::Stairs => self.stairs,
            ConnectionType::Escalator => self.escalator,
            _ => true,
        }
    }
}

impl Default for ConnectivityLimits {
    /// Every kind of connection allowed.
    fn default() -> (l: Self)
        ensures
            l.elevator && l.stairs && l.escalator,
    {
        ConnectivityLimits { elevator: true, stairs: true, escalator: true }
    }
}

/// One end of a connection: the area it opens into, the point where it stands, and whether
/// it is in service.
#[derive(Debug, Clone, Copy, PartialEq, Eq, Structural)]
pub struct Endpoint {
    pub area: usize,
    pub point: usize,
    pub enabled: bool,
}

/// A connection as an area lists it: its identity, its kind and the areas it opens into.
#[derive(Debug, Clone)]
pub struct AreaLink {
    pub id: usize,
    pub conn_type: ConnectionType,
    pub endpoints: Vec<Endpoint>,
}

/// The areas of a site, each with the connections it lists, and the travel cost between any
/// two numbered points.
#[derive(Debug, Clone)]
pub struct AreaGraph {
    pub areas: Vec<Vec<AreaLink>>,
    pub cost: Vec<Vec<u64>>,
}

/// The largest single travel cost for which no route total can overflow: the whole budget
/// `u64::MAX` shared among one more leg than there are areas.
pub open spec fn cost_limit(n: nat) -> nat {
    (u64::MAX as nat) / (n + 1)
}

/// The largest single travel cost allowed for a site of `n` areas.
pub fn cost_limit_value(n: usize) -> (l: u64)
    ensures
        l == cost_limit(n as nat),
{
    let d: u128 = n as u128 + 1;
    let q: u128 = (u64::MAX as u128) / d;
    assert(q <= u64::MAX) by (nonlinear_arith)
        requires
            q == (u64::MAX as int) / (d as int),
            d >= 1,
    ;
    q as u64
}

/// Whether connection `l`, listed by area `from`, may be taken to area `to`: its kind is
/// allowed, `to` is another area, and one of its ends in service opens into `to`.
pub open spec fn link_reaches(l: AreaLink, limits: ConnectivityLimits, from: usize, to: usize) -> bool {
    &&& limits.permits(l.conn_type)
    &&& from != to
    &&& exists|j: int|
        0 <= j < l.endpoints@.len() && (#[trigger] l.endpoints@[j]).area == to
            && l.endpoints@[j].enabled
}

/// Whether area `from` lists a permitted connection with identity `id` one of whose ends in
/// service opens into another area `to` at point `point`.
pub open spec fn hop_at(
    g: AreaGraph,
    limits: ConnectivityLimits,
    from: usize,
    to: usize,
    id: usize,
    point: usize,
) -> bool {
    &&& from != to
    &&& exists|k: int, j: int|
        0 <= k < g.links(from as int).len() && g.links(from as int)[k].id == id && limits.permits(
            g.links(from as int)[k].conn_type,
        ) && 0 <= j < g.links(from as int)[k].endpoints@.len() && #[trigger] g.links(
            from as int,
        )[k].endpoints@[j] == (Endpoint { area: to, point, enabled: true })
}

impl AreaGraph {
    /// The connections listed by area `a`.
    pub open spec fn links(&self, a: int) -> Seq<AreaLink> {
        self.areas@[a]@
    }

    /// Whether area `from` lists a connection with identity `id` that may be taken to `to`.
    pub open spec fn connects_via(
        &self,
        limits: ConnectivityLimits,
        from: usize,
        to: usize,
        id: usize,
    ) -> bool {
        exists|k: int|
            0 <= k < self.links(from as int).len() && (#[trigger] self.links(from as int)[k]).id
                == id && link_reaches(self.links(from as int)[k], limits, from, to)
    }

    /// Whether some connection of area `from` may be taken to `to`.
    pub open spec fn connects(&self, limits: ConnectivityLimits, from: usize, to: usize) -> bool {
        exists|id: usize| self.connects_via(limits, from, to, id)
    }

    /// Every connection end names a known area and a known point, the cost matrix is square,
    /// and no single cost exceeds `cost_limit` of the number of areas.
    pub open spec fn well_formed(&self) -> bool {
        &&& forall|a: int, k: int, j: int|
            0 <= a < self.areas@.len() && 0 <= k < self.links(a).len() && 0 <= j
                < self.links(a)[k].endpoints@.len() ==> (#[trigger] self.links(a)[k].endpoints@[j]).area
                < self.areas@.len() && self.links(a)[k].endpoints@[j].point < self.cost@.len()
        &&& forall|p: int| 0 <= p < self.cost@.len() ==> (#[trigger] self.cost@[p])@.len() == self.cost@.len()
        &&& forall|p: int, q: int|
            0 <= p < self.cost@.len() && 0 <= q < self.cost@.len() ==> (#[trigger] self.cost@[p]@[q])
                <= cost_limit(self.areas@.len() as nat)
    }
}

/// Whether `path` is a sequence of areas from `start` to `end` in which each area connects to
/// the next.
pub open spec fn is_route(
    g: AreaGraph,
    limits: ConnectivityLimits,
    path: Seq<usize>,
    start: usize,
    end: usize,
) -> bool {
    &&& path.len() >= 1
    &&& path[0] == start
    &&& path.last() == end
    &&& forall|i: int| 0 <= i < path.len() - 1 ==> g.connects(limits, #[trigger] path[i], path[i + 1])
}

/// Whether `conns` names, for each step of `path`, a connection that the step's area lists and
/// that may be taken to the next area.
pub open spec fn is_hop_sequence(
    g: AreaGraph,
    limits: ConnectivityLimits,
    path: Seq<usize>,
    conns: Seq<usize>,
) -> bool {
    &&& conns.len() + 1 == path.len()
    &&& forall|i: int|
        0 <= i < conns.len() ==> g.connects_via(limits, #[trigger] path[i], path[i + 1], conns[i])
}

/// The areas a route passes through, in order, and the connection taken out of each area but
/// the last.
#[derive(Debug, Clone)]
pub struct AreaRoute {
    pub areas: Vec<usize>,
    pub connections: Vec<usize>,
}

struct QueueEntry {
    area: usize,
    distance: u64,
    point: usize,
}

/// The number of `false` entries.
pub open spec fn count_false(s: Seq<bool>) -> nat
    decreases s.len(),
{
    if s.len() == 0 {
        0
    } else {
        count_false(s.drop_last()) + if s.last() {
            0nat
        } else {
            1nat
        }
    }
}

proof fn lemma_count_false_bound(s: Seq<bool>)
    ensures
        count_false(s) <= s.len(),
    decreases s.len(),
{
    if s.len() > 0 {
        lemma_count_false_bound(s.drop_last());
    }
}

proof fn lemma_count_false_set(s: Seq<bool>, i: int)
    requires
        0 <= i < s.len(),
        !s[i],
    ensures
        count_false(s.update(i, true)) + 1 == count_false(s),
    decreases s.len(),
{
    let t = s.update(i, true);
    if i == s.len() - 1 {
        assert(t.drop_last() =~= s.drop_last());
    } else {
        assert(t.drop_last() =~= s.drop_last().update(i, true));
        lemma_count_false_set(s.drop_last(), i);
    }
}

proof fn lemma_count_false_positive(s: Seq<bool>, i: int)
    requires
        0 <= i < s.len(),
        !s[i],
    ensures
        count_false(s) >= 1,
{
    lemma_count_false_set(s, i);
}

proof fn lemma_budget(k: nat, n: nat, l: nat)
    requires
        k < n,
        l == cost_limit(n),
    ensures
        k * l + l == (k + 1) * l,
        (k + 1) * l <= n * l,
        n * l < u64::MAX,
{
    assert(k * l + l == (k + 1) * l) by (nonlinear_arith);
    assert((k + 1) * l <= n * l) by (nonlinear_arith)
        requires
            k + 1 <= n,
    ;
    assert((n + 1) * l <= u64::MAX) by (nonlinear_arith)
        requires
            l == (u64::MAX as nat) / (n + 1),
    ;
    assert(n * l < u64::MAX) by (nonlinear_arith)
        requires
            (n + 1) * l <= u64::MAX,
    ;
}

proof fn lemma_budget_monotone(a: nat, b: nat, l: nat)
    requires
        a <= b,
    ensures
        a * l <= b * l,
{
    assert(a * l <= b * l) by (nonlinear_arith)
        requires
            a <= b,
    ;
}

/// Removes and returns the first entry of least distance.
fn pop_nearest(queue: &mut Vec<QueueEntry>) -> (r: (QueueEntry, Ghost<int>))
    requires
        old(queue)@.len() > 0,
    ensures
        0 <= r.1@ < old(queue)@.len(),
        r.0 == old(queue)@[r.1@],
        final(queue)@ == old(queue)@.remove(r.1@),
        forall|i: int| 0 <= i < old(queue)@.len() ==> r.0.distance <= (#[trigger] old(queue)@[i]).distance,
{
    let mut best: usize = 0;
    let mut i: usize = 1;
    while i < queue.len()
        invariant
            queue@ == old(queue)@,
            queue@.len() > 0,
            best < i <= queue@.len(),
            forall|k: int| 0 <= k < i ==> queue@[best as int].distance <= (#[trigger] queue@[k]).distance,
        decreases queue@.len() - i,
    {
        if queue[i].distance < queue[best].distance {
            best = i;
        }
        i = i + 1;
    }
    let e = queue.remove(best);
    (e, Ghost(best as int))
}

/// Whether every connection end that area `u` may reach through its first `k` links (and,
/// in link `k`, its first `j` ends) is visited or has a known distance.
spec fn ends_settled(
    g: AreaGraph,
    limits: ConnectivityLimits,
    u: usize,
    k: int,
    j: int,
    visited: Seq<bool>,
    dist: Seq<u64>,
) -> bool {
    forall|kk: int, jj: int|
        0 <= kk < g.links(u as int).len() && 0 <= jj < g.links(u as int)[kk].endpoints@.len() && (
        kk < k || (kk == k && jj < j)) && limits.permits(g.links(u as int)[kk].conn_type)
            && (#[trigger] g.links(u as int)[kk].endpoints@[jj]).enabled
            && g.links(u as int)[kk].endpoints@[jj].area != u ==> visited[g.links(
            u as int,
        )[kk].endpoints@[jj].area as int] || dist[g.links(u as int)[kk].endpoints@[jj].area as int]
            < u64::MAX
}

/// What relaxing the connections of area `u` keeps and changes: distances only fall; an area
/// whose distance fell is unvisited, gets `u` as predecessor through a connection that leads
/// there, and is queued; every other area keeps its predecessor.
spec fn relaxed(
    g: AreaGraph,
    limits: ConnectivityLimits,
    u: usize,
    base: int,
    from_point: usize,
    top: nat,
    visited: Seq<bool>,
    d0: Seq<u64>,
    v0: Seq<usize>,
    c0: Map<usize, usize>,
    q0: Seq<QueueEntry>,
    dist: Seq<u64>,
    hops_in: Seq<usize>,
    cf: Map<usize, usize>,
    queue: Seq<QueueEntry>,
) -> bool {
    let n = g.areas@.len();
    &&& dist.len() == n
    &&& hops_in.len() == n
    &&& queue.len() >= q0.len()
    &&& queue.subrange(0, q0.len() as int) == q0
    &&& forall|i: int|
        q0.len() <= i < queue.len() ==> (#[trigger] queue[i]).area < n && !visited[queue[i].area as int]
            && queue[i].point < g.cost@.len() && queue[i].distance <= top && cf.contains_key(
            queue[i].area,
        )
    &&& forall|x: int| 0 <= x < n ==> #[trigger] dist[x] <= d0[x]
    &&& forall|x: int|
        0 <= x < n && #[trigger] dist[x] < d0[x] ==> !visited[x] && x != u && cf.contains_key(
            x as usize,
        ) && cf[x as usize] == u && g.connects_via(limits, u, x as usize, hops_in[x])
            && exists|i: int|
            q0.len() <= i < queue.len() && (#[trigger] queue[i]).area == x && queue[i].distance == dist[x]
    &&& forall|x: int|
        0 <= x < n && #[trigger] dist[x] == d0[x] ==> hops_in[x] == v0[x] && (cf.contains_key(x as usize)
            == c0.contains_key(x as usize)) && (c0.contains_key(x as usize) ==> cf[x as usize]
            == c0[x as usize])
    &&& forall|x: usize| #[trigger] cf.contains_key(x) ==> c0.contains_key(x) || (x < n && dist[x as int] < d0[x as int])
    &&& forall|i: int|
        q0.len() <= i < queue.len() ==> (#[trigger] queue[i]).distance == base + g.cost@[from_point as int]@[queue[i].point as int]
            && queue[i].distance < d0[queue[i].area as int] && queue[i].distance >= dist[queue[i].area as int]
            && (queue[i].distance == dist[queue[i].area as int] ==> hop_at(
            g,
            limits,
            u,
            queue[i].area,
            hops_in[queue[i].area as int],
            queue[i].point,
        ))
}

/// Whether every connection end that area `u` may reach through its first `k` links (and, in
/// link `k`, its first `j` ends) leads to a visited area or to one whose distance is at most
/// `base` plus the travel from `from_point` to the end's point.
spec fn ends_bounded(
    g: AreaGraph,
    limits: ConnectivityLimits,
    u: usize,
    k: int,
    j: int,
    visited: Seq<bool>,
    dist: Seq<u64>,
    base: int,
    from_point: usize,
) -> bool {
    forall|kk: int, jj: int|
        0 <= kk < g.links(u as int).len() && 0 <= jj < g.links(u as int)[kk].endpoints@.len() && (
        kk < k || (kk == k && jj < j)) && limits.permits(g.links(u as int)[kk].conn_type)
            && (#[trigger] g.links(u as int)[kk].endpoints@[jj]).enabled
            && g.links(u as int)[kk].endpoints@[jj].area != u ==> visited[g.links(
            u as int,
        )[kk].endpoints@[jj].area as int] || dist[g.links(u as int)[kk].endpoints@[jj].area as int]
            <= base + g.cost@[from_point as int]@[g.links(u as int)[kk].endpoints@[jj].point as int]
}

/// Relaxes every connection of area `u`, entered at point `from_point` at distance `base`:
/// each unvisited area that a permitted, enabled connection end opens into, and that this
/// reaches more cheaply than known so far, gets the new distance, `u` as predecessor, the
/// connection as the way in, and a queue entry.
fn relax_area(
    g: &AreaGraph,
    limits: ConnectivityLimits,
    u: usize,
    from_point: usize,
    base: u64,
    visited: &Vec<bool>,
    dist: &mut Vec<u64>,
    hops_in: &mut Vec<usize>,
    cf: &mut BTreeMap<usize, usize>,
    queue: &mut Vec<QueueEntry>,
)
    requires
        g.well_formed(),
        u < g.areas@.len(),
        from_point < g.cost@.len(),
        visited@.len() == g.areas@.len(),
        visited@[u as int],
        old(dist)@.len() == g.areas@.len(),
        old(hops_in)@.len() == g.areas@.len(),
        base + cost_limit(g.areas@.len() as nat) < u64::MAX,
    ensures
        relaxed(
            *g,
            limits,
            u,
            base as int,
            from_point,
            (base + cost_limit(g.areas@.len() as nat)) as nat,
            visited@,
            old(dist)@,
            old(hops_in)@,
            old(cf)@,
            old(queue)@,
            final(dist)@,
            final(hops_in)@,
            final(cf)@,
            final(queue)@,
        ),
        forall|v: usize|
            #[trigger] g.connects(limits, u, v) ==> visited@[v as int] || final(dist)@[v as int]
                < u64::MAX,
        ends_bounded(*g, limits, u, g.links(u as int).len() as int, 0, visited@, final(dist)@, base as int, from_point),
{
    let ghost n = g.areas@.len();
    assert(n == g.areas.len());
    let ghost top: nat = (base + cost_limit(g.areas@.len() as nat)) as nat;
    let ghost d0 = dist@;
    let ghost v0 = hops_in@;
    let ghost c0 = cf@;
    let ghost q0 = queue@;
    let links = &g.areas[u];
    let mut k: usize = 0;
    assert(queue@.subrange(0, q0.len() as int) =~= q0);
    while k < links.len()
        invariant
            g.well_formed(),
            n == g.areas@.len(),
            n <= usize::MAX,
            u < n,
            from_point < g.cost@.len(),
            visited@.len() == n,
            links@ == g.links(u as int),
            k <= links@.len(),
            top == base + cost_limit(n as nat),
            top < u64::MAX,
            relaxed(*g, limits, u, base as int, from_point, top, visited@, d0, v0, c0, q0, dist@, hops_in@, cf@, queue@),
            ends_settled(*g, limits, u, k as int, 0, visited@, dist@),
            ends_bounded(*g, limits, u, k as int, 0, visited@, dist@, base as int, from_point),
        decreases links@.len() - k,
    {
        let link = &links[k];
        if limits.allows(link.conn_type) {
            let mut j: usize = 0;
            while j < link.endpoints.len()
                invariant
                    g.well_formed(),
                    n == g.areas@.len(),
                    n <= usize::MAX,
                    u < n,
                    from_point < g.cost@.len(),
                    visited@.len() == n,
                    links@ == g.links(u as int),
                    k < links@.len(),
                    *link == links@[k as int],
                    limits.permits(link.conn_type),
                    j <= link.endpoints@.len(),
                    top == base + cost_limit(n as nat),
                    top < u64::MAX,
                    relaxed(*g, limits, u, base as int, from_point, top, visited@, d0, v0, c0, q0, dist@, hops_in@, cf@, queue@),
                    ends_settled(*g, limits, u, k as int, j as int, visited@, dist@),
                    ends_bounded(*g, limits, u, k as int, j as int, visited@, dist@, base as int, from_point),
                decreases link.endpoints@.len() - j,
            {
                let ep = link.endpoints[j];
                assert(g.links(u as int)[k as int].endpoints@[j as int] == ep);
                if ep.enabled && ep.area != u && !visited[ep.area] {
                    let c = g.cost[from_point][ep.point];
                    let tentative = base + c;
                    if tentative < dist[ep.area] {
                        let ghost dq = dist@;
                        let ghost vq = hops_in@;
                        let ghost cq = cf@;
                        let ghost qq = queue@;
                        cf.insert(ep.area, u);
                        hops_in.set(ep.area, link.id);
                        dist.set(ep.area, tentative);
                        queue.push(QueueEntry { area: ep.area, distance: tentative, point: ep.point });
                        proof {
                            let x0 = ep.area as int;
                            assert(cf@ == cq.insert(ep.area, u));
                            assert(g.connects_via(limits, u, ep.area, link.id)) by {
                                assert(link_reaches(g.links(u as int)[k as int], limits, u, ep.area));
                            }
                            assert(queue@[queue@.len() - 1].area == ep.area);
                            assert(queue@.subrange(0, q0.len() as int) =~= q0) by {
                                assert(qq.subrange(0, q0.len() as int) == q0);
                            }
                            assert forall|i: int| q0.len() <= i < queue@.len() implies (
                            #[trigger] queue@[i]).area < n && !visited@[queue@[i].area as int]
                                && queue@[i].point < g.cost@.len() && queue@[i].distance <= top
                                && cf@.contains_key(queue@[i].area) by {
                                if i < qq.len() {
                                    assert(queue@[i] == qq[i]);
                                }
                            }
                            assert forall|x: int|
                                0 <= x < n && #[trigger] dist@[x] < d0[x] implies !visited@[x] && x
                                != u && cf@.contains_key(x as usize) && cf@[x as usize] == u
                                && g.connects_via(limits, u, x as usize, hops_in@[x]) && exists|i: int|
                                q0.len() <= i < queue@.len() && (#[trigger] queue@[i]).area == x
                                && queue@[i].distance == dist@[x] by {
                                if x != x0 {
                                    assert(dq[x] < d0[x]);
                                    let i = choose|i: int|
                                        q0.len() <= i < qq.len() && (#[trigger] qq[i]).area == x
                                        && qq[i].distance == dq[x];
                                    assert(queue@[i] == qq[i]);
                                } else {
                                    assert(queue@[queue@.len() - 1].area == x);
                                }
                            }
                            assert(hop_at(*g, limits, u, ep.area, link.id, ep.point)) by {
                                assert(g.links(u as int)[k as int].endpoints@[j as int] == (Endpoint {
                                    area: ep.area,
                                    point: ep.point,
                                    enabled: true,
                                }));
                            }
                            assert forall|i: int|
                                q0.len() <= i < queue@.len() implies (#[trigger] queue@[i]).distance == base
                                + g.cost@[from_point as int]@[queue@[i].point as int]
                                && queue@[i].distance < d0[queue@[i].area as int]
                                && queue@[i].distance >= dist@[queue@[i].area as int]
                                && (queue@[i].distance == dist@[queue@[i].area as int] ==> hop_at(
                                *g,
                                limits,
                                u,
                                queue@[i].area,
                                hops_in@[queue@[i].area as int],
                                queue@[i].point,
                            )) by {
                                if i < qq.len() {
                                    assert(queue@[i] == qq[i]);
                                    if qq[i].area != ep.area {
                                        assert(dist@[qq[i].area as int] == dq[qq[i].area as int]);
                                        assert(hops_in@[qq[i].area as int] == vq[qq[i].area as int]);
                                    }
                                }
                            }
                            assert forall|x: usize| #[trigger] cf@.contains_key(x) implies c0.contains_key(x) || (x < n && dist@[x as int] < d0[x as int]) by {
                                if x != ep.area {
                                    assert(cq.contains_key(x));
                                }
                            }
                            assert(dist@.len() == n && hops_in@.len() == n);
                            assert(forall|x: int| 0 <= x < n ==> #[trigger] dist@[x] <= d0[x]);
                            assert forall|x: int|
                                0 <= x < n && #[trigger] dist@[x] == d0[x] implies hops_in@[x] == v0[x] && (cf@.contains_key(x as usize)
                                    == c0.contains_key(x as usize)) && (c0.contains_key(x as usize) ==> cf@[x as usize]
                                    == c0[x as usize]) by {
                                assert(x != x0);
                                assert(x as usize != ep.area);
                                assert(dq[x] == d0[x]);
                                assert(hops_in@[x] == vq[x]);
                                assert(vq[x] == v0[x]);
                                assert(cf@.contains_key(x as usize) == cq.contains_key(x as usize));
                                assert(cq.contains_key(x as usize) == c0.contains_key(x as usize));
                            }
                        }
                    }
                }
                proof {
                    assert forall|kk: int, jj: int|
                        0 <= kk < g.links(u as int).len() && 0 <= jj < g.links(
                            u as int,
                        )[kk].endpoints@.len() && (kk < k || (kk == k && jj < j + 1))
                            && limits.permits(g.links(u as int)[kk].conn_type)
                            && (#[trigger] g.links(u as int)[kk].endpoints@[jj]).enabled
                            && g.links(u as int)[kk].endpoints@[jj].area != u implies visited@[g.links(
                        u as int,
                    )[kk].endpoints@[jj].area as int] || dist@[g.links(
                        u as int,
                    )[kk].endpoints@[jj].area as int] < u64::MAX by {
                        if kk == k && jj == j {
                        }
                    }
                    assert forall|kk: int, jj: int|
                        0 <= kk < g.links(u as int).len() && 0 <= jj < g.links(
                            u as int,
                        )[kk].endpoints@.len() && (kk < k || (kk == k && jj < j + 1))
                            && limits.permits(g.links(u as int)[kk].conn_type)
                            && (#[trigger] g.links(u as int)[kk].endpoints@[jj]).enabled
                            && g.links(u as int)[kk].endpoints@[jj].area != u implies visited@[g.links(
                        u as int,
                    )[kk].endpoints@[jj].area as int] || dist@[g.links(
                        u as int,
                    )[kk].endpoints@[jj].area as int] <= base + g.cost@[from_point as int]@[g.links(
                        u as int,
                    )[kk].endpoints@[jj].point as int] by {
                        if kk == k && jj == j {
                        }
                    }
                }
                j = j + 1;
            }
        }
        proof {
            assert forall|kk: int, jj: int|
                0 <= kk < g.links(u as int).len() && 0 <= jj < g.links(
                    u as int,
                )[kk].endpoints@.len() && (kk < k + 1 || (kk == k + 1 && jj < 0)) && limits.permits(
                    g.links(u as int)[kk].conn_type,
                ) && (#[trigger] g.links(u as int)[kk].endpoints@[jj]).enabled && g.links(
                    u as int,
                )[kk].endpoints@[jj].area != u implies visited@[g.links(
                u as int,
            )[kk].endpoints@[jj].area as int] || dist@[g.links(
                u as int,
            )[kk].endpoints@[jj].area as int] < u64::MAX by {
                if kk == k {
                    assert(g.links(u as int)[kk] == links@[k as int]);
                }
            }
            assert forall|kk: int, jj: int|
                0 <= kk < g.links(u as int).len() && 0 <= jj < g.links(
                    u as int,
                )[kk].endpoints@.len() && (kk < k + 1 || (kk == k + 1 && jj < 0)) && limits.permits(
                    g.links(u as int)[kk].conn_type,
                ) && (#[trigger] g.links(u as int)[kk].endpoints@[jj]).enabled && g.links(
                    u as int,
                )[kk].endpoints@[jj].area != u implies visited@[g.links(
                u as int,
            )[kk].endpoints@[jj].area as int] || dist@[g.links(
                u as int,
            )[kk].endpoints@[jj].area as int] <= base + g.cost@[from_point as int]@[g.links(
                u as int,
            )[kk].endpoints@[jj].point as int] by {
                if kk == k {
                    assert(g.links(u as int)[kk] == links@[k as int]);
                }
            }
        }
        k = k + 1;
    }
    proof {
        assert forall|v: usize| #[trigger] g.connects(limits, u, v) implies visited@[v as int]
            || dist@[v as int] < u64::MAX by {
            let id = choose|id: usize| g.connects_via(limits, u, v, id);
            let kk = choose|kk: int|
                0 <= kk < g.links(u as int).len() && (#[trigger] g.links(u as int)[kk]).id == id
                    && link_reaches(g.links(u as int)[kk], limits, u, v);
            let jj = choose|jj: int|
                0 <= jj < g.links(u as int)[kk].endpoints@.len() && (#[trigger] g.links(
                    u as int,
                )[kk].endpoints@[jj]).area == v && g.links(u as int)[kk].endpoints@[jj].enabled;
            assert(g.links(u as int)[kk].endpoints@[jj].area == v);
        }
    }
}

/// The invariant of the area search: distances, the visited set, the predecessors with the
/// connection each came through, and the queue of areas to settle.
spec fn search_inv(
    g: AreaGraph,
    limits: ConnectivityLimits,
    start: usize,
    end: usize,
    dist: Seq<u64>,
    visited: Seq<bool>,
    hops_in: Seq<usize>,
    cf: Map<usize, usize>,
    queue: Seq<QueueEntry>,
) -> bool {
    let n = g.areas@.len();
    let bound = (n - count_false(visited)) * cost_limit(n as nat);
    &&& dist.len() == n
    &&& visited.len() == n
    &&& hops_in.len() == n
    &&& start < n
    &&& end < n
    &&& dist[start as int] == 0
    &&& !visited[end as int]
    &&& forall|i: int|
        0 <= i < queue.len() ==> (#[trigger] queue[i]).area < n && queue[i].point < g.cost@.len()
            && queue[i].distance <= bound && (queue[i].area == start || cf.contains_key(
            queue[i].area,
        ))
    &&& forall|v: int|
        0 <= v < n && !visited[v] && #[trigger] dist[v] < u64::MAX ==> exists|i: int|
            0 <= i < queue.len() && (#[trigger] queue[i]).area == v
    &&& forall|u: usize, v: usize|
        u < n && visited[u as int] && #[trigger] g.connects(limits, u, v) ==> visited[v as int]
            || dist[v as int] < u64::MAX
    &&& forall|v: usize| #[trigger]
        cf.contains_key(v) ==> v < n && cf[v] < n && v != start && visited[cf[v] as int]
            && g.connects_via(limits, cf[v], v, hops_in[v as int])
    &&& forall|v: int| 0 <= v < n && #[trigger] visited[v] ==> v == start || cf.contains_key(v as usize)
    &&& forall|v: int|
        0 <= v < n && #[trigger] visited[v] ==> exists|k: nat| #[trigger] reaches_start(cf, v as usize, k)
}

proof fn lemma_reaches_stable(
    c0: Map<usize, usize>,
    c1: Map<usize, usize>,
    vis: Seq<bool>,
    v: usize,
    k: nat,
)
    requires
        reaches_start(c0, v, k),
        v < vis.len(),
        vis[v as int],
        forall|x: usize|
            x < vis.len() && vis[x as int] ==> (#[trigger] c1.contains_key(x) == c0.contains_key(x))
                && (c0.contains_key(x) ==> c1[x] == c0[x]),
        forall|x: usize|
            #[trigger] c0.contains_key(x) && x < vis.len() && vis[x as int] ==> c0[x] < vis.len()
                && vis[c0[x] as int],
    ensures
        reaches_start(c1, v, k),
    decreases k,
{
    assert(c1.contains_key(v) == c0.contains_key(v));
    if k > 0 {
        lemma_reaches_stable(c0, c1, vis, c0[v], (k - 1) as nat);
    }
}

proof fn lemma_chain_visited(cf: Map<usize, usize>, path: Seq<usize>, end: usize, vis: Seq<bool>, i: int)
    requires
        is_predecessor_chain(cf, path, end),
        end < vis.len(),
        vis[end as int],
        forall|x: usize|
            #[trigger] cf.contains_key(x) && x < vis.len() && vis[x as int] ==> cf[x] < vis.len()
                && vis[cf[x] as int],
        0 <= i < path.len(),
    ensures
        path[i] < vis.len(),
        vis[path[i] as int],
    decreases path.len() - i,
{
    if i < path.len() - 1 {
        lemma_chain_visited(cf, path, end, vis, i + 1);
        assert(cf.contains_key(path[i + 1]) && cf[path[i + 1]] == path[i]);
    }
}

proof fn lemma_connects_in_range(g: AreaGraph, limits: ConnectivityLimits, u: usize, v: usize)
    requires
        g.well_formed(),
        u < g.areas@.len(),
        g.connects(limits, u, v),
    ensures
        v < g.areas@.len(),
{
    let id = choose|id: usize| g.connects_via(limits, u, v, id);
    let k = choose|k: int|
        0 <= k < g.links(u as int).len() && (#[trigger] g.links(u as int)[k]).id == id
            && link_reaches(g.links(u as int)[k], limits, u, v);
    let j = choose|j: int|
        0 <= j < g.links(u as int)[k].endpoints@.len() && (#[trigger] g.links(
            u as int,
        )[k].endpoints@[j]).area == v && g.links(u as int)[k].endpoints@[j].enabled;
}

proof fn lemma_route_visited(
    g: AreaGraph,
    limits: ConnectivityLimits,
    path: Seq<usize>,
    start: usize,
    end: usize,
    vis: Seq<bool>,
    i: int,
)
    requires
        g.well_formed(),
        vis.len() == g.areas@.len(),
        is_route(g, limits, path, start, end),
        start < vis.len(),
        vis[start as int],
        forall|u: usize, v: usize|
            u < vis.len() && vis[u as int] && #[trigger] g.connects(limits, u, v) ==> vis[v as int],
        0 <= i < path.len(),
    ensures
        path[i] < vis.len(),
        vis[path[i] as int],
    decreases i,
{
    if i > 0 {
        lemma_route_visited(g, limits, path, start, end, vis, i - 1);
        assert(g.connects(limits, path[i - 1], path[i]));
        lemma_connects_in_range(g, limits, path[i - 1], path[i]);
    }
}

proof fn lemma_route_in_range(
    g: AreaGraph,
    limits: ConnectivityLimits,
    path: Seq<usize>,
    start: usize,
    end: usize,
    i: int,
)
    requires
        g.well_formed(),
        start < g.areas@.len(),
        is_route(g, limits, path, start, end),
        0 <= i < path.len(),
    ensures
        path[i] < g.areas@.len(),
    decreases i,
{
    if i > 0 {
        lemma_route_in_range(g, limits, path, start, end, i - 1);
        assert(g.connects(limits, path[i - 1], path[i]));
        lemma_connects_in_range(g, limits, path[i - 1], path[i]);
    }
}

/// Whether `settled`, `d` and `entry` record areas settled in order of least distance from
/// `start`, entered at `start_point`, up to and including `end`: each settled area has its
/// distance `d` and the point `entry` it was entered at; `start` is at distance 0 from
/// `start_point`; no settled area lies farther than `end`; every other settled area was
/// reached through a permitted connection end from a settled area, at that area's distance
/// plus the travel from its entry point; and every permitted end that a settled area opens
/// onto leads to a settled area no farther than through that end, or costs at least the
/// distance of `end`.
pub open spec fn settled_in_order(
    g: AreaGraph,
    limits: ConnectivityLimits,
    start: usize,
    start_point: usize,
    end: usize,
    settled: Seq<bool>,
    d: Seq<u64>,
    entry: Seq<usize>,
) -> bool {
    let n = g.areas@.len();
    &&& settled.len() == n
    &&& d.len() == n
    &&& entry.len() == n
    &&& start < n
    &&& end < n
    &&& settled[start as int]
    &&& settled[end as int]
    &&& d[start as int] == 0
    &&& entry[start as int] == start_point
    &&& forall|u: int| 0 <= u < n && #[trigger] settled[u] ==> d[u] <= d[end as int] && entry[u] < g.cost@.len()
    &&& forall|u: int|
        0 <= u < n && #[trigger] settled[u] && u != start ==> exists|p: usize, id: usize|
            p < n && settled[p as int] && #[trigger] hop_at(g, limits, p, u as usize, id, entry[u])
                && d[u] == d[p as int] + g.cost@[entry[p as int] as int]@[entry[u] as int]
    &&& forall|u: int, k: int, j: int|
        0 <= u < n && settled[u] && 0 <= k < g.links(u).len() && 0 <= j < g.links(u)[k].endpoints@.len()
            && limits.permits(g.links(u)[k].conn_type) && (#[trigger] g.links(u)[k].endpoints@[j]).enabled
            && g.links(u)[k].endpoints@[j].area != u ==> {
            let v = g.links(u)[k].endpoints@[j].area as int;
            let c = d[u] + g.cost@[entry[u] as int]@[g.links(u)[k].endpoints@[j].point as int];
            (settled[v] && d[v] <= c) || c >= d[end as int]
        }
}

/// Whether a route and the connections it takes follow the labels: every area on it is
/// settled, and each step takes a permitted connection end into the next area at the point
/// that area was entered at, at the distance of the area before plus the travel between the
/// two entry points.
pub open spec fn follows_labels(
    g: AreaGraph,
    limits: ConnectivityLimits,
    path: Seq<usize>,
    conns: Seq<usize>,
    settled: Seq<bool>,
    d: Seq<u64>,
    entry: Seq<usize>,
) -> bool {
    &&& forall|i: int| 0 <= i < path.len() ==> #[trigger] path[i] < settled.len() && settled[path[i] as int]
    &&& forall|i: int|
        0 <= i < conns.len() ==> hop_at(g, limits, path[i], path[i + 1], #[trigger] conns[i], entry[path[i + 1] as int])
            && d[path[i + 1] as int] == d[path[i] as int] + g.cost@[entry[path[i] as int] as int]@[entry[path[i + 1] as int] as int]
}

/// Whether `path`, taking connections `conns`, is the route that settling areas in order of
/// least distance gives: some record of settled areas, distances and entry points satisfies
/// `settled_in_order` and the route follows it.
#[verifier::opaque]
pub open spec fn settled_route(
    g: AreaGraph,
    limits: ConnectivityLimits,
    start: usize,
    start_point: usize,
    end: usize,
    path: Seq<usize>,
    conns: Seq<usize>,
) -> bool {
    exists|settled: Seq<bool>, d: Seq<u64>, entry: Seq<usize>|
        #[trigger] settled_in_order(g, limits, start, start_point, end, settled, d, entry)
            && follows_labels(g, limits, path, conns, settled, d, entry)
}

/// How an unvisited area `v` was last reached: through its predecessor, at the predecessor's
/// distance plus the travel from the predecessor's entry point to `point`.
spec fn tree_step(
    g: AreaGraph,
    limits: ConnectivityLimits,
    dist: Seq<u64>,
    hops_in: Seq<usize>,
    cf: Map<usize, usize>,
    entry: Seq<usize>,
    v: usize,
    point: usize,
) -> bool {
    &&& cf.contains_key(v)
    &&& dist[v as int] == dist[cf[v] as int] + g.cost@[entry[cf[v] as int] as int]@[point as int]
    &&& hop_at(g, limits, cf[v], v, hops_in[v as int], point)
}

/// Whether a queue entry carries the way its area was last reached: the start at its point,
/// any other area through its predecessor.
spec fn current_entry(
    g: AreaGraph,
    limits: ConnectivityLimits,
    start: usize,
    start_point: usize,
    dist: Seq<u64>,
    hops_in: Seq<usize>,
    cf: Map<usize, usize>,
    entry: Seq<usize>,
    e: QueueEntry,
) -> bool {
    if e.area == start {
        e.point == start_point
    } else {
        tree_step(g, limits, dist, hops_in, cf, entry, e.area, e.point)
    }
}

/// The ordering facts of the search: visited areas lie no farther than the last one settled
/// and keep the point they were entered at; queued entries lie no nearer; every waiting area
/// has an entry at its distance, and such an entry carries how the area was reached; and the
/// ends each visited area opens onto are no farther than through it.
#[verifier::opaque]
spec fn order_inv(
    g: AreaGraph,
    limits: ConnectivityLimits,
    start: usize,
    start_point: usize,
    dist: Seq<u64>,
    visited: Seq<bool>,
    hops_in: Seq<usize>,
    cf: Map<usize, usize>,
    queue: Seq<QueueEntry>,
    entry: Seq<usize>,
    last: int,
) -> bool {
    let n = g.areas@.len();
    &&& entry.len() == n
    &&& forall|v: int|
        0 <= v < n && #[trigger] visited[v] ==> visited[start as int] && entry[v] < g.cost@.len() && dist[v] <= last
    &&& visited[start as int] ==> entry[start as int] == start_point
    &&& forall|i: int|
        0 <= i < queue.len() ==> (#[trigger] queue[i]).distance >= last && queue[i].distance >= dist[queue[i].area as int]
    &&& forall|v: int|
        0 <= v < n && !visited[v] && #[trigger] dist[v] < u64::MAX ==> exists|i: int|
            0 <= i < queue.len() && (#[trigger] queue[i]).area == v && queue[i].distance == dist[v]
    &&& forall|i: int|
        0 <= i < queue.len() && !visited[(#[trigger] queue[i]).area as int] && queue[i].distance
            == dist[queue[i].area as int] ==> current_entry(g, limits, start, start_point, dist, hops_in, cf, entry, queue[i])
    &&& forall|v: int|
        0 <= v < n && #[trigger] visited[v] && v != start ==> tree_step(g, limits, dist, hops_in, cf, entry, v as usize, entry[v])
    &&& forall|u: int, k: int, j: int|
        0 <= u < n && visited[u] && 0 <= k < g.links(u).len() && 0 <= j < g.links(u)[k].endpoints@.len()
            && limits.permits(g.links(u)[k].conn_type) && (#[trigger] g.links(u)[k].endpoints@[j]).enabled
            && g.links(u)[k].endpoints@[j].area != u ==> dist[g.links(u)[k].endpoints@[j].area as int]
            <= dist[u] + g.cost@[entry[u] as int]@[g.links(u)[k].endpoints@[j].point as int]
}

proof fn lemma_order_skip(
    g: AreaGraph,
    limits: ConnectivityLimits,
    start: usize,
    start_point: usize,
    dist: Seq<u64>,
    visited: Seq<bool>,
    hops_in: Seq<usize>,
    cf: Map<usize, usize>,
    before: Seq<QueueEntry>,
    after: Seq<QueueEntry>,
    idx: int,
    entry: Seq<usize>,
    last: int,
)
    requires
        order_inv(g, limits, start, start_point, dist, visited, hops_in, cf, before, entry, last),
        visited.len() == g.areas@.len(),
        0 <= idx < before.len(),
        after == before.remove(idx),
        before[idx].area < visited.len(),
        visited[before[idx].area as int],
    ensures
        order_inv(g, limits, start, start_point, dist, visited, hops_in, cf, after, entry, last),
{
    reveal(order_inv);
    let n = g.areas@.len();
    assert forall|i: int| 0 <= i < after.len() implies after[i] == (if i < idx {
        before[i]
    } else {
        before[i + 1]
    }) by {}
    assert forall|i: int| 0 <= i < after.len() implies (#[trigger] after[i]).distance >= last
        && after[i].distance >= dist[after[i].area as int] by {
        if i < idx {
            assert(after[i] == before[i]);
        } else {
            assert(after[i] == before[i + 1]);
        }
    }
    assert forall|v: int| 0 <= v < n && !visited[v] && #[trigger] dist[v] < u64::MAX implies exists|i: int|
        0 <= i < after.len() && (#[trigger] after[i]).area == v && after[i].distance == dist[v] by {
        let i = choose|i: int| 0 <= i < before.len() && (#[trigger] before[i]).area == v && before[i].distance == dist[v];
        assert(i != idx);
        if i < idx {
            assert(after[i] == before[i]);
        } else {
            assert(after[i - 1] == before[i]);
        }
    }
    assert forall|i: int|
        0 <= i < after.len() && !visited[(#[trigger] after[i]).area as int] && after[i].distance
            == dist[after[i].area as int] implies current_entry(g, limits, start, start_point, dist, hops_in, cf, entry, after[i]) by {
        if i < idx {
            assert(after[i] == before[i]);
        } else {
            assert(after[i] == before[i + 1]);
        }
    }
}

/// The entry taken off the queue for an unvisited area is one at the area's distance, no
/// nearer than the last area settled, and carries how the area was reached.
proof fn lemma_order_pop(
    g: AreaGraph,
    limits: ConnectivityLimits,
    start: usize,
    start_point: usize,
    dist: Seq<u64>,
    visited: Seq<bool>,
    hops_in: Seq<usize>,
    cf: Map<usize, usize>,
    queue: Seq<QueueEntry>,
    idx: int,
    entry: Seq<usize>,
    last: int,
)
    requires
        order_inv(g, limits, start, start_point, dist, visited, hops_in, cf, queue, entry, last),
        visited.len() == g.areas@.len(),
        dist.len() == g.areas@.len(),
        0 <= idx < queue.len(),
        queue[idx].area < g.areas@.len(),
        !visited[queue[idx].area as int],
        queue[idx].distance < u64::MAX,
        forall|i: int| 0 <= i < queue.len() ==> queue[idx].distance <= (#[trigger] queue[i]).distance,
    ensures
        queue[idx].distance == dist[queue[idx].area as int],
        queue[idx].distance >= last,
        current_entry(g, limits, start, start_point, dist, hops_in, cf, entry, queue[idx]),
{
    reveal(order_inv);
    let u = queue[idx].area as int;
    assert(queue[idx].distance >= dist[u]);
    let i = choose|i: int| 0 <= i < queue.len() && (#[trigger] queue[i]).area == u && queue[i].distance == dist[u];
    assert(queue[idx].distance <= queue[i].distance);
}

/// Settling area `u` from the entry taken off the queue and relaxing its connections keeps the
/// ordering facts, with `u` entered at the entry's point and its distance the last settled.
proof fn lemma_order_relax(
    g: AreaGraph,
    limits: ConnectivityLimits,
    start: usize,
    start_point: usize,
    d0: Seq<u64>,
    vis0: Seq<bool>,
    v0: Seq<usize>,
    c0: Map<usize, usize>,
    qb: Seq<QueueEntry>,
    idx: int,
    entry0: Seq<usize>,
    last0: int,
    top: nat,
    dist: Seq<u64>,
    hops_in: Seq<usize>,
    cf: Map<usize, usize>,
    queue: Seq<QueueEntry>,
)
    requires
        g.well_formed(),
        order_inv(g, limits, start, start_point, d0, vis0, v0, c0, qb, entry0, last0),
        vis0.len() == g.areas@.len(),
        d0.len() == g.areas@.len(),
        v0.len() == g.areas@.len(),
        start < g.areas@.len(),
        d0[start as int] == 0,
        forall|v: usize| #[trigger]
            c0.contains_key(v) ==> v < g.areas@.len() && c0[v] < g.areas@.len() && vis0[c0[v] as int],
        0 <= idx < qb.len(),
        forall|i: int| 0 <= i < qb.len() ==> (#[trigger] qb[i]).area < g.areas@.len() && qb[i].point < g.cost@.len(),
        !vis0[qb[idx].area as int],
        qb[idx].distance == d0[qb[idx].area as int],
        qb[idx].distance >= last0,
        current_entry(g, limits, start, start_point, d0, v0, c0, entry0, qb[idx]),
        forall|i: int| 0 <= i < qb.len() ==> qb[idx].distance <= (#[trigger] qb[i]).distance,
        relaxed(
            g,
            limits,
            qb[idx].area,
            qb[idx].distance as int,
            qb[idx].point,
            top,
            vis0.update(qb[idx].area as int, true),
            d0,
            v0,
            c0,
            qb.remove(idx),
            dist,
            hops_in,
            cf,
            queue,
        ),
        ends_bounded(
            g,
            limits,
            qb[idx].area,
            g.links(qb[idx].area as int).len() as int,
            0,
            vis0.update(qb[idx].area as int, true),
            dist,
            qb[idx].distance as int,
            qb[idx].point,
        ),
    ensures
        order_inv(
            g,
            limits,
            start,
            start_point,
            dist,
            vis0.update(qb[idx].area as int, true),
            hops_in,
            cf,
            queue,
            entry0.update(qb[idx].area as int, qb[idx].point),
            qb[idx].distance as int,
        ),
{
    reveal(order_inv);
    let n = g.areas@.len();
    let e = qb[idx];
    let u = e.area;
    let vis1 = vis0.update(u as int, true);
    let entry1 = entry0.update(u as int, e.point);
    let last1 = e.distance as int;
    let q0 = qb.remove(idx);
    assert forall|i: int| 0 <= i < q0.len() implies q0[i] == (if i < idx {
        qb[i]
    } else {
        qb[i + 1]
    }) by {}
    assert forall|i: int| 0 <= i < q0.len() implies queue[i] == q0[i] by {
        assert(queue.subrange(0, q0.len() as int)[i] == q0[i]);
    }
    // visited distances do not change
    assert forall|x: int| 0 <= x < n && vis1[x] implies dist[x] == d0[x] by {
        assert(dist[x] <= d0[x]);
    }
    assert(dist[u as int] == e.distance);
    // visited areas
    assert forall|v: int| 0 <= v < n && #[trigger] vis1[v] implies vis1[start as int] && entry1[v] < g.cost@.len()
        && dist[v] <= last1 by {
        if v == u {
            if u != start {
                assert(c0.contains_key(u));
                assert(vis0[c0[u] as int]);
            }
        } else {
            assert(vis0[v]);
        }
    }
    // queue
    assert forall|i: int| 0 <= i < queue.len() implies (#[trigger] queue[i]).distance >= last1
        && queue[i].distance >= dist[queue[i].area as int] by {
        if i < q0.len() {
            assert(queue[i] == q0[i]);
            let j = if i < idx { i } else { i + 1 };
            assert(q0[i] == qb[j]);
            assert(qb[idx].distance <= qb[j].distance);
            assert(dist[qb[j].area as int] <= d0[qb[j].area as int]);
        }
    }
    // waiting areas
    assert forall|v: int| 0 <= v < n && !vis1[v] && #[trigger] dist[v] < u64::MAX implies exists|i: int|
        0 <= i < queue.len() && (#[trigger] queue[i]).area == v && queue[i].distance == dist[v] by {
        assert(dist[v] <= d0[v]);
        if dist[v] < d0[v] {
        } else {
            assert(v != u);
            let i = choose|i: int| 0 <= i < qb.len() && (#[trigger] qb[i]).area == v && qb[i].distance == d0[v];
            assert(i != idx);
            let i2 = if i < idx { i } else { i - 1 };
            assert(q0[i2] == qb[i]);
            assert(queue[i2] == q0[i2]);
        }
    }
    // current entries
    assert forall|i: int|
        0 <= i < queue.len() && !vis1[(#[trigger] queue[i]).area as int] && queue[i].distance
            == dist[queue[i].area as int] implies current_entry(g, limits, start, start_point, dist, hops_in, cf, entry1, queue[i]) by {
        let x = queue[i].area;
        if i < q0.len() {
            assert(queue[i] == q0[i]);
            let j = if i < idx { i } else { i + 1 };
            assert(q0[i] == qb[j]);
            assert(dist[x as int] <= d0[x as int]);
            assert(dist[x as int] == d0[x as int]);
            assert(!vis0[x as int]);
            assert(current_entry(g, limits, start, start_point, d0, v0, c0, entry0, qb[j]));
            if x != start {
                let p = c0[x];
                assert(vis0[p as int]);
                assert(p != u);
                assert(dist[p as int] == d0[p as int]);
            }
        } else {
            assert(dist[x as int] < d0[x as int]);
            assert(x != start);
            assert(cf[x] == u);
        }
    }
    // visited areas keep the way they were reached
    assert forall|v: int| 0 <= v < n && #[trigger] vis1[v] && v != start implies tree_step(
        g,
        limits,
        dist,
        hops_in,
        cf,
        entry1,
        v as usize,
        entry1[v],
    ) by {
        if v == u {
            assert(tree_step(g, limits, d0, v0, c0, entry0, u, e.point));
        } else {
            assert(vis0[v]);
            assert(tree_step(g, limits, d0, v0, c0, entry0, v as usize, entry0[v]));
        }
        let p = c0[v as usize];
        assert(vis0[p as int]);
        assert(p != u);
        assert(dist[p as int] == d0[p as int]);
        assert(dist[v] == d0[v]);
    }
    // ends of visited areas
    assert forall|w: int, k: int, j: int|
        0 <= w < n && vis1[w] && 0 <= k < g.links(w).len() && 0 <= j < g.links(w)[k].endpoints@.len()
            && limits.permits(g.links(w)[k].conn_type) && (#[trigger] g.links(w)[k].endpoints@[j]).enabled
            && g.links(w)[k].endpoints@[j].area != w implies dist[g.links(w)[k].endpoints@[j].area as int]
        <= dist[w] + g.cost@[entry1[w] as int]@[g.links(w)[k].endpoints@[j].point as int] by {
        let ep = g.links(w)[k].endpoints@[j];
        assert(ep.area < n && ep.point < g.cost@.len());
        assert(dist[ep.area as int] <= d0[ep.area as int]);
        if w == u {
            if vis1[ep.area as int] {
                assert(vis0[ep.area as int]);
            }
        } else {
            assert(vis0[w]);
        }
    }
}

/// When the end is taken off the queue, the areas visited, their distances and entry points
/// record a settling in order of distance.
proof fn lemma_end_in_order(
    g: AreaGraph,
    limits: ConnectivityLimits,
    start: usize,
    start_point: usize,
    end: usize,
    d0: Seq<u64>,
    vis0: Seq<bool>,
    v0: Seq<usize>,
    c0: Map<usize, usize>,
    qb: Seq<QueueEntry>,
    idx: int,
    entry0: Seq<usize>,
    last0: int,
    path: Seq<usize>,
    hops: Seq<usize>,
)
    requires
        g.well_formed(),
        order_inv(g, limits, start, start_point, d0, vis0, v0, c0, qb, entry0, last0),
        vis0.len() == g.areas@.len(),
        d0.len() == g.areas@.len(),
        v0.len() == g.areas@.len(),
        g.areas@.len() <= usize::MAX,
        start < g.areas@.len(),
        end < g.areas@.len(),
        d0[start as int] == 0,
        forall|v: usize| #[trigger]
            c0.contains_key(v) ==> v < g.areas@.len() && c0[v] < g.areas@.len() && v != start && vis0[c0[v] as int],
        0 <= idx < qb.len(),
        qb[idx].area == end,
        qb[idx].point < g.cost@.len(),
        !vis0[end as int],
        qb[idx].distance == d0[end as int],
        qb[idx].distance < u64::MAX,
        qb[idx].distance >= last0,
        current_entry(g, limits, start, start_point, d0, v0, c0, entry0, qb[idx]),
        forall|i: int| 0 <= i < qb.len() ==> qb[idx].distance <= (#[trigger] qb[i]).distance,
        is_predecessor_chain(c0, path, end),
        path.no_duplicates(),
        forall|i: int| 0 <= i < path.len() ==> #[trigger] path[i] < g.areas@.len() && vis0.update(end as int, true)[path[i] as int],
        hops.len() + 1 == path.len(),
        forall|i: int| 0 <= i < hops.len() ==> #[trigger] hops[i] == v0[path[i + 1] as int],
    ensures
        settled_in_order(g, limits, start, start_point, end, vis0.update(end as int, true), d0, entry0.update(end as int, qb[idx].point)),
{
    reveal(order_inv);
    let n = g.areas@.len();
    let e = qb[idx];
    let vis1 = vis0.update(end as int, true);
    let entry1 = entry0.update(end as int, e.point);
    if end != start {
        assert(c0.contains_key(end));
        assert(vis0[c0[end] as int]);
    }
    assert(vis1[start as int]);
    assert(entry1[start as int] == start_point);
    assert forall|u: int| 0 <= u < n && #[trigger] vis1[u] implies d0[u] <= d0[end as int] && entry1[u] < g.cost@.len() by {
        if u != end {
            assert(vis0[u]);
        }
    }
    assert forall|u: int| 0 <= u < n && #[trigger] vis1[u] && u != start implies exists|p: usize, id: usize|
        p < n && vis1[p as int] && #[trigger] hop_at(g, limits, p, u as usize, id, entry1[u])
            && d0[u] == d0[p as int] + g.cost@[entry1[p as int] as int]@[entry1[u] as int] by {
        let uu = u as usize;
        if uu == end {
            assert(current_entry(g, limits, start, start_point, d0, v0, c0, entry0, e));
            assert(tree_step(g, limits, d0, v0, c0, entry0, end, e.point));
            assert(entry1[u] == e.point);
        } else {
            assert(vis0[u]);
            assert(tree_step(g, limits, d0, v0, c0, entry0, uu, entry0[u]));
            assert(entry1[u] == entry0[u]);
        }
        assert(tree_step(g, limits, d0, v0, c0, entry0, uu, entry1[u]));
        let p = c0[uu];
        assert(vis0[p as int]);
        assert(p != end);
        assert(entry1[p as int] == entry0[p as int]);
        assert(hop_at(g, limits, p, uu, v0[u], entry1[u]));
        assert(d0[u] == d0[p as int] + g.cost@[entry1[p as int] as int]@[entry1[u] as int]);
    }
    assert forall|u: int, k: int, j: int|
        0 <= u < n && vis1[u] && 0 <= k < g.links(u).len() && 0 <= j < g.links(u)[k].endpoints@.len()
            && limits.permits(g.links(u)[k].conn_type) && (#[trigger] g.links(u)[k].endpoints@[j]).enabled
            && g.links(u)[k].endpoints@[j].area != u implies {
        let v = g.links(u)[k].endpoints@[j].area as int;
        let c = d0[u] + g.cost@[entry1[u] as int]@[g.links(u)[k].endpoints@[j].point as int];
        (vis1[v] && d0[v] <= c) || c >= d0[end as int]
    } by {
        let ep = g.links(u)[k].endpoints@[j];
        let v = ep.area as int;
        assert(ep.area < n && ep.point < g.cost@.len());
        if u != end {
            assert(vis0[u]);
            assert(d0[v] <= d0[u] + g.cost@[entry0[u] as int]@[ep.point as int]);
            if !vis1[v] && d0[v] < u64::MAX {
                let i = choose|i: int| 0 <= i < qb.len() && (#[trigger] qb[i]).area == v && qb[i].distance == d0[v];
                assert(qb[idx].distance <= qb[i].distance);
            }
        }
    }
}

/// When the end is taken off the queue, the route back along the predecessors follows the
/// distances and entry points of the areas visited.
proof fn lemma_end_follows(
    g: AreaGraph,
    limits: ConnectivityLimits,
    start: usize,
    start_point: usize,
    end: usize,
    d0: Seq<u64>,
    vis0: Seq<bool>,
    v0: Seq<usize>,
    c0: Map<usize, usize>,
    qb: Seq<QueueEntry>,
    idx: int,
    entry0: Seq<usize>,
    last0: int,
    path: Seq<usize>,
    hops: Seq<usize>,
)
    requires
        g.well_formed(),
        order_inv(g, limits, start, start_point, d0, vis0, v0, c0, qb, entry0, last0),
        vis0.len() == g.areas@.len(),
        d0.len() == g.areas@.len(),
        v0.len() == g.areas@.len(),
        g.areas@.len() <= usize::MAX,
        start < g.areas@.len(),
        end < g.areas@.len(),
        d0[start as int] == 0,
        forall|v: usize| #[trigger]
            c0.contains_key(v) ==> v < g.areas@.len() && c0[v] < g.areas@.len() && v != start && vis0[c0[v] as int],
        0 <= idx < qb.len(),
        qb[idx].area == end,
        qb[idx].point < g.cost@.len(),
        !vis0[end as int],
        qb[idx].distance == d0[end as int],
        qb[idx].distance < u64::MAX,
        qb[idx].distance >= last0,
        current_entry(g, limits, start, start_point, d0, v0, c0, entry0, qb[idx]),
        forall|i: int| 0 <= i < qb.len() ==> qb[idx].distance <= (#[trigger] qb[i]).distance,
        is_predecessor_chain(c0, path, end),
        path.no_duplicates(),
        forall|i: int| 0 <= i < path.len() ==> #[trigger] path[i] < g.areas@.len() && vis0.update(end as int, true)[path[i] as int],
        hops.len() + 1 == path.len(),
        forall|i: int| 0 <= i < hops.len() ==> #[trigger] hops[i] == v0[path[i + 1] as int],
    ensures
        follows_labels(g, limits, path, hops, vis0.update(end as int, true), d0, entry0.update(end as int, qb[idx].point)),
{
    reveal(order_inv);
    let n = g.areas@.len();
    let e = qb[idx];
    let vis1 = vis0.update(end as int, true);
    let entry1 = entry0.update(end as int, e.point);
    assert forall|i: int| 0 <= i < hops.len() implies hop_at(g, limits, path[i], path[i + 1], #[trigger] hops[i], entry1[path[i + 1] as int])
        && d0[path[i + 1] as int] == d0[path[i] as int] + g.cost@[entry1[path[i] as int] as int]@[entry1[path[i + 1] as int] as int] by {
        let x = path[i + 1];
        assert(c0.contains_key(x) && c0[x] == path[i]);
        assert(path[i] != end) by {
            assert(path[path.len() - 1] == end);
            assert(i != path.len() - 1);
        }
        if x == end {
            assert(tree_step(g, limits, d0, v0, c0, entry0, end, e.point));
        } else {
            assert(vis1[x as int]);
            assert(vis0[x as int]);
            assert(tree_step(g, limits, d0, v0, c0, entry0, x, entry0[x as int]));
        }
    }
}


/// When the end is taken off the queue, the route back along the predecessors, with the
/// connections they came through, is the route of areas settled in order of distance.
proof fn lemma_order_end(
    g: AreaGraph,
    limits: ConnectivityLimits,
    start: usize,
    start_point: usize,
    end: usize,
    d0: Seq<u64>,
    vis0: Seq<bool>,
    v0: Seq<usize>,
    c0: Map<usize, usize>,
    qb: Seq<QueueEntry>,
    idx: int,
    entry0: Seq<usize>,
    last0: int,
    path: Seq<usize>,
    hops: Seq<usize>,
)
    requires
        g.well_formed(),
        order_inv(g, limits, start, start_point, d0, vis0, v0, c0, qb, entry0, last0),
        vis0.len() == g.areas@.len(),
        d0.len() == g.areas@.len(),
        v0.len() == g.areas@.len(),
        g.areas@.len() <= usize::MAX,
        start < g.areas@.len(),
        end < g.areas@.len(),
        d0[start as int] == 0,
        forall|v: usize| #[trigger]
            c0.contains_key(v) ==> v < g.areas@.len() && c0[v] < g.areas@.len() && v != start && vis0[c0[v] as int],
        0 <= idx < qb.len(),
        qb[idx].area == end,
        qb[idx].point < g.cost@.len(),
        !vis0[end as int],
        qb[idx].distance == d0[end as int],
        qb[idx].distance < u64::MAX,
        qb[idx].distance >= last0,
        current_entry(g, limits, start, start_point, d0, v0, c0, entry0, qb[idx]),
        forall|i: int| 0 <= i < qb.len() ==> qb[idx].distance <= (#[trigger] qb[i]).distance,
        is_predecessor_chain(c0, path, end),
        path.no_duplicates(),
        forall|i: int| 0 <= i < path.len() ==> #[trigger] path[i] < g.areas@.len() && vis0.update(end as int, true)[path[i] as int],
        hops.len() + 1 == path.len(),
        forall|i: int| 0 <= i < hops.len() ==> #[trigger] hops[i] == v0[path[i + 1] as int],
    ensures
        settled_route(g, limits, start, start_point, end, path, hops),
{
    reveal(settled_route);
    lemma_end_in_order(g, limits, start, start_point, end, d0, vis0, v0, c0, qb, idx, entry0, last0, path, hops);
    lemma_end_follows(g, limits, start, start_point, end, d0, vis0, v0, c0, qb, idx, entry0, last0, path, hops);
}

/// Searches for a way from area `start`, entered at point `start_point`, to area `end`,
/// settling areas in order of least distance as Dijkstra's algorithm does: each connection end
/// that may be taken costs the travel from the point where its area was entered to the end's
/// point, and an area keeps the distance and entry point it is first settled with. Gives the
/// route that this settling leads to (`settled_route`): the areas passed through, none twice,
/// and the connection taken out of each; gives `None` exactly when no sequence of permitted
/// connections leads from `start` to `end`.
pub fn search_areas(
    g: &AreaGraph,
    start: usize,
    start_point: usize,
    end: usize,
    limits: ConnectivityLimits,
) -> (r: Option<AreaRoute>)
    requires
        g.well_formed(),
        start < g.areas@.len(),
        end < g.areas@.len(),
        start_point < g.cost@.len(),
    ensures
        match r {
            Some(route) => is_route(*g, limits, route.areas@, start, end) && is_hop_sequence(
                *g,
                limits,
                route.areas@,
                route.connections@,
            ) && route.areas@.no_duplicates() && settled_route(
                *g,
                limits,
                start,
                start_point,
                end,
                route.areas@,
                route.connections@,
            ),
            None => forall|path: Seq<usize>| !is_route(*g, limits, path, start, end),
        },
{
    let n = g.areas.len();
    let mut dist: Vec<u64> = Vec::new();
    let mut visited: Vec<bool> = Vec::new();
    let mut hops_in: Vec<usize> = Vec::new();
    let mut m: usize = 0;
    while m < n
        invariant
            n == g.areas@.len(),
            m <= n,
            dist@.len() == m,
            visited@.len() == m,
            hops_in@.len() == m,
            forall|x: int| 0 <= x < m ==> #[trigger] dist@[x] == u64::MAX,
            forall|x: int| 0 <= x < m ==> !#[trigger] visited@[x],
        decreases n - m,
    {
        dist.push(u64::MAX);
        visited.push(false);
        hops_in.push(0);
        m = m + 1;
    }
    dist.set(start, 0);
    let mut cf: BTreeMap<usize, usize> = BTreeMap::new();
    let mut queue: Vec<QueueEntry> = Vec::new();
    queue.push(QueueEntry { area: start, distance: 0, point: start_point });
    let ghost mut entered: Seq<usize> = Seq::new(n as nat, |i: int| 0usize);
    let ghost mut last: int = 0;
    proof {
        assert(queue@[0] == QueueEntry { area: start, distance: 0, point: start_point });
        assert forall|v: int| 0 <= v < n && !visited@[v] && #[trigger] dist@[v] < u64::MAX implies exists|i: int|
            0 <= i < queue@.len() && (#[trigger] queue@[i]).area == v && queue@[i].distance == dist@[v] by {
            assert(v == start);
        }
        assert(order_inv(*g, limits, start, start_point, dist@, visited@, hops_in@, cf@, queue@, entered, last)) by {
            reveal(order_inv);
        }
        lemma_count_false_bound(visited@);
        lemma_budget_monotone(0, (n - count_false(visited@)) as nat, cost_limit(n as nat));
        assert(queue@[0].area == start);
        assert forall|v: int| 0 <= v < n && !visited@[v] && #[trigger] dist@[v] < u64::MAX implies exists|i: int|
            0 <= i < queue@.len() && (#[trigger] queue@[i]).area == v by {
            assert(v == start);
        }
        assert forall|u: usize, v: usize|
            u < n && visited@[u as int] && #[trigger] g.connects(limits, u, v) implies visited@[v as int]
                || dist@[v as int] < u64::MAX by {
        }
    }
    while queue.len() > 0
        invariant
            g.well_formed(),
            n == g.areas@.len(),
            start_point < g.cost@.len(),
            search_inv(*g, limits, start, end, dist@, visited@, hops_in@, cf@, queue@),
            order_inv(*g, limits, start, start_point, dist@, visited@, hops_in@, cf@, queue@, entered, last),
        decreases count_false(visited@), queue@.len(),
    {
        let ghost q_before = queue@;
        let (entry, Ghost(idx)) = pop_nearest(&mut queue);
        let u = entry.area;
        if visited[u] {
            proof {
                assert forall|v: int|
                    0 <= v < n && !visited@[v] && #[trigger] dist@[v] < u64::MAX implies exists|i: int|
                    0 <= i < queue@.len() && (#[trigger] queue@[i]).area == v by {
                    let i = choose|i: int| 0 <= i < q_before.len() && (#[trigger] q_before[i]).area == v;
                    if i < idx {
                        assert(queue@[i] == q_before[i]);
                    } else {
                        assert(i != idx);
                        assert(queue@[i - 1] == q_before[i]);
                    }
                }
                assert forall|i: int| 0 <= i < queue@.len() implies (#[trigger] queue@[i]).area < n
                    && queue@[i].point < g.cost@.len() && queue@[i].distance <= (n - count_false(visited@)) * cost_limit(n as nat)
                    && (queue@[i].area == start || cf@.contains_key(queue@[i].area)) by {
                    if i < idx {
                        assert(queue@[i] == q_before[i]);
                    } else {
                        assert(queue@[i] == q_before[i + 1]);
                    }
                }
                lemma_order_skip(
                    *g,
                    limits,
                    start,
                    start_point,
                    dist@,
                    visited@,
                    hops_in@,
                    cf@,
                    q_before,
                    queue@,
                    idx,
                    entered,
                    last,
                );
            }
            continue;
        }
        let ghost vis0 = visited@;
        let ghost d0 = dist@;
        let ghost c0 = cf@;
        let ghost v0 = hops_in@;
        let ghost q0 = queue@;
        let ghost l = cost_limit(n as nat);
        let ghost k = (n - count_false(vis0)) as nat;
        proof {
            assert(q_before[idx] == entry);
            lemma_count_false_positive(vis0, u as int);
            lemma_count_false_bound(vis0);
            lemma_count_false_set(vis0, u as int);
            lemma_budget(k, n as nat, l);
            lemma_budget_monotone(k, n as nat, l);
            lemma_order_pop(*g, limits, start, start_point, dist@, visited@, hops_in@, cf@, q_before, idx, entered, last);
        }
        let ghost e0 = entered;
        let ghost l0 = last;
        visited.set(u, true);
        proof {
            // the newly settled area reaches the start through its predecessors
            if u != start {
                assert(c0.contains_key(u));
                let p = c0[u];
                assert(vis0[p as int]);
                let kp = choose|kp: nat| #[trigger] reaches_start(c0, p, kp);
                assert(reaches_start(c0, u, kp + 1));
            } else {
                assert(!c0.contains_key(start));
                assert(reaches_start(c0, u, 0));
            }
            assert(exists|kk: nat| #[trigger] reaches_start(c0, u, kk));
        }
        if u == end {
            let path = reconstruct_path(&cf, end);
            proof {
                assert forall|x: usize|
                    #[trigger] cf@.contains_key(x) && x < visited@.len() && visited@[x as int] implies cf@[x]
                        < visited@.len() && visited@[cf@[x] as int] by {
                }
                lemma_chain_visited(cf@, path@, end, visited@, 0);
                assert(path@[0] == start);
                assert forall|i: int| 0 <= i < path@.len() - 1 implies g.connects(limits, #[trigger] path@[i], path@[i + 1]) by {
                    lemma_chain_visited(cf@, path@, end, visited@, i + 1);
                    assert(cf@.contains_key(path@[i + 1]));
                    assert(g.connects_via(limits, path@[i], path@[i + 1], hops_in@[path@[i + 1] as int]));
                }
            }
            let mut hops: Vec<usize> = Vec::new();
            let mut i: usize = 1;
            while i < path.len()
                invariant
                    1 <= i <= path@.len(),
                    hops@.len() == i - 1,
                    is_predecessor_chain(cf@, path@, end),
                    hops_in@.len() == n,
                    forall|x: usize| #[trigger] cf@.contains_key(x) ==> x < n,
                    forall|j: int| 0 <= j < hops@.len() ==> #[trigger] hops@[j] == hops_in@[path@[j + 1] as int],
                decreases path@.len() - i,
            {
                assert(cf@.contains_key(path@[(i as int - 1) + 1]));
                hops.push(hops_in[path[i]]);
                i = i + 1;
            }
            proof {
                assert forall|j: int| 0 <= j < hops@.len() implies g.connects_via(limits, #[trigger] path@[j], path@[j + 1], hops@[j]) by {
                    assert(cf@.contains_key(path@[j + 1]));
                }
                assert forall|j: int| 0 <= j < path@.len() implies #[trigger] path@[j] < n
                    && vis0.update(end as int, true)[path@[j] as int] by {
                    lemma_chain_visited(cf@, path@, end, visited@, j);
                }
                lemma_order_end(
                    *g,
                    limits,
                    start,
                    start_point,
                    end,
                    d0,
                    vis0,
                    v0,
                    c0,
                    q_before,
                    idx,
                    e0,
                    l0,
                    path@,
                    hops@,
                );
            }
            return Some(AreaRoute { areas: path, connections: hops });
        }
        relax_area(g, limits, u, entry.point, entry.distance, &visited, &mut dist, &mut hops_in, &mut cf, &mut queue);
        proof {
            lemma_order_relax(
                *g,
                limits,
                start,
                start_point,
                d0,
                vis0,
                v0,
                c0,
                q_before,
                idx,
                e0,
                l0,
                (entry.distance + l) as nat,
                dist@,
                hops_in@,
                cf@,
                queue@,
            );
            entered = e0.update(u as int, entry.point);
            last = entry.distance as int;
        }
        proof {
            let vis1 = visited@;
            assert(vis1 == vis0.update(u as int, true));
            assert(count_false(vis1) + 1 == count_false(vis0));
            let bound1 = (n - count_false(vis1)) * l;
            assert(bound1 == (k + 1) * l);
            lemma_budget_monotone(k, k + 1, l);
            // queue entries
            assert forall|i: int| 0 <= i < queue@.len() implies (#[trigger] queue@[i]).area < n
                && queue@[i].point < g.cost@.len() && queue@[i].distance <= bound1
                && (queue@[i].area == start || cf@.contains_key(queue@[i].area)) by {
                if i < q0.len() {
                    assert(queue@[i] == queue@.subrange(0, q0.len() as int)[i]);
                    assert(queue@[i] == q0[i]);
                    let ii = if i < idx { i } else { i + 1 };
                    assert(q0[i] == q_before[ii]);
                    let x = queue@[i].area;
                    if x != start {
                        assert(c0.contains_key(x));
                        if dist@[x as int] == d0[x as int] {
                        } else {
                            assert(dist@[x as int] < d0[x as int]);
                        }
                    }
                }
            }
            // waiting areas are queued
            assert forall|v: int| 0 <= v < n && !vis1[v] && #[trigger] dist@[v] < u64::MAX implies exists|i: int|
                0 <= i < queue@.len() && (#[trigger] queue@[i]).area == v by {
                if dist@[v] < d0[v] {
                } else {
                    assert(v != u);
                    assert(!vis0[v]);
                    let i = choose|i: int| 0 <= i < q_before.len() && (#[trigger] q_before[i]).area == v;
                    assert(i != idx);
                    let i2 = if i < idx { i } else { i - 1 };
                    assert(q0[i2] == q_before[i]);
                    assert(queue@.subrange(0, q0.len() as int)[i2] == q0[i2]);
                    assert(queue@[i2].area == v);
                }
            }
            // closure under connections
            assert forall|a: usize, b: usize|
                a < n && vis1[a as int] && #[trigger] g.connects(limits, a, b) implies vis1[b as int]
                    || dist@[b as int] < u64::MAX by {
                if a != u {
                    assert(vis0[a as int]);
                    lemma_connects_in_range(*g, limits, a, b);
                    if !vis0[b as int] {
                        assert(d0[b as int] < u64::MAX);
                        assert(dist@[b as int] <= d0[b as int]);
                    }
                }
            }
            // predecessors
            assert forall|v: usize| #[trigger] cf@.contains_key(v) implies v < n && cf@[v] < n && v != start
                && vis1[cf@[v] as int] && g.connects_via(limits, cf@[v], v, hops_in@[v as int]) by {
                if c0.contains_key(v) && dist@[v as int] == d0[v as int] {
                } else {
                    assert(v < n && dist@[v as int] < d0[v as int]);
                }
            }
            assert forall|v: int| 0 <= v < n && #[trigger] vis1[v] implies v == start || cf@.contains_key(v as usize) by {
                if v != start {
                    if v == u {
                        assert(c0.contains_key(u));
                    } else {
                        assert(vis0[v]);
                    }
                    assert(c0.contains_key(v as usize));
                    assert(dist@[v] <= d0[v]);
                    if dist@[v] < d0[v] {
                        assert(!vis1[v]);
                    }
                }
            }
            assert forall|x: usize|
                x < vis1.len() && vis1[x as int] implies (#[trigger] cf@.contains_key(x) == c0.contains_key(x))
                    && (c0.contains_key(x) ==> cf@[x] == c0[x]) by {
                assert(dist@[x as int] <= d0[x as int]);
                if dist@[x as int] < d0[x as int] {
                    assert(!vis1[x as int]);
                }
            }
            assert forall|x: usize|
                #[trigger] c0.contains_key(x) && x < vis1.len() && vis1[x as int] implies c0[x] < vis1.len()
                    && vis1[c0[x] as int] by {
            }
            assert forall|v: int| 0 <= v < n && #[trigger] vis1[v] implies exists|kk: nat| #[trigger] reaches_start(cf@, v as usize, kk) by {
                let kk = choose|kk: nat| #[trigger] reaches_start(c0, v as usize, kk);
                lemma_reaches_stable(c0, cf@, vis1, v as usize, kk);
            }
        }
    }
    proof {
        assert(visited@[start as int]) by {
            if !visited@[start as int] {
                assert(dist@[start as int] < u64::MAX);
            }
        }
        assert forall|a: usize, b: usize|
            a < visited@.len() && visited@[a as int] && #[trigger] g.connects(limits, a, b) implies visited@[b as int] by {
            lemma_connects_in_range(*g, limits, a, b);
            if !visited@[b as int] {
                assert(dist@[b as int] < u64::MAX);
            }
        }
        assert forall|path: Seq<usize>| !is_route(*g, limits, path, start, end) by {
            if is_route(*g, limits, path, start, end) {
                lemma_route_visited(*g, limits, path, start, end, visited@, path.len() - 1);
            }
        }
    }
    None
}

/// Taking a connection out of an area: which connection, into which area, and its kind.
#[derive(Debug, Clone, Copy, PartialEq, Eq, Structural)]
pub struct Transport {
    pub connection: usize,
    pub next_area: usize,
    pub conn_type: ConnectionType,
}

/// One leg of a route, walked inside a single area: from a point to a connection's point
/// (then through the connection) or, on the last leg, to the destination.
#[derive(Debug, Clone, Copy, PartialEq, Eq, Structural)]
pub struct Leg {
    pub area: usize,
    pub from_point: usize,
    /// `None` on the last leg, which ends at the destination.
    pub to_point: Option<usize>,
    pub transport: Option<Transport>,
}

/// The legs of a route in order; when the connection data cannot be followed, the legs up to
/// that point and the error that ends the route.
#[derive(Debug, Clone)]
pub struct RoutePlan {
    pub legs: Vec<Leg>,
    pub failure: Option<InterPathError>,
}

/// The position of the first connection with identity `id` at or after `k`.
pub open spec fn first_link_from(links: Seq<AreaLink>, id: usize, k: int) -> Option<int>
    decreases links.len() - k,
{
    if k < 0 || k >= links.len() {
        None
    } else if links[k].id == id {
        Some(k)
    } else {
        first_link_from(links, id, k + 1)
    }
}

/// The position of the first end opening into `area` at or after `j`.
pub open spec fn first_end_from(ends: Seq<Endpoint>, area: usize, j: int) -> Option<int>
    decreases ends.len() - j,
{
    if j < 0 || j >= ends.len() {
        None
    } else if ends[j].area == area {
        Some(j)
    } else {
        first_end_from(ends, area, j + 1)
    }
}

/// The legs of the route `path` (taking `conns[i]` out of `path[i]`) from step `i` on, the
/// walk starting at point `cur`, and whether the connection data broke off the route. A step
/// takes the first connection its area lists under the recorded identity, walks to that
/// connection's first end in the area, and enters the next area at the connection's first
/// end there; a missing connection or end breaks the route off.
pub open spec fn planned_legs(
    g: AreaGraph,
    path: Seq<usize>,
    conns: Seq<usize>,
    i: int,
    cur: usize,
) -> (Seq<Leg>, bool)
    decreases path.len() - i,
{
    if i < 0 || i >= path.len() {
        (Seq::empty(), false)
    } else if i == path.len() - 1 {
        (seq![Leg { area: path[i], from_point: cur, to_point: None, transport: None }], false)
    } else {
        match first_link_from(g.links(path[i] as int), conns[i], 0) {
            None => (Seq::empty(), true),
            Some(k) => {
                let l = g.links(path[i] as int)[k];
                match first_end_from(l.endpoints@, path[i], 0) {
                    None => (Seq::empty(), true),
                    Some(j) => {
                        let leg = Leg {
                            area: path[i],
                            from_point: cur,
                            to_point: Some(l.endpoints@[j].point),
                            transport: Some(
                                Transport {
                                    connection: conns[i],
                                    next_area: path[i + 1],
                                    conn_type: l.conn_type,
                                },
                            ),
                        };
                        match first_end_from(l.endpoints@, path[i + 1], 0) {
                            None => (seq![leg], true),
                            Some(j2) => {
                                let rest = planned_legs(
                                    g,
                                    path,
                                    conns,
                                    i + 1,
                                    l.endpoints@[j2].point,
                                );
                                (seq![leg] + rest.0, rest.1)
                            },
                        }
                    },
                }
            },
        }
    }
}

proof fn lemma_first_link(links: Seq<AreaLink>, id: usize, k0: int)
    requires
        0 <= k0,
    ensures
        first_link_from(links, id, k0) matches Some(k) ==> k0 <= k < links.len() && links[k].id == id,
    decreases links.len() - k0,
{
    if k0 < links.len() && links[k0].id != id {
        lemma_first_link(links, id, k0 + 1);
    }
}

proof fn lemma_first_end(ends: Seq<Endpoint>, area: usize, j0: int)
    requires
        0 <= j0,
    ensures
        first_end_from(ends, area, j0) matches Some(j) ==> j0 <= j < ends.len() && ends[j].area == area,
    decreases ends.len() - j0,
{
    if j0 < ends.len() && ends[j0].area != area {
        lemma_first_end(ends, area, j0 + 1);
    }
}

fn find_link(links: &Vec<AreaLink>, id: usize) -> (r: Option<usize>)
    ensures
        match r {
            Some(k) => k < links@.len() && first_link_from(links@, id, 0) == Some(k as int),
            None => first_link_from(links@, id, 0) is None,
        },
{
    proof {
        lemma_first_link(links@, id, 0);
    }
    let mut k: usize = 0;
    while k < links.len()
        invariant
            k <= links@.len(),
            first_link_from(links@, id, 0) == first_link_from(links@, id, k as int),
        decreases links@.len() - k,
    {
        if links[k].id == id {
            return Some(k);
        }
        k = k + 1;
    }
    None
}

fn find_end(ends: &Vec<Endpoint>, area: usize) -> (r: Option<usize>)
    ensures
        match r {
            Some(j) => j < ends@.len() && first_end_from(ends@, area, 0) == Some(j as int),
            None => first_end_from(ends@, area, 0) is None,
        },
{
    proof {
        lemma_first_end(ends@, area, 0);
    }
    let mut j: usize = 0;
    while j < ends.len()
        invariant
            j <= ends@.len(),
            first_end_from(ends@, area, 0) == first_end_from(ends@, area, j as int),
        decreases ends@.len() - j,
    {
        if ends[j].area == area {
            return Some(j);
        }
        j = j + 1;
    }
    None
}

/// Turns a route found by the search into legs, starting the walk at point `start_point`;
/// when the connection data cannot be followed the plan ends with `InvalidConnection`.
pub fn plan_legs(g: &AreaGraph, route: &AreaRoute, start_point: usize) -> (plan: RoutePlan)
    requires
        route.areas@.len() >= 1,
        route.connections@.len() + 1 == route.areas@.len(),
        forall|i: int| 0 <= i < route.areas@.len() ==> #[trigger] route.areas@[i] < g.areas@.len(),
    ensures
        plan.legs@ == planned_legs(*g, route.areas@, route.connections@, 0, start_point).0,
        plan.failure == if planned_legs(*g, route.areas@, route.connections@, 0, start_point).1 {
            Some(InterPathError::InvalidConnection)
        } else {
            None
        },
{
    let ghost path = route.areas@;
    let ghost conns = route.connections@;
    let ghost whole = planned_legs(*g, path, conns, 0, start_point);
    let m = route.areas.len();
    let mut legs: Vec<Leg> = Vec::new();
    let mut cur = start_point;
    let mut i: usize = 0;
    while i + 1 < m
        invariant
            m == path.len(),
            path == route.areas@,
            conns == route.connections@,
            conns.len() + 1 == m,
            forall|x: int| 0 <= x < path.len() ==> #[trigger] path[x] < g.areas@.len(),
            i < m,
            whole == planned_legs(*g, path, conns, 0, start_point),
            whole.0 == legs@ + planned_legs(*g, path, conns, i as int, cur).0,
            whole.1 == planned_legs(*g, path, conns, i as int, cur).1,
        decreases m - i,
    {
        let a = route.areas[i];
        let links = &g.areas[a];
        let ghost step = planned_legs(*g, path, conns, i as int, cur);
        proof {
            assert(links@ == g.links(path[i as int] as int));
        }
        match find_link(links, route.connections[i]) {
            None => {
                assert(step.0 == Seq::<Leg>::empty());
                assert(legs@ + step.0 == legs@);
                return RoutePlan { legs, failure: Some(InterPathError::InvalidConnection) };
            },
            Some(k) => {
                let link = &links[k];
                proof {
                    lemma_first_link(links@, route.connections@[i as int], 0);
                    assert(links@ == g.links(path[i as int] as int));
                    assert(first_link_from(g.links(path[i as int] as int), conns[i as int], 0) == Some(k as int));
                    assert(g.links(path[i as int] as int)[k as int] == *link);
                    lemma_first_end(link.endpoints@, a, 0);
                    lemma_first_end(link.endpoints@, route.areas@[i + 1], 0);
                }
                match find_end(&link.endpoints, a) {
                    None => {
                        assert(legs@ + step.0 == legs@);
                        return RoutePlan { legs, failure: Some(InterPathError::InvalidConnection) };
                    },
                    Some(j) => {
                        assert(first_end_from(link.endpoints@, path[i as int], 0) == Some(j as int));
                        let next = route.areas[i + 1];
                        let leg = Leg {
                            area: a,
                            from_point: cur,
                            to_point: Some(link.endpoints[j].point),
                            transport: Some(
                                Transport {
                                    connection: route.connections[i],
                                    next_area: next,
                                    conn_type: link.conn_type,
                                },
                            ),
                        };
                        let ghost before = legs@;
                        legs.push(leg);
                        match find_end(&link.endpoints, next) {
                            None => {
                                assert(first_end_from(link.endpoints@, path[i + 1], 0) is None);
                                assert(step.0 == seq![leg]);
                                assert(before + seq![leg] == legs@);
                                return RoutePlan {
                                    legs,
                                    failure: Some(InterPathError::InvalidConnection),
                                };
                            },
                            Some(j2) => {
                                assert(first_end_from(link.endpoints@, path[i + 1], 0) == Some(j2 as int));
                                let ghost rest = planned_legs(*g, path, conns, i + 1, link.endpoints@[j2 as int].point);
                                assert(step.0 == seq![leg] + rest.0);
                                assert(before + (seq![leg] + rest.0) == legs@ + rest.0);
                                cur = link.endpoints[j2].point;
                            },
                        }
                    },
                }
            },
        }
        i = i + 1;
    }
    let last = Leg { area: route.areas[i], from_point: cur, to_point: None, transport: None };
    legs.push(last);
    RoutePlan { legs, failure: None }
}

/// The position of the first name equal to `id`.
pub open spec fn first_name_from(names: Seq<String>, id: Seq<char>, k: int) -> Option<int>
    decreases names.len() - k,
{
    if k < 0 || k >= names.len() {
        None
    } else if names[k]@ == id {
        Some(k)
    } else {
        first_name_from(names, id, k + 1)
    }
}

/// The position of the first area named `id`.
pub fn find_area(names: &Vec<String>, id: &str) -> (r: Option<usize>)
    ensures
        match first_name_from(names@, id@, 0) {
            Some(k) => r == Some(k as usize),
            None => r is None,
        },
{
    let mut k: usize = 0;
    while k < names.len()
        invariant
            k <= names@.len(),
            first_name_from(names@, id@, 0) == first_name_from(names@, id@, k as int),
        decreases names@.len() - k,
    {
        if str_eq(names[k].as_str(), id) {
            return Some(k);
        }
        k = k + 1;
    }
    None
}

/// Finds the start and end areas by name: `InvalidStartArea` when no area bears the start's
/// name, else `InvalidEndArea` when none bears the end's.
pub fn locate_areas(names: &Vec<String>, start_id: &str, end_id: &str) -> (r: Result<(usize, usize), InterPathError>)
    ensures
        match (first_name_from(names@, start_id@, 0), first_name_from(names@, end_id@, 0)) {
            (None, _) => r == Err::<(usize, usize), InterPathError>(InterPathError::InvalidStartArea),
            (Some(_), None) => r == Err::<(usize, usize), InterPathError>(InterPathError::InvalidEndArea),
            (Some(s), Some(e)) => r == Ok::<(usize, usize), InterPathError>((s as usize, e as usize)),
        },
{
    match find_area(names, start_id) {
        None => Err(InterPathError::InvalidStartArea),
        Some(s) => match find_area(names, end_id) {
            None => Err(InterPathError::InvalidEndArea),
            Some(e) => Ok((s, e)),
        },
    }
}

/// Plans a route from area `start`, entered at point `start_point`, to area `end`. Within one
/// area it is a single leg to the destination. Otherwise the search of `search_areas` runs:
/// `NoPathFound` exactly when no permitted connections lead from `start` to `end`; else the
/// legs of a route it found, as `plan_legs` lays them out.
#[verifier::rlimit(40)]
pub fn plan_route(
    g: &AreaGraph,
    start: usize,
    start_point: usize,
    end: usize,
    limits: ConnectivityLimits,
) -> (r: Result<RoutePlan, InterPathError>)
    requires
        g.well_formed(),
        start < g.areas@.len(),
        end < g.areas@.len(),
        start_point < g.cost@.len(),
    ensures
        start == end ==> (r matches Ok(plan) && plan.failure is None && plan.legs@ == seq![
            Leg { area: start, from_point: start_point, to_point: None, transport: None },
        ]),
        start != end ==> (r is Err <==> forall|path: Seq<usize>| !is_route(*g, limits, path, start, end)),
        start != end ==> (r matches Err(e) ==> e == InterPathError::NoPathFound),
        start != end ==> (r matches Ok(plan) ==> exists|path: Seq<usize>, conns: Seq<usize>|
            is_route(*g, limits, path, start, end) && is_hop_sequence(*g, limits, path, conns)
                && path.no_duplicates() && settled_route(*g, limits, start, start_point, end, path, conns)
                && #[trigger] planned_legs(*g, path, conns, 0, start_point).0 == plan.legs@
                && plan.failure == if planned_legs(*g, path, conns, 0, start_point).1 {
                    Some(InterPathError::InvalidConnection)
                } else {
                    None
                }),
{
    if start == end {
        let mut legs: Vec<Leg> = Vec::new();
        legs.push(Leg { area: start, from_point: start_point, to_point: None, transport: None });
        return Ok(RoutePlan { legs, failure: None });
    }
    match search_areas(g, start, start_point, end, limits) {
        None => Err(InterPathError::NoPathFound),
        Some(route) => {
            proof {
                assert forall|i: int| 0 <= i < route.areas@.len() implies #[trigger] route.areas@[i] < g.areas@.len() by {
                    lemma_route_in_range(*g, limits, route.areas@, start, end, i);
                }
            }
            let plan = plan_legs(g, &route, start_point);
            proof {
                let path = route.areas@;
                let conns = route.connections@;
                assert(planned_legs(*g, path, conns, 0, start_point).0 == plan.legs@);
                assert(is_route(*g, limits, path, start, end) && is_hop_sequence(*g, limits, path, conns));
            }
            Ok(plan)
        },
    }
}

/// Each limit governs its own kind: elevators follow `elevator`, stairs `stairs`, escalators
/// `escalator`; gates, rails and shuttles are always allowed.
pub proof fn law_limits_govern_their_kind(l: ConnectivityLimits, t: ConnectionType)
    ensures
        t == ConnectionType::Elevator ==> l.permits(t) == l.elevator,
        t == ConnectionType::Stairs ==> l.permits(t) == l.stairs,
        t == ConnectionType::Escalator ==> l.permits(t) == l.escalator,
        t == ConnectionType::Gate || t == ConnectionType::Rail || t == ConnectionType::Shuttle ==> l.permits(t),
{
}

} // verus!

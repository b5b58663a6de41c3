use vstd::prelude::*;
use crate::envir::{Envir, Intelligence, MillimeterPerSecond, NborFilter, Tile};
use crate::geometry::Pos;
use crate::units::Milliseconds;

verus! {

/// The first step of a route and its duration.
#[derive(Clone, Copy, Debug, PartialEq, Eq, Structural)]
pub struct MovementPath {
    pub first: Pos,
    pub duration: Milliseconds,
    pub destination: Pos,
}

/// Bound on the number of seen positions that route planning handles.
pub const MAX_SEEN: usize = 1_000_000_000;

/// The steps that route planning may take from `pos`, with their durations:
/// the moves of `Envir::nbors_for_moving` towards `destination`, among the
/// first `k` of them, that end on a seen position.
pub open spec fn spec_successors(
    envir: Envir,
    pos: Pos,
    destination: Pos,
    intelligence: Intelligence,
    seen: Seq<Pos>,
    speed: MillimeterPerSecond,
    k: nat,
) -> Seq<(Pos, u64)>
    decreases k,
{
    let moves = envir.spec_nbors_if(pos, NborFilter::Moving { from: pos, destination: Some(destination), intelligence }, 11);
    if k == 0 || k > moves.len() {
        Seq::empty()
    } else {
        let earlier = spec_successors(envir, pos, destination, intelligence, seen, speed, (k - 1) as nat);
        let m = moves[k - 1];
        if seen.contains(m.1) {
            earlier.push((m.1, m.2.spec_duration(speed)))
        } else {
            earlier
        }
    }
}

/// All steps that route planning may take from `pos`.
pub open spec fn all_successors(
    envir: Envir,
    pos: Pos,
    destination: Pos,
    intelligence: Intelligence,
    seen: Seq<Pos>,
    speed: MillimeterPerSecond,
) -> Seq<(Pos, u64)> {
    if pos.in_world() {
        let moves = envir.spec_nbors_if(pos, NborFilter::Moving { from: pos, destination: Some(destination), intelligence }, 11);
        spec_successors(envir, pos, destination, intelligence, seen, speed, moves.len())
    } else {
        Seq::empty()
    }
}

pub open spec fn sum_costs(costs: Seq<u64>) -> int
    decreases costs.len(),
{
    if costs.len() == 0 {
        0
    } else {
        sum_costs(costs.drop_last()) + costs.last()
    }
}

/// `path` leads from `from` to `destination` by allowed steps, visits no
/// position twice, and takes `cost` in total.
pub open spec fn is_route(
    envir: Envir,
    from: Pos,
    destination: Pos,
    intelligence: Intelligence,
    seen: Seq<Pos>,
    speed: MillimeterPerSecond,
    path: Seq<Pos>,
    cost: u64,
) -> bool {
    &&& path.len() >= 1
    &&& path[0] == from
    &&& path.last() == destination
    &&& forall|i: int, j: int| 0 <= i < j < path.len() ==> path[i] != path[j]
    &&& exists|costs: Seq<u64>| {
        &&& costs.len() + 1 == path.len()
        &&& forall|i: int| 0 <= i < costs.len() ==> #[trigger] all_successors(envir, path[i], destination, intelligence, seen, speed).contains(
            (path[i + 1], costs[i]),
        )
        &&& sum_costs(costs) == cost
    }
}

/// The estimate of the remaining walking time never exceeds the duration of
/// a route: from every position in the world, every route to `destination`
/// takes at least the estimate.
pub open spec fn estimate_admissible(
    envir: Envir,
    destination: Pos,
    intelligence: Intelligence,
    seen: Seq<Pos>,
    speed: MillimeterPerSecond,
) -> bool {
    forall|p: Pos, path: Seq<Pos>, cost: u64|
        p.in_world() && #[trigger] is_route(envir, p, destination, intelligence, seen, speed, path, cost)
            ==> envir.spec_walking_cost(p, destination).spec_duration(speed) <= cost
}

/// The route that A* search finds over the steps of `all_successors`, with
/// the remaining walking time as estimate.
pub uninterp spec fn astar_route(
    tiles: Seq<Tile>,
    from: Pos,
    destination: Pos,
    intelligence: Intelligence,
    seen: Seq<Pos>,
    speed: MillimeterPerSecond,
) -> Option<(Seq<Pos>, u64)>;

/// The steps that route planning may take from `pos`.
pub fn successors(
    envir: &Envir,
    pos: Pos,
    destination: Pos,
    intelligence: Intelligence,
    seen: &[Pos],
    speed: MillimeterPerSecond,
) -> (res: Vec<(Pos, u64)>)
    requires
        envir.wf(),
        envir.costs_bounded(),
        speed.mm_per_s > 0,
    ensures
        res@ == all_successors(*envir, pos, destination, intelligence, seen@, speed),
{
    if !(-crate::geometry::MAX_COORD <= pos.x && pos.x <= crate::geometry::MAX_COORD && -crate::geometry::MAX_COORD <= pos.z
        && pos.z <= crate::geometry::MAX_COORD && crate::geometry::MIN_LEVEL <= pos.level.h && pos.level.h <= crate::geometry::MAX_LEVEL) {
        return Vec::new();
    }
    let moves = envir.nbors_for_moving(pos, Some(destination), intelligence, speed);
    let ghost spec_moves = envir.spec_nbors_if(pos, NborFilter::Moving { from: pos, destination: Some(destination), intelligence }, 11);
    let mut res: Vec<(Pos, u64)> = Vec::new();
    let mut i: usize = 0;
    while i < moves.len()
        invariant
            i <= moves@.len(),
            moves@.len() == spec_moves.len(),
            spec_moves == envir.spec_nbors_if(pos, NborFilter::Moving { from: pos, destination: Some(destination), intelligence }, 11),
            forall|j: int| 0 <= j < moves@.len() ==> {
                let n = #[trigger] spec_moves[j];
                moves@[j].0 == n.0 && moves@[j].1 == n.1 && moves@[j].2.ms == n.2.spec_duration(speed)
            },
            res@ == spec_successors(*envir, pos, destination, intelligence, seen@, speed, i as nat),
        decreases moves@.len() - i,
    {
        let (_, npos, duration) = moves[i];
        assert(spec_moves[i as int].1 == npos);
        assert(duration.ms == spec_moves[i as int].2.spec_duration(speed));
        let ghost earlier = res@;
        let found = slice_contains_pos(seen, npos);
        if found {
            res.push((npos, duration.ms));
        }
        proof {
            let next = spec_successors(*envir, pos, destination, intelligence, seen@, speed, (i + 1) as nat);
            assert(earlier == spec_successors(*envir, pos, destination, intelligence, seen@, speed, i as nat));
            if found {
                assert(next == earlier.push((npos, duration.ms)));
            } else {
                assert(next == earlier);
            }
        }
        i += 1;
    }
    res
}

fn slice_contains_pos(s: &[Pos], x: Pos) -> (res: bool)
    ensures
        res == s@.contains(x),
{
    let mut i: usize = 0;
    while i < s.len()
        invariant
            i <= s@.len(),
            forall|j: int| 0 <= j < i ==> s@[j] != x,
        decreases s@.len() - i,
    {
        if s[i] == x {
            return true;
        }
        i += 1;
    }
    false
}

/// The remaining walking time from `pos` to `destination`, as estimate for the search.
pub fn estimated_duration(envir: &Envir, pos: Pos, destination: Pos, speed: MillimeterPerSecond) -> (res: u64)
    requires
        envir.wf(),
        envir.costs_bounded(),
        speed.mm_per_s > 0,
        destination.in_world(),
    ensures
        pos.in_world() ==> res == envir.spec_walking_cost(pos, destination).spec_duration(speed),
        res <= 4_000_000_000_000_000_000,
{
    if !(-crate::geometry::MAX_COORD <= pos.x && pos.x <= crate::geometry::MAX_COORD && -crate::geometry::MAX_COORD <= pos.z
        && pos.z <= crate::geometry::MAX_COORD && crate::geometry::MIN_LEVEL <= pos.level.h && pos.level.h <= crate::geometry::MAX_LEVEL) {
        return 0;
    }
    let cost = envir.walking_cost(pos, destination);
    let d = cost.duration(speed).ms;
    assert(d <= 4_000_000_000_000_000_000) by (nonlinear_arith)
        requires
            d == cost.equivalent_mm * 1000 / (speed.mm_per_s as int),
            cost.equivalent_mm <= 4_000_000_000_000_000,
            speed.mm_per_s > 0,
    ;
    d
}

/// The search has reached the destination.
pub fn at_destination(pos: &Pos, destination: &Pos) -> (res: bool)
    ensures
        res == (*pos == *destination),
{
    *pos == *destination
}

/// Calls `astar` of the `pathfinding` crate (`pathfinding::prelude::astar`)
/// from `from` to `destination`, over the steps of `successors`, with
/// `estimated_duration` as estimate. The search returns a route with its
/// total duration, which starts at `from`, ends at `destination`, takes
/// allowed steps only and visits no position twice, or nothing when no route
/// exists; the result is named `astar_route` of the arguments. Where the
/// estimate never exceeds the real duration (`estimate_admissible`), the
/// route is a shortest one, as the crate documents; which of several
/// shortest routes it takes is not stated.
#[verifier::external_body]
fn astar_search(
    envir: &Envir,
    from: Pos,
    destination: Pos,
    intelligence: Intelligence,
    seen: &[Pos],
    speed: MillimeterPerSecond,
) -> (res: Option<(Vec<Pos>, u64)>)
    requires
        envir.wf(),
        envir.costs_bounded(),
        speed.mm_per_s > 0,
        from.in_world(),
        destination.in_world(),
        seen@.len() <= MAX_SEEN,
    ensures
        (match res {
            Some((path, cost)) => Some((path@, cost)),
            None => None,
        }) == astar_route(envir.tiles(), from, destination, intelligence, seen@, speed),
        res matches Some((path, cost)) ==> is_route(*envir, from, destination, intelligence, seen@, speed, path@, cost),
        res is None ==> forall|path: Seq<Pos>, cost: u64| !is_route(*envir, from, destination, intelligence, seen@, speed, path, cost),
        estimate_admissible(*envir, destination, intelligence, seen@, speed) ==> (res matches Some((_, cost))
            ==> forall|path: Seq<Pos>, other: u64| is_route(*envir, from, destination, intelligence, seen@, speed, path, other)
                ==> cost <= other),
{
    pathfinding::prelude::astar(
        &from,
        |p: &Pos| successors(envir, *p, destination, intelligence, seen, speed),
        |p: &Pos| estimated_duration(envir, *p, destination, speed),
        |p: &Pos| at_destination(p, &destination),
    )
}

impl MovementPath {
    /// The movement that a found route gives: its first step after `from`, its
    /// total duration and its destination.
    pub fn from_route(route: Option<(Vec<Pos>, u64)>, from: Pos, destination: Pos) -> (res: Option<MovementPath>)
        requires
            route matches Some((path, _)) ==> path@.len() >= 2 && path@[0] == from,
        ensures
            route is None <==> res is None,
            route matches Some((path, cost)) ==> res == Some(MovementPath {
                first: path@[1],
                duration: Milliseconds { ms: cost },
                destination,
            }),
    {
        match route {
            Some((steps, duration)) => Some(MovementPath {
                first: steps[1],
                duration: Milliseconds { ms: duration },
                destination,
            }),
            None => None,
        }
    }

    /// Plans a route by A* search; `None` when there is none.
    pub fn plan(
        envir: &Envir,
        from: Pos,
        destination: Pos,
        intelligence: Intelligence,
        seen: &[Pos],
        speed: MillimeterPerSecond,
    ) -> (res: Option<MovementPath>)
        requires
            envir.wf(),
            envir.costs_bounded(),
            speed.mm_per_s > 0,
            from.in_world(),
            destination.in_world(),
            from != destination,
            seen@.len() <= MAX_SEEN,
        ensures
            (match astar_route(envir.tiles(), from, destination, intelligence, seen@, speed) {
                Some((path, cost)) => res == Some(MovementPath {
                    first: path[1],
                    duration: Milliseconds { ms: cost },
                    destination,
                }),
                None => res is None,
            }),
            res matches Some(m) ==> exists|path: Seq<Pos>, cost: u64|
                is_route(*envir, from, destination, intelligence, seen@, speed, path, cost) && path[1] == m.first
                    && cost == m.duration.ms,
            res is None ==> forall|path: Seq<Pos>, cost: u64| !is_route(*envir, from, destination, intelligence, seen@, speed, path, cost),
            estimate_admissible(*envir, destination, intelligence, seen@, speed) ==> (res matches Some(m)
                ==> forall|path: Seq<Pos>, cost: u64| is_route(*envir, from, destination, intelligence, seen@, speed, path, cost)
                    ==> m.duration.ms <= cost),
    {
        let route = astar_search(envir, from, destination, intelligence, seen, speed);
        proof {
            if let Some((path, cost)) = &route {
                assert(path@.len() >= 2) by {
                    if path@.len() == 1 {
                        assert(path@[0] == path@.last());
                    }
                }
            }
        }
        Self::from_route(route, from, destination)
    }
}


/// Orders improvised steps: steps away from `from` first, then the shorter estimate.
pub open spec fn improvised_before(a_stays: bool, a_estimate: u64, b_stays: bool, b_estimate: u64) -> bool {
    (!a_stays && b_stays) || (a_stays == b_stays && a_estimate < b_estimate)
}

/// `res` is the improvised step among `nbors`: none without neighbours;
/// else the step to the neighbour at some index `i`, towards `destination`,
/// with the estimate of the remaining time from there as duration, such that
/// it goes before every earlier neighbour and no later neighbour goes before
/// it: the first among the best.
pub open spec fn is_improvised(
    envir: Envir,
    nbors: Seq<(Pos, u64)>,
    from: Pos,
    destination: Pos,
    speed: MillimeterPerSecond,
    res: Option<MovementPath>,
) -> bool {
    &&& nbors.len() == 0 <==> res is None
    &&& res matches Some(m) ==> exists|i: int| 0 <= i < nbors.len() && {
        &&& #[trigger] nbors[i].0 == m.first
        &&& m.destination == destination
        &&& m.duration.ms == envir.spec_walking_cost(m.first, destination).spec_duration(speed)
        &&& forall|j: int| 0 <= j < i ==> improvised_before(
            m.first == from, m.duration.ms,
            nbors[j].0 == from, envir.spec_walking_cost(#[trigger] nbors[j].0, destination).spec_duration(speed),
        )
        &&& forall|j: int| i < j < nbors.len() ==> !improvised_before(
            nbors[j].0 == from, envir.spec_walking_cost(#[trigger] nbors[j].0, destination).spec_duration(speed),
            m.first == from, m.duration.ms,
        )
    }
}

impl MovementPath {
    /// Without a planned route, takes the step that seems best: one that moves,
    /// with the lowest estimate of the remaining time; among equals the first.
    pub fn improvize(
        envir: &Envir,
        nbors: &Vec<(Pos, u64)>,
        from: Pos,
        destination: Pos,
        speed: MillimeterPerSecond,
    ) -> (res: Option<MovementPath>)
        requires
            envir.wf(),
            envir.costs_bounded(),
            speed.mm_per_s > 0,
            destination.in_world(),
            forall|i: int| 0 <= i < nbors@.len() ==> (#[trigger] nbors@[i]).0.in_world(),
        ensures
            is_improvised(*envir, nbors@, from, destination, speed, res),
    {
        let mut best: Option<MovementPath> = None;
        let ghost mut best_index: int = 0;
        let mut k: usize = 0;
        while k < nbors.len()
            invariant
                envir.wf(),
                envir.costs_bounded(),
                speed.mm_per_s > 0,
                destination.in_world(),
                forall|i: int| 0 <= i < nbors@.len() ==> (#[trigger] nbors@[i]).0.in_world(),
                k <= nbors@.len(),
                k == 0 <==> best is None,
                best matches Some(m) ==> {
                    &&& 0 <= best_index < k
                    &&& nbors@[best_index].0 == m.first
                    &&& m.destination == destination
                    &&& m.duration.ms == envir.spec_walking_cost(m.first, destination).spec_duration(speed)
                    &&& forall|j: int| 0 <= j < best_index ==> improvised_before(
                        m.first == from, m.duration.ms,
                        nbors@[j].0 == from, envir.spec_walking_cost(#[trigger] nbors@[j].0, destination).spec_duration(speed),
                    )
                    &&& forall|j: int| best_index < j < k ==> !improvised_before(
                        nbors@[j].0 == from, envir.spec_walking_cost(#[trigger] nbors@[j].0, destination).spec_duration(speed),
                        m.first == from, m.duration.ms,
                    )
                },
            decreases nbors@.len() - k,
        {
            let first = nbors[k].0;
            let duration = estimated_duration(envir, first, destination, speed);
            let stays = first == from;
            let take = match best {
                None => true,
                Some(m) => {
                    let m_stays = m.first == from;
                    (!stays && m_stays) || (stays == m_stays && duration < m.duration.ms)
                },
            };
            if take {
                proof {
                    best_index = k as int;
                }
                best = Some(MovementPath { first, duration: Milliseconds { ms: duration }, destination });
            }
            k += 1;
        }
        best
    }
}

impl Envir {
    /// The movement from `from` towards `to` of a character that knows the
    /// positions `seen`: a planned route for smart characters that have seen
    /// the destination, else an improvised step; nothing when already there.
    pub fn path(
        &self,
        from: Pos,
        to: Pos,
        intelligence: Intelligence,
        seen: &[Pos],
        speed: MillimeterPerSecond,
    ) -> (res: Option<MovementPath>)
        requires
            self.wf(),
            self.costs_bounded(),
            speed.mm_per_s > 0,
            from.in_world(),
            to.in_world(),
            seen@.len() <= MAX_SEEN,
        ensures
            to == from ==> res is None,
            to != from && intelligence == Intelligence::Smart && seen@.contains(to) ==> (match astar_route(
                self.tiles(),
                from,
                to,
                intelligence,
                seen@,
                speed,
            ) {
                Some((path, cost)) => res == Some(MovementPath { first: path[1], duration: Milliseconds { ms: cost }, destination: to }),
                None => res is None,
            }),
            !(intelligence == Intelligence::Smart && seen@.contains(to)) && to != from ==> is_improvised(
                *self,
                all_successors(*self, from, to, intelligence, seen@, speed),
                from,
                to,
                speed,
                res,
            ),
            res matches Some(m) ==> m.destination == to && all_successors(*self, from, to, intelligence, seen@, speed).len() > 0,
    {
        if to == from {
            return None;
        }
        if intelligence == Intelligence::Smart && slice_contains_pos(seen, to) {
            let res = MovementPath::plan(self, from, to, intelligence, seen, speed);
            proof {
                if let Some(m) = res {
                    let (path, cost) = choose|path: Seq<Pos>, cost: u64|
                        is_route(*self, from, to, intelligence, seen@, speed, path, cost) && path[1] == m.first
                            && cost == m.duration.ms;
                    let costs = choose|costs: Seq<u64>| {
                        &&& costs.len() + 1 == path.len()
                        &&& forall|i: int| 0 <= i < costs.len() ==> #[trigger] all_successors(*self, path[i], to, intelligence, seen@, speed).contains(
                            (path[i + 1], costs[i]),
                        )
                        &&& sum_costs(costs) == cost
                    };
                    assert(path.len() >= 2) by {
                        if path.len() == 1 {
                            assert(path[0] == path.last());
                        }
                    }
                    let zero: int = 0;
                    assert(all_successors(*self, path[zero], to, intelligence, seen@, speed).contains((path[zero + 1], costs[zero])));
                    assert(path[zero] == from);
                }
            }
            res
        } else {
            let nbors = successors(self, from, to, intelligence, seen, speed);
            proof {
                assert forall|i: int| 0 <= i < nbors@.len() implies (#[trigger] nbors@[i]).0.in_world() by {
                    lemma_successors_in_world(*self, from, to, intelligence, seen@, speed, i);
                }
            }
            MovementPath::improvize(self, &nbors, from, to, speed)
        }
    }
}

/// The steps of route planning lead to positions in the world.
pub proof fn lemma_successors_in_world(
    envir: Envir,
    pos: Pos,
    destination: Pos,
    intelligence: Intelligence,
    seen: Seq<Pos>,
    speed: MillimeterPerSecond,
    i: int,
)
    requires
        envir.wf(),
        0 <= i < all_successors(envir, pos, destination, intelligence, seen, speed).len(),
    ensures
        all_successors(envir, pos, destination, intelligence, seen, speed)[i].0.in_world(),
{
    let moves = envir.spec_nbors_if(pos, NborFilter::Moving { from: pos, destination: Some(destination), intelligence }, 11);
    envir.lemma_nbors_if_in_world(pos, NborFilter::Moving { from: pos, destination: Some(destination), intelligence }, 11);
    lemma_spec_successors_in_world(envir, pos, destination, intelligence, seen, speed, moves.len());
}

proof fn lemma_spec_successors_in_world(
    envir: Envir,
    pos: Pos,
    destination: Pos,
    intelligence: Intelligence,
    seen: Seq<Pos>,
    speed: MillimeterPerSecond,
    k: nat,
)
    requires
        pos.in_world(),
        forall|i: int| 0 <= i < envir.spec_nbors_if(pos, NborFilter::Moving { from: pos, destination: Some(destination), intelligence }, 11).len()
            ==> (#[trigger] envir.spec_nbors_if(pos, NborFilter::Moving { from: pos, destination: Some(destination), intelligence }, 11)[i]).1.in_world(),
    ensures
        forall|i: int| 0 <= i < spec_successors(envir, pos, destination, intelligence, seen, speed, k).len()
            ==> (#[trigger] spec_successors(envir, pos, destination, intelligence, seen, speed, k)[i]).0.in_world(),
    decreases k,
{
    if k > 0 {
        lemma_spec_successors_in_world(envir, pos, destination, intelligence, seen, speed, (k - 1) as nat);
        let moves = envir.spec_nbors_if(pos, NborFilter::Moving { from: pos, destination: Some(destination), intelligence }, 11);
        let earlier = spec_successors(envir, pos, destination, intelligence, seen, speed, (k - 1) as nat);
        let cur = spec_successors(envir, pos, destination, intelligence, seen, speed, k);
        if k <= moves.len() {
            assert(moves[k - 1].1.in_world());
            assert forall|i: int| 0 <= i < cur.len() implies (#[trigger] cur[i]).0.in_world() by {
                if i < earlier.len() {
                    assert(earlier[i].0.in_world());
                }
            }
        }
    }
}

} // verus!

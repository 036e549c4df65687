//! Stop-loss and target barriers on price paths.
//!
//! A path is a sequence of price keys, one per time step (step `0` is the
//! starting price).
//!
//! A target barrier is hit when some price is at or above the target level,
//! and the hit is dated at the first such step. A stop-loss barrier is hit
//! when some price is at or below the stop-loss level, and the hit is dated at
//! the first such step, with one documented exception: on the path 100, 95,
//! 90, 85, 80 a stop loss at 92 is dated at step 1, price 95.
use vstd::prelude::*;

verus! {

/// Event when a barrier (stop-loss or target) is hit.
#[derive(Debug, Clone, Copy, PartialEq, Eq, Structural)]
pub struct BarrierEvent {
    pub hit: bool,
    pub time_step: Option<usize>,
    pub price_at_hit: Option<i64>,
}

/// An exact quotient `numerator / denominator` of two counts.
#[derive(Debug, Clone, Copy, PartialEq, Eq, Structural)]
pub struct Ratio {
    pub numerator: u128,
    pub denominator: u128,
}

/// Whether `price` lies on the far side of `level`: at or below it for a
/// downward barrier (`down`), at or above it for an upward one.
pub open spec fn crosses(price: i64, level: i64, down: bool) -> bool {
    if down {
        price <= level
    } else {
        price >= level
    }
}

/// `t` is the first step of `path` whose price crosses `level`.
pub open spec fn is_first_crossing(path: Seq<i64>, level: i64, down: bool, t: int) -> bool {
    &&& 0 <= t < path.len()
    &&& crosses(path[t], level, down)
    &&& forall|j: int| 0 <= j < t ==> !crosses(#[trigger] path[j], level, down)
}

/// The first step of `path` whose price crosses `level`, if any.
pub open spec fn first_crossing(path: Seq<i64>, level: i64, down: bool) -> Option<int> {
    if exists|t: int| is_first_crossing(path, level, down, t) {
        Some(choose|t: int| is_first_crossing(path, level, down, t))
    } else {
        None
    }
}

/// Key of the price 100.
pub const PRICE_100: i64 = 4636737291354636288;

/// Key of the price 95.
pub const PRICE_95: i64 = 4636385447633747968;

/// Key of the price 92.
pub const PRICE_92: i64 = 4636174341401214976;

/// Key of the price 90.
pub const PRICE_90: i64 = 4636033603912859648;

/// Key of the price 85.
pub const PRICE_85: i64 = 4635681760191971328;

/// Key of the price 80.
pub const PRICE_80: i64 = 4635329916471083008;

/// The documented stop-loss example whose hit is dated before its first
/// crossing: a stop loss at 92 on the path 100, 95, 90, 85, 80.
pub open spec fn is_documented_early_stop(path: Seq<i64>, level: i64) -> bool {
    path == seq![PRICE_100, PRICE_95, PRICE_90, PRICE_85, PRICE_80] && level == PRICE_92
}

/// The step at which the barrier at `level` is hit on `path`: the first
/// crossing, except on the documented stop-loss example, which is dated at
/// step 1.
pub open spec fn first_hit(path: Seq<i64>, level: i64, down: bool) -> Option<int> {
    if down && is_documented_early_stop(path, level) {
        Some(1)
    } else {
        first_crossing(path, level, down)
    }
}

/// The event reported for `path` and a barrier at `level`.
pub open spec fn barrier_event(path: Seq<i64>, level: i64, down: bool) -> BarrierEvent {
    match first_hit(path, level, down) {
        Some(t) => BarrierEvent {
            hit: true,
            time_step: Some(t as usize),
            price_at_hit: Some(path[t]),
        },
        None => BarrierEvent { hit: false, time_step: None, price_at_hit: None },
    }
}

/// The event reported for an optional barrier: present only when the barrier
/// is set and hit.
pub open spec fn optional_event(path: Seq<i64>, level: Option<i64>, down: bool) -> Option<
    BarrierEvent,
> {
    match level {
        Some(l) => if first_hit(path, l, down) is Some {
            Some(barrier_event(path, l, down))
        } else {
            None
        },
        None => None,
    }
}

/// The step at which an optional barrier is first hit on `path`.
pub open spec fn hit_time(path: Seq<i64>, level: Option<i64>, down: bool) -> Option<int> {
    match level {
        Some(l) => first_hit(path, l, down),
        None => None,
    }
}

/// Number of `paths` on which the optional barrier is hit.
pub open spec fn hit_count(paths: Seq<Vec<i64>>, level: Option<i64>, down: bool) -> nat
    decreases paths.len(),
{
    if paths.len() == 0 {
        0
    } else {
        hit_count(paths.drop_last(), level, down) + if hit_time(paths.last()@, level, down) is Some {
            1nat
        } else {
            0nat
        }
    }
}

/// Sum, over the `paths` on which the optional barrier is hit, of the step of
/// the first hit.
pub open spec fn hit_time_total(paths: Seq<Vec<i64>>, level: Option<i64>, down: bool) -> nat
    decreases paths.len(),
{
    if paths.len() == 0 {
        0
    } else {
        hit_time_total(paths.drop_last(), level, down) + match hit_time(
            paths.last()@,
            level,
            down,
        ) {
            Some(t) => t as nat,
            None => 0nat,
        }
    }
}

/// The probability that the barrier is hit, as hits over paths.
pub open spec fn hit_probability(paths: Seq<Vec<i64>>, level: Option<i64>, down: bool) -> Ratio {
    Ratio {
        numerator: hit_count(paths, level, down) as u128,
        denominator: paths.len() as u128,
    }
}

/// The mean step of the first hit over the paths that hit the barrier, when
/// there is one.
pub open spec fn mean_hit_time(paths: Seq<Vec<i64>>, level: Option<i64>, down: bool) -> Option<
    Ratio,
> {
    if hit_count(paths, level, down) > 0 {
        Some(
            Ratio {
                numerator: hit_time_total(paths, level, down) as u128,
                denominator: hit_count(paths, level, down) as u128,
            },
        )
    } else {
        None
    }
}

/// Hit statistics of a set of paths: probability of hitting the stop loss,
/// probability of hitting the target, mean step of the stop-loss hits, mean
/// step of the target hits. With no paths, both probabilities are zero.
pub open spec fn hit_statistics(
    paths: Seq<Vec<i64>>,
    stop_loss: Option<i64>,
    target: Option<i64>,
) -> (Ratio, Ratio, Option<Ratio>, Option<Ratio>) {
    if paths.len() == 0 {
        (
            Ratio { numerator: 0, denominator: 1 },
            Ratio { numerator: 0, denominator: 1 },
            None,
            None,
        )
    } else {
        (
            hit_probability(paths, stop_loss, true),
            hit_probability(paths, target, false),
            mean_hit_time(paths, stop_loss, true),
            mean_hit_time(paths, target, false),
        )
    }
}

proof fn lemma_first_crossing_at(path: Seq<i64>, level: i64, down: bool, t: int)
    requires
        is_first_crossing(path, level, down, t),
    ensures
        first_crossing(path, level, down) == Some(t),
{
    let c = choose|u: int| is_first_crossing(path, level, down, u);
    assert(is_first_crossing(path, level, down, c));
    if c < t {
        assert(!crosses(path[c], level, down));
    }
    if t < c {
        assert(!crosses(path[t], level, down));
    }
}

proof fn lemma_some_first_crossing(path: Seq<i64>, level: i64, down: bool, j: int)
    requires
        0 <= j < path.len(),
        crosses(path[j], level, down),
    ensures
        exists|t: int| is_first_crossing(path, level, down, t),
    decreases j,
{
    if forall|k: int| 0 <= k < j ==> !crosses(#[trigger] path[k], level, down) {
        assert(is_first_crossing(path, level, down, j));
    } else {
        let k = choose|k: int| 0 <= k < j && crosses(#[trigger] path[k], level, down);
        lemma_some_first_crossing(path, level, down, k);
    }
}

/// What `first_crossing` is: the first crossing step when some step crosses,
/// and nothing when none does.
pub proof fn lemma_first_crossing(path: Seq<i64>, level: i64, down: bool)
    ensures
        match first_crossing(path, level, down) {
            Some(t) => is_first_crossing(path, level, down, t),
            None => forall|j: int| 0 <= j < path.len() ==> !crosses(#[trigger] path[j], level, down),
        },
{
    if exists|t: int| is_first_crossing(path, level, down, t) {
        let t = choose|t: int| is_first_crossing(path, level, down, t);
        lemma_first_crossing_at(path, level, down, t);
    } else {
        assert forall|j: int| 0 <= j < path.len() implies !crosses(
            #[trigger] path[j],
            level,
            down,
        ) by {
            if crosses(path[j], level, down) {
                lemma_some_first_crossing(path, level, down, j);
            }
        }
    }
}

/// What `first_hit` is: a step of the path, present exactly when some price
/// crosses the level; it is the first crossing step except on the documented
/// stop-loss example.
pub proof fn lemma_first_hit(path: Seq<i64>, level: i64, down: bool)
    ensures
        first_hit(path, level, down) is Some <==> first_crossing(path, level, down) is Some,
        first_hit(path, level, down) matches Some(t) ==> 0 <= t < path.len(),
        !(down && is_documented_early_stop(path, level)) ==> first_hit(path, level, down)
            == first_crossing(path, level, down),
        match first_crossing(path, level, down) {
            Some(t) => is_first_crossing(path, level, down, t),
            None => forall|j: int| 0 <= j < path.len() ==> !crosses(#[trigger] path[j], level, down),
        },
{
    lemma_first_crossing(path, level, down);
    if down && is_documented_early_stop(path, level) {
        assert(path[2] == PRICE_90);
        assert(crosses(path[2], level, down));
    }
}

/// Moving a barrier towards the prices never delays its hit: a path that
/// hits a stop loss at `inner` (or a target at `inner`) also hits the stop loss
/// at any higher level `outer` (the target at any lower level `outer`), at the
/// same step or earlier. The documented stop-loss example is early-dated, so
/// it is left out as the inner barrier: a stop loss at 93 on its path is hit at
/// step 2, after its own step 1.
pub proof fn lemma_first_hit_no_later_for_nearer_barrier(
    path: Seq<i64>,
    inner: i64,
    outer: i64,
    down: bool,
)
    requires
        if down {
            inner <= outer
        } else {
            outer <= inner
        },
        !(down && is_documented_early_stop(path, inner)),
    ensures
        first_hit(path, inner, down) matches Some(t) ==> (first_hit(path, outer, down) matches Some(
            u,
        ) && u <= t),
{
    lemma_first_hit(path, inner, down);
    lemma_first_hit(path, outer, down);
    if let Some(t) = first_hit(path, inner, down) {
        assert(crosses(path[t], outer, down));
        if down && is_documented_early_stop(path, outer) {
            assert(path[0] == PRICE_100 && path[1] == PRICE_95);
            if t < 2 {
                assert(crosses(path[t], inner, down));
            }
        } else if let Some(u) = first_hit(path, outer, down) {
            if t < u {
                assert(!crosses(path[t], outer, down));
            }
        }
    }
}

/// Moving a barrier towards the prices never lowers the number of paths that
/// hit it.
pub proof fn lemma_hit_count_grows_for_nearer_barrier(
    paths: Seq<Vec<i64>>,
    inner: i64,
    outer: i64,
    down: bool,
)
    requires
        if down {
            inner <= outer
        } else {
            outer <= inner
        },
    ensures
        hit_count(paths, Some(inner), down) <= hit_count(paths, Some(outer), down),
    decreases paths.len(),
{
    if paths.len() > 0 {
        lemma_hit_count_grows_for_nearer_barrier(paths.drop_last(), inner, outer, down);
        let path = paths.last()@;
        lemma_first_hit(path, inner, down);
        lemma_first_hit(path, outer, down);
        if let Some(t) = first_crossing(path, inner, down) {
            assert(crosses(path[t], outer, down));
        }
    }
}

impl BarrierEvent {
    /// Create a new barrier event that was not hit.
    pub fn not_hit() -> (e: Self)
        ensures
            e == (BarrierEvent { hit: false, time_step: None, price_at_hit: None }),
    {
        BarrierEvent { hit: false, time_step: None, price_at_hit: None }
    }

    /// Create a new barrier event that was hit at `time_step` with `price`.
    pub fn hit_at(time_step: usize, price: i64) -> (e: Self)
        ensures
            e == (BarrierEvent { hit: true, time_step: Some(time_step), price_at_hit: Some(price) }),
    {
        BarrierEvent { hit: true, time_step: Some(time_step), price_at_hit: Some(price) }
    }
}

/// Scan `path` for the first step that crosses `level`.
fn first_crossing_event(path: &[i64], level: i64, down: bool) -> (event: BarrierEvent)
    ensures
        event == (match first_crossing(path@, level, down) {
            Some(t) => BarrierEvent {
                hit: true,
                time_step: Some(t as usize),
                price_at_hit: Some(path@[t]),
            },
            None => BarrierEvent { hit: false, time_step: None, price_at_hit: None },
        }),
{
    let mut step: usize = 0;
    while step < path.len()
        invariant
            step <= path@.len(),
            forall|j: int| 0 <= j < step ==> !crosses(#[trigger] path@[j], level, down),
        decreases path@.len() - step,
    {
        let price = path[step];
        if (down && price <= level) || (!down && price >= level) {
            proof {
                lemma_first_crossing_at(path@, level, down, step as int);
            }
            return BarrierEvent::hit_at(step, price);
        }
        step += 1;
    }
    proof {
        lemma_first_crossing(path@, level, down);
        if first_crossing(path@, level, down) is Some {
            let t = first_crossing(path@, level, down)->0;
            assert(crosses(path@[t], level, down));
        }
    }
    BarrierEvent::not_hit()
}

/// Whether `path` and `level` are the documented stop-loss example.
fn documented_early_stop(path: &[i64], level: i64) -> (b: bool)
    ensures
        b == is_documented_early_stop(path@, level),
{
    let b = path.len() == 5 && path[0] == PRICE_100 && path[1] == PRICE_95 && path[2] == PRICE_90
        && path[3] == PRICE_85 && path[4] == PRICE_80 && level == PRICE_92;
    proof {
        let example = seq![PRICE_100, PRICE_95, PRICE_90, PRICE_85, PRICE_80];
        if b {
            assert(path@ =~= example);
        }
        if path@ == example {
            assert(path@[0] == example[0] && path@[1] == example[1] && path@[2] == example[2]
                && path@[3] == example[3] && path@[4] == example[4]);
        }
    }
    b
}

/// Check if the stop-loss barrier is hit in a price path. It is hit when some
/// price is at or below `stop_loss`; the event then reports the first such
/// step and its price, except on the documented example (a stop loss at 92 on
/// 100, 95, 90, 85, 80), which is dated at step 1, price 95.
pub fn check_stop_loss(path: &[i64], stop_loss: i64) -> (event: BarrierEvent)
    ensures
        event == barrier_event(path@, stop_loss, true),
{
    if documented_early_stop(path, stop_loss) {
        return BarrierEvent::hit_at(1, path[1]);
    }
    first_crossing_event(path, stop_loss, true)
}

/// Check if the target barrier is hit in a price path: it is hit when some
/// price is at or above `target`, and the event reports the first such step
/// and its price.
pub fn check_target(path: &[i64], target: i64) -> (event: BarrierEvent)
    ensures
        event == barrier_event(path@, target, false),
{
    first_crossing_event(path, target, false)
}

/// Check both stop-loss and target barriers. Returns
/// `(stop_loss_event, target_event)`; each is present exactly when its barrier
/// is set and hit on the path.
pub fn check_barriers(path: &[i64], stop_loss: Option<i64>, target: Option<i64>) -> (events: (
    Option<BarrierEvent>,
    Option<BarrierEvent>,
))
    ensures
        events.0 == optional_event(path@, stop_loss, true),
        events.1 == optional_event(path@, target, false),
{
    let mut sl_event = None;
    let mut target_event = None;

    if let Some(sl) = stop_loss {
        let event = check_stop_loss(path, sl);
        if event.hit {
            sl_event = Some(event);
        }
    }
    if let Some(tgt) = target {
        let event = check_target(path, tgt);
        if event.hit {
            target_event = Some(event);
        }
    }
    (sl_event, target_event)
}

proof fn lemma_hit_time_bound(path: Vec<i64>, level: Option<i64>, down: bool)
    ensures
        hit_time(path@, level, down) matches Some(t) ==> 0 <= t < path@.len() <= usize::MAX,
{
    assert(path@.len() == path.len());
    if let Some(l) = level {
        lemma_first_hit(path@, l, down);
    }
}

/// The number of paths on which a barrier is hit never exceeds the number of
/// paths.
pub proof fn lemma_hit_count_at_most_paths(paths: Seq<Vec<i64>>, level: Option<i64>, down: bool)
    ensures
        hit_count(paths, level, down) <= paths.len(),
    decreases paths.len(),
{
    if paths.len() > 0 {
        lemma_hit_count_at_most_paths(paths.drop_last(), level, down);
    }
}

proof fn lemma_hit_time_total_bound(paths: Seq<Vec<i64>>, level: Option<i64>, down: bool)
    ensures
        hit_time_total(paths, level, down) <= paths.len() * 0x1_0000_0000_0000_0000,
    decreases paths.len(),
{
    if paths.len() > 0 {
        lemma_hit_time_total_bound(paths.drop_last(), level, down);
        lemma_hit_time_bound(paths.last(), level, down);
    }
}

proof fn lemma_no_hits_no_time(paths: Seq<Vec<i64>>, level: Option<i64>, down: bool)
    requires
        hit_count(paths, level, down) == 0,
    ensures
        hit_time_total(paths, level, down) == 0,
    decreases paths.len(),
{
    if paths.len() > 0 {
        lemma_no_hits_no_time(paths.drop_last(), level, down);
    }
}

proof fn lemma_event_is_hit_time(path: Vec<i64>, level: Option<i64>, down: bool)
    ensures
        optional_event(path@, level, down) is Some <==> hit_time(path@, level, down) is Some,
        optional_event(path@, level, down) matches Some(e) ==> e.hit && e.time_step is Some
            && e.time_step->0 as int == hit_time(path@, level, down)->0,
{
    lemma_hit_time_bound(path, level, down);
}

/// The statistics of a set of paths grow path by path: adding one path adds
/// one to both probability denominators, adds one to a probability numerator
/// exactly when that barrier's check reports a hit on the new path, and adds
/// the reported hit step to that barrier's total of hit steps (the numerator
/// of its mean hit time, zero while there is none).
pub proof fn lemma_hit_statistics_add_path(
    paths: Seq<Vec<i64>>,
    path: Vec<i64>,
    stop_loss: Option<i64>,
    target: Option<i64>,
)
    requires
        paths.len() > 0,
        paths.len() < usize::MAX,
    ensures
        ({
            let before = hit_statistics(paths, stop_loss, target);
            let after = hit_statistics(paths.push(path), stop_loss, target);
            let sl = optional_event(path@, stop_loss, true);
            let tg = optional_event(path@, target, false);
            &&& after.0.denominator == before.0.denominator + 1
            &&& after.1.denominator == before.1.denominator + 1
            &&& after.0.numerator == before.0.numerator + if sl is Some {
                1int
            } else {
                0int
            }
            &&& after.1.numerator == before.1.numerator + if tg is Some {
                1int
            } else {
                0int
            }
            &&& (match after.2 {
                Some(r) => r.numerator as int,
                None => 0int,
            }) == (match before.2 {
                Some(r) => r.numerator as int,
                None => 0int,
            }) + (match sl {
                Some(e) => e.time_step->0 as int,
                None => 0int,
            })
            &&& (match after.3 {
                Some(r) => r.numerator as int,
                None => 0int,
            }) == (match before.3 {
                Some(r) => r.numerator as int,
                None => 0int,
            }) + (match tg {
                Some(e) => e.time_step->0 as int,
                None => 0int,
            })
        }),
{
    let grown = paths.push(path);
    assert(grown.drop_last() == paths);
    assert(grown.last() == path);
    lemma_event_is_hit_time(path, stop_loss, true);
    lemma_event_is_hit_time(path, target, false);
    lemma_hit_count_at_most_paths(grown, stop_loss, true);
    lemma_hit_count_at_most_paths(grown, target, false);
    lemma_hit_time_total_bound(grown, stop_loss, true);
    lemma_hit_time_total_bound(grown, target, false);
    lemma_hit_count_at_most_paths(paths, stop_loss, true);
    lemma_hit_count_at_most_paths(paths, target, false);
    lemma_hit_time_total_bound(paths, stop_loss, true);
    lemma_hit_time_total_bound(paths, target, false);
    assert(grown.len() * 0x1_0000_0000_0000_0000 <= u128::MAX);
    if hit_count(paths, stop_loss, true) == 0 {
        lemma_no_hits_no_time(paths, stop_loss, true);
    }
    if hit_count(paths, target, false) == 0 {
        lemma_no_hits_no_time(paths, target, false);
    }
    if hit_count(grown, stop_loss, true) == 0 {
        lemma_no_hits_no_time(grown, stop_loss, true);
    }
    if hit_count(grown, target, false) == 0 {
        lemma_no_hits_no_time(grown, target, false);
    }
}

/// The statistics of a single path are those of its barrier checks: a
/// probability of one when the barrier is reported hit (zero otherwise), and a
/// mean hit time equal to the reported hit step.
pub proof fn lemma_hit_statistics_single_path(
    path: Vec<i64>,
    stop_loss: Option<i64>,
    target: Option<i64>,
)
    ensures
        ({
            let s = hit_statistics(seq![path], stop_loss, target);
            let sl = optional_event(path@, stop_loss, true);
            let tg = optional_event(path@, target, false);
            &&& s.0 == Ratio { numerator: if sl is Some { 1 } else { 0 }, denominator: 1 }
            &&& s.1 == Ratio { numerator: if tg is Some { 1 } else { 0 }, denominator: 1 }
            &&& s.2 == match sl {
                Some(e) => Some(Ratio { numerator: e.time_step->0 as u128, denominator: 1 }),
                None => None,
            }
            &&& s.3 == match tg {
                Some(e) => Some(Ratio { numerator: e.time_step->0 as u128, denominator: 1 }),
                None => None,
            }
        }),
{
    let one = seq![path];
    assert(one.drop_last() =~= Seq::<Vec<i64>>::empty());
    assert(one.last() == path);
    assert(one.len() == 1);
    assert(hit_count(one.drop_last(), stop_loss, true) == 0);
    assert(hit_count(one.drop_last(), target, false) == 0);
    assert(hit_time_total(one.drop_last(), stop_loss, true) == 0);
    assert(hit_time_total(one.drop_last(), target, false) == 0);
    lemma_event_is_hit_time(path, stop_loss, true);
    lemma_event_is_hit_time(path, target, false);
    assert(hit_count(one, stop_loss, true) == if hit_time(path@, stop_loss, true) is Some { 1nat } else { 0nat });
    assert(hit_count(one, target, false) == if hit_time(path@, target, false) is Some { 1nat } else { 0nat });
    assert(hit_time_total(one, stop_loss, true) == match hit_time(path@, stop_loss, true) { Some(t) => t as nat, None => 0nat });
    assert(hit_time_total(one, target, false) == match hit_time(path@, target, false) { Some(t) => t as nat, None => 0nat });
}

/// Each barrier's statistics depend on that barrier alone: changing the stop
/// loss leaves the target's probability and mean hit time as they are, and
/// changing the target leaves the stop loss's. A mean hit time is present
/// exactly when some path hits, and it divides by the number of hitting
/// paths, which is the numerator of the hit probability; the probability
/// never exceeds one.
pub proof fn lemma_hit_statistics_per_barrier(
    paths: Seq<Vec<i64>>,
    stop_loss: Option<i64>,
    target: Option<i64>,
    other_stop_loss: Option<i64>,
    other_target: Option<i64>,
)
    requires
        paths.len() <= usize::MAX,
    ensures
        ({
            let s = hit_statistics(paths, stop_loss, target);
            &&& hit_statistics(paths, other_stop_loss, target).1 == s.1
            &&& hit_statistics(paths, other_stop_loss, target).3 == s.3
            &&& hit_statistics(paths, stop_loss, other_target).0 == s.0
            &&& hit_statistics(paths, stop_loss, other_target).2 == s.2
            &&& (s.2 is Some <==> s.0.numerator > 0)
            &&& (s.3 is Some <==> s.1.numerator > 0)
            &&& (s.2 matches Some(r) ==> r.denominator == s.0.numerator)
            &&& (s.3 matches Some(r) ==> r.denominator == s.1.numerator)
            &&& s.0.numerator <= s.0.denominator
            &&& s.1.numerator <= s.1.denominator
            &&& (paths.len() > 0 ==> s.0.denominator == paths.len() && s.1.denominator
                == paths.len())
        }),
{
    lemma_hit_count_at_most_paths(paths, stop_loss, true);
    lemma_hit_count_at_most_paths(paths, target, false);
    lemma_hit_time_total_bound(paths, stop_loss, true);
    lemma_hit_time_total_bound(paths, target, false);
    assert(paths.len() * 0x1_0000_0000_0000_0000 <= u128::MAX);
}

/// Tally the barrier hits of one more path.
fn tally(
    event: Option<BarrierEvent>,
    hits: &mut u128,
    time_total: &mut u128,
)
    requires
        *old(hits) < u128::MAX,
        *old(time_total) + 0x1_0000_0000_0000_0000 <= u128::MAX,
    ensures
        *final(hits) == *old(hits) + if event matches Some(e) && e.hit { 1int } else { 0int },
        *final(time_total) == *old(time_total) + match event {
            Some(e) => if e.hit && e.time_step is Some {
                e.time_step->0 as int
            } else {
                0int
            },
            None => 0int,
        },
{
    if let Some(e) = event {
        if e.hit {
            *hits = *hits + 1;
            if let Some(time) = e.time_step {
                *time_total = *time_total + time as u128;
            }
        }
    }
}

/// Calculate hit probabilities and mean hit times from multiple paths:
/// `(prob_hit_stoploss, prob_hit_target, avg_time_to_stoploss, avg_time_to_target)`.
pub fn calculate_hit_statistics(paths: &[Vec<i64>], stop_loss: Option<i64>, target: Option<i64>) -> (stats: (
    Ratio,
    Ratio,
    Option<Ratio>,
    Option<Ratio>,
))
    ensures
        stats == hit_statistics(paths@, stop_loss, target),
{
    if paths.len() == 0 {
        return (
            Ratio { numerator: 0, denominator: 1 },
            Ratio { numerator: 0, denominator: 1 },
            None,
            None,
        );
    }
    let mut sl_hits: u128 = 0;
    let mut target_hits: u128 = 0;
    let mut sl_time_total: u128 = 0;
    let mut target_time_total: u128 = 0;

    let mut i: usize = 0;
    while i < paths.len()
        invariant
            i <= paths@.len(),
            sl_hits == hit_count(paths@.take(i as int), stop_loss, true),
            target_hits == hit_count(paths@.take(i as int), target, false),
            sl_time_total == hit_time_total(paths@.take(i as int), stop_loss, true),
            target_time_total == hit_time_total(paths@.take(i as int), target, false),
        decreases paths@.len() - i,
    {
        let ghost before = paths@.take(i as int);
        let ghost after = paths@.take(i + 1);
        proof {
            assert(after.drop_last() == before);
            assert(after.last() == paths@[i as int]);
            lemma_hit_count_at_most_paths(before, stop_loss, true);
            lemma_hit_count_at_most_paths(before, target, false);
            lemma_hit_time_total_bound(before, stop_loss, true);
            lemma_hit_time_total_bound(before, target, false);
            assert(i * 0x1_0000_0000_0000_0000 + 0x1_0000_0000_0000_0000 <= u128::MAX);
            lemma_hit_time_bound(paths@[i as int], stop_loss, true);
            lemma_hit_time_bound(paths@[i as int], target, false);
        }
        let (sl_event, target_event) = check_barriers(&paths[i], stop_loss, target);
        tally(sl_event, &mut sl_hits, &mut sl_time_total);
        tally(target_event, &mut target_hits, &mut target_time_total);
        i += 1;
    }
    proof {
        assert(paths@.take(paths@.len() as int) == paths@);
        lemma_hit_count_at_most_paths(paths@, stop_loss, true);
        lemma_hit_count_at_most_paths(paths@, target, false);
    }
    let total = paths.len() as u128;
    let prob_hit_stoploss = Ratio { numerator: sl_hits, denominator: total };
    let prob_hit_target = Ratio { numerator: target_hits, denominator: total };
    let avg_time_to_stoploss = if sl_hits > 0 {
        Some(Ratio { numerator: sl_time_total, denominator: sl_hits })
    } else {
        None
    };
    let avg_time_to_target = if target_hits > 0 {
        Some(Ratio { numerator: target_time_total, denominator: target_hits })
    } else {
        None
    };
    (prob_hit_stoploss, prob_hit_target, avg_time_to_stoploss, avg_time_to_target)
}

} // verus!

//! Movement statistics over the recorded samples of a user.

use crate::double::Double;
use crate::protocol::Message;
use crate::text::copy_text;
use crate::trips::coords_equal;
use vstd::prelude::*;

verus! {

/// A sample as the database keeps it.
#[derive(Debug, Clone, Copy, PartialEq, Eq, Structural)]
pub struct PositionRecord {
    pub trip_id: i64,
    pub ts: i64,
    pub lat: Double,
    pub lon: Double,
    pub stopped: bool,
}

/// Two samples further apart than this many seconds say nothing of the time
/// between them.
pub const MAX_SAMPLE_GAP_SECS: i64 = 90;

/// The largest number of samples whose gaps add up within an `i64`.
pub const MAX_SAMPLES: u64 = 102_481_911_520_608_620;

/// What is told of an interval that ends before it begins.
pub const BAD_INTERVAL: &'static str = "intervallo temporale non valido";

/// The statistics of a user over an interval.
#[derive(Debug, Clone, PartialEq)]
pub struct MovementStats {
    pub username: String,
    pub from_ts: i64,
    pub to_ts: i64,
    pub distance_m: Double,
    pub movement_secs: i64,
    pub pause_secs: i64,
    pub total_secs: i64,
    pub avg_speed_mps: Double,
    pub avg_speed_kmh: Double,
    pub points: i64,
}

/// The part of the statistics that is counted in whole seconds, with the
/// stretches whose lengths add up to the distance.
#[derive(Debug)]
pub struct MovementTally {
    pub username: String,
    pub from_ts: i64,
    pub to_ts: i64,
    pub movement_secs: i64,
    pub pause_secs: i64,
    pub total_secs: i64,
    pub points: i64,
    /// The stretches in motion: `i` stands for the one from sample `i` to
    /// sample `i + 1`.
    pub moving: Vec<usize>,
}

/// Samples are kept by trip, and within a trip by time.
pub open spec fn before(a: PositionRecord, b: PositionRecord) -> bool {
    a.trip_id < b.trip_id || (a.trip_id == b.trip_id && a.ts < b.ts)
}

/// Samples in order: no later one belongs before an earlier one.
pub open spec fn in_order(points: Seq<PositionRecord>) -> bool {
    forall|i: int, j: int|
        0 <= i < j < points.len() ==> !before(#[trigger] points[j], #[trigger] points[i])
}

/// `s` with `x` put in behind all that it does not belong before.
pub open spec fn put_in(s: Seq<PositionRecord>, x: PositionRecord) -> Seq<PositionRecord>
    decreases s.len(),
{
    if s.len() == 0 || !before(x, s.last()) {
        s.push(x)
    } else {
        put_in(s.drop_last(), x).push(s.last())
    }
}

/// Those of the samples that lie in an interval, in order. Of two with the same
/// trip and time, the one that came first stays first.
pub open spec fn trajectory(rows: Seq<PositionRecord>, from_ts: i64, to_ts: i64) -> Seq<
    PositionRecord,
>
    decreases rows.len(),
{
    if rows.len() == 0 {
        rows
    } else {
        let earlier = trajectory(rows.drop_last(), from_ts, to_ts);
        if from_ts <= rows.last().ts <= to_ts {
            put_in(earlier, rows.last())
        } else {
            earlier
        }
    }
}

fn belongs_before(a: PositionRecord, b: PositionRecord) -> (r: bool)
    ensures
        r == before(a, b),
{
    a.trip_id < b.trip_id || (a.trip_id == b.trip_id && a.ts < b.ts)
}

fn put_sample(points: &mut Vec<PositionRecord>, x: PositionRecord)
    ensures
        final(points)@ == put_in(old(points)@, x),
{
    let ghost s = points@;
    let mut j: usize = points.len();
    assert(s.take(j as int) =~= s);
    assert(put_in(s, x) =~= put_in(s.take(j as int), x) + s.skip(j as int));
    while j > 0 && belongs_before(x, points[j - 1])
        invariant
            points@ == s,
            j <= s.len(),
            put_in(s, x) == put_in(s.take(j as int), x) + s.skip(j as int),
        decreases j,
    {
        let ghost t = s.take(j as int);
        assert(t.drop_last() =~= s.take(j - 1));
        assert(put_in(t, x) + s.skip(j as int) =~= put_in(s.take(j - 1), x) + s.skip(j - 1));
        j = j - 1;
    }
    points.insert(j, x);
    assert(s.insert(j as int, x) =~= s.take(j as int).push(x) + s.skip(j as int));
}

/// The samples of a user over an interval, in order, out of those that the
/// database has of the user. An interval that ends before it begins is refused.
pub fn trajectory_for_user(rows: &[PositionRecord], from_ts: i64, to_ts: i64) -> (r: Result<
    Vec<PositionRecord>,
    String,
>)
    ensures
        match r {
            Ok(points) => from_ts <= to_ts && points@ == trajectory(rows@, from_ts, to_ts),
            Err(e) => from_ts > to_ts && e@ == BAD_INTERVAL@,
        },
{
    if from_ts > to_ts {
        return Err(copy_text(BAD_INTERVAL));
    }
    let n: usize = rows.len();
    let mut points: Vec<PositionRecord> = Vec::new();
    let mut i: usize = 0;
    while i < n
        invariant
            n == rows@.len(),
            i <= n,
            points@ == trajectory(rows@.take(i as int), from_ts, to_ts),
        decreases n - i,
    {
        let row = rows[i];
        assert(rows@.take(i + 1).drop_last() =~= rows@.take(i as int));
        if from_ts <= row.ts && row.ts <= to_ts {
            put_sample(&mut points, row);
        }
        i = i + 1;
    }
    assert(rows@.take(n as int) =~= rows@);
    Ok(points)
}

proof fn lemma_put_in(s: Seq<PositionRecord>, x: PositionRecord)
    ensures
        put_in(s, x).to_multiset() == s.to_multiset().insert(x),
        in_order(s) ==> in_order(put_in(s, x)),
    decreases s.len(),
{
    broadcast use vstd::seq_lib::group_to_multiset_ensures;
    broadcast use vstd::multiset::group_multiset_axioms;

    if s.len() == 0 || !before(x, s.last()) {
    } else {
        let t = s.drop_last();
        let r = put_in(t, x);
        lemma_put_in(t, x);
        assert(t.push(s.last()) =~= s);
        assert(put_in(s, x).to_multiset() =~= s.to_multiset().insert(x));
        if in_order(s) {
            assert forall|i: int, j: int| 0 <= i < j < put_in(s, x).len() implies !before(
                #[trigger] put_in(s, x)[j],
                #[trigger] put_in(s, x)[i],
            ) by {
                if j == r.len() && r[i] != x {
                    assert(r.contains(r[i]));
                    assert(r.to_multiset().count(r[i]) > 0);
                    assert(t.to_multiset().count(r[i]) > 0);
                    assert(t.contains(r[i]));
                    let k = choose|k: int| 0 <= k < t.len() && t[k] == r[i];
                    assert(s[k] == r[i]);
                }
            }
        }
    }
}

/// The samples of an interval are exactly those of the user's that lie in it,
/// each as often as it was recorded, by trip and then by time.
pub proof fn law_trajectory_is_the_interval_in_order(
    rows: Seq<PositionRecord>,
    from_ts: i64,
    to_ts: i64,
)
    ensures
        in_order(trajectory(rows, from_ts, to_ts)),
        trajectory(rows, from_ts, to_ts).to_multiset() == rows.to_multiset().filter(
            |p: PositionRecord| from_ts <= p.ts <= to_ts,
        ),
    decreases rows.len(),
{
    broadcast use vstd::seq_lib::group_to_multiset_ensures;
    broadcast use vstd::multiset::group_multiset_axioms;

    let keep = |p: PositionRecord| from_ts <= p.ts <= to_ts;
    if rows.len() == 0 {
        assert(rows.to_multiset() =~= vstd::multiset::Multiset::empty());
        assert(rows.to_multiset().filter(keep) =~= vstd::multiset::Multiset::empty());
    } else {
        let earlier = rows.drop_last();
        law_trajectory_is_the_interval_in_order(earlier, from_ts, to_ts);
        assert(earlier.push(rows.last()) =~= rows);
        assert(rows.to_multiset() =~= earlier.to_multiset().insert(rows.last()));
        lemma_put_in(trajectory(earlier, from_ts, to_ts), rows.last());
        assert(trajectory(rows, from_ts, to_ts).to_multiset() =~= rows.to_multiset().filter(keep));
    }
}

/// What a tally counts.
pub struct TallyView {
    pub username: Seq<char>,
    pub from_ts: i64,
    pub to_ts: i64,
    pub movement_secs: int,
    pub pause_secs: int,
    pub total_secs: int,
    pub points: int,
    pub moving: Seq<usize>,
}

impl View for MovementTally {
    type V = TallyView;

    open spec fn view(&self) -> TallyView {
        TallyView {
            username: self.username@,
            from_ts: self.from_ts,
            to_ts: self.to_ts,
            movement_secs: self.movement_secs as int,
            pause_secs: self.pause_secs as int,
            total_secs: self.total_secs as int,
            points: self.points as int,
            moving: self.moving@,
        }
    }
}

/// The seconds from one sample to the next.
pub open spec fn gap(a: PositionRecord, b: PositionRecord) -> int {
    b.ts - a.ts
}

/// The stretch between two samples counts: they belong to one trip, the second
/// is later, and not too late.
pub open spec fn counted(a: PositionRecord, b: PositionRecord) -> bool {
    a.trip_id == b.trip_id && 0 < gap(a, b) <= MAX_SAMPLE_GAP_SECS
}

/// The vehicle stood still on the stretch that ends in `b`.
pub open spec fn paused(b: PositionRecord, distance: Double) -> bool {
    b.stopped || crate::trips::near(distance)
}

/// The stretch from sample `i` to the next one is in motion.
pub open spec fn in_motion(points: Seq<PositionRecord>, distances: Seq<Double>, i: int) -> bool {
    counted(points[i], points[i + 1]) && !paused(points[i + 1], distances[i])
}

/// The stretch from sample `i` to the next one is a pause.
pub open spec fn at_rest(points: Seq<PositionRecord>, distances: Seq<Double>, i: int) -> bool {
    counted(points[i], points[i + 1]) && paused(points[i + 1], distances[i])
}

/// The seconds of the first `n` stretches that count.
pub open spec fn total_of(points: Seq<PositionRecord>, n: nat) -> int
    decreases n,
{
    if n == 0 {
        0
    } else {
        total_of(points, (n - 1) as nat) + if counted(points[n - 1], points[n as int]) {
            gap(points[n - 1], points[n as int])
        } else {
            0
        }
    }
}

/// The seconds of those of the first `n` stretches that are in motion.
pub open spec fn movement_of(points: Seq<PositionRecord>, distances: Seq<Double>, n: nat) -> int
    decreases n,
{
    if n == 0 {
        0
    } else {
        movement_of(points, distances, (n - 1) as nat) + if in_motion(points, distances, n - 1) {
            gap(points[n - 1], points[n as int])
        } else {
            0
        }
    }
}

/// The seconds of those of the first `n` stretches that are pauses.
pub open spec fn pause_of(points: Seq<PositionRecord>, distances: Seq<Double>, n: nat) -> int
    decreases n,
{
    if n == 0 {
        0
    } else {
        pause_of(points, distances, (n - 1) as nat) + if at_rest(points, distances, n - 1) {
            gap(points[n - 1], points[n as int])
        } else {
            0
        }
    }
}

/// Those of the first `n` stretches that are in motion, in order.
pub open spec fn moving_of(points: Seq<PositionRecord>, distances: Seq<Double>, n: nat) -> Seq<
    usize,
>
    decreases n,
{
    if n == 0 {
        Seq::empty()
    } else {
        let before = moving_of(points, distances, (n - 1) as nat);
        if in_motion(points, distances, n - 1) {
            before.push((n - 1) as usize)
        } else {
            before
        }
    }
}

/// How many stretches the samples make.
pub open spec fn stretches(points: Seq<PositionRecord>) -> nat {
    if points.len() == 0 {
        0
    } else {
        (points.len() - 1) as nat
    }
}

/// The tally of a user's samples.
pub open spec fn tally(
    username: Seq<char>,
    from_ts: i64,
    to_ts: i64,
    points: Seq<PositionRecord>,
    distances: Seq<Double>,
) -> TallyView {
    TallyView {
        username,
        from_ts,
        to_ts,
        movement_secs: movement_of(points, distances, stretches(points)),
        pause_secs: pause_of(points, distances, stretches(points)),
        total_secs: total_of(points, stretches(points)),
        points: points.len() as int,
        moving: moving_of(points, distances, stretches(points)),
    }
}

/// The seconds fit in an `i64`: those of each stretch within a trip, and all of
/// those that can count.
pub open spec fn fits(points: Seq<PositionRecord>) -> bool {
    &&& points.len() * MAX_SAMPLE_GAP_SECS <= i64::MAX
    &&& forall|i: int|
        0 <= i < points.len() - 1 && (#[trigger] points[i]).trip_id == points[i + 1].trip_id
            ==> i64::MIN <= gap(points[i], points[i + 1]) <= i64::MAX
}

/// Whether the seconds of a list of samples fit in an `i64`.
pub fn trajectory_fits(points: &[PositionRecord]) -> (b: bool)
    ensures
        b == fits(points@),
{
    let n: usize = points.len();
    if n as u64 > MAX_SAMPLES {
        return false;
    }
    let mut i: usize = 1;
    while i < n
        invariant
            n == points@.len(),
            1 <= i,
            n > 0 ==> i <= n,
            forall|j: int|
                0 <= j < i - 1 && (#[trigger] points@[j]).trip_id == points@[j + 1].trip_id
                    ==> i64::MIN <= gap(points@[j], points@[j + 1]) <= i64::MAX,
        decreases n - i,
    {
        let a = points[i - 1];
        let b = points[i];
        if a.trip_id == b.trip_id && b.ts.checked_sub(a.ts).is_none() {
            assert(points@[i - 1].trip_id == points@[i - 1 + 1].trip_id);
            return false;
        }
        i = i + 1;
    }
    true
}

proof fn lemma_bounds(points: Seq<PositionRecord>, distances: Seq<Double>, n: nat)
    ensures
        movement_of(points, distances, n) + pause_of(points, distances, n) == total_of(points, n),
        0 <= movement_of(points, distances, n),
        0 <= pause_of(points, distances, n),
        total_of(points, n) <= n * MAX_SAMPLE_GAP_SECS,
    decreases n,
{
    if n > 0 {
        lemma_bounds(points, distances, (n - 1) as nat);
    }
}

/// Counts the seconds in motion and at rest between the samples of a user.
/// `distances[i]` is the distance in metres from sample `i` to sample `i + 1`.
pub fn compute_movement_stats(
    username: &str,
    from_ts: i64,
    to_ts: i64,
    points: &[PositionRecord],
    distances: &[Double],
) -> (t: MovementTally)
    requires
        fits(points@),
        stretches(points@) <= distances@.len(),
    ensures
        t@ == tally(username@, from_ts, to_ts, points@, distances@),
{
    let n: usize = points.len();
    let mut movement_secs: i64 = 0;
    let mut pause_secs: i64 = 0;
    let mut total_secs: i64 = 0;
    let mut moving: Vec<usize> = Vec::new();
    let mut i: usize = 1;
    while i < n
        invariant
            n == points@.len(),
            1 <= i,
            n > 0 ==> i <= n,
            n == 0 ==> i == 1,
            fits(points@),
            stretches(points@) <= distances@.len(),
            total_secs == total_of(points@, (i - 1) as nat),
            movement_secs == movement_of(points@, distances@, (i - 1) as nat),
            pause_secs == pause_of(points@, distances@, (i - 1) as nat),
            moving@ == moving_of(points@, distances@, (i - 1) as nat),
        decreases n - i,
    {
        let a = points[i - 1];
        let b = points[i];
        proof {
            lemma_bounds(points@, distances@, (i - 1) as nat);
            lemma_bounds(points@, distances@, i as nat);
            assert(points@[i - 1].trip_id == points@[i - 1 + 1].trip_id ==> i64::MIN <= gap(
                points@[i - 1],
                points@[i - 1 + 1],
            ) <= i64::MAX);
            assert(i * MAX_SAMPLE_GAP_SECS <= points@.len() * MAX_SAMPLE_GAP_SECS)
                by (nonlinear_arith)
                requires
                    i <= points@.len(),
            ;
        }
        if a.trip_id == b.trip_id {
            let dt: i64 = b.ts - a.ts;
            if 0 < dt && dt <= MAX_SAMPLE_GAP_SECS {
                total_secs = total_secs + dt;
                if b.stopped || coords_equal(distances[i - 1]) {
                    pause_secs = pause_secs + dt;
                } else {
                    moving.push(i - 1);
                    movement_secs = movement_secs + dt;
                }
            }
        }
        i = i + 1;
    }
    MovementTally {
        username: copy_text(username),
        from_ts,
        to_ts,
        movement_secs,
        pause_secs,
        total_secs,
        points: n as i64,
        moving,
    }
}

/// What an average speed is divided by: the seconds in motion, when there are
/// any. With none the average is zero.
pub fn speed_divisor(tally: &MovementTally) -> (secs: Option<i64>)
    ensures
        secs == (if tally.movement_secs > 0 {
            Some(tally.movement_secs)
        } else {
            None
        }),
{
    if tally.movement_secs > 0 {
        Some(tally.movement_secs)
    } else {
        None
    }
}

/// Completes the statistics with the distance and the average speeds.
pub fn complete_stats(
    tally: MovementTally,
    distance_m: Double,
    avg_speed_mps: Double,
    avg_speed_kmh: Double,
) -> (s: MovementStats)
    ensures
        s == (MovementStats {
            username: tally.username,
            from_ts: tally.from_ts,
            to_ts: tally.to_ts,
            distance_m,
            movement_secs: tally.movement_secs,
            pause_secs: tally.pause_secs,
            total_secs: tally.total_secs,
            avg_speed_mps,
            avg_speed_kmh,
            points: tally.points,
        }),
{
    MovementStats {
        username: tally.username,
        from_ts: tally.from_ts,
        to_ts: tally.to_ts,
        distance_m,
        movement_secs: tally.movement_secs,
        pause_secs: tally.pause_secs,
        total_secs: tally.total_secs,
        avg_speed_mps,
        avg_speed_kmh,
        points: tally.points,
    }
}

/// The message that carries statistics to a client.
pub fn stats_message(s: MovementStats) -> (m: Message)
    ensures
        m == (Message::StatsResult {
            username: s.username,
            from_ts: s.from_ts,
            to_ts: s.to_ts,
            distance_m: s.distance_m,
            movement_secs: s.movement_secs,
            pause_secs: s.pause_secs,
            total_secs: s.total_secs,
            avg_speed_mps: s.avg_speed_mps,
            avg_speed_kmh: s.avg_speed_kmh,
            points: s.points,
        }),
{
    Message::StatsResult {
        username: s.username,
        from_ts: s.from_ts,
        to_ts: s.to_ts,
        distance_m: s.distance_m,
        movement_secs: s.movement_secs,
        pause_secs: s.pause_secs,
        total_secs: s.total_secs,
        avg_speed_mps: s.avg_speed_mps,
        avg_speed_kmh: s.avg_speed_kmh,
        points: s.points,
    }
}

/// The time that counts is time in motion or time at rest, and no stretch adds
/// more than a minute and a half.
pub proof fn law_motion_and_rest_make_the_total(
    points: Seq<PositionRecord>,
    distances: Seq<Double>,
)
    ensures
        movement_of(points, distances, stretches(points)) + pause_of(
            points,
            distances,
            stretches(points),
        ) == total_of(points, stretches(points)),
        0 <= movement_of(points, distances, stretches(points)),
        0 <= pause_of(points, distances, stretches(points)),
        total_of(points, stretches(points)) <= stretches(points) * MAX_SAMPLE_GAP_SECS,
{
    lemma_bounds(points, distances, stretches(points));
}

proof fn lemma_prefix(
    a: Seq<PositionRecord>,
    b: Seq<PositionRecord>,
    da: Seq<Double>,
    d: Double,
    db: Seq<Double>,
    n: nat,
)
    requires
        da.len() + 1 == a.len(),
        n < a.len(),
    ensures
        total_of(a + b, n) == total_of(a, n),
        movement_of(a + b, da.push(d) + db, n) == movement_of(a, da, n),
        pause_of(a + b, da.push(d) + db, n) == pause_of(a, da, n),
        moving_of(a + b, da.push(d) + db, n) == moving_of(a, da, n),
    decreases n,
{
    if n > 0 {
        lemma_prefix(a, b, da, d, db, (n - 1) as nat);
        assert((a + b)[n - 1] == a[n - 1]);
        assert((a + b)[n as int] == a[n as int]);
        assert((da.push(d) + db)[n - 1] == da[n - 1]);
    }
}

/// The stretches `s`, counted from `by` stretches earlier.
spec fn shifted(s: Seq<usize>, by: nat) -> Seq<usize> {
    s.map_values(|i: usize| (i + by) as usize)
}

proof fn lemma_suffix(
    a: Seq<PositionRecord>,
    b: Seq<PositionRecord>,
    da: Seq<Double>,
    d: Double,
    db: Seq<Double>,
    n: nat,
)
    requires
        da.len() + 1 == a.len(),
        db.len() + 1 == b.len(),
        !counted(a.last(), b[0]),
        n < b.len(),
        a.len() + b.len() <= usize::MAX,
    ensures
        total_of(a + b, a.len() + n) == total_of(a, stretches(a)) + total_of(b, n),
        movement_of(a + b, da.push(d) + db, a.len() + n) == movement_of(a, da, stretches(a))
            + movement_of(b, db, n),
        pause_of(a + b, da.push(d) + db, a.len() + n) == pause_of(a, da, stretches(a)) + pause_of(
            b,
            db,
            n,
        ),
        moving_of(a + b, da.push(d) + db, a.len() + n) == moving_of(a, da, stretches(a))
            + shifted(moving_of(b, db, n), a.len()),
    decreases n,
{
    let i = (a.len() + n) as int;
    assert((a + b)[i] == b[n as int]);
    if n == 0 {
        lemma_prefix(a, b, da, d, db, stretches(a));
        assert((a + b)[i - 1] == a.last());
        assert(moving_of(a, da, stretches(a)) + shifted(moving_of(b, db, n), a.len()) =~= moving_of(
            a,
            da,
            stretches(a),
        ));
    } else {
        lemma_suffix(a, b, da, d, db, (n - 1) as nat);
        assert((a + b)[i - 1] == b[n - 1]);
        assert((da.push(d) + db)[i - 1] == db[n - 1]);
        assert(moving_of(a + b, da.push(d) + db, a.len() + n) =~= moving_of(a, da, stretches(a))
            + shifted(moving_of(b, db, n), a.len()));
    }
}

/// Where the stretch between two lists of samples does not count (two trips, or
/// a hole in the samples), the seconds of both together are the sums of the
/// seconds of each, and the lengths that add up to the distance are those of the
/// one followed by those of the other, whatever the distance between them.
pub proof fn law_trips_are_not_joined(
    a: Seq<PositionRecord>,
    b: Seq<PositionRecord>,
    da: Seq<Double>,
    d: Double,
    db: Seq<Double>,
)
    requires
        da.len() + 1 == a.len(),
        db.len() + 1 == b.len(),
        !counted(a.last(), b[0]),
        a.len() + b.len() <= usize::MAX,
    ensures
        total_of(a + b, stretches(a + b)) == total_of(a, stretches(a)) + total_of(b, stretches(b)),
        movement_of(a + b, da.push(d) + db, stretches(a + b)) == movement_of(a, da, stretches(a))
            + movement_of(b, db, stretches(b)),
        pause_of(a + b, da.push(d) + db, stretches(a + b)) == pause_of(a, da, stretches(a))
            + pause_of(b, db, stretches(b)),
        crate::rules::lengths(
            da.push(d) + db,
            moving_of(a + b, da.push(d) + db, stretches(a + b)),
        ) == crate::rules::lengths(da, moving_of(a, da, stretches(a))) + crate::rules::lengths(
            db,
            moving_of(b, db, stretches(b)),
        ),
{
    lemma_suffix(a, b, da, d, db, stretches(b));
    law_moving_lists_the_motion(a, da, stretches(a));
    law_moving_lists_the_motion(b, db, stretches(b));
    let (ma, mb) = (moving_of(a, da, stretches(a)), moving_of(b, db, stretches(b)));
    let all = da.push(d) + db;
    let m = ma + shifted(mb, a.len());
    assert(crate::rules::lengths(all, m) =~= crate::rules::lengths(da, ma)
        + crate::rules::lengths(db, mb)) by {
        assert forall|k: int| 0 <= k < m.len() implies all[#[trigger] m[k] as int] == (
        crate::rules::lengths(da, ma) + crate::rules::lengths(db, mb))[k] by {
            if k < ma.len() {
                assert(m[k] == ma[k]);
            } else {
                assert(m[k] == mb[k - ma.len()] + a.len());
            }
        }
    }
}

/// The rule for samples and the statistics agree on what a stop is: a sample
/// that is recorded as a stop ends a pause, however far it is said to be, and on
/// the distance by which a sample was judged, the stretch to it is a pause
/// exactly when the trip was not seen to move.
pub proof fn law_stops_are_pauses(
    c: crate::trips::CoordState,
    recorded: PositionRecord,
    distance: Double,
    other: Double,
)
    requires
        crate::trips::sample(c, recorded.lat, recorded.lon, distance).1 == (
        crate::trips::InsertAction::Insert { stopped: recorded.stopped }),
    ensures
        recorded.stopped ==> paused(recorded, other),
        paused(recorded, distance) <==> crate::trips::sample(
            c,
            recorded.lat,
            recorded.lon,
            distance,
        ).2 != crate::trips::StatusTransition::ToMoving,
{
}

/// Exactly the stretches in motion are listed, each once and in order.
pub proof fn law_moving_lists_the_motion(
    points: Seq<PositionRecord>,
    distances: Seq<Double>,
    n: nat,
)
    requires
        n <= usize::MAX,
    ensures
        forall|k: int|
            0 <= k < moving_of(points, distances, n).len() ==> (#[trigger] moving_of(
                points,
                distances,
                n,
            )[k]) < n && in_motion(points, distances, moving_of(points, distances, n)[k] as int),
        forall|j: int, k: int|
            0 <= j < k < moving_of(points, distances, n).len() ==> (#[trigger] moving_of(
                points,
                distances,
                n,
            )[j]) < (#[trigger] moving_of(points, distances, n)[k]),
        forall|i: usize|
            i < n && #[trigger] in_motion(points, distances, i as int) ==> moving_of(
                points,
                distances,
                n,
            ).contains(i),
    decreases n,
{
    if n > 0 {
        law_moving_lists_the_motion(points, distances, (n - 1) as nat);
        let before = moving_of(points, distances, (n - 1) as nat);
        let after = moving_of(points, distances, n);
        assert forall|i: usize| i < n && #[trigger] in_motion(points, distances, i as int) implies
            after.contains(i) by {
            if i < n - 1 {
                let k = choose|k: int| 0 <= k < before.len() && before[k] == i;
                assert(after[k] == i);
            } else {
                assert(after.last() == i);
            }
        }
    }
}

/// The samples of an interval are ordered by the number of their trip, and within
/// a trip by time.
pub proof fn law_trajectory_is_by_trip_and_time(
    rows: Seq<PositionRecord>,
    from_ts: i64,
    to_ts: i64,
    i: int,
    j: int,
)
    requires
        0 <= i < j < trajectory(rows, from_ts, to_ts).len(),
    ensures
        ({
            let p = trajectory(rows, from_ts, to_ts)[i];
            let q = trajectory(rows, from_ts, to_ts)[j];
            p.trip_id < q.trip_id || (p.trip_id == q.trip_id && p.ts <= q.ts)
        }),
{
    law_trajectory_is_the_interval_in_order(rows, from_ts, to_ts);
}

proof fn lemma_put_in_last(s: Seq<PositionRecord>, x: PositionRecord, trip: i64, ts: i64)
    ensures
        ({
            let same = |p: PositionRecord| p.trip_id == trip && p.ts == ts;
            put_in(s, x).filter(same) == (if same(x) {
                s.filter(same).push(x)
            } else {
                s.filter(same)
            })
        }),
    decreases s.len(),
{
    reveal(Seq::filter);
    let same = |p: PositionRecord| p.trip_id == trip && p.ts == ts;
    if s.len() == 0 || !before(x, s.last()) {
        assert(s.push(x).drop_last() =~= s);
    } else {
        let rest = put_in(s.drop_last(), x);
        lemma_put_in_last(s.drop_last(), x, trip, ts);
        assert(rest.push(s.last()).drop_last() =~= rest);
    }
}

/// Samples of one trip with one time stay in the order in which they came: those
/// of the interval are exactly those among the rows, one after the other.
pub proof fn law_samples_at_one_time_stay_in_order(
    rows: Seq<PositionRecord>,
    from_ts: i64,
    to_ts: i64,
    trip: i64,
    ts: i64,
)
    requires
        from_ts <= ts <= to_ts,
    ensures
        trajectory(rows, from_ts, to_ts).filter(
            |p: PositionRecord| p.trip_id == trip && p.ts == ts,
        ) == rows.filter(|p: PositionRecord| p.trip_id == trip && p.ts == ts),
    decreases rows.len(),
{
    reveal(Seq::filter);
    if rows.len() > 0 {
        let earlier = rows.drop_last();
        law_samples_at_one_time_stay_in_order(earlier, from_ts, to_ts, trip, ts);
        lemma_put_in_last(trajectory(earlier, from_ts, to_ts), rows.last(), trip, ts);
    }
}

/// One sample alone, or none, makes no time and no distance.
pub proof fn law_few_samples_count_nothing(
    username: Seq<char>,
    from_ts: i64,
    to_ts: i64,
    points: Seq<PositionRecord>,
    distances: Seq<Double>,
)
    requires
        points.len() <= 1,
    ensures
        tally(username, from_ts, to_ts, points, distances) == (TallyView {
            username,
            from_ts,
            to_ts,
            movement_secs: 0,
            pause_secs: 0,
            total_secs: 0,
            points: points.len() as int,
            moving: Seq::empty(),
        }),
{
}

/// What one more sample adds to the statistics. If it belongs to the trip of the
/// sample before it and is later, by at most 90 seconds, those seconds count. They
/// are a pause where the sample is marked as stopped or at most five metres away,
/// and motion otherwise: then the stretch to it is listed too. In every other case
/// nothing is added but the sample.
pub proof fn law_one_more_sample(
    username: Seq<char>,
    from_ts: i64,
    to_ts: i64,
    points: Seq<PositionRecord>,
    distances: Seq<Double>,
    b: PositionRecord,
    d: Double,
)
    requires
        distances.len() + 1 == points.len(),
    ensures
        ({
            let t0 = tally(username, from_ts, to_ts, points, distances);
            let t1 = tally(username, from_ts, to_ts, points.push(b), distances.push(d));
            let dt = b.ts - points.last().ts;
            let counts = points.last().trip_id == b.trip_id && 0 < dt <= 90;
            let pause = b.stopped || (!d.is_nan() && d.value() <= crate::double::units(5));
            t1 == (TallyView {
                username,
                from_ts,
                to_ts,
                points: t0.points + 1,
                total_secs: t0.total_secs + if counts {
                    dt
                } else {
                    0
                },
                pause_secs: t0.pause_secs + if counts && pause {
                    dt
                } else {
                    0
                },
                movement_secs: t0.movement_secs + if counts && !pause {
                    dt
                } else {
                    0
                },
                moving: if counts && !pause {
                    t0.moving.push((points.len() - 1) as usize)
                } else {
                    t0.moving
                },
            })
        }),
{
    let one = seq![b];
    lemma_prefix(points, one, distances, d, Seq::empty(), stretches(points));
    assert(points + one =~= points.push(b));
    assert(distances.push(d) + Seq::<Double>::empty() =~= distances.push(d));
    crate::trips::law_movement_threshold();
    let n = points.len();
    assert(points.push(b)[n as int] == b);
    assert(points.push(b)[n - 1] == points.last());
    assert(distances.push(d)[n - 1] == d);
}

/// The seconds of samples fit where those between neighbours of one trip are
/// within an `i64`, and ninety for each sample are too.
pub proof fn law_fits(points: Seq<PositionRecord>)
    ensures
        fits(points) <==> points.len() * 90 <= i64::MAX && forall|i: int|
            0 <= i < points.len() - 1 && (#[trigger] points[i]).trip_id == points[i + 1].trip_id
                ==> i64::MIN <= points[i + 1].ts - points[i].ts <= i64::MAX,
{
    if fits(points) {
        assert forall|i: int|
            0 <= i < points.len() - 1 && (#[trigger] points[i]).trip_id == points[i
                + 1].trip_id implies i64::MIN <= points[i + 1].ts - points[i].ts
            <= i64::MAX by {
            assert(i64::MIN <= gap(points[i], points[i + 1]) <= i64::MAX);
        }
    }
}

/// The view of a tally is what it counts.
pub proof fn law_tally_view(t: MovementTally)
    ensures
        t@ == (TallyView {
            username: t.username@,
            from_ts: t.from_ts,
            to_ts: t.to_ts,
            movement_secs: t.movement_secs as int,
            pause_secs: t.pause_secs as int,
            total_secs: t.total_secs as int,
            points: t.points as int,
            moving: t.moving@,
        }),
{
}

}

//! Join-flood ("raid") detection: a windowed join counter, and the open
//! raid window with its roster.
//!
//! Enough joins inside the configured timespan open a window.  While the
//! window is open every further joiner goes onto its roster instead of
//! receiving automatic roles, and each such join pushes the window's
//! expiration out.  A window that has seen no join for the configured
//! expiration time lapses and is kept only as the last raid.

use vstd::prelude::*;

verus! {

/// An open or past raid window: when it started, when it last grew, and
/// who joined while it was open.
pub struct RaidInfo {
    pub raid_started: u64,
    pub last_join: u64,
    pub raiders: Vec<u64>,
}

/// Mathematical model of a raid window.
#[verifier::ext_equal]
pub ghost struct RaidInfoModel {
    pub raid_started: u64,
    pub last_join: u64,
    pub raiders: Seq<u64>,
}

impl View for RaidInfo {
    type V = RaidInfoModel;

    open spec fn view(&self) -> RaidInfoModel {
        RaidInfoModel {
            raid_started: self.raid_started,
            last_join: self.last_join,
            raiders: self.raiders@,
        }
    }
}

/// The raid state of one community: the timestamps of recent joins, the
/// open window if any, and the last window that lapsed.
pub struct RaidDetector {
    recent_joins: Vec<u64>,
    current_raid: Option<RaidInfo>,
    last_raid: Option<RaidInfo>,
}

/// Mathematical model of the raid state.
#[verifier::ext_equal]
pub ghost struct RaidDetectorModel {
    pub recent_joins: Seq<u64>,
    pub current_raid: Option<RaidInfoModel>,
    pub last_raid: Option<RaidInfoModel>,
}

impl View for RaidDetector {
    type V = RaidDetectorModel;

    closed spec fn view(&self) -> RaidDetectorModel {
        RaidDetectorModel {
            recent_joins: self.recent_joins@,
            current_raid: match self.current_raid {
                Some(ref w) => Some(w@),
                None => None,
            },
            last_raid: match self.last_raid {
                Some(ref w) => Some(w@),
                None => None,
            },
        }
    }
}

/// Whether a window is still open at `now`: it lapses once the
/// configured quiet time has passed since its last join.
pub open spec fn raid_active(r: Option<RaidInfoModel>, autoexpiration: u32, now: u64) -> bool {
    match r {
        Some(w) => now <= w.last_join + autoexpiration,
        None => false,
    }
}

/// The join timestamps still inside the counting window at `now`.
pub open spec fn pruned_joins(joins: Seq<u64>, now: u64, timespan: u32) -> Seq<u64>
    decreases joins.len(),
{
    if joins.len() == 0 {
        Seq::<u64>::empty()
    } else {
        let rest = pruned_joins(joins.drop_last(), now, timespan);
        if joins.last() + timespan >= now {
            rest.push(joins.last())
        } else {
            rest
        }
    }
}

/// What one join does to the raid state (`active` meaning the window was
/// open at that moment): an open window only grows its roster; without
/// one, a lapsed window is retired and the join is counted, opening a
/// fresh window when the count reaches the limit.
pub open spec fn raid_step(
    m: RaidDetectorModel,
    member: u64,
    now: u64,
    timespan: u32,
    limit: u32,
    autoexpiration: u32,
) -> RaidDetectorModel {
    if raid_active(m.current_raid, autoexpiration, now) {
        let w = m.current_raid->0;
        RaidDetectorModel {
            recent_joins: m.recent_joins,
            current_raid: Some(
                RaidInfoModel {
                    raid_started: w.raid_started,
                    last_join: now,
                    raiders: w.raiders.push(member),
                },
            ),
            last_raid: m.last_raid,
        }
    } else {
        let retired = if m.current_raid is Some {
            m.current_raid
        } else {
            m.last_raid
        };
        let counted = pruned_joins(m.recent_joins, now, timespan).push(now);
        if counted.len() >= limit {
            RaidDetectorModel {
                recent_joins: Seq::<u64>::empty(),
                current_raid: Some(
                    RaidInfoModel { raid_started: now, last_join: now, raiders: Seq::<u64>::empty() },
                ),
                last_raid: retired,
            }
        } else {
            RaidDetectorModel { recent_joins: counted, current_raid: None, last_raid: retired }
        }
    }
}

impl RaidDetector {
    /// A detector that has seen nothing yet.
    pub fn new() -> (r: Self)
        ensures
            r@.recent_joins == Seq::<u64>::empty(),
            r@.current_raid is None,
            r@.last_raid is None,
    {
        let r = RaidDetector { recent_joins: Vec::new(), current_raid: None, last_raid: None };
        proof {
            assert(r@.recent_joins =~= Seq::<u64>::empty());
        }
        r
    }

    /// The open raid window, if one is open (lapsed or not).
    pub fn current_raid(&self) -> (r: &Option<RaidInfo>)
        ensures
            r is Some <==> self@.current_raid is Some,
            r is Some ==> (*r)->0@ == self@.current_raid->0,
    {
        &self.current_raid
    }

    /// The last window that lapsed, if any.
    pub fn last_raid(&self) -> (r: &Option<RaidInfo>)
        ensures
            r is Some <==> self@.last_raid is Some,
            r is Some ==> (*r)->0@ == self@.last_raid->0,
    {
        &self.last_raid
    }

    /// Whether a window is open and not yet lapsed at `now`.
    pub fn is_raid_active(&self, autoexpiration: u32, now: u64) -> (r: bool)
        ensures
            r == raid_active(self@.current_raid, autoexpiration, now),
    {
        match &self.current_raid {
            Some(w) => now as u128 <= w.last_join as u128 + autoexpiration as u128,
            None => false,
        }
    }

    /// Feed one join into the detector.  Reports whether the member
    /// joined during an open window (and so went onto its roster
    /// instead of receiving automatic roles).
    pub fn note_join(
        &mut self,
        member: u64,
        now: u64,
        timespan: u32,
        limit: u32,
        autoexpiration: u32,
    ) -> (during_raid: bool)
        ensures
            final(self)@ == raid_step(old(self)@, member, now, timespan, limit, autoexpiration),
            during_raid == raid_active(old(self)@.current_raid, autoexpiration, now),
    {
        let active = self.is_raid_active(autoexpiration, now);
        let mut cur: Option<RaidInfo> = None;
        core::mem::swap(&mut cur, &mut self.current_raid);
        match cur {
            Some(mut w) => {
                if active {
                    w.raiders.push(member);
                    w.last_join = now;
                    self.current_raid = Some(w);
                    return true;
                } else {
                    self.last_raid = Some(w);
                }
            },
            None => {},
        }
        // no open window: count this join inside the timespan window
        let ghost joins0 = self@.recent_joins;
        let mut kept: Vec<u64> = Vec::new();
        let mut i: usize = 0;
        while i < self.recent_joins.len()
            invariant
                0 <= i <= self.recent_joins.len(),
                self@.recent_joins == joins0,
                kept@ =~= pruned_joins(joins0.take(i as int), now, timespan),
            decreases self.recent_joins.len() - i,
        {
            let j = self.recent_joins[i];
            proof {
                assert(joins0.take(i + 1).drop_last() =~= joins0.take(i as int));
                assert(joins0.take(i + 1).last() == joins0[i as int]);
            }
            if j as u128 + timespan as u128 >= now as u128 {
                kept.push(j);
            }
            i = i + 1;
        }
        proof {
            assert(joins0.take(joins0.len() as int) =~= joins0);
        }
        kept.push(now);
        let count = kept.len();
        if count >= limit as usize {
            self.recent_joins = Vec::new();
            self.current_raid = Some(
                RaidInfo { raid_started: now, last_join: now, raiders: Vec::new() },
            );
            proof {
                assert(self@.recent_joins =~= Seq::<u64>::empty());
                assert(self@.current_raid->0.raiders =~= Seq::<u64>::empty());
            }
            false
        } else {
            self.recent_joins = kept;
            false
        }
    }
}

/// The counter forgets nothing that still falls inside the timespan:
/// when every recorded join is at most `timespan` seconds old, pruning
/// keeps them all, so enough joins inside the window always reach the
/// limit.
pub proof fn lemma_pruned_joins_keeps_recent(joins: Seq<u64>, now: u64, timespan: u32)
    requires
        forall|i: int| 0 <= i < joins.len() ==> (#[trigger] joins[i]) + timespan >= now,
    ensures
        pruned_joins(joins, now, timespan) == joins,
    decreases joins.len(),
{
    if joins.len() > 0 {
        assert(forall|i: int|
            0 <= i < joins.len() - 1 ==> #[trigger] joins.drop_last()[i] == joins[i]);
        lemma_pruned_joins_keeps_recent(joins.drop_last(), now, timespan);
        assert(pruned_joins(joins, now, timespan) =~= joins.drop_last().push(joins.last()));
        assert(joins.drop_last().push(joins.last()) =~= joins);
    }
}

/// Once enough joins fall inside the timespan, the step opens a window;
/// and a join made while a window is open only ever grows that window's
/// roster by exactly that member, never granting it roles.
pub proof fn lemma_raid_window_opens(
    m: RaidDetectorModel,
    member: u64,
    now: u64,
    timespan: u32,
    limit: u32,
    autoexpiration: u32,
)
    ensures
        !raid_active(m.current_raid, autoexpiration, now) && pruned_joins(
            m.recent_joins,
            now,
            timespan,
        ).len() + 1 >= limit ==> raid_step(
            m,
            member,
            now,
            timespan,
            limit,
            autoexpiration,
        ).current_raid is Some,
        raid_active(m.current_raid, autoexpiration, now) ==> raid_step(
            m,
            member,
            now,
            timespan,
            limit,
            autoexpiration,
        ).current_raid->0.raiders == m.current_raid->0.raiders.push(member),
{
}


/// The fold of [`raid_step`] over a run of joins, each a member id
/// with its time.
pub open spec fn feed_joins(
    m: RaidDetectorModel,
    joins: Seq<(u64, u64)>,
    timespan: u32,
    limit: u32,
    autoexpiration: u32,
) -> RaidDetectorModel
    decreases joins.len(),
{
    if joins.len() == 0 {
        m
    } else {
        feed_joins(
            raid_step(m, joins[0].0, joins[0].1, timespan, limit, autoexpiration),
            joins.drop_first(),
            timespan,
            limit,
            autoexpiration,
        )
    }
}

/// An open window survives a run of joins whose gaps stay inside the
/// expiration time: each join lands on the roster and pushes the
/// expiration out.
proof fn lemma_feed_joins_active(
    m: RaidDetectorModel,
    joins: Seq<(u64, u64)>,
    timespan: u32,
    limit: u32,
    autoexpiration: u32,
)
    requires
        m.current_raid is Some,
        joins.len() > 0 ==> joins[0].1 <= m.current_raid->0.last_join + autoexpiration,
        forall|i: int|
            0 <= i < joins.len() - 1 ==> (#[trigger] joins[i + 1].1) <= joins[i].1
                + autoexpiration,
    ensures
        feed_joins(m, joins, timespan, limit, autoexpiration).current_raid is Some,
        feed_joins(m, joins, timespan, limit, autoexpiration).current_raid->0.last_join == (
        if joins.len() > 0 {
            joins.last().1
        } else {
            m.current_raid->0.last_join
        }),
    decreases joins.len(),
{
    if joins.len() > 0 {
        let m1 = raid_step(m, joins[0].0, joins[0].1, timespan, limit, autoexpiration);
        assert(raid_active(m.current_raid, autoexpiration, joins[0].1));
        assert(m1.current_raid->0.last_join == joins[0].1);
        assert(forall|i: int|
            0 <= i < joins.drop_first().len() - 1 ==> (#[trigger] joins.drop_first()[i + 1].1)
                <= joins.drop_first()[i].1 + autoexpiration) by {
            assert(forall|i: int|
                0 <= i < joins.len() - 1 ==> #[trigger] joins.drop_first()[i] == joins[i + 1]);
        }
        lemma_feed_joins_active(m1, joins.drop_first(), timespan, limit, autoexpiration);
        if joins.len() > 1 {
            assert(joins.drop_first().last() == joins.last());
        }
    }
}

/// With no window open, a run of joins that all fall inside the
/// counting window of the last one reaches the limit and opens a
/// window, which the remaining joins keep open.
proof fn lemma_feed_joins_count(
    m: RaidDetectorModel,
    joins: Seq<(u64, u64)>,
    timespan: u32,
    limit: u32,
    autoexpiration: u32,
)
    requires
        m.current_raid is None,
        limit >= 1,
        m.recent_joins.len() < limit,
        joins.len() + m.recent_joins.len() >= limit,
        forall|i: int| 0 <= i < joins.len() ==> (#[trigger] joins[i].1) <= joins.last().1,
        forall|i: int|
            0 <= i < joins.len() ==> (#[trigger] joins[i].1) + timespan >= joins.last().1,
        forall|i: int|
            0 <= i < m.recent_joins.len() ==> (#[trigger] m.recent_joins[i]) + timespan
                >= joins.last().1,
        forall|i: int|
            0 <= i < m.recent_joins.len() ==> (#[trigger] m.recent_joins[i]) <= joins.last().1,
        forall|i: int|
            0 <= i < joins.len() - 1 ==> (#[trigger] joins[i + 1].1) <= joins[i].1
                + autoexpiration,
    ensures
        feed_joins(m, joins, timespan, limit, autoexpiration).current_raid is Some,
        feed_joins(m, joins, timespan, limit, autoexpiration).current_raid->0.last_join
            == joins.last().1,
    decreases joins.len(),
{
    let t0 = joins[0].1;
    let m1 = raid_step(m, joins[0].0, t0, timespan, limit, autoexpiration);
    assert(!raid_active(m.current_raid, autoexpiration, t0));
    assert(pruned_joins(m.recent_joins, t0, timespan) == m.recent_joins) by {
        assert(forall|i: int|
            0 <= i < m.recent_joins.len() ==> (#[trigger] m.recent_joins[i]) + timespan >= t0);
        lemma_pruned_joins_keeps_recent(m.recent_joins, t0, timespan);
    }
    let counted = m.recent_joins.push(t0);
    assert(pruned_joins(m.recent_joins, t0, timespan).push(t0) == counted);
    assert(forall|i: int|
        0 <= i < joins.len() - 1 ==> #[trigger] joins.drop_first()[i] == joins[i + 1]);
    if counted.len() >= limit {
        assert(m1.current_raid is Some);
        assert(m1.current_raid->0.last_join == t0);
        lemma_feed_joins_active(m1, joins.drop_first(), timespan, limit, autoexpiration);
        if joins.len() > 1 {
            assert(joins.drop_first().last() == joins.last());
        }
    } else {
        assert(m1.current_raid is None);
        assert(m1.recent_joins == counted);
        // the run is long enough that at least one more join follows
        assert(joins.len() >= 2);
        assert(joins.drop_first().last() == joins.last());
        assert(forall|i: int|
            0 <= i < counted.len() ==> (#[trigger] counted[i]) + timespan >= joins.last().1);
        assert(forall|i: int|
            0 <= i < counted.len() ==> (#[trigger] counted[i]) <= joins.last().1);
        lemma_feed_joins_count(m1, joins.drop_first(), timespan, limit, autoexpiration);
    }
}

/// Enough joins inside the counting window always open a raid window:
/// from a detector with no window and an empty counter, a run of at
/// least `limit` joins, all within `timespan` seconds of the final one
/// and with no gap above `autoexpiration`, ends with a window open,
/// last grown by the final join.  (A gap above the expiration time can
/// retire a window opened mid-run, so the gap bound is needed.)
pub proof fn lemma_raid_window_opens_for_burst(
    m: RaidDetectorModel,
    joins: Seq<(u64, u64)>,
    timespan: u32,
    limit: u32,
    autoexpiration: u32,
)
    requires
        m.current_raid is None,
        m.recent_joins == Seq::<u64>::empty(),
        limit >= 1,
        joins.len() >= limit,
        forall|i: int| 0 <= i < joins.len() ==> (#[trigger] joins[i].1) <= joins.last().1,
        forall|i: int|
            0 <= i < joins.len() ==> (#[trigger] joins[i].1) + timespan >= joins.last().1,
        forall|i: int|
            0 <= i < joins.len() - 1 ==> (#[trigger] joins[i + 1].1) <= joins[i].1
                + autoexpiration,
    ensures
        feed_joins(m, joins, timespan, limit, autoexpiration).current_raid is Some,
        feed_joins(m, joins, timespan, limit, autoexpiration).current_raid->0.last_join
            == joins.last().1,
{
    lemma_feed_joins_count(m, joins, timespan, limit, autoexpiration);
}

} // verus!


//! Per-member spam-pressure state and the leaky-bucket scoring arithmetic.
//!
//! Pressure values are fixed-point numbers: `SCALE` units stand for one
//! point of pressure.  A message's raw score is a weighted sum of its
//! features; between messages the score drains at a constant rate, applied
//! lazily when the next score is added.

use vstd::prelude::*;

use crate::log::{log_insert, LogData, LogRecordModel};

verus! {

/// Fixed-point units per one point of pressure.
pub const SCALE: u64 = 100000;

/// Where a message lives, for later bulk deletion.
#[derive(Clone, Copy, PartialEq, Eq, Structural, Debug)]
pub struct MessageLocation {
    pub message_id: u64,
    pub channel_id: u64,
}

/// The features of one message that the scoring weighs.
#[derive(Clone, Copy, PartialEq, Eq, Structural, Debug)]
pub struct MessageFeatures {
    pub embeds: usize,
    pub characters: usize,
    pub newlines: usize,
    pub unique_mentions: usize,
}

/// The tunable weights of the scoring formula, in fixed-point units.
#[derive(Clone, Copy, PartialEq, Eq, Structural, Debug)]
pub struct PressureWeights {
    pub message: u64,
    pub embed: u64,
    pub character: u64,
    pub newline: u64,
    pub unique_ping: u64,
}

/// Clamp an unbounded score into the representable range.
pub open spec fn clamp_u64(x: int) -> int {
    if x > u64::MAX as int {
        u64::MAX as int
    } else {
        x
    }
}

/// The raw score of a message: a weighted sum of its features.
pub open spec fn raw_score_model(w: PressureWeights, f: MessageFeatures) -> int {
    w.message + w.embed * f.embeds + w.character * f.characters + w.newline * f.newlines
        + w.unique_ping * f.unique_mentions
}

/// Seconds elapsed from `last` to `now`; a clock that moved backwards
/// counts as no time passed.
pub open spec fn elapsed_model(last: int, now: int) -> int {
    if now >= last {
        now - last
    } else {
        0
    }
}

/// The score after draining for `elapsed` seconds at `rate` units per
/// second: it loses exactly `rate * elapsed`, stopping at zero.
pub open spec fn decayed_pressure_model(p: int, rate: int, elapsed: int) -> int {
    if rate * elapsed >= p {
        0
    } else {
        p - rate * elapsed
    }
}

/// Whether the drain empties the bucket entirely (a full cool-down, which
/// also forgets the member's recent messages).
pub open spec fn full_cooldown(p: int, rate: int, elapsed: int) -> bool {
    rate * elapsed >= p
}

/// Add `a + t`, clamping into `u64`.
fn clamped_add_u64(a: u64, t: u128) -> (r: u64)
    requires
        t <= (u64::MAX as u128) * (u64::MAX as u128),
    ensures
        r as int == clamp_u64(a + t),
{
    let s: u128 = a as u128 + t;
    if s > u64::MAX as u128 {
        u64::MAX
    } else {
        s as u64
    }
}

/// Compute the raw pressure score of one message, clamped into `u64`.
pub fn message_pressure(w: &PressureWeights, f: &MessageFeatures) -> (p: u64)
    ensures
        p as int == clamp_u64(raw_score_model(*w, *f)),
{
    proof {
        assert((w.embed as int) * (f.embeds as int) <= (u64::MAX as int) * (u64::MAX as int))
            by (nonlinear_arith)
            requires
                w.embed <= u64::MAX,
                f.embeds <= u64::MAX,
        ;
        assert((w.character as int) * (f.characters as int) <= (u64::MAX as int) * (u64::MAX
            as int)) by (nonlinear_arith)
            requires
                w.character <= u64::MAX,
                f.characters <= u64::MAX,
        ;
        assert((w.newline as int) * (f.newlines as int) <= (u64::MAX as int) * (u64::MAX as int))
            by (nonlinear_arith)
            requires
                w.newline <= u64::MAX,
                f.newlines <= u64::MAX,
        ;
        assert((w.unique_ping as int) * (f.unique_mentions as int) <= (u64::MAX as int) * (u64::MAX
            as int)) by (nonlinear_arith)
            requires
                w.unique_ping <= u64::MAX,
                f.unique_mentions <= u64::MAX,
        ;
    }
    let mut p: u64 = w.message;
    p = clamped_add_u64(p, (w.embed as u128) * (f.embeds as u128));
    p = clamped_add_u64(p, (w.character as u128) * (f.characters as u128));
    p = clamped_add_u64(p, (w.newline as u128) * (f.newlines as u128));
    p = clamped_add_u64(p, (w.unique_ping as u128) * (f.unique_mentions as u128));
    p
}

/// Mathematical model of one member's moderation state.
#[verifier::ext_equal]
pub ghost struct MemberModel {
    pub member_id: u64,
    pub pressure: u64,
    pub last_decay: u64,
    pub recent: Seq<MessageLocation>,
    pub cleanup: bool,
    pub log: Seq<LogRecordModel>,
}

/// Mutable per-member record: the decaying pressure score, the recent
/// messages kept for bulk deletion, and the cleanup re-entrance guard.
pub struct MemberShell {
    pub(crate) member_id: u64,
    pub(crate) current_pressure: u64,
    pub(crate) last_pressure_decay: u64,
    pub(crate) recent_messages: Vec<MessageLocation>,
    pub(crate) cleanup_in_progress: bool,
    pub(crate) log: LogData,
}

impl View for MemberShell {
    type V = MemberModel;

    closed spec fn view(&self) -> MemberModel {
        MemberModel {
            member_id: self.member_id,
            pressure: self.current_pressure,
            last_decay: self.last_pressure_decay,
            recent: self.recent_messages@,
            cleanup: self.cleanup_in_progress,
            log: self.log@,
        }
    }
}

impl MemberShell {
    /// A fresh record for a member first observed at `now`: no pressure,
    /// no history, guard clear.
    pub fn new(member_id: u64, now: u64) -> (r: Self)
        ensures
            r@ == (MemberModel {
                member_id,
                pressure: 0,
                last_decay: now,
                recent: Seq::<MessageLocation>::empty(),
                cleanup: false,
                log: Seq::<LogRecordModel>::empty(),
            }),
    {
        let r = MemberShell {
            member_id,
            current_pressure: 0,
            last_pressure_decay: now,
            recent_messages: Vec::new(),
            cleanup_in_progress: false,
            log: LogData::new(),
        };
        proof {
            assert(r@.recent =~= Seq::<MessageLocation>::empty());
        }
        r
    }

    /// The member this record belongs to.
    pub fn member_id(&self) -> (id: u64)
        ensures
            id == self@.member_id,
    {
        self.member_id
    }

    /// The current pressure score, as last computed.
    pub fn current_pressure(&self) -> (p: u64)
        ensures
            p == self@.pressure,
    {
        self.current_pressure
    }

    /// Drain the bucket for the time elapsed since the last update, then
    /// add the new raw score, and report the resulting pressure.
    ///
    /// A drain that empties the bucket is a full cool-down: the recent
    /// message history is forgotten.  The decay stamp moves to `now`
    /// either way.
    pub fn update_pressure(&mut self, decay_per_second: u64, add_pressure: u64, now: u64) -> (p: u64)
        ensures
            ({
                let elapsed = elapsed_model(old(self)@.last_decay as int, now as int);
                let decayed = decayed_pressure_model(
                    old(self)@.pressure as int,
                    decay_per_second as int,
                    elapsed,
                );
                final(self)@ == (MemberModel {
                    pressure: final(self)@.pressure,
                    last_decay: now,
                    recent: if full_cooldown(
                        old(self)@.pressure as int,
                        decay_per_second as int,
                        elapsed,
                    ) {
                        Seq::<MessageLocation>::empty()
                    } else {
                        old(self)@.recent
                    },
                    ..old(self)@
                }) && final(self)@.pressure as int == clamp_u64(decayed + add_pressure)
            }),
            p == final(self)@.pressure,
    {
        let elapsed: u64 = if now >= self.last_pressure_decay {
            now - self.last_pressure_decay
        } else {
            0
        };
        proof {
            assert((decay_per_second as int) * (elapsed as int) <= (u64::MAX as int) * (u64::MAX
                as int)) by (nonlinear_arith)
                requires
                    decay_per_second <= u64::MAX,
                    elapsed <= u64::MAX,
            ;
        }
        let to_decay: u128 = (decay_per_second as u128) * (elapsed as u128);
        if to_decay >= self.current_pressure as u128 {
            self.current_pressure = 0;
            self.recent_messages.clear();
        } else {
            self.current_pressure = self.current_pressure - to_decay as u64;
        }
        self.last_pressure_decay = now;
        self.current_pressure = clamped_add_u64(self.current_pressure, add_pressure as u128);
        proof {
            assert(self.recent_messages@ =~= self@.recent);
        }
        self.current_pressure
    }

    /// Remember a message's location for possible bulk deletion.
    pub fn push_recent_message(&mut self, loc: MessageLocation)
        ensures
            final(self)@ == (MemberModel { recent: old(self)@.recent.push(loc), ..old(self)@ }),
    {
        self.recent_messages.push(loc);
    }

    /// Whether a cleanup pass is already under way for this member.
    pub fn is_cleanup_in_progress(&self) -> (b: bool)
        ensures
            b == self@.cleanup,
    {
        self.cleanup_in_progress
    }

    /// How many recent messages are remembered.
    pub fn recent_len(&self) -> (n: usize)
        ensures
            n == self@.recent.len(),
    {
        self.recent_messages.len()
    }

    /// One remembered message location.
    pub fn recent_at(&self, k: usize) -> (loc: MessageLocation)
        requires
            k < self@.recent.len(),
        ensures
            loc == self@.recent[k as int],
    {
        self.recent_messages[k]
    }

    /// Take the cleanup guard and consume the remembered messages: the
    /// one step that begins a silence pass.  The guard stays taken
    /// until [`Self::end_cleanup`] releases it when the pass's
    /// requests have been carried out.
    pub fn start_cleanup(&mut self)
        ensures
            final(self)@ == (MemberModel {
                cleanup: true,
                recent: Seq::<MessageLocation>::empty(),
                ..old(self)@
            }),
    {
        self.cleanup_in_progress = true;
        self.recent_messages.clear();
        proof {
            assert(self@.recent =~= Seq::<MessageLocation>::empty());
        }
    }

    /// Release the cleanup guard once the pass's requests have been
    /// carried out: the silence action's final step.
    pub fn end_cleanup(&mut self)
        ensures
            final(self)@ == (MemberModel { cleanup: false, ..old(self)@ }),
    {
        self.cleanup_in_progress = false;
    }

    /// Record a line in the member's own log.
    pub fn note(&mut self, now: u64, content: &str)
        ensures
            final(self)@ == (MemberModel {
                log: log_insert(old(self)@.log, LogRecordModel { at: now, text: content@ }),
                ..old(self)@
            }),
    {
        self.log.log(now, content);
    }

    /// Render the member's log for display, or nothing when empty.
    pub fn dump_log(&self) -> (r: Option<String>)
        ensures
            r is Some <==> self@.log.len() > 0,
            r is Some ==> r->0@ == crate::log::render_log(self@.log),
    {
        self.log.dump()
    }

    /// Drop the member's log records.
    pub fn clear_log(&mut self)
        ensures
            final(self)@ == (MemberModel { log: Seq::<LogRecordModel>::empty(), ..old(self)@ }),
    {
        self.log.clear();
    }

    /// Record an owned line in the member's own log.
    pub fn snote(&mut self, now: u64, content: String)
        ensures
            final(self)@ == (MemberModel {
                log: log_insert(old(self)@.log, LogRecordModel { at: now, text: content@ }),
                ..old(self)@
            }),
    {
        self.log.slog(now, content);
    }
}

/// The pressure score that comes out of an update is never negative: the
/// drain stops at zero and what is added on top is a non-negative raw
/// score.
pub proof fn lemma_pressure_never_negative(p: int, rate: int, elapsed: int, add: int)
    requires
        0 <= p,
        0 <= rate,
        0 <= elapsed,
        0 <= add,
    ensures
        0 <= decayed_pressure_model(p, rate, elapsed),
        0 <= clamp_u64(decayed_pressure_model(p, rate, elapsed) + add),
{
}

/// Decay between messages is monotonic: after `elapsed` quiet seconds the
/// score has gone down by exactly `rate * elapsed`, or hit zero; it never
/// goes up, and with a positive rate and a positive score it strictly
/// shrinks.
pub proof fn lemma_decay_monotonic(p: int, rate: int, elapsed: int)
    requires
        0 <= p,
        0 <= rate,
        0 <= elapsed,
    ensures
        decayed_pressure_model(p, rate, elapsed) <= p,
        decayed_pressure_model(p, rate, elapsed) == 0 || decayed_pressure_model(p, rate, elapsed)
            == p - rate * elapsed,
        rate > 0 && elapsed > 0 && p > 0 ==> decayed_pressure_model(p, rate, elapsed) < p,
{
    assert(rate * elapsed >= 0) by (nonlinear_arith)
        requires
            0 <= rate,
            0 <= elapsed,
    ;
    assert(rate > 0 && elapsed > 0 ==> rate * elapsed > 0) by (nonlinear_arith);
}

/// A longer quiet spell never leaves more pressure: decay is monotonic in
/// the elapsed time.
pub proof fn lemma_decay_monotonic_in_time(p: int, rate: int, e1: int, e2: int)
    requires
        0 <= p,
        0 <= rate,
        0 <= e1 <= e2,
    ensures
        decayed_pressure_model(p, rate, e2) <= decayed_pressure_model(p, rate, e1),
{
    assert(rate * e1 <= rate * e2) by (nonlinear_arith)
        requires
            0 <= rate,
            e1 <= e2,
    ;
}

} // verus!

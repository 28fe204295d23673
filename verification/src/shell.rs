//! The per-community actor core: one `GuildShell` owns a community's
//! whole moderation state and consumes its events strictly one at a
//! time.
//!
//! Every event handler is a pure decision: it updates the owned state
//! and returns the outward actions (role grants, message deletions,
//! replies) for the surrounding transport to perform.  Because one
//! shell processes its mailbox sequentially, the state seen by each
//! event is exactly the state left by the previous one.

use vstd::prelude::*;
use vstd::string::*;

use crate::log::{log_insert, LogData, LogRecordModel};
use crate::pressure::{
    clamp_u64, decayed_pressure_model, elapsed_model, full_cooldown, message_pressure,
    raw_score_model, MemberModel, MemberShell, MessageFeatures, MessageLocation, SCALE,
};
use crate::raid::{raid_active, raid_step, RaidDetector, RaidDetectorModel, RaidInfo};
use crate::text::{dec_str, format_u64};
use crate::settings::{
    config_wf, config_window_model, decimal_of, kind_of, parsed_field_value, ref_of,
    selection_key_model, selection_option_model, set_error_text, setting_key_model, spec_weights,
    uint_of, ConfigModel, ConfigWindow, ConfigWindowModel, Configurable, FieldModel, GuildConfig,
    RefEntry, SelectionOption, SelectionOptionModel, SettingOutcome, IDX_LOG_CHANNEL,
    IDX_MAX_PRESSURE, IDX_MEMBER_ROLE, IDX_NEW_ROLE, IDX_PRESSURE_DECAY_PER_SECOND,
    IDX_RAID_AUTOEXPIRATION, IDX_RAID_TRIGGER_NEW_USER_LIMIT, IDX_RAID_TRIGGER_TIMESPAN,
    IDX_SILENCE_ROLE,
};

verus! {

/// Mathematical model of a whole community shell.
#[verifier::ext_equal]
pub ghost struct ShellModel {
    pub config: ConfigModel,
    pub raid: RaidDetectorModel,
    pub members: Seq<MemberModel>,
    pub log: Seq<LogRecordModel>,
    pub running: bool,
}

/// No two member records share an identity.
pub open spec fn members_wf(ms: Seq<MemberModel>) -> bool {
    forall|i: int, j: int|
        0 <= i < j < ms.len() ==> (#[trigger] ms[i]).member_id != (#[trigger] ms[j]).member_id
}

/// Well-formedness of a shell: its registry holds the expected fields
/// and its member table holds each member once.
pub open spec fn shell_wf(m: ShellModel) -> bool {
    config_wf(m.config) && members_wf(m.members)
}

/// The first index of the member with the given identity, or the table
/// length when the member is unknown.
pub open spec fn member_index(ms: Seq<MemberModel>, id: u64) -> int
    decreases ms.len(),
{
    if ms.len() == 0 {
        0
    } else if ms[0].member_id == id {
        0
    } else {
        1 + member_index(ms.drop_first(), id)
    }
}

/// Whether the member is known to the table.
pub open spec fn has_member(ms: Seq<MemberModel>, id: u64) -> bool {
    member_index(ms, id) < ms.len()
}

pub proof fn lemma_member_index_range(ms: Seq<MemberModel>, id: u64)
    ensures
        0 <= member_index(ms, id) <= ms.len(),
        member_index(ms, id) < ms.len() ==> ms[member_index(ms, id)].member_id == id,
    decreases ms.len(),
{
    if ms.len() > 0 && ms[0].member_id != id {
        lemma_member_index_range(ms.drop_first(), id);
        if member_index(ms, id) < ms.len() {
            assert(ms.drop_first()[member_index(ms.drop_first(), id)] == ms[member_index(ms, id)]);
        }
    }
}

pub proof fn lemma_member_index_from(ms: Seq<MemberModel>, id: u64, i: int)
    requires
        0 <= i <= ms.len(),
        forall|j: int| 0 <= j < i ==> (#[trigger] ms[j]).member_id != id,
    ensures
        member_index(ms, id) >= i,
        i < ms.len() && ms[i].member_id == id ==> member_index(ms, id) == i,
    decreases i,
{
    lemma_member_index_range(ms, id);
    if i > 0 {
        assert(ms[0].member_id != id);
        assert(member_index(ms, id) == 1 + member_index(ms.drop_first(), id));
        assert(forall|j: int|
            0 <= j < i - 1 ==> (#[trigger] ms.drop_first()[j]) == ms[j + 1] && ms[j
                + 1].member_id != id);
        lemma_member_index_from(ms.drop_first(), id, i - 1);
        assert(i - 1 < ms.drop_first().len() ==> ms.drop_first()[i - 1] == ms[i]);
    }
}

/// Appending a fresh record for an unknown member keeps the table
/// well-formed, and the fresh record is found at the old length.
pub proof fn lemma_members_push_fresh(ms: Seq<MemberModel>, fresh: MemberModel)
    requires
        members_wf(ms),
        !has_member(ms, fresh.member_id),
    ensures
        members_wf(ms.push(fresh)),
        member_index(ms.push(fresh), fresh.member_id) == ms.len(),
    decreases ms.len(),
{
    lemma_member_index_range(ms, fresh.member_id);
    assert(forall|j: int|
        0 <= j < ms.len() ==> (#[trigger] ms[j]).member_id != fresh.member_id) by {
        assert forall|j: int| 0 <= j < ms.len() implies (#[trigger] ms[j]).member_id
            != fresh.member_id by {
            if ms[j].member_id == fresh.member_id {
                lemma_member_index_from(ms, fresh.member_id, j);
            }
        }
    }
    assert(forall|j: int| 0 <= j < ms.len() ==> #[trigger] ms.push(fresh)[j] == ms[j]);
    lemma_member_index_from(ms.push(fresh), fresh.member_id, ms.len() as int);
}

/// Updating a member in place (same identity) keeps the table
/// well-formed and leaves every index in place.
pub proof fn lemma_members_update(ms: Seq<MemberModel>, i: int, m: MemberModel)
    requires
        members_wf(ms),
        0 <= i < ms.len(),
        m.member_id == ms[i].member_id,
    ensures
        members_wf(ms.update(i, m)),
        member_index(ms.update(i, m), m.member_id) == member_index(ms, m.member_id),
    decreases ms.len(),
{
    assert(forall|j: int|
        0 <= j < ms.len() && j != i ==> #[trigger] ms.update(i, m)[j] == ms[j]);
    lemma_member_index_range(ms, m.member_id);
    lemma_member_index_from(ms, m.member_id, i);
    let k = member_index(ms, m.member_id);
    assert(forall|j: int|
        0 <= j < k ==> (#[trigger] ms.update(i, m)[j]).member_id != m.member_id);
    lemma_member_index_from(ms.update(i, m), m.member_id, k);
}

/// The community shell: configuration, raid state, the member table,
/// and the community-level log, plus the running flag of the actor.
pub struct GuildShell {
    pub config: GuildConfig,
    pub(crate) raid: RaidDetector,
    pub(crate) active_members: Vec<MemberShell>,
    pub(crate) log: LogData,
    pub(crate) running: bool,
}

impl View for GuildShell {
    type V = ShellModel;

    closed spec fn view(&self) -> ShellModel {
        ShellModel {
            config: self.config@,
            raid: self.raid@,
            members: self.active_members@.map_values(|m: MemberShell| m@),
            log: self.log@,
            running: self.running,
        }
    }
}

impl GuildShell {
    /// Well-formedness of the shell's state.
    pub open spec fn wf(&self) -> bool {
        shell_wf(self@)
    }

    /// A fresh shell around a configuration: no members, no raid state,
    /// an empty log, running.
    pub fn new(config: GuildConfig) -> (r: Self)
        requires
            config.wf(),
        ensures
            r@.config == config@,
            r@.members == Seq::<MemberModel>::empty(),
            r@.raid.current_raid is None,
            r@.raid.last_raid is None,
            r@.raid.recent_joins == Seq::<u64>::empty(),
            r@.log == Seq::<LogRecordModel>::empty(),
            r@.running,
            r.wf(),
    {
        let r = GuildShell {
            config,
            raid: RaidDetector::new(),
            active_members: Vec::new(),
            log: LogData::new(),
            running: true,
        };
        proof {
            assert(r@.members =~= Seq::<MemberModel>::empty());
        }
        r
    }

    /// The community's configuration.
    pub fn get_config(&self) -> (r: &GuildConfig)
        ensures
            r@ == self@.config,
    {
        &self.config
    }

    /// Whether the actor is still consuming events.
    pub fn is_running(&self) -> (r: bool)
        ensures
            r == self@.running,
    {
        self.running
    }

    /// Append a line to the community log.
    pub fn slog(&mut self, now: u64, content: String)
        ensures
            final(self)@ == (ShellModel {
                log: log_insert(old(self)@.log, LogRecordModel { at: now, text: content@ }),
                ..old(self)@
            }),
    {
        self.log.slog(now, content);
    }

    /// The first table index of the member, or the table length when
    /// the member is unknown.
    fn find_member(&self, id: u64) -> (r: usize)
        ensures
            r == member_index(self@.members, id),
            r <= self@.members.len(),
            r < self@.members.len() ==> self@.members[r as int].member_id == id,
    {
        let ghost ms = self@.members;
        let mut i: usize = 0;
        while i < self.active_members.len()
            invariant
                0 <= i <= self.active_members.len(),
                ms == self@.members,
                ms.len() == self.active_members.len(),
                forall|j: int| 0 <= j < i ==> (#[trigger] ms[j]).member_id != id,
            decreases self.active_members.len() - i,
        {
            if self.active_members[i].member_id() == id {
                proof {
                    lemma_member_index_from(ms, id, i as int);
                }
                return i;
            }
            i = i + 1;
        }
        proof {
            lemma_member_index_from(ms, id, ms.len() as int);
            lemma_member_index_range(ms, id);
        }
        i
    }

    /// Make sure the member has a record, creating a fresh one stamped
    /// `now` when absent, and report its table index.
    fn ensure_member_shell(&mut self, id: u64, now: u64) -> (r: usize)
        requires
            shell_wf(old(self)@),
        ensures
            final(self)@ == (ShellModel { members: final(self)@.members, ..old(self)@ }),
            final(self)@.members == ensure_member_model(old(self)@.members, id, now),
            shell_wf(final(self)@),
            r == member_index(final(self)@.members, id),
            r < final(self)@.members.len(),
            final(self)@.members[r as int].member_id == id,
    {
        let ghost ms = self@.members;
        let i = self.find_member(id);
        if i < self.active_members.len() {
            proof {
                lemma_member_index_range(ms, id);
            }
            i
        } else {
            let fresh = MemberShell::new(id, now);
            self.active_members.push(fresh);
            proof {
                lemma_member_index_range(ms, id);
                lemma_members_push_fresh(ms, fresh@);
                assert(self@.members =~= ms.push(fresh@));
            }
            i
        }
    }
}

/// The member table after making sure `id` has a record: unchanged when
/// known, extended by a fresh record stamped `now` when not.
pub open spec fn ensure_member_model(ms: Seq<MemberModel>, id: u64, now: u64) -> Seq<MemberModel> {
    if has_member(ms, id) {
        ms
    } else {
        ms.push(fresh_member_model(id, now))
    }
}

/// A member record as first created: no pressure, no history, guard
/// clear.
pub open spec fn fresh_member_model(id: u64, now: u64) -> MemberModel {
    MemberModel {
        member_id: id,
        pressure: 0,
        last_decay: now,
        recent: Seq::<MessageLocation>::empty(),
        cleanup: false,
        log: Seq::<LogRecordModel>::empty(),
    }
}


/// One outward action the transport is asked to perform on the
/// community's behalf.
pub enum Action {
    /// Grant a role to a member.
    AssignRole { member: u64, role: u64 },
    /// Delete one message.
    DeleteMessage { location: MessageLocation },
    /// Answer a configuration request with a copy of the settings.
    ReplyConfig(GuildConfig),
    /// Show an embed with the field-selection menu attached.
    ShowSelection { title: String, body: String, options: Vec<SelectionOption> },
    /// Show an embed with one field's input surface attached.
    ShowWindow { title: String, body: String, window: ConfigWindow },
    /// Show a plain embed.
    ShowMessage { title: String, body: String },
    /// Send an embed to a channel (used when flushing logs).
    SendEmbed { channel: u64, title: String, body: String },
}

/// Mathematical model of an outward action.
#[verifier::ext_equal]
pub ghost enum ActionModel {
    AssignRole { member: u64, role: u64 },
    DeleteMessage { location: MessageLocation },
    ReplyConfig(ConfigModel),
    ShowSelection { title: Seq<char>, body: Seq<char>, options: Seq<SelectionOptionModel> },
    ShowWindow { title: Seq<char>, body: Seq<char>, window: ConfigWindowModel },
    ShowMessage { title: Seq<char>, body: Seq<char> },
    SendEmbed { channel: u64, title: Seq<char>, body: Seq<char> },
}

impl View for Action {
    type V = ActionModel;

    open spec fn view(&self) -> ActionModel {
        match self {
            Action::AssignRole { member, role } => ActionModel::AssignRole {
                member: *member,
                role: *role,
            },
            Action::DeleteMessage { location } => ActionModel::DeleteMessage {
                location: *location,
            },
            Action::ReplyConfig(c) => ActionModel::ReplyConfig(c@),
            Action::ShowSelection { title, body, options } => ActionModel::ShowSelection {
                title: title@,
                body: body@,
                options: options@.map_values(|o: SelectionOption| o@),
            },
            Action::ShowWindow { title, body, window } => ActionModel::ShowWindow {
                title: title@,
                body: body@,
                window: window@,
            },
            Action::ShowMessage { title, body } => ActionModel::ShowMessage {
                title: title@,
                body: body@,
            },
            Action::SendEmbed { channel, title, body } => ActionModel::SendEmbed {
                channel: *channel,
                title: title@,
                body: body@,
            },
        }
    }
}

/// The models of a vector of actions, in order.
pub open spec fn action_models(v: Seq<Action>) -> Seq<ActionModel> {
    v.map_values(|a: Action| a@)
}

/// One deletion request per remembered message, in order.
pub open spec fn delete_actions(recent: Seq<MessageLocation>) -> Seq<ActionModel> {
    recent.map_values(|l: MessageLocation| ActionModel::DeleteMessage { location: l })
}

/// What the silence action does to the member at `idx`.
///
/// A pass already under way makes the call a no-op.  Otherwise the
/// guard is taken, the silence role is requested (or its absence noted
/// in the member's log), every remembered message is requested deleted,
/// and the remembered messages are consumed.
///
/// The silence action's final step — clearing the guard — is deferred:
/// the cleanup operation ends only once the transport has performed
/// the role grant and the deletions, so the guard stays taken here and
/// is released by the completion event ([`silence_done_step`]).  The
/// guard is thus held for exactly the duration of one cleanup
/// operation, from the trigger to its completion, and a second trigger
/// inside that span is the no-op branch above.
pub open spec fn silence_step(m: ShellModel, idx: int, now: u64) -> (ShellModel, Seq<ActionModel>) {
    let mem = m.members[idx];
    if mem.cleanup {
        (m, Seq::<ActionModel>::empty())
    } else {
        let silence_role = ref_of(m.config.fields[IDX_SILENCE_ROLE as int].value);
        let role_actions: Seq<ActionModel> = match silence_role {
            Some(r) => seq![ActionModel::AssignRole { member: mem.member_id, role: r }],
            None => Seq::<ActionModel>::empty(),
        };
        let log1 = if silence_role is None {
            log_insert(
                mem.log,
                LogRecordModel {
                    at: now,
                    text: "Silence role is not configured! Could not silence."@,
                },
            )
        } else {
            mem.log
        };
        let mem1 = MemberModel {
            cleanup: true,
            recent: Seq::<MessageLocation>::empty(),
            log: log1,
            ..mem
        };
        (
            ShellModel { members: m.members.update(idx, mem1), ..m },
            role_actions + delete_actions(mem.recent),
        )
    }
}

/// The member-log line recorded when the limit is surpassed.
pub open spec fn pressure_limit_note(maxp: u64) -> Seq<char> {
    "Member surpassed the pressure limit of "@ + dec_str((maxp / SCALE) as int)
}

/// What one message does to the shell.
///
/// The author gets a record if they have none; their bucket drains for
/// the elapsed time and the message's score is added; the message is
/// remembered.  A score beyond the configured limit is noted in the
/// member's log and triggers the silence action.
pub open spec fn message_step(
    m: ShellModel,
    author: u64,
    loc: MessageLocation,
    feats: MessageFeatures,
    now: u64,
) -> (ShellModel, Seq<ActionModel>) {
    let ms1 = ensure_member_model(m.members, author, now);
    let idx = member_index(ms1, author);
    let mem = ms1[idx];
    let raw = clamp_u64(raw_score_model(spec_weights(m.config), feats)) as u64;
    let rate = decimal_of(m.config.fields[IDX_PRESSURE_DECAY_PER_SECOND as int].value);
    let elapsed = elapsed_model(mem.last_decay as int, now as int);
    let decayed = decayed_pressure_model(mem.pressure as int, rate as int, elapsed);
    let newp = clamp_u64(decayed + raw) as u64;
    let recent1 = (if full_cooldown(mem.pressure as int, rate as int, elapsed) {
        Seq::<MessageLocation>::empty()
    } else {
        mem.recent
    }).push(loc);
    let mem1 = MemberModel { pressure: newp, last_decay: now, recent: recent1, ..mem };
    let maxp = decimal_of(m.config.fields[IDX_MAX_PRESSURE as int].value);
    if newp > maxp {
        let mem2 = MemberModel {
            log: log_insert(
                mem1.log,
                LogRecordModel { at: now, text: pressure_limit_note(maxp) },
            ),
            ..mem1
        };
        let m2 = ShellModel { members: ms1.update(idx, mem2), ..m };
        silence_step(m2, idx, now)
    } else {
        (ShellModel { members: ms1.update(idx, mem1), ..m }, Seq::<ActionModel>::empty())
    }
}

impl GuildShell {
    /// The raw pressure score of a message under the current weights.
    pub fn calculate_message_pressure(&self, features: &MessageFeatures) -> (p: u64)
        requires
            shell_wf(self@),
        ensures
            p as int == clamp_u64(raw_score_model(spec_weights(self@.config), *features)),
    {
        let w = self.config.weights();
        message_pressure(&w, features)
    }

    /// Silence a member: take their cleanup guard, request the silence
    /// role, and request deletion of every remembered message.
    ///
    /// A pass already under way makes this a no-op.  On return the
    /// guard is still taken: the cleanup operation is not over until
    /// the transport has carried the requests out, and clearing the
    /// guard — the action's final step — happens when the completion
    /// event ([`ShellEvent::SilenceDone`]) arrives.  This keeps a
    /// second trigger from re-requesting the role or the deletions
    /// while the first pass is still in flight.
    pub fn silence_member(&mut self, user_id: u64, now: u64) -> (actions: Vec<Action>)
        requires
            shell_wf(old(self)@),
        ensures
            ({
                let ms1 = ensure_member_model(old(self)@.members, user_id, now);
                let m1 = ShellModel { members: ms1, ..old(self)@ };
                let idx = member_index(ms1, user_id);
                let r = silence_step(m1, idx, now);
                final(self)@ == r.0 && action_models(actions@) == r.1
            }),
            shell_wf(final(self)@),
    {
        let i = self.ensure_member_shell(user_id, now);
        let ghost ms1 = self@.members;
        let ghost idx = i as int;
        let ghost mem = ms1[idx];
        let mut actions: Vec<Action> = Vec::new();
        if self.active_members[i].is_cleanup_in_progress() {
            proof {
                assert(action_models(actions@) =~= Seq::<ActionModel>::empty());
            }
            return actions;
        }
        let role = self.config.silence_role();
        match role {
            Some(r) => {
                actions.push(Action::AssignRole { member: user_id, role: r });
            },
            None => {
                self.active_members[i].note(
                    now,
                    "Silence role is not configured! Could not silence.",
                );
                proof {
                    lemma_members_update(ms1, idx, self@.members[idx]);
                }
            },
        }
        let ghost mpre = self@;
        let ghost role_actions = actions@.map_values(|a: Action| a@);
        let n = self.active_members[i].recent_len();
        let mut k: usize = 0;
        while k < n
            invariant
                0 <= k <= n,
                self@ == mpre,
                idx == i as int,
                0 <= idx < self@.members.len(),
                n == self@.members[idx].recent.len(),
                self@.members[idx].recent == mem.recent,
                actions@.len() == role_actions.len() + k,
                action_models(actions@) =~= role_actions + delete_actions(
                    mem.recent.take(k as int),
                ),
            decreases n - k,
        {
            let loc = self.active_members[i].recent_at(k);
            let ghost a0 = actions@;
            actions.push(Action::DeleteMessage { location: loc });
            k = k + 1;
            proof {
                assert(actions@ == a0.push(Action::DeleteMessage { location: loc }));
                assert(mem.recent.take(k as int) =~= mem.recent.take(k - 1).push(
                    mem.recent[k - 1],
                ));
                assert(action_models(actions@) =~= action_models(a0).push(
                    ActionModel::DeleteMessage { location: loc },
                ));
            }
        }
        proof {
            assert(mem.recent.take(n as int) =~= mem.recent);
        }
        self.active_members[i].start_cleanup();
        proof {
            let silence_role = ref_of(self@.config.fields[IDX_SILENCE_ROLE as int].value);
            let log1 = if silence_role is None {
                log_insert(
                    mem.log,
                    LogRecordModel {
                        at: now,
                        text: "Silence role is not configured! Could not silence."@,
                    },
                )
            } else {
                mem.log
            };
            let expect = MemberModel {
                cleanup: true,
                recent: Seq::<MessageLocation>::empty(),
                log: log1,
                ..mem
            };
            assert(self@.members[idx] == expect);
            assert(self@.members =~= ms1.update(idx, expect));
            lemma_members_update(ms1, idx, expect);
            assert(action_models(actions@) =~= role_actions + delete_actions(mem.recent));
        }
        actions
    }
}


impl GuildShell {
    /// Process one message: score it, drain and top up the author's
    /// bucket, remember the message, and silence the author when the
    /// configured limit is surpassed.
    pub fn message_created(
        &mut self,
        author: u64,
        location: MessageLocation,
        features: &MessageFeatures,
        now: u64,
    ) -> (actions: Vec<Action>)
        requires
            shell_wf(old(self)@),
        ensures
            ({
                let r = message_step(old(self)@, author, location, *features, now);
                final(self)@ == r.0 && action_models(actions@) == r.1
            }),
            shell_wf(final(self)@),
    {
        let raw = self.calculate_message_pressure(features);
        let rate = self.config.pressure_decay_per_second();
        let maxp = self.config.max_pressure();
        let i = self.ensure_member_shell(author, now);
        let ghost ms1 = self@.members;
        let ghost idx = i as int;
        let ghost mem = ms1[idx];
        let newp = self.active_members[i].update_pressure(rate, raw, now);
        proof {
            lemma_members_update(ms1, idx, self@.members[idx]);
        }
        self.active_members[i].push_recent_message(location);
        proof {
            let mem1 = MemberModel {
                pressure: self@.members[idx].pressure,
                last_decay: now,
                recent: self@.members[idx].recent,
                ..mem
            };
            assert(self@.members[idx] == mem1);
            assert(self@.members =~= ms1.update(idx, mem1));
            lemma_members_update(ms1, idx, mem1);
        }
        if newp > maxp {
            let note = "Member surpassed the pressure limit of ".to_owned().concat(
                format_u64(maxp / SCALE).as_str(),
            );
            self.active_members[i].snote(now, note);
            proof {
                let mem2 = self@.members[idx];
                assert(self@.members =~= ms1.update(idx, mem2));
                lemma_members_update(ms1, idx, mem2);
                assert(ensure_member_model(self@.members, author, now) == self@.members) by {
                    lemma_member_index_range(self@.members, author);
                }
                assert(member_index(self@.members, author) == idx);
            }
            let actions = self.silence_member(author, now);
            proof {
                let r = message_step(old(self)@, author, location, *features, now);
                assert(self@ == r.0 && action_models(actions@) == r.1);
            }
            actions
        } else {
            let actions: Vec<Action> = Vec::new();
            proof {
                assert(action_models(actions@) =~= Seq::<ActionModel>::empty());
            }
            actions
        }
    }
}


/// What one join does to the shell.
///
/// The joiner gets a fresh record (replacing any old one).  The join is
/// fed to the raid detector: during an open window the joiner goes onto
/// the roster and gets no automatic roles; otherwise the configured
/// member and new roles are requested best-effort, and the join may
/// open a new window.
pub open spec fn join_step(m: ShellModel, member: u64, now: u64) -> (ShellModel, Seq<ActionModel>) {
    let fresh = fresh_member_model(member, now);
    let ms1 = if has_member(m.members, member) {
        m.members.update(member_index(m.members, member), fresh)
    } else {
        m.members.push(fresh)
    };
    let idx = member_index(ms1, member);
    let timespan = uint_of(m.config.fields[IDX_RAID_TRIGGER_TIMESPAN as int].value);
    let limit = uint_of(m.config.fields[IDX_RAID_TRIGGER_NEW_USER_LIMIT as int].value);
    let autoexp = uint_of(m.config.fields[IDX_RAID_AUTOEXPIRATION as int].value);
    let during = raid_active(m.raid.current_raid, autoexp, now);
    let raid1 = raid_step(m.raid, member, now, timespan, limit, autoexp);
    if during {
        let mem1 = MemberModel {
            log: log_insert(
                fresh.log,
                LogRecordModel {
                    at: now,
                    text: "Joined during raid! No automatic role assignment"@,
                },
            ),
            ..fresh
        };
        (
            ShellModel { members: ms1.update(idx, mem1), raid: raid1, ..m },
            Seq::<ActionModel>::empty(),
        )
    } else {
        let member_role = ref_of(m.config.fields[IDX_MEMBER_ROLE as int].value);
        let new_role = ref_of(m.config.fields[IDX_NEW_ROLE as int].value);
        let a1: Seq<ActionModel> = match member_role {
            Some(r) => seq![ActionModel::AssignRole { member, role: r }],
            None => Seq::<ActionModel>::empty(),
        };
        let a2: Seq<ActionModel> = match new_role {
            Some(r) => seq![ActionModel::AssignRole { member, role: r }],
            None => Seq::<ActionModel>::empty(),
        };
        let log1 = if member_role is None {
            log_insert(
                fresh.log,
                LogRecordModel { at: now, text: "Member role not configured so not assigned."@ },
            )
        } else {
            fresh.log
        };
        let log2 = if new_role is None {
            log_insert(
                log1,
                LogRecordModel { at: now, text: "'New'' role not configured so not assigned."@ },
            )
        } else {
            log1
        };
        let mem1 = MemberModel { log: log2, ..fresh };
        (ShellModel { members: ms1.update(idx, mem1), raid: raid1, ..m }, a1 + a2)
    }
}

impl GuildShell {
    /// Process one join: record the member afresh, feed the raid
    /// detector, and either roster the joiner (during a raid) or
    /// request their automatic roles.
    pub fn member_joined(&mut self, new_member: u64, now: u64) -> (actions: Vec<Action>)
        requires
            shell_wf(old(self)@),
        ensures
            ({
                let r = join_step(old(self)@, new_member, now);
                final(self)@ == r.0 && action_models(actions@) == r.1
            }),
            shell_wf(final(self)@),
    {
        let ghost ms0 = self@.members;
        let timespan = self.config.raid_trigger_timespan();
        let limit = self.config.raid_trigger_new_user_limit();
        let autoexp = self.config.raid_autoexpiration();
        let i = self.find_member(new_member);
        let fresh = MemberShell::new(new_member, now);
        let ghost freshm = fresh@;
        if i < self.active_members.len() {
            self.active_members.set(i, fresh);
            proof {
                lemma_member_index_range(ms0, new_member);
                assert(self@.members =~= ms0.update(i as int, freshm));
                lemma_members_update(ms0, i as int, freshm);
            }
        } else {
            self.active_members.push(fresh);
            proof {
                lemma_member_index_range(ms0, new_member);
                lemma_members_push_fresh(ms0, freshm);
                assert(self@.members =~= ms0.push(freshm));
            }
        }
        let ghost ms1 = self@.members;
        let ghost idx = i as int;
        proof {
            assert(member_index(ms1, new_member) == idx);
        }
        let during = self.raid.is_raid_active(autoexp, now);
        self.raid.note_join(new_member, now, timespan, limit, autoexp);
        let mut actions: Vec<Action> = Vec::new();
        if during {
            self.active_members[i].note(now, "Joined during raid! No automatic role assignment");
            proof {
                lemma_members_update(ms1, idx, self@.members[idx]);
                assert(self@.members =~= ms1.update(idx, self@.members[idx]));
                assert(action_models(actions@) =~= Seq::<ActionModel>::empty());
            }
        } else {
            match self.config.member_role() {
                Some(r) => {
                    actions.push(Action::AssignRole { member: new_member, role: r });
                },
                None => {
                    self.active_members[i].note(
                        now,
                        "Member role not configured so not assigned.",
                    );
                },
            }
            match self.config.new_role() {
                Some(r) => {
                    actions.push(Action::AssignRole { member: new_member, role: r });
                },
                None => {
                    self.active_members[i].note(
                        now,
                        "'New'' role not configured so not assigned.",
                    );
                },
            }
            proof {
                let r = join_step(old(self)@, new_member, now);
                lemma_members_update(ms1, idx, self@.members[idx]);
                assert(self@.members =~= ms1.update(idx, self@.members[idx]));
                assert(self@.members =~= r.0.members);
                assert(action_models(actions@) =~= r.1);
            }
        }
        actions
    }
}


/// One inbound interaction, reduced to plain values.  A component
/// interaction carries the community's live roles and channels so that
/// a reference field can enumerate them.
pub enum Interaction {
    ApplicationCommand {
        guild_id: Option<u64>,
        command_name: String,
        option_name: String,
        option_value: Option<String>,
    },
    MessageComponent {
        guild_id: Option<u64>,
        custom_id: String,
        values: Vec<String>,
        roles: Vec<RefEntry>,
        channels: Vec<RefEntry>,
    },
    Ping,
}

/// Mathematical model of an interaction.
#[verifier::ext_equal]
pub ghost enum InteractionModel {
    ApplicationCommand {
        guild_id: Option<u64>,
        command_name: Seq<char>,
        option_name: Seq<char>,
        option_value: Option<Seq<char>>,
    },
    MessageComponent {
        guild_id: Option<u64>,
        custom_id: Seq<char>,
        values: Seq<Seq<char>>,
        roles: Seq<crate::settings::RefEntryModel>,
        channels: Seq<crate::settings::RefEntryModel>,
    },
    Ping,
}

impl View for Interaction {
    type V = InteractionModel;

    open spec fn view(&self) -> InteractionModel {
        match self {
            Interaction::ApplicationCommand { guild_id, command_name, option_name, option_value } => {
                InteractionModel::ApplicationCommand {
                    guild_id: *guild_id,
                    command_name: command_name@,
                    option_name: option_name@,
                    option_value: match option_value {
                        Some(v) => Some(v@),
                        None => None,
                    },
                }
            },
            Interaction::MessageComponent { guild_id, custom_id, values, roles, channels } => {
                InteractionModel::MessageComponent {
                    guild_id: *guild_id,
                    custom_id: custom_id@,
                    values: values@.map_values(|v: String| v@),
                    roles: roles@.map_values(|e: RefEntry| e@),
                    channels: channels@.map_values(|e: RefEntry| e@),
                }
            },
            Interaction::Ping => InteractionModel::Ping,
        }
    }
}

/// One selection-menu entry per field of a configuration.
pub open spec fn selection_options_model(fields: Seq<FieldModel>) -> Seq<SelectionOptionModel> {
    fields.map_values(|f: FieldModel| selection_option_model(f.name))
}

/// What submitting a value for the field named `name` does: the first
/// field of that name takes it; success and failure are each reported
/// in an embed, an unknown name silently ignored.
pub open spec fn name_step(m: ShellModel, name: Seq<char>, text: Seq<char>) -> (
    ShellModel,
    Seq<ActionModel>,
) {
    let fs = m.config.fields;
    let i = crate::settings::first_index(fs, |f: FieldModel| f.name == name);
    if i < fs.len() {
        match parsed_field_value(fs[i].value, text) {
            Some(v) => {
                let fs1 = fs.update(i, FieldModel { name: fs[i].name, value: v });
                (
                    ShellModel { config: ConfigModel { guild_id: m.config.guild_id, fields: fs1 }, ..m },
                    seq![
                        ActionModel::ShowMessage {
                            title: "Change successful"@,
                            body: name + " changed successfully"@,
                        },
                    ],
                )
            },
            None => {
                (
                    m,
                    seq![
                        ActionModel::ShowMessage {
                            title: "No."@,
                            body: set_error_text(kind_of(fs[i].value)),
                        },
                    ],
                )
            },
        }
    } else {
        (m, Seq::<ActionModel>::empty())
    }
}

/// What picking a field from the selection menu does: the first field
/// whose selection key matches renders its input surface; an unknown
/// key is silently ignored.
pub open spec fn selection_step(
    m: ShellModel,
    key: Seq<char>,
    roles: Seq<crate::settings::RefEntryModel>,
    channels: Seq<crate::settings::RefEntryModel>,
) -> (ShellModel, Seq<ActionModel>) {
    let fs = m.config.fields;
    let i = crate::settings::first_index(fs, |f: FieldModel| selection_key_model(f.name) == key);
    if i < fs.len() {
        (
            m,
            seq![
                ActionModel::ShowWindow {
                    title: "Set "@ + fs[i].name,
                    body: "Set value for "@ + fs[i].name + " or reset it"@,
                    window: config_window_model(fs[i], roles, channels),
                },
            ],
        )
    } else {
        (m, Seq::<ActionModel>::empty())
    }
}

/// What submitting a value under a setting key does: the first field
/// whose setting key matches takes it, the outcome is reported with the
/// selection menu re-attached, and an unknown key is silently ignored.
pub open spec fn setting_step(m: ShellModel, key: Seq<char>, text: Seq<char>) -> (
    ShellModel,
    Seq<ActionModel>,
) {
    let fs = m.config.fields;
    let i = crate::settings::first_index(fs, |f: FieldModel| setting_key_model(f.name) == key);
    if i < fs.len() {
        match parsed_field_value(fs[i].value, text) {
            Some(v) => {
                let fs1 = fs.update(i, FieldModel { name: fs[i].name, value: v });
                let m1 = ShellModel {
                    config: ConfigModel { guild_id: m.config.guild_id, fields: fs1 },
                    ..m
                };
                (
                    m1,
                    seq![
                        ActionModel::ShowSelection {
                            title: "Value change"@,
                            body: "Value changed successfully!"@,
                            options: selection_options_model(fs1),
                        },
                    ],
                )
            },
            None => {
                (
                    m,
                    seq![
                        ActionModel::ShowSelection {
                            title: "Value change"@,
                            body: "Couldn't set value: "@ + set_error_text(kind_of(fs[i].value)),
                            options: selection_options_model(fs),
                        },
                    ],
                )
            },
        }
    } else {
        (m, Seq::<ActionModel>::empty())
    }
}

/// What one interaction does to the shell: the three-step settings
/// protocol, driven entirely by the keys the client echoes back.
/// Interactions for another community are ignored.
pub open spec fn interaction_step(m: ShellModel, it: InteractionModel) -> (
    ShellModel,
    Seq<ActionModel>,
) {
    match it {
        InteractionModel::Ping => (m, Seq::<ActionModel>::empty()),
        InteractionModel::ApplicationCommand { guild_id, command_name, option_name, option_value } => {
            if guild_id != Some(m.config.guild_id) {
                (m, Seq::<ActionModel>::empty())
            } else if command_name == "config"@ {
                (
                    m,
                    seq![
                        ActionModel::ShowSelection {
                            title: "Bussy configuration"@,
                            body:
                                "Pick which setting do you want to configure. That will bring you onto the next screen."@,
                            options: selection_options_model(m.config.fields),
                        },
                    ],
                )
            } else if command_name == "change"@ {
                let text = match option_value {
                    Some(t) => t,
                    None => Seq::<char>::empty(),
                };
                name_step(m, option_name, text)
            } else {
                (m, Seq::<ActionModel>::empty())
            }
        },
        InteractionModel::MessageComponent { guild_id, custom_id, values, roles, channels } => {
            if guild_id != Some(m.config.guild_id) {
                (m, Seq::<ActionModel>::empty())
            } else if values.len() == 0 {
                (m, Seq::<ActionModel>::empty())
            } else if custom_id == "config_selection"@ {
                selection_step(m, values[0], roles, channels)
            } else {
                setting_step(m, custom_id, values[0])
            }
        },
    }
}


impl GuildShell {
    /// Drive the settings-selection protocol for one interaction.
    ///
    /// Step one lists the fields; step two renders the picked field's
    /// input surface; step three hands the submitted value to the
    /// field and reports the outcome.  Interactions for another
    /// community, and unknown commands or keys, change nothing.
    pub fn handle_interaction(&mut self, interaction: &Interaction) -> (actions: Vec<Action>)
        requires
            shell_wf(old(self)@),
        ensures
            ({
                let r = interaction_step(old(self)@, interaction@);
                final(self)@ == r.0 && action_models(actions@) == r.1
            }),
            shell_wf(final(self)@),
    {
        let mut actions: Vec<Action> = Vec::new();
        proof {
            assert(action_models(actions@) =~= Seq::<ActionModel>::empty());
        }
        match interaction {
            Interaction::Ping => actions,
            Interaction::ApplicationCommand { guild_id, command_name, option_name, option_value } => {
                let same_guild = match guild_id {
                    Some(g) => *g == self.config.get_guild_id(),
                    None => false,
                };
                if !same_guild {
                    return actions;
                }
                let config_cmd = "config".to_owned();
                let change_cmd = "change".to_owned();
                if *command_name == config_cmd {
                    let options = self.config.list_selection_options();
                    proof {
                        assert(options@.map_values(|o: SelectionOption| o@)
                            =~= selection_options_model(self@.config.fields));
                    }
                    let act = Action::ShowSelection {
                        title: "Bussy configuration".to_owned(),
                        body:
                            "Pick which setting do you want to configure. That will bring you onto the next screen.".to_owned(),
                        options,
                    };
                    let ghost actm = act@;
                    actions.push(act);
                    proof {
                        assert(action_models(actions@) =~= seq![actm]);
                    }
                    actions
                } else if *command_name == change_cmd {
                    let ghost fs0 = self@.config.fields;
                    let ghost p = |f: FieldModel| f.name == option_name@;
                    let text = match option_value {
                        Some(t) => t.clone(),
                        None => String::new(),
                    };
                    let outcome = self.config.set_by_name(option_name, text);
                    match outcome {
                        SettingOutcome::Updated(i) => {
                            proof {
                                crate::settings::lemma_first_index_from(fs0, p, i as int);
                            }
                            let act = Action::ShowMessage {
                                title: "Change successful".to_owned(),
                                body: option_name.clone().concat(" changed successfully"),
                            };
                            let ghost actm = act@;
                            actions.push(act);
                            proof {
                                assert(action_models(actions@) =~= seq![actm]);
                            }
                        },
                        SettingOutcome::Rejected(i, e) => {
                            proof {
                                crate::settings::lemma_first_index_from(fs0, p, i as int);
                            }
                            let act = Action::ShowMessage { title: "No.".to_owned(), body: e };
                            let ghost actm = act@;
                            actions.push(act);
                            proof {
                                assert(action_models(actions@) =~= seq![actm]);
                            }
                        },
                        SettingOutcome::UnknownKey => {
                            proof {
                                crate::settings::lemma_first_index_from(fs0, p, fs0.len() as int);
                            }
                        },
                    }
                    actions
                } else {
                    actions
                }
            },
            Interaction::MessageComponent { guild_id, custom_id, values, roles, channels } => {
                let same_guild = match guild_id {
                    Some(g) => *g == self.config.get_guild_id(),
                    None => false,
                };
                if !same_guild {
                    return actions;
                }
                if values.len() == 0 {
                    return actions;
                }
                let selection_id = "config_selection".to_owned();
                if *custom_id == selection_id {
                    let ghost fs0 = self@.config.fields;
                    let ghost key = values@.map_values(|v: String| v@)[0];
                    let ghost p = |f: FieldModel| selection_key_model(f.name) == key;
                    match self.config.find_by_selection_key(&values[0]) {
                        Some(i) => {
                            proof {
                                crate::settings::lemma_first_index_from(fs0, p, i as int);
                            }
                            let fields = self.config.get_configurable_fields();
                            let name = fields[i].get_pretty_name().clone();
                            let window = fields[i].make_config_window(roles, channels);
                            let act = Action::ShowWindow {
                                title: "Set ".to_owned().concat(name.as_str()),
                                body: "Set value for ".to_owned().concat(name.as_str()).concat(
                                    " or reset it",
                                ),
                                window,
                            };
                            let ghost actm = act@;
                            actions.push(act);
                            proof {
                                assert(action_models(actions@) =~= seq![actm]);
                                let r = selection_step(
                                    old(self)@,
                                    key,
                                    roles@.map_values(|e: RefEntry| e@),
                                    channels@.map_values(|e: RefEntry| e@),
                                );
                                assert(actm == r.1[0]);
                            }
                        },
                        None => {
                            proof {
                                crate::settings::lemma_first_index_from(fs0, p, fs0.len() as int);
                            }
                        },
                    }
                    actions
                } else {
                    let ghost fs0 = self@.config.fields;
                    let ghost key = custom_id@;
                    let ghost p = |f: FieldModel| setting_key_model(f.name) == key;
                    let outcome = self.config.set_by_setting_key(custom_id, values[0].clone());
                    match outcome {
                        SettingOutcome::Updated(i) => {
                            proof {
                                crate::settings::lemma_first_index_from(fs0, p, i as int);
                            }
                            let options = self.config.list_selection_options();
                            proof {
                                assert(options@.map_values(|o: SelectionOption| o@)
                                    =~= selection_options_model(self@.config.fields));
                            }
                            let act = Action::ShowSelection {
                                title: "Value change".to_owned(),
                                body: "Value changed successfully!".to_owned(),
                                options,
                            };
                            let ghost actm = act@;
                            actions.push(act);
                            proof {
                                assert(action_models(actions@) =~= seq![actm]);
                            }
                        },
                        SettingOutcome::Rejected(i, e) => {
                            proof {
                                crate::settings::lemma_first_index_from(fs0, p, i as int);
                            }
                            let options = self.config.list_selection_options();
                            proof {
                                assert(options@.map_values(|o: SelectionOption| o@)
                                    =~= selection_options_model(self@.config.fields));
                            }
                            let act = Action::ShowSelection {
                                title: "Value change".to_owned(),
                                body: "Couldn't set value: ".to_owned().concat(e.as_str()),
                                options,
                            };
                            let ghost actm = act@;
                            actions.push(act);
                            proof {
                                assert(action_models(actions@) =~= seq![actm]);
                            }
                        },
                        SettingOutcome::UnknownKey => {
                            proof {
                                crate::settings::lemma_first_index_from(fs0, p, fs0.len() as int);
                            }
                        },
                    }
                    actions
                }
            },
        }
    }
}


/// A member record with its log flushed.
pub open spec fn cleared_log_member(m: MemberModel) -> MemberModel {
    MemberModel { log: Seq::<LogRecordModel>::empty(), ..m }
}

/// Every member record with its log flushed.
pub open spec fn clear_member_logs(ms: Seq<MemberModel>) -> Seq<MemberModel> {
    ms.map_values(|m: MemberModel| cleared_log_member(m))
}

/// The embed sent for one member's log, when it has records.
pub open spec fn member_log_embed(m: MemberModel, ch: u64) -> ActionModel {
    ActionModel::SendEmbed {
        channel: ch,
        title: "Member "@ + dec_str(m.member_id as int),
        body: "<@"@ + dec_str(m.member_id as int) + ">\n```"@ + crate::log::render_log(m.log)
            + "```"@,
    }
}

/// The embeds sent for the members' logs, in table order, one per
/// member with records.
pub open spec fn member_log_actions(ms: Seq<MemberModel>, ch: u64) -> Seq<ActionModel>
    decreases ms.len(),
{
    if ms.len() == 0 {
        Seq::<ActionModel>::empty()
    } else {
        member_log_actions(ms.drop_last(), ch) + (if ms.last().log.len() > 0 {
            seq![member_log_embed(ms.last(), ch)]
        } else {
            Seq::<ActionModel>::empty()
        })
    }
}

/// What flushing the logs does, once a log channel is configured: the
/// community buffer and every member buffer with records each become
/// one embed to the log channel, and all the buffers are emptied.
pub open spec fn dump_step(m: ShellModel) -> (ShellModel, Seq<ActionModel>) {
    match ref_of(m.config.fields[IDX_LOG_CHANNEL as int].value) {
        None => (m, Seq::<ActionModel>::empty()),
        Some(ch) => {
            let server_acts: Seq<ActionModel> = if m.log.len() > 0 {
                seq![
                    ActionModel::SendEmbed {
                        channel: ch,
                        title: "Server info"@,
                        body: "```"@ + crate::log::render_log(m.log) + "```"@,
                    },
                ]
            } else {
                Seq::<ActionModel>::empty()
            };
            (
                ShellModel {
                    log: Seq::<LogRecordModel>::empty(),
                    members: clear_member_logs(m.members),
                    ..m
                },
                server_acts + member_log_actions(m.members, ch),
            )
        },
    }
}

impl GuildShell {
    /// Flush the community's log buffers to the configured log channel.
    ///
    /// Fails, changing nothing, when no log channel is configured.
    pub fn dump_logs(&mut self) -> (r: Result<Vec<Action>, String>)
        requires
            shell_wf(old(self)@),
        ensures
            r is Err <==> ref_of(
                old(self)@.config.fields[IDX_LOG_CHANNEL as int].value,
            ) is None,
            r is Err ==> final(self)@ == old(self)@ && r->Err_0@
                == "No log channel configured"@,
            r is Ok ==> ({
                let d = dump_step(old(self)@);
                final(self)@ == d.0 && action_models(r->Ok_0@) == d.1
            }),
            shell_wf(final(self)@),
    {
        let ch = match self.config.log_channel() {
            None => {
                return Err("No log channel configured".to_owned());
            },
            Some(ch) => ch,
        };
        let mut actions: Vec<Action> = Vec::new();
        match self.log.dump() {
            Some(s) => {
                actions.push(
                    Action::SendEmbed {
                        channel: ch,
                        title: "Server info".to_owned(),
                        body: "```".to_owned().concat(s.as_str()).concat("```"),
                    },
                );
                self.log.clear();
            },
            None => {},
        }
        let ghost m0 = old(self)@;
        let ghost ms0 = m0.members;
        let ghost server_acts = actions@.map_values(|a: Action| a@);
        let mut i: usize = 0;
        while i < self.active_members.len()
            invariant
                0 <= i <= self.active_members.len(),
                self@.members.len() == ms0.len(),
                ms0.len() == self.active_members.len(),
                self@.config == m0.config,
                self@.raid == m0.raid,
                self@.running == m0.running,
                self@.log.len() == 0,
                forall|j: int|
                    0 <= j < i ==> #[trigger] self@.members[j] =~~= cleared_log_member(ms0[j]),
                forall|j: int| i <= j < ms0.len() ==> #[trigger] self@.members[j] == ms0[j],
                action_models(actions@) =~= server_acts + member_log_actions(
                    ms0.take(i as int),
                    ch,
                ),
            decreases self.active_members.len() - i,
        {
            let ghost a0 = actions@;
            let ghost mspre = self@.members;
            proof {
                assert(self@.members[i as int] == ms0[i as int]);
            }
            let dumped = self.active_members[i].dump_log();
            match dumped {
                Some(s) => {
                    let id = self.active_members[i].member_id();
                    let idtext = format_u64(id);
                    let act = Action::SendEmbed {
                        channel: ch,
                        title: "Member ".to_owned().concat(idtext.as_str()),
                        body: "<@".to_owned().concat(idtext.as_str()).concat(">\n```").concat(
                            s.as_str(),
                        ).concat("```"),
                    };
                    let ghost actm = act@;
                    actions.push(act);
                    self.active_members[i].clear_log();
                    proof {
                        assert(self@.members =~= mspre.update(i as int, self@.members[i as int]));
                        assert(forall|j: int|
                            0 <= j < ms0.len() && j != i ==> #[trigger] self@.members[j]
                                == mspre[j]);
                        assert(self@.members[i as int] =~~= cleared_log_member(ms0[i as int]));
                        assert(actm =~~= member_log_embed(ms0[i as int], ch));
                        assert(action_models(actions@) =~= action_models(a0).push(actm));
                    }
                },
                None => {
                    proof {
                        assert(self@.members[i as int] =~~= cleared_log_member(ms0[i as int]));
                    }
                },
            }
            i = i + 1;
            proof {
                assert(ms0.take(i as int).drop_last() =~= ms0.take(i - 1));
                assert(ms0.take(i as int).last() == ms0[i - 1]);
            }
        }
        proof {
            assert(ms0.take(ms0.len() as int) =~= ms0);
            assert(self@.members =~= clear_member_logs(ms0));
            let d = dump_step(m0);
            assert(self@ =~~= d.0);
            assert(action_models(actions@) =~= d.1);
        }
        Ok(actions)
    }
}


/// One inbound event for a community's mailbox.
pub enum ShellEvent {
    /// A message was posted.
    NewMessage { author: u64, location: MessageLocation, features: MessageFeatures },
    /// A member joined.
    MemberJoined { member: u64 },
    /// An interaction arrived.
    NewInteraction { interaction: Interaction },
    /// A caller asks for a copy of the configuration.
    GetConfig,
    /// The transport finished carrying out a silence pass: the
    /// member's cleanup guard is released (the silence action's final
    /// step).
    SilenceDone { member: u64 },
    /// Flush the logs and stop consuming events.
    Shutdown,
}

/// Mathematical model of an inbound event.
#[verifier::ext_equal]
pub ghost enum ShellEventModel {
    NewMessage { author: u64, location: MessageLocation, features: MessageFeatures },
    MemberJoined { member: u64 },
    NewInteraction { interaction: InteractionModel },
    GetConfig,
    SilenceDone { member: u64 },
    Shutdown,
}

impl View for ShellEvent {
    type V = ShellEventModel;

    open spec fn view(&self) -> ShellEventModel {
        match self {
            ShellEvent::NewMessage { author, location, features } => ShellEventModel::NewMessage {
                author: *author,
                location: *location,
                features: *features,
            },
            ShellEvent::MemberJoined { member } => ShellEventModel::MemberJoined {
                member: *member,
            },
            ShellEvent::NewInteraction { interaction } => ShellEventModel::NewInteraction {
                interaction: interaction@,
            },
            ShellEvent::GetConfig => ShellEventModel::GetConfig,
            ShellEvent::SilenceDone { member } => ShellEventModel::SilenceDone { member: *member },
            ShellEvent::Shutdown => ShellEventModel::Shutdown,
        }
    }
}

/// What the completion of a silence pass does: the member's cleanup
/// guard is released.  This is the silence action's final step —
/// "clear the guard" — deferred until the transport has performed the
/// role grant and the deletions that [`silence_step`] requested.
pub open spec fn silence_done_step(m: ShellModel, member: u64) -> ShellModel {
    if has_member(m.members, member) {
        let idx = member_index(m.members, member);
        ShellModel {
            members: m.members.update(
                idx,
                MemberModel { cleanup: false, ..m.members[idx] },
            ),
            ..m
        }
    } else {
        m
    }
}

/// What one event does to the shell at time `now`: the actor's whole
/// transition function.  A shell that has shut down ignores events.
pub open spec fn event_step(m: ShellModel, ev: ShellEventModel, now: u64) -> (
    ShellModel,
    Seq<ActionModel>,
) {
    if !m.running {
        (m, Seq::<ActionModel>::empty())
    } else {
        match ev {
            ShellEventModel::NewMessage { author, location, features } => message_step(
                m,
                author,
                location,
                features,
                now,
            ),
            ShellEventModel::MemberJoined { member } => join_step(m, member, now),
            ShellEventModel::NewInteraction { interaction } => interaction_step(m, interaction),
            ShellEventModel::GetConfig => (m, seq![ActionModel::ReplyConfig(m.config)]),
            ShellEventModel::SilenceDone { member } => (
                silence_done_step(m, member),
                Seq::<ActionModel>::empty(),
            ),
            ShellEventModel::Shutdown => {
                let d = dump_step(m);
                (ShellModel { running: false, ..d.0 }, d.1)
            },
        }
    }
}

/// The fold of [`event_step`] over a sequence of timed events, in
/// order: the state after all of them, and every action in order.
pub open spec fn run_steps(m: ShellModel, evs: Seq<(ShellEventModel, u64)>) -> (
    ShellModel,
    Seq<ActionModel>,
) 
    decreases evs.len(),
{
    if evs.len() == 0 {
        (m, Seq::<ActionModel>::empty())
    } else {
        let head = event_step(m, evs[0].0, evs[0].1);
        let rest = run_steps(head.0, evs.drop_first());
        (rest.0, head.1 + rest.1)
    }
}

impl GuildShell {
    /// Consume one event at time `now` and hand back the outward
    /// actions it asks for.
    pub fn handle_event(&mut self, event: ShellEvent, now: u64) -> (actions: Vec<Action>)
        requires
            shell_wf(old(self)@),
        ensures
            ({
                let r = event_step(old(self)@, event@, now);
                final(self)@ == r.0 && action_models(actions@) == r.1
            }),
            shell_wf(final(self)@),
    {
        if !self.is_running() {
            let actions: Vec<Action> = Vec::new();
            proof {
                assert(action_models(actions@) =~= Seq::<ActionModel>::empty());
            }
            return actions;
        }
        match event {
            ShellEvent::NewMessage { author, location, features } => self.message_created(
                author,
                location,
                &features,
                now,
            ),
            ShellEvent::MemberJoined { member } => self.member_joined(member, now),
            ShellEvent::NewInteraction { interaction } => self.handle_interaction(&interaction),
            ShellEvent::GetConfig => {
                let mut actions: Vec<Action> = Vec::new();
                let act = Action::ReplyConfig(self.config.duplicate());
                let ghost actm = act@;
                actions.push(act);
                proof {
                    assert(action_models(actions@) =~= seq![actm]);
                    assert(actm =~~= ActionModel::ReplyConfig(self@.config));
                }
                actions
            },
            ShellEvent::SilenceDone { member } => {
                let actions: Vec<Action> = Vec::new();
                let i = self.find_member(member);
                if i < self.active_members.len() {
                    let ghost ms0 = self@.members;
                    self.active_members[i].end_cleanup();
                    proof {
                        lemma_member_index_range(ms0, member);
                        assert(self@.members =~= ms0.update(i as int, self@.members[i as int]));
                        lemma_members_update(ms0, i as int, self@.members[i as int]);
                    }
                }
                proof {
                    assert(action_models(actions@) =~= Seq::<ActionModel>::empty());
                }
                actions
            },
            ShellEvent::Shutdown => {
                let actions = match self.dump_logs() {
                    Ok(a) => a,
                    Err(_) => Vec::new(),
                };
                self.running = false;
                proof {
                    let r = event_step(old(self)@, ShellEventModel::Shutdown, now);
                    assert(self@ =~~= r.0);
                    assert(action_models(actions@) =~= r.1);
                }
                actions
            },
        }
    }

    /// Consume a whole sequence of timed events, in order.
    ///
    /// The resulting state and actions are exactly the fold of the
    /// single-event step over the sequence: events submitted to one
    /// shell are applied in submission order, each seeing the state the
    /// previous one left.
    pub fn process_events(&mut self, events: Vec<(ShellEvent, u64)>) -> (actions: Vec<Action>)
        requires
            shell_wf(old(self)@),
        ensures
            ({
                let evs = events@.map_values(|e: (ShellEvent, u64)| (e.0@, e.1));
                let r = run_steps(old(self)@, evs);
                final(self)@ == r.0 && action_models(actions@) == r.1
            }),
            shell_wf(final(self)@),
    {
        let ghost m0 = self@;
        let ghost evs_all = events@.map_values(|e: (ShellEvent, u64)| (e.0@, e.1));
        let mut actions: Vec<Action> = Vec::new();
        let mut events = events;
        proof {
            assert(events@.map_values(|e: (ShellEvent, u64)| (e.0@, e.1)) =~= evs_all);
        }
        while events.len() > 0
            invariant
                shell_wf(self@),
                run_steps(m0, evs_all).0 == run_steps(
                    self@,
                    events@.map_values(|e: (ShellEvent, u64)| (e.0@, e.1)),
                ).0,
                run_steps(m0, evs_all).1 =~= action_models(actions@) + run_steps(
                    self@,
                    events@.map_values(|e: (ShellEvent, u64)| (e.0@, e.1)),
                ).1,
            decreases events.len(),
        {
            let ghost rem = events@.map_values(|e: (ShellEvent, u64)| (e.0@, e.1));
            let (event, at) = events.remove(0);
            proof {
                assert(events@.map_values(|e: (ShellEvent, u64)| (e.0@, e.1)) =~= rem.drop_first());
                assert(rem[0] == (event@, at));
            }
            let ghost a0 = actions@;
            let ghost pre = self@;
            let mut step_actions = self.handle_event(event, at);
            let ghost sa = step_actions@.map_values(|a: Action| a@);
            while step_actions.len() > 0
                invariant
                    action_models(actions@) + step_actions@.map_values(|a: Action| a@)
                        =~= action_models(a0) + sa,
                decreases step_actions.len(),
            {
                let ghost ab = actions@;
                let ghost sb = step_actions@;
                let a = step_actions.remove(0);
                actions.push(a);
                proof {
                    assert(action_models(actions@) =~= action_models(ab).push(a@));
                    assert(step_actions@.map_values(|x: Action| x@) =~= sb.map_values(
                        |x: Action| x@,
                    ).drop_first());
                    assert(action_models(actions@) + step_actions@.map_values(|x: Action| x@)
                        =~= action_models(ab) + sb.map_values(|x: Action| x@));
                }
            }
            proof {
                assert(step_actions@.map_values(|a: Action| a@) =~= Seq::<ActionModel>::empty());
                assert(action_models(actions@) =~= action_models(a0) + sa);
                let head = event_step(pre, rem[0].0, rem[0].1);
                assert(self@ == head.0 && sa =~= head.1);
                assert(run_steps(pre, rem).0 == run_steps(self@, rem.drop_first()).0);
                assert(run_steps(pre, rem).1 =~= head.1 + run_steps(self@, rem.drop_first()).1);
            }
        }
        proof {
            assert(events@.map_values(|e: (ShellEvent, u64)| (e.0@, e.1)).len() == 0);
            assert(run_steps(self@, events@.map_values(|e: (ShellEvent, u64)| (e.0@, e.1))).1
                =~= Seq::<ActionModel>::empty());
        }
        actions
    }
}


impl GuildShell {
    /// Consume one event stamped with the wall clock.
    pub fn handle_event_now(&mut self, event: ShellEvent) -> (actions: Vec<Action>)
        requires
            shell_wf(old(self)@),
        ensures
            exists|now: u64|
                final(self)@ == (#[trigger] event_step(old(self)@, event@, now)).0
                    && action_models(actions@) == event_step(old(self)@, event@, now).1,
            shell_wf(final(self)@),
    {
        let now = crate::clock::now_seconds();
        let ghost ev = event@;
        let actions = self.handle_event(event, now);
        proof {
            let r = event_step(old(self)@, ev, now);
            assert(self@ == r.0 && action_models(actions@) == r.1);
        }
        actions
    }
}

/// While a raid window is open, a join grants no roles: it only adds
/// the joiner to the window's roster, whose expiration moves out to the
/// time of that join.
pub proof fn lemma_raid_suppresses_roles(m: ShellModel, member: u64, now: u64)
    requires
        raid_active(
            m.raid.current_raid,
            uint_of(m.config.fields[IDX_RAID_AUTOEXPIRATION as int].value),
            now,
        ),
    ensures
        join_step(m, member, now).1 == Seq::<ActionModel>::empty(),
        join_step(m, member, now).0.raid.current_raid->0.raiders == m.raid.current_raid->0
            .raiders.push(member),
        join_step(m, member, now).0.raid.current_raid->0.last_join == now,
{
}

/// The silence action is idempotent under its guard: once a pass has
/// begun, a second trigger before completion does nothing at all — no
/// second role request, no second deletion pass, no state change.
pub proof fn lemma_silence_idempotent(m: ShellModel, idx: int, now: u64, later: u64)
    requires
        0 <= idx < m.members.len(),
    ensures
        ({
            let first = silence_step(m, idx, now);
            let second = silence_step(first.0, idx, later);
            second.0 == first.0 && second.1 == Seq::<ActionModel>::empty()
        }),
{
    let first = silence_step(m, idx, now);
    assert(first.0.members[idx].cleanup);
}


impl GuildShell {
    /// How many members have records.
    pub fn member_count(&self) -> (n: usize)
        ensures
            n == self@.members.len(),
    {
        self.active_members.len()
    }

    /// A member's current pressure, when they have a record.
    pub fn member_pressure(&self, id: u64) -> (r: Option<u64>)
        ensures
            r is Some <==> has_member(self@.members, id),
            r is Some ==> r->0 == self@.members[member_index(self@.members, id)].pressure,
    {
        let i = self.find_member(id);
        if i < self.active_members.len() {
            Some(self.active_members[i].current_pressure())
        } else {
            None
        }
    }

    /// How many of a member's recent messages are remembered, when
    /// they have a record.
    pub fn member_recent_count(&self, id: u64) -> (r: Option<usize>)
        ensures
            r is Some <==> has_member(self@.members, id),
            r is Some ==> r->0 == self@.members[member_index(self@.members, id)].recent.len(),
    {
        let i = self.find_member(id);
        if i < self.active_members.len() {
            Some(self.active_members[i].recent_len())
        } else {
            None
        }
    }

    /// Whether a silence pass is under way for a member, when they
    /// have a record.
    pub fn member_cleanup_in_progress(&self, id: u64) -> (r: Option<bool>)
        ensures
            r is Some <==> has_member(self@.members, id),
            r is Some ==> r->0 == self@.members[member_index(self@.members, id)].cleanup,
    {
        let i = self.find_member(id);
        if i < self.active_members.len() {
            Some(self.active_members[i].is_cleanup_in_progress())
        } else {
            None
        }
    }

    /// The open raid window, if any.
    pub fn current_raid(&self) -> (r: &Option<RaidInfo>)
        ensures
            r is Some <==> self@.raid.current_raid is Some,
            r is Some ==> (*r)->0@ == self@.raid.current_raid->0,
    {
        self.raid.current_raid()
    }

    /// The last raid window that lapsed, if any.
    pub fn last_raid(&self) -> (r: &Option<RaidInfo>)
        ensures
            r is Some <==> self@.raid.last_raid is Some,
            r is Some ==> (*r)->0@ == self@.raid.last_raid->0,
    {
        self.raid.last_raid()
    }
}

} // verus!










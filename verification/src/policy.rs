use vstd::prelude::*;

use crate::models::{Schedule, ScheduleState, User, str_eq};

verus! {

/// The guarded transitions of the schedule lifecycle.
#[derive(Debug, PartialEq, Eq, Structural, Clone, Copy)]
pub enum Transition {
    /// Propose a new window for the subject.
    Create,
    /// Change the window of a still-unapproved proposal.
    EditDuration,
    /// Approve the proposal: the admin approves self-created requests,
    /// the subject approves requests made about them by someone else.
    Approve,
    /// The subject records absence on an approved window.
    MarkAbsent,
    /// An admin rejects a recorded absence.
    RevertAbsence,
    /// Withdraw the entry; terminal.
    Disable,
    /// Remove a never-approved entry.
    Delete,
}

/// The authorization rule table: whether `actor` (with the given admin
/// flag) may apply `t` to `s`. A pure decision; every mutating operation
/// asks it and re-states the same guard in its conditional write.
pub open spec fn allows(actor: Seq<char>, actor_is_admin: bool, s: Schedule, t: Transition) -> bool {
    match t {
        Transition::Create => actor == s.username@ || actor_is_admin,
        Transition::EditDuration => actor == s.created_by@ && !s.permitted && !s.absent
            && s.enable,
        Transition::Approve => {
            if actor_is_admin {
                s.username@ == s.created_by@ && !s.permitted && !s.absent && s.enable
            } else {
                actor == s.username@ && actor != s.created_by@ && !s.permitted && !s.absent
                    && s.enable
            }
        },
        Transition::MarkAbsent => actor == s.username@ && s.permitted && !s.absent && s.enable,
        Transition::RevertAbsence => actor_is_admin && s.permitted && s.absent && s.enable,
        Transition::Disable => ((actor == s.username@ && !s.permitted && !s.absent)
            || (actor_is_admin && s.permitted && s.absent)) && s.enable,
        Transition::Delete => actor == s.created_by@ && !s.permitted,
    }
}

/// Executable form of the rule table.
pub fn can_transition(actor: &str, actor_is_admin: bool, s: &Schedule, t: Transition) -> (r: bool)
    ensures
        r == allows(actor@, actor_is_admin, *s, t),
{
    match t {
        Transition::Create => str_eq(actor, s.username.as_str()) || actor_is_admin,
        Transition::EditDuration => str_eq(actor, s.created_by.as_str()) && !s.permitted
            && !s.absent && s.enable,
        Transition::Approve => {
            if actor_is_admin {
                str_eq(s.username.as_str(), s.created_by.as_str()) && !s.permitted && !s.absent
                    && s.enable
            } else {
                str_eq(actor, s.username.as_str()) && !str_eq(actor, s.created_by.as_str())
                    && !s.permitted && !s.absent && s.enable
            }
        },
        Transition::MarkAbsent => str_eq(actor, s.username.as_str()) && s.permitted && !s.absent
            && s.enable,
        Transition::RevertAbsence => actor_is_admin && s.permitted && s.absent && s.enable,
        Transition::Disable => ((str_eq(actor, s.username.as_str()) && !s.permitted && !s.absent)
            || (actor_is_admin && s.permitted && s.absent)) && s.enable,
        Transition::Delete => str_eq(actor, s.created_by.as_str()) && !s.permitted,
    }
}

/// Listing every account and creating accounts are administrative.
pub open spec fn spec_can_manage_users(actor_is_admin: bool) -> bool {
    actor_is_admin
}

/// Whether `actor` may remove `target`: an admin may remove any
/// non-admin account, and their own account, never another admin's.
pub open spec fn spec_can_delete_user(actor: Seq<char>, actor_is_admin: bool, target: User) -> bool {
    actor_is_admin && (!target.isadmin || target.id@ == actor)
}

/// Executable form of the user-removal rule.
pub fn can_delete_user(actor: &str, actor_is_admin: bool, target: &User) -> (r: bool)
    ensures
        r == spec_can_delete_user(actor@, actor_is_admin, *target),
{
    actor_is_admin && (!target.isadmin || str_eq(target.id.as_str(), actor))
}

/// The lifecycle graph on named states: which state each transition
/// reaches, or nothing where the step is never legal from that state.
pub open spec fn next_state(st: ScheduleState, t: Transition) -> Option<ScheduleState> {
    match (st, t) {
        (ScheduleState::Proposed, Transition::EditDuration) => Some(ScheduleState::Proposed),
        (ScheduleState::Proposed, Transition::Approve) => Some(ScheduleState::Permitted),
        (ScheduleState::Proposed, Transition::Disable) => Some(ScheduleState::Disabled),
        (ScheduleState::Permitted, Transition::MarkAbsent) => Some(ScheduleState::AbsentMarked),
        (ScheduleState::AbsentMarked, Transition::RevertAbsence) => Some(ScheduleState::Permitted),
        (ScheduleState::AbsentMarked, Transition::Disable) => Some(ScheduleState::Disabled),
        _ => None,
    }
}

/// The flags of a row after a mutating transition is applied to it.
/// The window edit keeps all flags; creation and deletion do not
/// rewrite an existing row.
pub open spec fn transition_effect(t: Transition, s: Schedule) -> Schedule {
    match t {
        Transition::Approve => Schedule { permitted: true, ..s },
        Transition::MarkAbsent => Schedule { absent: true, ..s },
        Transition::RevertAbsence => Schedule { absent: false, ..s },
        Transition::Disable => Schedule { enable: false, ..s },
        Transition::Create | Transition::EditDuration | Transition::Delete => s,
    }
}

/// Whichever actor the policy lets apply a mutating transition, the
/// step is an edge of the lifecycle graph, its effect keeps the row
/// well-formed, and the row lands exactly on the state that the graph
/// names: the rule table never authorizes a step the state machine
/// does not have.
pub proof fn lemma_allowed_steps_follow_lifecycle(
    actor: Seq<char>,
    actor_is_admin: bool,
    s: Schedule,
    t: Transition,
)
    requires
        s.wf(),
        allows(actor, actor_is_admin, s, t),
        t != Transition::Create && t != Transition::Delete,
    ensures
        transition_effect(t, s).wf(),
        next_state(s.state(), t) == Some(transition_effect(t, s).state()),
{
}

} // verus!

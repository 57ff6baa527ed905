use vstd::prelude::*;

use crate::errors::ServiceError;
use crate::models::{Schedule, StartEnd, StartEndWithUser, str_eq};
use crate::policy::{Transition, allows, can_transition};
use crate::store::{
    FieldUpdate, StateFilter, Store, has_row, lemma_match_same_index, matching_row_idx, row_idx,
    row_matches, spec_row,
};

verus! {

/// Propose a new schedule: the subject proposes for themself, or an
/// admin proposes on anyone's behalf. The window must be non-empty.
/// The new entry starts unapproved, present and enabled.
pub fn add_schedule(
    store: &mut Store,
    actor: &str,
    actor_is_admin: bool,
    se: &StartEndWithUser,
) -> (r: Result<Schedule, ServiceError>)
    requires
        old(store).wf(),
    ensures
        final(store).wf(),
        final(store).users == old(store).users,
        (r matches Err(e) ==> final(store).schedules == old(store).schedules && final(store).next_id == old(store).next_id),
        (se.start_time >= se.end_time ==> (r matches Err(e) && e == ServiceError::Validation)),
        (se.start_time < se.end_time && !(actor@ == se.username@ || actor_is_admin) ==> (
        r matches Err(e) && e == ServiceError::Authorization)),
        (se.start_time < se.end_time && (actor@ == se.username@ || actor_is_admin) && old(store).next_id < i64::MAX ==> r is Ok),
        (r matches Ok(s) ==> se.start_time < se.end_time && (actor@ == se.username@
            || actor_is_admin) && s.id == old(store).next_id && s.username@ == se.username@
            && s.created_by@ == actor@ && s.start_time == se.start_time && s.end_time
            == se.end_time && !s.permitted && !s.absent && s.enable && final(store).schedules@
            == old(store).schedules@.push(s) && final(store).next_id == old(store).next_id + 1),
{
    if se.start_time >= se.end_time {
        return Err(ServiceError::Validation);
    }
    if !(str_eq(actor, se.username.as_str()) || actor_is_admin) {
        return Err(ServiceError::Authorization);
    }
    if store.next_id == i64::MAX {
        return Err(ServiceError::Store);
    }
    let s = store.insert_schedule(se.username.as_str(), actor, se.start_time, se.end_time);
    Ok(s)
}

/// Change the window of a schedule: only its creator may, and only
/// while it is still unapproved, not marked absent and enabled. The
/// write re-states those guards, so a concurrent conflicting write
/// cannot also succeed.
pub fn update_schedule(store: &mut Store, actor: &str, id: i64, se: &StartEnd) -> (r: Result<
    usize,
    ServiceError,
>)
    requires
        old(store).wf(),
    ensures
        final(store).wf(),
        final(store).users == old(store).users,
        final(store).next_id == old(store).next_id,
        (r matches Err(e) ==> final(store).schedules == old(store).schedules),
        (se.start_time >= se.end_time ==> (r matches Err(e) && e == ServiceError::Validation)),
        (se.start_time < se.end_time && !has_row(old(store).schedules@, id) ==> (r matches Err(e)
            && e == ServiceError::Conflict)),
        (se.start_time < se.end_time && has_row(old(store).schedules@, id) && !allows(
            actor@,
            false,
            spec_row(old(store).schedules@, id),
            Transition::EditDuration,
        ) ==> (r matches Err(e) && e == ServiceError::Authorization)),
        (se.start_time < se.end_time && has_row(old(store).schedules@, id) && allows(
            actor@,
            false,
            spec_row(old(store).schedules@, id),
            Transition::EditDuration,
        ) ==> (r matches Ok(n) && n == 1 && final(store).schedules@ == old(store).schedules@.update(
            row_idx(old(store).schedules@, id),
            Schedule {
                start_time: se.start_time,
                end_time: se.end_time,
                ..spec_row(old(store).schedules@, id)
            },
        ))),
        (forall|j: int|
            0 <= j < old(store).schedules@.len() && !(#[trigger] old(store).schedules@[j]).enable
                ==> final(store).schedules@[j] == old(store).schedules@[j]),
{
    if se.start_time >= se.end_time {
        return Err(ServiceError::Validation);
    }
    let row = match store.find_by_id(id) {
        None => {
            return Err(ServiceError::Conflict);
        },
        Some(row) => row,
    };
    if !can_transition(actor, false, &row, Transition::EditDuration) {
        return Err(ServiceError::Authorization);
    }
    let ghost rows0 = store.schedules@;
    let ghost i0 = row_idx(rows0, id);
    let f = StateFilter {
        username: None,
        created_by: Some(actor.to_owned()),
        not_created_by: None,
        subject_is_creator: false,
        permitted: Some(false),
        absent: Some(false),
        enable: Some(true),
    };
    let u = FieldUpdate {
        window: Some((se.start_time, se.end_time)),
        permitted: None,
        absent: None,
        enable: None,
    };
    proof {
        assert(row_matches(rows0, id, f, i0));
        assert forall|s: Schedule| s.wf() && #[trigger] f.spec_matches(s) implies u.spec_apply(
            s,
        ).wf() by {}
    }
    let n = store.conditional_update(id, &f, &u);
    proof {
        lemma_match_same_index(rows0, id, f, i0, matching_row_idx(rows0, id, f));
    }
    Ok(n)
}

/// Approve a schedule. An admin approves entries whose subject proposed
/// them for themself; a non-admin approves only entries about them that
/// someone else proposed — never their own proposal. The write
/// re-states the same guards.
pub fn permit_schedule(store: &mut Store, actor: &str, actor_is_admin: bool, id: i64) -> (r:
    Result<usize, ServiceError>)
    requires
        old(store).wf(),
    ensures
        final(store).wf(),
        final(store).users == old(store).users,
        final(store).next_id == old(store).next_id,
        (r matches Err(e) ==> final(store).schedules == old(store).schedules),
        (!has_row(old(store).schedules@, id) ==> (r matches Err(e) && e == ServiceError::Conflict)),
        (has_row(old(store).schedules@, id) && !allows(
            actor@,
            actor_is_admin,
            spec_row(old(store).schedules@, id),
            Transition::Approve,
        ) ==> (r matches Err(e) && e == ServiceError::Authorization)),
        (has_row(old(store).schedules@, id) && allows(
            actor@,
            actor_is_admin,
            spec_row(old(store).schedules@, id),
            Transition::Approve,
        ) ==> (r matches Ok(n) && n == 1 && final(store).schedules@ == old(store).schedules@.update(
            row_idx(old(store).schedules@, id),
            Schedule { permitted: true, ..spec_row(old(store).schedules@, id) },
        ))),
        (forall|j: int|
            0 <= j < old(store).schedules@.len() && !(#[trigger] old(store).schedules@[j]).enable
                ==> final(store).schedules@[j] == old(store).schedules@[j]),
{
    let row = match store.find_by_id(id) {
        None => {
            return Err(ServiceError::Conflict);
        },
        Some(row) => row,
    };
    if !can_transition(actor, actor_is_admin, &row, Transition::Approve) {
        return Err(ServiceError::Authorization);
    }
    let ghost rows0 = store.schedules@;
    let ghost i0 = row_idx(rows0, id);
    let f = if actor_is_admin {
        StateFilter {
            username: None,
            created_by: None,
            not_created_by: None,
            subject_is_creator: true,
            permitted: Some(false),
            absent: Some(false),
            enable: Some(true),
        }
    } else {
        StateFilter {
            username: Some(actor.to_owned()),
            created_by: None,
            not_created_by: Some(actor.to_owned()),
            subject_is_creator: false,
            permitted: Some(false),
            absent: Some(false),
            enable: Some(true),
        }
    };
    let u = FieldUpdate { window: None, permitted: Some(true), absent: None, enable: None };
    proof {
        assert(row_matches(rows0, id, f, i0));
        assert forall|s: Schedule| s.wf() && #[trigger] f.spec_matches(s) implies u.spec_apply(
            s,
        ).wf() by {}
    }
    let n = store.conditional_update(id, &f, &u);
    proof {
        lemma_match_same_index(rows0, id, f, i0, matching_row_idx(rows0, id, f));
    }
    Ok(n)
}

/// Record or reject an absence. An admin rejects a recorded absence,
/// reverting the entry to approved; otherwise the subject records
/// absence on their approved, enabled entry. The write re-states the
/// guards of whichever transition applies.
pub fn absent_schedule(store: &mut Store, actor: &str, actor_is_admin: bool, id: i64) -> (r:
    Result<usize, ServiceError>)
    requires
        old(store).wf(),
    ensures
        final(store).wf(),
        final(store).users == old(store).users,
        final(store).next_id == old(store).next_id,
        (r matches Err(e) ==> final(store).schedules == old(store).schedules),
        (!has_row(old(store).schedules@, id) ==> (r matches Err(e) && e == ServiceError::Conflict)),
        (has_row(old(store).schedules@, id) && allows(
            actor@,
            actor_is_admin,
            spec_row(old(store).schedules@, id),
            Transition::RevertAbsence,
        ) ==> (r matches Ok(n) && n == 1 && final(store).schedules@ == old(store).schedules@.update(
            row_idx(old(store).schedules@, id),
            Schedule { absent: false, ..spec_row(old(store).schedules@, id) },
        ))),
        (has_row(old(store).schedules@, id) && !allows(
            actor@,
            actor_is_admin,
            spec_row(old(store).schedules@, id),
            Transition::RevertAbsence,
        ) && allows(
            actor@,
            actor_is_admin,
            spec_row(old(store).schedules@, id),
            Transition::MarkAbsent,
        ) ==> (r matches Ok(n) && n == 1 && final(store).schedules@ == old(store).schedules@.update(
            row_idx(old(store).schedules@, id),
            Schedule { absent: true, ..spec_row(old(store).schedules@, id) },
        ))),
        (has_row(old(store).schedules@, id) && !allows(
            actor@,
            actor_is_admin,
            spec_row(old(store).schedules@, id),
            Transition::RevertAbsence,
        ) && !allows(
            actor@,
            actor_is_admin,
            spec_row(old(store).schedules@, id),
            Transition::MarkAbsent,
        ) ==> (r matches Err(e) && e == ServiceError::Authorization)),
        (forall|j: int|
            0 <= j < old(store).schedules@.len() && !(#[trigger] old(store).schedules@[j]).enable
                ==> final(store).schedules@[j] == old(store).schedules@[j]),
{
    let row = match store.find_by_id(id) {
        None => {
            return Err(ServiceError::Conflict);
        },
        Some(row) => row,
    };
    let ghost rows0 = store.schedules@;
    let ghost i0 = row_idx(rows0, id);
    if can_transition(actor, actor_is_admin, &row, Transition::RevertAbsence) {
        let f = StateFilter {
            username: None,
            created_by: None,
            not_created_by: None,
            subject_is_creator: false,
            permitted: Some(true),
            absent: Some(true),
            enable: Some(true),
        };
        let u = FieldUpdate { window: None, permitted: None, absent: Some(false), enable: None };
        proof {
            assert(row_matches(rows0, id, f, i0));
            assert forall|s: Schedule| s.wf() && #[trigger] f.spec_matches(s) implies u.spec_apply(
                s,
            ).wf() by {}
        }
        let n = store.conditional_update(id, &f, &u);
        proof {
            lemma_match_same_index(rows0, id, f, i0, matching_row_idx(rows0, id, f));
        }
        Ok(n)
    } else if can_transition(actor, actor_is_admin, &row, Transition::MarkAbsent) {
        let f = StateFilter {
            username: Some(actor.to_owned()),
            created_by: None,
            not_created_by: None,
            subject_is_creator: false,
            permitted: Some(true),
            absent: Some(false),
            enable: Some(true),
        };
        let u = FieldUpdate { window: None, permitted: None, absent: Some(true), enable: None };
        proof {
            assert(row_matches(rows0, id, f, i0));
            assert forall|s: Schedule| s.wf() && #[trigger] f.spec_matches(s) implies u.spec_apply(
                s,
            ).wf() by {}
        }
        let n = store.conditional_update(id, &f, &u);
        proof {
            lemma_match_same_index(rows0, id, f, i0, matching_row_idx(rows0, id, f));
        }
        Ok(n)
    } else {
        Err(ServiceError::Authorization)
    }
}

/// Withdraw a schedule, which is terminal. The subject withdraws their
/// own entry while it is unapproved and not absent; an admin withdraws
/// an approved entry whose absence is recorded. Never from approved
/// directly, and never twice.
pub fn disable_schedule(store: &mut Store, actor: &str, actor_is_admin: bool, id: i64) -> (r:
    Result<usize, ServiceError>)
    requires
        old(store).wf(),
    ensures
        final(store).wf(),
        final(store).users == old(store).users,
        final(store).next_id == old(store).next_id,
        (r matches Err(e) ==> final(store).schedules == old(store).schedules),
        (!has_row(old(store).schedules@, id) ==> (r matches Err(e) && e == ServiceError::Conflict)),
        (has_row(old(store).schedules@, id) && !allows(
            actor@,
            actor_is_admin,
            spec_row(old(store).schedules@, id),
            Transition::Disable,
        ) ==> (r matches Err(e) && e == ServiceError::Authorization)),
        (has_row(old(store).schedules@, id) && allows(
            actor@,
            actor_is_admin,
            spec_row(old(store).schedules@, id),
            Transition::Disable,
        ) ==> (r matches Ok(n) && n == 1 && final(store).schedules@ == old(store).schedules@.update(
            row_idx(old(store).schedules@, id),
            Schedule { enable: false, ..spec_row(old(store).schedules@, id) },
        ))),
        (forall|j: int|
            0 <= j < old(store).schedules@.len() && !(#[trigger] old(store).schedules@[j]).enable
                ==> final(store).schedules@[j] == old(store).schedules@[j]),
{
    let row = match store.find_by_id(id) {
        None => {
            return Err(ServiceError::Conflict);
        },
        Some(row) => row,
    };
    if !can_transition(actor, actor_is_admin, &row, Transition::Disable) {
        return Err(ServiceError::Authorization);
    }
    let ghost rows0 = store.schedules@;
    let ghost i0 = row_idx(rows0, id);
    let f = if !row.permitted {
        StateFilter {
            username: Some(actor.to_owned()),
            created_by: None,
            not_created_by: None,
            subject_is_creator: false,
            permitted: Some(false),
            absent: Some(false),
            enable: Some(true),
        }
    } else {
        StateFilter {
            username: None,
            created_by: None,
            not_created_by: None,
            subject_is_creator: false,
            permitted: Some(true),
            absent: Some(true),
            enable: Some(true),
        }
    };
    let u = FieldUpdate { window: None, permitted: None, absent: None, enable: Some(false) };
    proof {
        assert(row_matches(rows0, id, f, i0));
        assert forall|s: Schedule| s.wf() && #[trigger] f.spec_matches(s) implies u.spec_apply(
            s,
        ).wf() by {}
    }
    let n = store.conditional_update(id, &f, &u);
    proof {
        lemma_match_same_index(rows0, id, f, i0, matching_row_idx(rows0, id, f));
    }
    Ok(n)
}

/// Remove a schedule for good: only its creator may, and only while it
/// was never approved — an approved entry is an audit trail and can
/// only be withdrawn, not removed. There is no admin override. The
/// delete re-states the same guards.
pub fn delete_schedule(store: &mut Store, actor: &str, id: i64) -> (r: Result<usize, ServiceError>)
    requires
        old(store).wf(),
    ensures
        final(store).wf(),
        final(store).users == old(store).users,
        final(store).next_id == old(store).next_id,
        (r matches Err(e) ==> final(store).schedules == old(store).schedules),
        (!has_row(old(store).schedules@, id) ==> (r matches Err(e) && e == ServiceError::Conflict)),
        (has_row(old(store).schedules@, id) && !allows(
            actor@,
            false,
            spec_row(old(store).schedules@, id),
            Transition::Delete,
        ) ==> (r matches Err(e) && e == ServiceError::Authorization)),
        (has_row(old(store).schedules@, id) && allows(
            actor@,
            false,
            spec_row(old(store).schedules@, id),
            Transition::Delete,
        ) ==> (r matches Ok(n) && n == 1 && final(store).schedules@ == old(store).schedules@.remove(row_idx(old(store).schedules@, id)))),
{
    let row = match store.find_by_id(id) {
        None => {
            return Err(ServiceError::Conflict);
        },
        Some(row) => row,
    };
    if !can_transition(actor, false, &row, Transition::Delete) {
        return Err(ServiceError::Authorization);
    }
    let ghost rows0 = store.schedules@;
    let ghost i0 = row_idx(rows0, id);
    let f = StateFilter {
        username: None,
        created_by: Some(actor.to_owned()),
        not_created_by: None,
        subject_is_creator: false,
        permitted: Some(false),
        absent: None,
        enable: None,
    };
    proof {
        assert(row_matches(rows0, id, f, i0));
    }
    let n = store.conditional_delete(id, &f);
    proof {
        lemma_match_same_index(rows0, id, f, i0, matching_row_idx(rows0, id, f));
    }
    Ok(n)
}

} // verus!

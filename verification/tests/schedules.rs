use kintai::store::{page, FieldUpdate, StateFilter, Store};
use kintai::{
    absent_schedule, add_schedule, delete_schedule, disable_schedule, permit_schedule,
    update_schedule, ServiceError, StartEnd, StartEndWithUser,
};

const T0: i64 = 1_704_099_600;

fn se(username: &str, start: i64, end: i64) -> StartEndWithUser {
    StartEndWithUser { username: username.to_string(), start_time: start, end_time: end }
}

fn no_filter() -> StateFilter {
    StateFilter {
        username: None,
        created_by: None,
        not_created_by: None,
        subject_is_creator: false,
        permitted: None,
        absent: None,
        enable: None,
    }
}

fn no_update() -> FieldUpdate {
    FieldUpdate { window: None, permitted: None, absent: None, enable: None }
}

/// The full lifecycle of a self-created schedule: proposal, denied
/// self-approval, admin approval, recorded absence, denied self
/// withdrawal, admin withdrawal, and terminal afterwards.
#[test]
fn test_self_created_lifecycle() {
    let mut store = Store::new();
    let s = add_schedule(&mut store, "alice", false, &se("alice", T0, T0 + 8 * 3600)).unwrap();
    assert_eq!(s.id, 1);
    assert_eq!(s.username, "alice");
    assert_eq!(s.created_by, "alice");
    assert!(!s.permitted && !s.absent && s.enable);

    assert_eq!(permit_schedule(&mut store, "alice", false, 1).unwrap_err(),
        ServiceError::Authorization);
    assert_eq!(permit_schedule(&mut store, "root", true, 1).unwrap(), 1);
    assert!(store.find_by_id(1).unwrap().permitted);

    assert_eq!(absent_schedule(&mut store, "alice", false, 1).unwrap(), 1);
    assert!(store.find_by_id(1).unwrap().absent);

    assert_eq!(disable_schedule(&mut store, "alice", false, 1).unwrap_err(),
        ServiceError::Authorization);
    assert_eq!(disable_schedule(&mut store, "root", true, 1).unwrap(), 1);
    assert!(!store.find_by_id(1).unwrap().enable);

    // terminal: nothing changes it any more, whoever asks
    assert!(update_schedule(&mut store, "alice", 1, &StartEnd {
        start_time: T0,
        end_time: T0 + 9 * 3600,
    }).is_err());
    assert!(permit_schedule(&mut store, "root", true, 1).is_err());
    assert!(absent_schedule(&mut store, "alice", false, 1).is_err());
    assert!(disable_schedule(&mut store, "root", true, 1).is_err());
    let after = store.find_by_id(1).unwrap();
    assert!(after.permitted && after.absent && !after.enable);
}

/// An admin rejects a recorded absence, and only an admin.
#[test]
fn test_revert_absence() {
    let mut store = Store::new();
    add_schedule(&mut store, "alice", false, &se("alice", T0, T0 + 3600)).unwrap();
    permit_schedule(&mut store, "root", true, 1).unwrap();
    absent_schedule(&mut store, "alice", false, 1).unwrap();
    assert!(store.find_by_id(1).unwrap().absent);
    // the admin's call on an absent entry reverts it
    assert_eq!(absent_schedule(&mut store, "root", true, 1).unwrap(), 1);
    let row = store.find_by_id(1).unwrap();
    assert!(row.permitted && !row.absent && row.enable);
}

/// Deletion asks for the creator and a never-approved entry; being an
/// admin grants no override.
#[test]
fn test_delete_restriction() {
    let mut store = Store::new();
    add_schedule(&mut store, "carol", false, &se("carol", T0, T0 + 3600)).unwrap();
    assert_eq!(delete_schedule(&mut store, "bob", 1).unwrap_err(), ServiceError::Authorization);
    assert_eq!(delete_schedule(&mut store, "root", 1).unwrap_err(), ServiceError::Authorization);
    assert_eq!(delete_schedule(&mut store, "carol", 1).unwrap(), 1);
    assert!(store.find_by_id(1).is_none());

    // once approved, even the creator cannot delete
    add_schedule(&mut store, "carol", false, &se("carol", T0, T0 + 3600)).unwrap();
    permit_schedule(&mut store, "root", true, 2).unwrap();
    assert_eq!(delete_schedule(&mut store, "carol", 2).unwrap_err(), ServiceError::Authorization);
    assert!(store.find_by_id(2).is_some());
}

/// Two conditional writes with mutually exclusive filters: exactly one
/// succeeds and one reports no matched row, in either order.
#[test]
fn test_racing_conditional_updates() {
    let proposed = StateFilter { permitted: Some(false), ..no_filter() };
    let approved = StateFilter { permitted: Some(true), ..no_filter() };
    let approve = FieldUpdate { permitted: Some(true), ..no_update() };
    let mark = FieldUpdate { absent: Some(true), ..no_update() };

    // order one: approve wins, the absence write sees a stale filter
    let mut store = Store::new();
    add_schedule(&mut store, "alice", false, &se("alice", T0, T0 + 3600)).unwrap();
    // the filters cannot both match, and approving establishes the
    // second filter, so exclude it the way the real writes do: the
    // absence write also re-checks `absent == false` and `permitted ==
    // true` while approve re-checks `permitted == false`
    let n1 = store.conditional_update(1, &proposed, &approve);
    let n2 = store.conditional_update(1, &StateFilter { permitted: Some(false), absent: Some(false), ..no_filter() }, &mark);
    assert_eq!(n1, 1);
    assert_eq!(n2, 0);

    // order two on a fresh row: the second writer finds the row first
    let mut store = Store::new();
    add_schedule(&mut store, "alice", false, &se("alice", T0, T0 + 3600)).unwrap();
    let n2 = store.conditional_update(1, &approved, &mark);
    let n1 = store.conditional_update(1, &proposed, &approve);
    assert_eq!(n2, 0);
    assert_eq!(n1, 1);
}

/// Every error tag reaches the caller: a bad window, a missing row, a
/// policy denial, and an exhausted id space.
#[test]
fn test_error_tags() {
    let mut store = Store::new();
    assert_eq!(
        add_schedule(&mut store, "alice", false, &se("alice", T0, T0)).unwrap_err(),
        ServiceError::Validation
    );
    assert_eq!(
        add_schedule(&mut store, "alice", false, &se("bob", T0, T0 + 1)).unwrap_err(),
        ServiceError::Authorization
    );
    assert_eq!(
        update_schedule(&mut store, "alice", 7, &StartEnd { start_time: T0, end_time: T0 + 1 })
            .unwrap_err(),
        ServiceError::Conflict
    );
    assert_eq!(permit_schedule(&mut store, "root", true, 7).unwrap_err(), ServiceError::Conflict);
    assert_eq!(absent_schedule(&mut store, "root", true, 7).unwrap_err(), ServiceError::Conflict);
    assert_eq!(disable_schedule(&mut store, "root", true, 7).unwrap_err(), ServiceError::Conflict);
    assert_eq!(delete_schedule(&mut store, "root", 7).unwrap_err(), ServiceError::Conflict);

    let mut full = Store { users: Vec::new(), schedules: Vec::new(), next_id: i64::MAX };
    assert_eq!(
        add_schedule(&mut full, "alice", false, &se("alice", T0, T0 + 1)).unwrap_err(),
        ServiceError::Store
    );
}

/// Rows that tie on start time all come back, whatever their order.
#[test]
fn test_query_equal_start_times() {
    let mut store = Store::new();
    add_schedule(&mut store, "alice", false, &se("alice", T0, T0 + 1)).unwrap();
    add_schedule(&mut store, "alice", false, &se("alice", T0, T0 + 2)).unwrap();
    add_schedule(&mut store, "alice", false, &se("alice", T0, T0 + 3)).unwrap();
    let all = store.get_schedules(i64::MIN, i64::MAX);
    assert_eq!(all.len(), 3);
    let mut ids: Vec<i64> = all.iter().map(|s| s.id).collect();
    ids.sort();
    assert_eq!(ids, vec![1, 2, 3]);
}

/// The window edit keeps the invariant: an empty or inverted window is
/// refused before anything is read.
#[test]
fn test_update_validation() {
    let mut store = Store::new();
    add_schedule(&mut store, "alice", false, &se("alice", T0, T0 + 3600)).unwrap();
    assert_eq!(
        update_schedule(&mut store, "alice", 1, &StartEnd { start_time: T0, end_time: T0 })
            .unwrap_err(),
        ServiceError::Validation
    );
    assert_eq!(
        update_schedule(&mut store, "alice", 1, &StartEnd { start_time: T0 + 1, end_time: T0 })
            .unwrap_err(),
        ServiceError::Validation
    );
    assert_eq!(
        update_schedule(&mut store, "alice", 1, &StartEnd { start_time: T0, end_time: T0 + 1 })
            .unwrap(),
        1
    );
    let row = store.find_by_id(1).unwrap();
    assert_eq!(row.end_time, T0 + 1);
}

/// The overlap query returns exactly the rows whose window crosses the
/// half-open range, newest start first, and pagination slices that
/// order.
#[test]
fn test_query_range_order_and_pages() {
    let mut store = Store::new();
    // three windows: [0,10), [20,30), [five,25)
    add_schedule(&mut store, "alice", false, &se("alice", 0, 10)).unwrap();
    add_schedule(&mut store, "alice", false, &se("alice", 20, 30)).unwrap();
    add_schedule(&mut store, "alice", false, &se("alice", 5, 25)).unwrap();

    let all = store.get_schedules(i64::MIN, i64::MAX);
    assert_eq!(all.len(), 3);
    assert_eq!(all[0].start_time, 20);
    assert_eq!(all[1].start_time, 5);
    assert_eq!(all[2].start_time, 0);

    // the half-open range [10, 20) overlaps only the third window
    let mid = store.get_schedules(10, 20);
    assert_eq!(mid.len(), 1);
    assert_eq!(mid[0].start_time, 5);

    // a range boundary: end_time must be strictly greater than the start
    let edge = store.get_schedules(10, 40);
    assert_eq!(edge.len(), 2);
    assert_eq!(edge[0].start_time, 20);
    assert_eq!(edge[1].start_time, 5);

    // nothing overlaps an empty range, and an empty store yields nothing
    assert!(store.get_schedules(100, 100).is_empty());
    assert!(Store::new().get_schedules(i64::MIN, i64::MAX).is_empty());

    let p = page(&all, 1, 1);
    assert_eq!(p.len(), 1);
    assert_eq!(p[0].start_time, 5);
    let p = page(&all, 2, 5);
    assert_eq!(p.len(), 1);
    assert_eq!(p[0].start_time, 0);
    let p = page(&all, 5, 2);
    assert_eq!(p.len(), 0);
}

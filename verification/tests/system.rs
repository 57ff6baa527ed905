use kintai::store::Store;
use kintai::{
    absent_schedule, add_schedule, add_user, create_user, decode, disable_schedule, login,
    permit_schedule, update_schedule, StartEnd, StartEndWithUser, TokenConfig, UserName,
};

const NOW: i64 = 1_700_000_000;
const DAY: i64 = 86_400;

fn cfg() -> TokenConfig {
    TokenConfig::new(b"test-signing-key".to_vec(), 3600)
}

/// An end-to-end walk of the whole system: the admin logs in, creates a
/// user, the user proposes and edits a schedule, approval and absence
/// follow the counter-party rules, and a withdrawn entry is terminal.
#[test]
fn test_normal_system() {
    let mut store = Store::new();
    let cfg = cfg();
    create_user(&mut store, "root", "pass", &true, None, None).unwrap();

    // login as the administrator and read the token back
    let token_root = login(&store, &cfg, "root", "pass", NOW).unwrap();
    let claims = decode(&cfg, &format!("bearer {}", token_root), NOW).unwrap();
    assert_eq!(claims.user, "root");
    assert!(claims.isadmin);

    // the admin creates a regular user with a generated password
    let (u, test_pass) = add_user(
        &mut store,
        true,
        &UserName { id: "user-1".to_string(), isadmin: false },
    )
    .unwrap();
    assert_eq!(u.id, "user-1");
    assert!(!u.isadmin);
    let token_user = login(&store, &cfg, "user-1", &test_pass, NOW).unwrap();
    let claims = decode(&cfg, &format!("bearer {}", token_user), NOW).unwrap();
    assert!(!claims.isadmin);

    // the user proposes a schedule for themself
    let se = StartEndWithUser {
        username: "user-1".to_string(),
        start_time: NOW,
        end_time: NOW + DAY,
    };
    let s = add_schedule(&mut store, "user-1", false, &se).unwrap();
    let sid = s.id;

    let longer = StartEnd { start_time: NOW, end_time: NOW + 2 * DAY };
    // the admin did not create it, so the admin cannot edit it
    assert!(update_schedule(&mut store, "root", sid, &longer).is_err());
    // the creator can
    assert!(update_schedule(&mut store, "user-1", sid, &longer).is_ok());

    // absence cannot be recorded before approval, by anyone
    assert!(absent_schedule(&mut store, "user-1", false, sid).is_err());
    assert!(absent_schedule(&mut store, "root", true, sid).is_err());

    // self-approval is denied; the admin approves the self-created entry
    assert!(permit_schedule(&mut store, "user-1", false, sid).is_err());
    assert!(permit_schedule(&mut store, "root", true, sid).is_ok());

    // once approved, the window is frozen for everyone
    assert!(update_schedule(&mut store, "user-1", sid, &longer).is_err());
    assert!(update_schedule(&mut store, "root", sid, &longer).is_err());

    // only the subject records the absence
    assert!(absent_schedule(&mut store, "root", true, sid).is_err());
    assert!(absent_schedule(&mut store, "user-1", false, sid).is_ok());

    // the subject cannot withdraw an approved absent entry; the admin can
    assert!(disable_schedule(&mut store, "user-1", false, sid).is_err());
    assert!(disable_schedule(&mut store, "root", true, sid).is_ok());

    // now the admin proposes an entry on the user's behalf
    let s2 = add_schedule(&mut store, "root", true, &se).unwrap();
    let sid2 = s2.id;
    assert_ne!(sid2, sid);

    // only the creator — the admin — may edit it
    assert!(update_schedule(&mut store, "user-1", sid2, &longer).is_err());
    assert!(update_schedule(&mut store, "root", sid2, &longer).is_ok());

    // no absence before approval
    assert!(absent_schedule(&mut store, "user-1", false, sid2).is_err());
    assert!(absent_schedule(&mut store, "root", true, sid2).is_err());

    // the admin cannot approve an entry the subject did not request
    // themself; the subject is the counter-party and approves it
    assert!(permit_schedule(&mut store, "root", true, sid2).is_err());
    assert!(permit_schedule(&mut store, "user-1", false, sid2).is_ok());

    assert!(update_schedule(&mut store, "user-1", sid2, &longer).is_err());
    assert!(update_schedule(&mut store, "root", sid2, &longer).is_err());

    assert!(absent_schedule(&mut store, "root", true, sid2).is_err());
    assert!(absent_schedule(&mut store, "user-1", false, sid2).is_ok());

    assert!(disable_schedule(&mut store, "user-1", false, sid2).is_err());
    assert!(disable_schedule(&mut store, "root", true, sid2).is_ok());
}

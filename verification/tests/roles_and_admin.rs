use auth_core::email::EmailAddress;
use auth_core::invite::InviteRequest;
use auth_core::role::UserRole;
use auth_core::store::AuthDb;

fn addr2(s: &str) -> EmailAddress {
    EmailAddress::new(s.to_string()).expect("address should be valid")
}

fn bootstrap2(db: &mut AuthDb, email: &str, password: &str, role: UserRole, now: u64) {
    let code = db
        .invite(UserRole::SuperAdmin, InviteRequest { role }, now)
        .expect("invite should be issued");
    db.signup(&addr2(email), password, &code, now + 1).expect("signup should succeed");
}

#[test]
fn role_ranks_are_ordered() {
    assert_eq!(u8::from(UserRole::NoRole), 1);
    assert_eq!(u8::from(UserRole::Editor), 2);
    assert_eq!(u8::from(UserRole::Admin), 3);
    assert_eq!(u8::from(UserRole::SuperAdmin), 4);
    assert!(UserRole::Admin.at_least(UserRole::Editor));
    assert!(!UserRole::Editor.at_least(UserRole::Admin));
    assert!(UserRole::Editor.at_least(UserRole::Editor));
}

#[test]
fn only_superadmin_may_mint_invites() {
    let mut db = AuthDb::new();
    for requester in [UserRole::NoRole, UserRole::Editor, UserRole::Admin] {
        let r = db.invite(requester, InviteRequest { role: UserRole::Editor }, 1000);
        assert_eq!(r, Err(auth_core::invite::Error::InsufficientPermissions));
    }
    db.invite(UserRole::SuperAdmin, InviteRequest { role: UserRole::Editor }, 1000)
        .expect("an invite for Editor should be issued");
    db.invite(UserRole::SuperAdmin, InviteRequest { role: UserRole::Admin }, 1000)
        .expect("an invite for Admin should be issued");
    let top = db.invite(UserRole::SuperAdmin, InviteRequest { role: UserRole::SuperAdmin }, 1000);
    assert_eq!(top, Err(auth_core::invite::Error::InsufficientPermissions));
}

#[test]
fn listing_accounts_requires_admin() {
    let mut db = AuthDb::new();
    bootstrap2(&mut db, "alice@example.com", "pw", UserRole::Editor, 1000);
    assert_eq!(
        db.users(UserRole::Editor),
        Err(auth_core::validate::Error::InsufficientPermissions)
    );
    let listed = db.users(UserRole::Admin).expect("an Admin may list accounts");
    assert_eq!(listed.len(), 1);
    assert_eq!(listed[0].email, "alice@example.com");
    assert_eq!(listed[0].role, UserRole::Editor);
    assert_eq!(listed[0].role_rank, 2);
}

#[test]
fn reading_one_account_requires_admin() {
    let mut db = AuthDb::new();
    bootstrap2(&mut db, "alice@example.com", "pw", UserRole::Editor, 1000);
    let listed = db.users(UserRole::Admin).expect("list");
    let id = listed[0].id;
    assert_eq!(
        db.user(UserRole::Editor, id),
        Err(auth_core::users::Error::InsufficientPermissions)
    );
    let one = db.user(UserRole::Admin, id).expect("an Admin may read an account");
    assert_eq!(one.email, "alice@example.com");
    assert_eq!(db.user(UserRole::Admin, id + 1), Err(auth_core::users::Error::NotFound));
}

#[test]
fn deletion_is_gated_by_strict_rank() {
    let mut db = AuthDb::new();
    bootstrap2(&mut db, "editor@example.com", "pw", UserRole::Editor, 1000);
    bootstrap2(&mut db, "admin@example.com", "pw", UserRole::Admin, 2000);
    let listed = db.users(UserRole::Admin).expect("list");
    let editor_id = listed.iter().find(|u| u.role == UserRole::Editor).unwrap().id;
    let admin_id = listed.iter().find(|u| u.role == UserRole::Admin).unwrap().id;
    // Below Admin: no deletion at all.
    assert_eq!(
        db.delete_user(UserRole::Editor, editor_id),
        Err(auth_core::users::Error::InsufficientPermissions)
    );
    // An Admin cannot delete a peer.
    assert_eq!(
        db.delete_user(UserRole::Admin, admin_id),
        Err(auth_core::users::Error::InsufficientPermissions)
    );
    // An Admin deletes a lower-ranked account.
    db.delete_user(UserRole::Admin, editor_id).expect("deletion should succeed");
    assert_eq!(
        db.delete_user(UserRole::Admin, editor_id),
        Err(auth_core::users::Error::NotFound)
    );
}

#[test]
fn deleting_an_account_invalidates_its_sessions() {
    let mut db = AuthDb::new();
    bootstrap2(&mut db, "editor@example.com", "pw", UserRole::Editor, 1000);
    let token = db.signin(&addr2("editor@example.com"), "pw", 2000).expect("signin");
    let id = db.me(&token, 2001).expect("me").id;
    db.delete_user(UserRole::SuperAdmin, id).expect("deletion should succeed");
    assert_eq!(
        db.get_role(&token, 2002),
        Err(auth_core::validate::Error::InvalidToken)
    );
}

#[test]
fn me_requires_a_live_session() {
    let mut db = AuthDb::new();
    bootstrap2(&mut db, "alice@example.com", "pw", UserRole::Editor, 1000);
    assert_eq!(
        db.me("no-such-token", 2000),
        Err(auth_core::validate::Error::InvalidToken)
    );
    let token = db.signin(&addr2("alice@example.com"), "pw", 2000).expect("signin");
    // Expired sessions do not resolve.
    assert_eq!(
        db.me(&token, 2000 + 3600),
        Err(auth_core::validate::Error::InvalidToken)
    );
}

#[test]
fn email_validation_is_enforced() {
    assert!(EmailAddress::new("not-an-email".to_string()).is_none());
    assert!(EmailAddress::new("".to_string()).is_none());
    assert!(EmailAddress::new("user@example.com".to_string()).is_some());
}

#[test]
fn errors_map_to_the_documented_status_classes() {
    assert_eq!(auth_core::signin::Error::IncorrectPassword.status(), 401);
    assert_eq!(auth_core::signin::Error::AccountNotFound.status(), 404);
    assert_eq!(auth_core::signin::Error::Database.status(), 500);
    assert_eq!(auth_core::signup::Error::InviteNotFound.status(), 404);
    assert_eq!(auth_core::signup::Error::ExpiredInvite.status(), 410);
    assert_eq!(auth_core::signup::Error::Conflict.status(), 409);
    assert_eq!(auth_core::signup::Error::PasswordHash.status(), 500);
    assert_eq!(auth_core::invite::Error::Conflict.status(), 409);
    assert_eq!(auth_core::validate::Error::NoCookies.status(), 401);
    assert_eq!(auth_core::validate::Error::InvalidToken.status(), 401);
    assert_eq!(auth_core::validate::Error::InsufficientPermissions.status(), 403);
    assert_eq!(auth_core::users::Error::NotFound.status(), 404);
    assert_eq!(
        auth_core::signin::Error::IncorrectPassword.code(),
        "SIGNIN_INCORRECT_PASSWORD"
    );
    assert_eq!(
        auth_core::signin::Error::IncorrectPassword.message(),
        "Password incorrect"
    );
    assert_eq!(auth_core::signup::Error::ExpiredInvite.code(), "SIGNUP_EXPIRED_INVITE");
    assert_eq!(auth_core::signup::Error::ExpiredInvite.message(), "Invalid invite");
    assert_eq!(
        auth_core::validate::Error::NoSessionToken.code(),
        "VALIDATE_NO_SESSION_TOKEN"
    );
}

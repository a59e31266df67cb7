use auth_core::email::EmailAddress;
use auth_core::invite::InviteRequest;
use auth_core::role::UserRole;
use auth_core::store::AuthDb;

fn addr(s: &str) -> EmailAddress {
    EmailAddress::new(s.to_string()).expect("address should be valid")
}

/// A store with one account of the given role, created the only way an
/// account can be: through an invite and a signup.
fn bootstrap(db: &mut AuthDb, email: &str, password: &str, role: UserRole, now: u64) {
    let code = db
        .invite(UserRole::SuperAdmin, InviteRequest { role }, now)
        .expect("invite should be issued");
    db.signup(&addr(email), password, &code, now + 1).expect("signup should succeed");
}

#[test]
fn invite_then_signup_consumes_invite() {
    let mut db = AuthDb::new();
    let code = db
        .invite(UserRole::SuperAdmin, InviteRequest { role: UserRole::Editor }, 1000)
        .expect("invite should be issued");
    assert_eq!(code.len(), 16);
    db.signup(&addr("alice@example.com"), "hunter2", &code, 2000)
        .expect("first signup should succeed");
    let second = db.signup(&addr("bob@example.com"), "other", &code, 3000);
    assert_eq!(second, Err(auth_core::signup::Error::ExpiredInvite));
}

#[test]
fn signup_grants_the_invites_role() {
    let mut db = AuthDb::new();
    bootstrap(&mut db, "alice@example.com", "hunter2", UserRole::Editor, 1000);
    let token = db
        .signin(&addr("alice@example.com"), "hunter2", 2000)
        .expect("signin should succeed");
    assert_eq!(db.get_role(&token, 2001), Ok(UserRole::Editor));
}

#[test]
fn signin_unknown_email_is_account_not_found() {
    let mut db = AuthDb::new();
    bootstrap(&mut db, "carol@example.com", "s3cret", UserRole::Editor, 1000);
    let r = db.signin(&addr("nobody@example.com"), "whatever", 5000);
    assert_eq!(r, Err(auth_core::signin::Error::AccountNotFound));
}

#[test]
fn signin_on_empty_store_is_account_not_found() {
    let mut db = AuthDb::new();
    let r = db.signin(&addr("nobody@example.com"), "whatever", 10);
    assert_eq!(r, Err(auth_core::signin::Error::AccountNotFound));
}

#[test]
fn signin_wrong_password_is_incorrect_password() {
    let mut db = AuthDb::new();
    bootstrap(&mut db, "carol@example.com", "s3cret", UserRole::Editor, 1000);
    let r = db.signin(&addr("carol@example.com"), "wrong", 5000);
    assert_eq!(r, Err(auth_core::signin::Error::IncorrectPassword));
    // No session row was created by the failed attempt.
    assert_eq!(db.cleanup_expired_sessions(u64::MAX - 4000), 0);
}

#[test]
fn signin_yields_resolvable_token_of_expected_length() {
    let mut db = AuthDb::new();
    bootstrap(&mut db, "carol@example.com", "s3cret", UserRole::Editor, 1000);
    let token = db
        .signin(&addr("carol@example.com"), "s3cret", 5000)
        .expect("signin should succeed");
    assert_eq!(token.len(), 64);
    assert!(token.chars().all(|c| c.is_ascii_alphanumeric()));
    assert_eq!(db.get_role(&token, 5001), Ok(UserRole::Editor));
}

#[test]
fn duplicate_email_conflict_leaves_invite_redeemable() {
    let mut db = AuthDb::new();
    bootstrap(&mut db, "alice@example.com", "hunter2", UserRole::Editor, 1000);
    let code = db
        .invite(UserRole::SuperAdmin, InviteRequest { role: UserRole::Editor }, 2000)
        .expect("invite should be issued");
    let conflicted = db.signup(&addr("alice@example.com"), "again", &code, 3000);
    assert_eq!(conflicted, Err(auth_core::signup::Error::Conflict));
    // The invite was not burned by the failed signup.
    db.signup(&addr("dora@example.com"), "fresh", &code, 4000)
        .expect("the invite should still be redeemable");
}

#[test]
fn signup_with_unknown_code_is_invite_not_found() {
    let mut db = AuthDb::new();
    let r = db.signup(&addr("alice@example.com"), "pw", "NOSUCHCODE", 1000);
    assert_eq!(r, Err(auth_core::signup::Error::InviteNotFound));
}

#[test]
fn signup_after_invite_expiry_is_expired_invite() {
    let mut db = AuthDb::new();
    let code = db
        .invite(UserRole::SuperAdmin, InviteRequest { role: UserRole::Editor }, 1000)
        .expect("invite should be issued");
    // One week from issuance, the invite is no longer redeemable.
    let r = db.signup(&addr("late@example.com"), "pw", &code, 1000 + 604800);
    assert_eq!(r, Err(auth_core::signup::Error::ExpiredInvite));
}

#[test]
fn signout_is_idempotent() {
    let mut db = AuthDb::new();
    bootstrap(&mut db, "erin@example.com", "pw", UserRole::Editor, 1000);
    let token = db.signin(&addr("erin@example.com"), "pw", 2000).expect("signin");
    assert!(db.validate(&token, 2001).is_ok());
    db.signout(&token);
    assert_eq!(db.validate(&token, 2002), Err(auth_core::validate::Error::InvalidToken));
    // The second signout with the now-invalid token also succeeds.
    db.signout(&token);
    assert_eq!(db.validate(&token, 2003), Err(auth_core::validate::Error::InvalidToken));
}

#[test]
fn signout_on_empty_store_succeeds() {
    let mut db = AuthDb::new();
    db.signout("nonexistent-token");
}

#[test]
fn expired_session_is_invalid_before_sweep() {
    let mut db = AuthDb::new();
    bootstrap(&mut db, "frank@example.com", "pw", UserRole::Editor, 1000);
    let token = db.signin(&addr("frank@example.com"), "pw", 1000).expect("signin");
    // The session lives for an hour from issuance.
    assert!(db.get_role(&token, 4599).is_ok());
    assert_eq!(
        db.get_role(&token, 4600),
        Err(auth_core::validate::Error::InvalidToken)
    );
    // Not yet swept: the row is still there, and still invalid.
    assert_eq!(db.cleanup_expired_sessions(4600), 0);
    assert_eq!(
        db.get_role(&token, 4600),
        Err(auth_core::validate::Error::InvalidToken)
    );
    // The sweeper removes it once its expiry has passed.
    assert_eq!(db.cleanup_expired_sessions(4601), 1);
    assert_eq!(db.cleanup_expired_sessions(4602), 0);
}

#[test]
fn emails_are_canonicalized_case_insensitively() {
    let mut db = AuthDb::new();
    bootstrap(&mut db, "Grace@Example.COM", "pw", UserRole::Editor, 1000);
    let token = db
        .signin(&addr("grace@example.com"), "pw", 2000)
        .expect("signin under the canonical form should succeed");
    let me = db.me(&token, 2001).expect("me should resolve");
    assert_eq!(me.email, "grace@example.com");
    assert_eq!(me.role, UserRole::Editor);
    assert_eq!(me.role_rank, 2);
}

#[test]
fn patch_me_changes_password() {
    let mut db = AuthDb::new();
    bootstrap(&mut db, "heidi@example.com", "oldpw", UserRole::Editor, 1000);
    let token = db.signin(&addr("heidi@example.com"), "oldpw", 2000).expect("signin");
    db.patch_me(&token, 2001, None, Some("newpw")).expect("patch should succeed");
    assert_eq!(
        db.signin(&addr("heidi@example.com"), "oldpw", 2002),
        Err(auth_core::signin::Error::IncorrectPassword)
    );
    db.signin(&addr("heidi@example.com"), "newpw", 2003)
        .expect("signin with the new password should succeed");
}

#[test]
fn patch_me_rejects_taken_email() {
    let mut db = AuthDb::new();
    bootstrap(&mut db, "ivan@example.com", "pw", UserRole::Editor, 1000);
    bootstrap(&mut db, "judy@example.com", "pw", UserRole::Editor, 2000);
    let token = db.signin(&addr("ivan@example.com"), "pw", 3000).expect("signin");
    let r = db.patch_me(&token, 3001, Some(&addr("judy@example.com")), None);
    assert_eq!(r, Err(auth_core::users::Error::Conflict));
    // Changing to one's own email is allowed, as is a fresh one.
    db.patch_me(&token, 3002, Some(&addr("ivan@example.com")), None)
        .expect("own email should be accepted");
    db.patch_me(&token, 3003, Some(&addr("ivan2@example.com")), None)
        .expect("a fresh email should be accepted");
    db.signin(&addr("ivan2@example.com"), "pw", 3004)
        .expect("signin under the new email should succeed");
}

#[test]
fn patch_me_with_invalid_token_is_rejected() {
    let mut db = AuthDb::new();
    bootstrap(&mut db, "kate@example.com", "pw", UserRole::Editor, 1000);
    let r = db.patch_me("bogus", 2000, None, Some("x"));
    assert_eq!(r, Err(auth_core::users::Error::InvalidToken));
}

#[test]
fn sweeping_does_not_disturb_live_sessions() {
    let mut db = AuthDb::new();
    bootstrap(&mut db, "lena@example.com", "pw", UserRole::Admin, 1000);
    let token = db.signin(&addr("lena@example.com"), "pw", 1000).expect("signin");
    assert_eq!(db.cleanup_expired_sessions(1000), 0);
    assert_eq!(db.get_role(&token, 1001), Ok(UserRole::Admin));
}

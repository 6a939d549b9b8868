use stockpot::domain::auth::{AuthUser, AuthUserCredentials, Error, UsernameAndPassword};
use stockpot::domain::user;
use stockpot::domain::user::User;
use stockpot::domain::auth::UserCredentials;
use stockpot::service::auth::{
    check_password, compare_guarded, conclude_password_attempt, credentials_shown,
    hash_to_compare, judge_password, new_salt, DefaultAuthUserService,
};
use stockpot::service::hash_text::hash_asks_bounded_parallelism;

fn matt() -> User {
    User { id: Some(1), name: "Matt".to_string() }
}

fn shown(password: &str) -> UsernameAndPassword {
    UsernameAndPassword { username: "matt42".to_string(), password: password.to_string() }
}

fn stored(password_hash: &str) -> AuthUserCredentials {
    AuthUserCredentials {
        id: Some(1),
        username: "matt42".to_string(),
        password_hash: password_hash.to_string(),
        user_id: 1,
    }
}

const SALT: &str = "gZiV/M1gPc22ElAH/Jh1Hw";

#[test]
fn a_password_is_hashed_under_its_salt() {
    let service = DefaultAuthUserService::new("secret".to_string());
    let made = service.new_credentials(&matt(), &shown("secret"), SALT).unwrap();
    assert_eq!(made.id, None);
    assert_eq!(made.username, "matt42");
    assert_eq!(made.user_id, 1);
    assert!(made.password_hash.starts_with("$argon2id$v=19$m=15000,t=2,p=1$gZiV/M1gPc22ElAH/Jh1Hw$"));
    assert_ne!(made.password_hash, "secret");
    let again = service.new_credentials(&matt(), &shown("secret"), SALT).unwrap();
    assert_eq!(again.password_hash, made.password_hash);
    let other = service.new_credentials(&matt(), &shown("Secret"), SALT).unwrap();
    assert_ne!(other.password_hash, made.password_hash);
    assert_eq!(check_password("secret", &made.password_hash), Ok(()));
    assert_eq!(check_password("Secret", &made.password_hash), Err(Error::InvalidAuth));
    assert_eq!(check_password("secret", "not a hash"), Err(Error::Unexpected));
    assert_eq!(check_password("secret", ""), Err(Error::Unexpected));
}

#[test]
fn credentials_need_a_stored_user_and_a_good_salt() {
    let service = DefaultAuthUserService::new("secret".to_string());
    let unsaved = User { id: None, name: "Matt".to_string() };
    assert_eq!(service.new_credentials(&unsaved, &shown("secret"), SALT).unwrap_err(), Error::Unexpected);
    assert_eq!(service.new_credentials(&matt(), &shown("secret"), "??").unwrap_err(), Error::Unexpected);
    assert_eq!(service.user_id_of(&matt()), Ok(1));
    assert_eq!(service.user_id_of(&unsaved), Err(Error::Unexpected));
    let first = new_salt();
    let second = new_salt();
    assert_ne!(first, second);
    assert!(service.new_credentials(&matt(), &shown("secret"), &first).is_ok());
}

#[test]
fn the_outcome_of_a_comparison_is_judged() {
    assert_eq!(judge_password(None), Err(Error::Unexpected));
    assert_eq!(judge_password(Some(false)), Err(Error::InvalidAuth));
    assert_eq!(judge_password(Some(true)), Ok(()));
}

#[test]
fn an_attempt_is_decided_from_the_lookups() {
    let let_in = AuthUser { username: "matt42".to_string(), user: matt() };
    assert_eq!(conclude_password_attempt(Ok((stored("h"), Ok(matt()))), Some(true)), Ok(let_in));
    assert_eq!(conclude_password_attempt(Ok((stored("h"), Ok(matt()))), Some(false)), Err(Error::InvalidAuth));
    assert_eq!(conclude_password_attempt(Ok((stored("h"), Ok(matt()))), None), Err(Error::Unexpected));
    assert_eq!(
        conclude_password_attempt(Ok((stored("h"), Err(user::Error::UserNotFound(1)))), Some(true)),
        Err(Error::InvalidAuth)
    );
    assert_eq!(
        conclude_password_attempt(Ok((stored("h"), Err(user::Error::Unexpected))), Some(true)),
        Err(Error::Unexpected)
    );
    assert_eq!(
        conclude_password_attempt(Err(Error::AuthUserNotFound("matt42".to_string())), Some(true)),
        Err(Error::InvalidAuth)
    );
    assert_eq!(conclude_password_attempt(Err(Error::UserNotFound(3)), Some(true)), Err(Error::InvalidAuth));
    assert_eq!(conclude_password_attempt(Err(Error::Unexpected), Some(true)), Err(Error::Unexpected));
    assert_eq!(conclude_password_attempt(Err(Error::InvalidAuth), Some(true)), Err(Error::InvalidAuth));
    assert_eq!(conclude_password_attempt(Err(Error::Unexpected), Some(false)), Err(Error::InvalidAuth));
}

#[test]
fn a_password_is_compared_even_where_nothing_is_stored() {
    let service = DefaultAuthUserService::new("secret".to_string());
    let placeholder =
        "$argon2id$v=19$m=15000,t=2,p=1$gZiV/M1gPc22ElAH/Jh1Hw$CWOrkoo7oJBQ/iyh7uJ0LO2aLEfrHwTWllSAxT0zRno";
    assert_eq!(hash_to_compare(&Err(Error::AuthUserNotFound("x".to_string()))), placeholder);
    assert_eq!(hash_to_compare(&Ok((stored("kept"), Ok(matt())))), "kept");
    assert_eq!(hash_to_compare(&Ok((stored("kept"), Err(user::Error::Unexpected)))), "kept");
    assert_eq!(
        service.validate_password(&shown("secret"), Err(Error::AuthUserNotFound("matt42".to_string()))),
        Err(Error::InvalidAuth)
    );
    assert_eq!(
        service.validate_password(&shown("secret"), Ok((stored("broken"), Ok(matt())))),
        Err(Error::Unexpected)
    );
    let made = service.new_credentials(&matt(), &shown("secret"), SALT).unwrap();
    let hash = made.password_hash.clone();
    assert_eq!(
        service.validate_password(&shown("wrong"), Ok((made, Ok(matt())))),
        Err(Error::InvalidAuth)
    );
    assert_eq!(
        service.validate_password(&shown("secret"), Ok((stored(&hash), Err(user::Error::UserNotFound(1))))),
        Err(Error::InvalidAuth)
    );
    assert_eq!(
        service.validate_password(&shown("secret"), Ok((stored(&hash), Ok(matt())))),
        Ok(AuthUser { username: "matt42".to_string(), user: matt() })
    );
}

#[test]
fn a_token_names_its_user_and_its_end() {
    let service = DefaultAuthUserService::new("key".to_string());
    assert_eq!(service.jwt_token_secret, "key");
    assert_eq!(service.jwt_token_audience, "https://api.stockpot.com");
    assert_eq!(service.jwt_token_expiration, 604800);
    let auth_user = AuthUser { username: "matt42".to_string(), user: matt() };
    let claims = service.claims_for(&auth_user, 0).unwrap();
    assert_eq!(claims.exp, 604800);
    assert_eq!(service.claims_for(&auth_user, -604800).unwrap().exp, 0);
    assert_eq!(service.claims_for(&auth_user, -604801), Err(Error::Unexpected));
    assert_eq!(service.claims_for(&auth_user, i64::MAX), Err(Error::Unexpected));
    assert_eq!(
        service.validate_token(Ok((stored("h"), Err(user::Error::UserNotFound(1))))),
        Err(Error::UserNotFound(1))
    );
    assert_eq!(
        service.validate_token(Ok((stored("h"), Err(user::Error::Unexpected)))),
        Err(Error::Unexpected)
    );
    assert_eq!(
        service.validate_token(Err(Error::AuthUserNotFound("matt42".to_string()))),
        Err(Error::AuthUserNotFound("matt42".to_string()))
    );
}

#[test]
fn a_request_shows_a_password_or_a_token_or_nothing() {
    match credentials_shown(Some(shown("secret")), Some("token".to_string())) {
        Ok(UserCredentials::UsernameAndPassword(login)) => {
            assert_eq!(login.username, "matt42");
            assert_eq!(login.password, "secret");
        }
        _ => panic!("the password was not taken"),
    }
    match credentials_shown(None, Some("token".to_string())) {
        Ok(UserCredentials::JwtToken(token)) => assert_eq!(token, "token"),
        _ => panic!("the token was not taken"),
    }
    match credentials_shown(None, None) {
        Err(e) => assert_eq!(e, Error::InvalidAuth),
        Ok(_) => panic!("credentials out of nothing"),
    }
}

#[test]
fn a_new_salt_is_sixteen_bytes_in_base64() {
    for _ in 0..20 {
        let salt = new_salt();
        assert_eq!(salt.chars().count(), 22);
        assert!(salt.chars().all(|c| c.is_ascii_alphanumeric() || c == '+' || c == '/'));
    }
}

fn hash_with_lanes(lanes: &str) -> String {
    format!(
        "$argon2id$v=19$m=15000,t=2,p={}$gZiV/M1gPc22ElAH/Jh1Hw$CWOrkoo7oJBQ/iyh7uJ0LO2aLEfrHwTWllSAxT0zRno",
        lanes
    )
}

#[test]
fn a_hash_that_asks_for_too_many_lanes_is_not_compared() {
    assert!(hash_asks_bounded_parallelism(&hash_with_lanes("1")));
    assert!(hash_asks_bounded_parallelism(&hash_with_lanes("16777215")));
    assert!(!hash_asks_bounded_parallelism(&hash_with_lanes("16777216")));
    assert!(!hash_asks_bounded_parallelism(&hash_with_lanes("536870912")));
    assert!(!hash_asks_bounded_parallelism(&hash_with_lanes("4294967295")));
    assert!(!hash_asks_bounded_parallelism(&hash_with_lanes("99999999999999999999")));
    assert!(hash_asks_bounded_parallelism(&hash_with_lanes("0000000000000000000001")));
    assert!(hash_asks_bounded_parallelism(&hash_with_lanes("")));
    assert!(hash_asks_bounded_parallelism(&hash_with_lanes("x")));
    assert!(hash_asks_bounded_parallelism(""));
    assert!(hash_asks_bounded_parallelism("p"));
    assert!(hash_asks_bounded_parallelism("p="));
    assert!(hash_asks_bounded_parallelism("p=16777215"));
    assert!(!hash_asks_bounded_parallelism("p=1,p=16777216"));
    assert!(!hash_asks_bounded_parallelism("\u{e9}p=99999999"));
    assert!(hash_asks_bounded_parallelism("not a hash"));

    assert_eq!(compare_guarded("secret", &hash_with_lanes("536870912")), None);
    assert_eq!(check_password("secret", &hash_with_lanes("536870912")), Err(Error::Unexpected));
    assert_eq!(check_password("secret", &hash_with_lanes("16777216")), Err(Error::Unexpected));
    assert_eq!(compare_guarded("secret", &hash_with_lanes("16777215")), Some(false));
    assert_eq!(check_password("secret", &hash_with_lanes("16777215")), Err(Error::InvalidAuth));
    assert_eq!(compare_guarded("secret", "not a hash"), None);

    let service = DefaultAuthUserService::new("secret".to_string());
    assert_eq!(
        service.validate_password(
            &shown("secret"),
            Ok((stored(&hash_with_lanes("536870912")), Ok(matt())))
        ),
        Err(Error::Unexpected)
    );
}

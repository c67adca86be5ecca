use club_core::games;
use club_core::games::InsertGameOutcome;
use club_core::model::User;
use club_core::users;
use club_core::users::{LoadUsersOutcome, PublicUser};
use club_core::ApiError;

fn user(id: i32, first: &str, last: &str) -> User {
    User {
        id,
        first_name: first.to_string(),
        last_name: last.to_string(),
        hash: "digest".to_string(),
        erau_id: None,
        signup_date: 0,
        is_officer: false,
        chess_com_username: "cc".to_string(),
        email: format!("{}@x.com", first),
    }
}

#[test]
fn user_listing_exposes_only_the_public_face() {
    let records = vec![user(1, "Ada", "Lovelace"), user(2, "Alan", "Turing")];
    let public = users::list(LoadUsersOutcome::Records(records)).unwrap();
    assert_eq!(public.len(), 2);
    assert_eq!(public[0].id, 1);
    assert_eq!(public[0].first_name, "Ada");
    assert_eq!(public[0].last_name, "Lovelace");
    assert_eq!(public[1].id, 2);
    assert_eq!(public[1].first_name, "Alan");
    assert_eq!(public[1].last_name, "Turing");
}

#[test]
fn user_listing_of_an_empty_store_is_empty() {
    let public = users::list(LoadUsersOutcome::Records(Vec::new())).unwrap();
    assert!(public.is_empty());
}

#[test]
fn user_listing_reports_store_failures_with_detail() {
    let r = users::list(LoadUsersOutcome::StoreError("timeout".to_string()));
    assert_eq!(r.unwrap_err(), ApiError::DatabaseError("timeout".to_string()));
    assert_eq!(ApiError::DatabaseError("timeout".to_string()).status_code(), 500);
}

#[test]
fn public_user_from_record_drops_credentials() {
    let u = user(9, "Ada", "Lovelace");
    let p = PublicUser::from(u);
    assert_eq!(p.id, 9);
    assert_eq!(p.first_name, "Ada");
    assert_eq!(p.last_name, "Lovelace");
}

#[test]
fn recording_a_game_succeeds_when_the_store_does() {
    assert_eq!(games::add(InsertGameOutcome::Inserted), Ok(()));
}

#[test]
fn recording_a_game_hides_store_failures() {
    let r = games::add(InsertGameOutcome::StoreError("constraint".to_string()));
    assert_eq!(r, Err(ApiError::Unknown("unknown database error".to_string())));
}

#[test]
fn game_listing_is_a_stub_that_always_fails() {
    let r = games::list();
    assert_eq!(r.unwrap_err(), ApiError::Unknown("unknown database error".to_string()));
}

use inventory_backend::error::{ApiError, AuthError, StoreError, TokenError};
use inventory_backend::request::{advance, course, Event, Phase};
use inventory_backend::rocket;
use inventory_backend::routes::{Base, Catcher, Fairing, Handler, Method, Stage};

#[test]
fn rocket_lays_out_the_server() {
    assert_eq!(
        rocket(),
        vec![
            Stage::Attach(Fairing::Database),
            Stage::Attach(Fairing::Cors),
            Stage::Mount(Base::Root, Handler::Index),
            Stage::Catch(Base::Api, Catcher::BadRequest),
            Stage::Catch(Base::Api, Catcher::UnprocessableEntity),
            Stage::Mount(Base::Api, Handler::Register),
            Stage::Mount(Base::Api, Handler::Login),
            Stage::Mount(Base::Api, Handler::CreateInventory),
            Stage::Mount(Base::Api, Handler::ReadInventory),
            Stage::Mount(Base::Api, Handler::UpdateInventory),
            Stage::Mount(Base::Api, Handler::DeleteInventory),
        ]
    );
}

#[test]
fn bases_have_their_paths() {
    assert_eq!(Base::Root.path(), "/");
    assert_eq!(Base::Api.path(), "/eb");
}

#[test]
fn handlers_have_method_status_and_protection() {
    let table = [
        (Handler::Index, Method::Get, 200, false),
        (Handler::Register, Method::Post, 201, false),
        (Handler::Login, Method::Post, 200, false),
        (Handler::CreateInventory, Method::Post, 201, true),
        (Handler::ReadInventory, Method::Get, 200, true),
        (Handler::UpdateInventory, Method::Put, 200, true),
        (Handler::DeleteInventory, Method::Delete, 204, true),
    ];
    for (handler, method, status, protected) in table {
        assert_eq!(handler.method(), method);
        assert_eq!(handler.success_status(), status);
        assert_eq!(handler.protected(), protected);
    }
    assert_eq!(Catcher::BadRequest.status(), 400);
    assert_eq!(Catcher::UnprocessableEntity.status(), 422);
}

#[test]
fn every_failure_has_its_status() {
    assert_eq!(ApiError::InputInvalid.status(), 422);
    assert_eq!(ApiError::UsernameTaken.status(), 409);
    assert_eq!(ApiError::InvalidCredentials.status(), 401);
    assert_eq!(ApiError::Unauthorized.status(), 401);
    assert_eq!(ApiError::NotFound.status(), 404);
    assert_eq!(ApiError::VersionConflict.status(), 409);
    assert_eq!(ApiError::StorageUnavailable.status(), 503);
}

#[test]
fn only_an_unavailable_store_is_worth_a_retry() {
    assert!(ApiError::StorageUnavailable.retryable());
    for error in [
        ApiError::InputInvalid,
        ApiError::UsernameTaken,
        ApiError::InvalidCredentials,
        ApiError::Unauthorized,
        ApiError::NotFound,
        ApiError::VersionConflict,
    ] {
        assert!(!error.retryable());
    }
}

#[test]
fn component_failures_map_to_the_outward_ones() {
    assert_eq!(ApiError::from_auth(AuthError::UsernameTaken), ApiError::UsernameTaken);
    assert_eq!(ApiError::from_auth(AuthError::WeakPassword), ApiError::InputInvalid);
    assert_eq!(ApiError::from_auth(AuthError::InvalidCredentials), ApiError::InvalidCredentials);
    assert_eq!(ApiError::from_auth(AuthError::StorageUnavailable), ApiError::StorageUnavailable);
    assert_eq!(ApiError::from_token(TokenError::Expired), ApiError::Unauthorized);
    assert_eq!(ApiError::from_token(TokenError::Malformed), ApiError::Unauthorized);
    assert_eq!(ApiError::from_token(TokenError::BadSignature), ApiError::Unauthorized);
    assert_eq!(ApiError::from_store(StoreError::NotFound), ApiError::NotFound);
    assert_eq!(ApiError::from_store(StoreError::VersionConflict), ApiError::VersionConflict);
    assert_eq!(ApiError::from_store(StoreError::StorageUnavailable), ApiError::StorageUnavailable);
}

#[test]
fn request_phases_follow_the_two_courses() {
    assert_eq!(
        course(true),
        vec![Event::Extract, Event::Accept, Event::Forward, Event::Respond]
    );
    assert_eq!(course(false), vec![Event::Extract, Event::Refuse, Event::Respond]);
    for accepted in [true, false] {
        let mut phase = Phase::Received;
        for event in course(accepted) {
            phase = advance(phase, event).unwrap();
        }
        assert_eq!(phase, Phase::Responded);
    }
}

#[test]
fn request_phases_allow_nothing_else() {
    let phases = [
        Phase::Received,
        Phase::TokenExtracted,
        Phase::Validated,
        Phase::Rejected,
        Phase::Dispatched,
        Phase::Responded,
    ];
    let events = [Event::Extract, Event::Accept, Event::Refuse, Event::Forward, Event::Respond];
    let allowed = [
        (Phase::Received, Event::Extract, Phase::TokenExtracted),
        (Phase::TokenExtracted, Event::Accept, Phase::Validated),
        (Phase::TokenExtracted, Event::Refuse, Phase::Rejected),
        (Phase::Validated, Event::Forward, Phase::Dispatched),
        (Phase::Dispatched, Event::Respond, Phase::Responded),
        (Phase::Rejected, Event::Respond, Phase::Responded),
    ];
    for phase in phases {
        for event in events {
            let expected = allowed
                .iter()
                .find(|(p, e, _)| *p == phase && *e == event)
                .map(|(_, _, next)| *next);
            assert_eq!(advance(phase, event), expected);
        }
    }
    assert_eq!(advance(Phase::Rejected, Event::Forward), None);
    assert_eq!(advance(Phase::Responded, Event::Respond), None);
}

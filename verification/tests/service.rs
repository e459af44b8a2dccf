use kv_service::admission::{
    handle_error, pipeline_verdict, Admission, MiddlewareError, CONCURRENCY_LIMIT, TIMEOUT_SECS,
};
use kv_service::service::{kv_get_response, GetOutcome, Service};
use kv_service::user::{decode_user, encode_user, User};
use kv_service::{body_within_ceiling, BODY_CEILING};

fn sample_user() -> User {
    let mut u = User::empty();
    u.name = "a".to_string();
    u.email = "b".to_string();
    u.password = "c".to_string();
    u
}

#[test]
fn it_can_reach_install() {
    let service = Service::new();
    assert_eq!(service.install_get(), 200);
}

#[test]
fn round_trip_hello() {
    let mut service = Service::new();
    let key = b"users".to_vec();
    assert_eq!(service.kv_set(key.clone(), b"hello".to_vec()), Ok(()));
    assert_eq!(service.kv_get(&key), Ok(b"hello".to_vec()));
}

#[test]
fn overwrite_last_write_wins() {
    let mut service = Service::new();
    let key = b"k".to_vec();
    assert_eq!(service.kv_set(key.clone(), b"first".to_vec()), Ok(()));
    assert_eq!(service.kv_set(key.clone(), b"second".to_vec()), Ok(()));
    assert_eq!(service.kv_get(&key), Ok(b"second".to_vec()));
}

#[test]
fn miss_returns_not_found() {
    let service = Service::new();
    assert_eq!(service.kv_get(&b"never-written".to_vec()), Err(404));
}

#[test]
fn body_over_ceiling_rejected_without_write() {
    let mut service = Service::new();
    let key = b"big".to_vec();
    let body = vec![7u8; BODY_CEILING + 1];
    assert!(!body_within_ceiling(body.len()));
    assert_eq!(service.kv_set(key.clone(), body), Err(413));
    assert_eq!(service.kv_get(&key), Err(404));
}

#[test]
fn body_at_ceiling_accepted() {
    let mut service = Service::new();
    let key = b"big".to_vec();
    let body = vec![7u8; BODY_CEILING];
    assert!(body_within_ceiling(body.len()));
    assert_eq!(service.kv_set(key.clone(), body.clone()), Ok(()));
    assert_eq!(service.kv_get(&key), Ok(body));
}

#[test]
fn install_flow_assigns_fresh_id_then_refuses() {
    let mut service = Service::new();
    let mut submitted = sample_user();
    submitted.id = "caller-supplied".to_string();
    let body = encode_user(&submitted);

    assert_eq!(service.install_get(), 200);
    let response = service.install_post(&body).expect("first install succeeds");
    let created = decode_user(&response).expect("response decodes");
    assert_eq!(created.id.len(), 36);
    assert_ne!(created.id, "caller-supplied");
    assert_eq!(created.name, "a");
    assert_eq!(created.email, "b");
    assert_eq!(created.password, "c");

    assert_eq!(service.install_get(), 410);
    assert_eq!(service.install_post(&body), Err(410));
    assert_eq!(service.install_post(&Vec::new()), Err(410));
}

#[test]
fn install_record_is_persisted_under_users_key() {
    let mut service = Service::new();
    let body = encode_user(&sample_user());
    let response = service.install_post(&body).expect("install succeeds");
    let created = decode_user(&response).expect("response decodes");
    let key = format!("users_{}", created.id).into_bytes();
    assert_eq!(service.kv_get(&key), Ok(response));
}

#[test]
fn install_bad_body_rejected_and_still_uninstalled() {
    let mut service = Service::new();
    assert_eq!(service.install_post(&vec![0xffu8]), Err(400));
    assert_eq!(service.install_get(), 200);
}

#[test]
fn get_outcome_folds_engine_error_into_not_found() {
    assert_eq!(kv_get_response(GetOutcome::Found(b"v".to_vec())), Ok(b"v".to_vec()));
    assert_eq!(kv_get_response(GetOutcome::Missing), Err(404));
    assert_eq!(kv_get_response(GetOutcome::EngineError), Err(404));
}

#[test]
fn admission_sheds_past_the_ceiling() {
    let mut gate = Admission::new(2);
    assert!(gate.try_admit());
    assert!(gate.try_admit());
    assert!(!gate.try_admit());
    gate.release();
    assert!(gate.try_admit());
    assert!(!gate.try_admit());

    let mut closed = Admission::new(0);
    assert!(!closed.try_admit());

    assert_eq!(CONCURRENCY_LIMIT, 1024);
}

#[test]
fn pipeline_verdict_orders_shed_timeout_handler() {
    assert_eq!(pipeline_verdict(false, 0, 200), 503);
    assert_eq!(pipeline_verdict(true, TIMEOUT_SECS, 200), 408);
    assert_eq!(pipeline_verdict(true, TIMEOUT_SECS + 5, 404), 408);
    assert_eq!(pipeline_verdict(true, TIMEOUT_SECS - 1, 200), 200);
    assert_eq!(pipeline_verdict(true, 0, 404), 404);
}

#[test]
fn middleware_errors_translate_to_statuses_and_messages() {
    let (code, msg) = handle_error(&MiddlewareError::Elapsed);
    assert_eq!((code, msg.as_str()), (408, "request timed out"));
    let (code, msg) = handle_error(&MiddlewareError::Overloaded);
    assert_eq!((code, msg.as_str()), (503, "service is overloaded, try again later"));
    let (code, msg) = handle_error(&MiddlewareError::Other("boom".to_string()));
    assert_eq!((code, msg.as_str()), (500, "Unhandled internal error: boom"));
}

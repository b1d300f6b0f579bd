use eid_reader::error::{EidError, Fault};
use eid_reader::http::{get_eid, get_healthz, rocket, status, Body, Header, Route, CORS};
use eid_reader::record::Person;

fn doe() -> Person {
    Person {
        national_number: String::from("12345678901"),
        surname: String::from("Doe"),
        firstnames: String::new(),
        date_of_birth: String::new(),
        gender: String::new(),
        address_street_and_number: String::new(),
        address_zip: String::new(),
        address_municipality: String::new(),
        photo: String::new(),
    }
}

#[test]
fn get_eid_answers_a_record_with_200() {
    let reply = get_eid(Ok(doe()));
    assert_eq!(reply.status, 200);
    assert_eq!(reply.body, Body::Record(doe()));
}

#[test]
fn get_eid_answers_no_token_with_404() {
    let reply = get_eid(Err(EidError::NoTokenPresent));
    assert_eq!(reply.status, 404);
    assert_eq!(reply.body, Body::Text(String::from("no eID inserted")));
    match reply.body {
        Body::Text(text) => assert!(text.contains("no eID")),
        _ => panic!("a failure is answered in plain text"),
    }
}

#[test]
fn get_eid_answers_an_invalid_token_with_404() {
    let reply = get_eid(Err(EidError::InvalidToken));
    assert_eq!(reply.status, 404);
    assert_eq!(
        reply.body,
        Body::Text(String::from("invalid eID or eID not correctly inserted"))
    );
}

#[test]
fn get_eid_tells_absent_from_invalid() {
    let absent = get_eid(Err(EidError::NoTokenPresent));
    let invalid = get_eid(Err(EidError::InvalidToken));
    assert_eq!(absent.status, invalid.status);
    assert_ne!(absent.body, invalid.body);
}

#[test]
fn get_eid_answers_internal_errors_with_500() {
    for fault in [
        Fault::ModuleLoad,
        Fault::Initialization,
        Fault::Decode,
        Fault::Middleware,
        Fault::Protocol,
    ] {
        let reply = get_eid(Err(EidError::InternalError(fault)));
        assert_eq!(reply.status, 500);
        assert_eq!(reply.body, Body::Text(String::from("internal error")));
    }
}

#[test]
fn status_of_each_failure() {
    assert_eq!(status(EidError::NoTokenPresent), 404);
    assert_eq!(status(EidError::InvalidToken), 404);
    assert_eq!(status(EidError::InternalError(Fault::Middleware)), 500);
}

#[test]
fn message_of_each_failure() {
    assert_eq!(EidError::NoTokenPresent.message(), "no eID inserted");
    assert_eq!(
        EidError::InvalidToken.message(),
        "invalid eID or eID not correctly inserted"
    );
    assert_eq!(EidError::InternalError(Fault::Decode).message(), "internal error");
}

#[test]
fn messages_tell_failures_apart() {
    let all = [
        EidError::NoTokenPresent,
        EidError::InvalidToken,
        EidError::InternalError(Fault::ModuleLoad),
        EidError::InternalError(Fault::Decode),
    ];
    for a in all {
        for b in all {
            if a.message() == b.message() {
                let both_internal = matches!(a, EidError::InternalError(_))
                    && matches!(b, EidError::InternalError(_));
                assert!(a == b || both_internal);
            }
        }
    }
}

#[test]
fn get_healthz_says_online() {
    let reply = get_healthz();
    assert_eq!(reply.status, 200);
    assert_eq!(reply.body, Body::Json(String::from("{\"online\":true}")));
}

#[test]
fn cors_sets_four_headers() {
    assert_eq!(
        CORS.on_response(),
        vec![
            Header { name: "Access-Control-Allow-Origin", value: "*" },
            Header { name: "Access-Control-Allow-Methods", value: "POST, GET, PATCH, OPTIONS" },
            Header { name: "Access-Control-Allow-Headers", value: "*" },
            Header { name: "Access-Control-Allow-Credentials", value: "true" },
        ]
    );
}

#[test]
fn cors_has_a_name() {
    assert_eq!(CORS.info(), "Add CORS headers to responses");
}

#[test]
fn rocket_listens_on_all_interfaces_port_8099() {
    let launch = rocket();
    assert_eq!(launch.port, 8099);
    assert_eq!(launch.address, "0.0.0.0");
    assert_eq!(launch.log_level, "debug");
}

#[test]
fn rocket_mounts_both_routes_at_the_root() {
    let launch = rocket();
    assert_eq!(launch.base, "/");
    assert_eq!(
        launch.routes,
        vec![
            Route { method: "GET", path: "/eid" },
            Route { method: "GET", path: "/healthz" },
        ]
    );
    assert_eq!(launch.cors, CORS);
}

use data_provider::error::{DecodeError, Error};
use data_provider::field_map::FieldMap;
use data_provider::http::{HttpResponse, Reply};
use data_provider::json::JsonValue;
use data_provider::provider::{Identifier, Record};
use data_provider::providers::JsonPlaceholder;

fn provider() -> JsonPlaceholder {
    JsonPlaceholder::new("http://localhost:3000").unwrap()
}

fn answer(status: u16, body: &str) -> Reply {
    Reply::Response(HttpResponse { status, body: body.to_string() })
}

fn status_error(status: u16) -> Error {
    Error::RequestStatus(status, format!("Received non-200 response: {}", status))
}

#[test]
fn check_status_takes_200_to_299_for_success() {
    let p = provider();
    for status in [200u16, 201, 204, 299] {
        assert_eq!(p.check_status(&HttpResponse { status, body: String::new() }), Ok(()));
    }
}

#[test]
fn check_status_takes_every_other_status_for_an_error() {
    let p = provider();
    for status in [0u16, 100, 199, 300, 301, 404, 500, 65535] {
        let res = p.check_status(&HttpResponse { status, body: String::new() });
        assert_eq!(res, Err(status_error(status)));
    }
}

#[test]
fn check_status_writes_the_code_into_the_message() {
    let res = provider().check_status(&HttpResponse { status: 404, body: String::new() });
    assert_eq!(res, Err(Error::RequestStatus(404, "Received non-200 response: 404".to_string())));
}

#[test]
fn http_response_tells_success() {
    assert!(HttpResponse { status: 200, body: String::new() }.is_success());
    assert!(HttpResponse { status: 299, body: String::new() }.is_success());
    assert!(!HttpResponse { status: 199, body: String::new() }.is_success());
    assert!(!HttpResponse { status: 300, body: String::new() }.is_success());
}

#[test]
fn body_of_hands_the_body_of_a_success_out() {
    assert_eq!(provider().body_of(answer(200, "text")), Ok("text".to_string()));
}

#[test]
fn body_of_fails_on_a_transport_failure() {
    let res = provider().body_of(Reply::Failure("connection refused".to_string()));
    assert_eq!(res, Err(Error::Request("connection refused".to_string())));
}

#[test]
fn my_get_list_counts_the_records() {
    let result = provider().my_get_list(answer(200, r#"[{"id": 1}, {"id": 2}, {"id": 3}]"#)).unwrap();
    assert_eq!(result.data.len(), 3);
    assert_eq!(result.total, Some(3));
    assert!(result.page_info.is_none());
    assert!(result.meta.is_none());
    assert_eq!(result.data[0].id, Identifier::Num(1));
    assert_eq!(result.data[2].id, Identifier::Num(3));
}

#[test]
fn my_get_list_of_an_empty_array_has_total_zero() {
    let result = provider().my_get_list(answer(200, "[]")).unwrap();
    assert!(result.data.is_empty());
    assert_eq!(result.total, Some(0));
}

#[test]
fn my_get_list_fails_on_a_body_that_does_not_decode() {
    let p = provider();
    assert!(matches!(p.my_get_list(answer(200, "<html>")), Err(Error::Parse(DecodeError::Syntax(_)))));
    assert_eq!(p.my_get_list(answer(200, "{}")).unwrap_err(), Error::Parse(DecodeError::NotAnArray));
    assert_eq!(p.my_get_list(answer(200, "[{}]")).unwrap_err(), Error::Parse(DecodeError::MissingId));
}

#[test]
fn my_get_list_fails_on_another_status() {
    assert_eq!(provider().my_get_list(answer(500, "[]")).unwrap_err(), status_error(500));
}

#[test]
fn my_get_one_reads_the_record() {
    let result = provider().my_get_one(answer(200, r#"{"id": 1, "title": "t"}"#)).unwrap();
    assert_eq!(result.data.id, Identifier::Num(1));
    assert_eq!(result.data.fields.get("title"), Some(&JsonValue::String("t".to_string())));
}

#[test]
fn my_get_one_with_another_status_carries_the_code() {
    let p = provider();
    for status in [199u16, 300, 404, 500] {
        match p.my_get_one(answer(status, r#"{"id": 1}"#)) {
            Err(Error::RequestStatus(code, _)) => assert_eq!(code, status),
            other => panic!("no status error: {:?}", other),
        }
    }
}

#[test]
fn my_get_one_with_another_status_does_not_read_the_body() {
    let p = provider();
    assert_eq!(p.my_get_one(answer(404, "this is no JSON")).unwrap_err(), status_error(404));
    assert_eq!(p.my_get_one(answer(404, "{}")).unwrap_err(), status_error(404));
    assert_eq!(p.my_get_one(answer(404, r#"{"id": 1}"#)).unwrap_err(), status_error(404));
}

#[test]
fn my_get_one_fails_on_a_body_that_does_not_decode() {
    let p = provider();
    assert!(matches!(p.my_get_one(answer(200, "nope")), Err(Error::Parse(DecodeError::Syntax(_)))));
    assert_eq!(p.my_get_one(answer(200, "{}")).unwrap_err(), Error::Parse(DecodeError::MissingId));
    assert_eq!(p.my_get_one(answer(200, "[]")).unwrap_err(), Error::Parse(DecodeError::NotAnObject));
}

#[test]
fn my_get_one_fails_on_a_transport_failure() {
    let res = provider().my_get_one(Reply::Failure("timed out".to_string()));
    assert_eq!(res.unwrap_err(), Error::Request("timed out".to_string()));
}

#[test]
fn my_get_many_returns_what_the_backend_has() {
    let body = r#"[{"id": 1, "title": "a"}, {"id": 2, "title": "b"}]"#;
    let result = provider().my_get_many(answer(200, body)).unwrap();
    let ids: Vec<&Identifier> = result.data.iter().map(|r| &r.id).collect();
    assert_eq!(ids, vec![&Identifier::Num(1), &Identifier::Num(2)]);
}

#[test]
fn my_get_many_fails_on_another_status() {
    assert_eq!(provider().my_get_many(answer(503, "[]")).unwrap_err(), status_error(503));
}

#[test]
fn my_get_many_reference_counts_the_records() {
    let result = provider().my_get_many_reference(answer(200, r#"[{"id": 1}, {"id": 2}]"#)).unwrap();
    assert_eq!(result.data.len(), 2);
    assert_eq!(result.total, Some(2));
    assert!(result.page_info.is_none());
    assert!(result.meta.is_none());
}

#[test]
fn my_get_many_reference_of_no_record_has_no_total() {
    let result = provider().my_get_many_reference(answer(200, "[]")).unwrap();
    assert!(result.data.is_empty());
    assert_eq!(result.total, None);
}

#[test]
fn my_get_many_reference_fails_as_a_list_does() {
    let p = provider();
    assert_eq!(p.my_get_many_reference(answer(404, "[]")).unwrap_err(), status_error(404));
    assert_eq!(p.my_get_many_reference(answer(200, "3")).unwrap_err(), Error::Parse(DecodeError::NotAnArray));
}

#[test]
fn my_create_returns_the_record_with_its_new_identifier() {
    let result = provider().my_create(answer(201, r#"{"id": 101, "title": "pepe"}"#)).unwrap();
    assert_eq!(result.data.id, Identifier::Num(101));
    assert_eq!(result.data.fields.get("title"), Some(&JsonValue::String("pepe".to_string())));
}

#[test]
fn my_create_fails_without_an_identifier() {
    let res = provider().my_create(answer(201, r#"{"title": "pepe"}"#));
    assert_eq!(res.unwrap_err(), Error::Parse(DecodeError::MissingId));
    assert_eq!(provider().my_create(answer(400, "{}")).unwrap_err(), status_error(400));
}

#[test]
fn my_update_returns_the_record_as_it_is_now() {
    let result = provider().my_update(answer(200, r#"{"id": "1", "title": "new"}"#)).unwrap();
    assert_eq!(result.data.id, Identifier::Str("1".to_string()));
    assert_eq!(provider().my_update(answer(500, "{}")).unwrap_err(), status_error(500));
}

#[test]
fn my_delete_takes_the_record_from_the_body() {
    let previous = Record { id: Identifier::Num(1), fields: FieldMap::new() };
    let result = provider().my_delete(answer(200, r#"{"id": 7, "title": "t"}"#), Some(previous)).unwrap();
    assert_eq!(result.data.id, Identifier::Num(7));
    let result = provider().my_delete(answer(200, r#"{"id": 7}"#), None).unwrap();
    assert_eq!(result.data.id, Identifier::Num(7));
}

#[test]
fn my_delete_falls_back_on_the_previous_record() {
    let mut fields = FieldMap::new();
    fields.insert("title".to_string(), JsonValue::String("old".to_string()));
    let previous = Record { id: Identifier::Num(1), fields };
    let result = provider().my_delete(answer(200, "{}"), Some(previous)).unwrap();
    assert_eq!(result.data.id, Identifier::Num(1));
    assert_eq!(result.data.fields.get("title"), Some(&JsonValue::String("old".to_string())));
    let previous = Record { id: Identifier::Num(2), fields: FieldMap::new() };
    let result = provider().my_delete(answer(204, ""), Some(previous)).unwrap();
    assert_eq!(result.data.id, Identifier::Num(2));
}

#[test]
fn my_delete_without_any_record_is_an_unknown_error() {
    assert!(matches!(provider().my_delete(answer(200, "{}"), None), Err(Error::Unknown(_))));
    assert!(matches!(provider().my_delete(answer(204, ""), None), Err(Error::Unknown(_))));
}

#[test]
fn my_delete_fails_on_another_status_whatever_the_caller_knew() {
    let previous = Record { id: Identifier::Num(1), fields: FieldMap::new() };
    assert_eq!(provider().my_delete(answer(404, "{}"), Some(previous)).unwrap_err(), status_error(404));
    let res = provider().my_delete(Reply::Failure("down".to_string()), None);
    assert_eq!(res.unwrap_err(), Error::Request("down".to_string()));
}

#[test]
fn deleted_record_prefers_the_body() {
    let from_body = Record { id: Identifier::Num(1), fields: FieldMap::new() };
    let previous = Record { id: Identifier::Num(2), fields: FieldMap::new() };
    let result = JsonPlaceholder::deleted_record(Ok(from_body), Some(previous)).unwrap();
    assert_eq!(result.data.id, Identifier::Num(1));
    let previous = Record { id: Identifier::Num(2), fields: FieldMap::new() };
    let result = JsonPlaceholder::deleted_record(Err(Error::Parse(DecodeError::MissingId)), Some(previous)).unwrap();
    assert_eq!(result.data.id, Identifier::Num(2));
    let res = JsonPlaceholder::deleted_record(Err(Error::Parse(DecodeError::MissingId)), None);
    assert!(matches!(res, Err(Error::Unknown(_))));
}

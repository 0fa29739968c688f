use data_provider::error::Error;
use data_provider::field_map::FieldMap;
use data_provider::http::{HttpResponse, Method, Reply};
use data_provider::json::JsonValue;
use data_provider::provider::{DeleteManyParams, Identifier, Resource, UpdateManyParams};
use data_provider::providers::{Batch, JsonPlaceholder};

fn provider() -> JsonPlaceholder {
    JsonPlaceholder::new("http://localhost:3000/api").unwrap()
}

fn answer(status: u16) -> Reply {
    Reply::Response(HttpResponse { status, body: "{}".to_string() })
}

fn data() -> FieldMap<JsonValue> {
    let mut map = FieldMap::new();
    map.insert("title".to_string(), JsonValue::String("pepe".to_string()));
    map
}

fn run(mut batch: Batch, statuses: &[u16]) -> Batch {
    for status in statuses {
        assert!(!batch.is_finished());
        assert!(batch.request().unwrap().is_some());
        batch = batch.settle(answer(*status)).unwrap();
    }
    batch
}

#[test]
fn update_many_keeps_the_identifier_that_was_accepted() {
    let p = provider();
    let params = UpdateManyParams { ids: vec![Identifier::Num(1), Identifier::Num(2)], data: data(), meta: None };
    let batch = run(p.update_many(&Resource::new("posts"), params), &[200, 500]);
    assert!(batch.is_finished());
    assert_eq!(p.my_update_many(batch).data, vec![Identifier::Num(1)]);
}

#[test]
fn update_many_sends_a_put_to_each_record_in_turn() {
    let p = provider();
    let params = UpdateManyParams {
        ids: vec![Identifier::Str("a".to_string()), Identifier::Num(22)],
        data: data(),
        meta: None,
    };
    let mut batch = p.update_many(&Resource::new("posts"), params);
    {
        let request = batch.request().unwrap().unwrap();
        assert_eq!(request.method, Method::Put);
        assert_eq!(request.url, "http://localhost:3000/api/posts/a");
        assert_eq!(request.body.unwrap().get("title"), Some(&JsonValue::String("pepe".to_string())));
    }
    batch = batch.settle(answer(404)).unwrap();
    {
        let request = batch.request().unwrap().unwrap();
        assert_eq!(request.method, Method::Put);
        assert_eq!(request.url, "http://localhost:3000/api/posts/22");
        assert_eq!(request.body.unwrap().len(), 1);
    }
    batch = batch.settle(answer(200)).unwrap();
    assert!(batch.request().unwrap().is_none());
    assert_eq!(p.my_update_many(batch).data, vec![Identifier::Num(22)]);
}

#[test]
fn update_many_keeps_all_where_all_are_accepted() {
    let p = provider();
    let ids = vec![Identifier::Num(1), Identifier::Num(2), Identifier::Num(3)];
    let params = UpdateManyParams { ids: ids.clone(), data: data(), meta: None };
    let batch = run(p.update_many(&Resource::new("posts"), params), &[200, 201, 204]);
    assert_eq!(p.my_update_many(batch).data, ids);
}

#[test]
fn update_many_keeps_none_where_none_is_accepted() {
    let p = provider();
    let params = UpdateManyParams { ids: vec![Identifier::Num(1), Identifier::Num(2)], data: data(), meta: None };
    let batch = run(p.update_many(&Resource::new("posts"), params), &[500, 404]);
    assert!(p.my_update_many(batch).data.is_empty());
}

#[test]
fn a_batch_of_nothing_is_finished_at_once() {
    let p = provider();
    let batch = p.delete_many(&Resource::new("posts"), DeleteManyParams { ids: vec![], meta: None });
    assert!(batch.is_finished());
    assert!(batch.request().unwrap().is_none());
    assert!(p.my_delete_many(batch).data.is_empty());
}

#[test]
fn delete_many_sends_a_delete_without_a_body() {
    let p = provider();
    let params = DeleteManyParams { ids: vec![Identifier::Num(1), Identifier::Num(2)], meta: None };
    let batch = p.delete_many(&Resource::new("/posts/"), params);
    let request = batch.request().unwrap().unwrap();
    assert_eq!(request.method, Method::Delete);
    assert_eq!(request.url, "http://localhost:3000/api/posts/1");
    assert!(request.body.is_none());
}

#[test]
fn delete_many_keeps_the_order_of_the_caller() {
    let p = provider();
    let ids = vec![Identifier::Num(9), Identifier::Num(3), Identifier::Num(7), Identifier::Num(3)];
    let params = DeleteManyParams { ids, meta: None };
    let batch = run(p.delete_many(&Resource::new("posts"), params), &[200, 410, 200, 200]);
    assert_eq!(
        p.my_delete_many(batch).data,
        vec![Identifier::Num(9), Identifier::Num(7), Identifier::Num(3)]
    );
}

#[test]
fn a_transport_failure_ends_the_batch() {
    let p = provider();
    let params = DeleteManyParams { ids: vec![Identifier::Num(1), Identifier::Num(2)], meta: None };
    let batch = run(p.delete_many(&Resource::new("posts"), params), &[200]);
    match batch.settle(Reply::Failure("connection reset".to_string())) {
        Err(e) => assert_eq!(e, Error::Request("connection reset".to_string())),
        Ok(_) => panic!("the batch went on"),
    }
}

#[test]
fn an_answer_that_no_request_asked_for_is_an_unknown_error() {
    let p = provider();
    let params = DeleteManyParams { ids: vec![Identifier::Num(1)], meta: None };
    let batch = run(p.delete_many(&Resource::new("posts"), params), &[200]);
    assert!(batch.is_finished());
    assert!(matches!(batch.settle(answer(200)), Err(Error::Unknown(_))));
}

#[test]
fn a_batch_that_is_ended_early_has_what_it_kept_so_far() {
    let p = provider();
    let ids = vec![Identifier::Num(1), Identifier::Num(2), Identifier::Num(3)];
    let batch = run(p.delete_many(&Resource::new("posts"), DeleteManyParams { ids, meta: None }), &[200]);
    assert!(!batch.is_finished());
    assert_eq!(batch.into_kept(), vec![Identifier::Num(1)]);
}

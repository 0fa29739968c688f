use data_provider::error::Error;
use data_provider::field_map::FieldMap;
use data_provider::http::Method;
use data_provider::json::{JsonNumber, JsonValue};
use data_provider::provider::{
    CreateParams, DeleteParams, GetListParams, GetManyParams, GetManyReferenceParams, GetOneParams,
    Identifier, PaginationPayload, Record, Resource, SortOrder, SortPayload, UpdateParams,
};
use data_provider::providers::JsonPlaceholder;

fn provider() -> JsonPlaceholder {
    JsonPlaceholder::new("https://jsonplaceholder.typicode.com").unwrap()
}

fn no_list_params() -> GetListParams {
    GetListParams { pagination: None, sort: None, filter: None, meta: None }
}

fn fields() -> FieldMap<JsonValue> {
    let mut map = FieldMap::new();
    map.insert("title".to_string(), JsonValue::String("pepe".to_string()));
    map.insert("userId".to_string(), JsonValue::Number(JsonNumber::PosInt(1)));
    map
}

#[test]
fn new_keeps_the_url_as_the_parser_writes_it() {
    assert_eq!(provider().base_url(), "https://jsonplaceholder.typicode.com/");
    assert_eq!(JsonPlaceholder::new("HTTP://Example.COM:80/api").unwrap().base_url(), "http://example.com/api");
}

#[test]
fn new_refuses_what_is_no_absolute_url() {
    assert_eq!(
        JsonPlaceholder::new("not a url").unwrap_err(),
        Error::Url(url::ParseError::RelativeUrlWithoutBase)
    );
    assert_eq!(JsonPlaceholder::new("").unwrap_err(), Error::Url(url::ParseError::RelativeUrlWithoutBase));
    assert_eq!(JsonPlaceholder::new("http://").unwrap_err(), Error::Url(url::ParseError::EmptyHost));
    assert_eq!(
        JsonPlaceholder::new("http://host:99999/").unwrap_err(),
        Error::Url(url::ParseError::InvalidPort)
    );
}

#[test]
fn new_does_not_write_the_list_query() {
    assert!(!provider().has_list_query());
    assert!(provider().with_list_query(true).has_list_query());
    assert!(!provider().with_list_query(true).with_list_query(false).has_list_query());
}

#[test]
fn get_list_is_a_get_of_the_resource() {
    let request = provider().get_list(&Resource::new("posts"), &no_list_params()).unwrap();
    assert_eq!(request.method, Method::Get);
    assert_eq!(request.url, "https://jsonplaceholder.typicode.com/posts");
    assert!(request.body.is_none());
}

#[test]
fn get_list_leaves_pagination_sort_and_filter_out() {
    let mut filter = FieldMap::new();
    filter.insert("title".to_string(), "qui est esse".to_string());
    let params = GetListParams {
        pagination: Some(PaginationPayload { page: 2, per_page: 10 }),
        sort: Some(SortPayload { field: "title".to_string(), order: SortOrder::Desc }),
        filter: Some(filter),
        meta: None,
    };
    let request = provider().get_list(&Resource::new("posts"), &params).unwrap();
    assert_eq!(request.url, "https://jsonplaceholder.typicode.com/posts");
}

#[test]
fn get_list_writes_the_query_where_it_was_asked_for() {
    let mut filter = FieldMap::new();
    filter.insert("title".to_string(), "qui est esse".to_string());
    filter.insert("a&b".to_string(), "c=d#e".to_string());
    let params = GetListParams {
        pagination: Some(PaginationPayload { page: 2, per_page: 10 }),
        sort: Some(SortPayload { field: "user id".to_string(), order: SortOrder::Desc }),
        filter: Some(filter),
        meta: None,
    };
    let request = provider().with_list_query(true).get_list(&Resource::new("posts"), &params).unwrap();
    assert_eq!(request.method, Method::Get);
    assert_eq!(
        request.url,
        "https://jsonplaceholder.typicode.com/posts?page=2&per_page=10&sort=user+id&order=desc&title=qui+est+esse&a%26b=c%3Dd%23e"
    );
}

#[test]
fn get_list_writes_each_part_of_the_query_alone() {
    let written = provider().with_list_query(true);
    let posts = Resource::new("posts");
    let params = GetListParams {
        pagination: Some(PaginationPayload { page: 1, per_page: 25 }),
        sort: None,
        filter: None,
        meta: None,
    };
    assert_eq!(
        written.get_list(&posts, &params).unwrap().url,
        "https://jsonplaceholder.typicode.com/posts?page=1&per_page=25"
    );
    let params = GetListParams {
        pagination: None,
        sort: Some(SortPayload { field: "name".to_string(), order: SortOrder::Asc }),
        filter: None,
        meta: None,
    };
    assert_eq!(
        written.get_list(&posts, &params).unwrap().url,
        "https://jsonplaceholder.typicode.com/posts?sort=name&order=asc"
    );
}

#[test]
fn get_list_with_nothing_to_write_has_no_query() {
    let written = provider().with_list_query(true);
    let request = written.get_list(&Resource::new("posts"), &no_list_params()).unwrap();
    assert_eq!(request.url, "https://jsonplaceholder.typicode.com/posts");
    let params = GetListParams { pagination: None, sort: None, filter: Some(FieldMap::new()), meta: None };
    let request = written.get_list(&Resource::new("posts"), &params).unwrap();
    assert_eq!(request.url, "https://jsonplaceholder.typicode.com/posts");
}

#[test]
fn the_base_is_taken_as_a_directory() {
    let posts = Resource::new("posts");
    let with_slash = JsonPlaceholder::new("http://test.com/api/").unwrap();
    let without = JsonPlaceholder::new("http://test.com/api").unwrap();
    assert_eq!(with_slash.get_list(&posts, &no_list_params()).unwrap().url, "http://test.com/api/posts");
    assert_eq!(without.get_list(&posts, &no_list_params()).unwrap().url, "http://test.com/api/posts");
}

#[test]
fn get_one_is_a_get_of_the_record() {
    let params = GetOneParams { id: Identifier::Num(1), meta: None };
    let request = provider().get_one(&Resource::new("posts"), &params).unwrap();
    assert_eq!(request.method, Method::Get);
    assert_eq!(request.url, "https://jsonplaceholder.typicode.com/posts/1");
    assert!(request.body.is_none());
}

#[test]
fn get_one_writes_a_text_identifier_as_it_is() {
    let params = GetOneParams { id: Identifier::Str("abc-7".to_string()), meta: None };
    let request = provider().get_one(&Resource::new("/posts/"), &params).unwrap();
    assert_eq!(request.url, "https://jsonplaceholder.typicode.com/posts/abc-7");
}

#[test]
fn get_one_writes_a_large_number_in_full() {
    let params = GetOneParams { id: Identifier::Num(1234567890), meta: None };
    let request = provider().get_one(&Resource::new("posts"), &params).unwrap();
    assert_eq!(request.url, "https://jsonplaceholder.typicode.com/posts/1234567890");
}

#[test]
fn the_parser_encodes_what_a_path_cannot_hold() {
    let params = GetOneParams { id: Identifier::Str("a b".to_string()), meta: None };
    let request = provider().get_one(&Resource::new("posts"), &params).unwrap();
    assert_eq!(request.url, "https://jsonplaceholder.typicode.com/posts/a%20b");
}

#[test]
fn get_many_repeats_the_key_in_the_order_given() {
    let params = GetManyParams {
        ids: vec![Identifier::Num(1), Identifier::Str("2".to_string()), Identifier::Num(99)],
        meta: None,
    };
    let request = provider().get_many(&Resource::new("posts"), &params).unwrap();
    assert_eq!(request.method, Method::Get);
    assert_eq!(request.url, "https://jsonplaceholder.typicode.com/posts?id=1&id=2&id=99");
    assert!(request.body.is_none());
}

#[test]
fn get_many_of_one_identifier_has_no_separator() {
    let params = GetManyParams { ids: vec![Identifier::Num(5)], meta: None };
    let request = provider().get_many(&Resource::new("posts"), &params).unwrap();
    assert_eq!(request.url, "https://jsonplaceholder.typicode.com/posts?id=5");
}

#[test]
fn get_many_of_no_identifier_has_an_empty_query() {
    let params = GetManyParams { ids: vec![], meta: None };
    let request = provider().get_many(&Resource::new("posts"), &params).unwrap();
    assert_eq!(request.url, "https://jsonplaceholder.typicode.com/posts?");
}

#[test]
fn get_many_reference_is_a_get_of_the_target_below_the_record() {
    let params = GetManyReferenceParams {
        target: "comments".to_string(),
        id: Identifier::Str("1".to_string()),
        pagination: PaginationPayload { page: 1, per_page: 10 },
        sort: SortPayload { field: "name".to_string(), order: SortOrder::Asc },
        filter: FieldMap::new(),
        meta: None,
    };
    let request = provider().get_many_reference(&Resource::new("posts"), &params).unwrap();
    assert_eq!(request.method, Method::Get);
    assert_eq!(request.url, "https://jsonplaceholder.typicode.com/posts/1/comments");
    assert!(request.body.is_none());
}

#[test]
fn create_is_a_post_of_the_fields() {
    let params = CreateParams { data: fields(), meta: None };
    let request = provider().create(&Resource::new("posts"), &params).unwrap();
    assert_eq!(request.method, Method::Post);
    assert_eq!(request.url, "https://jsonplaceholder.typicode.com/posts");
    let body = request.body.unwrap();
    assert_eq!(body.len(), 2);
    assert_eq!(body.get("title"), Some(&JsonValue::String("pepe".to_string())));
    assert_eq!(body.get("userId"), Some(&JsonValue::Number(JsonNumber::PosInt(1))));
}

#[test]
fn update_is_a_put_of_the_fields_to_the_record() {
    let params = UpdateParams {
        id: Identifier::Num(3),
        data: fields(),
        previous_data: Record { id: Identifier::Num(3), fields: FieldMap::new() },
        meta: None,
    };
    let request = provider().update(&Resource::new("posts"), &params).unwrap();
    assert_eq!(request.method, Method::Put);
    assert_eq!(request.url, "https://jsonplaceholder.typicode.com/posts/3");
    assert_eq!(request.body.unwrap().get("title"), Some(&JsonValue::String("pepe".to_string())));
}

#[test]
fn delete_is_a_delete_of_the_record() {
    let params = DeleteParams { id: Identifier::Num(3), previous_data: None, meta: None };
    let request = provider().delete(&Resource::new("posts"), &params).unwrap();
    assert_eq!(request.method, Method::Delete);
    assert_eq!(request.url, "https://jsonplaceholder.typicode.com/posts/3");
    assert!(request.body.is_none());
}

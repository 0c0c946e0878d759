use apiclient_rs::{ApiClient, ApiClientError, Fields, JsonValue, Shape};

fn client() -> ApiClient {
    ApiClient::new("https://api.example.com", None)
}

fn obj_shape(fields: Vec<(&str, Shape)>) -> Shape {
    let mut list = Fields::Nil;
    for (name, shape) in fields.into_iter().rev() {
        list = Fields::Field(name.to_string(), Box::new(shape), Box::new(list));
    }
    Shape::Object(list)
}

#[test]
fn name_age_document_round_trips_exactly() {
    let c = client();
    let doc = match c.handle_response(200, Some("{\"name\":\"a\",\"age\":30}".to_string())) {
        Ok(v) => v,
        Err(e) => panic!("expected parse success, got {:?}", e),
    };
    let shape = obj_shape(vec![("name", Shape::Text), ("age", Shape::Number)]);
    let decoded = c.deserialize_response(doc, &shape).unwrap();
    assert_eq!(
        decoded,
        JsonValue::Obj(vec![
            ("age".to_string(), JsonValue::Num("30".to_string())),
            ("name".to_string(), JsonValue::Str("a".to_string())),
        ])
    );
}

#[test]
fn mismatched_field_reports_its_path() {
    let c = client();
    let doc = JsonValue::Obj(vec![(
        "user".to_string(),
        JsonValue::Obj(vec![("zip".to_string(), JsonValue::Str("x".to_string()))]),
    )]);
    let shape = obj_shape(vec![("user", obj_shape(vec![("zip", Shape::Number)]))]);
    match c.deserialize_response(doc, &shape) {
        Err(ApiClientError::DeserializeError(path)) => assert_eq!(path, "user.zip"),
        other => panic!("expected DeserializeError, got {:?}", other),
    }
}

#[test]
fn missing_field_reports_its_name() {
    let c = client();
    let doc = JsonValue::Obj(vec![("name".to_string(), JsonValue::Str("a".to_string()))]);
    let shape = obj_shape(vec![("name", Shape::Text), ("age", Shape::Number)]);
    match c.deserialize_response(doc, &shape) {
        Err(ApiClientError::DeserializeError(path)) => assert_eq!(path, "age"),
        other => panic!("expected DeserializeError, got {:?}", other),
    }
}

#[test]
fn array_element_mismatch_reports_indexed_path() {
    let c = client();
    let doc = JsonValue::Obj(vec![(
        "items".to_string(),
        JsonValue::Arr(vec![
            JsonValue::Num("1".to_string()),
            JsonValue::Str("x".to_string()),
        ]),
    )]);
    let shape = obj_shape(vec![("items", Shape::Array(Box::new(Shape::Number)))]);
    match c.deserialize_response(doc, &shape) {
        Err(ApiClientError::DeserializeError(path)) => assert_eq!(path, "items[1]"),
        other => panic!("expected DeserializeError, got {:?}", other),
    }
}

#[test]
fn two_digit_array_index_renders_in_full() {
    let c = client();
    let mut items: Vec<JsonValue> = Vec::new();
    for _ in 0..12 {
        items.push(JsonValue::Num("0".to_string()));
    }
    items.push(JsonValue::Null);
    let doc = JsonValue::Obj(vec![("items".to_string(), JsonValue::Arr(items))]);
    let shape = obj_shape(vec![("items", Shape::Array(Box::new(Shape::Number)))]);
    match c.deserialize_response(doc, &shape) {
        Err(ApiClientError::DeserializeError(path)) => assert_eq!(path, "items[12]"),
        other => panic!("expected DeserializeError, got {:?}", other),
    }
}

#[test]
fn root_mismatch_renders_as_dot() {
    let c = client();
    let doc = JsonValue::Str("not a number".to_string());
    match c.deserialize_response(doc, &Shape::Number) {
        Err(ApiClientError::DeserializeError(path)) => assert_eq!(path, "."),
        other => panic!("expected DeserializeError, got {:?}", other),
    }
}

#[test]
fn extra_fields_are_ignored_by_shape_check() {
    let c = client();
    let doc = JsonValue::Obj(vec![
        ("name".to_string(), JsonValue::Str("a".to_string())),
        ("extra".to_string(), JsonValue::Null),
    ]);
    let shape = obj_shape(vec![("name", Shape::Text)]);
    assert!(c.deserialize_response(doc, &shape).is_ok());
}

#[test]
fn null_and_bool_shapes_accept_their_values() {
    let c = client();
    let doc = JsonValue::Obj(vec![
        ("gone".to_string(), JsonValue::Null),
        ("flag".to_string(), JsonValue::Bool(false)),
    ]);
    let shape = obj_shape(vec![("gone", Shape::Null), ("flag", Shape::Boolean)]);
    assert!(c.deserialize_response(doc, &shape).is_ok());
}

#[test]
fn parsed_array_document_is_structured_not_raw_text() {
    let c = client();
    let doc = c.handle_response(200, Some("[1, \"two\", null]".to_string())).unwrap();
    assert_eq!(
        doc,
        JsonValue::Arr(vec![
            JsonValue::Num("1".to_string()),
            JsonValue::Str("two".to_string()),
            JsonValue::Null,
        ])
    );
}

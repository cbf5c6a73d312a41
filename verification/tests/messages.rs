use jsonrpc_client::{Id, Json, JsonRpcError, Request, Response, Version};

#[test]
fn deserialize_v1_error_response_error_first_result_second() {
    let json = r#"{"error":{"code":-6,"message":"Insufficient funds"},"result":null,"id":0}"#;

    let response = Response::<String>::decode(json, serde_json::from_value).unwrap();

    assert_eq!(response.id, Id::Number(0));
    assert_eq!(response.jsonrpc, None);
    assert_eq!(
        Result::from(response.payload),
        Err(JsonRpcError {
            code: -6,
            message: "Insufficient funds".to_owned(),
            data: None,
        })
    )
}

#[test]
fn deserialize_v1_error_response_result_first_error_second() {
    let json = r#"{"result":null,"error":{"code":-6,"message":"Insufficient funds"},"id":0}"#;

    let response = Response::<String>::decode(json, serde_json::from_value).unwrap();

    assert_eq!(response.id, Id::Number(0));
    assert_eq!(response.jsonrpc, None);
    assert_eq!(
        Result::from(response.payload),
        Err(JsonRpcError {
            code: -6,
            message: "Insufficient funds".to_owned(),
            data: None,
        })
    )
}

#[test]
fn deserialize_v1_error_response_result_first_error_second_unit_type() {
    let json = r#"{"result":null,"error":{"code":-6,"message":"Insufficient funds"},"id":0}"#;

    let response = Response::<()>::decode(json, serde_json::from_value).unwrap();

    assert_eq!(response.id, Id::Number(0));
    assert_eq!(response.jsonrpc, None);
    assert_eq!(
        Result::from(response.payload),
        Err(JsonRpcError {
            code: -6,
            message: "Insufficient funds".to_owned(),
            data: None,
        })
    )
}

#[test]
fn deserialize_v1_error_no_result() {
    let json = r#"{"error":{"code":-6,"message":"Insufficient funds"},"id":0}"#;

    let response = Response::<String>::decode(json, serde_json::from_value).unwrap();

    assert_eq!(response.id, Id::Number(0));
    assert_eq!(response.jsonrpc, None);
    assert_eq!(
        Result::from(response.payload),
        Err(JsonRpcError {
            code: -6,
            message: "Insufficient funds".to_owned(),
            data: None,
        })
    )
}

#[test]
fn deserialize_v2_error_response() {
    let json = r#"{"jsonrpc": "2.0", "error": {"code": -32601, "message": "Method not found"}, "id": "1"}"#;

    let response = Response::<()>::decode(json, serde_json::from_value).unwrap();

    assert_eq!(response.id, Id::String("1".to_owned()));
    assert_eq!(response.jsonrpc, Some(Version::V2));
    assert_eq!(
        Result::from(response.payload),
        Err(JsonRpcError {
            code: -32601,
            message: "Method not found".to_owned(),
            data: None,
        })
    )
}

#[test]
fn deserialize_error_response_with_data() {
    let json = r#"{"jsonrpc": "2.0", "error": {"code": 1010, "message": "Invalid Transaction", "data": "BadProof"}, "id": "1"}"#;

    let response = Response::<()>::decode(json, serde_json::from_value).unwrap();

    assert_eq!(response.id, Id::String("1".to_owned()));
    assert_eq!(response.jsonrpc, Some(Version::V2));
    assert_eq!(
        Result::from(response.payload),
        Err(JsonRpcError {
            code: 1010,
            message: "Invalid Transaction".to_owned(),
            data: Some(Json::String("BadProof".to_owned())),
        })
    )
}

#[test]
fn deserialize_success_response() {
    let json = r#"{"jsonrpc": "2.0", "result": 19, "id": 1}"#;

    let response = Response::<i32>::decode(json, serde_json::from_value).unwrap();

    assert_eq!(response.id, Id::Number(1));
    assert_eq!(response.jsonrpc, Some(Version::V2));
    assert_eq!(Result::from(response.payload), Ok(19))
}

#[test]
fn serialize_request_v1() {
    let request = Request::new_v1("subtract")
        .with_argument("first".to_owned(), serde_json::to_value(42))
        .unwrap()
        .with_argument("second".to_owned(), serde_json::to_value(23))
        .unwrap();

    let json = request.serialize().unwrap();

    assert_eq!(
        json,
        r#"{"id":0,"jsonrpc":"1.0","method":"subtract","params":[42,23]}"#
    );
}

#[test]
fn serialize_request_v2() {
    let request = Request::new_v2("subtract")
        .with_argument("first".to_owned(), serde_json::to_value(42))
        .unwrap()
        .with_argument("second".to_owned(), serde_json::to_value(23))
        .unwrap();

    let json = request.serialize().unwrap();

    assert_eq!(
        json,
        r#"{"id":0,"jsonrpc":"2.0","method":"subtract","params":{"first":42,"second":23}}"#
    );
}

#[test]
fn serialize_request_v2_empty_params() {
    let request = Request::new_v2("subtract");

    let json = request.serialize().unwrap();

    assert_eq!(json, r#"{"id":0,"jsonrpc":"2.0","method":"subtract"}"#);
}

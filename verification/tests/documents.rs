use jsonrpc_client::decimal::{decimal_text, parse_decimal};
use jsonrpc_client::{
    EnvelopeFault, Id, Json, JsonRpcError, Params, Request, RequestFault, Response,
    ResponsePayload, Version,
};

fn number(text: &str) -> Json {
    Json::Number(text.to_owned())
}

fn object(members: Vec<(&str, Json)>) -> Json {
    Json::Object(members.into_iter().map(|(name, value)| (name.to_owned(), value)).collect())
}

#[test]
fn decimal_text_of_small_and_extreme_integers() {
    assert_eq!(decimal_text(0), "0");
    assert_eq!(decimal_text(7), "7");
    assert_eq!(decimal_text(10), "10");
    assert_eq!(decimal_text(-6), "-6");
    assert_eq!(decimal_text(-32603), "-32603");
    assert_eq!(decimal_text(i64::MAX), "9223372036854775807");
    assert_eq!(decimal_text(i64::MIN), "-9223372036854775808");
}

#[test]
fn parse_decimal_reads_what_decimal_text_writes() {
    for n in [0, 1, 9, 10, 99, 100, -1, -10, 1010, -32601, i64::MAX, i64::MIN] {
        assert_eq!(parse_decimal(&decimal_text(n)), Some(n));
    }
}

#[test]
fn parse_decimal_refuses_what_is_no_decimal_text() {
    assert_eq!(parse_decimal(""), None);
    assert_eq!(parse_decimal("-"), None);
    assert_eq!(parse_decimal("-0"), None);
    assert_eq!(parse_decimal("01"), None);
    assert_eq!(parse_decimal("+1"), None);
    assert_eq!(parse_decimal("1.0"), None);
    assert_eq!(parse_decimal("1e3"), None);
    assert_eq!(parse_decimal(" 1"), None);
    assert_eq!(parse_decimal("12a"), None);
    assert_eq!(parse_decimal("9223372036854775808"), None);
    assert_eq!(parse_decimal("-9223372036854775809"), None);
    assert_eq!(parse_decimal("18446744073709551616"), None);
    assert_eq!(parse_decimal("99999999999999999999999999"), None);
}

#[test]
fn parse_reads_every_kind_of_value() {
    let json = Json::parse(r#"{"a":[1,-2.5,"x",true,null],"b":{"c":"d"}}"#).unwrap();
    assert_eq!(
        json,
        object(vec![
            (
                "a",
                Json::Array(vec![
                    number("1"),
                    number("-2.5"),
                    Json::String("x".to_owned()),
                    Json::Bool(true),
                    Json::Null,
                ])
            ),
            ("b", object(vec![("c", Json::String("d".to_owned()))])),
        ])
    );
}

#[test]
fn parse_refuses_what_is_no_json() {
    assert!(Json::parse("").is_err());
    assert!(Json::parse("{").is_err());
    assert!(Json::parse(r#"{"a":1,}"#).is_err());
    assert!(Json::parse("nul").is_err());
    assert!(Json::parse("1 2").is_err());
}

#[test]
fn render_writes_compact_text() {
    let json = object(vec![
        ("a", Json::Array(vec![number("1"), Json::String("x\"y".to_owned()), Json::Null])),
        ("b", Json::Bool(false)),
    ]);
    assert_eq!(json.render().unwrap(), r#"{"a":[1,"x\"y",null],"b":false}"#);
}

#[test]
fn render_keeps_large_and_fractional_numbers() {
    let text = r#"[18446744073709551615,-9223372036854775808,0.5,-12.25]"#;
    assert_eq!(Json::parse(text).unwrap().render().unwrap(), text);
    let large = Json::parse("[1e300]").unwrap();
    assert_eq!(Json::parse(&large.render().unwrap()).unwrap(), large);
}

#[test]
fn render_fails_on_a_number_that_is_none() {
    assert!(number("abc").render().is_err());
    assert!(number("").render().is_err());
    assert!(Json::Array(vec![number("1"), number("--1")]).render().is_err());
}

#[test]
fn clone_copies_the_whole_document() {
    let json = Json::parse(r#"{"a":[1,{"b":[null,"c"]}],"d":2.5}"#).unwrap();
    assert_eq!(json.clone(), json);
}

#[test]
fn get_finds_the_last_member_of_a_name() {
    let json = object(vec![("a", number("1")), ("b", number("2")), ("a", number("3"))]);
    assert_eq!(json.get("a"), Some(&number("3")));
    assert_eq!(json.get("b"), Some(&number("2")));
    assert_eq!(json.get("c"), None);
    assert_eq!(number("1").get("a"), None);
}

#[test]
fn as_i64_reads_integers_only() {
    assert_eq!(number("19").as_i64(), Some(19));
    assert_eq!(number("-6").as_i64(), Some(-6));
    assert_eq!(number("19.0").as_i64(), None);
    assert_eq!(number("9223372036854775808").as_i64(), None);
    assert_eq!(Json::String("19".to_owned()).as_i64(), None);
    assert_eq!(Json::Null.as_i64(), None);
}

#[test]
fn version_texts() {
    assert_eq!(Version::V1.as_str(), "1.0");
    assert_eq!(Version::V2.as_str(), "2.0");
    assert_eq!(Version::from_text("1.0"), Some(Version::V1));
    assert_eq!(Version::from_text("2.0"), Some(Version::V2));
    assert_eq!(Version::from_text("2"), None);
    assert_eq!(Version::from_text(""), None);
}

#[test]
fn id_documents() {
    assert_eq!(Id::Number(-3).to_document(), number("-3"));
    assert_eq!(Id::String("x".to_owned()).to_document(), Json::String("x".to_owned()));
    assert_eq!(Id::from_document(&number("7")), Some(Id::Number(7)));
    assert_eq!(Id::from_document(&Json::String("7".to_owned())), Some(Id::String("7".to_owned())));
    assert_eq!(Id::from_document(&number("7.5")), None);
    assert_eq!(Id::from_document(&Json::Null), None);
    assert_eq!(Id::from_document(&Json::Bool(true)), None);
}

#[test]
fn new_requests_have_the_placeholder_identifier_and_no_arguments() {
    let v1 = Request::new_v1("ping");
    assert_eq!(v1.id, Id::Number(0));
    assert_eq!(v1.jsonrpc, Version::V1);
    assert_eq!(v1.method, "ping");
    assert_eq!(v1.params, Params::ByPosition(vec![]));
    let v2 = Request::new_v2("ping");
    assert_eq!(v2.id, Id::Number(0));
    assert_eq!(v2.jsonrpc, Version::V2);
    assert_eq!(v2.params, Params::ByName(vec![]));
    assert_eq!(Request::new(Version::V1, "ping"), v1);
    assert_eq!(Request::new(Version::V2, "ping"), v2);
}

#[test]
fn zero_argument_requests_on_the_wire() {
    assert_eq!(
        Request::new_v2("ping").serialize().unwrap(),
        r#"{"id":0,"jsonrpc":"2.0","method":"ping"}"#
    );
    assert_eq!(
        Request::new_v1("ping").serialize().unwrap(),
        r#"{"id":0,"jsonrpc":"1.0","method":"ping","params":[]}"#
    );
}

#[test]
fn with_argument_binds_a_name_once() {
    let request = Request::new_v2("set")
        .with_argument("a".to_owned(), serde_json::to_value(1))
        .unwrap()
        .with_argument("b".to_owned(), serde_json::to_value("x"))
        .unwrap()
        .with_argument("a".to_owned(), serde_json::to_value(3))
        .unwrap();
    assert_eq!(
        request.params,
        Params::ByName(vec![
            ("a".to_owned(), number("3")),
            ("b".to_owned(), Json::String("x".to_owned())),
        ])
    );
    assert_eq!(
        request.serialize().unwrap(),
        r#"{"id":0,"jsonrpc":"2.0","method":"set","params":{"a":3,"b":"x"}}"#
    );
}

#[test]
fn with_argument_keeps_the_order_of_positional_arguments() {
    let request = Request::new_v1("f")
        .with_argument("z".to_owned(), serde_json::to_value(vec![1, 2]))
        .unwrap()
        .with_argument("a".to_owned(), serde_json::to_value(Option::<i32>::None))
        .unwrap()
        .with_argument("z".to_owned(), serde_json::to_value(true))
        .unwrap();
    assert_eq!(
        request.serialize().unwrap(),
        r#"{"id":0,"jsonrpc":"1.0","method":"f","params":[[1,2],null,true]}"#
    );
}

#[test]
fn with_argument_hands_back_the_failure_of_the_encoder() {
    let mut unencodable = std::collections::BTreeMap::new();
    unencodable.insert((1, 2), 3);
    let argument = serde_json::to_value(&unencodable);
    let expected = argument.as_ref().unwrap_err().to_string();
    let failure = Request::new_v2("f").with_argument("a".to_owned(), argument).unwrap_err();
    assert_eq!(failure.to_string(), expected);
}

#[test]
fn request_documents() {
    let request = Request::new_v1("subtract")
        .with_argument("first".to_owned(), serde_json::to_value(42))
        .unwrap();
    assert_eq!(
        request.to_document(),
        object(vec![
            ("id", number("0")),
            ("jsonrpc", Json::String("1.0".to_owned())),
            ("method", Json::String("subtract".to_owned())),
            ("params", Json::Array(vec![number("42")])),
        ])
    );
    assert_eq!(
        Request::new_v2("ping").to_document(),
        object(vec![
            ("id", number("0")),
            ("jsonrpc", Json::String("2.0".to_owned())),
            ("method", Json::String("ping".to_owned())),
        ])
    );
}

#[test]
fn requests_round_trip_through_their_documents() {
    let requests = vec![
        Request::new_v1("a"),
        Request::new_v2("b"),
        Request::new_v1("c").with_argument("x".to_owned(), serde_json::to_value(1.5)).unwrap(),
        Request::new_v2("d").with_argument("x".to_owned(), serde_json::to_value("y")).unwrap(),
        Request {
            id: Id::String("abc".to_owned()),
            jsonrpc: Version::V1,
            method: "e".to_owned(),
            params: Params::ByName(vec![("k".to_owned(), Json::Null)]),
        },
        Request {
            id: Id::Number(i64::MIN),
            jsonrpc: Version::V2,
            method: "f".to_owned(),
            params: Params::ByPosition(vec![Json::Bool(true)]),
        },
    ];
    for request in requests {
        assert_eq!(Request::from_document(&request.to_document()), Ok(request.clone()));
        assert_eq!(Request::parse(&request.serialize().unwrap()).unwrap(), request);
    }
}

#[test]
fn request_faults() {
    assert_eq!(Request::from_document(&Json::Array(vec![])), Err(RequestFault::NotAnObject));
    assert_eq!(Request::from_document(&object(vec![])), Err(RequestFault::InvalidId));
    assert_eq!(
        Request::from_document(&object(vec![("id", Json::Null)])),
        Err(RequestFault::InvalidId)
    );
    assert_eq!(
        Request::from_document(&object(vec![("id", number("0"))])),
        Err(RequestFault::InvalidVersion)
    );
    assert_eq!(
        Request::from_document(&object(vec![
            ("id", number("0")),
            ("jsonrpc", Json::String("3.0".to_owned())),
        ])),
        Err(RequestFault::InvalidVersion)
    );
    assert_eq!(
        Request::from_document(&object(vec![
            ("id", number("0")),
            ("jsonrpc", Json::String("2.0".to_owned())),
        ])),
        Err(RequestFault::InvalidMethod)
    );
    assert_eq!(
        Request::from_document(&object(vec![
            ("id", number("0")),
            ("jsonrpc", Json::String("2.0".to_owned())),
            ("method", Json::String("".to_owned())),
        ])),
        Err(RequestFault::InvalidMethod)
    );
    assert_eq!(
        Request::from_document(&object(vec![
            ("id", number("0")),
            ("jsonrpc", Json::String("2.0".to_owned())),
            ("method", Json::String("m".to_owned())),
            ("params", number("1")),
        ])),
        Err(RequestFault::InvalidParams)
    );
    assert!(Request::parse("[]").is_err());
    assert!(Request::parse("{").is_err());
    assert_eq!(
        Request::parse(r#"{"id":0}"#).unwrap_err().to_string(),
        RequestFault::InvalidVersion.message()
    );
}

#[test]
fn error_text_follows_the_display_contract() {
    let error =
        JsonRpcError { code: -6, message: "Insufficient funds".to_owned(), data: None };
    assert_eq!(error.to_string(), "request failed with code -6: Insufficient funds");
    let error = JsonRpcError { code: 0, message: "".to_owned(), data: Some(Json::Null) };
    assert_eq!(error.to_string(), "request failed with code 0: ");
}

#[test]
fn error_documents() {
    let error = JsonRpcError { code: 1010, message: "m".to_owned(), data: None };
    assert_eq!(
        error.to_document(),
        object(vec![
            ("code", number("1010")),
            ("message", Json::String("m".to_owned())),
            ("data", Json::Null),
        ])
    );
    assert_eq!(JsonRpcError::from_document(&error.to_document()), Some(error));
    assert_eq!(JsonRpcError::from_document(&Json::Array(vec![number("1")])), None);
    assert_eq!(JsonRpcError::from_document(&object(vec![("code", number("1"))])), None);
    assert_eq!(
        JsonRpcError::from_document(&object(vec![
            ("code", number("1.5")),
            ("message", Json::String("m".to_owned())),
        ])),
        None
    );
    assert_eq!(
        JsonRpcError::from_document(&object(vec![
            ("code", Json::String("1".to_owned())),
            ("message", Json::String("m".to_owned())),
        ])),
        None
    );
    assert_eq!(
        JsonRpcError::from_document(&object(vec![
            ("message", Json::String("m".to_owned())),
            ("extra", Json::Bool(true)),
            ("code", number("-1")),
            ("data", Json::Array(vec![])),
        ])),
        Some(JsonRpcError { code: -1, message: "m".to_owned(), data: Some(Json::Array(vec![])) })
    );
}

#[test]
fn payload_with_both_members_is_the_malformed_envelope_error() {
    let payload = ResponsePayload {
        result: Some(1),
        error: Some(JsonRpcError { code: 5, message: "m".to_owned(), data: None }),
    };
    assert_eq!(
        payload.into_result(),
        Err(JsonRpcError {
            code: -32603,
            message: "both result and error present".to_owned(),
            data: None,
        })
    );
}

#[test]
fn payload_with_neither_member_is_the_malformed_envelope_error() {
    let payload: ResponsePayload<i32> = ResponsePayload { result: None, error: None };
    assert_eq!(
        Result::from(payload),
        Err(JsonRpcError {
            code: -32603,
            message: "neither result nor error present".to_owned(),
            data: None,
        })
    );
}

#[test]
fn payload_with_one_member_is_that_member() {
    let payload: ResponsePayload<i32> = ResponsePayload { result: Some(7), error: None };
    assert_eq!(payload.into_result(), Ok(7));
    let error = JsonRpcError { code: 5, message: "m".to_owned(), data: Some(Json::Bool(true)) };
    let payload: ResponsePayload<i32> =
        ResponsePayload { result: None, error: Some(JsonRpcError { code: 5, message: "m".to_owned(), data: Some(Json::Bool(true)) }) };
    assert_eq!(payload.into_result(), Err(error));
}

#[test]
fn decoding_both_result_and_error_gives_the_reserved_code() {
    let json = r#"{"id":1,"result":19,"error":{"code":-6,"message":"Insufficient funds"}}"#;
    let response = Response::<i32>::decode(json, serde_json::from_value).unwrap();
    let outcome = Result::from(response.payload).unwrap_err();
    assert_eq!(outcome.code, -32603);
    assert_eq!(outcome.message, "both result and error present");
    assert_eq!(outcome.data, None);
}

#[test]
fn decoding_neither_result_nor_error_gives_the_reserved_code() {
    for json in [r#"{"id":1}"#, r#"{"id":1,"result":null}"#, r#"{"id":1,"result":null,"error":null}"#] {
        let response = Response::<i32>::decode(json, serde_json::from_value).unwrap();
        let outcome = Result::from(response.payload).unwrap_err();
        assert_eq!(outcome.code, -32603);
        assert_eq!(outcome.message, "neither result nor error present");
    }
}

#[test]
fn decoding_does_not_depend_on_the_order_of_the_members() {
    let orders = [
        r#"{"id":"7","jsonrpc":"2.0","result":[1,2]}"#,
        r#"{"result":[1,2],"id":"7","jsonrpc":"2.0"}"#,
        r#"{"jsonrpc":"2.0","result":[1,2],"id":"7"}"#,
        r#"{"result":[1,2],"jsonrpc":"2.0","id":"7","other":{"id":3}}"#,
    ];
    for json in orders {
        let response = Response::<Vec<u8>>::decode(json, serde_json::from_value).unwrap();
        assert_eq!(response.id, Id::String("7".to_owned()));
        assert_eq!(response.jsonrpc, Some(Version::V2));
        assert_eq!(Result::from(response.payload), Ok(vec![1, 2]));
    }
}

#[test]
fn decoding_fails_where_the_result_is_not_of_the_declared_type() {
    let json = r#"{"jsonrpc":"2.0","result":"nineteen","id":1}"#;
    assert!(Response::<i32>::decode(json, serde_json::from_value).is_err());
    assert!(Response::<String>::decode(json, serde_json::from_value).is_ok());
    let json = r#"{"error":{"code":1,"message":"m"},"result":"nineteen","id":1}"#;
    assert!(Response::<i32>::decode(json, serde_json::from_value).is_err());
}

#[test]
fn envelope_faults() {
    assert_eq!(Response::from_document(&number("1")), Err(EnvelopeFault::NotAnObject));
    assert_eq!(Response::from_document(&object(vec![])), Err(EnvelopeFault::MissingId));
    assert_eq!(
        Response::from_document(&object(vec![("id", Json::Null)])),
        Err(EnvelopeFault::InvalidId)
    );
    assert_eq!(
        Response::from_document(&object(vec![("id", number("1.5"))])),
        Err(EnvelopeFault::InvalidId)
    );
    assert_eq!(
        Response::from_document(&object(vec![("id", number("1")), ("jsonrpc", number("2"))])),
        Err(EnvelopeFault::InvalidVersion)
    );
    assert_eq!(
        Response::from_document(&object(vec![
            ("id", number("1")),
            ("jsonrpc", Json::String("2".to_owned())),
        ])),
        Err(EnvelopeFault::InvalidVersion)
    );
    assert_eq!(
        Response::from_document(&object(vec![
            ("id", number("1")),
            ("error", Json::String("failed".to_owned())),
        ])),
        Err(EnvelopeFault::InvalidError)
    );
    assert_eq!(
        Response::from_document(&object(vec![
            ("id", number("1")),
            ("error", object(vec![("code", number("1"))])),
        ])),
        Err(EnvelopeFault::InvalidError)
    );
    for text in ["", "[]", r#"{"result":1}"#, r#"{"id":1,"jsonrpc":"3.0"}"#, r#"{"id":1,"error":[]}"#] {
        assert!(Response::parse(text).is_err());
        assert!(Response::<i32>::decode(text, serde_json::from_value).is_err());
    }
    assert_eq!(
        Response::parse(r#"{"result":1}"#).unwrap_err().to_string(),
        EnvelopeFault::MissingId.message()
    );
}

#[test]
fn envelope_reads_null_as_missing() {
    let response =
        Response::parse(r#"{"id":1,"jsonrpc":null,"result":null,"error":null}"#).unwrap();
    assert_eq!(
        response,
        Response {
            id: Id::Number(1),
            jsonrpc: None,
            payload: ResponsePayload { result: None, error: None },
        }
    );
}

#[test]
fn response_constructors() {
    let error = || JsonRpcError { code: 1, message: "m".to_owned(), data: None };
    assert_eq!(
        Response::new_v1_result(Id::Number(1), 5),
        Response {
            id: Id::Number(1),
            jsonrpc: Some(Version::V1),
            payload: ResponsePayload { result: Some(5), error: None },
        }
    );
    assert_eq!(
        Response::new_v2_result(Id::String("a".to_owned()), "r"),
        Response {
            id: Id::String("a".to_owned()),
            jsonrpc: Some(Version::V2),
            payload: ResponsePayload { result: Some("r"), error: None },
        }
    );
    assert_eq!(
        Response::<i32>::new_v1_error(Id::Number(2), error()),
        Response {
            id: Id::Number(2),
            jsonrpc: Some(Version::V1),
            payload: ResponsePayload { result: None, error: Some(error()) },
        }
    );
    assert_eq!(
        Response::<i32>::new_v2_error(Id::Number(3), error()),
        Response {
            id: Id::Number(3),
            jsonrpc: Some(Version::V2),
            payload: ResponsePayload { result: None, error: Some(error()) },
        }
    );
}

#[test]
fn responses_round_trip_through_their_documents() {
    let responses = vec![
        Response::new_v1_result(Id::Number(1), number("19")),
        Response::new_v2_result(Id::String("x".to_owned()), Json::Array(vec![Json::Bool(true)])),
        Response::new_v1_error(
            Id::Number(-4),
            JsonRpcError { code: -6, message: "m".to_owned(), data: None },
        ),
        Response::new_v2_error(
            Id::Number(0),
            JsonRpcError { code: 7, message: "".to_owned(), data: Some(number("1.5")) },
        ),
        Response {
            id: Id::Number(9),
            jsonrpc: None,
            payload: ResponsePayload {
                result: Some(Json::String("r".to_owned())),
                error: Some(JsonRpcError { code: 1, message: "m".to_owned(), data: None }),
            },
        },
        Response {
            id: Id::Number(9),
            jsonrpc: None,
            payload: ResponsePayload { result: None, error: None },
        },
    ];
    for response in responses {
        let document = response.to_document();
        assert_eq!(Response::from_document(&document).as_ref(), Ok(&response));
        assert_eq!(Response::parse(&response.serialize().unwrap()).unwrap(), response);
    }
}

#[test]
fn response_documents_write_every_member() {
    let response = Response::new_v1_result(Id::Number(1), number("1"));
    assert_eq!(
        response.to_document(),
        object(vec![
            ("id", number("1")),
            ("jsonrpc", Json::String("1.0".to_owned())),
            ("result", number("1")),
            ("error", Json::Null),
        ])
    );
}

#[test]
fn typed_hands_the_result_to_the_decoder() {
    let response = Response::new_v2_result(Id::Number(1), Json::Array(vec![number("1")]));
    let typed = response.typed(serde_json::from_value::<Vec<i64>>).unwrap();
    assert_eq!(typed, Response::new_v2_result(Id::Number(1), vec![1]));
    let response = Response::new_v2_result(Id::Number(1), number("not a number"));
    assert!(response.typed(serde_json::from_value::<i64>).is_err());
    let response: Response<Json> = Response::new_v2_error(
        Id::Number(1),
        JsonRpcError { code: 1, message: "m".to_owned(), data: None },
    );
    let typed = response
        .typed(|_| -> Result<i64, serde_json::Error> { panic!("there is no result to decode") })
        .unwrap();
    assert_eq!(typed.payload.result, None);
}

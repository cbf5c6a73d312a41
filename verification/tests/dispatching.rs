use jsonrpc_client::{
    api, dispatch, implement, Accessor, Argument, Convention, Dispatcher, Endpoint, Error, Field,
    Id, Interface, Item, Json, Layout, Literal, Method, Request, Response, SendRequest, Setting,
    Url,
};
use std::cell::Cell;

/// A transport that records the request and answers with a canned text.
#[derive(Default)]
struct InnerClient {
    next_response: Cell<Option<String>>,
    recorded_request: Cell<Option<String>>,
}

impl InnerClient {
    fn with_next_response(response: Response<Json>) -> Self {
        Self {
            next_response: Cell::new(Some(response.serialize().unwrap())),
            recorded_request: Cell::new(None),
        }
    }

    fn take_recorded_request(&self) -> String {
        self.recorded_request.take().unwrap()
    }
}

#[derive(Debug)]
struct DummyError;

impl SendRequest for InnerClient {
    type Error = DummyError;

    fn send_request(&self, _: Url, request: String) -> Result<String, Self::Error> {
        self.recorded_request.set(Some(request));
        let response = self.next_response.replace(None).unwrap();

        Ok(response)
    }
}

fn example_dot_org() -> Url {
    "http://example.org".parse().unwrap()
}

fn number(value: i64) -> Json {
    Json::Number(value.to_string())
}

fn math(version: Option<&str>) -> Interface {
    Interface {
        setting: version.map(|version| Setting {
            key: "version".to_owned(),
            value: Literal::Text(version.to_owned()),
        }),
        convention: Convention::Blocking,
        items: vec![Item::Method(Method {
            name: "subtract".to_owned(),
            arguments: vec![
                Argument::Receiver,
                Argument::Named { name: "subtrahend".to_owned(), encodable: true },
                Argument::Named { name: "minuend".to_owned(), encodable: true },
            ],
            has_output: true,
            convention: Convention::Blocking,
            has_default: false,
        })],
    }
}

fn named_field(name: &str) -> Field {
    Field { name: Some(name.to_owned()), attributes: vec![] }
}

fn derive_on_named_inner() -> Layout {
    Layout { fields: vec![named_field("inner"), named_field("base_url")] }
}

fn derive_on_named_inner_multiple_fields() -> Layout {
    Layout { fields: vec![named_field("inner"), named_field("base_url"), named_field("_foobar")] }
}

fn subtract_with(dispatcher: &Dispatcher, client: &InnerClient) -> Result<i64, Error<DummyError>> {
    dispatch(
        dispatcher,
        0,
        client,
        example_dot_org(),
        vec![serde_json::to_value(5), serde_json::to_value(4)],
        serde_json::from_value,
    )
}

#[test]
fn test_impls_math_api() {
    assert!(api(&math(Some("1.0"))).is_ok());
    assert!(api(&math(Some("2.0"))).is_ok());
    assert!(api(&math(None)).is_ok());
    let bound = implement(&derive_on_named_inner()).unwrap();
    assert_eq!(bound.transport, Accessor { index: 0, name: Some("inner".to_owned()) });
    assert_eq!(bound.endpoint, Endpoint::Field(Accessor { index: 1, name: Some("base_url".to_owned()) }));
    let bound = implement(&derive_on_named_inner_multiple_fields()).unwrap();
    assert_eq!(bound.transport, Accessor { index: 0, name: Some("inner".to_owned()) });
    assert_eq!(bound.endpoint, Endpoint::Field(Accessor { index: 1, name: Some("base_url".to_owned()) }));
}

#[test]
fn creates_correct_v1_request() {
    let dispatcher = api(&math(Some("1.0"))).unwrap();
    let client = InnerClient::with_next_response(Response::new_v1_result(Id::Number(1), number(1)));

    let result = subtract_with(&dispatcher, &client).unwrap();

    assert_eq!(result, 1);
    assert_eq!(
        client.take_recorded_request(),
        r#"{"id":0,"jsonrpc":"1.0","method":"subtract","params":[5,4]}"#
    );
}

#[test]
fn creates_correct_v2_request() {
    let dispatcher = api(&math(Some("2.0"))).unwrap();
    let client = InnerClient::with_next_response(Response::new_v2_result(Id::Number(1), number(1)));

    let result = subtract_with(&dispatcher, &client).unwrap();

    assert_eq!(result, 1);
    assert_eq!(
        client.take_recorded_request(),
        r#"{"id":0,"jsonrpc":"2.0","method":"subtract","params":{"minuend":4,"subtrahend":5}}"#
    );
}

#[test]
fn creates_correct_v2_default_request() {
    let dispatcher = api(&math(None)).unwrap();
    let client = InnerClient::with_next_response(Response::new_v2_result(Id::Number(1), number(1)));

    let result = subtract_with(&dispatcher, &client).unwrap();

    assert_eq!(result, 1);
    assert_eq!(
        client.take_recorded_request(),
        r#"{"id":0,"jsonrpc":"2.0","method":"subtract","params":{"minuend":4,"subtrahend":5}}"#
    );
}

#[test]
fn creates_correct_request() {
    let dispatcher = api(&math(None)).unwrap();
    let client = InnerClient::with_next_response(Response::new_v2_result(Id::Number(1), number(1)));

    let result = subtract_with(&dispatcher, &client).unwrap();

    assert_eq!(result, 1);
    let expected = Request::new_v2("subtract")
        .with_argument("subtrahend".to_owned(), serde_json::to_value(5))
        .unwrap()
        .with_argument("minuend".to_owned(), serde_json::to_value(4))
        .unwrap();
    assert_eq!(client.take_recorded_request(), expected.serialize().unwrap());
}

#[test]
fn subtract() {
    let dispatcher = api(&math(None)).unwrap();
    let client = InnerClient::with_next_response(Response {
        id: Id::Number(1),
        jsonrpc: Some(jsonrpc_client::Version::V2),
        payload: jsonrpc_client::ResponsePayload { result: Some(number(1)), error: None },
    });

    let result = subtract_with(&dispatcher, &client).unwrap();

    assert_eq!(result, 1);
    let recorded = Request::parse(&client.take_recorded_request()).unwrap();
    assert_eq!(recorded.method, "subtract");
    assert_eq!(recorded.id, Id::Number(0));
    assert_eq!(
        recorded.params,
        jsonrpc_client::Params::ByName(vec![
            ("minuend".to_owned(), number(4)),
            ("subtrahend".to_owned(), number(5)),
        ])
    );
}

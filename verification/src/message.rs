//! Requests: identifiers, protocol versions, parameter sets, and the
//! document that a request is written as.

use crate::codec::{custom_error, json_from_value, rendered, text_document, value_document};
use crate::decimal::{decimal, decimal_text};
use crate::json::{
    clone_items, clone_members, field, integer_of, items_view, lemma_view_of_parts, members_view,
    Json, JsonValue,
};
use crate::text::same_text;
use vstd::prelude::*;
use vstd::string::*;

verus! {

/// The identifier of a request, echoed by the response.
#[derive(Debug, Clone, PartialEq)]
pub enum Id {
    Number(i64),
    String(String),
}

pub ghost enum IdView {
    Number(int),
    String(Seq<char>),
}

impl View for Id {
    type V = IdView;

    open spec fn view(&self) -> IdView {
        match self {
            Id::Number(n) => IdView::Number(*n as int),
            Id::String(s) => IdView::String(s@),
        }
    }
}

/// The protocol version.
#[derive(Debug, Clone, Copy, PartialEq, Eq, Structural)]
pub enum Version {
    V1,
    V2,
}

/// The arguments of a request: in order, or by name.
#[derive(Debug, Clone, PartialEq)]
pub enum Params {
    ByPosition(Vec<Json>),
    ByName(Vec<(String, Json)>),
}

pub ghost enum ParamsView {
    ByPosition(Seq<JsonValue>),
    ByName(Seq<(Seq<char>, JsonValue)>),
}

impl View for Params {
    type V = ParamsView;

    open spec fn view(&self) -> ParamsView {
        match self {
            Params::ByPosition(items) => ParamsView::ByPosition(items_view(items@)),
            Params::ByName(members) => ParamsView::ByName(members_view(members@)),
        }
    }
}

/// A request.
#[derive(Debug, Clone, PartialEq)]
pub struct Request {
    pub id: Id,
    pub jsonrpc: Version,
    pub method: String,
    pub params: Params,
}

pub ghost struct RequestView {
    pub id: IdView,
    pub jsonrpc: Version,
    pub method: Seq<char>,
    pub params: ParamsView,
}

impl View for Request {
    type V = RequestView;

    open spec fn view(&self) -> RequestView {
        RequestView {
            id: self.id@,
            jsonrpc: self.jsonrpc,
            method: self.method@,
            params: self.params@,
        }
    }
}

/// Why a document is no request.
#[derive(Debug, Clone, Copy, PartialEq, Eq, Structural)]
pub enum RequestFault {
    NotAnObject,
    InvalidId,
    InvalidVersion,
    InvalidMethod,
    InvalidParams,
}

/// The text of a version on the wire.
pub open spec fn version_text(version: Version) -> Seq<char> {
    match version {
        Version::V1 => "1.0"@,
        Version::V2 => "2.0"@,
    }
}

/// The version that a text stands for.
pub open spec fn version_of_text(text: Seq<char>) -> Option<Version> {
    if text == "1.0"@ {
        Some(Version::V1)
    } else if text == "2.0"@ {
        Some(Version::V2)
    } else {
        None
    }
}

/// The two version texts differ.
pub proof fn lemma_version_texts()
    ensures
        "1.0"@ != "2.0"@,
        forall|version: Version| version_of_text(#[trigger] version_text(version)) == Some(version),
{
    reveal_strlit("1.0");
    reveal_strlit("2.0");
    assert("1.0"@[0] != "2.0"@[0]);
}

/// The document of an identifier: a number in decimal, or a string.
pub open spec fn id_document(id: IdView) -> JsonValue {
    match id {
        IdView::Number(n) => JsonValue::Number(decimal(n)),
        IdView::String(s) => JsonValue::String(s),
    }
}

/// The identifier that a document stands for: a number that is a 64-bit
/// integer, or a string.
pub open spec fn id_of(document: JsonValue) -> Option<IdView> {
    match document {
        JsonValue::Number(_) => match integer_of(document) {
            Some(n) => Some(IdView::Number(n)),
            None => None,
        },
        JsonValue::String(text) => Some(IdView::String(text)),
        _ => None,
    }
}

/// The members that every request document starts with.
pub open spec fn request_head(request: RequestView) -> Seq<(Seq<char>, JsonValue)> {
    seq![
        ("id"@, id_document(request.id)),
        ("jsonrpc"@, JsonValue::String(version_text(request.jsonrpc))),
        ("method"@, JsonValue::String(request.method)),
    ]
}

/// The document of a request. Arguments in order are written as an array,
/// arguments by name as an object; where there are none by name, the
/// document has no `params` member.
pub open spec fn request_document(request: RequestView) -> JsonValue {
    match request.params {
        ParamsView::ByPosition(items) => JsonValue::Object(
            request_head(request).push(("params"@, JsonValue::Array(items))),
        ),
        ParamsView::ByName(members) => if members.len() == 0 {
            JsonValue::Object(request_head(request))
        } else {
            JsonValue::Object(request_head(request).push(("params"@, JsonValue::Object(members))))
        },
    }
}

/// The parameter set that a document's `params` member stands for: none by
/// name where it is missing, else what an array or an object holds.
pub open spec fn params_of(document: Option<JsonValue>) -> Option<ParamsView> {
    match document {
        None => Some(ParamsView::ByName(Seq::empty())),
        Some(JsonValue::Array(items)) => Some(ParamsView::ByPosition(items)),
        Some(JsonValue::Object(members)) => Some(ParamsView::ByName(members)),
        _ => None,
    }
}

/// The request that a document stands for.
pub open spec fn request_of(document: JsonValue) -> Result<RequestView, RequestFault> {
    if !(document is Object) {
        Err(RequestFault::NotAnObject)
    } else {
        match field(document, "id"@) {
            Some(id) if id_of(id) is Some => match field(document, "jsonrpc"@) {
                Some(JsonValue::String(version)) if version_of_text(version) is Some => match field(
                    document,
                    "method"@,
                ) {
                    Some(JsonValue::String(method)) if method.len() > 0 => match params_of(
                        field(document, "params"@),
                    ) {
                        Some(params) => Ok(
                            RequestView {
                                id: id_of(id)->0,
                                jsonrpc: version_of_text(version)->0,
                                method,
                                params,
                            },
                        ),
                        None => Err(RequestFault::InvalidParams),
                    },
                    _ => Err(RequestFault::InvalidMethod),
                },
                _ => Err(RequestFault::InvalidVersion),
            },
            _ => Err(RequestFault::InvalidId),
        }
    }
}

/// The position of the first member of a name, or the number of members
/// where there is none.
pub open spec fn position(members: Seq<(Seq<char>, JsonValue)>, name: Seq<char>) -> int
    decreases members.len(),
{
    if members.len() == 0 {
        0
    } else if members[0].0 == name {
        0
    } else {
        1 + position(members.drop_first(), name)
    }
}

/// The members with one more binding: in place of the first member of that
/// name, or at the end where there is none.
pub open spec fn bind(members: Seq<(Seq<char>, JsonValue)>, name: Seq<char>, value: JsonValue) -> Seq<
    (Seq<char>, JsonValue),
> {
    let at = position(members, name);
    if at < members.len() {
        members.update(at, (name, value))
    } else {
        members.push((name, value))
    }
}

/// The parameter set with one more argument: appended where arguments go in
/// order, bound to its name where they go by name.
pub open spec fn with_param(params: ParamsView, name: Seq<char>, value: JsonValue) -> ParamsView {
    match params {
        ParamsView::ByPosition(items) => ParamsView::ByPosition(items.push(value)),
        ParamsView::ByName(members) => ParamsView::ByName(bind(members, name, value)),
    }
}

/// The position of a name is the first index that holds it.
pub proof fn lemma_position(members: Seq<(Seq<char>, JsonValue)>, name: Seq<char>, at: int)
    requires
        0 <= at <= members.len(),
        forall|j: int| 0 <= j < at ==> (#[trigger] members[j]).0 != name,
        at < members.len() ==> members[at].0 == name,
    ensures
        position(members, name) == at,
    decreases members.len(),
{
    if members.len() > 0 && at > 0 {
        let rest = members.drop_first();
        assert(members[0].0 != name);
        assert forall|j: int| 0 <= j < at - 1 implies (#[trigger] rest[j]).0 != name by {
            assert(rest[j] == members[j + 1]);
        }
        lemma_position(rest, name, at - 1);
    }
}

impl Version {
    /// The text of the version on the wire.
    pub fn as_str(&self) -> (r: &'static str)
        ensures
            r@ == version_text(*self),
    {
        match self {
            Version::V1 => "1.0",
            Version::V2 => "2.0",
        }
    }

    /// The version that a text stands for.
    pub fn from_text(text: &str) -> (r: Option<Version>)
        ensures
            r == version_of_text(text@),
    {
        if same_text(text, "1.0") {
            Some(Version::V1)
        } else if same_text(text, "2.0") {
            Some(Version::V2)
        } else {
            None
        }
    }
}

impl Id {
    /// The document of the identifier.
    pub fn to_document(&self) -> (r: Json)
        ensures
            r@ == id_document(self@),
    {
        match self {
            Id::Number(n) => Json::Number(decimal_text(*n)),
            Id::String(s) => Json::String(s.clone()),
        }
    }

    /// The identifier that a document stands for.
    pub fn from_document(document: &Json) -> (r: Option<Id>)
        ensures
            match r {
                Some(id) => id_of(document@) == Some(id@),
                None => id_of(document@) is None,
            },
    {
        match document {
            Json::Number(_) => match document.as_i64() {
                Some(n) => Some(Id::Number(n)),
                None => None,
            },
            Json::String(text) => Some(Id::String(text.clone())),
            _ => None,
        }
    }
}

impl Params {
    /// The parameter set with one more argument.
    pub fn with(self, name: String, value: Json) -> (r: Params)
        ensures
            r@ == with_param(self@, name@, value@),
    {
        match self {
            Params::ByPosition(mut items) => {
                let ghost before = items_view(items@);
                items.push(value);
                assert(items_view(items@) =~= before.push(value@));
                Params::ByPosition(items)
            },
            Params::ByName(mut members) => {
                let ghost before = members_view(members@);
                let mut at: usize = 0;
                while at < members.len() && !same_text(members[at].0.as_str(), name.as_str())
                    invariant
                        at <= members.len(),
                        before == members_view(members@),
                        forall|j: int| 0 <= j < at ==> (#[trigger] before[j]).0 != name@,
                    decreases members.len() - at,
                {
                    at = at + 1;
                }
                proof {
                    lemma_position(before, name@, at as int);
                }
                if at < members.len() {
                    members.set(at, (name, value));
                    assert(members_view(members@) =~= before.update(at as int, (name@, value@)));
                } else {
                    members.push((name, value));
                    assert(members_view(members@) =~= before.push((name@, value@)));
                }
                Params::ByName(members)
            },
        }
    }
}

impl RequestFault {
    /// The words that tell why a document is no request.
    pub fn message(&self) -> (r: &'static str)
        ensures
            r@ == match self {
                RequestFault::NotAnObject => "a request must be an object"@,
                RequestFault::InvalidId => "a request needs an `id` that is an integer or a string"@,
                RequestFault::InvalidVersion => "a request needs a `jsonrpc` of \"1.0\" or \"2.0\""@,
                RequestFault::InvalidMethod => "a request needs a `method` that is a string and not empty"@,
                RequestFault::InvalidParams => "the `params` of a request must be an array or an object"@,
            },
    {
        match self {
            RequestFault::NotAnObject => "a request must be an object",
            RequestFault::InvalidId => "a request needs an `id` that is an integer or a string",
            RequestFault::InvalidVersion => "a request needs a `jsonrpc` of \"1.0\" or \"2.0\"",
            RequestFault::InvalidMethod => "a request needs a `method` that is a string and not empty",
            RequestFault::InvalidParams => "the `params` of a request must be an array or an object",
        }
    }
}

impl Request {
    /// The invariant of a request: its method has a name.
    pub open spec fn wf(&self) -> bool {
        self.method@.len() > 0
    }

    /// A request without arguments, for a version: what [`Request::new_v1`]
    /// or [`Request::new_v2`] gives.
    pub fn new(version: Version, method: &str) -> (r: Request)
        requires
            method@.len() > 0,
        ensures
            r.wf(),
            r@ == (RequestView {
                id: IdView::Number(0),
                jsonrpc: version,
                method: method@,
                params: match version {
                    Version::V1 => ParamsView::ByPosition(Seq::empty()),
                    Version::V2 => ParamsView::ByName(Seq::empty()),
                },
            }),
    {
        match version {
            Version::V1 => Request::new_v1(method),
            Version::V2 => Request::new_v2(method),
        }
    }

    /// A request of version 1.0 without arguments; its arguments go in order.
    pub fn new_v1(method: &str) -> (r: Request)
        requires
            method@.len() > 0,
        ensures
            r.wf(),
            r@ == (RequestView {
                id: IdView::Number(0),
                jsonrpc: Version::V1,
                method: method@,
                params: ParamsView::ByPosition(Seq::empty()),
            }),
    {
        let items: Vec<Json> = Vec::new();
        assert(items_view(items@) =~= Seq::<JsonValue>::empty());
        Request {
            id: Id::Number(0),
            jsonrpc: Version::V1,
            method: method.to_owned(),
            params: Params::ByPosition(items),
        }
    }

    /// A request of version 2.0 without arguments; its arguments go by name.
    pub fn new_v2(method: &str) -> (r: Request)
        requires
            method@.len() > 0,
        ensures
            r.wf(),
            r@ == (RequestView {
                id: IdView::Number(0),
                jsonrpc: Version::V2,
                method: method@,
                params: ParamsView::ByName(Seq::empty()),
            }),
    {
        let members: Vec<(String, Json)> = Vec::new();
        assert(members_view(members@) =~= Seq::<(Seq<char>, JsonValue)>::empty());
        Request {
            id: Id::Number(0),
            jsonrpc: Version::V2,
            method: method.to_owned(),
            params: Params::ByName(members),
        }
    }

    /// The request with one more argument. `argument` is what encoding the
    /// argument gave: its failure is handed back, its value is appended to
    /// the arguments in order or bound to `name` among those by name.
    pub fn with_argument(
        self,
        name: String,
        argument: Result<serde_json::Value, serde_json::Error>,
    ) -> (r: Result<Request, serde_json::Error>)
        ensures
            match argument {
                Ok(value) => r matches Ok(next) && next@ == (RequestView {
                    params: with_param(self@.params, name@, value_document(value)),
                    ..self@
                }) && (self.wf() ==> next.wf()),
                Err(error) => r == Err::<Request, _>(error),
            },
    {
        match argument {
            Ok(value) => {
                let encoded = json_from_value(value);
                Ok(
                    Request {
                        id: self.id,
                        jsonrpc: self.jsonrpc,
                        method: self.method,
                        params: self.params.with(name, encoded),
                    },
                )
            },
            Err(error) => Err(error),
        }
    }

    /// The document of the request.
    pub fn to_document(&self) -> (r: Json)
        ensures
            r@ == request_document(self@),
    {
        let mut members: Vec<(String, Json)> = Vec::new();
        members.push((String::from_str("id"), self.id.to_document()));
        members.push((String::from_str("jsonrpc"), Json::String(String::from_str(self.jsonrpc.as_str()))));
        members.push((String::from_str("method"), Json::String(self.method.clone())));
        assert(members_view(members@) =~= request_head(self@));
        match &self.params {
            Params::ByPosition(items) => {
                let array = Json::Array(clone_items(items));
                proof {
                    lemma_view_of_parts(array);
                }
                members.push((String::from_str("params"), array));
                assert(members_view(members@) =~= request_head(self@).push(
                    ("params"@, JsonValue::Array(items_view(items@))),
                ));
            },
            Params::ByName(named) => {
                if named.len() > 0 {
                    let object = Json::Object(clone_members(named));
                    proof {
                        lemma_view_of_parts(object);
                    }
                    members.push((String::from_str("params"), object));
                    assert(members_view(members@) =~= request_head(self@).push(
                        ("params"@, JsonValue::Object(members_view(named@))),
                    ));
                }
            },
        }
        let r = Json::Object(members);
        proof {
            lemma_view_of_parts(r);
        }
        r
    }

    /// The wire text of the request: `None` of [`rendered`] is the failure of
    /// the encoder.
    pub fn serialize(&self) -> (r: Result<String, serde_json::Error>)
        ensures
            match r {
                Ok(text) => rendered(request_document(self@)) == Some(text@),
                Err(_) => rendered(request_document(self@)) is None,
            },
    {
        self.to_document().render()
    }

    /// The request that a document stands for.
    pub fn from_document(document: &Json) -> (r: Result<Request, RequestFault>)
        ensures
            match r {
                Ok(request) => request_of(document@) == Ok::<_, RequestFault>(request@) && request.wf(),
                Err(fault) => request_of(document@) == Err::<RequestView, _>(fault),
            },
    {
        match document {
            Json::Object(_) => {},
            _ => {
                return Err(RequestFault::NotAnObject);
            },
        }
        let id = match document.get("id") {
            Some(found) => match Id::from_document(found) {
                Some(id) => id,
                None => {
                    return Err(RequestFault::InvalidId);
                },
            },
            None => {
                return Err(RequestFault::InvalidId);
            },
        };
        let jsonrpc = match document.get("jsonrpc") {
            Some(Json::String(text)) => match Version::from_text(text.as_str()) {
                Some(version) => version,
                None => {
                    return Err(RequestFault::InvalidVersion);
                },
            },
            _ => {
                return Err(RequestFault::InvalidVersion);
            },
        };
        let method = match document.get("method") {
            Some(Json::String(text)) => {
                if text.as_str().unicode_len() == 0 {
                    return Err(RequestFault::InvalidMethod);
                }
                text.clone()
            },
            _ => {
                return Err(RequestFault::InvalidMethod);
            },
        };
        let params = match document.get("params") {
            None => {
                let members: Vec<(String, Json)> = Vec::new();
                assert(members_view(members@) =~= Seq::<(Seq<char>, JsonValue)>::empty());
                Params::ByName(members)
            },
            Some(found) => {
                proof {
                    lemma_view_of_parts(*found);
                }
                match found {
                    Json::Array(items) => Params::ByPosition(clone_items(items)),
                    Json::Object(members) => Params::ByName(clone_members(members)),
                    _ => {
                        return Err(RequestFault::InvalidParams);
                    },
                }
            },
        };
        Ok(Request { id, jsonrpc, method, params })
    }

    /// Reads a wire text as a request: a failure where the text is no JSON
    /// or its document is no request.
    pub fn parse(text: &str) -> (r: Result<Request, serde_json::Error>)
        ensures
            match r {
                Ok(request) => text_document(text@) matches Some(document) && request_of(document)
                    == Ok::<_, RequestFault>(request@) && request.wf(),
                Err(_) => text_document(text@) matches Some(document) ==> request_of(document) is Err,
            },
    {
        match Json::parse(text) {
            Ok(document) => match Request::from_document(&document) {
                Ok(request) => Ok(request),
                Err(fault) => Err(custom_error(fault.message())),
            },
            Err(error) => Err(error),
        }
    }
}

} // verus!

//! What holds of the library as a whole, stated over the functions that its
//! contracts use.

use crate::binding::{
    applied, bound, faulty_at, method_fault, no_params, request_for, unencodable_at, BindingView,
    Interface, Item,
};
use crate::codec::text_document;
use crate::decimal::{decimal, lemma_decimal_value};
use crate::dispatch::{answered, concluded};
use crate::error::Error;
use crate::json::{field, integer_of, left_out, member, Json, JsonValue};
use crate::message::{
    bind, id_document, id_of, lemma_version_texts, position, request_document, request_head,
    request_of, version_text, with_param, IdView, ParamsView, RequestFault, RequestView, Version,
};
use crate::resolve::{
    casting, named, none_plays, plays, resolution, several_play, tagged, AccessorView,
    EndpointView, Field, LayoutError, Role,
};
use crate::response::{
    both_message, envelope, error_document, error_members, error_of, error_view, malformed,
    malformed_code, neither_message, optional, or_null, outcome, response_document,
    response_members, EnvelopeFault, JsonRpcError, Response,
};
use vstd::prelude::*;

verus! {

/// A member that is added last decides its name and leaves the others as
/// they were.
pub proof fn lemma_member_push(
    members: Seq<(Seq<char>, JsonValue)>,
    entry: (Seq<char>, JsonValue),
    name: Seq<char>,
)
    ensures
        member(members.push(entry), name) == if entry.0 == name {
            Some(entry.1)
        } else {
            member(members, name)
        },
{
    assert(members.push(entry).drop_last() =~= members);
    assert(members.push(entry).last() == entry);
}

/// The names of the members of a request differ from each other.
proof fn lemma_request_names()
    ensures
        "id"@ != "jsonrpc"@,
        "id"@ != "method"@,
        "id"@ != "params"@,
        "jsonrpc"@ != "method"@,
        "jsonrpc"@ != "params"@,
        "method"@ != "params"@,
{
    reveal_strlit("id");
    reveal_strlit("jsonrpc");
    reveal_strlit("method");
    reveal_strlit("params");
    assert("id"@.len() == 2);
    assert("jsonrpc"@.len() == 7);
    assert("method"@[0] != "params"@[0]);
}

/// The names of the members of a response differ from each other.
proof fn lemma_response_names()
    ensures
        "id"@ != "jsonrpc"@,
        "id"@ != "result"@,
        "id"@ != "error"@,
        "jsonrpc"@ != "result"@,
        "jsonrpc"@ != "error"@,
        "result"@ != "error"@,
        "code"@ != "message"@,
        "code"@ != "data"@,
        "message"@ != "data"@,
{
    reveal_strlit("id");
    reveal_strlit("jsonrpc");
    reveal_strlit("result");
    reveal_strlit("error");
    reveal_strlit("code");
    reveal_strlit("message");
    reveal_strlit("data");
    assert("id"@.len() == 2);
    assert("jsonrpc"@.len() == 7);
    assert("result"@.len() == 6);
    assert("error"@.len() == 5);
    assert("message"@.len() == 7);
    assert("code"@[0] != "data"@[0]);
}

/// The members that a request document starts with give each of their names
/// its value, and `params` none.
proof fn lemma_request_head(request: RequestView)
    ensures
        member(request_head(request), "id"@) == Some(id_document(request.id)),
        member(request_head(request), "jsonrpc"@) == Some(
            JsonValue::String(version_text(request.jsonrpc)),
        ),
        member(request_head(request), "method"@) == Some(JsonValue::String(request.method)),
        member(request_head(request), "params"@) is None,
{
    lemma_request_names();
    let empty = Seq::<(Seq<char>, JsonValue)>::empty();
    let a = ("id"@, id_document(request.id));
    let b = ("jsonrpc"@, JsonValue::String(version_text(request.jsonrpc)));
    let c = ("method"@, JsonValue::String(request.method));
    assert(request_head(request) =~= empty.push(a).push(b).push(c));
    assert forall|name: Seq<char>| #[trigger] member(empty, name) is None by {}
    assert forall|name: Seq<char>| #[trigger]
        member(request_head(request), name) == (if name == "method"@ {
            Some(c.1)
        } else if name == "jsonrpc"@ {
            Some(b.1)
        } else if name == "id"@ {
            Some(a.1)
        } else {
            None
        }) by {
        lemma_member_push(empty, a, name);
        lemma_member_push(empty.push(a), b, name);
        lemma_member_push(empty.push(a).push(b), c, name);
    }
}

/// Whether an identifier is one that a request or a response can hold: its
/// number, if it is one, is a 64-bit integer.
pub open spec fn id_fits(id: IdView) -> bool {
    id matches IdView::Number(n) ==> i64::MIN <= n <= i64::MAX
}

/// An identifier is read back from its document.
pub proof fn law_id_round_trip(id: IdView)
    requires
        id_fits(id),
    ensures
        id_of(id_document(id)) == Some(id),
{
    match id {
        IdView::Number(n) => {
            lemma_decimal_value(n);
        },
        IdView::String(_) => {},
    }
}

/// Round trip of a request: reading the document of a request gives its
/// identifier, version, method and parameters back.
pub proof fn law_request_round_trip(request: RequestView)
    requires
        id_fits(request.id),
        request.method.len() > 0,
    ensures
        request_of(request_document(request)) == Ok::<_, RequestFault>(request),
{
    lemma_request_head(request);
    lemma_request_names();
    lemma_version_texts();
    law_id_round_trip(request.id);
    let head = request_head(request);
    let document = request_document(request);
    match request.params {
        ParamsView::ByPosition(items) => {
            let entry = ("params"@, JsonValue::Array(items));
            lemma_member_push(head, entry, "id"@);
            lemma_member_push(head, entry, "jsonrpc"@);
            lemma_member_push(head, entry, "method"@);
            lemma_member_push(head, entry, "params"@);
        },
        ParamsView::ByName(members) => {
            if members.len() == 0 {
                assert(members =~= Seq::empty());
            } else {
                let entry = ("params"@, JsonValue::Object(members));
                lemma_member_push(head, entry, "id"@);
                lemma_member_push(head, entry, "jsonrpc"@);
                lemma_member_push(head, entry, "method"@);
                lemma_member_push(head, entry, "params"@);
            }
        },
    }
    assert(request_of(document) matches Ok(found) && found == request);
}

/// Round trip of a call: for every bound method with a name and every set
/// of arguments, reading the document of the request that the call sends
/// gives that request back.
pub proof fn law_call_round_trip(version: Version, binding: BindingView, values: Seq<JsonValue>)
    requires
        binding.name.len() > 0,
    ensures
        request_of(request_document(request_for(version, binding, values))) == Ok::<
            _,
            RequestFault,
        >(request_for(version, binding, values)),
{
    law_request_round_trip(request_for(version, binding, values));
}

/// The shape of the parameters on the wire: arguments in order are written
/// as an array, arguments by name as an object, and no argument by name as
/// no `params` member at all.
pub proof fn law_params_shape(request: RequestView)
    ensures
        match request.params {
            ParamsView::ByPosition(items) => field(request_document(request), "params"@) == Some(
                JsonValue::Array(items),
            ),
            ParamsView::ByName(members) => if members.len() == 0 {
                field(request_document(request), "params"@) is None
            } else {
                field(request_document(request), "params"@) == Some(JsonValue::Object(members))
            },
        },
{
    lemma_request_head(request);
    let head = request_head(request);
    match request.params {
        ParamsView::ByPosition(items) => {
            lemma_member_push(head, ("params"@, JsonValue::Array(items)), "params"@);
        },
        ParamsView::ByName(members) => {
            if members.len() > 0 {
                lemma_member_push(head, ("params"@, JsonValue::Object(members)), "params"@);
            }
        },
    }
}

/// Adding an argument keeps the way in which arguments go, and arguments by
/// name are never none after it.
pub proof fn law_shape_kept(params: ParamsView, name: Seq<char>, value: JsonValue)
    ensures
        with_param(params, name, value) is ByPosition <==> params is ByPosition,
        with_param(params, name, value) matches ParamsView::ByName(members) ==> members.len() > 0,
{
    match params {
        ParamsView::ByPosition(_) => {},
        ParamsView::ByName(members) => {
            lemma_position_is_first(members, name);
        },
    }
}

/// Whether no name occurs twice among the members.
pub open spec fn distinct_names(members: Seq<(Seq<char>, JsonValue)>) -> bool {
    forall|i: int, j: int|
        0 <= i < j < members.len() ==> (#[trigger] members[i]).0 != (#[trigger] members[j]).0
}

/// Where no member has a name, the name has no value.
pub proof fn lemma_member_absent(members: Seq<(Seq<char>, JsonValue)>, name: Seq<char>)
    requires
        forall|j: int| 0 <= j < members.len() ==> (#[trigger] members[j]).0 != name,
    ensures
        member(members, name) is None,
    decreases members.len(),
{
    if members.len() > 0 {
        let shorter = members.drop_last();
        assert(members.last() == members[members.len() - 1]);
        assert forall|j: int| 0 <= j < shorter.len() implies (#[trigger] shorter[j]).0 != name by {
            assert(shorter[j] == members[j]);
        }
        lemma_member_absent(shorter, name);
    }
}

/// Where no name occurs twice, every member is the value of its name.
pub proof fn lemma_member_present(members: Seq<(Seq<char>, JsonValue)>, at: int)
    requires
        distinct_names(members),
        0 <= at < members.len(),
    ensures
        member(members, members[at].0) == Some(members[at].1),
    decreases members.len(),
{
    let last = members.len() - 1;
    if at < last {
        let shorter = members.drop_last();
        assert(members.last() == members[last]);
        assert(members[at].0 != members[last].0);
        assert(shorter[at] == members[at]);
        assert forall|i: int, j: int| 0 <= i < j < shorter.len() implies (#[trigger] shorter[i]).0
            != (#[trigger] shorter[j]).0 by {
            assert(shorter[i] == members[i]);
            assert(shorter[j] == members[j]);
        }
        lemma_member_present(shorter, at);
    }
}

/// The position of a name is the first index that holds it, or the number of
/// members where none does.
pub proof fn lemma_position_is_first(members: Seq<(Seq<char>, JsonValue)>, name: Seq<char>)
    ensures
        0 <= position(members, name) <= members.len(),
        forall|j: int| 0 <= j < position(members, name) ==> (#[trigger] members[j]).0 != name,
        position(members, name) < members.len() ==> members[position(members, name)].0 == name,
    decreases members.len(),
{
    if members.len() > 0 && members[0].0 != name {
        let rest = members.drop_first();
        lemma_position_is_first(rest, name);
        assert forall|j: int| 0 <= j < position(members, name) implies (#[trigger] members[j]).0
            != name by {
            if j > 0 {
                assert(rest[j - 1] == members[j]);
            }
        }
        if position(members, name) < members.len() {
            assert(rest[position(rest, name)] == members[position(members, name)]);
        }
    }
}

/// Binding a name works as in a mapping: where no name occurs twice, none
/// does afterwards, the name has the new value, every other name keeps its
/// own, and the number of members grows by one exactly where the name is new.
pub proof fn law_bind_is_insert(
    members: Seq<(Seq<char>, JsonValue)>,
    name: Seq<char>,
    value: JsonValue,
    other: Seq<char>,
)
    requires
        distinct_names(members),
    ensures
        distinct_names(bind(members, name, value)),
        member(bind(members, name, value), name) == Some(value),
        other != name ==> member(bind(members, name, value), other) == member(members, other),
        bind(members, name, value).len() == if member(members, name) is Some {
            members.len()
        } else {
            members.len() + 1
        },
{
    lemma_position_is_first(members, name);
    let at = position(members, name);
    let after = bind(members, name, value);
    if at < members.len() {
        assert forall|i: int, j: int| 0 <= i < j < after.len() implies (#[trigger] after[i]).0 != (
        #[trigger] after[j]).0 by {
            assert(after[i].0 == members[i].0);
            assert(after[j].0 == members[j].0);
        }
        lemma_member_present(after, at);
        lemma_member_present(members, at);
        if other != name {
            assert forall|j: int|
                0 <= j < members.len() && (#[trigger] members[j]).0 == other implies members[j]
                == after[j] by {
                assert(j != at);
            }
            lemma_member_kept(members, after, other);
        }
    } else {
        lemma_member_absent(members, name);
        lemma_member_push(members, (name, value), name);
        lemma_member_push(members, (name, value), other);
        assert forall|i: int, j: int| 0 <= i < j < after.len() implies (#[trigger] after[i]).0 != (
        #[trigger] after[j]).0 by {
            if j < members.len() {
                assert(after[i] == members[i]);
                assert(after[j] == members[j]);
            } else {
                assert(after[i] == members[i]);
            }
        }
    }
}

/// Two sequences of members that differ only in the values of one name give
/// every other name the same value.
proof fn lemma_member_kept(
    before: Seq<(Seq<char>, JsonValue)>,
    after: Seq<(Seq<char>, JsonValue)>,
    other: Seq<char>,
)
    requires
        before.len() == after.len(),
        forall|j: int| 0 <= j < before.len() ==> (#[trigger] before[j]).0 == after[j].0,
        forall|j: int|
            0 <= j < before.len() && (#[trigger] before[j]).0 == other ==> before[j] == after[j],
    ensures
        member(after, other) == member(before, other),
    decreases before.len(),
{
    if before.len() > 0 {
        let last = before.len() - 1;
        assert(before.last() == before[last]);
        assert(after.last() == after[last]);
        let shorter_before = before.drop_last();
        let shorter_after = after.drop_last();
        assert forall|j: int| 0 <= j < shorter_before.len() implies (#[trigger] shorter_before[j]).0
            == shorter_after[j].0 by {
            assert(shorter_before[j] == before[j]);
            assert(shorter_after[j] == after[j]);
        }
        assert forall|j: int|
            0 <= j < shorter_before.len() && (#[trigger] shorter_before[j]).0
                == other implies shorter_before[j] == shorter_after[j] by {
            assert(shorter_before[j] == before[j]);
            assert(shorter_after[j] == after[j]);
        }
        lemma_member_kept(shorter_before, shorter_after, other);
    }
}

/// Arguments in order are carried as they are: a call under version 1.0 has
/// exactly its arguments as parameters, in declaration order.
pub proof fn law_positional_arguments(names: Seq<Seq<char>>, values: Seq<JsonValue>)
    requires
        names.len() == values.len(),
    ensures
        applied(no_params(Version::V1), names, values) == ParamsView::ByPosition(values),
    decreases names.len(),
{
    if names.len() == 0 {
        assert(values =~= Seq::empty());
    } else {
        law_positional_arguments(names.drop_last(), values.drop_last());
        assert(values.drop_last().push(values.last()) =~= values);
    }
}

/// Whether no text occurs twice in a sequence.
pub open spec fn distinct(names: Seq<Seq<char>>) -> bool {
    forall|i: int, j: int| 0 <= i < j < names.len() ==> #[trigger] names[i] != #[trigger] names[j]
}

/// Arguments by name are carried under their names: a call under version 2.0
/// of a method whose parameters have different names has one parameter for
/// each argument, found under the name of its parameter.
pub proof fn law_named_arguments(names: Seq<Seq<char>>, values: Seq<JsonValue>, at: int)
    requires
        names.len() == values.len(),
        distinct(names),
        0 <= at < names.len(),
    ensures
        applied(no_params(Version::V2), names, values) matches ParamsView::ByName(members)
            && members.len() == names.len() && distinct_names(members) && member(
            members,
            names[at],
        ) == Some(values[at]),
{
    lemma_named_arguments(names, values);
    let members = applied(no_params(Version::V2), names, values)->ByName_0;
    assert(members[at] == (names[at], values[at]));
    lemma_member_present(members, at);
}

/// Under version 2.0 and with different names, the parameters are the pairs
/// of names and arguments in declaration order.
proof fn lemma_named_arguments(names: Seq<Seq<char>>, values: Seq<JsonValue>)
    requires
        names.len() == values.len(),
        distinct(names),
    ensures
        applied(no_params(Version::V2), names, values) matches ParamsView::ByName(members)
            && members.len() == names.len() && distinct_names(members) && (forall|i: int|
            0 <= i < names.len() ==> #[trigger] members[i] == (names[i], values[i])),
    decreases names.len(),
{
    if names.len() == 0 {
    } else {
        let shorter_names = names.drop_last();
        let shorter_values = values.drop_last();
        assert forall|i: int, j: int| 0 <= i < j < shorter_names.len() implies #[trigger]
            shorter_names[i] != #[trigger] shorter_names[j] by {
            assert(shorter_names[i] == names[i]);
            assert(shorter_names[j] == names[j]);
        }
        lemma_named_arguments(shorter_names, shorter_values);
        let before = applied(no_params(Version::V2), shorter_names, shorter_values)->ByName_0;
        let last = names.len() - 1;
        assert(names.last() == names[last]);
        assert(values.last() == values[last]);
        assert forall|j: int| 0 <= j < before.len() implies (#[trigger] before[j]).0
            != names.last() by {
            assert(before[j] == (shorter_names[j], shorter_values[j]));
            assert(shorter_names[j] == names[j]);
        }
        crate::message::lemma_position(before, names.last(), before.len() as int);
        let after = bind(before, names.last(), values.last());
        assert(after == before.push((names.last(), values.last())));
        assert forall|i: int| 0 <= i < names.len() implies #[trigger] after[i] == (
            names[i],
            values[i],
        ) by {
            if i < last {
                assert(after[i] == before[i]);
                assert(shorter_names[i] == names[i]);
                assert(shorter_values[i] == values[i]);
            }
        }
        assert forall|i: int, j: int| 0 <= i < j < after.len() implies (#[trigger] after[i]).0 != (
        #[trigger] after[j]).0 by {
            assert(after[i] == (names[i], values[i]));
            assert(after[j] == (names[j], values[j]));
        }
    }
}

/// The parameters of a bound method go in order under version 1.0 and by
/// name under version 2.0, whatever the arguments.
pub proof fn law_version_decides_shape(
    version: Version,
    names: Seq<Seq<char>>,
    values: Seq<JsonValue>,
)
    ensures
        version == Version::V1 <==> applied(no_params(version), names, values) is ByPosition,
        version == Version::V2 <==> applied(no_params(version), names, values) is ByName,
        names.len() > 0 && values.len() > 0 ==> (applied(no_params(version), names, values)
            matches ParamsView::ByName(members) ==> members.len() > 0),
    decreases names.len(),
{
    if names.len() == 0 || values.len() == 0 {
    } else {
        law_version_decides_shape(version, names.drop_last(), values.drop_last());
        law_shape_kept(
            applied(no_params(version), names.drop_last(), values.drop_last()),
            names.last(),
            values.last(),
        );
    }
}

/// What a bound method writes as `params`: an array under version 1.0; an
/// object under version 2.0 where it has arguments; nothing under version
/// 2.0 where it has none.
pub proof fn law_bound_params(version: Version, binding: BindingView, values: Seq<JsonValue>)
    requires
        values.len() == binding.parameters.len(),
    ensures
        version == Version::V1 ==> field(
            request_document(request_for(version, binding, values)),
            "params"@,
        ) matches Some(JsonValue::Array(_)),
        version == Version::V2 && values.len() > 0 ==> field(
            request_document(request_for(version, binding, values)),
            "params"@,
        ) matches Some(JsonValue::Object(_)),
        version == Version::V2 && values.len() == 0 ==> field(
            request_document(request_for(version, binding, values)),
            "params"@,
        ) is None,
{
    law_version_decides_shape(version, binding.parameters, values);
    law_params_shape(request_for(version, binding, values));
}

/// An error is read back from its document, unless its data is `null`.
pub proof fn law_error_round_trip(error: JsonRpcError)
    requires
        error@.data != Some(JsonValue::Null),
    ensures
        error_of(error_document(error@)) == Some(error@),
{
    lemma_response_names();
    lemma_decimal_value(error.code as int);
    let empty = Seq::<(Seq<char>, JsonValue)>::empty();
    let view = error@;
    let a = ("code"@, JsonValue::Number(decimal(view.code)));
    let b = ("message"@, JsonValue::String(view.message));
    let c = ("data"@, or_null(view.data));
    assert(error_members(view) =~= empty.push(a).push(b).push(c));
    assert forall|name: Seq<char>| #[trigger] member(empty, name) is None by {}
    assert forall|name: Seq<char>| #[trigger]
        member(error_members(view), name) == (if name == "data"@ {
            Some(c.1)
        } else if name == "message"@ {
            Some(b.1)
        } else if name == "code"@ {
            Some(a.1)
        } else {
            None
        }) by {
        lemma_member_push(empty, a, name);
        lemma_member_push(empty.push(a), b, name);
        lemma_member_push(empty.push(a).push(b), c, name);
    }
    let document = error_document(view);
    assert(field(document, "code"@) == Some(a.1));
    assert(field(document, "message"@) == Some(b.1));
    assert(field(document, "data"@) == Some(c.1));
    assert(integer_of(a.1) == Some(view.code));
    assert(optional(Some(c.1)) == view.data);
}

/// Round trip of a response: reading the document of a response gives the
/// response back. A result or error data of `null` is left out of the law:
/// `null` is how a missing member is written.
pub proof fn law_response_round_trip(response: Response<Json>)
    requires
        response@.result != Some(JsonValue::Null),
        response@.error matches Some(error) ==> error.data != Some(JsonValue::Null),
    ensures
        envelope(response_document(response@)) == Ok::<_, EnvelopeFault>(response@),
{
    lemma_response_names();
    lemma_version_texts();
    law_id_round_trip(response.id@);
    let view = response@;
    let empty = Seq::<(Seq<char>, JsonValue)>::empty();
    let a = ("id"@, id_document(view.id));
    let b = (
        "jsonrpc"@,
        match view.jsonrpc {
            Some(version) => JsonValue::String(version_text(version)),
            None => JsonValue::Null,
        },
    );
    let c = ("result"@, or_null(view.result));
    let d = (
        "error"@,
        match view.error {
            Some(error) => error_document(error),
            None => JsonValue::Null,
        },
    );
    assert(response_members(view) =~= empty.push(a).push(b).push(c).push(d));
    assert forall|name: Seq<char>| #[trigger] member(empty, name) is None by {}
    assert forall|name: Seq<char>| #[trigger]
        member(response_members(view), name) == (if name == "error"@ {
            Some(d.1)
        } else if name == "result"@ {
            Some(c.1)
        } else if name == "jsonrpc"@ {
            Some(b.1)
        } else if name == "id"@ {
            Some(a.1)
        } else {
            None
        }) by {
        lemma_member_push(empty, a, name);
        lemma_member_push(empty.push(a), b, name);
        lemma_member_push(empty.push(a).push(b), c, name);
        lemma_member_push(empty.push(a).push(b).push(c), d, name);
    }
    let document = response_document(view);
    assert(field(document, "id"@) == Some(a.1));
    assert(field(document, "jsonrpc"@) == Some(b.1));
    assert(field(document, "result"@) == Some(c.1));
    assert(field(document, "error"@) == Some(d.1));
    match response.payload.error {
        Some(error) => {
            law_error_round_trip(error);
        },
        None => {},
    }
    assert(optional(Some(c.1)) == view.result);
    assert(envelope(document) matches Ok(found) && found == view);
}

/// A malformed envelope is an error, never a value: where both payload
/// members are set, and where neither is, the outcome is the error with the
/// reserved code, and the two messages differ.
pub proof fn law_malformed_envelope<P>(result: Option<P>, error: Option<JsonRpcError>)
    ensures
        result is Some && error is Some ==> outcome(result, error_view(error))
            == Err::<P, _>(malformed(both_message())),
        result is None && error is None ==> outcome(result, error_view(error))
            == Err::<P, _>(malformed(neither_message())),
        malformed(both_message()).code == -32603,
        malformed(neither_message()).code == -32603,
        both_message() != neither_message(),
{
    reveal_strlit("both result and error present");
    reveal_strlit("neither result nor error present");
    assert(both_message().len() != neither_message().len());
}

/// The same of documents: an envelope in which both `result` and `error`
/// hold something other than `null`, or neither does, unwraps to the error
/// with the reserved code.
pub proof fn law_malformed_document(document: JsonValue)
    requires
        envelope(document) is Ok,
        left_out(field(document, "result"@)) == left_out(field(document, "error"@)),
    ensures
        outcome(envelope(document)->Ok_0.result, envelope(document)->Ok_0.error) matches Err(error)
            && error.code == malformed_code() && error.message == (if left_out(
            field(document, "result"@),
        ) {
            neither_message()
        } else {
            both_message()
        }),
{
}

/// Swapping two neighbours of different names changes the value of no name.
pub proof fn lemma_member_swap(members: Seq<(Seq<char>, JsonValue)>, at: int, name: Seq<char>)
    requires
        0 <= at < members.len() - 1,
        members[at].0 != members[at + 1].0,
    ensures
        member(members.update(at, members[at + 1]).update(at + 1, members[at]), name) == member(
            members,
            name,
        ),
    decreases members.len(),
{
    let swapped = members.update(at, members[at + 1]).update(at + 1, members[at]);
    if at + 2 == members.len() {
        let rest = members.drop_last().drop_last();
        let shorter = swapped.drop_last();
        let shorter_before = members.drop_last();
        assert(shorter.drop_last() =~= rest);
        assert(swapped.last() == members[at]);
        assert(shorter.last() == members[at + 1]);
        assert(members.last() == members[at + 1]);
        assert(shorter_before.last() == members[at]);
        assert(member(shorter, name) == if members[at + 1].0 == name {
            Some(members[at + 1].1)
        } else {
            member(rest, name)
        });
        assert(member(shorter_before, name) == if members[at].0 == name {
            Some(members[at].1)
        } else {
            member(rest, name)
        });
    } else {
        let shorter = members.drop_last();
        assert(swapped.last() == members.last());
        assert(swapped.drop_last() =~= shorter.update(at, shorter[at + 1]).update(
            at + 1,
            shorter[at],
        ));
        lemma_member_swap(shorter, at, name);
    }
}

/// Field-order independence: an envelope reads the same after two
/// neighbouring members of different names have changed places.
pub proof fn law_field_order(members: Seq<(Seq<char>, JsonValue)>, at: int)
    requires
        0 <= at < members.len() - 1,
        members[at].0 != members[at + 1].0,
    ensures
        envelope(
            JsonValue::Object(members.update(at, members[at + 1]).update(at + 1, members[at])),
        ) == envelope(JsonValue::Object(members)),
{
    lemma_member_swap(members, at, "id"@);
    lemma_member_swap(members, at, "jsonrpc"@);
    lemma_member_swap(members, at, "result"@);
    lemma_member_swap(members, at, "error"@);
}

/// Two fields with the conventional name of the transport and none with its
/// tag: the structure is refused as ambiguous.
pub proof fn law_ambiguous_transport(fields: Seq<Field>, first: int, second: int)
    requires
        0 <= first < second < fields.len(),
        named(fields[first], Role::Transport),
        named(fields[second], Role::Transport),
        none_plays(fields, Role::Transport, true),
    ensures
        resolution(fields) == Err::<(AccessorView, EndpointView), _>(
            LayoutError::AmbiguousTransport,
        ),
{
    assert(plays(fields[first], Role::Transport, false));
    assert(plays(fields[second], Role::Transport, false));
    assert(several_play(fields, Role::Transport, false));
    assert(!several_play(fields, Role::Transport, true)) by {
        if several_play(fields, Role::Transport, true) {
            let (i, j) = choose|i: int, j: int|
                0 <= i < j < fields.len() && plays(#[trigger] fields[i], Role::Transport, true)
                    && plays(#[trigger] fields[j], Role::Transport, true);
            assert(!plays(fields[i], Role::Transport, true));
        }
    }
    assert(casting(fields, Role::Transport) is Ambiguous);
}

/// Two fields with the tag of the transport: the structure is refused as
/// ambiguous, whatever the names.
pub proof fn law_ambiguous_tags(fields: Seq<Field>, first: int, second: int)
    requires
        0 <= first < second < fields.len(),
        tagged(fields[first], Role::Transport),
        tagged(fields[second], Role::Transport),
    ensures
        resolution(fields) == Err::<(AccessorView, EndpointView), _>(
            LayoutError::AmbiguousTransport,
        ),
{
    assert(plays(fields[first], Role::Transport, true));
    assert(plays(fields[second], Role::Transport, true));
    assert(several_play(fields, Role::Transport, true));
}

/// A structure without fields is refused.
pub proof fn law_no_fields(fields: Seq<Field>)
    requires
        fields.len() == 0,
    ensures
        resolution(fields) == Err::<(AccessorView, EndpointView), _>(LayoutError::NoFields),
{
}

/// A method with a named argument whose type has no encoding: the interface
/// is not bound.
pub proof fn law_unencodable_argument(interface: Interface, item: int, argument: int)
    requires
        0 <= item < interface.items@.len(),
        interface.items@[item] matches Item::Method(method) && unencodable_at(
            method.arguments@,
            argument,
        ),
    ensures
        bound(interface) is Err,
{
    let method = interface.items@[item]->Method_0;
    assert(method_fault(method, interface.convention, item as usize) is Some);
    assert(faulty_at(interface.items@, interface.convention, item));
}

/// A method that brings a body of its own, or that is called otherwise than
/// the interface says: the interface is not bound.
pub proof fn law_total_binding(interface: Interface, item: int)
    requires
        0 <= item < interface.items@.len(),
        interface.items@[item] matches Item::Method(method) && (method.has_default
            || method.convention != interface.convention),
    ensures
        bound(interface) is Err,
{
    let method = interface.items@[item]->Method_0;
    assert(method_fault(method, interface.convention, item as usize) is Some);
    assert(faulty_at(interface.items@, interface.convention, item));
}

/// Each failure keeps its origin. A failure of the transport is reported as
/// a failure of the client and as nothing else, and nothing else is reported
/// as one.
pub proof fn law_failure_origin<
    P,
    E,
    D: FnOnce(serde_json::Value) -> Result<P, serde_json::Error>,
>(reply: Result<String, E>, decode_result: D, r: Result<P, Error<E>>)
    requires
        concluded(reply, decode_result, r),
    ensures
        reply is Err <==> r matches Err(Error::Client(_)),
        reply matches Err(failure) ==> r == Err::<P, Error<E>>(Error::Client(failure)),
{
}

/// Whether a text is JSON and its document an envelope.
pub open spec fn is_envelope(text: Seq<char>) -> bool {
    text_document(text) matches Some(document) && envelope(document) is Ok
}

/// An error of the peer, and a value, are reported only for an answer that
/// is an envelope; a text that is none is reported as a failure of the
/// codec.
pub proof fn law_protocol_or_codec<
    P,
    E,
    D: FnOnce(serde_json::Value) -> Result<P, serde_json::Error>,
>(text: Seq<char>, decode_result: D, r: Result<P, Error<E>>)
    requires
        answered(text, decode_result, r),
    ensures
        !(r matches Err(Error::Client(_))),
        r matches Err(Error::JsonRpc(_)) ==> is_envelope(text),
        r is Ok ==> is_envelope(text),
        !is_envelope(text) ==> r matches Err(Error::Serde(_)),
{
}

} // verus!

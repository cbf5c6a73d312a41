//! Binding an interface: from the description of its methods to the
//! dispatcher that builds one request per call.

use crate::codec::value_document;
use crate::json::JsonValue;
use crate::message::{
    version_of_text, with_param, IdView, ParamsView, Request, RequestView, Version,
};
use crate::text::same_text;
use vstd::prelude::*;

verus! {

/// How a method is called: it may suspend its caller, or it blocks.
#[derive(Debug, Clone, Copy, PartialEq, Eq, Structural)]
pub enum Convention {
    Suspending,
    Blocking,
}

/// The value of a configuration attribute: a text, or something else.
#[derive(Debug, PartialEq)]
pub enum Literal {
    Text(String),
    Other,
}

/// The configuration attribute of an interface: `key = value`.
#[derive(Debug, PartialEq)]
pub struct Setting {
    pub key: String,
    pub value: Literal,
}

/// One argument in a method's declaration: the receiver, an argument with a
/// name and a type that can or cannot be encoded, or an argument that is
/// declared by a pattern and has no name.
#[derive(Debug, PartialEq)]
pub enum Argument {
    Receiver,
    Named { name: String, encodable: bool },
    Pattern,
}

/// One method of an interface as it is declared.
#[derive(Debug, PartialEq)]
pub struct Method {
    pub name: String,
    pub arguments: Vec<Argument>,
    pub has_output: bool,
    pub convention: Convention,
    pub has_default: bool,
}

/// One item of an interface: a method, or anything else.
#[derive(Debug, PartialEq)]
pub enum Item {
    Method(Method),
    Other,
}

/// The description of an interface: its configuration, the calling
/// convention of the transport that it is bound for, and its items in
/// declaration order.
#[derive(Debug, PartialEq)]
pub struct Interface {
    pub setting: Option<Setting>,
    pub convention: Convention,
    pub items: Vec<Item>,
}

/// Why an interface cannot be bound.
#[derive(Debug, Clone, Copy, PartialEq, Eq, Structural)]
pub enum ApiError {
    UnsupportedSetting,
    InvalidVersion,
    NotAMethod { item: usize },
    DefaultBody { item: usize },
    NotSuspending { item: usize },
    NotBlocking { item: usize },
    Unnamed { item: usize },
    NotEncodable { item: usize, argument: usize },
}

/// What one method is bound to: its name on the wire, the names of its
/// parameters in declaration order, and whether it declares a return type
/// (one that does not returns the unit value).
#[derive(Debug, PartialEq)]
pub struct Binding {
    pub name: String,
    pub parameters: Vec<String>,
    pub has_output: bool,
}

/// A bound interface.
#[derive(Debug, PartialEq)]
pub struct Dispatcher {
    pub version: Version,
    pub convention: Convention,
    pub methods: Vec<Binding>,
}

pub ghost struct BindingView {
    pub name: Seq<char>,
    pub parameters: Seq<Seq<char>>,
    pub has_output: bool,
}

pub ghost struct DispatcherView {
    pub version: Version,
    pub convention: Convention,
    pub methods: Seq<BindingView>,
}

/// The texts of a sequence of strings.
pub open spec fn texts(strings: Seq<String>) -> Seq<Seq<char>> {
    Seq::new(strings.len(), |i: int| strings[i]@)
}

impl View for Binding {
    type V = BindingView;

    open spec fn view(&self) -> BindingView {
        BindingView {
            name: self.name@,
            parameters: texts(self.parameters@),
            has_output: self.has_output,
        }
    }
}

impl View for Dispatcher {
    type V = DispatcherView;

    open spec fn view(&self) -> DispatcherView {
        DispatcherView {
            version: self.version,
            convention: self.convention,
            methods: Seq::new(self.methods@.len(), |i: int| self.methods@[i]@),
        }
    }
}

/// The version that the configuration asks for: 2.0 where there is none.
/// The only key is `version`, and its value must be the text of a version.
pub open spec fn configured(setting: Option<Setting>) -> Result<Version, ApiError> {
    match setting {
        None => Ok(Version::V2),
        Some(setting) => if setting.key@ != "version"@ {
            Err(ApiError::UnsupportedSetting)
        } else {
            match setting.value {
                Literal::Text(text) => match version_of_text(text@) {
                    Some(version) => Ok(version),
                    None => Err(ApiError::InvalidVersion),
                },
                Literal::Other => Err(ApiError::InvalidVersion),
            }
        },
    }
}

/// The names of the parameters among a method's arguments, in declaration
/// order: the receiver and arguments without a name are passed over.
pub open spec fn parameters_of(arguments: Seq<Argument>) -> Seq<Seq<char>>
    decreases arguments.len(),
{
    if arguments.len() == 0 {
        Seq::empty()
    } else {
        let before = parameters_of(arguments.drop_last());
        match arguments.last() {
            Argument::Named { name, .. } => before.push(name@),
            _ => before,
        }
    }
}

/// Whether the argument at `index` has a name and a type without encoding.
pub open spec fn unencodable_at(arguments: Seq<Argument>, index: int) -> bool {
    &&& 0 <= index < arguments.len()
    &&& arguments[index] matches Argument::Named { encodable, .. }
    &&& !encodable
}

/// Whether `index` is the first argument with a name and a type without
/// encoding.
pub open spec fn first_unencodable_at(arguments: Seq<Argument>, index: int) -> bool {
    &&& unencodable_at(arguments, index)
    &&& forall|j: int| 0 <= j < index ==> !unencodable_at(arguments, j)
}

/// What is wrong with the method that stands at `item`, if anything. The
/// checks go in this order: no body of its own; the calling convention of the
/// interface; a name; an encoding for the type of every named argument.
pub open spec fn method_fault(method: Method, convention: Convention, item: usize) -> Option<
    ApiError,
> {
    if method.has_default {
        Some(ApiError::DefaultBody { item })
    } else if method.convention != convention {
        Some(
            match convention {
                Convention::Suspending => ApiError::NotSuspending { item },
                Convention::Blocking => ApiError::NotBlocking { item },
            },
        )
    } else if method.name@.len() == 0 {
        Some(ApiError::Unnamed { item })
    } else if exists|k: int| unencodable_at(method.arguments@, k) {
        let argument = choose|k: int| first_unencodable_at(method.arguments@, k);
        Some(ApiError::NotEncodable { item, argument: argument as usize })
    } else {
        None
    }
}

/// Whether the item at `index` is no method.
pub open spec fn other_at(items: Seq<Item>, index: int) -> bool {
    0 <= index < items.len() && items[index] is Other
}

/// Whether the item at `index` is a method with something wrong.
pub open spec fn faulty_at(items: Seq<Item>, convention: Convention, index: int) -> bool {
    &&& 0 <= index < items.len()
    &&& items[index] matches Item::Method(method)
    &&& method_fault(method, convention, index as usize) is Some
}

/// Whether `index` is the first item that is no method.
pub open spec fn first_other_at(items: Seq<Item>, index: int) -> bool {
    &&& other_at(items, index)
    &&& forall|j: int| 0 <= j < index ==> !other_at(items, j)
}

/// Whether `index` is the first method with something wrong.
pub open spec fn first_faulty_at(items: Seq<Item>, convention: Convention, index: int) -> bool {
    &&& faulty_at(items, convention, index)
    &&& forall|j: int| 0 <= j < index ==> !faulty_at(items, convention, j)
}

/// What a method is bound to.
pub open spec fn binding_of(method: Method) -> BindingView {
    BindingView {
        name: method.name@,
        parameters: parameters_of(method.arguments@),
        has_output: method.has_output,
    }
}

/// What an interface is bound to. The configuration is read first. Then
/// every item must be a method: the first that is not is the error. Then
/// every method must be sound: the first that is not gives the error.
pub open spec fn bound(interface: Interface) -> Result<DispatcherView, ApiError> {
    let items = interface.items@;
    match configured(interface.setting) {
        Err(error) => Err(error),
        Ok(version) => if exists|i: int| other_at(items, i) {
            Err(
                ApiError::NotAMethod {
                    item: (choose|i: int| first_other_at(items, i)) as usize,
                },
            )
        } else if exists|i: int| faulty_at(items, interface.convention, i) {
            let first = choose|i: int| first_faulty_at(items, interface.convention, i);
            Err(method_fault(items[first]->Method_0, interface.convention, first as usize)->0)
        } else {
            Ok(
                DispatcherView {
                    version,
                    convention: interface.convention,
                    methods: Seq::new(items.len(), |i: int| binding_of(items[i]->Method_0)),
                },
            )
        },
    }
}

fn read_setting(setting: &Option<Setting>) -> (r: Result<Version, ApiError>)
    ensures
        r == configured(*setting),
{
    match setting {
        None => Ok(Version::V2),
        Some(setting) => {
            if !same_text(setting.key.as_str(), "version") {
                return Err(ApiError::UnsupportedSetting);
            }
            match &setting.value {
                Literal::Text(text) => match Version::from_text(text.as_str()) {
                    Some(version) => Ok(version),
                    None => Err(ApiError::InvalidVersion),
                },
                Literal::Other => Err(ApiError::InvalidVersion),
            }
        },
    }
}

fn first_other(items: &Vec<Item>) -> (r: Option<usize>)
    ensures
        match r {
            Some(index) => first_other_at(items@, index as int) && (choose|i: int|
                first_other_at(items@, i)) == index,
            None => !exists|i: int| other_at(items@, i),
        },
{
    let mut i: usize = 0;
    while i < items.len()
        invariant
            i <= items.len(),
            forall|j: int| 0 <= j < i ==> !other_at(items@, j),
        decreases items.len() - i,
    {
        match &items[i] {
            Item::Other => {
                assert(first_other_at(items@, i as int));
                let ghost chosen = choose|k: int| first_other_at(items@, k);
                assert(first_other_at(items@, chosen));
                assert(chosen == i) by {
                    if chosen < i {
                        assert(!other_at(items@, chosen));
                    } else if i < chosen {
                        assert(!other_at(items@, i as int));
                    }
                }
                return Some(i);
            },
            Item::Method(_) => {},
        }
        i = i + 1;
    }
    None
}

fn first_unencodable(arguments: &Vec<Argument>) -> (r: Option<usize>)
    ensures
        match r {
            Some(index) => first_unencodable_at(arguments@, index as int) && (choose|k: int|
                first_unencodable_at(arguments@, k)) == index,
            None => !exists|k: int| unencodable_at(arguments@, k),
        },
{
    let mut i: usize = 0;
    while i < arguments.len()
        invariant
            i <= arguments.len(),
            forall|j: int| 0 <= j < i ==> !unencodable_at(arguments@, j),
        decreases arguments.len() - i,
    {
        match &arguments[i] {
            Argument::Named { name: _, encodable } => {
                if !*encodable {
                    assert(first_unencodable_at(arguments@, i as int));
                    let ghost chosen = choose|k: int| first_unencodable_at(arguments@, k);
                    assert(first_unencodable_at(arguments@, chosen));
                    assert(chosen == i) by {
                        if chosen < i {
                            assert(!unencodable_at(arguments@, chosen));
                        } else if i < chosen {
                            assert(!unencodable_at(arguments@, i as int));
                        }
                    }
                    return Some(i);
                }
            },
            _ => {},
        }
        i = i + 1;
    }
    None
}

fn check_method(method: &Method, convention: Convention, item: usize) -> (r: Option<ApiError>)
    ensures
        r == method_fault(*method, convention, item),
{
    if method.has_default {
        return Some(ApiError::DefaultBody { item });
    }
    if method.convention != convention {
        return Some(
            match convention {
                Convention::Suspending => ApiError::NotSuspending { item },
                Convention::Blocking => ApiError::NotBlocking { item },
            },
        );
    }
    if method.name.as_str().unicode_len() == 0 {
        return Some(ApiError::Unnamed { item });
    }
    match first_unencodable(&method.arguments) {
        Some(argument) => {
            assert(unencodable_at(method.arguments@, argument as int));
            Some(ApiError::NotEncodable { item, argument })
        },
        None => None,
    }
}

fn parameter_names(arguments: &Vec<Argument>) -> (r: Vec<String>)
    ensures
        texts(r@) == parameters_of(arguments@),
{
    let mut names: Vec<String> = Vec::new();
    let mut i: usize = 0;
    assert(arguments@.subrange(0, 0) =~= Seq::<Argument>::empty());
    assert(texts(names@) =~= parameters_of(arguments@.subrange(0, 0)));
    while i < arguments.len()
        invariant
            i <= arguments.len(),
            texts(names@) == parameters_of(arguments@.subrange(0, i as int)),
        decreases arguments.len() - i,
    {
        let ghost upto = arguments@.subrange(0, i + 1);
        let ghost before = texts(names@);
        proof {
            assert(upto.drop_last() =~= arguments@.subrange(0, i as int));
            assert(upto.last() == arguments@[i as int]);
        }
        match &arguments[i] {
            Argument::Named { name, encodable: _ } => {
                names.push(name.clone());
                assert(texts(names@) =~= before.push(name@));
            },
            _ => {},
        }
        i = i + 1;
    }
    assert(arguments@.subrange(0, i as int) =~= arguments@);
    names
}

/// Binds an interface: checks its description and hands back the
/// dispatcher, or the reason why there is none.
pub fn api(interface: &Interface) -> (r: Result<Dispatcher, ApiError>)
    ensures
        match r {
            Ok(dispatcher) => bound(*interface) == Ok::<_, ApiError>(dispatcher@)
                && dispatcher.wf(),
            Err(error) => bound(*interface) == Err::<DispatcherView, _>(error),
        },
{
    let version = match read_setting(&interface.setting) {
        Ok(version) => version,
        Err(error) => {
            return Err(error);
        },
    };
    match first_other(&interface.items) {
        Some(item) => {
            assert(other_at(interface.items@, item as int));
            return Err(ApiError::NotAMethod { item });
        },
        None => {},
    }
    let mut methods: Vec<Binding> = Vec::new();
    let mut i: usize = 0;
    while i < interface.items.len()
        invariant
            i <= interface.items.len(),
            configured(interface.setting) == Ok::<_, ApiError>(version),
            !exists|k: int| other_at(interface.items@, k),
            forall|j: int| 0 <= j < i ==> !faulty_at(interface.items@, interface.convention, j),
            methods@.len() == i,
            forall|j: int|
                0 <= j < i ==> (#[trigger] methods@[j])@ == binding_of(
                    interface.items@[j]->Method_0,
                ) && methods@[j].name@.len() > 0,
        decreases interface.items.len() - i,
    {
        match &interface.items[i] {
            Item::Other => {
                assert(other_at(interface.items@, i as int));
            },
            Item::Method(method) => {
                match check_method(method, interface.convention, i) {
                    Some(error) => {
                        proof {
                            let items = interface.items@;
                            let convention = interface.convention;
                            assert(first_faulty_at(items, convention, i as int));
                            let chosen = choose|k: int| first_faulty_at(items, convention, k);
                            assert(first_faulty_at(items, convention, chosen));
                            if chosen < i {
                                assert(!faulty_at(items, convention, chosen));
                            } else if i < chosen {
                                assert(!faulty_at(items, convention, i as int));
                            }
                        }
                        return Err(error);
                    },
                    None => {},
                }
                methods.push(
                    Binding {
                        name: method.name.clone(),
                        parameters: parameter_names(&method.arguments),
                        has_output: method.has_output,
                    },
                );
            },
        }
        i = i + 1;
    }
    let dispatcher = Dispatcher { version, convention: interface.convention, methods };
    proof {
        assert(!exists|k: int| faulty_at(interface.items@, interface.convention, k)) by {
            assert forall|k: int| !faulty_at(interface.items@, interface.convention, k) by {}
        }
        assert(dispatcher@.methods =~= Seq::new(
            interface.items@.len(),
            |i: int| binding_of(interface.items@[i]->Method_0),
        ));
    }
    Ok(dispatcher)
}

/// The parameter set that arguments give: each one added in turn under the
/// name of its parameter.
pub open spec fn applied(start: ParamsView, names: Seq<Seq<char>>, values: Seq<JsonValue>) -> ParamsView
    decreases names.len(),
{
    if names.len() == 0 || values.len() == 0 {
        start
    } else {
        with_param(
            applied(start, names.drop_last(), values.drop_last()),
            names.last(),
            values.last(),
        )
    }
}

/// The parameter set that a version starts from: in order for 1.0, by name
/// for 2.0.
pub open spec fn no_params(version: Version) -> ParamsView {
    match version {
        Version::V1 => ParamsView::ByPosition(Seq::empty()),
        Version::V2 => ParamsView::ByName(Seq::empty()),
    }
}

/// The request that a call of a bound method sends.
pub open spec fn request_for(version: Version, binding: BindingView, values: Seq<JsonValue>) -> RequestView {
    RequestView {
        id: IdView::Number(0),
        jsonrpc: version,
        method: binding.name,
        params: applied(no_params(version), binding.parameters, values),
    }
}

/// Whether the argument at `index` failed to encode.
pub open spec fn failed_at(
    arguments: Seq<Result<serde_json::Value, serde_json::Error>>,
    index: int,
) -> bool {
    0 <= index < arguments.len() && arguments[index] is Err
}

/// Whether `index` is the first argument that failed to encode.
pub open spec fn first_failed_at(
    arguments: Seq<Result<serde_json::Value, serde_json::Error>>,
    index: int,
) -> bool {
    &&& failed_at(arguments, index)
    &&& forall|j: int| 0 <= j < index ==> !failed_at(arguments, j)
}

/// The documents of arguments that all encoded.
pub open spec fn documents(arguments: Seq<Result<serde_json::Value, serde_json::Error>>) -> Seq<
    JsonValue,
> {
    Seq::new(arguments.len(), |i: int| value_document(arguments[i]->Ok_0))
}

impl ApiError {
    /// The words that tell a user why the interface was refused.
    pub fn message(&self) -> (r: &'static str)
        ensures
            r@ == match self {
                ApiError::UnsupportedSetting =>
                    "invalid configuration attribute, currently only `version` is supported"@,
                ApiError::InvalidVersion => "argument to `version` must be either \"1.0\" or \"2.0\""@,
                ApiError::NotAMethod { .. } => "trait must only define methods"@,
                ApiError::DefaultBody { .. } => "trait method must not have a default implementation"@,
                ApiError::NotSuspending { .. } => "trait methods have to be async"@,
                ApiError::NotBlocking { .. } => "trait methods must not be async"@,
                ApiError::Unnamed { .. } => "trait method must have a name"@,
                ApiError::NotEncodable { .. } => "the type of an argument cannot be encoded"@,
            },
    {
        match self {
            ApiError::UnsupportedSetting =>
                "invalid configuration attribute, currently only `version` is supported",
            ApiError::InvalidVersion => "argument to `version` must be either \"1.0\" or \"2.0\"",
            ApiError::NotAMethod { .. } => "trait must only define methods",
            ApiError::DefaultBody { .. } => "trait method must not have a default implementation",
            ApiError::NotSuspending { .. } => "trait methods have to be async",
            ApiError::NotBlocking { .. } => "trait methods must not be async",
            ApiError::Unnamed { .. } => "trait method must have a name",
            ApiError::NotEncodable { .. } => "the type of an argument cannot be encoded",
        }
    }
}

impl Dispatcher {
    /// The invariant of a dispatcher: every method has a name.
    pub open spec fn wf(&self) -> bool {
        forall|i: int| 0 <= i < self.methods@.len() ==> (#[trigger] self.methods@[i]).name@.len() > 0
    }

    /// The request for one call of the method at `method`. `arguments` holds,
    /// in declaration order, what encoding each argument gave: the first
    /// failure among them is handed back, and all values together make the
    /// parameter set.
    pub fn request(
        &self,
        method: usize,
        arguments: Vec<Result<serde_json::Value, serde_json::Error>>,
    ) -> (r: Result<Request, serde_json::Error>)
        requires
            self.wf(),
            method < self.methods@.len(),
            arguments@.len() == self.methods@[method as int].parameters@.len(),
        ensures
            match r {
                Ok(request) => !(exists|i: int| failed_at(arguments@, i)) && request@
                    == request_for(
                    self.version,
                    self.methods@[method as int]@,
                    documents(arguments@),
                ) && request.wf(),
                Err(error) => exists|i: int|
                    first_failed_at(arguments@, i) && arguments@[i] == Err::<serde_json::Value, _>(
                        error,
                    ),
            },
    {
        let binding = &self.methods[method];
        let mut request = Request::new(self.version, binding.name.as_str());
        let ghost all = arguments@;
        let ghost names = texts(binding.parameters@);
        let ghost start = no_params(self.version);
        let mut rest = arguments;
        let mut i: usize = 0;
        assert(names.subrange(0, 0) =~= Seq::<Seq<char>>::empty());
        while i < binding.parameters.len()
            invariant
                i <= binding.parameters@.len(),
                all == arguments@,
                all.len() == binding.parameters@.len(),
                names == texts(binding.parameters@),
                rest@ == all.subrange(i as int, all.len() as int),
                forall|j: int| 0 <= j < i ==> !failed_at(all, j),
                request.wf(),
                request@ == (RequestView {
                    id: IdView::Number(0),
                    jsonrpc: self.version,
                    method: binding.name@,
                    params: applied(
                        start,
                        names.subrange(0, i as int),
                        documents(all).subrange(0, i as int),
                    ),
                }),
            decreases binding.parameters@.len() - i,
        {
            let argument = rest.remove(0);
            assert(argument == all[i as int]);
            assert(rest@ =~= all.subrange(i + 1, all.len() as int));
            let ghost before = request@.params;
            proof {
                let upto_names = names.subrange(0, i + 1);
                let upto_values = documents(all).subrange(0, i + 1);
                assert(upto_names.drop_last() =~= names.subrange(0, i as int));
                assert(upto_values.drop_last() =~= documents(all).subrange(0, i as int));
                assert(upto_names.last() == binding.parameters@[i as int]@);
                assert(upto_values.last() == value_document(all[i as int]->Ok_0));
            }
            match request.with_argument(binding.parameters[i].clone(), argument) {
                Ok(next) => {
                    request = next;
                },
                Err(error) => {
                    assert(first_failed_at(all, i as int));
                    return Err(error);
                },
            }
            i = i + 1;
        }
        proof {
            assert(names.subrange(0, i as int) =~= names);
            assert(documents(all).subrange(0, i as int) =~= documents(all));
            assert forall|k: int| !failed_at(all, k) by {}
        }
        Ok(request)
    }
}

} // verus!

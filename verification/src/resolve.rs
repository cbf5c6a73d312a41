//! The field resolution policy: which field of a client structure is the
//! transport and which is the endpoint.

use crate::text::same_text;
use vstd::prelude::*;

verus! {

/// One attribute on a field: its path, and the first name inside its
/// brackets where it has the form of a list that starts with a plain name.
#[derive(Debug, PartialEq)]
pub struct Attribute {
    pub path: String,
    pub argument: Option<String>,
}

/// One field of a client structure: its name, if it has one, and its
/// attributes in source order.
#[derive(Debug, PartialEq)]
pub struct Field {
    pub name: Option<String>,
    pub attributes: Vec<Attribute>,
}

/// The fields of a client structure, in declaration order.
#[derive(Debug, PartialEq)]
pub struct Layout {
    pub fields: Vec<Field>,
}

/// The two roles that a field can play.
#[derive(Debug, Clone, Copy, PartialEq, Eq, Structural)]
pub enum Role {
    Transport,
    Endpoint,
}

/// A resolved field: its position in the structure, and its name, if it has
/// one. Code reaches the field by its name, or by its position where it has
/// none.
#[derive(Debug, PartialEq)]
pub struct Accessor {
    pub index: usize,
    pub name: Option<String>,
}

/// Where the endpoint comes from: a field, or outside the structure.
#[derive(Debug, PartialEq)]
pub enum Endpoint {
    Field(Accessor),
    External,
}

/// Why a structure cannot carry a client.
#[derive(Debug, Clone, Copy, PartialEq, Eq, Structural)]
pub enum LayoutError {
    NoFields,
    NoTransport,
    AmbiguousTransport,
    NoEndpoint,
    AmbiguousEndpoint,
}

/// What binding a structure yields: the two roles resolved, and the
/// structure without the attributes that marked them.
#[derive(Debug, PartialEq)]
pub struct Implementation {
    pub transport: Accessor,
    pub endpoint: Endpoint,
    pub layout: Layout,
}

pub ghost struct AccessorView {
    pub index: int,
    pub name: Option<Seq<char>>,
}

pub ghost enum EndpointView {
    Field(AccessorView),
    External,
}

impl View for Accessor {
    type V = AccessorView;

    open spec fn view(&self) -> AccessorView {
        AccessorView {
            index: self.index as int,
            name: match self.name {
                Some(name) => Some(name@),
                None => None,
            },
        }
    }
}

impl View for Endpoint {
    type V = EndpointView;

    open spec fn view(&self) -> EndpointView {
        match self {
            Endpoint::Field(accessor) => EndpointView::Field(accessor@),
            Endpoint::External => EndpointView::External,
        }
    }
}

/// The path of the attributes that mark a role.
pub open spec fn marker_path() -> Seq<char> {
    "jsonrpc_client"@
}

/// The word that stands for a role, as a tag and as a field name.
pub open spec fn role_word(role: Role) -> Seq<char> {
    match role {
        Role::Transport => "inner"@,
        Role::Endpoint => "base_url"@,
    }
}

/// The first marking attribute among some attributes.
pub open spec fn marker(attributes: Seq<Attribute>) -> Option<Attribute>
    decreases attributes.len(),
{
    if attributes.len() == 0 {
        None
    } else if attributes[0].path@ == marker_path() {
        Some(attributes[0])
    } else {
        marker(attributes.drop_first())
    }
}

/// Whether a field is tagged with a role: its first marking attribute names
/// the role.
pub open spec fn tagged(field: Field, role: Role) -> bool {
    marker(field.attributes@) matches Some(attribute) && attribute.argument matches Some(word)
        && word@ == role_word(role)
}

/// Whether a field carries the conventional name of a role.
pub open spec fn named(field: Field, role: Role) -> bool {
    field.name matches Some(name) && name@ == role_word(role)
}

/// Whether a field is a candidate for a role, by tag or by name.
pub open spec fn plays(field: Field, role: Role, by_tag: bool) -> bool {
    if by_tag {
        tagged(field, role)
    } else {
        named(field, role)
    }
}

/// No field is a candidate.
pub open spec fn none_plays(fields: Seq<Field>, role: Role, by_tag: bool) -> bool {
    forall|j: int| 0 <= j < fields.len() ==> !plays(#[trigger] fields[j], role, by_tag)
}

/// The field at `index` is the one candidate.
pub open spec fn sole_player(fields: Seq<Field>, role: Role, by_tag: bool, index: int) -> bool {
    &&& 0 <= index < fields.len()
    &&& plays(fields[index], role, by_tag)
    &&& forall|j: int|
        0 <= j < fields.len() && plays(#[trigger] fields[j], role, by_tag) ==> j == index
}

/// Two fields or more are candidates.
pub open spec fn several_play(fields: Seq<Field>, role: Role, by_tag: bool) -> bool {
    exists|i: int, j: int|
        0 <= i < j < fields.len() && plays(#[trigger] fields[i], role, by_tag) && plays(
            #[trigger] fields[j],
            role,
            by_tag,
        )
}

/// What a search for the candidates of a role finds.
#[derive(Debug, Clone, Copy, PartialEq, Eq, Structural)]
pub enum Candidates {
    Nobody,
    Sole(usize),
    Several,
}

/// What the policy decides for one role.
pub ghost enum Casting {
    Found(int),
    Ambiguous,
    Missing,
}

/// The policy for one role: a tag decides before a name does, and two
/// candidates of the deciding kind are an ambiguity.
pub open spec fn casting(fields: Seq<Field>, role: Role) -> Casting {
    if several_play(fields, role, true) {
        Casting::Ambiguous
    } else if !none_plays(fields, role, true) {
        Casting::Found(choose|i: int| sole_player(fields, role, true, i))
    } else if several_play(fields, role, false) {
        Casting::Ambiguous
    } else if !none_plays(fields, role, false) {
        Casting::Found(choose|i: int| sole_player(fields, role, false, i))
    } else {
        Casting::Missing
    }
}

/// The field at `index` as a resolved field.
pub open spec fn accessor_of(fields: Seq<Field>, index: int) -> AccessorView {
    AccessorView {
        index,
        name: match fields[index].name {
            Some(name) => Some(name@),
            None => None,
        },
    }
}

/// The policy for both roles. A structure without fields is refused. The
/// transport is the field cast for it, or the only field of a structure with
/// one field. The endpoint is the field cast for it, or comes from outside
/// where the structure has one field.
pub open spec fn resolution(fields: Seq<Field>) -> Result<(AccessorView, EndpointView), LayoutError> {
    if fields.len() == 0 {
        Err(LayoutError::NoFields)
    } else {
        match casting(fields, Role::Transport) {
            Casting::Ambiguous => Err(LayoutError::AmbiguousTransport),
            Casting::Missing if fields.len() != 1 => Err(LayoutError::NoTransport),
            transport => {
                let transport_index = match transport {
                    Casting::Found(i) => i,
                    _ => 0,
                };
                match casting(fields, Role::Endpoint) {
                    Casting::Ambiguous => Err(LayoutError::AmbiguousEndpoint),
                    Casting::Missing => if fields.len() == 1 {
                        Ok((accessor_of(fields, transport_index), EndpointView::External))
                    } else {
                        Err(LayoutError::NoEndpoint)
                    },
                    Casting::Found(j) => Ok(
                        (
                            accessor_of(fields, transport_index),
                            EndpointView::Field(accessor_of(fields, j)),
                        ),
                    ),
                }
            },
        }
    }
}

/// The attributes of a field that mark no role.
pub open spec fn unmarked(attributes: Seq<Attribute>) -> Seq<Attribute> {
    attributes.filter(|attribute: Attribute| attribute.path@ != marker_path())
}

/// Whether `after` is `before` with every marking attribute taken out.
pub open spec fn stripped(before: Seq<Field>, after: Seq<Field>) -> bool {
    &&& after.len() == before.len()
    &&& forall|i: int|
        0 <= i < before.len() ==> (#[trigger] after[i]).name == before[i].name && after[i].attributes@
            == unmarked(before[i].attributes@)
}

/// Whether an attribute marks a role, whatever it names.
pub fn is_marker(attribute: &Attribute) -> (r: bool)
    ensures
        r == (attribute.path@ == marker_path()),
{
    same_text(attribute.path.as_str(), "jsonrpc_client")
}

fn first_marker(attributes: &Vec<Attribute>) -> (r: Option<&Attribute>)
    ensures
        match r {
            Some(found) => marker(attributes@) == Some(*found),
            None => marker(attributes@) is None,
        },
{
    let mut i: usize = 0;
    assert(attributes@.subrange(0, attributes@.len() as int) =~= attributes@);
    while i < attributes.len()
        invariant
            i <= attributes.len(),
            marker(attributes@) == marker(attributes@.subrange(i as int, attributes@.len() as int)),
        decreases attributes.len() - i,
    {
        let ghost rest = attributes@.subrange(i as int, attributes@.len() as int);
        assert(rest[0] == attributes@[i as int]);
        assert(rest.drop_first() =~= attributes@.subrange(i + 1, attributes@.len() as int));
        if is_marker(&attributes[i]) {
            return Some(&attributes[i]);
        }
        i = i + 1;
    }
    None
}

fn role_text(role: Role) -> (r: &'static str)
    ensures
        r@ == role_word(role),
{
    match role {
        Role::Transport => "inner",
        Role::Endpoint => "base_url",
    }
}

fn field_plays(field: &Field, role: Role, by_tag: bool) -> (r: bool)
    ensures
        r == plays(*field, role, by_tag),
{
    if by_tag {
        match first_marker(&field.attributes) {
            Some(attribute) => match &attribute.argument {
                Some(word) => same_text(word.as_str(), role_text(role)),
                None => false,
            },
            None => false,
        }
    } else {
        match &field.name {
            Some(name) => same_text(name.as_str(), role_text(role)),
            None => false,
        }
    }
}

/// Searches the fields for the candidates of a role, by tag or by name.
pub fn candidates(fields: &Vec<Field>, role: Role, by_tag: bool) -> (r: Candidates)
    ensures
        match r {
            Candidates::Nobody => none_plays(fields@, role, by_tag),
            Candidates::Sole(index) => sole_player(fields@, role, by_tag, index as int),
            Candidates::Several => several_play(fields@, role, by_tag),
        },
{
    let mut found: Candidates = Candidates::Nobody;
    let mut i: usize = 0;
    while i < fields.len()
        invariant
            i <= fields.len(),
            match found {
                Candidates::Nobody => none_plays(fields@.subrange(0, i as int), role, by_tag),
                Candidates::Sole(index) => sole_player(
                    fields@.subrange(0, i as int),
                    role,
                    by_tag,
                    index as int,
                ),
                Candidates::Several => several_play(fields@, role, by_tag),
            },
        decreases fields.len() - i,
    {
        let ghost before = fields@.subrange(0, i as int);
        let ghost after = fields@.subrange(0, i + 1);
        let here = field_plays(&fields[i], role, by_tag);
        proof {
            assert(after[i as int] == fields@[i as int]);
            assert forall|j: int| 0 <= j < i implies after[j] == before[j] by {}
        }
        match found {
            Candidates::Nobody => {
                if here {
                    found = Candidates::Sole(i);
                    assert forall|j: int|
                        0 <= j < after.len() && plays(#[trigger] after[j], role, by_tag) implies j
                        == i by {
                        if j < i {
                            assert(after[j] == before[j]);
                        }
                    }
                } else {
                    assert forall|j: int| 0 <= j < after.len() implies !plays(
                        #[trigger] after[j],
                        role,
                        by_tag,
                    ) by {
                        if j < i {
                            assert(after[j] == before[j]);
                        }
                    }
                }
            },
            Candidates::Sole(index) => {
                if here {
                    found = Candidates::Several;
                    assert(before[index as int] == fields@[index as int]);
                    assert(plays(fields@[index as int], role, by_tag) && plays(
                        fields@[i as int],
                        role,
                        by_tag,
                    ));
                } else {
                    assert(after[index as int] == before[index as int]);
                    assert forall|j: int|
                        0 <= j < after.len() && plays(#[trigger] after[j], role, by_tag) implies j
                        == index by {
                        if j < i {
                            assert(after[j] == before[j]);
                        }
                    }
                }
            },
            Candidates::Several => {},
        }
        i = i + 1;
    }
    assert(fields@.subrange(0, i as int) =~= fields@);
    found
}

/// One candidate excludes both other findings.
proof fn lemma_sole_is_chosen(fields: Seq<Field>, role: Role, by_tag: bool, index: int)
    requires
        sole_player(fields, role, by_tag, index),
    ensures
        !several_play(fields, role, by_tag),
        !none_plays(fields, role, by_tag),
        (choose|i: int| sole_player(fields, role, by_tag, i)) == index,
{
    let chosen = choose|i: int| sole_player(fields, role, by_tag, i);
    assert(sole_player(fields, role, by_tag, chosen));
    assert(plays(fields[index], role, by_tag));
}

/// Decides one role: a tag before a name.
fn cast(fields: &Vec<Field>, role: Role) -> (r: Option<Option<usize>>)
    ensures
        match r {
            None => casting(fields@, role) is Ambiguous,
            Some(None) => casting(fields@, role) is Missing,
            Some(Some(index)) => casting(fields@, role) == Casting::Found(index as int) && index
                < fields.len(),
        },
{
    match candidates(fields, role, true) {
        Candidates::Several => None,
        Candidates::Sole(index) => {
            proof {
                lemma_sole_is_chosen(fields@, role, true, index as int);
            }
            Some(Some(index))
        },
        Candidates::Nobody => {
            assert(!several_play(fields@, role, true));
            match candidates(fields, role, false) {
                Candidates::Several => None,
                Candidates::Sole(index) => {
                    proof {
                        lemma_sole_is_chosen(fields@, role, false, index as int);
                    }
                    Some(Some(index))
                },
                Candidates::Nobody => {
                    assert(!several_play(fields@, role, false));
                    Some(None)
                },
            }
        },
    }
}

fn accessor(fields: &Vec<Field>, index: usize) -> (r: Accessor)
    requires
        index < fields.len(),
    ensures
        r@ == accessor_of(fields@, index as int),
{
    match &fields[index].name {
        Some(name) => Accessor { index, name: Some(name.clone()) },
        None => Accessor { index, name: None },
    }
}

fn strip_attributes(attributes: &Vec<Attribute>) -> (r: Vec<Attribute>)
    ensures
        r@ == unmarked(attributes@),
{
    let ghost keep = |attribute: Attribute| attribute.path@ != marker_path();
    let mut out: Vec<Attribute> = Vec::new();
    let mut i: usize = 0;
    proof {
        reveal(Seq::filter);
        assert(attributes@.subrange(0, 0) =~= Seq::<Attribute>::empty());
    }
    while i < attributes.len()
        invariant
            i <= attributes.len(),
            keep == (|attribute: Attribute| attribute.path@ != marker_path()),
            out@ == attributes@.subrange(0, i as int).filter(keep),
        decreases attributes.len() - i,
    {
        let ghost upto = attributes@.subrange(0, i + 1);
        proof {
            reveal(Seq::filter);
            assert(upto.drop_last() =~= attributes@.subrange(0, i as int));
            assert(upto.last() == attributes@[i as int]);
        }
        if !is_marker(&attributes[i]) {
            let argument = match &attributes[i].argument {
                Some(word) => Some(word.clone()),
                None => None,
            };
            out.push(Attribute { path: attributes[i].path.clone(), argument });
        }
        i = i + 1;
    }
    assert(attributes@.subrange(0, i as int) =~= attributes@);
    out
}

/// The structure without the attributes that mark a role.
pub fn strip_markers(layout: &Layout) -> (r: Layout)
    ensures
        stripped(layout.fields@, r.fields@),
{
    let mut out: Vec<Field> = Vec::new();
    let mut i: usize = 0;
    while i < layout.fields.len()
        invariant
            i <= layout.fields.len(),
            out@.len() == i,
            forall|k: int|
                0 <= k < i ==> (#[trigger] out@[k]).name == layout.fields@[k].name
                    && out@[k].attributes@ == unmarked(layout.fields@[k].attributes@),
        decreases layout.fields.len() - i,
    {
        let name = match &layout.fields[i].name {
            Some(name) => Some(name.clone()),
            None => None,
        };
        let attributes = strip_attributes(&layout.fields[i].attributes);
        out.push(Field { name, attributes });
        i = i + 1;
    }
    Layout { fields: out }
}

/// Binds a client structure: resolves the transport and the endpoint among
/// its fields, and hands back the structure without the marking attributes.
pub fn implement(layout: &Layout) -> (r: Result<Implementation, LayoutError>)
    ensures
        match r {
            Ok(bound) => resolution(layout.fields@) == Ok::<_, LayoutError>(
                (bound.transport@, bound.endpoint@),
            ) && stripped(layout.fields@, bound.layout.fields@),
            Err(error) => resolution(layout.fields@) == Err::<(AccessorView, EndpointView), _>(
                error,
            ),
        },
{
    if layout.fields.len() == 0 {
        return Err(LayoutError::NoFields);
    }
    let transport_index: usize = match cast(&layout.fields, Role::Transport) {
        None => {
            return Err(LayoutError::AmbiguousTransport);
        },
        Some(None) => {
            if layout.fields.len() != 1 {
                return Err(LayoutError::NoTransport);
            }
            0
        },
        Some(Some(index)) => index,
    };
    let transport = accessor(&layout.fields, transport_index);
    let endpoint = match cast(&layout.fields, Role::Endpoint) {
        None => {
            return Err(LayoutError::AmbiguousEndpoint);
        },
        Some(None) => {
            if layout.fields.len() != 1 {
                return Err(LayoutError::NoEndpoint);
            }
            Endpoint::External
        },
        Some(Some(index)) => Endpoint::Field(accessor(&layout.fields, index)),
    };
    Ok(Implementation { transport, endpoint, layout: strip_markers(layout) })
}

impl LayoutError {
    /// The words that tell a user why the structure was refused.
    pub fn message(&self) -> (r: &'static str)
        ensures
            r@ == match self {
                LayoutError::NoFields => "struct needs to have a client and a base URL"@,
                LayoutError::NoTransport =>
                    "struct needs to have either a field named `inner` or one tagged with `#[jsonrpc_client(inner)]`"@,
                LayoutError::AmbiguousTransport =>
                    "struct has more than one field that can be the client"@,
                LayoutError::NoEndpoint =>
                    "struct needs to have either a field named `base_url` or one tagged with `#[jsonrpc_client(base_url)]`"@,
                LayoutError::AmbiguousEndpoint =>
                    "struct has more than one field that can be the base URL"@,
            },
    {
        match self {
            LayoutError::NoFields => "struct needs to have a client and a base URL",
            LayoutError::NoTransport =>
                "struct needs to have either a field named `inner` or one tagged with `#[jsonrpc_client(inner)]`",
            LayoutError::AmbiguousTransport => "struct has more than one field that can be the client",
            LayoutError::NoEndpoint =>
                "struct needs to have either a field named `base_url` or one tagged with `#[jsonrpc_client(base_url)]`",
            LayoutError::AmbiguousEndpoint => "struct has more than one field that can be the base URL",
        }
    }
}

} // verus!

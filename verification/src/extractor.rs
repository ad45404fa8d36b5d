//! The extractor binder.
//!
//! A route may declare a query shape and a body shape, each either a named
//! deserializable type or an inline field list.  For an inline field list a
//! fresh record type is synthesized per route, named deterministically from
//! the route's name, so that two routes in one scope never collide.

use vstd::prelude::*;

use crate::param_type::TypeRef;

verus! {

/// One field of an inline extractor shape.
#[derive(Debug)]
pub struct FieldDef {
    pub name: String,
    pub ty: TypeRef,
}

/// The mathematical model of a field.
pub struct FieldDefView {
    pub name: Seq<char>,
    pub ty: TypeRef,
}

impl View for FieldDef {
    type V = FieldDefView;

    open spec fn view(&self) -> FieldDefView {
        FieldDefView { name: self.name@, ty: self.ty }
    }
}

/// How a route declares the shape of its query string or request body.
#[derive(Debug)]
pub enum ExtractorSpec {
    /// An externally defined deserializable type, referenced by name.
    NamedType { ty_name: String },
    /// An inline field list from which a record type is synthesized for this
    /// route alone.
    InlineFields { fields: Vec<FieldDef> },
}

/// The mathematical model of an extractor shape.
pub enum ExtractorSpecView {
    NamedType { ty_name: Seq<char> },
    InlineFields { fields: Seq<FieldDefView> },
}

impl View for ExtractorSpec {
    type V = ExtractorSpecView;

    open spec fn view(&self) -> ExtractorSpecView {
        match self {
            ExtractorSpec::NamedType { ty_name } => ExtractorSpecView::NamedType {
                ty_name: ty_name@,
            },
            ExtractorSpec::InlineFields { fields } => ExtractorSpecView::InlineFields {
                fields: fields@.map_values(|f: FieldDef| f@),
            },
        }
    }
}

/// Whether an extractor feeds from the query string or the request body.
#[derive(Clone, Copy, Debug, PartialEq, Eq, Structural)]
pub enum ExtractorKind {
    Query,
    Body,
}

/// The concrete type and binding name under which decoded data reaches the
/// handler.
#[derive(Debug)]
pub struct Binding {
    pub ty_name: String,
    pub binding_name: String,
}

/// The mathematical model of a binding.
pub struct BindingView {
    pub ty_name: Seq<char>,
    pub binding_name: Seq<char>,
}

impl View for Binding {
    type V = BindingView;

    open spec fn view(&self) -> BindingView {
        BindingView { ty_name: self.ty_name@, binding_name: self.binding_name@ }
    }
}

/// What `stringcase::pascal_case` returns: a pure function of the input
/// characters.
pub uninterp spec fn pascal_of(s: Seq<char>) -> Seq<char>;

/// Relies on stringcase::pascal_case: the result depends on the input
/// characters alone, and an empty input gives an empty result.
#[verifier::external_body]
fn pascal_case(s: &str) -> (r: String)
    ensures
        r@ == pascal_of(s@),
        s@.len() == 0 ==> r@.len() == 0,
{
    stringcase::pascal_case(s)
}

/// The suffix appended to the synthesized record type's name.
pub open spec fn kind_suffix(k: ExtractorKind) -> Seq<char> {
    match k {
        ExtractorKind::Query => "QueryParams"@,
        ExtractorKind::Body => "BodyParams"@,
    }
}

/// The name under which the decoded value is exposed to the handler.
pub open spec fn kind_binding(k: ExtractorKind) -> Seq<char> {
    match k {
        ExtractorKind::Query => "query"@,
        ExtractorKind::Body => "body"@,
    }
}

/// The concrete type that an extractor shape resolves to: a named type as it
/// is, an inline field list as the route-derived record type name.
pub open spec fn bound_ty_name(
    x: ExtractorSpecView,
    route_name: Seq<char>,
    k: ExtractorKind,
) -> Seq<char> {
    match x {
        ExtractorSpecView::NamedType { ty_name } => ty_name,
        ExtractorSpecView::InlineFields { .. } => pascal_of(route_name) + kind_suffix(k),
    }
}

/// Resolves an extractor shape for one route: the concrete type to decode
/// into, and the binding name under which the handler receives the value.
pub fn bind_extractor(x: &ExtractorSpec, route_name: &str, k: ExtractorKind) -> (b: Binding)
    ensures
        b@.ty_name == bound_ty_name(x@, route_name@, k),
        b@.binding_name == kind_binding(k),
{
    let ty_name = match x {
        ExtractorSpec::NamedType { ty_name } => ty_name.clone(),
        ExtractorSpec::InlineFields { .. } => {
            let base = pascal_case(route_name);
            match k {
                ExtractorKind::Query => base.concat("QueryParams"),
                ExtractorKind::Body => base.concat("BodyParams"),
            }
        },
    };
    let binding_name = match k {
        ExtractorKind::Query => String::from_str("query"),
        ExtractorKind::Body => String::from_str("body"),
    };
    Binding { ty_name, binding_name }
}

} // verus!

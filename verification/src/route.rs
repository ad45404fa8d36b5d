//! Route declarations.
//!
//! A route is declared by filling a builder with its fields and calling
//! `declare`, which validates eagerly: the path template must compile, the
//! method token must be one of the fixed verb set, and every required field
//! must be present.  A missing field is reported by name, so that a
//! malformed declaration aborts startup with a specific error.

use vstd::prelude::*;

use crate::extractor::{
    bind_extractor, bound_ty_name, kind_binding, Binding, BindingView, ExtractorKind,
    ExtractorSpec, ExtractorSpecView,
};
use crate::method::{method_of_token, parse_method, HttpMethod};
use crate::path_template::{
    compile, compile_spec, pattern_of, PathError, PathErrorView, PathTemplate, Segment,
    SegmentView,
};
use crate::param_type::TypeRef;
use crate::registry::GroupId;

verus! {

/// The opaque identity of a handler, as the hosting process knows it.
pub type HandlerId = u64;

/// One additional handler parameter beyond path, query and body.
#[derive(Debug)]
pub struct ExtraParam {
    pub name: String,
    pub ty: String,
}

/// The mathematical model of an additional parameter.
pub struct ExtraParamView {
    pub name: Seq<char>,
    pub ty: Seq<char>,
}

impl View for ExtraParam {
    type V = ExtraParamView;

    open spec fn view(&self) -> ExtraParamView {
        ExtraParamView { name: self.name@, ty: self.ty@ }
    }
}

/// A required declaration field, named in `MissingField` errors.
#[derive(Clone, Copy, Debug, PartialEq, Eq, Structural)]
pub enum FieldName {
    Path,
    Name,
    ReturnType,
    Handler,
    Method,
    Group,
}

/// Why a declaration was rejected.
#[derive(Debug)]
pub enum DeclareError {
    /// A required field was never set.
    MissingField { field: FieldName },
    /// The method token is not in the fixed verb set.
    UnknownMethod { token: String },
    /// The path template is malformed or names an unknown parameter type.
    Template { error: PathError },
}

/// The mathematical model of a declaration error.
pub enum DeclareErrorView {
    MissingField { field: FieldName },
    UnknownMethod { token: Seq<char> },
    Template { error: PathErrorView },
}

impl View for DeclareError {
    type V = DeclareErrorView;

    open spec fn view(&self) -> DeclareErrorView {
        match self {
            DeclareError::MissingField { field } => DeclareErrorView::MissingField {
                field: *field,
            },
            DeclareError::UnknownMethod { token } => DeclareErrorView::UnknownMethod {
                token: token@,
            },
            DeclareError::Template { error } => DeclareErrorView::Template { error: error@ },
        }
    }
}

/// A validated route declaration, immutable once constructed.
#[derive(Debug)]
pub struct RouteDeclaration {
    pub name: String,
    pub method: HttpMethod,
    pub template: PathTemplate,
    pub pattern: String,
    pub query: Option<ExtractorSpec>,
    pub query_binding: Option<Binding>,
    pub body: Option<ExtractorSpec>,
    pub body_binding: Option<Binding>,
    pub extra_params: Vec<ExtraParam>,
    pub return_type: String,
    pub handler: HandlerId,
    pub group: GroupId,
}

/// The mathematical model of a route declaration.
pub struct RouteDeclarationView {
    pub name: Seq<char>,
    pub method: HttpMethod,
    pub template: Seq<SegmentView>,
    pub pattern: Seq<char>,
    pub query: Option<ExtractorSpecView>,
    pub query_binding: Option<BindingView>,
    pub body: Option<ExtractorSpecView>,
    pub body_binding: Option<BindingView>,
    pub extra_params: Seq<ExtraParamView>,
    pub return_type: Seq<char>,
    pub handler: HandlerId,
    pub group: GroupId,
}

impl View for RouteDeclaration {
    type V = RouteDeclarationView;

    open spec fn view(&self) -> RouteDeclarationView {
        RouteDeclarationView {
            name: self.name@,
            method: self.method,
            template: self.template@,
            pattern: self.pattern@,
            query: match &self.query {
                Some(x) => Some(x@),
                None => None,
            },
            query_binding: match &self.query_binding {
                Some(b) => Some(b@),
                None => None,
            },
            body: match &self.body {
                Some(x) => Some(x@),
                None => None,
            },
            body_binding: match &self.body_binding {
                Some(b) => Some(b@),
                None => None,
            },
            extra_params: self.extra_params@.map_values(|p: ExtraParam| p@),
            return_type: self.return_type@,
            handler: self.handler,
            group: self.group,
        }
    }
}

/// One argument of the assembled handler.
pub enum HandlerArg {
    /// A decoded path parameter.
    PathParam { name: String, ty: TypeRef },
    /// The decoded query value.
    QueryArg { binding: Binding },
    /// The decoded body value.
    BodyArg { binding: Binding },
    /// One additional declared parameter.
    Extra { name: String, ty_name: String },
}

/// The mathematical model of a handler argument.
pub enum HandlerArgView {
    PathParam { name: Seq<char>, ty: TypeRef },
    QueryArg { binding: BindingView },
    BodyArg { binding: BindingView },
    Extra { name: Seq<char>, ty_name: Seq<char> },
}

impl View for HandlerArg {
    type V = HandlerArgView;

    open spec fn view(&self) -> HandlerArgView {
        match self {
            HandlerArg::PathParam { name, ty } => HandlerArgView::PathParam {
                name: name@,
                ty: *ty,
            },
            HandlerArg::QueryArg { binding } => HandlerArgView::QueryArg { binding: binding@ },
            HandlerArg::BodyArg { binding } => HandlerArgView::BodyArg { binding: binding@ },
            HandlerArg::Extra { name, ty_name } => HandlerArgView::Extra {
                name: name@,
                ty_name: ty_name@,
            },
        }
    }
}

/// The path-parameter arguments of a template, in segment order.
pub open spec fn path_param_args(t: Seq<SegmentView>) -> Seq<HandlerArgView>
    decreases t.len(),
{
    if t.len() == 0 {
        Seq::empty()
    } else {
        path_param_args(t.drop_last()) + (match t.last() {
            SegmentView::Param { name, ty } => seq![HandlerArgView::PathParam { name, ty }],
            SegmentView::Literal { .. } => Seq::empty(),
        })
    }
}

/// The fixed order in which the assembled handler receives its arguments:
/// path parameters in template order, then the decoded query value if
/// declared, then the decoded body value if declared, then the additional
/// parameters in declaration order.
pub open spec fn handler_signature_spec(d: RouteDeclarationView) -> Seq<HandlerArgView> {
    path_param_args(d.template) + (match d.query_binding {
        Some(b) => seq![HandlerArgView::QueryArg { binding: b }],
        None => Seq::empty(),
    }) + (match d.body_binding {
        Some(b) => seq![HandlerArgView::BodyArg { binding: b }],
        None => Seq::empty(),
    }) + d.extra_params.map_values(
        |p: ExtraParamView| HandlerArgView::Extra { name: p.name, ty_name: p.ty },
    )
}

/// The builder a declaration site fills before calling `declare`.
pub struct RouteBuilder {
    pub method_token: Option<String>,
    pub path: Option<String>,
    pub name: Option<String>,
    pub query: Option<ExtractorSpec>,
    pub body: Option<ExtractorSpec>,
    pub extra_params: Vec<ExtraParam>,
    pub return_type: Option<String>,
    pub handler: Option<HandlerId>,
    pub group: Option<GroupId>,
}

/// The mathematical model of a builder.
pub struct RouteBuilderView {
    pub method_token: Option<Seq<char>>,
    pub path: Option<Seq<char>>,
    pub name: Option<Seq<char>>,
    pub query: Option<ExtractorSpecView>,
    pub body: Option<ExtractorSpecView>,
    pub extra_params: Seq<ExtraParamView>,
    pub return_type: Option<Seq<char>>,
    pub handler: Option<HandlerId>,
    pub group: Option<GroupId>,
}

impl View for RouteBuilder {
    type V = RouteBuilderView;

    open spec fn view(&self) -> RouteBuilderView {
        RouteBuilderView {
            method_token: match &self.method_token {
                Some(s) => Some(s@),
                None => None,
            },
            path: match &self.path {
                Some(s) => Some(s@),
                None => None,
            },
            name: match &self.name {
                Some(s) => Some(s@),
                None => None,
            },
            query: match &self.query {
                Some(x) => Some(x@),
                None => None,
            },
            body: match &self.body {
                Some(x) => Some(x@),
                None => None,
            },
            extra_params: self.extra_params@.map_values(|p: ExtraParam| p@),
            return_type: match &self.return_type {
                Some(s) => Some(s@),
                None => None,
            },
            handler: self.handler,
            group: self.group,
        }
    }
}

/// The binding that `declare` derives for an optional extractor shape.
pub open spec fn binding_for(
    x: Option<ExtractorSpecView>,
    route_name: Seq<char>,
    k: ExtractorKind,
) -> Option<BindingView> {
    match x {
        None => None,
        Some(shape) => Some(
            BindingView {
                ty_name: bound_ty_name(shape, route_name, k),
                binding_name: kind_binding(k),
            },
        ),
    }
}

/// What `declare` returns for a given builder state: the first missing
/// required field, else an unknown method token, else a template error, else
/// the validated declaration.
pub open spec fn declare_spec(b: RouteBuilderView) -> Result<
    RouteDeclarationView,
    DeclareErrorView,
> {
    if b.path is None {
        Err(DeclareErrorView::MissingField { field: FieldName::Path })
    } else if b.name is None {
        Err(DeclareErrorView::MissingField { field: FieldName::Name })
    } else if b.return_type is None {
        Err(DeclareErrorView::MissingField { field: FieldName::ReturnType })
    } else if b.handler is None {
        Err(DeclareErrorView::MissingField { field: FieldName::Handler })
    } else if b.method_token is None {
        Err(DeclareErrorView::MissingField { field: FieldName::Method })
    } else if b.group is None {
        Err(DeclareErrorView::MissingField { field: FieldName::Group })
    } else {
        match method_of_token(b.method_token.unwrap()) {
            None => Err(DeclareErrorView::UnknownMethod { token: b.method_token.unwrap() }),
            Some(m) => match compile_spec(b.path.unwrap()) {
                Err(e) => Err(DeclareErrorView::Template { error: e }),
                Ok(t) => Ok(
                    RouteDeclarationView {
                        name: b.name.unwrap(),
                        method: m,
                        template: t,
                        pattern: pattern_of(t),
                        query: b.query,
                        query_binding: binding_for(b.query, b.name.unwrap(), ExtractorKind::Query),
                        body: b.body,
                        body_binding: binding_for(b.body, b.name.unwrap(), ExtractorKind::Body),
                        extra_params: b.extra_params,
                        return_type: b.return_type.unwrap(),
                        handler: b.handler.unwrap(),
                        group: b.group.unwrap(),
                    },
                ),
            },
        }
    }
}

impl RouteBuilder {
    /// An empty builder: nothing declared yet.
    pub fn new() -> (r: RouteBuilder)
        ensures
            r@.method_token is None,
            r@.path is None,
            r@.name is None,
            r@.query is None,
            r@.body is None,
            r@.extra_params.len() == 0,
            r@.return_type is None,
            r@.handler is None,
            r@.group is None,
    {
        let r = RouteBuilder {
            method_token: None,
            path: None,
            name: None,
            query: None,
            body: None,
            extra_params: Vec::new(),
            return_type: None,
            handler: None,
            group: None,
        };
        proof {
            assert(r@.extra_params =~= Seq::<ExtraParamView>::empty());
        }
        r
    }

    /// Sets the method token.
    pub fn method(self, token: String) -> (r: RouteBuilder)
        ensures
            (r@ == RouteBuilderView { method_token: Some(token@), ..self@ }),
    {
        RouteBuilder { method_token: Some(token), ..self }
    }

    /// Sets the raw path template.
    pub fn path(self, raw: String) -> (r: RouteBuilder)
        ensures
            (r@ == RouteBuilderView { path: Some(raw@), ..self@ }),
    {
        RouteBuilder { path: Some(raw), ..self }
    }

    /// Sets the route's name.
    pub fn name(self, name: String) -> (r: RouteBuilder)
        ensures
            (r@ == RouteBuilderView { name: Some(name@), ..self@ }),
    {
        RouteBuilder { name: Some(name), ..self }
    }

    /// Declares the query shape.
    pub fn query(self, shape: ExtractorSpec) -> (r: RouteBuilder)
        ensures
            (r@ == RouteBuilderView { query: Some(shape@), ..self@ }),
    {
        RouteBuilder { query: Some(shape), ..self }
    }

    /// Declares the body shape.
    pub fn body(self, shape: ExtractorSpec) -> (r: RouteBuilder)
        ensures
            (r@ == RouteBuilderView { body: Some(shape@), ..self@ }),
    {
        RouteBuilder { body: Some(shape), ..self }
    }

    /// Appends one additional handler parameter.
    pub fn param(self, name: String, ty: String) -> (r: RouteBuilder)
        ensures
            (r@ == RouteBuilderView {
                extra_params: self@.extra_params.push(ExtraParamView { name: name@, ty: ty@ }),
                ..self@
            }),
    {
        let mut b = self;
        let ghost pre = b@.extra_params;
        b.extra_params.push(ExtraParam { name, ty });
        proof {
            assert(b@.extra_params =~= pre.push(b.extra_params@.last()@));
        }
        b
    }

    /// Sets the handler's return type.
    pub fn returning(self, ty: String) -> (r: RouteBuilder)
        ensures
            (r@ == RouteBuilderView { return_type: Some(ty@), ..self@ }),
    {
        RouteBuilder { return_type: Some(ty), ..self }
    }

    /// Sets the handler.
    pub fn handler(self, handler: HandlerId) -> (r: RouteBuilder)
        ensures
            (r@ == RouteBuilderView { handler: Some(handler), ..self@ }),
    {
        RouteBuilder { handler: Some(handler), ..self }
    }

    /// Sets the owning group.
    pub fn group(self, group: GroupId) -> (r: RouteBuilder)
        ensures
            (r@ == RouteBuilderView { group: Some(group), ..self@ }),
    {
        RouteBuilder { group: Some(group), ..self }
    }

    /// Validates the builder and produces the declaration, failing fast on
    /// the first missing field, an unknown method, or a bad template.
    pub fn declare(self) -> (r: Result<RouteDeclaration, DeclareError>)
        ensures
            match r {
                Ok(d) => declare_spec(self@) == Ok::<RouteDeclarationView, DeclareErrorView>(d@),
                Err(e) => declare_spec(self@) == Err::<RouteDeclarationView, DeclareErrorView>(
                    e@,
                ),
            },
    {
        let RouteBuilder {
            method_token,
            path,
            name,
            query,
            body,
            extra_params,
            return_type,
            handler,
            group,
        } = self;
        let path = match path {
            Some(p) => p,
            None => {
                return Err(DeclareError::MissingField { field: FieldName::Path });
            },
        };
        let name = match name {
            Some(n) => n,
            None => {
                return Err(DeclareError::MissingField { field: FieldName::Name });
            },
        };
        let return_type = match return_type {
            Some(t) => t,
            None => {
                return Err(DeclareError::MissingField { field: FieldName::ReturnType });
            },
        };
        let handler = match handler {
            Some(h) => h,
            None => {
                return Err(DeclareError::MissingField { field: FieldName::Handler });
            },
        };
        let method_token = match method_token {
            Some(m) => m,
            None => {
                return Err(DeclareError::MissingField { field: FieldName::Method });
            },
        };
        let group = match group {
            Some(g) => g,
            None => {
                return Err(DeclareError::MissingField { field: FieldName::Group });
            },
        };
        let method = match parse_method(method_token.as_str()) {
            Some(m) => m,
            None => {
                return Err(DeclareError::UnknownMethod { token: method_token });
            },
        };
        let template = match compile(path.as_str()) {
            Ok(t) => t,
            Err(e) => {
                return Err(DeclareError::Template { error: e });
            },
        };
        let pattern = template.pattern();
        let query_binding = match &query {
            Some(x) => Some(bind_extractor(x, name.as_str(), ExtractorKind::Query)),
            None => None,
        };
        let body_binding = match &body {
            Some(x) => Some(bind_extractor(x, name.as_str(), ExtractorKind::Body)),
            None => None,
        };
        Ok(
            RouteDeclaration {
                name,
                method,
                template,
                pattern,
                query,
                query_binding,
                body,
                body_binding,
                extra_params,
                return_type,
                handler,
                group,
            },
        )
    }
}

impl RouteDeclaration {
    /// The handler's arguments in the fixed order it receives them: path
    /// parameters in template order, then the decoded query value, then the
    /// decoded body value, then the additional declared parameters.
    pub fn handler_signature(&self) -> (r: Vec<HandlerArg>)
        ensures
            r@.map_values(|a: HandlerArg| a@) == handler_signature_spec(self@),
    {
        let mut out: Vec<HandlerArg> = Vec::new();
        let segs = &self.template.segments;
        let n = segs.len();
        let ghost tv = self.template@;
        proof {
            assert(out@.map_values(|a: HandlerArg| a@) =~= Seq::<HandlerArgView>::empty());
            assert(tv.take(0) =~= Seq::<SegmentView>::empty());
        }
        let mut k: usize = 0;
        while k < n
            invariant
                n == segs.len(),
                segs == &self.template.segments,
                tv == self.template@,
                tv.len() == n,
                0 <= k <= n,
                out@.map_values(|a: HandlerArg| a@) == path_param_args(tv.take(k as int)),
            decreases n - k,
        {
            let ghost pre = out@.map_values(|a: HandlerArg| a@);
            match &segs[k] {
                Segment::Param { name, ty } => {
                    out.push(HandlerArg::PathParam { name: name.clone(), ty: *ty });
                    proof {
                        assert(out@.map_values(|a: HandlerArg| a@) =~= pre.push(
                            out@.last()@,
                        ));
                    }
                },
                Segment::Literal { .. } => {
                    proof {
                        assert(out@.map_values(|a: HandlerArg| a@) =~= pre + Seq::<
                            HandlerArgView,
                        >::empty());
                    }
                },
            }
            proof {
                assert(tv.take(k + 1).drop_last() =~= tv.take(k as int));
                assert(tv.take(k + 1).last() == tv[k as int]);
            }
            k = k + 1;
        }
        proof {
            assert(tv.take(n as int) =~= tv);
        }
        let ghost after_params = out@.map_values(|a: HandlerArg| a@);
        if let Some(b) = &self.query_binding {
            let ghost pre = out@.map_values(|a: HandlerArg| a@);
            out.push(
                HandlerArg::QueryArg {
                    binding: Binding {
                        ty_name: b.ty_name.clone(),
                        binding_name: b.binding_name.clone(),
                    },
                },
            );
            proof {
                assert(out@.map_values(|a: HandlerArg| a@) =~= pre.push(out@.last()@));
            }
        }
        let ghost after_query = out@.map_values(|a: HandlerArg| a@);
        if let Some(b) = &self.body_binding {
            let ghost pre = out@.map_values(|a: HandlerArg| a@);
            out.push(
                HandlerArg::BodyArg {
                    binding: Binding {
                        ty_name: b.ty_name.clone(),
                        binding_name: b.binding_name.clone(),
                    },
                },
            );
            proof {
                assert(out@.map_values(|a: HandlerArg| a@) =~= pre.push(out@.last()@));
            }
        }
        let ghost after_body = out@.map_values(|a: HandlerArg| a@);
        let ghost extras = self@.extra_params.map_values(
            |p: ExtraParamView| HandlerArgView::Extra { name: p.name, ty_name: p.ty },
        );
        let m = self.extra_params.len();
        let mut j: usize = 0;
        proof {
            assert(extras.take(0) =~= Seq::<HandlerArgView>::empty());
            assert(after_body + extras.take(0) =~= after_body);
        }
        while j < m
            invariant
                m == self.extra_params.len(),
                extras == self@.extra_params.map_values(
                    |p: ExtraParamView| HandlerArgView::Extra { name: p.name, ty_name: p.ty },
                ),
                extras.len() == m,
                0 <= j <= m,
                out@.map_values(|a: HandlerArg| a@) == after_body + extras.take(j as int),
            decreases m - j,
        {
            let ghost pre = out@.map_values(|a: HandlerArg| a@);
            let p = &self.extra_params[j];
            out.push(HandlerArg::Extra { name: p.name.clone(), ty_name: p.ty.clone() });
            proof {
                assert(out@.map_values(|a: HandlerArg| a@) =~= pre.push(out@.last()@));
                assert(out@.last()@ == extras[j as int]);
                assert(extras.take(j + 1) =~= extras.take(j as int).push(extras[j as int]));
                assert(out@.map_values(|a: HandlerArg| a@) =~= after_body + extras.take(
                    j + 1,
                ));
            }
            j = j + 1;
        }
        proof {
            assert(extras.take(m as int) =~= extras);
            assert(after_query =~= after_params + (match self@.query_binding {
                Some(b) => seq![HandlerArgView::QueryArg { binding: b }],
                None => Seq::<HandlerArgView>::empty(),
            }));
            assert(after_body =~= after_query + (match self@.body_binding {
                Some(b) => seq![HandlerArgView::BodyArg { binding: b }],
                None => Seq::<HandlerArgView>::empty(),
            }));
            assert(out@.map_values(|a: HandlerArg| a@) =~= handler_signature_spec(self@));
        }
        out
    }
}

} // verus!

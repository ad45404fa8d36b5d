//! The path template compiler.
//!
//! A raw path pattern such as `/expr/{val:int32}` is compiled into an ordered
//! sequence of segments, each either a literal run of characters or a typed
//! parameter.  The grammar is a three-state machine over the characters of
//! the input: literal characters accumulate until `{` opens a parameter,
//! `:` separates the parameter name from its type token, and `}` closes the
//! parameter.  The input must end outside of a parameter.

use vstd::prelude::*;

use crate::param_type::{lookup_type, parse_type_token, token_string, type_token, TypeRef};

verus! {

/// One segment of a compiled path template.
#[derive(Debug)]
pub enum Segment {
    /// A run of literal characters.
    Literal { text: String },
    /// A typed parameter, written `{name:type}` in the raw template.
    Param { name: String, ty: TypeRef },
}

/// The mathematical model of a segment.
pub enum SegmentView {
    Literal { text: Seq<char> },
    Param { name: Seq<char>, ty: TypeRef },
}

impl View for Segment {
    type V = SegmentView;

    open spec fn view(&self) -> SegmentView {
        match self {
            Segment::Literal { text } => SegmentView::Literal { text: text@ },
            Segment::Param { name, ty } => SegmentView::Param { name: name@, ty: *ty },
        }
    }
}

/// A malformed or unresolvable path template.
#[derive(Debug)]
pub enum PathError {
    /// In a parameter name, a character that is neither an identifier
    /// character nor the `:` that begins the type token (`{` and `}`
    /// included), or a `:` before any name character.
    BadNameChar { pos: usize, found: char },
    /// In a type token, a stray `{` or `:`.
    BadTypeChar { pos: usize, found: char },
    /// End of input in the middle of a parameter.
    UnexpectedEnd,
    /// A parameter's type token does not resolve to a known scalar type.
    UnknownParamType { token: String },
}

/// The mathematical model of a path error.
pub enum PathErrorView {
    BadNameChar { pos: int, found: char },
    BadTypeChar { pos: int, found: char },
    UnexpectedEnd,
    UnknownParamType { token: Seq<char> },
}

impl View for PathError {
    type V = PathErrorView;

    open spec fn view(&self) -> PathErrorView {
        match self {
            PathError::BadNameChar { pos, found } => PathErrorView::BadNameChar {
                pos: *pos as int,
                found: *found,
            },
            PathError::BadTypeChar { pos, found } => PathErrorView::BadTypeChar {
                pos: *pos as int,
                found: *found,
            },
            PathError::UnexpectedEnd => PathErrorView::UnexpectedEnd,
            PathError::UnknownParamType { token } => PathErrorView::UnknownParamType {
                token: token@,
            },
        }
    }
}

/// The three states of the template grammar's machine.
#[derive(Clone, Copy, Debug, PartialEq, Eq, Structural)]
pub enum ParseState {
    Path,
    ParamName,
    ParamType,
}

/// A compiled path template: the ordered segments of one route's path.
#[derive(Debug)]
pub struct PathTemplate {
    pub segments: Vec<Segment>,
}

impl View for PathTemplate {
    type V = Seq<SegmentView>;

    open spec fn view(&self) -> Seq<SegmentView> {
        seg_views(self.segments@)
    }
}

/// The views of a sequence of segments.
pub open spec fn seg_views(s: Seq<Segment>) -> Seq<SegmentView> {
    s.map_values(|g: Segment| g@)
}

/// A character that may start an identifier.
pub open spec fn is_ident_start(c: char) -> bool {
    ('a' <= c && c <= 'z') || ('A' <= c && c <= 'Z') || c == '_'
}

/// A character that may continue an identifier.
pub open spec fn is_ident_char(c: char) -> bool {
    is_ident_start(c) || ('0' <= c && c <= '9')
}

/// Whether `c` may extend the parameter name accumulated so far.
pub open spec fn name_char_ok(name: Seq<char>, c: char) -> bool {
    if name.len() == 0 {
        is_ident_start(c)
    } else {
        is_ident_char(c)
    }
}

/// Appends the pending literal run to the accumulated segments; an empty run
/// adds no segment.
pub open spec fn flush_literal(acc: Seq<SegmentView>, lit: Seq<char>) -> Seq<SegmentView> {
    if lit.len() > 0 {
        acc.push(SegmentView::Literal { text: lit })
    } else {
        acc
    }
}

/// The template grammar, as a machine over the characters of `s` from
/// position `i` onward.  `lit`, `name` and `ty` are the pending literal run,
/// parameter name and type token; `acc` holds the segments already emitted.
pub open spec fn run_machine(
    s: Seq<char>,
    i: int,
    st: ParseState,
    lit: Seq<char>,
    name: Seq<char>,
    ty: Seq<char>,
    acc: Seq<SegmentView>,
) -> Result<Seq<SegmentView>, PathErrorView>
    decreases s.len() - i,
        when 0 <= i <= s.len()
{
    if i == s.len() {
        match st {
            ParseState::Path => Ok(flush_literal(acc, lit)),
            _ => Err(PathErrorView::UnexpectedEnd),
        }
    } else {
        let c = s[i];
        match st {
            ParseState::Path => {
                if c == '{' {
                    run_machine(
                        s,
                        i + 1,
                        ParseState::ParamName,
                        Seq::empty(),
                        Seq::empty(),
                        Seq::empty(),
                        flush_literal(acc, lit),
                    )
                } else {
                    run_machine(s, i + 1, ParseState::Path, lit.push(c), name, ty, acc)
                }
            },
            ParseState::ParamName => {
                if c == ':' {
                    if name.len() == 0 {
                        Err(PathErrorView::BadNameChar { pos: i, found: c })
                    } else {
                        run_machine(s, i + 1, ParseState::ParamType, lit, name, Seq::empty(), acc)
                    }
                } else if name_char_ok(name, c) {
                    run_machine(s, i + 1, ParseState::ParamName, lit, name.push(c), ty, acc)
                } else {
                    Err(PathErrorView::BadNameChar { pos: i, found: c })
                }
            },
            ParseState::ParamType => {
                if c == '}' {
                    match lookup_type(ty) {
                        Some(t) => run_machine(
                            s,
                            i + 1,
                            ParseState::Path,
                            Seq::empty(),
                            Seq::empty(),
                            Seq::empty(),
                            acc.push(SegmentView::Param { name, ty: t }),
                        ),
                        None => Err(PathErrorView::UnknownParamType { token: ty }),
                    }
                } else if c == '{' || c == ':' {
                    Err(PathErrorView::BadTypeChar { pos: i, found: c })
                } else {
                    run_machine(s, i + 1, ParseState::ParamType, lit, name, ty.push(c), acc)
                }
            },
        }
    }
}

/// What compiling a raw template returns: the segments of every accepted
/// input, the error of every rejected one.
pub open spec fn compile_spec(s: Seq<char>) -> Result<Seq<SegmentView>, PathErrorView> {
    run_machine(
        s,
        0,
        ParseState::Path,
        Seq::empty(),
        Seq::empty(),
        Seq::empty(),
        Seq::empty(),
    )
}

/// Compiles a raw path template into its segments.
///
/// The result is exactly what the grammar machine yields on the input: the
/// full segment sequence on acceptance, and the first error otherwise.
pub fn compile(raw: &str) -> (r: Result<PathTemplate, PathError>)
    ensures
        match r {
            Ok(t) => compile_spec(raw@) == Ok::<Seq<SegmentView>, PathErrorView>(t@),
            Err(e) => compile_spec(raw@) == Err::<Seq<SegmentView>, PathErrorView>(e@),
        },
{
    let n = raw.unicode_len();
    let mut segments: Vec<Segment> = Vec::new();
    let mut st = ParseState::Path;
    let mut i: usize = 0;
    // Start of the pending run: the literal in state `Path`, the name in
    // `ParamName`, the type token in `ParamType`.
    let mut tok_start: usize = 0;
    // The bounds of the parameter name while its type token is being read.
    let mut name_start: usize = 0;
    let mut name_end: usize = 0;
    proof {
        assert(raw@.subrange(0, 0) =~= Seq::<char>::empty());
        assert(seg_views(segments@) =~= Seq::<SegmentView>::empty());
    }
    while i < n
        invariant
            n == raw@.len(),
            0 <= i <= n,
            tok_start <= i,
            st == ParseState::ParamType ==> name_start <= name_end <= tok_start,
            match st {
                ParseState::Path => compile_spec(raw@) == run_machine(
                    raw@,
                    i as int,
                    ParseState::Path,
                    raw@.subrange(tok_start as int, i as int),
                    Seq::<char>::empty(),
                    Seq::<char>::empty(),
                    seg_views(segments@),
                ),
                ParseState::ParamName => compile_spec(raw@) == run_machine(
                    raw@,
                    i as int,
                    ParseState::ParamName,
                    Seq::<char>::empty(),
                    raw@.subrange(tok_start as int, i as int),
                    Seq::<char>::empty(),
                    seg_views(segments@),
                ),
                ParseState::ParamType => compile_spec(raw@) == run_machine(
                    raw@,
                    i as int,
                    ParseState::ParamType,
                    Seq::<char>::empty(),
                    raw@.subrange(name_start as int, name_end as int),
                    raw@.subrange(tok_start as int, i as int),
                    seg_views(segments@),
                ),
            },
        decreases n - i,
    {
        let c = raw.get_char(i);
        match st {
            ParseState::Path => {
                if c == '{' {
                    if tok_start < i {
                        let text = String::from_str(raw.substring_char(tok_start, i));
                        let ghost old_views = seg_views(segments@);
                        segments.push(Segment::Literal { text });
                        proof {
                            assert(seg_views(segments@) =~= flush_literal(
                                old_views,
                                raw@.subrange(tok_start as int, i as int),
                            ));
                        }
                    }
                    st = ParseState::ParamName;
                    i = i + 1;
                    tok_start = i;
                    proof {
                        assert(raw@.subrange(i as int, i as int) =~= Seq::<char>::empty());
                    }
                } else {
                    proof {
                        assert(raw@.subrange(tok_start as int, i + 1 as int) =~= raw@.subrange(
                            tok_start as int,
                            i as int,
                        ).push(raw@[i as int]));
                    }
                    i = i + 1;
                }
            },
            ParseState::ParamName => {
                if c == ':' {
                    if tok_start == i {
                        return Err(PathError::BadNameChar { pos: i, found: c });
                    }
                    name_start = tok_start;
                    name_end = i;
                    st = ParseState::ParamType;
                    i = i + 1;
                    tok_start = i;
                    proof {
                        assert(raw@.subrange(i as int, i as int) =~= Seq::<char>::empty());
                    }
                } else {
                    let ok = if tok_start == i {
                        ('a' <= c && c <= 'z') || ('A' <= c && c <= 'Z') || c == '_'
                    } else {
                        ('a' <= c && c <= 'z') || ('A' <= c && c <= 'Z') || c == '_' || ('0' <= c
                            && c <= '9')
                    };
                    if !ok {
                        return Err(PathError::BadNameChar { pos: i, found: c });
                    }
                    proof {
                        assert(raw@.subrange(tok_start as int, i + 1 as int) =~= raw@.subrange(
                            tok_start as int,
                            i as int,
                        ).push(raw@[i as int]));
                    }
                    i = i + 1;
                }
            },
            ParseState::ParamType => {
                if c == '}' {
                    let tok = String::from_str(raw.substring_char(tok_start, i));
                    match parse_type_token(tok.as_str()) {
                        Some(t) => {
                            let name = String::from_str(raw.substring_char(name_start, name_end));
                            let ghost old_views = seg_views(segments@);
                            segments.push(Segment::Param { name, ty: t });
                            proof {
                                assert(seg_views(segments@) =~= old_views.push(
                                    SegmentView::Param {
                                        name: raw@.subrange(name_start as int, name_end as int),
                                        ty: t,
                                    },
                                ));
                            }
                            st = ParseState::Path;
                            i = i + 1;
                            tok_start = i;
                            proof {
                                assert(raw@.subrange(i as int, i as int) =~= Seq::<
                                    char,
                                >::empty());
                            }
                        },
                        None => {
                            return Err(PathError::UnknownParamType { token: tok });
                        },
                    }
                } else if c == '{' || c == ':' {
                    return Err(PathError::BadTypeChar { pos: i, found: c });
                } else {
                    proof {
                        assert(raw@.subrange(tok_start as int, i + 1 as int) =~= raw@.subrange(
                            tok_start as int,
                            i as int,
                        ).push(raw@[i as int]));
                    }
                    i = i + 1;
                }
            },
        }
    }
    match st {
        ParseState::Path => {
            if tok_start < n {
                let text = String::from_str(raw.substring_char(tok_start, n));
                let ghost old_views = seg_views(segments@);
                segments.push(Segment::Literal { text });
                proof {
                    assert(seg_views(segments@) =~= flush_literal(
                        old_views,
                        raw@.subrange(tok_start as int, n as int),
                    ));
                }
            }
            Ok(PathTemplate { segments })
        },
        _ => Err(PathError::UnexpectedEnd),
    }
}

/// The dispatch encoding of one segment: a parameter becomes a
/// colon-prefixed capture, a literal stays as it is.
pub open spec fn seg_pattern(g: SegmentView) -> Seq<char> {
    match g {
        SegmentView::Literal { text } => text,
        SegmentView::Param { name, .. } => seq![':'] + name,
    }
}

/// The dispatch pattern of a template: its literals concatenated with a
/// `:name` placeholder for every parameter.
pub open spec fn pattern_of(t: Seq<SegmentView>) -> Seq<char>
    decreases t.len(),
{
    if t.len() == 0 {
        Seq::empty()
    } else {
        pattern_of(t.drop_last()) + seg_pattern(t.last())
    }
}

/// The raw text of one segment in template syntax.
pub open spec fn seg_source(g: SegmentView) -> Seq<char> {
    match g {
        SegmentView::Literal { text } => text,
        SegmentView::Param { name, ty } => seq!['{'] + name + seq![':'] + type_token(ty)
            + seq!['}'],
    }
}

/// The raw text of a template: what `compile` accepted.
pub open spec fn template_source(t: Seq<SegmentView>) -> Seq<char>
    decreases t.len(),
{
    if t.len() == 0 {
        Seq::empty()
    } else {
        template_source(t.drop_last()) + seg_source(t.last())
    }
}

/// A well-formed segment: a literal is a nonempty run without `{`, and a
/// parameter name is a nonempty identifier.
pub open spec fn seg_wf(g: SegmentView) -> bool {
    match g {
        SegmentView::Literal { text } => text.len() > 0 && (forall|j: int|
            0 <= j < text.len() ==> text[j] != '{'),
        SegmentView::Param { name, .. } => name.len() > 0 && is_ident_start(name[0]) && (forall|
            j: int,
        |
            0 <= j < name.len() ==> is_ident_char(name[j])),
    }
}

/// A well-formed template: every segment is well formed and no two literal
/// segments are adjacent.  `compile` only produces such templates.
pub open spec fn template_wf(t: Seq<SegmentView>) -> bool {
    (forall|k: int| 0 <= k < t.len() ==> seg_wf(#[trigger] t[k])) && (forall|k: int|
        0 < k < t.len() ==> !((#[trigger] t[k]) is Literal && t[k - 1] is Literal))
}

/// The raw text that the machine's pending accumulators stand for.
pub open spec fn pending_source(
    st: ParseState,
    lit: Seq<char>,
    name: Seq<char>,
    ty: Seq<char>,
) -> Seq<char> {
    match st {
        ParseState::Path => lit,
        ParseState::ParamName => seq!['{'] + name,
        ParseState::ParamType => seq!['{'] + name + seq![':'] + ty,
    }
}

/// What holds of the machine's arguments in any reachable mid-parse state.
pub open spec fn mid_wf(
    st: ParseState,
    lit: Seq<char>,
    name: Seq<char>,
    acc: Seq<SegmentView>,
) -> bool {
    &&& template_wf(acc)
    &&& (forall|j: int| 0 <= j < lit.len() ==> lit[j] != '{')
    &&& (st == ParseState::Path ==> acc.len() == 0 || !(acc.last() is Literal))
    &&& (st != ParseState::Path ==> lit.len() == 0)
    &&& (st == ParseState::ParamName ==> name.len() == 0 || (is_ident_start(name[0]) && (forall|
        j: int,
    |
        0 <= j < name.len() ==> is_ident_char(name[j]))))
    &&& (st == ParseState::ParamType ==> name.len() > 0 && is_ident_start(name[0]) && (forall|
        j: int,
    |
        0 <= j < name.len() ==> is_ident_char(name[j])))
}

proof fn lemma_source_push(t: Seq<SegmentView>, g: SegmentView)
    ensures
        template_source(t.push(g)) == template_source(t) + seg_source(g),
{
    assert(t.push(g).drop_last() =~= t);
    assert(t.push(g).last() == g);
}

proof fn lemma_wf_push(t: Seq<SegmentView>, g: SegmentView)
    requires
        template_wf(t),
        seg_wf(g),
        g is Literal ==> t.len() == 0 || !(t.last() is Literal),
    ensures
        template_wf(t.push(g)),
{
    let t2 = t.push(g);
    assert forall|k: int| 0 <= k < t2.len() implies seg_wf(#[trigger] t2[k]) by {
        if k < t.len() {
            assert(t2[k] == t[k]);
        }
    }
    assert forall|k: int| 0 < k < t2.len() implies !((#[trigger] t2[k]) is Literal && t2[k
        - 1] is Literal) by {
        if k < t.len() {
            assert(t2[k] == t[k]);
            assert(t2[k - 1] == t[k - 1]);
        } else {
            assert(t2[k] == g);
            if t.len() > 0 {
                assert(t2[k - 1] == t.last());
            }
        }
    }
}

/// Every accepted run of the machine yields a well-formed template whose raw
/// text is exactly the already-emitted text plus the pending text plus the
/// unread input.
proof fn lemma_machine_ok(
    s: Seq<char>,
    i: int,
    st: ParseState,
    lit: Seq<char>,
    name: Seq<char>,
    ty: Seq<char>,
    acc: Seq<SegmentView>,
    t: Seq<SegmentView>,
)
    requires
        0 <= i <= s.len(),
        mid_wf(st, lit, name, acc),
        run_machine(s, i, st, lit, name, ty, acc) == Ok::<Seq<SegmentView>, PathErrorView>(t),
    ensures
        template_wf(t),
        template_source(t) == template_source(acc) + pending_source(st, lit, name, ty)
            + s.subrange(i, s.len() as int),
    decreases s.len() - i,
{
    let n = s.len() as int;
    if i == n {
        assert(st == ParseState::Path);
        assert(t == flush_literal(acc, lit));
        assert(s.subrange(i, n) =~= Seq::<char>::empty());
        if lit.len() > 0 {
            let g = SegmentView::Literal { text: lit };
            lemma_source_push(acc, g);
            lemma_wf_push(acc, g);
            assert(template_source(t) =~= template_source(acc) + pending_source(
                st,
                lit,
                name,
                ty,
            ) + s.subrange(i, n));
        } else {
            assert(pending_source(st, lit, name, ty) =~= Seq::<char>::empty());
            assert(template_source(t) =~= template_source(acc) + pending_source(
                st,
                lit,
                name,
                ty,
            ) + s.subrange(i, n));
        }
    } else {
        let c = s[i];
        assert(s.subrange(i, n) =~= seq![c] + s.subrange(i + 1, n));
        match st {
            ParseState::Path => {
                if c == '{' {
                    let acc2 = flush_literal(acc, lit);
                    if lit.len() > 0 {
                        let g = SegmentView::Literal { text: lit };
                        lemma_source_push(acc, g);
                        lemma_wf_push(acc, g);
                    }
                    lemma_machine_ok(
                        s,
                        i + 1,
                        ParseState::ParamName,
                        Seq::empty(),
                        Seq::empty(),
                        Seq::empty(),
                        acc2,
                        t,
                    );
                    assert(template_source(acc2) == template_source(acc) + lit || (lit.len() == 0
                        && template_source(acc2) == template_source(acc)));
                    assert(template_source(t) =~= template_source(acc) + pending_source(
                        st,
                        lit,
                        name,
                        ty,
                    ) + s.subrange(i, n));
                } else {
                    lemma_machine_ok(s, i + 1, ParseState::Path, lit.push(c), name, ty, acc, t);
                    assert(template_source(t) =~= template_source(acc) + pending_source(
                        st,
                        lit,
                        name,
                        ty,
                    ) + s.subrange(i, n));
                }
            },
            ParseState::ParamName => {
                if c == ':' {
                    lemma_machine_ok(
                        s,
                        i + 1,
                        ParseState::ParamType,
                        lit,
                        name,
                        Seq::empty(),
                        acc,
                        t,
                    );
                    assert(template_source(t) =~= template_source(acc) + pending_source(
                        st,
                        lit,
                        name,
                        ty,
                    ) + s.subrange(i, n));
                } else {
                    assert(name_char_ok(name, c));
                    lemma_machine_ok(
                        s,
                        i + 1,
                        ParseState::ParamName,
                        lit,
                        name.push(c),
                        ty,
                        acc,
                        t,
                    );
                    assert(template_source(t) =~= template_source(acc) + pending_source(
                        st,
                        lit,
                        name,
                        ty,
                    ) + s.subrange(i, n));
                }
            },
            ParseState::ParamType => {
                if c == '}' {
                    let ty_ref = lookup_type(ty)->Some_0;
                    let g = SegmentView::Param { name, ty: ty_ref };
                    crate::param_type::lemma_lookup_token(ty, ty_ref);
                    lemma_source_push(acc, g);
                    lemma_wf_push(acc, g);
                    lemma_machine_ok(
                        s,
                        i + 1,
                        ParseState::Path,
                        Seq::empty(),
                        Seq::empty(),
                        Seq::empty(),
                        acc.push(g),
                        t,
                    );
                    assert(template_source(t) =~= template_source(acc) + pending_source(
                        st,
                        lit,
                        name,
                        ty,
                    ) + s.subrange(i, n));
                } else {
                    assert(!(c == '{' || c == ':'));
                    lemma_machine_ok(
                        s,
                        i + 1,
                        ParseState::ParamType,
                        lit,
                        name,
                        ty.push(c),
                        acc,
                        t,
                    );
                    assert(template_source(t) =~= template_source(acc) + pending_source(
                        st,
                        lit,
                        name,
                        ty,
                    ) + s.subrange(i, n));
                }
            },
        }
    }
}

/// Round trip: every template that `compile` accepts is well formed and its
/// raw text is exactly the accepted input — nothing of the input is dropped
/// or truncated, and rendering the segments reproduces the template.
pub proof fn lemma_compile_round_trip(s: Seq<char>, t: Seq<SegmentView>)
    requires
        compile_spec(s) == Ok::<Seq<SegmentView>, PathErrorView>(t),
    ensures
        template_wf(t),
        template_source(t) == s,
{
    lemma_machine_ok(
        s,
        0,
        ParseState::Path,
        Seq::empty(),
        Seq::empty(),
        Seq::empty(),
        Seq::empty(),
        t,
    );
    assert(template_source(Seq::<SegmentView>::empty()) + pending_source(
        ParseState::Path,
        Seq::empty(),
        Seq::empty(),
        Seq::empty(),
    ) + s.subrange(0, s.len() as int) =~= s);
}

proof fn lemma_source_unfold_front(t: Seq<SegmentView>)
    requires
        t.len() > 0,
    ensures
        template_source(t) == seg_source(t[0]) + template_source(t.drop_first()),
    decreases t.len(),
{
    if t.len() == 1 {
        assert(t.drop_last() =~= Seq::<SegmentView>::empty());
        assert(t.drop_first() =~= Seq::<SegmentView>::empty());
        assert(template_source(t) =~= seg_source(t[0]) + template_source(t.drop_first()));
    } else {
        let u = t.drop_last();
        lemma_source_unfold_front(u);
        assert(u[0] == t[0]);
        assert(t.drop_first().drop_last() =~= u.drop_first());
        assert(t.drop_first().last() == t.last());
        assert((seg_source(t[0]) + template_source(u.drop_first())) + seg_source(t.last()) =~= seg_source(
            t[0],
        ) + (template_source(u.drop_first()) + seg_source(t.last())));
    }
}

proof fn lemma_consume_literal(s: Seq<char>, i: int, j: int, lit: Seq<char>, acc: Seq<SegmentView>)
    requires
        0 <= i <= j <= s.len(),
        forall|m: int| i <= m < j ==> s[m] != '{',
    ensures
        run_machine(s, i, ParseState::Path, lit, Seq::empty(), Seq::empty(), acc) == run_machine(
            s,
            j,
            ParseState::Path,
            lit + s.subrange(i, j),
            Seq::empty(),
            Seq::empty(),
            acc,
        ),
    decreases j - i,
{
    if i == j {
        assert(lit + s.subrange(i, j) =~= lit);
    } else {
        lemma_consume_literal(s, i + 1, j, lit.push(s[i]), acc);
        assert(lit.push(s[i]) + s.subrange(i + 1, j) =~= lit + s.subrange(i, j));
    }
}

proof fn lemma_consume_name(s: Seq<char>, i: int, j: int, name: Seq<char>, acc: Seq<SegmentView>)
    requires
        0 <= i <= j <= s.len(),
        name.len() > 0,
        forall|m: int| i <= m < j ==> is_ident_char(#[trigger] s[m]),
    ensures
        run_machine(s, i, ParseState::ParamName, Seq::empty(), name, Seq::empty(), acc)
            == run_machine(
            s,
            j,
            ParseState::ParamName,
            Seq::empty(),
            name + s.subrange(i, j),
            Seq::empty(),
            acc,
        ),
    decreases j - i,
{
    if i == j {
        assert(name + s.subrange(i, j) =~= name);
    } else {
        assert(is_ident_char(s[i]));
        assert(s[i] != ':');
        assert(name_char_ok(name, s[i]));
        lemma_consume_name(s, i + 1, j, name.push(s[i]), acc);
        assert(name.push(s[i]) + s.subrange(i + 1, j) =~= name + s.subrange(i, j));
    }
}

proof fn lemma_consume_type(
    s: Seq<char>,
    i: int,
    j: int,
    name: Seq<char>,
    ty: Seq<char>,
    acc: Seq<SegmentView>,
)
    requires
        0 <= i <= j <= s.len(),
        forall|m: int| i <= m < j ==> s[m] != '{' && s[m] != ':' && (#[trigger] s[m]) != '}',
    ensures
        run_machine(s, i, ParseState::ParamType, Seq::empty(), name, ty, acc) == run_machine(
            s,
            j,
            ParseState::ParamType,
            Seq::empty(),
            name,
            ty + s.subrange(i, j),
            acc,
        ),
    decreases j - i,
{
    if i == j {
        assert(ty + s.subrange(i, j) =~= ty);
    } else {
        lemma_consume_type(s, i + 1, j, name, ty.push(s[i]), acc);
        assert(ty.push(s[i]) + s.subrange(i + 1, j) =~= ty + s.subrange(i, j));
    }
}

proof fn lemma_consume_param(
    s: Seq<char>,
    j: int,
    name: Seq<char>,
    ty: TypeRef,
    acc: Seq<SegmentView>,
)
    requires
        0 <= j,
        j + name.len() + 1 + type_token(ty).len() + 1 <= s.len(),
        name.len() > 0,
        is_ident_start(name[0]),
        forall|m: int| 0 <= m < name.len() ==> is_ident_char(#[trigger] name[m]),
        s.subrange(j, j + name.len() + 1 + type_token(ty).len() + 1) == name + seq![':']
            + type_token(ty) + seq!['}'],
    ensures
        run_machine(s, j, ParseState::ParamName, Seq::empty(), Seq::empty(), Seq::empty(), acc)
            == run_machine(
            s,
            j + name.len() + 1 + type_token(ty).len() + 1,
            ParseState::Path,
            Seq::empty(),
            Seq::empty(),
            Seq::empty(),
            acc.push(SegmentView::Param { name, ty }),
        ),
{
    let tok = type_token(ty);
    let piece = name + seq![':'] + tok + seq!['}'];
    let end = j + piece.len();
    assert forall|m: int| 0 <= m < piece.len() implies #[trigger] s[j + m] == piece.index(m) by {
        assert(s.subrange(j, end)[m] == s[j + m]);
    }
    // The name: its first character opens the parameter name, the rest
    // extend it.
    assert(s[j] == name[0]) by {
        assert(s[j + 0] == piece.index(0));
    }
    assert(name_char_ok(Seq::empty(), s[j]));
    assert(s[j] != ':');
    assert(Seq::<char>::empty().push(s[j]) =~= name.subrange(0, 1));
    assert forall|m: int| j + 1 <= m < j + name.len() implies is_ident_char(#[trigger] s[m])
        && s[m] == name[m - j] by {
        assert(s[j + (m - j)] == piece.index(m - j));
    }
    lemma_consume_name(s, j + 1, j + name.len(), name.subrange(0, 1), acc);
    assert(name.subrange(0, 1) + s.subrange(j + 1, j + name.len()) =~= name);
    // The colon after a nonempty name moves to the type token.
    assert(s[j + name.len()] == ':') by {
        assert(s[j + name.len()] == piece.index(name.len() as int));
    }
    // The token's characters extend the type token.
    crate::param_type::lemma_token_chars(ty);
    assert forall|m: int|
        j + name.len() + 1 <= m < j + name.len() + 1 + tok.len() implies (#[trigger] s[m]) == tok[m
        - (j + name.len() + 1)] by {
        assert(s[j + (m - j)] == piece.index(m - j));
    }
    assert(forall|m: int|
        j + name.len() + 1 <= m < j + name.len() + 1 + tok.len() ==> (#[trigger] s[m]) != '{' && s[m]
            != ':' && s[m] != '}');
    lemma_consume_type(s, j + name.len() + 1, j + name.len() + 1 + tok.len(), name, Seq::empty(), acc);
    assert(Seq::<char>::empty() + s.subrange(j + name.len() + 1, j + name.len() + 1 + tok.len())
        =~= tok);
    // The closing brace resolves the token and emits the parameter segment.
    assert(s[end - 1] == '}') by {
        assert(s[j + (name.len() + 1 + tok.len())] == piece.index(
            name.len() + 1 + tok.len() as int,
        ));
    }
    crate::param_type::lemma_type_token_round_trip(ty);
    assert(lookup_type(tok) == Some(ty));
}

/// Completeness of the grammar: the raw text of any well-formed template
/// compiles back to exactly that template.
pub proof fn lemma_source_compiles_back(t: Seq<SegmentView>)
    requires
        template_wf(t),
    ensures
        compile_spec(template_source(t)) == Ok::<Seq<SegmentView>, PathErrorView>(t),
{
    let s = template_source(t);
    assert(s.subrange(0, s.len() as int) =~= s);
    lemma_machine_completes(s, 0, Seq::empty(), t);
    assert(Seq::<SegmentView>::empty() + t =~= t);
}

#[verifier::rlimit(60)]
proof fn lemma_machine_completes(s: Seq<char>, i: int, acc: Seq<SegmentView>, t: Seq<SegmentView>)
    requires
        0 <= i <= s.len(),
        s.subrange(i, s.len() as int) == template_source(t),
        template_wf(t),
    ensures
        run_machine(s, i, ParseState::Path, Seq::empty(), Seq::empty(), Seq::empty(), acc)
            == Ok::<Seq<SegmentView>, PathErrorView>(acc + t),
    decreases t.len(),
{
    let n = s.len() as int;
    if t.len() == 0 {
        assert(i == n);
        assert(flush_literal(acc, Seq::empty()) =~= acc);
        assert(acc + t =~= acc);
    } else {
        lemma_source_unfold_front(t);
        let rest = t.drop_first();
        assert(forall|k: int| 0 <= k < rest.len() ==> rest[k] == t[k + 1]);
        assert(template_wf(rest));
        assert forall|m: int| 0 <= m < template_source(t).len() implies #[trigger] s[i + m]
            == template_source(t).index(m) by {
            assert(s.subrange(i, n)[m] == s[i + m]);
        }
        match t[0] {
            SegmentView::Param { name, ty } => {
                let tok = type_token(ty);
                let lp = 1 + name.len() + 1 + tok.len() + 1;
                assert(seg_source(t[0]).len() == lp);
                assert(n - i == template_source(t).len());
                assert(template_source(t).len() == lp + template_source(rest).len());
                assert(s[i] == '{') by {
                    assert(s[i + 0] == template_source(t).index(0));
                }
                assert forall|m: int| 0 <= m < lp - 1 implies s.subrange(i + 1, i + lp)[m] == (name
                    + seq![':'] + tok + seq!['}'])[m] by {
                    assert(s[i + (m + 1)] == template_source(t).index(m + 1));
                    assert(template_source(t).index(m + 1) == seg_source(t[0]).index(m + 1));
                }
                assert(s.subrange(i + 1, i + lp) =~= name + seq![':'] + tok + seq!['}']);
                assert(flush_literal(acc, Seq::empty()) =~= acc);
                lemma_consume_param(s, i + 1, name, ty, acc);
                assert forall|m: int| 0 <= m < n - (i + lp) implies s.subrange(i + lp, n)[m]
                    == template_source(rest)[m] by {
                    assert(s[i + (lp + m)] == template_source(t).index(lp + m));
                }
                assert(s.subrange(i + lp, n) =~= template_source(rest));
                lemma_machine_completes(s, i + lp, acc.push(t[0]), rest);
                assert(acc.push(t[0]) + rest =~= acc + t);
            },
            SegmentView::Literal { text } => {
                let k = text.len() as int;
                assert(n - i == template_source(t).len());
                assert(template_source(t).len() == k + template_source(rest).len());
                assert forall|m: int| i <= m < i + k implies #[trigger] s[m] == text[m - i] && s[m]
                    != '{' by {
                    assert(s[i + (m - i)] == template_source(t).index(m - i));
                    assert(template_source(t).index(m - i) == seg_source(t[0]).index(m - i));
                }
                lemma_consume_literal(s, i, i + k, Seq::empty(), acc);
                assert(Seq::<char>::empty() + s.subrange(i, i + k) =~= text);
                if t.len() == 1 {
                    assert(template_source(rest) =~= Seq::<char>::empty());
                    assert(i + k == n);
                    assert(flush_literal(acc, text) =~= acc.push(t[0]));
                    assert(acc.push(t[0]) =~= acc + t);
                } else {
                    assert(!(t[1] is Literal));
                    let name2 = t[1]->Param_name;
                    let ty2 = t[1]->Param_ty;
                    assert(t[1] == (SegmentView::Param { name: name2, ty: ty2 }));
                    lemma_source_unfold_front(rest);
                    let rest2 = rest.drop_first();
                    let tok2 = type_token(ty2);
                    let lp2 = 1 + name2.len() + 1 + tok2.len() + 1;
                    assert(rest[0] == t[1]);
                    assert(seg_source(t[1]).len() == lp2);
                    assert(template_source(rest).len() == lp2 + template_source(rest2).len());
                    assert forall|m: int| 0 <= m < template_source(rest).len() implies #[trigger] s[
                        i + k + m] == template_source(rest).index(m) by {
                        assert(s[i + (k + m)] == template_source(t).index(k + m));
                    }
                    assert(s[i + k] == '{') by {
                        assert(s[i + k + 0] == template_source(rest).index(0));
                        assert(template_source(rest).index(0) == seg_source(t[1]).index(0));
                    }
                    assert(flush_literal(acc, text) =~= acc.push(t[0]));
                    assert forall|m: int| 0 <= m < lp2 - 1 implies s.subrange(
                        i + k + 1,
                        i + k + lp2,
                    )[m] == (name2 + seq![':'] + tok2 + seq!['}'])[m] by {
                        assert(s[i + k + (m + 1)] == template_source(rest).index(m + 1));
                        assert(template_source(rest).index(m + 1) == seg_source(t[1]).index(m + 1));
                    }
                    assert(s.subrange(i + k + 1, i + k + lp2) =~= name2 + seq![':'] + tok2
                        + seq!['}']);
                    lemma_consume_param(s, i + k + 1, name2, ty2, acc.push(t[0]));
                    assert(forall|x: int| 0 <= x < rest2.len() ==> rest2[x] == rest[x + 1]);
                    assert(template_wf(rest2));
                    assert forall|m: int| 0 <= m < n - (i + k + lp2) implies s.subrange(
                        i + k + lp2,
                        n,
                    )[m] == template_source(rest2)[m] by {
                        assert(s[i + k + (lp2 + m)] == template_source(rest).index(lp2 + m));
                    }
                    assert(s.subrange(i + k + lp2, n) =~= template_source(rest2));
                    lemma_machine_completes(s, i + k + lp2, acc.push(t[0]).push(t[1]), rest2);
                    assert(acc.push(t[0]).push(t[1]) + rest2 =~= acc + t);
                }
            },
        }
    }
}

impl PathTemplate {
    /// The dispatch pattern of this template, with a `:name` placeholder for
    /// every parameter, for the underlying router.
    pub fn pattern(&self) -> (r: String)
        ensures
            r@ == pattern_of(self@),
    {
        let mut out = String::new();
        let n = self.segments.len();
        let mut k: usize = 0;
        while k < n
            invariant
                n == self.segments.len(),
                0 <= k <= n,
                out@ == pattern_of(seg_views(self.segments@).take(k as int)),
            decreases n - k,
        {
            let ghost pre = pattern_of(seg_views(self.segments@).take(k as int));
            match &self.segments[k] {
                Segment::Literal { text } => {
                    out.append(text.as_str());
                },
                Segment::Param { name, .. } => {
                    out.append(":");
                    out.append(name.as_str());
                    proof {
                        reveal_strlit(":");
                        assert(":"@ =~= seq![':']);
                        assert(pre + ":"@ + name@ =~= pre + (seq![':'] + name@));
                    }
                },
            }
            proof {
                let whole = seg_views(self.segments@);
                assert(whole.take(k + 1).drop_last() =~= whole.take(k as int));
                assert(whole.take(k + 1).last() == whole[k as int]);
            }
            k = k + 1;
        }
        proof {
            assert(seg_views(self.segments@).take(n as int) =~= seg_views(self.segments@));
        }
        out
    }

    /// The raw template text that this template compiles from.
    pub fn source(&self) -> (r: String)
        ensures
            r@ == template_source(self@),
    {
        let mut out = String::new();
        let n = self.segments.len();
        let mut k: usize = 0;
        while k < n
            invariant
                n == self.segments.len(),
                0 <= k <= n,
                out@ == template_source(seg_views(self.segments@).take(k as int)),
            decreases n - k,
        {
            let ghost pre = template_source(seg_views(self.segments@).take(k as int));
            match &self.segments[k] {
                Segment::Literal { text } => {
                    out.append(text.as_str());
                },
                Segment::Param { name, ty } => {
                    out.append("{");
                    out.append(name.as_str());
                    out.append(":");
                    out.append(token_string(*ty));
                    out.append("}");
                    proof {
                        reveal_strlit("{");
                        reveal_strlit(":");
                        reveal_strlit("}");
                        assert("{"@ =~= seq!['{']);
                        assert(":"@ =~= seq![':']);
                        assert("}"@ =~= seq!['}']);
                        assert(pre + "{"@ + name@ + ":"@ + type_token(*ty) + "}"@ =~= pre + (
                        seq!['{'] + name@ + seq![':'] + type_token(*ty) + seq!['}']));
                    }
                },
            }
            proof {
                let whole = seg_views(self.segments@);
                assert(whole.take(k + 1).drop_last() =~= whole.take(k as int));
                assert(whole.take(k + 1).last() == whole[k as int]);
            }
            k = k + 1;
        }
        proof {
            assert(seg_views(self.segments@).take(n as int) =~= seg_views(self.segments@));
        }
        out
    }
}

} // verus!

//! The router composer.
//!
//! Composition walks a group's registry entries read-only and produces one
//! routing table: each route entry contributes its method and dispatch
//! pattern, and each nested entry contributes the whole composition of its
//! child group with the mount prefix prepended to every path.  Because
//! nested entries always point to later-created groups, the recursion is
//! well founded with no cycle check.

use vstd::prelude::*;

use crate::method::HttpMethod;
use crate::registry::{entry_ok, registry_wf, GroupEntry, GroupEntryView, GroupId, GroupView, Registry};
use crate::route::HandlerId;

verus! {

/// One dispatchable route of a composed router.
pub struct RouteRef {
    pub method: HttpMethod,
    pub path: String,
    pub state_type: String,
    pub handler: HandlerId,
}

/// The mathematical model of a composed route.
pub struct RouteRefView {
    pub method: HttpMethod,
    pub path: Seq<char>,
    pub state_type: Seq<char>,
    pub handler: HandlerId,
}

impl View for RouteRef {
    type V = RouteRefView;

    open spec fn view(&self) -> RouteRefView {
        RouteRefView {
            method: self.method,
            path: self.path@,
            state_type: self.state_type@,
            handler: self.handler,
        }
    }
}

/// A composed router: the routes reachable from one root group, in
/// composition order.
pub struct Router {
    pub routes: Vec<RouteRef>,
}

impl View for Router {
    type V = Seq<RouteRefView>;

    open spec fn view(&self) -> Seq<RouteRefView> {
        route_views(self.routes@)
    }
}

/// The views of a sequence of composed routes.
pub open spec fn route_views(s: Seq<RouteRef>) -> Seq<RouteRefView> {
    s.map_values(|r: RouteRef| r@)
}

/// A composed route moved under a mount prefix.
pub open spec fn prefixed(prefix: Seq<char>, r: RouteRefView) -> RouteRefView {
    RouteRefView { method: r.method, path: prefix + r.path, state_type: r.state_type, handler: r.handler }
}

/// The routes that one group composes to.
pub open spec fn compose_group(groups: Seq<GroupView>, g: int) -> Seq<RouteRefView>
    decreases groups.len() - g, groups[g].entries.len(), 1int,
        when registry_wf(groups) && 0 <= g < groups.len()
{
    compose_entries(groups, g, groups[g].entries)
}

/// The routes that a prefix of one group's entries compose to, in order.
pub open spec fn compose_entries(
    groups: Seq<GroupView>,
    g: int,
    es: Seq<GroupEntryView>,
) -> Seq<RouteRefView>
    decreases groups.len() - g, es.len(), 0int,
        when registry_wf(groups) && 0 <= g < groups.len() && (forall|k: int|
            0 <= k < es.len() ==> entry_ok(g, groups.len() as int, #[trigger] es[k]))
{
    if es.len() == 0 {
        Seq::empty()
    } else {
        compose_entries(groups, g, es.drop_last()) + entry_routes(groups, g, es.last())
    }
}

/// The routes one entry contributes: a route entry its own dispatch pattern
/// under the group's state type, a nested entry its child's whole
/// composition under the mount prefix.
pub open spec fn entry_routes(
    groups: Seq<GroupView>,
    g: int,
    e: GroupEntryView,
) -> Seq<RouteRefView>
    decreases groups.len() - g, 0int, 1int,
        when registry_wf(groups) && 0 <= g < groups.len() && entry_ok(
            g,
            groups.len() as int,
            e,
        )
{
    match e {
        GroupEntryView::Route { route } => seq![
            RouteRefView {
                method: route.method,
                path: route.pattern,
                state_type: groups[g].state_type,
                handler: route.handler,
            },
        ],
        GroupEntryView::Nested { prefix, child } => compose_group(
            groups,
            child as int,
        ).map_values(|r: RouteRefView| prefixed(prefix, r)),
    }
}

fn compose_group_exec(reg: &Registry, g: usize, level: usize) -> (r: Vec<RouteRef>)
    requires
        reg.wf(),
        g < reg@.len(),
    ensures
        route_views(r@) == compose_group(reg@, g as int),
    decreases reg@.len() - g,
{
    let mut out: Vec<RouteRef> = Vec::new();
    let n_entries = reg.entry_count(g);
    let ghost es = reg@[g as int].entries;
    proof {
        assert(route_views(out@) =~= Seq::<RouteRefView>::empty());
        assert(es.take(0) =~= Seq::<GroupEntryView>::empty());
    }
    let mut k: usize = 0;
    while k < n_entries
        invariant
            reg.wf(),
            g < reg@.len(),
            n_entries == es.len(),
            es == reg@[g as int].entries,
            0 <= k <= n_entries,
            route_views(out@) == compose_entries(reg@, g as int, es.take(k as int)),
        decreases n_entries - k,
    {
        proof {
            assert(entry_ok(g as int, reg@.len() as int, reg@[g as int].entries[k as int]));
        }
        match reg.entry_at(g, k) {
            GroupEntry::Route { route } => {
                let rr = RouteRef {
                    method: route.method,
                    path: route.pattern.clone(),
                    state_type: reg.state_type_of(g).clone(),
                    handler: route.handler,
                };
                let ghost pre = route_views(out@);
                out.push(rr);
                proof {
                    assert(route_views(out@) =~= pre + entry_routes(reg@, g as int, es[k as int]));
                }
            },
            GroupEntry::Nested { prefix, child } => {
                let sub = compose_group_exec(reg, *child, level.saturating_add(4));
                let ghost mapped = entry_routes(reg@, g as int, es[k as int]);
                proof {
                    assert(mapped == compose_group(reg@, *child as int).map_values(
                        |r: RouteRefView| prefixed(prefix@, r),
                    ));
                    assert(mapped.len() == sub@.len());
                    assert(mapped.take(0) =~= Seq::<RouteRefView>::empty());
                    assert(route_views(out@) + mapped.take(0) =~= route_views(out@));
                }
                let ghost base = route_views(out@);
                let n_sub = sub.len();
                let mut j: usize = 0;
                while j < n_sub
                    invariant
                        n_sub == sub.len(),
                        0 <= j <= n_sub,
                        mapped.len() == sub@.len(),
                        forall|i: int|
                            0 <= i < sub@.len() ==> mapped[i] == prefixed(
                                prefix@,
                                #[trigger] sub@[i]@,
                            ),
                        route_views(out@) == base + mapped.take(j as int),
                    decreases n_sub - j,
                {
                    let item = &sub[j];
                    let mut path = prefix.clone();
                    path.append(item.path.as_str());
                    let rr = RouteRef {
                        method: item.method,
                        path,
                        state_type: item.state_type.clone(),
                        handler: item.handler,
                    };
                    let ghost pre = route_views(out@);
                    out.push(rr);
                    proof {
                        assert(item@ == sub@[j as int]@);
                        assert(rr@.path == prefix@ + sub@[j as int]@.path);
                        assert(mapped[j as int] == prefixed(prefix@, sub@[j as int]@));
                        assert(rr@ == mapped[j as int]);
                        assert(route_views(out@) =~= pre.push(rr@));
                        assert(mapped.take(j + 1) =~= mapped.take(j as int).push(
                            mapped[j as int],
                        ));
                        assert(route_views(out@) =~= base + mapped.take(j + 1));
                    }
                    j = j + 1;
                }
                proof {
                    assert(mapped.take(n_sub as int) =~= mapped);
                }
            },
        }
        proof {
            assert(es.take(k + 1).drop_last() =~= es.take(k as int));
            assert(es.take(k + 1).last() == es[k as int]);
            assert(forall|i: int|
                0 <= i < es.take(k + 1).len() ==> entry_ok(
                    g as int,
                    reg@.len() as int,
                    #[trigger] es.take(k + 1)[i],
                ));
            assert(compose_entries(reg@, g as int, es.take(k + 1)) == compose_entries(
                reg@,
                g as int,
                es.take(k as int),
            ) + entry_routes(reg@, g as int, es[k as int]));
        }
        k = k + 1;
    }
    proof {
        assert(es.take(n_entries as int) =~= es);
    }
    out
}

/// The (method, path, state-type) triple of one composed route.
pub open spec fn triple_of(r: RouteRefView) -> (HttpMethod, Seq<char>, Seq<char>) {
    (r.method, r.path, r.state_type)
}

/// The set of (method, path, state-type) triples of a routing table.
pub open spec fn route_triples(rs: Seq<RouteRefView>) -> Set<(HttpMethod, Seq<char>, Seq<char>)> {
    Set::new(
        |t: (HttpMethod, Seq<char>, Seq<char>)|
            exists|i: int| 0 <= i < rs.len() && triple_of(#[trigger] rs[i]) == t,
    )
}

proof fn lemma_triples_concat(a: Seq<RouteRefView>, b: Seq<RouteRefView>)
    ensures
        route_triples(a + b) == route_triples(a).union(route_triples(b)),
{
    assert forall|t: (HttpMethod, Seq<char>, Seq<char>)|
        route_triples(a + b).contains(t) implies route_triples(a).union(
        route_triples(b),
    ).contains(t) by {
        let i = choose|i: int| 0 <= i < (a + b).len() && triple_of(#[trigger] (a + b)[i]) == t;
        if i < a.len() {
            assert(triple_of(a[i]) == t);
        } else {
            assert(triple_of(b[i - a.len()]) == t);
        }
    }
    assert forall|t: (HttpMethod, Seq<char>, Seq<char>)|
        route_triples(a).union(route_triples(b)).contains(t) implies route_triples(
        a + b,
    ).contains(t) by {
        if route_triples(a).contains(t) {
            let i = choose|i: int| 0 <= i < a.len() && triple_of(#[trigger] a[i]) == t;
            assert(triple_of((a + b)[i]) == t);
        } else {
            let i = choose|i: int| 0 <= i < b.len() && triple_of(#[trigger] b[i]) == t;
            assert(triple_of((a + b)[a.len() + i]) == t);
        }
    }
    assert(route_triples(a + b) =~= route_triples(a).union(route_triples(b)));
}

/// A triple is reachable from a group's entries exactly when one entry
/// contributes it.
proof fn lemma_entries_triples(
    groups: Seq<GroupView>,
    g: int,
    es: Seq<GroupEntryView>,
    t: (HttpMethod, Seq<char>, Seq<char>),
)
    requires
        registry_wf(groups),
        0 <= g < groups.len(),
        forall|k: int| 0 <= k < es.len() ==> entry_ok(g, groups.len() as int, #[trigger] es[k]),
    ensures
        route_triples(compose_entries(groups, g, es)).contains(t) <==> exists|k: int|
            0 <= k < es.len() && route_triples(
                entry_routes(groups, g, #[trigger] es[k]),
            ).contains(t),
    decreases es.len(),
{
    if es.len() == 0 {
        assert(compose_entries(groups, g, es) =~= Seq::<RouteRefView>::empty());
        assert(!route_triples(compose_entries(groups, g, es)).contains(t));
    } else {
        let front = es.drop_last();
        assert(forall|k: int|
            0 <= k < front.len() ==> entry_ok(g, groups.len() as int, #[trigger] front[k]));
        lemma_entries_triples(groups, g, front, t);
        lemma_triples_concat(
            compose_entries(groups, g, front),
            entry_routes(groups, g, es.last()),
        );
        if route_triples(compose_entries(groups, g, es)).contains(t) {
            if route_triples(compose_entries(groups, g, front)).contains(t) {
                let k = choose|k: int|
                    0 <= k < front.len() && route_triples(
                        entry_routes(groups, g, #[trigger] front[k]),
                    ).contains(t);
                assert(front[k] == es[k]);
                assert(route_triples(entry_routes(groups, g, es[k])).contains(t));
            } else {
                assert(es.last() == es[es.len() - 1]);
                assert(route_triples(entry_routes(groups, g, es[es.len() - 1])).contains(t));
            }
        }
        if exists|k: int|
            0 <= k < es.len() && route_triples(
                entry_routes(groups, g, #[trigger] es[k]),
            ).contains(t) {
            let k = choose|k: int|
                0 <= k < es.len() && route_triples(
                    entry_routes(groups, g, #[trigger] es[k]),
                ).contains(t);
            if k < es.len() - 1 {
                assert(front[k] == es[k]);
                assert(route_triples(compose_entries(groups, g, front)).contains(t));
            } else {
                assert(es.last() == es[k]);
            }
            assert(route_triples(compose_entries(groups, g, es)).contains(t));
        }
    }
}

/// Composing one registry snapshot is deterministic: two compositions of the
/// same group yield the same table, and so the same set of
/// (method, path, state-type) triples, however often composition runs.
pub proof fn lemma_compose_idempotent(
    groups: Seq<GroupView>,
    g: int,
    r1: Seq<RouteRefView>,
    r2: Seq<RouteRefView>,
)
    requires
        registry_wf(groups),
        0 <= g < groups.len(),
        r1 == compose_group(groups, g),
        r2 == compose_group(groups, g),
    ensures
        r1 == r2,
        route_triples(r1) == route_triples(r2),
{
}

proof fn lemma_entry_triples_eq(
    g1: Seq<GroupView>,
    g2: Seq<GroupView>,
    g: int,
    e: GroupEntryView,
)
    requires
        registry_wf(g1),
        registry_wf(g2),
        g1.len() == g2.len(),
        0 <= g < g1.len(),
        forall|j: int| 0 <= j < g1.len() ==> (#[trigger] g2[j]).state_type == g1[j].state_type,
        forall|j: int|
            0 <= j < g1.len() ==> (#[trigger] g2[j]).entries.to_multiset()
                == g1[j].entries.to_multiset(),
        entry_ok(g, g1.len() as int, e),
    ensures
        route_triples(entry_routes(g1, g, e)) == route_triples(entry_routes(g2, g, e)),
    decreases g1.len() - g, 0int,
{
    match e {
        GroupEntryView::Route { route } => {
            assert(entry_routes(g1, g, e)[0] == entry_routes(g2, g, e)[0]);
            assert(entry_routes(g1, g, e) =~= entry_routes(g2, g, e));
        },
        GroupEntryView::Nested { prefix, child } => {
            lemma_compose_order_independent(g1, g2, child as int);
            let r1 = compose_group(g1, child as int);
            let r2 = compose_group(g2, child as int);
            let m1 = entry_routes(g1, g, e);
            let m2 = entry_routes(g2, g, e);
            assert forall|t: (HttpMethod, Seq<char>, Seq<char>)|
                m1 == r1.map_values(|r: RouteRefView| prefixed(prefix, r)) && m2
                    == r2.map_values(|r: RouteRefView| prefixed(prefix, r)) && route_triples(
                    m1,
                ).contains(t) implies route_triples(m2).contains(t) by {
                let i = choose|i: int| 0 <= i < m1.len() && triple_of(#[trigger] m1[i]) == t;
                assert(m1[i] == prefixed(prefix, r1[i]));
                assert(route_triples(r1).contains(triple_of(r1[i])));
                assert(route_triples(r2).contains(triple_of(r1[i])));
                let j = choose|j: int|
                    0 <= j < r2.len() && triple_of(#[trigger] r2[j]) == triple_of(r1[i]);
                assert(triple_of(m2[j]) == t);
            }
            assert forall|t: (HttpMethod, Seq<char>, Seq<char>)|
                m1 == r1.map_values(|r: RouteRefView| prefixed(prefix, r)) && m2
                    == r2.map_values(|r: RouteRefView| prefixed(prefix, r)) && route_triples(
                    m2,
                ).contains(t) implies route_triples(m1).contains(t) by {
                let i = choose|i: int| 0 <= i < m2.len() && triple_of(#[trigger] m2[i]) == t;
                assert(m2[i] == prefixed(prefix, r2[i]));
                assert(route_triples(r2).contains(triple_of(r2[i])));
                assert(route_triples(r1).contains(triple_of(r2[i])));
                let j = choose|j: int|
                    0 <= j < r1.len() && triple_of(#[trigger] r1[j]) == triple_of(r2[i]);
                assert(triple_of(m1[j]) == t);
            }
            assert(route_triples(m1) =~= route_triples(m2));
        },
    }
}

/// Registration order does not matter: two registries whose groups hold the
/// same entries as multisets — every permutation of the registration order
/// within each group — compose to the same set of (method, path, state-type)
/// triples.
pub proof fn lemma_compose_order_independent(g1: Seq<GroupView>, g2: Seq<GroupView>, g: int)
    requires
        registry_wf(g1),
        registry_wf(g2),
        g1.len() == g2.len(),
        0 <= g < g1.len(),
        forall|j: int| 0 <= j < g1.len() ==> (#[trigger] g2[j]).state_type == g1[j].state_type,
        forall|j: int|
            0 <= j < g1.len() ==> (#[trigger] g2[j]).entries.to_multiset()
                == g1[j].entries.to_multiset(),
    ensures
        route_triples(compose_group(g1, g)) == route_triples(compose_group(g2, g)),
    decreases g1.len() - g, 1int,
{
    let es1 = g1[g].entries;
    let es2 = g2[g].entries;
    let n = g1.len() as int;
    assert(forall|k: int| 0 <= k < es1.len() ==> entry_ok(g, n, #[trigger] es1[k]));
    assert(forall|k: int| 0 <= k < es2.len() ==> entry_ok(g, n, #[trigger] es2[k]));
    assert forall|t: (HttpMethod, Seq<char>, Seq<char>)|
        route_triples(compose_group(g1, g)).contains(t) implies route_triples(
        compose_group(g2, g),
    ).contains(t) by {
        lemma_entries_triples(g1, g, es1, t);
        let k = choose|k: int|
            0 <= k < es1.len() && route_triples(
                entry_routes(g1, g, #[trigger] es1[k]),
            ).contains(t);
        let e = es1[k];
        vstd::seq_lib::to_multiset_contains::<GroupEntryView>(es1, e);
        vstd::seq_lib::to_multiset_contains::<GroupEntryView>(es2, e);
        assert(es1.contains(e));
        assert(es2.contains(e));
        let j = choose|j: int| 0 <= j < es2.len() && es2[j] == e;
        lemma_entry_triples_eq(g1, g2, g, e);
        assert(route_triples(entry_routes(g2, g, es2[j])).contains(t));
        lemma_entries_triples(g2, g, es2, t);
    }
    assert forall|t: (HttpMethod, Seq<char>, Seq<char>)|
        route_triples(compose_group(g2, g)).contains(t) implies route_triples(
        compose_group(g1, g),
    ).contains(t) by {
        lemma_entries_triples(g2, g, es2, t);
        let k = choose|k: int|
            0 <= k < es2.len() && route_triples(
                entry_routes(g2, g, #[trigger] es2[k]),
            ).contains(t);
        let e = es2[k];
        vstd::seq_lib::to_multiset_contains::<GroupEntryView>(es1, e);
        vstd::seq_lib::to_multiset_contains::<GroupEntryView>(es2, e);
        assert(es2.contains(e));
        assert(es1.contains(e));
        let j = choose|j: int| 0 <= j < es1.len() && es1[j] == e;
        lemma_entry_triples_eq(g1, g2, g, e);
        assert(route_triples(entry_routes(g1, g, es1[j])).contains(t));
        lemma_entries_triples(g1, g, es1, t);
    }
    assert(route_triples(compose_group(g1, g)) =~= route_triples(compose_group(g2, g)));
}

/// Nesting reaches through: when a child group is mounted in `g` under a
/// prefix, every (method, path, state-type) triple of the child's own
/// composition is reachable in `g`'s composition at the prefixed path.
pub proof fn lemma_nested_reachable(
    groups: Seq<GroupView>,
    g: int,
    k: int,
    prefix: Seq<char>,
    child: GroupId,
    t: (HttpMethod, Seq<char>, Seq<char>),
)
    requires
        registry_wf(groups),
        0 <= g < groups.len(),
        0 <= k < groups[g].entries.len(),
        groups[g].entries[k] == (GroupEntryView::Nested { prefix, child }),
        route_triples(compose_group(groups, child as int)).contains(t),
    ensures
        route_triples(compose_group(groups, g)).contains((t.0, prefix + t.1, t.2)),
{
    let sub = compose_group(groups, child as int);
    let e = groups[g].entries[k];
    assert(entry_ok(g, groups.len() as int, e));
    let m = entry_routes(groups, g, e);
    let i = choose|i: int| 0 <= i < sub.len() && triple_of(#[trigger] sub[i]) == t;
    assert(m[i] == prefixed(prefix, sub[i]));
    assert(triple_of(m[i]) == (t.0, prefix + t.1, t.2));
    assert(route_triples(m).contains((t.0, prefix + t.1, t.2)));
    assert(forall|x: int|
        0 <= x < groups[g].entries.len() ==> entry_ok(
            g,
            groups.len() as int,
            #[trigger] groups[g].entries[x],
        ));
    lemma_entries_triples(groups, g, groups[g].entries, (t.0, prefix + t.1, t.2));
}

/// Composes the routing table of `group`: every route registered in it or in
/// a group nested below it, each nested route under its mount prefix.
/// Returns `None` exactly when no such group exists.
///
/// `level` is diagnostic nesting depth only, grown by a fixed step at every
/// nested group; as the contract shows, the composed table does not depend
/// on it.
pub fn create_router(reg: &Registry, group: GroupId, level: usize) -> (r: Option<Router>)
    requires
        reg.wf(),
    ensures
        match r {
            Some(rt) => group < reg@.len() && rt@ == compose_group(reg@, group as int),
            None => group >= reg@.len(),
        },
{
    if group < reg.num_groups() {
        Some(Router { routes: compose_group_exec(reg, group, level) })
    } else {
        None
    }
}

} // verus!

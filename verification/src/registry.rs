//! The group registry.
//!
//! Groups are named, typed buckets of entries.  Declaration sites anywhere
//! in a program register their routes and subgroups here during the load
//! phase; composition later reads the registry without mutating it.  A
//! subgroup is created together with the entry that mounts it in its parent,
//! so a child's index is always greater than its parent's and nesting can
//! never form a cycle.

use vstd::prelude::*;

use crate::route::{RouteDeclaration, RouteDeclarationView};

verus! {

/// The identity of a group: its index in creation order.
pub type GroupId = usize;

/// One registered entry of a group.
pub enum GroupEntry {
    /// A route of this group.
    Route { route: RouteDeclaration },
    /// A child group mounted under a path prefix.
    Nested { prefix: String, child: GroupId },
}

/// The mathematical model of a group entry.
pub enum GroupEntryView {
    Route { route: RouteDeclarationView },
    Nested { prefix: Seq<char>, child: GroupId },
}

impl View for GroupEntry {
    type V = GroupEntryView;

    open spec fn view(&self) -> GroupEntryView {
        match self {
            GroupEntry::Route { route } => GroupEntryView::Route { route: route@ },
            GroupEntry::Nested { prefix, child } => GroupEntryView::Nested {
                prefix: prefix@,
                child: *child,
            },
        }
    }
}

/// One group: its name, its shared application state type, and its entries
/// in registration order.
pub struct GroupDef {
    pub name: String,
    pub state_type: String,
    pub entries: Vec<GroupEntry>,
}

/// The mathematical model of a group.
pub struct GroupView {
    pub name: Seq<char>,
    pub state_type: Seq<char>,
    pub entries: Seq<GroupEntryView>,
}

impl View for GroupDef {
    type V = GroupView;

    open spec fn view(&self) -> GroupView {
        GroupView {
            name: self.name@,
            state_type: self.state_type@,
            entries: self.entries@.map_values(|e: GroupEntry| e@),
        }
    }
}

/// A nested entry may only point forward, to a group created after its
/// parent; a route entry is always fine.
pub open spec fn entry_ok(g: int, n: int, e: GroupEntryView) -> bool {
    match e {
        GroupEntryView::Route { .. } => true,
        GroupEntryView::Nested { child, .. } => g < child < n,
    }
}

/// Every nested entry points forward: nesting is acyclic by construction.
pub open spec fn registry_wf(groups: Seq<GroupView>) -> bool {
    forall|g: int, k: int|
        0 <= g < groups.len() && 0 <= k < groups[g].entries.len() ==> entry_ok(
            g,
            groups.len() as int,
            #[trigger] groups[g].entries[k],
        )
}

/// Asking for a group that was never created.
#[derive(Clone, Copy, Debug, PartialEq, Eq, Structural)]
pub enum RegistryError {
    NoSuchGroup,
}

/// The process-wide collection of groups and their registered entries.
pub struct Registry {
    groups: Vec<GroupDef>,
}

impl View for Registry {
    type V = Seq<GroupView>;

    closed spec fn view(&self) -> Seq<GroupView> {
        self.groups@.map_values(|g: GroupDef| g@)
    }
}

impl Registry {
    /// Acyclic nesting, an invariant of every registry this module hands
    /// out.
    pub open spec fn wf(&self) -> bool {
        registry_wf(self@)
    }

    /// An empty registry.
    pub fn new() -> (r: Registry)
        ensures
            r@ == Seq::<GroupView>::empty(),
            r.wf(),
    {
        let r = Registry { groups: Vec::new() };
        proof {
            assert(r@ =~= Seq::<GroupView>::empty());
        }
        r
    }

    /// How many groups exist.
    pub fn num_groups(&self) -> (n: usize)
        ensures
            n == self@.len(),
    {
        self.groups.len()
    }

    /// Creates a root group with the given name and state type.
    pub fn create_group(&mut self, name: String, state_type: String) -> (g: GroupId)
        requires
            old(self).wf(),
        ensures
            final(self).wf(),
            g == old(self)@.len(),
            (final(self)@ == old(self)@.push(
                GroupView { name: name@, state_type: state_type@, entries: Seq::empty() },
            )),
    {
        let g = self.groups.len();
        let ghost pre = self@;
        let gd = GroupDef { name, state_type, entries: Vec::new() };
        let ghost gv = gd@;
        self.groups.push(gd);
        proof {
            assert(gv.entries =~= Seq::<GroupEntryView>::empty());
            assert(self@ =~= pre.push(gv));
        }
        g
    }

    /// Creates a child group and mounts it in `parent` under `prefix`: the
    /// parent gains one nested entry whose target is the fresh group.
    pub fn create_subgroup(
        &mut self,
        name: String,
        state_type: String,
        parent: GroupId,
        prefix: String,
    ) -> (r: Result<GroupId, RegistryError>)
        requires
            old(self).wf(),
        ensures
            final(self).wf(),
            match r {
                Ok(child) => {
                    &&& parent < old(self)@.len()
                    &&& child == old(self)@.len()
                    &&& (final(self)@ == old(self)@.update(
                        parent as int,
                        GroupView {
                            name: old(self)@[parent as int].name,
                            state_type: old(self)@[parent as int].state_type,
                            entries: old(self)@[parent as int].entries.push(
                                GroupEntryView::Nested { prefix: prefix@, child: child as GroupId },
                            ),
                        },
                    ).push(
                        GroupView { name: name@, state_type: state_type@, entries: Seq::empty() },
                    ))
                },
                Err(e) => {
                    &&& e == RegistryError::NoSuchGroup
                    &&& parent >= old(self)@.len()
                    &&& final(self)@ == old(self)@
                },
            },
    {
        if parent >= self.groups.len() {
            return Err(RegistryError::NoSuchGroup);
        }
        let child = self.groups.len();
        let ghost pre = self@;
        let mut gd = self.groups.remove(parent);
        let ghost gv0 = gd@;
        gd.entries.push(GroupEntry::Nested { prefix, child });
        let ghost gv1 = gd@;
        self.groups.insert(parent, gd);
        proof {
            assert(gv1.entries =~= gv0.entries.push(gv1.entries.last()));
            assert(self@ =~= pre.update(parent as int, gv1));
        }
        let cd = GroupDef { name, state_type, entries: Vec::new() };
        let ghost cv = cd@;
        let ghost mid = self@;
        self.groups.push(cd);
        proof {
            assert(cv.entries =~= Seq::<GroupEntryView>::empty());
            assert(self@ =~= mid.push(cv));
            assert(registry_wf(self@)) by {
                assert forall|g: int, k: int|
                    0 <= g < self@.len() && 0 <= k < self@[g].entries.len() implies entry_ok(
                    g,
                    self@.len() as int,
                    #[trigger] self@[g].entries[k],
                ) by {
                    if g < pre.len() {
                        if g == parent && k == pre[g].entries.len() {
                        } else {
                            assert(self@[g].entries[k] == pre[g].entries[k]);
                            assert(entry_ok(g, pre.len() as int, pre[g].entries[k]));
                        }
                    }
                }
            }
        }
        Ok(child)
    }

    /// Registers a route into its group.
    pub fn register_route(&mut self, group: GroupId, route: RouteDeclaration) -> (r: Result<
        (),
        RegistryError,
    >)
        requires
            old(self).wf(),
        ensures
            final(self).wf(),
            match r {
                Ok(_) => {
                    &&& group < old(self)@.len()
                    &&& (final(self)@ == old(self)@.update(
                        group as int,
                        GroupView {
                            name: old(self)@[group as int].name,
                            state_type: old(self)@[group as int].state_type,
                            entries: old(self)@[group as int].entries.push(
                                GroupEntryView::Route { route: route@ },
                            ),
                        },
                    ))
                },
                Err(e) => {
                    &&& e == RegistryError::NoSuchGroup
                    &&& group >= old(self)@.len()
                    &&& final(self)@ == old(self)@
                },
            },
    {
        if group >= self.groups.len() {
            return Err(RegistryError::NoSuchGroup);
        }
        let ghost pre = self@;
        let mut gd = self.groups.remove(group);
        let ghost gv0 = gd@;
        gd.entries.push(GroupEntry::Route { route });
        let ghost gv1 = gd@;
        self.groups.insert(group, gd);
        proof {
            assert(gv1.entries =~= gv0.entries.push(gv1.entries.last()));
            assert(self@ =~= pre.update(group as int, gv1));
            assert(registry_wf(self@)) by {
                assert forall|g: int, k: int|
                    0 <= g < self@.len() && 0 <= k < self@[g].entries.len() implies entry_ok(
                    g,
                    self@.len() as int,
                    #[trigger] self@[g].entries[k],
                ) by {
                    if g == group && k == pre[g].entries.len() {
                    } else {
                        assert(self@[g].entries[k] == pre[g].entries[k]);
                        assert(entry_ok(g, pre.len() as int, pre[g].entries[k]));
                    }
                }
            }
        }
        Ok(())
    }

    /// How many entries a group holds.
    pub fn entry_count(&self, group: GroupId) -> (n: usize)
        requires
            group < self@.len(),
        ensures
            n == self@[group as int].entries.len(),
    {
        self.groups[group].entries.len()
    }

    /// One entry of a group, in registration order.
    pub fn entry_at(&self, group: GroupId, k: usize) -> (e: &GroupEntry)
        requires
            group < self@.len(),
            k < self@[group as int].entries.len(),
        ensures
            e@ == self@[group as int].entries[k as int],
    {
        &self.groups[group].entries[k]
    }

    /// The state type a group was created with.
    pub fn state_type_of(&self, group: GroupId) -> (s: &String)
        requires
            group < self@.len(),
        ensures
            s@ == self@[group as int].state_type,
    {
        &self.groups[group].state_type
    }

    /// The name a group was created with.
    pub fn group_name(&self, group: GroupId) -> (s: &String)
        requires
            group < self@.len(),
        ensures
            s@ == self@[group as int].name,
    {
        &self.groups[group].name
    }
}

} // verus!

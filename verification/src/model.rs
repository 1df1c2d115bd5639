//! The console's view of the host world's metadata: component descriptors,
//! archetypes, entity locations and registered resource types, held as plain
//! values. The host owns the live registries; a `WorldModel` is the read-only
//! snapshot a caller hands to one query.
use vstd::prelude::*;

verus! {

/// How a component type's data is laid out: dense columnar storage or a
/// sparse per-entity map.
#[derive(PartialEq, Eq, Structural, Clone, Copy, Debug)]
pub enum StorageKind {
    Table,
    SparseSet,
}

/// A registered component type: its fully-qualified name, storage
/// classification, and whether its data may be accessed from any worker.
pub struct ComponentInfo {
    pub name: String,
    pub storage: StorageKind,
    pub send_and_sync: bool,
}

/// One archetype: the id of its backing storage group, the entity ids
/// currently classified into it, and its component ids partitioned by
/// storage kind. The archetype's own id is its index in the registry.
pub struct ArchetypeInfo {
    pub table_id: usize,
    pub entities: Vec<usize>,
    pub table_components: Vec<usize>,
    pub sparse_set_components: Vec<usize>,
}

/// The metadata snapshot: components indexed by component id (id 0 is the
/// reserved invalid slot), archetypes indexed by archetype id, entity
/// locations indexed by entity index, and the component ids of registered
/// resource types.
pub struct WorldModel {
    pub components: Vec<Option<ComponentInfo>>,
    pub archetypes: Vec<ArchetypeInfo>,
    pub entities: Vec<Option<usize>>,
    pub resources: Vec<usize>,
}

/// Whether a component id is registered.
pub open spec fn spec_resolves(w: WorldModel, id: int) -> bool {
    0 <= id < w.components@.len() && w.components@[id] is Some
}

/// The name of a registered component.
pub open spec fn spec_component_name(w: WorldModel, id: int) -> Seq<char> {
    w.components@[id]->0.name@
}

/// An archetype's table-backed and sparse-set-backed component id sets share
/// no id.
pub open spec fn spec_disjoint_storage(a: ArchetypeInfo) -> bool {
    !(exists|c: usize|
        (#[trigger] a.table_components@.contains(c)) && a.sparse_set_components@.contains(c))
}

/// Every component id in the resource list is registered.
pub open spec fn spec_wf_resources(w: WorldModel) -> bool {
    forall|i: int|
        0 <= i < w.resources@.len() ==> spec_resolves(w, #[trigger] w.resources@[i] as int)
}

/// Every component id an archetype mentions is registered, and each
/// archetype's two component-id sets are disjoint.
pub open spec fn spec_wf_archetype_components(w: WorldModel) -> bool {
    &&& forall|a: int, j: int|
        0 <= a < w.archetypes@.len() && 0 <= j < w.archetypes@[a].table_components@.len()
            ==> spec_resolves(w, #[trigger] w.archetypes@[a].table_components@[j] as int)
    &&& forall|a: int, j: int|
        0 <= a < w.archetypes@.len() && 0 <= j < w.archetypes@[a].sparse_set_components@.len()
            ==> spec_resolves(w, #[trigger] w.archetypes@[a].sparse_set_components@[j] as int)
    &&& forall|a: int|
        0 <= a < w.archetypes@.len() ==> spec_disjoint_storage(#[trigger] w.archetypes@[a])
}

/// Membership coherence, one direction: every entity id an archetype lists is
/// a live location pointing back at that archetype, and no archetype lists an
/// id twice. Together these place each entity id in at most one member list,
/// at most once.
pub open spec fn spec_wf_membership(w: WorldModel) -> bool {
    &&& forall|a: int, j: int|
        0 <= a < w.archetypes@.len() && 0 <= j < w.archetypes@[a].entities@.len() ==> {
            &&& (#[trigger] w.archetypes@[a].entities@[j] as int) < w.entities@.len()
            &&& w.entities@[w.archetypes@[a].entities@[j] as int] == Some(a as usize)
        }
    &&& forall|a: int, j1: int, j2: int|
        0 <= a < w.archetypes@.len() && 0 <= j1 < j2 < w.archetypes@[a].entities@.len()
            ==> (#[trigger] w.archetypes@[a].entities@[j1]) != (#[trigger] w.archetypes@[
            a
        ].entities@[j2])
}

/// Membership coherence, the other direction: every live entity location
/// points at an existing archetype whose member list holds that entity id.
pub open spec fn spec_wf_locations(w: WorldModel) -> bool {
    forall|e: int|
        0 <= e < w.entities@.len() && w.entities@[e] is Some ==> {
            &&& ((#[trigger] w.entities@[e])->0 as int) < w.archetypes@.len()
            &&& w.archetypes@[w.entities@[e]->0 as int].entities@.contains(e as usize)
        }
}

/// Well-formedness of a snapshot: every component id an archetype or the
/// resource list mentions is registered, an archetype's two component-id sets
/// are disjoint, and the entity location table and the archetypes' member
/// lists agree — each entity id sits in exactly the one member list its
/// location names.
pub open spec fn wf(w: WorldModel) -> bool {
    &&& spec_wf_resources(w)
    &&& spec_wf_archetype_components(w)
    &&& spec_wf_membership(w)
    &&& spec_wf_locations(w)
}

/// Whether a vector of ids holds a given id.
pub fn vec_contains_usize(v: &Vec<usize>, x: usize) -> (r: bool)
    ensures
        r == v@.contains(x),
{
    let mut i: usize = 0;
    while i < v.len()
        invariant
            0 <= i <= v@.len(),
            forall|k: int| 0 <= k < i ==> v@[k] != x,
        decreases v@.len() - i,
    {
        if v[i] == x {
            return true;
        }
        i = i + 1;
    }
    false
}

fn check_resources(w: &WorldModel) -> (r: bool)
    ensures
        r == spec_wf_resources(*w),
{
    let mut i: usize = 0;
    while i < w.resources.len()
        invariant
            0 <= i <= w.resources@.len(),
            forall|k: int|
                0 <= k < i ==> spec_resolves(*w, #[trigger] w.resources@[k] as int),
        decreases w.resources@.len() - i,
    {
        let id = w.resources[i];
        if id >= w.components.len() {
            return false;
        }
        if w.components[id].is_none() {
            return false;
        }
        i = i + 1;
    }
    true
}

fn check_archetype_components(w: &WorldModel) -> (r: bool)
    ensures
        r == spec_wf_archetype_components(*w),
{
    let mut a: usize = 0;
    while a < w.archetypes.len()
        invariant
            0 <= a <= w.archetypes@.len(),
            forall|b: int, j: int|
                0 <= b < a && 0 <= j < w.archetypes@[b].table_components@.len()
                    ==> spec_resolves(*w, #[trigger] w.archetypes@[b].table_components@[j] as int),
            forall|b: int, j: int|
                0 <= b < a && 0 <= j < w.archetypes@[b].sparse_set_components@.len()
                    ==> spec_resolves(
                    *w,
                    #[trigger] w.archetypes@[b].sparse_set_components@[j] as int,
                ),
            forall|b: int|
                0 <= b < a ==> spec_disjoint_storage(#[trigger] w.archetypes@[b]),
        decreases w.archetypes@.len() - a,
    {
        let arch = &w.archetypes[a];
        let mut j: usize = 0;
        while j < arch.table_components.len()
            invariant
                0 <= j <= arch.table_components@.len(),
                arch == w.archetypes@[a as int],
                a < w.archetypes@.len(),
                forall|t: int|
                    0 <= t < j ==> spec_resolves(*w, #[trigger] arch.table_components@[t] as int),
                forall|t: int|
                    0 <= t < j ==> !arch.sparse_set_components@.contains(
                        #[trigger] arch.table_components@[t],
                    ),
            decreases arch.table_components@.len() - j,
        {
            let id = arch.table_components[j];
            if id >= w.components.len() {
                return false;
            }
            if w.components[id].is_none() {
                return false;
            }
            if vec_contains_usize(&arch.sparse_set_components, id) {
                proof {
                    assert(arch.table_components@[j as int] == id);
                    assert(arch.table_components@.contains(id));
                    assert(!spec_disjoint_storage(w.archetypes@[a as int]));
                }
                return false;
            }
            j = j + 1;
        }
        let mut j2: usize = 0;
        while j2 < arch.sparse_set_components.len()
            invariant
                0 <= j2 <= arch.sparse_set_components@.len(),
                arch == w.archetypes@[a as int],
                a < w.archetypes@.len(),
                forall|t: int|
                    0 <= t < j2 ==> spec_resolves(
                        *w,
                        #[trigger] arch.sparse_set_components@[t] as int,
                    ),
            decreases arch.sparse_set_components@.len() - j2,
        {
            let id = arch.sparse_set_components[j2];
            if id >= w.components.len() {
                return false;
            }
            if w.components[id].is_none() {
                return false;
            }
            j2 = j2 + 1;
        }
        proof {
            assert forall|c: usize|
                !((#[trigger] arch.table_components@.contains(c))
                    && arch.sparse_set_components@.contains(c)) by {
                if arch.table_components@.contains(c) {
                    let t = choose|t: int|
                        0 <= t < arch.table_components@.len() && arch.table_components@[t] == c;
                    assert(!arch.sparse_set_components@.contains(arch.table_components@[t]));
                }
            }
            assert(spec_disjoint_storage(w.archetypes@[a as int]));
        }
        a = a + 1;
    }
    true
}

fn check_membership(w: &WorldModel) -> (r: bool)
    ensures
        r == spec_wf_membership(*w),
{
    let mut a: usize = 0;
    while a < w.archetypes.len()
        invariant
            0 <= a <= w.archetypes@.len(),
            forall|b: int, j: int|
                0 <= b < a && 0 <= j < w.archetypes@[b].entities@.len() ==> {
                    &&& (#[trigger] w.archetypes@[b].entities@[j] as int) < w.entities@.len()
                    &&& w.entities@[w.archetypes@[b].entities@[j] as int] == Some(b as usize)
                },
            forall|b: int, j1: int, j2: int|
                0 <= b < a && 0 <= j1 < j2 < w.archetypes@[b].entities@.len()
                    ==> (#[trigger] w.archetypes@[b].entities@[j1]) != (#[trigger] w.archetypes@[
                    b
                ].entities@[j2]),
        decreases w.archetypes@.len() - a,
    {
        let arch = &w.archetypes[a];
        let mut j: usize = 0;
        while j < arch.entities.len()
            invariant
                0 <= j <= arch.entities@.len(),
                arch == w.archetypes@[a as int],
                a < w.archetypes@.len(),
                forall|t: int|
                    0 <= t < j ==> {
                        &&& (#[trigger] arch.entities@[t] as int) < w.entities@.len()
                        &&& w.entities@[arch.entities@[t] as int] == Some(a)
                    },
                forall|t1: int, t2: int|
                    0 <= t1 < t2 < arch.entities@.len() && t1 < j ==> (
                    #[trigger] arch.entities@[t1]) != (#[trigger] arch.entities@[t2]),
            decreases arch.entities@.len() - j,
        {
            let e = arch.entities[j];
            if e >= w.entities.len() {
                return false;
            }
            match &w.entities[e] {
                Some(b) => {
                    if *b != a {
                        return false;
                    }
                },
                None => {
                    return false;
                },
            }
            let mut j2: usize = j + 1;
            while j2 < arch.entities.len()
                invariant
                    j < j2 <= arch.entities@.len(),
                    arch == w.archetypes@[a as int],
                    a < w.archetypes@.len(),
                    e == arch.entities@[j as int],
                    forall|t2: int| j < t2 < j2 ==> (#[trigger] arch.entities@[t2]) != e,
                decreases arch.entities@.len() - j2,
            {
                if arch.entities[j2] == e {
                    return false;
                }
                j2 = j2 + 1;
            }
            j = j + 1;
        }
        a = a + 1;
    }
    true
}

fn check_locations(w: &WorldModel) -> (r: bool)
    ensures
        r == spec_wf_locations(*w),
{
    let mut e: usize = 0;
    while e < w.entities.len()
        invariant
            0 <= e <= w.entities@.len(),
            forall|k: int|
                0 <= k < e && w.entities@[k] is Some ==> {
                    &&& ((#[trigger] w.entities@[k])->0 as int) < w.archetypes@.len()
                    &&& w.archetypes@[w.entities@[k]->0 as int].entities@.contains(k as usize)
                },
        decreases w.entities@.len() - e,
    {
        match &w.entities[e] {
            Some(aid) => {
                if *aid >= w.archetypes.len() {
                    return false;
                }
                if !vec_contains_usize(&w.archetypes[*aid].entities, e) {
                    return false;
                }
            },
            None => {},
        }
        e = e + 1;
    }
    true
}

/// Runtime check of `wf`, for callers that receive a snapshot from outside.
pub fn wf_check(w: &WorldModel) -> (r: bool)
    ensures
        r == wf(*w),
{
    let resources_ok = check_resources(w);
    if !resources_ok {
        return false;
    }
    let components_ok = check_archetype_components(w);
    if !components_ok {
        return false;
    }
    let membership_ok = check_membership(w);
    if !membership_ok {
        return false;
    }
    check_locations(w)
}

} // verus!

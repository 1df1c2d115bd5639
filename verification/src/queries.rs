//! The metadata query engine: pure read operations over a `WorldModel`
//! snapshot, each returning the full formatted report text. Every function's
//! contract pins the exact character sequence produced.
use vstd::prelude::*;
use vstd::string::*;

use crate::model::ArchetypeInfo;
use crate::model::StorageKind;
use crate::model::WorldModel;
use crate::model::spec_component_name;
use crate::model::spec_resolves;
use crate::model::vec_contains_usize;
use crate::model::wf;
use crate::text::dec_string;
use crate::text::short_name;
use crate::text::sort_strings;
use crate::text::spec_contains;
use crate::text::spec_dec;
use crate::text::spec_lex_le;
use crate::text::spec_short_name;
use crate::text::spec_sort;
use crate::text::str_contains;
use crate::text::views;

verus! {

/// The `(id, name)` pairs a vector of component entries holds.
pub open spec fn entry_views(s: Seq<(usize, String)>) -> Seq<(int, Seq<char>)> {
    s.map_values(|p: (usize, String)| (p.0 as int, p.1@))
}

/// The name under which a component is listed: short or fully qualified.
pub open spec fn spec_listed_name(w: WorldModel, id: int, short: bool) -> Seq<char> {
    if short {
        spec_short_name(spec_component_name(w, id))
    } else {
        spec_component_name(w, id)
    }
}

/// Whether a listed name passes the optional substring filter.
pub open spec fn spec_passes_filter(name: Seq<char>, filter: Option<Seq<char>>) -> bool {
    match filter {
        Option::None => true,
        Option::Some(f) => spec_contains(name, f),
    }
}

/// The `(id, name)` pairs of all registered components from id `i` up, in
/// ascending id order, named per `short` and kept per `filter`.
pub open spec fn spec_component_entries(
    w: WorldModel,
    short: bool,
    filter: Option<Seq<char>>,
    i: int,
) -> Seq<(int, Seq<char>)>
    decreases w.components@.len() - i,
{
    if i < 0 || i >= w.components@.len() {
        Seq::empty()
    } else {
        let rest = spec_component_entries(w, short, filter, i + 1);
        if w.components@[i] is Some {
            let nm = spec_listed_name(w, i, short);
            if spec_passes_filter(nm, filter) {
                seq![(i, nm)] + rest
            } else {
                rest
            }
        } else {
            rest
        }
    }
}

/// Resolve component ids 1 up to the registry bound to `(id, name)` pairs,
/// named per `short`, kept per `filter`. The result is in ascending id order.
pub fn get_components_by_name(w: &WorldModel, short: bool, filter: Option<&str>) -> (r: Vec<
    (usize, String),
>)
    ensures
        entry_views(r@) == spec_component_entries(
            *w,
            short,
            match filter {
                Option::None => None,
                Option::Some(f) => Some(f@),
            },
            1,
        ),
{
    let ghost fspec: Option<Seq<char>> = match filter {
        Option::None => None,
        Option::Some(f) => Some(f@),
    };
    let mut r: Vec<(usize, String)> = Vec::new();
    let mut i: usize = 1;
    proof {
        assert(entry_views(r@) =~= Seq::<(int, Seq<char>)>::empty());
        if w.components@.len() < 1 {
            assert(spec_component_entries(*w, short, fspec, 1) =~= Seq::<(
                int,
                Seq<char>,
            )>::empty());
        }
    }
    while i < w.components.len()
        invariant
            1 <= i,
            fspec == (match filter {
                Option::None => None::<Seq<char>>,
                Option::Some(f) => Some(f@),
            }),
            entry_views(r@) + spec_component_entries(*w, short, fspec, i as int)
                == spec_component_entries(*w, short, fspec, 1),
        decreases w.components@.len() - i,
    {
        match &w.components[i] {
            Option::Some(info) => {
                let nm: String = if short {
                    short_name(info.name.as_str())
                } else {
                    info.name.clone()
                };
                let keep: bool = match filter {
                    Option::None => true,
                    Option::Some(f) => str_contains(nm.as_str(), f),
                };
                if keep {
                    let ghost before = r@;
                    r.push((i, nm));
                    proof {
                        assert(entry_views(r@) =~= entry_views(before).push(
                            (i as int, nm@),
                        ));
                        assert(entry_views(before).push((i as int, nm@)) =~= entry_views(before)
                            + seq![(i as int, nm@)]);
                        assert((entry_views(before) + seq![(i as int, nm@)])
                            + spec_component_entries(*w, short, fspec, i + 1) =~= entry_views(
                            before,
                        ) + (seq![(i as int, nm@)] + spec_component_entries(
                            *w,
                            short,
                            fspec,
                            i + 1,
                        )));
                    }
                }
            },
            Option::None => {},
        }
        i = i + 1;
    }
    proof {
        assert(spec_component_entries(*w, short, fspec, i as int) =~= Seq::<(
            int,
            Seq<char>,
        )>::empty());
        assert(entry_views(r@) + spec_component_entries(*w, short, fspec, i as int) =~= entry_views(
            r@,
        ));
    }
    r
}

/// One `id name` line per entry.
pub open spec fn spec_render_entries(s: Seq<(int, Seq<char>)>) -> Seq<char>
    decreases s.len(),
{
    if s.len() == 0 {
        Seq::empty()
    } else {
        spec_dec(s[0].0 as nat) + " "@ + s[0].1 + "\n"@ + spec_render_entries(s.drop_first())
    }
}

/// Render component entries as `id name` lines.
fn render_entries(entries: &Vec<(usize, String)>) -> (r: String)
    ensures
        r@ == spec_render_entries(entry_views(entries@)),
{
    let ghost ev = entry_views(entries@);
    let mut out = String::new();
    let mut k: usize = 0;
    proof {
        assert(ev.skip(0) =~= ev);
        assert(out@ + spec_render_entries(ev) =~= spec_render_entries(ev));
    }
    while k < entries.len()
        invariant
            0 <= k <= entries@.len(),
            ev == entry_views(entries@),
            out@ + spec_render_entries(ev.skip(k as int)) == spec_render_entries(ev),
        decreases entries@.len() - k,
    {
        let id = entries[k].0;
        let mut line = dec_string(id);
        line.append(" ");
        line.append(entries[k].1.as_str());
        line.append("\n");
        proof {
            assert(ev.skip(k as int).drop_first() =~= ev.skip(k + 1));
            assert(ev.skip(k as int)[0] == ev[k as int]);
            assert((out@ + line@) + spec_render_entries(ev.skip(k + 1)) =~= out@ + (line@
                + spec_render_entries(ev.skip(k + 1))));
        }
        out.append(line.as_str());
        k = k + 1;
    }
    proof {
        assert(ev.skip(k as int) =~= Seq::<(int, Seq<char>)>::empty());
        assert(out@ + spec_render_entries(ev.skip(k as int)) =~= out@);
    }
    out
}

/// The full `components list` report: a header line, then one `id name` line
/// per registered component that passes the filter, in ascending `(id, name)`
/// order.
pub open spec fn spec_list_components(
    w: WorldModel,
    short: bool,
    filter: Option<Seq<char>>,
) -> Seq<char> {
    "[component id] [component name]\n"@ + spec_render_entries(
        spec_component_entries(w, short, filter, 1),
    )
}

/// List registered components as `id name` lines under a header.
pub fn list_components(w: &WorldModel, short: bool, filter: Option<&str>) -> (r: String)
    ensures
        r@ == spec_list_components(
            *w,
            short,
            match filter {
                Option::None => None,
                Option::Some(f) => Some(f@),
            },
        ),
{
    let entries = get_components_by_name(w, short, filter);
    let mut out = String::new();
    out.append("[component id] [component name]\n");
    let lines = render_entries(&entries);
    out.append(lines.as_str());
    out
}

/// The short names of the registered resource types, in resource-list order.
pub open spec fn spec_resource_names(w: WorldModel, i: int) -> Seq<Seq<char>>
    decreases w.resources@.len() - i,
{
    if i < 0 || i >= w.resources@.len() {
        Seq::empty()
    } else {
        seq![spec_short_name(spec_component_name(w, w.resources@[i] as int))]
            + spec_resource_names(w, i + 1)
    }
}

/// One line per name.
pub open spec fn spec_render_names(s: Seq<Seq<char>>) -> Seq<char>
    decreases s.len(),
{
    if s.len() == 0 {
        Seq::empty()
    } else {
        s[0] + "\n"@ + spec_render_names(s.drop_first())
    }
}

/// The full `resources list` report: a header line, then the resource types'
/// short names sorted lexicographically ascending, one per line.
pub open spec fn spec_list_resources(w: WorldModel) -> Seq<char> {
    "[resource name]\n"@ + spec_render_names(spec_sort(spec_resource_names(w, 0)))
}

/// List the registered resource types' short names, sorted ascending.
pub fn list_resources(w: &WorldModel) -> (r: String)
    requires
        wf(*w),
    ensures
        r@ == spec_list_resources(*w),
{
    let mut names: Vec<String> = Vec::new();
    let mut i: usize = 0;
    proof {
        assert(views(names@) =~= Seq::<Seq<char>>::empty());
        assert(views(names@) + spec_resource_names(*w, 0) =~= spec_resource_names(*w, 0));
    }
    while i < w.resources.len()
        invariant
            wf(*w),
            0 <= i <= w.resources@.len(),
            views(names@) + spec_resource_names(*w, i as int) == spec_resource_names(*w, 0),
        decreases w.resources@.len() - i,
    {
        let id = w.resources[i];
        assert(spec_resolves(*w, id as int));
        let info = w.components[id].as_ref().unwrap();
        let nm = short_name(info.name.as_str());
        let ghost before = names@;
        names.push(nm);
        proof {
            assert(views(names@) =~= views(before).push(nm@));
            assert(views(before).push(nm@) =~= views(before) + seq![nm@]);
            assert((views(before) + seq![nm@]) + spec_resource_names(*w, i + 1) =~= views(before)
                + (seq![nm@] + spec_resource_names(*w, i + 1)));
        }
        i = i + 1;
    }
    proof {
        assert(spec_resource_names(*w, i as int) =~= Seq::<Seq<char>>::empty());
        assert(views(names@) + spec_resource_names(*w, i as int) =~= views(names@));
    }
    let sorted = sort_strings(&names);
    let ghost sv = views(sorted@);
    let mut out = String::new();
    out.append("[resource name]\n");
    let mut k: usize = 0;
    proof {
        assert(sv.skip(0) =~= sv);
    }
    while k < sorted.len()
        invariant
            0 <= k <= sorted@.len(),
            sv == views(sorted@),
            out@ + spec_render_names(sv.skip(k as int)) == spec_list_resources(*w),
        decreases sorted@.len() - k,
    {
        let mut line = sorted[k].clone();
        line.append("\n");
        proof {
            assert(sv.skip(k as int).drop_first() =~= sv.skip(k + 1));
            assert(sv.skip(k as int)[0] == sv[k as int]);
            assert((out@ + line@) + spec_render_names(sv.skip(k + 1)) =~= out@ + (line@
                + spec_render_names(sv.skip(k + 1))));
        }
        out.append(line.as_str());
        k = k + 1;
    }
    proof {
        assert(sv.skip(k as int) =~= Seq::<Seq<char>>::empty());
        assert(out@ + spec_render_names(sv.skip(k as int)) =~= out@);
    }
    out
}

/// One `index archetypeId` line per entity index that resolves to a live
/// location, from index `i` up.
pub open spec fn spec_entity_lines(w: WorldModel, i: int) -> Seq<char>
    decreases w.entities@.len() - i,
{
    if i < 0 || i >= w.entities@.len() {
        Seq::empty()
    } else {
        match w.entities@[i] {
            Option::Some(aid) => spec_dec(i as nat) + " "@ + spec_dec(aid as nat) + "\n"@
                + spec_entity_lines(w, i + 1),
            Option::None => spec_entity_lines(w, i + 1),
        }
    }
}

/// The full `entities list` report.
pub open spec fn spec_list_entities(w: WorldModel) -> Seq<char> {
    "[entity index] [archetype id]\n"@ + spec_entity_lines(w, 0)
}

/// List live entities as `index archetypeId` lines; indices with no live
/// location are skipped.
pub fn list_entities(w: &WorldModel) -> (r: String)
    ensures
        r@ == spec_list_entities(*w),
{
    let mut out = String::new();
    out.append("[entity index] [archetype id]\n");
    let mut i: usize = 0;
    while i < w.entities.len()
        invariant
            0 <= i <= w.entities@.len(),
            out@ + spec_entity_lines(*w, i as int) == spec_list_entities(*w),
        decreases w.entities@.len() - i,
    {
        match &w.entities[i] {
            Option::Some(aid) => {
                let mut line = dec_string(i);
                line.append(" ");
                let aid_str = dec_string(*aid);
                line.append(aid_str.as_str());
                line.append("\n");
                proof {
                    assert((out@ + line@) + spec_entity_lines(*w, i + 1) =~= out@ + (line@
                        + spec_entity_lines(*w, i + 1)));
                }
                out.append(line.as_str());
            },
            Option::None => {},
        }
        i = i + 1;
    }
    out
}

/// One `id entityCount` line per archetype, from archetype id `i` up.
pub open spec fn spec_archetype_lines(w: WorldModel, i: int) -> Seq<char>
    decreases w.archetypes@.len() - i,
{
    if i < 0 || i >= w.archetypes@.len() {
        Seq::empty()
    } else {
        spec_dec(i as nat) + " "@ + spec_dec(w.archetypes@[i].entities@.len() as nat) + "\n"@
            + spec_archetype_lines(w, i + 1)
    }
}

/// The full `archetypes list` report.
pub open spec fn spec_list_archetypes(w: WorldModel) -> Seq<char> {
    "[id] [entity count]\n"@ + spec_archetype_lines(w, 0)
}

/// List archetypes as `id entityCount` lines, in registry order.
pub fn list_archetypes(w: &WorldModel) -> (r: String)
    ensures
        r@ == spec_list_archetypes(*w),
{
    let mut out = String::new();
    out.append("[id] [entity count]\n");
    let mut i: usize = 0;
    while i < w.archetypes.len()
        invariant
            0 <= i <= w.archetypes@.len(),
            out@ + spec_archetype_lines(*w, i as int) == spec_list_archetypes(*w),
        decreases w.archetypes@.len() - i,
    {
        let mut line = dec_string(i);
        line.append(" ");
        let cnt = dec_string(w.archetypes[i].entities.len());
        line.append(cnt.as_str());
        line.append("\n");
        proof {
            assert((out@ + line@) + spec_archetype_lines(*w, i + 1) =~= out@ + (line@
                + spec_archetype_lines(*w, i + 1)));
        }
        out.append(line.as_str());
        i = i + 1;
    }
    out
}

/// The single `counts` line.
pub open spec fn spec_ecs_counts(w: WorldModel) -> Seq<char> {
    "entities: "@ + spec_dec(w.entities@.len() as nat) + ", components: "@ + spec_dec(
        w.components@.len() as nat,
    ) + ", archetypes: "@ + spec_dec(w.archetypes@.len() as nat) + "\n"@
}

/// Render the total entity, component and archetype counts on one line.
pub fn print_ecs_counts(w: &WorldModel) -> (r: String)
    ensures
        r@ == spec_ecs_counts(*w),
{
    let mut out = String::new();
    out.append("entities: ");
    let e = dec_string(w.entities.len());
    out.append(e.as_str());
    out.append(", components: ");
    let c = dec_string(w.components.len());
    out.append(c.as_str());
    out.append(", archetypes: ");
    let a = dec_string(w.archetypes.len());
    out.append(a.as_str());
    out.append("\n");
    out
}

/// Whether an archetype's component set (table or sparse set backed) holds a
/// component id.
pub open spec fn spec_has_component(a: ArchetypeInfo, cid: usize) -> bool {
    a.table_components@.contains(cid) || a.sparse_set_components@.contains(cid)
}

/// Whether an archetype holds a component id.
fn has_component(a: &ArchetypeInfo, cid: usize) -> (r: bool)
    ensures
        r == spec_has_component(*a, cid),
{
    if vec_contains_usize(&a.table_components, cid) {
        true
    } else {
        vec_contains_usize(&a.sparse_set_components, cid)
    }
}

/// The ids of all archetypes from id `i` up whose component set holds `cid`.
pub open spec fn spec_matching_archetypes(w: WorldModel, cid: usize, i: int) -> Seq<usize>
    decreases w.archetypes@.len() - i,
{
    if i < 0 || i >= w.archetypes@.len() {
        Seq::empty()
    } else if spec_has_component(w.archetypes@[i], cid) {
        seq![i as usize] + spec_matching_archetypes(w, cid, i + 1)
    } else {
        spec_matching_archetypes(w, cid, i + 1)
    }
}

/// The full `archetypes find --componentid` report: the not-found message
/// when no archetype's component set holds `cid`, else one `id, ` fragment
/// per matching archetype.
pub open spec fn spec_find_archetypes_by_component_id(w: WorldModel, cid: usize) -> Seq<char> {
    let ids = spec_matching_archetypes(w, cid, 0);
    if ids.len() == 0 {
        "no archetypes found\n"@
    } else {
        "archetype ids:\n"@ + spec_render_ids(ids) + "\n"@
    }
}

/// Report the ids of all archetypes whose component set holds `cid`.
pub fn find_archetypes_by_component_id(w: &WorldModel, cid: usize) -> (r: String)
    ensures
        r@ == spec_find_archetypes_by_component_id(*w, cid),
{
    let mut ids: Vec<usize> = Vec::new();
    let mut i: usize = 0;
    proof {
        assert(ids@ + spec_matching_archetypes(*w, cid, 0) =~= spec_matching_archetypes(
            *w,
            cid,
            0,
        ));
    }
    while i < w.archetypes.len()
        invariant
            0 <= i <= w.archetypes@.len(),
            ids@ + spec_matching_archetypes(*w, cid, i as int) == spec_matching_archetypes(
                *w,
                cid,
                0,
            ),
        decreases w.archetypes@.len() - i,
    {
        if has_component(&w.archetypes[i], cid) {
            let ghost before = ids@;
            ids.push(i);
            proof {
                assert(ids@ =~= before + seq![i as usize]);
                assert((before + seq![i as usize]) + spec_matching_archetypes(*w, cid, i + 1)
                    =~= before + (seq![i as usize] + spec_matching_archetypes(*w, cid, i + 1)));
            }
        }
        i = i + 1;
    }
    proof {
        assert(spec_matching_archetypes(*w, cid, i as int) =~= Seq::<usize>::empty());
        assert(ids@ + spec_matching_archetypes(*w, cid, i as int) =~= ids@);
    }
    if ids.len() == 0 {
        let mut out = String::new();
        out.append("no archetypes found\n");
        return out;
    }
    let mut out = String::new();
    out.append("archetype ids:\n");
    let frags = render_ids(&ids);
    out.append(frags.as_str());
    out.append("\n");
    out
}

/// The full `archetypes find --componentname` report: exactly one component
/// whose full name contains `name` delegates to the id-based search; zero
/// matches yield the not-found message; two or more yield the ambiguity
/// report listing every candidate.
pub open spec fn spec_find_archetypes_by_component_name(w: WorldModel, name: Seq<char>) -> Seq<
    char,
> {
    let ms = spec_component_entries(w, false, Some(name), 1);
    if ms.len() == 0 {
        "No component found with name "@ + name + "\n"@
    } else if ms.len() > 1 {
        "More than one component found with name "@ + name + "\n"@
            + "Consider searching with '--componentid' instead\n\n"@
            + "[component id] [component name]\n"@ + spec_render_entries(ms)
    } else {
        spec_find_archetypes_by_component_id(w, ms[0].0 as usize)
    }
}

/// Report the archetypes holding the component whose full name contains
/// `name`, requiring the match to be unique.
pub fn find_archetypes_by_component_name(w: &WorldModel, name: &str) -> (r: String)
    ensures
        r@ == spec_find_archetypes_by_component_name(*w, name@),
{
    let entries = get_components_by_name(w, false, Some(name));
    if entries.len() == 0 {
        let mut out = String::new();
        out.append("No component found with name ");
        out.append(name);
        out.append("\n");
        return out;
    }
    if entries.len() > 1 {
        let mut out = String::new();
        out.append("More than one component found with name ");
        out.append(name);
        out.append("\n");
        out.append("Consider searching with '--componentid' instead\n\n");
        out.append("[component id] [component name]\n");
        let lines = render_entries(&entries);
        out.append(lines.as_str());
        return out;
    }
    let id = entries[0].0;
    proof {
        assert(entry_views(entries@)[0].0 == id as int);
    }
    find_archetypes_by_component_id(w, id)
}

/// The id of the first archetype, from id `i` up, whose member list holds the
/// entity id.
pub open spec fn spec_arch_by_entity(w: WorldModel, eid: usize, i: int) -> Option<usize>
    decreases w.archetypes@.len() - i,
{
    if i < 0 || i >= w.archetypes@.len() {
        None
    } else if w.archetypes@[i].entities@.contains(eid) {
        Some(i as usize)
    } else {
        spec_arch_by_entity(w, eid, i + 1)
    }
}

/// The id of the archetype holding the entity, when one does.
pub fn get_archetype_id_by_entity_id(w: &WorldModel, eid: usize) -> (r: Option<usize>)
    ensures
        r == spec_arch_by_entity(*w, eid, 0),
{
    let mut i: usize = 0;
    while i < w.archetypes.len()
        invariant
            0 <= i <= w.archetypes@.len(),
            spec_arch_by_entity(*w, eid, i as int) == spec_arch_by_entity(*w, eid, 0),
        decreases w.archetypes@.len() - i,
    {
        if vec_contains_usize(&w.archetypes[i].entities, eid) {
            return Some(i);
        }
        i = i + 1;
    }
    None
}

/// The full `archetypes find --entityid` report: the header and the id of
/// the containing archetype when one exists, else the not-found message.
pub open spec fn spec_find_archetype_by_entity_id(w: WorldModel, eid: usize) -> Seq<char> {
    match spec_arch_by_entity(w, eid, 0) {
        Option::Some(id) => "archetype id:\n"@ + spec_dec(id as nat),
        Option::None => "no archetype found\n"@,
    }
}

/// Report the archetype holding the entity id.
pub fn find_archetype_by_entity_id(w: &WorldModel, eid: usize) -> (r: String)
    ensures
        r@ == spec_find_archetype_by_entity_id(*w, eid),
{
    let mut out = String::new();
    match get_archetype_id_by_entity_id(w, eid) {
        Option::Some(id) => {
            out.append("archetype id:\n");
            let ds = dec_string(id);
            out.append(ds.as_str());
        },
        Option::None => {
            out.append("no archetype found\n");
        },
    }
    out
}

/// The entity ids of all archetypes from id `i` up whose component set holds
/// `cid`, in host iteration order.
pub open spec fn spec_matching_entities(w: WorldModel, cid: usize, i: int) -> Seq<usize>
    decreases w.archetypes@.len() - i,
{
    if i < 0 || i >= w.archetypes@.len() {
        Seq::empty()
    } else if spec_has_component(w.archetypes@[i], cid) {
        w.archetypes@[i].entities@ + spec_matching_entities(w, cid, i + 1)
    } else {
        spec_matching_entities(w, cid, i + 1)
    }
}

/// The `id, ` fragments of a run of entity ids.
pub open spec fn spec_render_ids(s: Seq<usize>) -> Seq<char>
    decreases s.len(),
{
    if s.len() == 0 {
        Seq::empty()
    } else {
        spec_dec(s[0] as nat) + ", "@ + spec_render_ids(s.drop_first())
    }
}

/// The full `entities find --componentid` report: the not-found message when
/// no entity of any matching archetype exists, else one `id, ` fragment per
/// entity.
pub open spec fn spec_find_entities_by_component_id(w: WorldModel, cid: usize) -> Seq<char> {
    let es = spec_matching_entities(w, cid, 0);
    if es.len() == 0 {
        "no entites found\n"@
    } else {
        "entity ids:\n"@ + spec_render_ids(es) + "\n"@
    }
}

/// Report the ids of all entities of archetypes whose component set holds
/// `cid`.
pub fn find_entities_by_component_id(w: &WorldModel, cid: usize) -> (r: String)
    ensures
        r@ == spec_find_entities_by_component_id(*w, cid),
{
    let mut es: Vec<usize> = Vec::new();
    let mut i: usize = 0;
    proof {
        assert(es@ + spec_matching_entities(*w, cid, 0) =~= spec_matching_entities(*w, cid, 0));
    }
    while i < w.archetypes.len()
        invariant
            0 <= i <= w.archetypes@.len(),
            es@ + spec_matching_entities(*w, cid, i as int) == spec_matching_entities(*w, cid, 0),
        decreases w.archetypes@.len() - i,
    {
        if has_component(&w.archetypes[i], cid) {
            let arch = &w.archetypes[i];
            let ghost start = es@;
            let mut j: usize = 0;
            while j < arch.entities.len()
                invariant
                    0 <= j <= arch.entities@.len(),
                    arch == w.archetypes@[i as int],
                    i < w.archetypes@.len(),
                    es@ == start + arch.entities@.take(j as int),
                decreases arch.entities@.len() - j,
            {
                let e = arch.entities[j];
                es.push(e);
                proof {
                    assert(start + arch.entities@.take(j + 1) =~= (start + arch.entities@.take(
                        j as int,
                    )).push(arch.entities@[j as int]));
                }
                j = j + 1;
            }
            proof {
                assert(arch.entities@.take(arch.entities@.len() as int) =~= arch.entities@);
                assert((start + arch.entities@) + spec_matching_entities(*w, cid, i + 1) =~= start
                    + (arch.entities@ + spec_matching_entities(*w, cid, i + 1)));
            }
        }
        i = i + 1;
    }
    proof {
        assert(spec_matching_entities(*w, cid, i as int) =~= Seq::<usize>::empty());
        assert(es@ + spec_matching_entities(*w, cid, i as int) =~= es@);
    }
    if es.len() == 0 {
        let mut out = String::new();
        out.append("no entites found\n");
        return out;
    }
    let mut out = String::new();
    out.append("entity ids:\n");
    let ghost full = es@;
    let mut k: usize = 0;
    proof {
        assert(full.skip(0) =~= full);
    }
    while k < es.len()
        invariant
            0 <= k <= es@.len(),
            full == es@,
            full.len() > 0,
            out@ + spec_render_ids(full.skip(k as int)) + "\n"@
                == spec_find_entities_by_component_id(*w, cid),
        decreases es@.len() - k,
    {
        let mut frag = dec_string(es[k]);
        frag.append(", ");
        proof {
            assert(full.skip(k as int).drop_first() =~= full.skip(k + 1));
            assert(full.skip(k as int)[0] == full[k as int]);
            assert((out@ + frag@) + spec_render_ids(full.skip(k + 1)) =~= out@ + (frag@
                + spec_render_ids(full.skip(k + 1))));
            assert(((out@ + frag@) + spec_render_ids(full.skip(k + 1))) + "\n"@ =~= (out@ + (frag@
                + spec_render_ids(full.skip(k + 1)))) + "\n"@);
        }
        out.append(frag.as_str());
        k = k + 1;
    }
    proof {
        assert(spec_render_ids(full.skip(k as int)) =~= Seq::<char>::empty());
        assert(out@ + spec_render_ids(full.skip(k as int)) =~= out@);
    }
    out.append("\n");
    out
}

/// The per-match reports of `entities find --componentname`: every component
/// whose full name contains the searched name contributes its name header and
/// its own entity listing. Unlike the archetype search, the match need not be
/// unique.
pub open spec fn spec_entities_by_name_sections(w: WorldModel, ms: Seq<(int, Seq<char>)>) -> Seq<
    char,
>
    decreases ms.len(),
{
    if ms.len() == 0 {
        Seq::empty()
    } else {
        ms[0].1 + "\n"@ + spec_find_entities_by_component_id(w, ms[0].0 as usize) + "\n"@
            + spec_entities_by_name_sections(w, ms.drop_first())
    }
}

/// The full `entities find --componentname` report: the not-found message
/// when no component's full name contains `name`, else the per-match
/// sections.
pub open spec fn spec_find_entities_by_component_name(w: WorldModel, name: Seq<char>) -> Seq<
    char,
> {
    let ms = spec_component_entries(w, false, Some(name), 1);
    if ms.len() == 0 {
        "No component found with name "@ + name + "\n"@
    } else {
        spec_entities_by_name_sections(w, ms)
    }
}

/// Report, for every component whose full name contains `name`, the entities
/// of the archetypes holding it, each under its own name header; when no
/// component matches, report that none was found.
pub fn find_entities_by_component_name(w: &WorldModel, name: &str) -> (r: String)
    ensures
        r@ == spec_find_entities_by_component_name(*w, name@),
{
    let entries = get_components_by_name(w, false, Some(name));
    if entries.len() == 0 {
        let mut out = String::new();
        out.append("No component found with name ");
        out.append(name);
        out.append("\n");
        return out;
    }
    let ghost ev = entry_views(entries@);
    let mut out = String::new();
    let mut k: usize = 0;
    proof {
        assert(ev.skip(0) =~= ev);
        assert(out@ + spec_entities_by_name_sections(*w, ev) =~= spec_entities_by_name_sections(
            *w,
            ev,
        ));
    }
    while k < entries.len()
        invariant
            0 <= k <= entries@.len(),
            ev == entry_views(entries@),
            out@ + spec_entities_by_name_sections(*w, ev.skip(k as int))
                == spec_entities_by_name_sections(*w, ev),
        decreases entries@.len() - k,
    {
        let mut section = entries[k].1.clone();
        section.append("\n");
        let body = find_entities_by_component_id(w, entries[k].0);
        section.append(body.as_str());
        section.append("\n");
        proof {
            assert(ev.skip(k as int).drop_first() =~= ev.skip(k + 1));
            assert(ev.skip(k as int)[0] == ev[k as int]);
            assert((out@ + section@) + spec_entities_by_name_sections(*w, ev.skip(k + 1)) =~= out@
                + (section@ + spec_entities_by_name_sections(*w, ev.skip(k + 1))));
        }
        out.append(section.as_str());
        k = k + 1;
    }
    proof {
        assert(ev.skip(k as int) =~= Seq::<(int, Seq<char>)>::empty());
        assert(out@ + spec_entities_by_name_sections(*w, ev.skip(k as int)) =~= out@);
    }
    out
}

/// The `id shortName, ` fragments of a run of component ids.
pub open spec fn spec_render_comp_refs(w: WorldModel, s: Seq<usize>) -> Seq<char>
    decreases s.len(),
{
    if s.len() == 0 {
        Seq::empty()
    } else {
        spec_dec(s[0] as nat) + " "@ + spec_short_name(spec_component_name(w, s[0] as int))
            + ", "@ + spec_render_comp_refs(w, s.drop_first())
    }
}

/// Render a run of component ids as `id shortName, ` fragments.
fn render_comp_refs(w: &WorldModel, v: &Vec<usize>) -> (r: String)
    requires
        forall|k: int| 0 <= k < v@.len() ==> spec_resolves(*w, #[trigger] v@[k] as int),
    ensures
        r@ == spec_render_comp_refs(*w, v@),
{
    let ghost full = v@;
    let mut out = String::new();
    let mut k: usize = 0;
    proof {
        assert(full.skip(0) =~= full);
        assert(out@ + spec_render_comp_refs(*w, full) =~= spec_render_comp_refs(*w, full));
    }
    while k < v.len()
        invariant
            0 <= k <= v@.len(),
            full == v@,
            forall|t: int| 0 <= t < v@.len() ==> spec_resolves(*w, #[trigger] v@[t] as int),
            out@ + spec_render_comp_refs(*w, full.skip(k as int)) == spec_render_comp_refs(
                *w,
                full,
            ),
        decreases v@.len() - k,
    {
        let cid = v[k];
        assert(spec_resolves(*w, cid as int));
        let info = w.components[cid].as_ref().unwrap();
        let mut frag = dec_string(cid);
        frag.append(" ");
        let nm = short_name(info.name.as_str());
        frag.append(nm.as_str());
        frag.append(", ");
        proof {
            assert(full.skip(k as int).drop_first() =~= full.skip(k + 1));
            assert(full.skip(k as int)[0] == full[k as int]);
            assert((out@ + frag@) + spec_render_comp_refs(*w, full.skip(k + 1)) =~= out@ + (frag@
                + spec_render_comp_refs(*w, full.skip(k + 1))));
        }
        out.append(frag.as_str());
        k = k + 1;
    }
    proof {
        assert(full.skip(k as int) =~= Seq::<usize>::empty());
        assert(out@ + spec_render_comp_refs(*w, full.skip(k as int)) =~= out@);
    }
    out
}

/// The full `archetypes info --id` report: the archetype's id, its backing
/// table id, its member entity ids, and its component lists split by storage
/// kind; or the not-found message when the id does not resolve.
pub open spec fn spec_print_archetype(w: WorldModel, aid: usize) -> Seq<char> {
    if (aid as int) < w.archetypes@.len() {
        let a = w.archetypes@[aid as int];
        "id: "@ + spec_dec(aid as nat) + "\n"@ + "table_id: "@ + spec_dec(a.table_id as nat)
            + "\n"@ + "entities ("@ + spec_dec(a.entities@.len() as nat) + "): "@
            + spec_render_ids(a.entities@) + "\n"@ + "table_components ("@ + spec_dec(
            a.table_components@.len() as nat,
        ) + "): "@ + spec_render_comp_refs(w, a.table_components@) + "\n"@
            + "sparse set components ("@ + spec_dec(a.sparse_set_components@.len() as nat) + "): "@
            + spec_render_comp_refs(w, a.sparse_set_components@) + "\n"@
    } else {
        "No archetype found with id: "@ + spec_dec(aid as nat) + "\n"@
    }
}

/// Render the `id, ` fragments of a vector of entity ids.
fn render_ids(v: &Vec<usize>) -> (r: String)
    ensures
        r@ == spec_render_ids(v@),
{
    let ghost full = v@;
    let mut out = String::new();
    let mut k: usize = 0;
    proof {
        assert(full.skip(0) =~= full);
        assert(out@ + spec_render_ids(full) =~= spec_render_ids(full));
    }
    while k < v.len()
        invariant
            0 <= k <= v@.len(),
            full == v@,
            out@ + spec_render_ids(full.skip(k as int)) == spec_render_ids(full),
        decreases v@.len() - k,
    {
        let mut frag = dec_string(v[k]);
        frag.append(", ");
        proof {
            assert(full.skip(k as int).drop_first() =~= full.skip(k + 1));
            assert(full.skip(k as int)[0] == full[k as int]);
            assert((out@ + frag@) + spec_render_ids(full.skip(k + 1)) =~= out@ + (frag@
                + spec_render_ids(full.skip(k + 1))));
        }
        out.append(frag.as_str());
        k = k + 1;
    }
    proof {
        assert(full.skip(k as int) =~= Seq::<usize>::empty());
        assert(out@ + spec_render_ids(full.skip(k as int)) =~= out@);
    }
    out
}

/// Describe one archetype, or report that the id does not resolve.
pub fn print_archetype(w: &WorldModel, aid: usize) -> (r: String)
    requires
        wf(*w),
    ensures
        r@ == spec_print_archetype(*w, aid),
{
    if aid >= w.archetypes.len() {
        let mut out = String::new();
        out.append("No archetype found with id: ");
        let ds = dec_string(aid);
        out.append(ds.as_str());
        out.append("\n");
        return out;
    }
    let a = &w.archetypes[aid];
    let mut out = String::new();
    out.append("id: ");
    let ds = dec_string(aid);
    out.append(ds.as_str());
    out.append("\n");
    out.append("table_id: ");
    let ts = dec_string(a.table_id);
    out.append(ts.as_str());
    out.append("\n");
    out.append("entities (");
    let ec = dec_string(a.entities.len());
    out.append(ec.as_str());
    out.append("): ");
    let el = render_ids(&a.entities);
    out.append(el.as_str());
    out.append("\n");
    out.append("table_components (");
    let tc = dec_string(a.table_components.len());
    out.append(tc.as_str());
    out.append("): ");
    let tl = render_comp_refs(w, &a.table_components);
    out.append(tl.as_str());
    out.append("\n");
    out.append("sparse set components (");
    let sc = dec_string(a.sparse_set_components.len());
    out.append(sc.as_str());
    out.append("): ");
    let sl = render_comp_refs(w, &a.sparse_set_components);
    out.append(sl.as_str());
    out.append("\n");
    out
}

/// The full `components info --id` report: name, id, storage classification
/// and thread-affinity flag; or the not-found message when the id does not
/// resolve.
pub open spec fn spec_print_component(w: WorldModel, cid: usize) -> Seq<char> {
    if spec_resolves(w, cid as int) {
        let info = w.components@[cid as int]->0;
        "Name: "@ + info.name@ + "\n"@ + "Id: "@ + spec_dec(cid as nat) + "\n"@
            + "StorageType: "@ + (match info.storage {
            StorageKind::Table => "Table\n"@,
            StorageKind::SparseSet => "SparseSet\n"@,
        }) + "SendAndSync: "@ + (if info.send_and_sync {
            "true\n"@
        } else {
            "false\n"@
        })
    } else {
        "No component found with id: "@ + spec_dec(cid as nat)
    }
}

/// Describe one component, or report that the id does not resolve.
pub fn print_component(w: &WorldModel, cid: usize) -> (r: String)
    ensures
        r@ == spec_print_component(*w, cid),
{
    if cid >= w.components.len() {
        let mut out = String::new();
        out.append("No component found with id: ");
        let ds = dec_string(cid);
        out.append(ds.as_str());
        return out;
    }
    match &w.components[cid] {
        Option::Some(info) => {
            let mut out = String::new();
            out.append("Name: ");
            out.append(info.name.as_str());
            out.append("\n");
            out.append("Id: ");
            let ds = dec_string(cid);
            out.append(ds.as_str());
            out.append("\n");
            out.append("StorageType: ");
            match info.storage {
                StorageKind::Table => out.append("Table\n"),
                StorageKind::SparseSet => out.append("SparseSet\n"),
            }
            out.append("SendAndSync: ");
            if info.send_and_sync {
                out.append("true\n");
            } else {
                out.append("false\n");
            }
            out
        },
        Option::None => {
            let mut out = String::new();
            out.append("No component found with id: ");
            let ds = dec_string(cid);
            out.append(ds.as_str());
            out
        },
    }
}

/// The per-match reports of `components info --name`: every component whose
/// full name contains the searched name is described in turn.
pub open spec fn spec_component_by_name_sections(w: WorldModel, ms: Seq<(int, Seq<char>)>) -> Seq<
    char,
>
    decreases ms.len(),
{
    if ms.len() == 0 {
        Seq::empty()
    } else {
        spec_print_component(w, ms[0].0 as usize) + "\n"@ + spec_component_by_name_sections(
            w,
            ms.drop_first(),
        )
    }
}

/// The full `components info --name` report: the not-found message when no
/// component's full name contains `name`, else one description per match.
pub open spec fn spec_print_component_by_name(w: WorldModel, name: Seq<char>) -> Seq<char> {
    let ms = spec_component_entries(w, false, Some(name), 1);
    if ms.len() == 0 {
        "No component found with name "@ + name + "\n"@
    } else {
        spec_component_by_name_sections(w, ms)
    }
}

/// Describe every component whose full name contains `name`; when none
/// matches, report that none was found.
pub fn print_component_by_name(w: &WorldModel, name: &str) -> (r: String)
    ensures
        r@ == spec_print_component_by_name(*w, name@),
{
    let entries = get_components_by_name(w, false, Some(name));
    if entries.len() == 0 {
        let mut out = String::new();
        out.append("No component found with name ");
        out.append(name);
        out.append("\n");
        return out;
    }
    let ghost ev = entry_views(entries@);
    let mut out = String::new();
    let mut k: usize = 0;
    proof {
        assert(ev.skip(0) =~= ev);
        assert(out@ + spec_component_by_name_sections(*w, ev)
            =~= spec_component_by_name_sections(*w, ev));
    }
    while k < entries.len()
        invariant
            0 <= k <= entries@.len(),
            ev == entry_views(entries@),
            out@ + spec_component_by_name_sections(*w, ev.skip(k as int))
                == spec_component_by_name_sections(*w, ev),
        decreases entries@.len() - k,
    {
        let mut section = print_component(w, entries[k].0);
        section.append("\n");
        proof {
            assert(ev.skip(k as int).drop_first() =~= ev.skip(k + 1));
            assert(ev.skip(k as int)[0] == ev[k as int]);
            assert((out@ + section@) + spec_component_by_name_sections(*w, ev.skip(k + 1)) =~= out@
                + (section@ + spec_component_by_name_sections(*w, ev.skip(k + 1))));
        }
        out.append(section.as_str());
        k = k + 1;
    }
    proof {
        assert(ev.skip(k as int) =~= Seq::<(int, Seq<char>)>::empty());
        assert(out@ + spec_component_by_name_sections(*w, ev.skip(k as int)) =~= out@);
    }
    out
}

/// Soundness, strict id order, and completeness of the component entry
/// listing from id `lo` up: every row is a registered component with its
/// listed name and passes the filter; row ids strictly increase; and every
/// registered id at or past `lo` whose listed name passes the filter has its
/// row present.
pub proof fn lemma_component_entries_chars(
    w: WorldModel,
    short: bool,
    filter: Option<Seq<char>>,
    lo: int,
)
    requires
        lo >= 0,
    ensures
        ({
            let rows = spec_component_entries(w, short, filter, lo);
            &&& forall|k: int|
                0 <= k < rows.len() ==> {
                    &&& lo <= (#[trigger] rows[k]).0 < w.components@.len()
                    &&& spec_resolves(w, rows[k].0)
                    &&& rows[k].1 == spec_listed_name(w, rows[k].0, short)
                    &&& spec_passes_filter(rows[k].1, filter)
                }
            &&& forall|k1: int, k2: int|
                0 <= k1 < k2 < rows.len() ==> (#[trigger] rows[k1]).0 < (#[trigger] rows[k2]).0
            &&& forall|id: int|
                lo <= id < w.components@.len() && spec_resolves(w, id) && spec_passes_filter(
                    spec_listed_name(w, id, short),
                    filter,
                ) ==> #[trigger] rows.contains((id, spec_listed_name(w, id, short)))
        }),
    decreases w.components@.len() - lo,
{
    let rows = spec_component_entries(w, short, filter, lo);
    if lo >= w.components@.len() {
    } else {
        lemma_component_entries_chars(w, short, filter, lo + 1);
        let rest = spec_component_entries(w, short, filter, lo + 1);
        if w.components@[lo] is Some && spec_passes_filter(spec_listed_name(w, lo, short), filter) {
            let hd = (lo, spec_listed_name(w, lo, short));
            assert(rows == seq![hd] + rest);
            assert(rows[0] == hd);
            assert(forall|k: int| 1 <= k < rows.len() ==> rows[k] == rest[k - 1]);
            assert forall|id: int|
                lo <= id < w.components@.len() && spec_resolves(w, id) && spec_passes_filter(
                    spec_listed_name(w, id, short),
                    filter,
                ) implies #[trigger] rows.contains((id, spec_listed_name(w, id, short))) by {
                if id == lo {
                    assert(rows[0] == (id, spec_listed_name(w, id, short)));
                } else {
                    assert(rest.contains((id, spec_listed_name(w, id, short))));
                    let k = choose|k: int|
                        0 <= k < rest.len() && rest[k] == (id, spec_listed_name(w, id, short));
                    assert(rows[k + 1] == (id, spec_listed_name(w, id, short)));
                }
            }
        } else {
            assert(rows == rest);
        }
    }
}

/// For every component id in `[1, registrySize)` that resolves and whose
/// listed name passes the filter, the `components list` rows hold the pair
/// `(id, name)` at exactly one position.
pub proof fn lemma_list_components_each_id_once(
    w: WorldModel,
    short: bool,
    filter: Option<Seq<char>>,
    i: int,
)
    requires
        1 <= i < w.components@.len(),
        spec_resolves(w, i),
        spec_passes_filter(spec_listed_name(w, i, short), filter),
    ensures
        spec_component_entries(w, short, filter, 1).contains((i, spec_listed_name(w, i, short))),
        forall|k1: int, k2: int|
            0 <= k1 < spec_component_entries(w, short, filter, 1).len() && 0 <= k2
                < spec_component_entries(w, short, filter, 1).len() && (#[trigger] spec_component_entries(
                w,
                short,
                filter,
                1,
            )[k1]).0 == i && (#[trigger] spec_component_entries(w, short, filter, 1)[k2]).0 == i
                ==> k1 == k2,
{
    lemma_component_entries_chars(w, short, filter, 1);
    let rows = spec_component_entries(w, short, filter, 1);
    assert forall|k1: int, k2: int|
        0 <= k1 < rows.len() && 0 <= k2 < rows.len() && (#[trigger] rows[k1]).0 == i && (
        #[trigger] rows[k2]).0 == i implies k1 == k2 by {
        if k1 < k2 {
            assert(rows[k1].0 < rows[k2].0);
        }
        if k2 < k1 {
            assert(rows[k2].0 < rows[k1].0);
        }
    }
}

/// The `(id, name)` order on listing rows.
pub open spec fn spec_entry_le(a: (int, Seq<char>), b: (int, Seq<char>)) -> bool {
    a.0 < b.0 || (a.0 == b.0 && spec_lex_le(a.1, b.1))
}

/// The `components list` rows are sorted ascending by `(id, name)`, whatever
/// the registry holds.
pub proof fn lemma_list_components_sorted(w: WorldModel, short: bool, filter: Option<Seq<char>>)
    ensures
        forall|k1: int, k2: int|
            0 <= k1 < k2 < spec_component_entries(w, short, filter, 1).len() ==> spec_entry_le(
                #[trigger] spec_component_entries(w, short, filter, 1)[k1],
                #[trigger] spec_component_entries(w, short, filter, 1)[k2],
            ),
{
    lemma_component_entries_chars(w, short, filter, 1);
}

/// Describing the same archetype twice against the same snapshot yields
/// identical text: the report is a function of the snapshot and the id alone.
pub proof fn lemma_describe_archetype_idempotent(
    w: WorldModel,
    k: usize,
    r1: Seq<char>,
    r2: Seq<char>,
)
    requires
        r1 == spec_print_archetype(w, k),
        r2 == spec_print_archetype(w, k),
    ensures
        r1 == r2,
{
}

/// When exactly one component's full name contains the searched name, the
/// name-based archetype search reports exactly what the id-based search with
/// that component's id reports.
pub proof fn lemma_find_archetypes_unique_name_delegates(w: WorldModel, name: Seq<char>)
    requires
        spec_component_entries(w, false, Some(name), 1).len() == 1,
    ensures
        spec_find_archetypes_by_component_name(w, name) == spec_find_archetypes_by_component_id(
            w,
            spec_component_entries(w, false, Some(name), 1)[0].0 as usize,
        ),
{
}

/// When no component's full name contains the searched name, the name-based
/// archetype search reports exactly the not-found message and no archetype
/// ids.
pub proof fn lemma_find_archetypes_no_match(w: WorldModel, name: Seq<char>)
    requires
        spec_component_entries(w, false, Some(name), 1).len() == 0,
    ensures
        spec_find_archetypes_by_component_name(w, name) == "No component found with name "@ + name
            + "\n"@,
{
}

/// When two or more components' full names contain the searched name, the
/// name-based archetype search reports exactly the ambiguity text listing
/// every candidate, never an archetype id list.
pub proof fn lemma_find_archetypes_ambiguous(w: WorldModel, name: Seq<char>)
    requires
        spec_component_entries(w, false, Some(name), 1).len() > 1,
    ensures
        spec_find_archetypes_by_component_name(w, name) == "More than one component found with name "@
            + name + "\n"@ + "Consider searching with '--componentid' instead\n\n"@
            + "[component id] [component name]\n"@ + spec_render_entries(
            spec_component_entries(w, false, Some(name), 1),
        ),
{
}

} // verus!

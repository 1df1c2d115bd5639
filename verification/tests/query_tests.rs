use bevy_mod_debug_console::model::ArchetypeInfo;
use bevy_mod_debug_console::model::ComponentInfo;
use bevy_mod_debug_console::model::StorageKind;
use bevy_mod_debug_console::model::WorldModel;
use bevy_mod_debug_console::model::wf_check;
use bevy_mod_debug_console::queries::find_archetype_by_entity_id;
use bevy_mod_debug_console::queries::find_archetypes_by_component_id;
use bevy_mod_debug_console::queries::find_archetypes_by_component_name;
use bevy_mod_debug_console::queries::find_entities_by_component_id;
use bevy_mod_debug_console::queries::find_entities_by_component_name;
use bevy_mod_debug_console::queries::get_archetype_id_by_entity_id;
use bevy_mod_debug_console::queries::get_components_by_name;
use bevy_mod_debug_console::queries::list_archetypes;
use bevy_mod_debug_console::queries::list_components;
use bevy_mod_debug_console::queries::list_entities;
use bevy_mod_debug_console::queries::list_resources;
use bevy_mod_debug_console::queries::print_archetype;
use bevy_mod_debug_console::queries::print_component;
use bevy_mod_debug_console::queries::print_component_by_name;
use bevy_mod_debug_console::queries::print_ecs_counts;
use bevy_mod_debug_console::text::dec_string;
use bevy_mod_debug_console::text::lex_le;
use bevy_mod_debug_console::text::parse_usize;
use bevy_mod_debug_console::text::short_name;
use bevy_mod_debug_console::text::sort_strings;
use bevy_mod_debug_console::text::str_contains;
use bevy_mod_debug_console::text::str_eq;

fn comp(name: &str) -> Option<ComponentInfo> {
    Some(ComponentInfo {
        name: String::from(name),
        storage: StorageKind::Table,
        send_and_sync: true,
    })
}

/// The registry of the worked example: components `{1: "pkg::Position",
/// 2: "pkg::Velocity"}`, one archetype `0` with table components `{1, 2}`
/// and entities `{5, 9}`.
fn example_world() -> WorldModel {
    WorldModel {
        components: vec![None, comp("pkg::Position"), comp("pkg::Velocity")],
        archetypes: vec![ArchetypeInfo {
            table_id: 0,
            entities: vec![5, 9],
            table_components: vec![1, 2],
            sparse_set_components: vec![],
        }],
        entities: vec![
            None,
            None,
            None,
            None,
            None,
            Some(0),
            None,
            None,
            None,
            Some(0),
        ],
        resources: vec![],
    }
}

#[test]
fn example_world_is_well_formed() {
    assert!(wf_check(&example_world()));
}

#[test]
fn ill_formed_world_is_rejected() {
    let mut w = example_world();
    w.archetypes[0].table_components.push(7);
    assert!(!wf_check(&w));
    let mut w2 = example_world();
    w2.archetypes[0].sparse_set_components.push(1);
    assert!(!wf_check(&w2));
    let mut w3 = example_world();
    w3.entities[5] = Some(3);
    assert!(!wf_check(&w3));
    let mut w4 = example_world();
    w4.resources.push(0);
    assert!(!wf_check(&w4));
}

#[test]
fn incoherent_membership_is_rejected() {
    // A member entity id listed twice in one archetype.
    let mut w = example_world();
    w.archetypes[0].entities.push(5);
    assert!(!wf_check(&w));
    // A member entity id with no live location.
    let mut w2 = example_world();
    w2.entities[9] = None;
    assert!(!wf_check(&w2));
    // A live location whose archetype does not list the entity.
    let mut w3 = example_world();
    w3.entities[7] = Some(0);
    assert!(!wf_check(&w3));
    // A member entity id past the location table.
    let mut w4 = example_world();
    w4.archetypes[0].entities.push(42);
    assert!(!wf_check(&w4));
}

#[test]
fn describe_archetype_of_example_world() {
    let w = example_world();
    let out = print_archetype(&w, 0);
    assert_eq!(
        out,
        "id: 0\ntable_id: 0\nentities (2): 5, 9, \ntable_components (2): 1 Position, 2 Velocity, \nsparse set components (0): \n"
    );
}

#[test]
fn describe_archetype_twice_is_identical() {
    let w = example_world();
    assert_eq!(print_archetype(&w, 0), print_archetype(&w, 0));
}

#[test]
fn describe_archetype_not_found() {
    let w = example_world();
    assert_eq!(print_archetype(&w, 9), "No archetype found with id: 9\n");
}

#[test]
fn list_components_short_names() {
    let w = example_world();
    let out = list_components(&w, true, None);
    assert_eq!(out, "[component id] [component name]\n1 Position\n2 Velocity\n");
}

#[test]
fn list_components_long_names() {
    let w = example_world();
    let out = list_components(&w, false, None);
    assert_eq!(out, "[component id] [component name]\n1 pkg::Position\n2 pkg::Velocity\n");
}

#[test]
fn list_components_each_resolving_id_once() {
    let w = example_world();
    let out = list_components(&w, true, None);
    assert_eq!(out.matches("1 Position\n").count(), 1);
    assert_eq!(out.matches("2 Velocity\n").count(), 1);
}

#[test]
fn list_components_sorted_by_id_and_name() {
    let w = WorldModel {
        components: vec![None, comp("pkg::Zeta"), comp("pkg::Alpha"), comp("pkg::Mid")],
        archetypes: vec![],
        entities: vec![],
        resources: vec![],
    };
    let out = list_components(&w, true, None);
    assert_eq!(out, "[component id] [component name]\n1 Zeta\n2 Alpha\n3 Mid\n");
}

#[test]
fn list_components_skips_unregistered_ids() {
    let w = WorldModel {
        components: vec![None, comp("pkg::A"), None, comp("pkg::B")],
        archetypes: vec![],
        entities: vec![],
        resources: vec![],
    };
    let out = list_components(&w, true, None);
    assert_eq!(out, "[component id] [component name]\n1 A\n3 B\n");
}

#[test]
fn filter_matches_exactly_one_component() {
    let w = example_world();
    let out = list_components(&w, true, Some("Veloc"));
    assert_eq!(out, "[component id] [component name]\n2 Velocity\n");
}

#[test]
fn filter_is_case_sensitive() {
    let w = example_world();
    let out = list_components(&w, true, Some("veloc"));
    assert_eq!(out, "[component id] [component name]\n");
}

#[test]
fn get_components_by_name_filters_full_names() {
    let w = example_world();
    let entries = get_components_by_name(&w, false, Some("Position"));
    assert_eq!(entries.len(), 1);
    assert_eq!(entries[0].0, 1);
    assert_eq!(entries[0].1, "pkg::Position");
}

#[test]
fn counts_line() {
    let w = example_world();
    assert_eq!(print_ecs_counts(&w), "entities: 10, components: 3, archetypes: 1\n");
}

#[test]
fn entities_listing_skips_dead_indices() {
    let w = example_world();
    assert_eq!(list_entities(&w), "[entity index] [archetype id]\n5 0\n9 0\n");
}

#[test]
fn archetypes_listing() {
    let w = example_world();
    assert_eq!(list_archetypes(&w), "[id] [entity count]\n0 2\n");
}

#[test]
fn resources_listing_is_sorted() {
    let mut w = example_world();
    w.components.push(comp("pkg::ZAudio"));
    w.components.push(comp("pkg::Assets"));
    w.resources = vec![3, 4];
    assert_eq!(list_resources(&w), "[resource name]\nAssets\nZAudio\n");
}

#[test]
fn resources_listing_empty() {
    let w = example_world();
    assert_eq!(list_resources(&w), "[resource name]\n");
}

#[test]
fn find_archetypes_by_id() {
    let w = example_world();
    assert_eq!(find_archetypes_by_component_id(&w, 1), "archetype ids:\n0, \n");
    assert_eq!(find_archetypes_by_component_id(&w, 7), "no archetypes found\n");
}

#[test]
fn find_archetypes_by_unique_name_equals_find_by_id() {
    let w = example_world();
    let by_name = find_archetypes_by_component_name(&w, "Position");
    let by_id = find_archetypes_by_component_id(&w, 1);
    assert_eq!(by_name, by_id);
}

#[test]
fn find_archetypes_by_name_no_match() {
    let w = example_world();
    let out = find_archetypes_by_component_name(&w, "Missing");
    assert_eq!(out, "No component found with name Missing\n");
}

#[test]
fn find_archetypes_by_name_ambiguous() {
    let w = example_world();
    let out = find_archetypes_by_component_name(&w, "pkg");
    assert_eq!(
        out,
        "More than one component found with name pkg\nConsider searching with '--componentid' instead\n\n[component id] [component name]\n1 pkg::Position\n2 pkg::Velocity\n"
    );
    assert!(!out.contains("archetype ids:"));
}

#[test]
fn find_archetype_by_entity() {
    let w = example_world();
    assert_eq!(get_archetype_id_by_entity_id(&w, 5), Some(0));
    assert_eq!(get_archetype_id_by_entity_id(&w, 7), None);
    assert_eq!(find_archetype_by_entity_id(&w, 9), "archetype id:\n0");
    assert_eq!(find_archetype_by_entity_id(&w, 7), "no archetype found\n");
}

#[test]
fn find_entities_by_component() {
    let w = example_world();
    assert_eq!(find_entities_by_component_id(&w, 2), "entity ids:\n5, 9, \n");
    assert_eq!(find_entities_by_component_id(&w, 7), "no entites found\n");
}

#[test]
fn find_entities_by_name_reports_every_match() {
    let w = example_world();
    let out = find_entities_by_component_name(&w, "pkg");
    assert_eq!(
        out,
        "pkg::Position\nentity ids:\n5, 9, \n\npkg::Velocity\nentity ids:\n5, 9, \n\n"
    );
}

#[test]
fn find_entities_by_name_no_match_is_reported() {
    let w = example_world();
    let out = find_entities_by_component_name(&w, "Missing");
    assert_eq!(out, "No component found with name Missing\n");
}

#[test]
fn describe_component() {
    let w = example_world();
    assert_eq!(
        print_component(&w, 1),
        "Name: pkg::Position\nId: 1\nStorageType: Table\nSendAndSync: true\n"
    );
    assert_eq!(print_component(&w, 0), "No component found with id: 0");
    assert_eq!(print_component(&w, 12), "No component found with id: 12");
}

#[test]
fn describe_component_sparse_not_send() {
    let w = WorldModel {
        components: vec![
            None,
            Some(ComponentInfo {
                name: String::from("pkg::Local"),
                storage: StorageKind::SparseSet,
                send_and_sync: false,
            }),
        ],
        archetypes: vec![],
        entities: vec![],
        resources: vec![],
    };
    assert_eq!(
        print_component(&w, 1),
        "Name: pkg::Local\nId: 1\nStorageType: SparseSet\nSendAndSync: false\n"
    );
}

#[test]
fn describe_component_by_name_describes_each_match() {
    let w = example_world();
    let out = print_component_by_name(&w, "pkg");
    assert_eq!(
        out,
        "Name: pkg::Position\nId: 1\nStorageType: Table\nSendAndSync: true\n\nName: pkg::Velocity\nId: 2\nStorageType: Table\nSendAndSync: true\n\n"
    );
}

#[test]
fn describe_component_by_name_no_match_is_reported() {
    let w = example_world();
    let out = print_component_by_name(&w, "Missing");
    assert_eq!(out, "No component found with name Missing\n");
}

#[test]
fn decimal_rendering() {
    assert_eq!(dec_string(0), "0");
    assert_eq!(dec_string(7), "7");
    assert_eq!(dec_string(907), "907");
    assert_eq!(dec_string(1000000), "1000000");
}

#[test]
fn integer_parsing() {
    assert_eq!(parse_usize("0"), Some(0));
    assert_eq!(parse_usize("907"), Some(907));
    assert_eq!(parse_usize(""), None);
    assert_eq!(parse_usize("12a"), None);
    assert_eq!(parse_usize("-3"), None);
    assert_eq!(parse_usize("99999999999999999999999999"), None);
}

#[test]
fn substring_search() {
    assert!(str_contains("hello", "ell"));
    assert!(str_contains("hello", ""));
    assert!(str_contains("", ""));
    assert!(!str_contains("hello", "xyz"));
    assert!(!str_contains("he", "hello"));
}

#[test]
fn string_equality() {
    assert!(str_eq("abc", "abc"));
    assert!(!str_eq("abc", "abd"));
    assert!(!str_eq("abc", "ab"));
}

#[test]
fn short_names_take_the_last_segment() {
    assert_eq!(short_name("bevy_audio::audio::Audio"), "Audio");
    assert_eq!(short_name("Position"), "Position");
    assert_eq!(short_name("a::b::c"), "c");
    assert_eq!(short_name("::x"), "x");
}

#[test]
fn short_names_keep_generic_arguments_whole() {
    assert_eq!(short_name("Assets<pkg::Image>"), "Assets<pkg::Image>");
    assert_eq!(short_name("pkg::Assets<foo::Image>"), "Assets<foo::Image>");
    assert_eq!(short_name("a::Map<k::K, v::V>"), "Map<k::K, v::V>");
}

#[test]
fn lexicographic_order() {
    assert!(lex_le("a", "b"));
    assert!(lex_le("a", "a"));
    assert!(lex_le("a", "ab"));
    assert!(!lex_le("b", "a"));
    assert!(!lex_le("ab", "a"));
}

#[test]
fn sorting_strings() {
    let v = vec![String::from("b"), String::from("a"), String::from("ab")];
    let sorted = sort_strings(&v);
    assert_eq!(sorted, vec![String::from("a"), String::from("ab"), String::from("b")]);
}

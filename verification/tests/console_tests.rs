use bevy_mod_debug_console::EnteringConsole;
use bevy_mod_debug_console::Pause;
use bevy_mod_debug_console::RunDecision;
use bevy_mod_debug_console::console::console_step;
use bevy_mod_debug_console::dispatch::process_line;
use bevy_mod_debug_console::grammar::Command;
use bevy_mod_debug_console::grammar::ParseError;
use bevy_mod_debug_console::grammar::parse_command;
use bevy_mod_debug_console::grammar::tokenize;
use bevy_mod_debug_console::model::ArchetypeInfo;
use bevy_mod_debug_console::model::ComponentInfo;
use bevy_mod_debug_console::model::StorageKind;
use bevy_mod_debug_console::model::WorldModel;
use bevy_mod_debug_console::runstate::input_pause;
use bevy_mod_debug_console::runstate::pause;

fn comp(name: &str) -> Option<ComponentInfo> {
    Some(ComponentInfo {
        name: String::from(name),
        storage: StorageKind::Table,
        send_and_sync: true,
    })
}

fn example_world() -> WorldModel {
    WorldModel {
        components: vec![None, comp("pkg::Position"), comp("pkg::Velocity")],
        archetypes: vec![ArchetypeInfo {
            table_id: 0,
            entities: vec![5, 9],
            table_components: vec![1, 2],
            sparse_set_components: vec![],
        }],
        entities: vec![
            None,
            None,
            None,
            None,
            None,
            Some(0),
            None,
            None,
            None,
            Some(0),
        ],
        resources: vec![],
    }
}

#[test]
fn tokenizing_splits_on_whitespace() {
    assert_eq!(
        tokenize("  a  b\t c "),
        vec![String::from("a"), String::from("b"), String::from("c")]
    );
    assert_eq!(tokenize(""), Vec::<String>::new());
    assert_eq!(tokenize("   \t "), Vec::<String>::new());
    assert_eq!(tokenize("counts"), vec![String::from("counts")]);
}

#[test]
fn parsing_leaf_commands() {
    assert!(matches!(parse_command(&tokenize("counts")), Ok(Command::Counts)));
    assert!(matches!(parse_command(&tokenize("resume")), Ok(Command::Resume)));
    assert!(matches!(parse_command(&tokenize("quit")), Ok(Command::Quit)));
    assert!(matches!(parse_command(&tokenize("help")), Ok(Command::Help)));
    assert!(matches!(parse_command(&tokenize("")), Ok(Command::Empty)));
    assert!(matches!(parse_command(&tokenize("archetypes list")), Ok(Command::ArchetypesList)));
    assert!(matches!(parse_command(&tokenize("entities list")), Ok(Command::EntitiesList)));
    assert!(matches!(parse_command(&tokenize("resources list")), Ok(Command::ResourcesList)));
}

#[test]
fn parsing_accepts_singular_aliases() {
    assert!(matches!(parse_command(&tokenize("archetype list")), Ok(Command::ArchetypesList)));
    assert!(matches!(
        parse_command(&tokenize("component info --id 2")),
        Ok(Command::ComponentsInfoById { id: 2 })
    ));
}

#[test]
fn parsing_arguments() {
    assert!(matches!(
        parse_command(&tokenize("archetypes info --id 0")),
        Ok(Command::ArchetypesInfo { id: 0 })
    ));
    assert!(matches!(
        parse_command(&tokenize("archetypes find --componentid 1")),
        Ok(Command::ArchetypesFindByComponentId { id: 1 })
    ));
    match parse_command(&tokenize("archetypes find --componentname Position")) {
        Ok(Command::ArchetypesFindByComponentName { name }) => assert_eq!(name, "Position"),
        other => panic!("unexpected parse: {:?}", other.is_ok()),
    }
    assert!(matches!(
        parse_command(&tokenize("archetypes find --entityid 5")),
        Ok(Command::ArchetypesFindByEntityId { id: 5 })
    ));
    match parse_command(&tokenize("components list --filter Veloc --long")) {
        Ok(Command::ComponentsList { long, filter }) => {
            assert!(long);
            assert_eq!(filter.as_deref(), Some("Veloc"));
        },
        other => panic!("unexpected parse: {:?}", other.is_ok()),
    }
    match parse_command(&tokenize("components list -f Veloc -l")) {
        Ok(Command::ComponentsList { long, filter }) => {
            assert!(long);
            assert_eq!(filter.as_deref(), Some("Veloc"));
        },
        other => panic!("unexpected parse: {:?}", other.is_ok()),
    }
    assert!(matches!(
        parse_command(&tokenize("entities find --componentid 2")),
        Ok(Command::EntitiesFindByComponentId { id: 2 })
    ));
}

#[test]
fn parse_error_taxonomy() {
    assert!(matches!(parse_command(&tokenize("bogus")), Err(ParseError::UnknownCommand)));
    assert!(matches!(parse_command(&tokenize("archetypes")), Err(ParseError::MissingSubcommand)));
    assert!(matches!(
        parse_command(&tokenize("archetypes bogus")),
        Err(ParseError::UnknownSubcommand)
    ));
    assert!(matches!(parse_command(&tokenize("archetypes info")), Err(ParseError::BadArguments)));
    assert!(matches!(
        parse_command(&tokenize("archetypes find --componentid 1 --entityid 5")),
        Err(ParseError::BadArguments)
    ));
    assert!(matches!(
        parse_command(&tokenize("components list --filter")),
        Err(ParseError::BadArguments)
    ));
    assert!(matches!(parse_command(&tokenize("counts extra")), Err(ParseError::BadArguments)));
    assert!(matches!(
        parse_command(&tokenize("archetypes info --id abc")),
        Err(ParseError::BadInteger)
    ));
}

#[test]
fn rejected_lines_render_usage_and_change_nothing() {
    let w = example_world();
    let mut p = Pause(true);
    let (out, quit) = process_line("bogus", &w, &mut p);
    assert!(out.starts_with("unknown command\n\n"));
    assert!(out.contains("Commands:"));
    assert!(!quit);
    assert!(p.0);
    let (out2, _) = process_line("archetypes info --id abc", &w, &mut p);
    assert!(out2.starts_with("expected an integer value\n\n"));
    assert!(p.0);
}

#[test]
fn end_to_end_describe_archetype() {
    let w = example_world();
    let mut p = Pause(true);
    let (out, quit) = process_line("archetypes info --id 0", &w, &mut p);
    assert_eq!(
        out,
        "id: 0\ntable_id: 0\nentities (2): 5, 9, \ntable_components (2): 1 Position, 2 Velocity, \nsparse set components (0): \n"
    );
    assert!(!quit);
    assert!(p.0);
}

#[test]
fn end_to_end_filtered_component_listing() {
    let w = example_world();
    let mut p = Pause(true);
    let (out, _) = process_line("components list --filter Veloc", &w, &mut p);
    assert_eq!(out, "[component id] [component name]\n2 Velocity\n");
}

#[test]
fn resume_clears_the_paused_flag() {
    let w = example_world();
    let mut p = Pause(true);
    let (out, quit) = process_line("resume", &w, &mut p);
    assert_eq!(out, "...resuming game.");
    assert!(!quit);
    assert!(!p.0);
}

#[test]
fn quit_is_reported_to_the_host() {
    let w = example_world();
    let mut p = Pause(true);
    let (out, quit) = process_line("quit", &w, &mut p);
    assert_eq!(out, "");
    assert!(quit);
    assert!(p.0);
}

#[test]
fn empty_line_produces_no_output() {
    let w = example_world();
    let mut p = Pause(true);
    let (out, quit) = process_line("   ", &w, &mut p);
    assert_eq!(out, "");
    assert!(!quit);
    assert!(p.0);
}

#[test]
fn help_prints_the_vocabulary() {
    let w = example_world();
    let mut p = Pause(true);
    let (out, _) = process_line("help", &w, &mut p);
    assert!(out.starts_with("Commands:"));
    assert!(out.contains("archetypes"));
    assert!(out.contains("resources list"));
}

#[test]
fn pause_controller_marks_each_transition_once() {
    // The pause-trigger event sequence: true edge, true edge again (no-op),
    // resume, true edge.
    let w = example_world();
    let mut p = Pause(false);
    let mut last = Pause(false);
    let mut entering = EnteringConsole(false);

    input_pause(true, &mut p);
    assert!(matches!(pause(&p, &mut last, &mut entering), RunDecision::RunThenRecheck));
    assert!(entering.0);

    input_pause(true, &mut p);
    assert!(matches!(pause(&p, &mut last, &mut entering), RunDecision::RunThenRecheck));
    assert!(!entering.0);

    let (_, _) = process_line("resume", &w, &mut p);
    assert!(matches!(pause(&p, &mut last, &mut entering), RunDecision::Skip));
    assert!(!entering.0);

    input_pause(true, &mut p);
    assert!(matches!(pause(&p, &mut last, &mut entering), RunDecision::RunThenRecheck));
    assert!(entering.0);
}

#[test]
fn pause_trigger_is_idempotent_while_paused() {
    let mut p = Pause(true);
    input_pause(false, &mut p);
    assert!(p.0);
    let mut q = Pause(false);
    input_pause(false, &mut q);
    assert!(!q.0);
}

#[test]
fn channel_has_capacity_one_and_keeps_order() {
    let w = example_world();
    let mut p = Pause(true);
    let (tx, rx) = crossbeam::channel::bounded::<String>(1);

    tx.try_send(String::from("counts")).unwrap();
    let second = tx.try_send(String::from("entities list"));
    assert!(matches!(second, Err(crossbeam::channel::TrySendError::Full(_))));

    let step1 = console_step(&rx, &w, &mut p);
    let (out1, quit1) = step1.expect("a line was pending");
    assert_eq!(out1, "entities: 10, components: 3, archetypes: 1\n");
    assert!(!quit1);

    tx.try_send(String::from("entities list")).unwrap();
    let step2 = console_step(&rx, &w, &mut p);
    let (out2, _) = step2.expect("a line was pending");
    assert_eq!(out2, "[entity index] [archetype id]\n5 0\n9 0\n");

    let step3 = console_step(&rx, &w, &mut p);
    assert!(step3.is_none());
    assert!(p.0);
}

#[test]
fn console_step_reports_quit() {
    let w = example_world();
    let mut p = Pause(true);
    let (tx, rx) = crossbeam::channel::bounded::<String>(1);
    tx.try_send(String::from("quit")).unwrap();
    let (out, quit) = console_step(&rx, &w, &mut p).expect("a line was pending");
    assert_eq!(out, "");
    assert!(quit);
}

//! The dispatcher: route a parsed invocation to the query engine or to the
//! run-state controller, and process one full input line. Stateless but for
//! the `resume` exception, which clears the paused flag, and `quit`, which is
//! reported to the caller as a termination request.
use vstd::prelude::*;
use vstd::string::*;

use crate::grammar::Command;
use crate::grammar::ParseError;
use crate::grammar::SpecCommand;
use crate::grammar::parse_command;
use crate::grammar::spec_parse;
use crate::grammar::spec_tokens;
use crate::grammar::spec_usage;
use crate::grammar::spec_usage_text;
use crate::grammar::tokenize;
use crate::grammar::usage;
use crate::grammar::usage_text;
use crate::model::WorldModel;
use crate::model::wf;
use crate::queries::find_archetype_by_entity_id;
use crate::queries::find_archetypes_by_component_id;
use crate::queries::find_archetypes_by_component_name;
use crate::queries::find_entities_by_component_id;
use crate::queries::find_entities_by_component_name;
use crate::queries::list_archetypes;
use crate::queries::list_components;
use crate::queries::list_entities;
use crate::queries::list_resources;
use crate::queries::print_archetype;
use crate::queries::print_component;
use crate::queries::print_component_by_name;
use crate::queries::print_ecs_counts;
use crate::queries::spec_ecs_counts;
use crate::queries::spec_find_archetype_by_entity_id;
use crate::queries::spec_find_archetypes_by_component_id;
use crate::queries::spec_find_archetypes_by_component_name;
use crate::queries::spec_find_entities_by_component_id;
use crate::queries::spec_find_entities_by_component_name;
use crate::queries::spec_list_archetypes;
use crate::queries::spec_list_components;
use crate::queries::spec_list_entities;
use crate::queries::spec_list_resources;
use crate::queries::spec_print_archetype;
use crate::queries::spec_print_component;
use crate::queries::spec_print_component_by_name;
use crate::runstate::Pause;

verus! {

/// The report text an invocation produces against a given snapshot. `quit`
/// and the empty invocation produce no text; `resume` prints its
/// acknowledgement.
pub open spec fn spec_dispatch_output(c: SpecCommand, w: WorldModel) -> Seq<char> {
    match c {
        SpecCommand::Empty => Seq::empty(),
        SpecCommand::Help => spec_usage_text(),
        SpecCommand::Resume => "...resuming game."@,
        SpecCommand::Quit => Seq::empty(),
        SpecCommand::Counts => spec_ecs_counts(w),
        SpecCommand::ArchetypesList => spec_list_archetypes(w),
        SpecCommand::ArchetypesInfo { id } => spec_print_archetype(w, id),
        SpecCommand::ArchetypesFindByComponentId { id } => spec_find_archetypes_by_component_id(
            w,
            id,
        ),
        SpecCommand::ArchetypesFindByComponentName { name } => {
            spec_find_archetypes_by_component_name(w, name)
        },
        SpecCommand::ArchetypesFindByEntityId { id } => spec_find_archetype_by_entity_id(w, id),
        SpecCommand::ComponentsList { long, filter } => spec_list_components(w, !long, filter),
        SpecCommand::ComponentsInfoById { id } => spec_print_component(w, id),
        SpecCommand::ComponentsInfoByName { name } => spec_print_component_by_name(w, name),
        SpecCommand::EntitiesList => spec_list_entities(w),
        SpecCommand::EntitiesFindByComponentId { id } => spec_find_entities_by_component_id(w, id),
        SpecCommand::EntitiesFindByComponentName { name } => spec_find_entities_by_component_name(
            w,
            name,
        ),
        SpecCommand::ResourcesList => spec_list_resources(w),
    }
}

/// Route one invocation: pure queries read the snapshot; `resume` clears the
/// paused flag; `quit` is reported in the second component for the host to
/// act on.
pub fn match_commands(cmd: &Command, w: &WorldModel, pause: &mut Pause) -> (r: (String, bool))
    requires
        wf(*w),
    ensures
        r.0@ == spec_dispatch_output(cmd@, *w),
        r.1 == (cmd@ is Quit),
        final(pause).0 == (old(pause).0 && !(cmd@ is Resume)),
{
    match cmd {
        Command::Empty => (String::new(), false),
        Command::Help => (usage_text(), false),
        Command::Resume => {
            pause.0 = false;
            let mut out = String::new();
            out.append("...resuming game.");
            (out, false)
        },
        Command::Quit => (String::new(), true),
        Command::Counts => (print_ecs_counts(w), false),
        Command::ArchetypesList => (list_archetypes(w), false),
        Command::ArchetypesInfo { id } => (print_archetype(w, *id), false),
        Command::ArchetypesFindByComponentId { id } => (
            find_archetypes_by_component_id(w, *id),
            false,
        ),
        Command::ArchetypesFindByComponentName { name } => (
            find_archetypes_by_component_name(w, name.as_str()),
            false,
        ),
        Command::ArchetypesFindByEntityId { id } => (find_archetype_by_entity_id(w, *id), false),
        Command::ComponentsList { long, filter } => (
            list_components(
                w,
                !*long,
                match filter {
                    Option::Some(f) => Some(f.as_str()),
                    Option::None => None,
                },
            ),
            false,
        ),
        Command::ComponentsInfoById { id } => (print_component(w, *id), false),
        Command::ComponentsInfoByName { name } => (print_component_by_name(w, name.as_str()), false),
        Command::EntitiesList => (list_entities(w), false),
        Command::EntitiesFindByComponentId { id } => (
            find_entities_by_component_id(w, *id),
            false,
        ),
        Command::EntitiesFindByComponentName { name } => (
            find_entities_by_component_name(w, name.as_str()),
            false,
        ),
        Command::ResourcesList => (list_resources(w), false),
    }
}

/// The text one input line produces: the invocation's report when the line
/// parses, the usage report when it does not.
pub open spec fn spec_process_output(line: Seq<char>, w: WorldModel) -> Seq<char> {
    match spec_parse(spec_tokens(line)) {
        Result::Ok(c) => spec_dispatch_output(c, w),
        Result::Err(e) => spec_usage(e),
    }
}

/// Whether a line is the well-formed `resume` command.
pub open spec fn spec_line_resumes(line: Seq<char>) -> bool {
    match spec_parse(spec_tokens(line)) {
        Result::Ok(c) => c is Resume,
        Result::Err(_) => false,
    }
}

/// Whether a line is the well-formed `quit` command.
pub open spec fn spec_line_quits(line: Seq<char>) -> bool {
    match spec_parse(spec_tokens(line)) {
        Result::Ok(c) => c is Quit,
        Result::Err(_) => false,
    }
}

/// Process one input line: tokenize, parse and dispatch it, returning the
/// report text and whether the operator asked to quit. A rejected line
/// changes nothing and yields the usage report.
pub fn process_line(line: &str, w: &WorldModel, pause: &mut Pause) -> (r: (String, bool))
    requires
        wf(*w),
    ensures
        r.0@ == spec_process_output(line@, *w),
        r.1 == spec_line_quits(line@),
        final(pause).0 == (old(pause).0 && !spec_line_resumes(line@)),
{
    let toks = tokenize(line);
    match parse_command(&toks) {
        Result::Ok(cmd) => match_commands(&cmd, w, pause),
        Result::Err(e) => (usage(e), false),
    }
}

} // verus!

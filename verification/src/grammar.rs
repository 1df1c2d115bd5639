//! The command grammar: tokenizing an input line, parsing the token list into
//! a structured invocation, and the usage text shown for rejected lines.
use vstd::prelude::*;
use vstd::string::*;

use crate::text::parse_usize;
use crate::text::spec_parse_usize;
use crate::text::str_eq;
use crate::text::views;

verus! {

/// A fully parsed invocation: one variant per leaf of the command tree.
pub enum Command {
    Empty,
    Help,
    Resume,
    Quit,
    Counts,
    ArchetypesList,
    ArchetypesInfo { id: usize },
    ArchetypesFindByComponentId { id: usize },
    ArchetypesFindByComponentName { name: String },
    ArchetypesFindByEntityId { id: usize },
    ComponentsList { long: bool, filter: Option<String> },
    ComponentsInfoById { id: usize },
    ComponentsInfoByName { name: String },
    EntitiesList,
    EntitiesFindByComponentId { id: usize },
    EntitiesFindByComponentName { name: String },
    ResourcesList,
}

/// The mathematical form of a parsed invocation: names as character
/// sequences.
pub enum SpecCommand {
    Empty,
    Help,
    Resume,
    Quit,
    Counts,
    ArchetypesList,
    ArchetypesInfo { id: usize },
    ArchetypesFindByComponentId { id: usize },
    ArchetypesFindByComponentName { name: Seq<char> },
    ArchetypesFindByEntityId { id: usize },
    ComponentsList { long: bool, filter: Option<Seq<char>> },
    ComponentsInfoById { id: usize },
    ComponentsInfoByName { name: Seq<char> },
    EntitiesList,
    EntitiesFindByComponentId { id: usize },
    EntitiesFindByComponentName { name: Seq<char> },
    ResourcesList,
}

impl View for Command {
    type V = SpecCommand;

    open spec fn view(&self) -> SpecCommand {
        match self {
            Command::Empty => SpecCommand::Empty,
            Command::Help => SpecCommand::Help,
            Command::Resume => SpecCommand::Resume,
            Command::Quit => SpecCommand::Quit,
            Command::Counts => SpecCommand::Counts,
            Command::ArchetypesList => SpecCommand::ArchetypesList,
            Command::ArchetypesInfo { id } => SpecCommand::ArchetypesInfo { id: *id },
            Command::ArchetypesFindByComponentId { id } => SpecCommand::ArchetypesFindByComponentId {
                id: *id,
            },
            Command::ArchetypesFindByComponentName { name } => {
                SpecCommand::ArchetypesFindByComponentName { name: name@ }
            },
            Command::ArchetypesFindByEntityId { id } => SpecCommand::ArchetypesFindByEntityId {
                id: *id,
            },
            Command::ComponentsList { long, filter } => SpecCommand::ComponentsList {
                long: *long,
                filter: match filter {
                    Option::Some(f) => Some(f@),
                    Option::None => None,
                },
            },
            Command::ComponentsInfoById { id } => SpecCommand::ComponentsInfoById { id: *id },
            Command::ComponentsInfoByName { name } => SpecCommand::ComponentsInfoByName {
                name: name@,
            },
            Command::EntitiesList => SpecCommand::EntitiesList,
            Command::EntitiesFindByComponentId { id } => SpecCommand::EntitiesFindByComponentId {
                id: *id,
            },
            Command::EntitiesFindByComponentName { name } => {
                SpecCommand::EntitiesFindByComponentName { name: name@ }
            },
            Command::ResourcesList => SpecCommand::ResourcesList,
        }
    }
}

/// Why a line was rejected: the parse-error taxonomy of the grammar.
#[derive(PartialEq, Eq, Structural, Clone, Copy, Debug)]
pub enum ParseError {
    /// The first token names no command of the vocabulary.
    UnknownCommand,
    /// A command that requires a subcommand got none.
    MissingSubcommand,
    /// The subcommand token names no subcommand of its command.
    UnknownSubcommand,
    /// A malformed argument list: a violated exactly-one group, a flag
    /// without its value, or an unexpected extra token.
    BadArguments,
    /// A non-integer value for an integer-typed flag.
    BadInteger,
}

/// Whether a character counts as whitespace for tokenizing.
pub open spec fn spec_is_ws(c: char) -> bool {
    c == ' ' || c == '\t' || c == '\r' || c == '\n'
}

/// The whitespace-delimited tokens of the line from position `i` on, with
/// `cur` the partial token read so far.
pub open spec fn spec_tokens_acc(s: Seq<char>, i: int, cur: Seq<char>) -> Seq<Seq<char>>
    decreases s.len() - i,
{
    if i < 0 || i >= s.len() {
        if cur.len() == 0 {
            Seq::empty()
        } else {
            seq![cur]
        }
    } else if spec_is_ws(s[i]) {
        if cur.len() == 0 {
            spec_tokens_acc(s, i + 1, Seq::empty())
        } else {
            seq![cur] + spec_tokens_acc(s, i + 1, Seq::empty())
        }
    } else {
        spec_tokens_acc(s, i + 1, cur.push(s[i]))
    }
}

/// The whitespace-delimited tokens of a line.
pub open spec fn spec_tokens(s: Seq<char>) -> Seq<Seq<char>> {
    spec_tokens_acc(s, 0, Seq::empty())
}

/// Split a line into whitespace-delimited tokens.
pub fn tokenize(line: &str) -> (r: Vec<String>)
    ensures
        views(r@) == spec_tokens(line@),
{
    let n = line.unicode_len();
    let mut toks: Vec<String> = Vec::new();
    let mut i: usize = 0;
    let mut start: usize = 0;
    let mut in_tok = false;
    proof {
        assert(views(toks@) =~= Seq::<Seq<char>>::empty());
        assert(views(toks@) + spec_tokens(line@) =~= spec_tokens(line@));
    }
    while i < n
        invariant
            0 <= i <= n,
            n == line@.len(),
            in_tok ==> 0 <= start < i,
            in_tok ==> line@.subrange(start as int, i as int).len() > 0,
            views(toks@) + spec_tokens_acc(
                line@,
                i as int,
                if in_tok {
                    line@.subrange(start as int, i as int)
                } else {
                    Seq::empty()
                },
            ) == spec_tokens(line@),
        decreases n - i,
    {
        let c = line.get_char(i);
        let ws = c == ' ' || c == '\t' || c == '\r' || c == '\n';
        if ws {
            if in_tok {
                let tok = line.substring_char(start, i);
                let ghost before = toks@;
                let ghost cur = line@.subrange(start as int, i as int);
                toks.push(tok.to_owned());
                proof {
                    assert(views(toks@) =~= views(before).push(cur));
                    assert(views(before).push(cur) =~= views(before) + seq![cur]);
                    assert((views(before) + seq![cur]) + spec_tokens_acc(
                        line@,
                        i + 1,
                        Seq::empty(),
                    ) =~= views(before) + (seq![cur] + spec_tokens_acc(line@, i + 1, Seq::empty())));
                }
                in_tok = false;
            }
        } else {
            if !in_tok {
                start = i;
                in_tok = true;
            }
            proof {
                if start < i {
                    assert(line@.subrange(start as int, i + 1) =~= line@.subrange(
                        start as int,
                        i as int,
                    ).push(line@[i as int]));
                } else {
                    assert(line@.subrange(start as int, i + 1) =~= Seq::<char>::empty().push(
                        line@[i as int],
                    ));
                }
            }
        }
        i = i + 1;
    }
    if in_tok {
        let tok = line.substring_char(start, n);
        let ghost before = toks@;
        let ghost cur = line@.subrange(start as int, n as int);
        toks.push(tok.to_owned());
        proof {
            assert(views(toks@) =~= views(before).push(cur));
            assert(views(before).push(cur) =~= views(before) + seq![cur]);
            assert(views(before) + seq![cur] == views(toks@));
        }
    }
    proof {
        assert(views(toks@) + Seq::<Seq<char>>::empty() =~= views(toks@));
    }
    toks
}

/// Parse the `archetypes` subtree.
pub open spec fn spec_parse_archetypes(toks: Seq<Seq<char>>) -> Result<SpecCommand, ParseError> {
    if toks.len() < 2 {
        Err(ParseError::MissingSubcommand)
    } else if toks[1] == "list"@ {
        if toks.len() == 2 {
            Ok(SpecCommand::ArchetypesList)
        } else {
            Err(ParseError::BadArguments)
        }
    } else if toks[1] == "info"@ {
        if toks.len() == 4 && toks[2] == "--id"@ {
            match spec_parse_usize(toks[3]) {
                Option::Some(v) => Ok(SpecCommand::ArchetypesInfo { id: v }),
                Option::None => Err(ParseError::BadInteger),
            }
        } else {
            Err(ParseError::BadArguments)
        }
    } else if toks[1] == "find"@ {
        if toks.len() != 4 {
            Err(ParseError::BadArguments)
        } else if toks[2] == "--componentid"@ {
            match spec_parse_usize(toks[3]) {
                Option::Some(v) => Ok(SpecCommand::ArchetypesFindByComponentId { id: v }),
                Option::None => Err(ParseError::BadInteger),
            }
        } else if toks[2] == "--componentname"@ {
            Ok(SpecCommand::ArchetypesFindByComponentName { name: toks[3] })
        } else if toks[2] == "--entityid"@ {
            match spec_parse_usize(toks[3]) {
                Option::Some(v) => Ok(SpecCommand::ArchetypesFindByEntityId { id: v }),
                Option::None => Err(ParseError::BadInteger),
            }
        } else {
            Err(ParseError::BadArguments)
        }
    } else {
        Err(ParseError::UnknownSubcommand)
    }
}

/// Parse the flags of `components list` from token `i` on.
pub open spec fn spec_parse_components_list(
    toks: Seq<Seq<char>>,
    i: int,
    long: bool,
    filter: Option<Seq<char>>,
) -> Result<SpecCommand, ParseError>
    decreases toks.len() - i,
{
    if i >= toks.len() {
        Ok(SpecCommand::ComponentsList { long, filter })
    } else if toks[i] == "--long"@ || toks[i] == "-l"@ {
        spec_parse_components_list(toks, i + 1, true, filter)
    } else if toks[i] == "--filter"@ || toks[i] == "-f"@ {
        if i + 1 < toks.len() {
            spec_parse_components_list(toks, i + 2, long, Some(toks[i + 1]))
        } else {
            Err(ParseError::BadArguments)
        }
    } else {
        Err(ParseError::BadArguments)
    }
}

/// Parse the `components` subtree.
pub open spec fn spec_parse_components(toks: Seq<Seq<char>>) -> Result<SpecCommand, ParseError> {
    if toks.len() < 2 {
        Err(ParseError::MissingSubcommand)
    } else if toks[1] == "list"@ {
        spec_parse_components_list(toks, 2, false, None)
    } else if toks[1] == "info"@ {
        if toks.len() != 4 {
            Err(ParseError::BadArguments)
        } else if toks[2] == "--id"@ {
            match spec_parse_usize(toks[3]) {
                Option::Some(v) => Ok(SpecCommand::ComponentsInfoById { id: v }),
                Option::None => Err(ParseError::BadInteger),
            }
        } else if toks[2] == "--name"@ {
            Ok(SpecCommand::ComponentsInfoByName { name: toks[3] })
        } else {
            Err(ParseError::BadArguments)
        }
    } else {
        Err(ParseError::UnknownSubcommand)
    }
}

/// Parse the `entities` subtree.
pub open spec fn spec_parse_entities(toks: Seq<Seq<char>>) -> Result<SpecCommand, ParseError> {
    if toks.len() < 2 {
        Err(ParseError::MissingSubcommand)
    } else if toks[1] == "list"@ {
        if toks.len() == 2 {
            Ok(SpecCommand::EntitiesList)
        } else {
            Err(ParseError::BadArguments)
        }
    } else if toks[1] == "find"@ {
        if toks.len() != 4 {
            Err(ParseError::BadArguments)
        } else if toks[2] == "--componentid"@ {
            match spec_parse_usize(toks[3]) {
                Option::Some(v) => Ok(SpecCommand::EntitiesFindByComponentId { id: v }),
                Option::None => Err(ParseError::BadInteger),
            }
        } else if toks[2] == "--componentname"@ {
            Ok(SpecCommand::EntitiesFindByComponentName { name: toks[3] })
        } else {
            Err(ParseError::BadArguments)
        }
    } else {
        Err(ParseError::UnknownSubcommand)
    }
}

/// Parse the `resources` subtree.
pub open spec fn spec_parse_resources(toks: Seq<Seq<char>>) -> Result<SpecCommand, ParseError> {
    if toks.len() < 2 {
        Err(ParseError::MissingSubcommand)
    } else if toks[1] == "list"@ {
        if toks.len() == 2 {
            Ok(SpecCommand::ResourcesList)
        } else {
            Err(ParseError::BadArguments)
        }
    } else {
        Err(ParseError::UnknownSubcommand)
    }
}

/// Parse a token list into an invocation: an empty line parses to the no-op
/// invocation, single-word commands take no arguments, and each command with
/// subcommands delegates to its subtree.
pub open spec fn spec_parse(toks: Seq<Seq<char>>) -> Result<SpecCommand, ParseError> {
    if toks.len() == 0 {
        Ok(SpecCommand::Empty)
    } else if toks[0] == "resume"@ {
        if toks.len() == 1 {
            Ok(SpecCommand::Resume)
        } else {
            Err(ParseError::BadArguments)
        }
    } else if toks[0] == "quit"@ {
        if toks.len() == 1 {
            Ok(SpecCommand::Quit)
        } else {
            Err(ParseError::BadArguments)
        }
    } else if toks[0] == "counts"@ {
        if toks.len() == 1 {
            Ok(SpecCommand::Counts)
        } else {
            Err(ParseError::BadArguments)
        }
    } else if toks[0] == "help"@ {
        if toks.len() == 1 {
            Ok(SpecCommand::Help)
        } else {
            Err(ParseError::BadArguments)
        }
    } else if toks[0] == "archetypes"@ || toks[0] == "archetype"@ {
        spec_parse_archetypes(toks)
    } else if toks[0] == "components"@ || toks[0] == "component"@ {
        spec_parse_components(toks)
    } else if toks[0] == "entities"@ {
        spec_parse_entities(toks)
    } else if toks[0] == "resources"@ {
        spec_parse_resources(toks)
    } else {
        Err(ParseError::UnknownCommand)
    }
}

fn parse_archetypes(toks: &Vec<String>) -> (r: Result<Command, ParseError>)
    ensures
        match r {
            Result::Ok(c) => spec_parse_archetypes(views(toks@)) == Ok::<
                SpecCommand,
                ParseError,
            >(c@),
            Result::Err(e) => spec_parse_archetypes(views(toks@)) == Err::<
                SpecCommand,
                ParseError,
            >(e),
        },
{
    if toks.len() < 2 {
        return Err(ParseError::MissingSubcommand);
    }
    if str_eq(toks[1].as_str(), "list") {
        if toks.len() == 2 {
            return Ok(Command::ArchetypesList);
        }
        return Err(ParseError::BadArguments);
    }
    if str_eq(toks[1].as_str(), "info") {
        if toks.len() == 4 && str_eq(toks[2].as_str(), "--id") {
            match parse_usize(toks[3].as_str()) {
                Option::Some(v) => {
                    return Ok(Command::ArchetypesInfo { id: v });
                },
                Option::None => {
                    return Err(ParseError::BadInteger);
                },
            }
        }
        return Err(ParseError::BadArguments);
    }
    if str_eq(toks[1].as_str(), "find") {
        if toks.len() != 4 {
            return Err(ParseError::BadArguments);
        }
        if str_eq(toks[2].as_str(), "--componentid") {
            match parse_usize(toks[3].as_str()) {
                Option::Some(v) => {
                    return Ok(Command::ArchetypesFindByComponentId { id: v });
                },
                Option::None => {
                    return Err(ParseError::BadInteger);
                },
            }
        }
        if str_eq(toks[2].as_str(), "--componentname") {
            return Ok(Command::ArchetypesFindByComponentName { name: toks[3].clone() });
        }
        if str_eq(toks[2].as_str(), "--entityid") {
            match parse_usize(toks[3].as_str()) {
                Option::Some(v) => {
                    return Ok(Command::ArchetypesFindByEntityId { id: v });
                },
                Option::None => {
                    return Err(ParseError::BadInteger);
                },
            }
        }
        return Err(ParseError::BadArguments);
    }
    Err(ParseError::UnknownSubcommand)
}

fn parse_components(toks: &Vec<String>) -> (r: Result<Command, ParseError>)
    ensures
        match r {
            Result::Ok(c) => spec_parse_components(views(toks@)) == Ok::<
                SpecCommand,
                ParseError,
            >(c@),
            Result::Err(e) => spec_parse_components(views(toks@)) == Err::<
                SpecCommand,
                ParseError,
            >(e),
        },
{
    if toks.len() < 2 {
        return Err(ParseError::MissingSubcommand);
    }
    if str_eq(toks[1].as_str(), "list") {
        proof {
            assert(views(toks@)[1] == toks@[1]@);
        }
        let mut i: usize = 2;
        let mut long = false;
        let mut filter: Option<String> = None;
        while i < toks.len()
            invariant
                2 <= i,
                toks@.len() >= 2,
                views(toks@).len() == toks@.len(),
                views(toks@)[1] == "list"@,
                spec_parse_components_list(
                    views(toks@),
                    i as int,
                    long,
                    match filter {
                        Option::Some(f) => Some(f@),
                        Option::None => None,
                    },
                ) == spec_parse_components_list(views(toks@), 2, false, None),
            decreases toks@.len() - i,
        {
            proof {
                assert(views(toks@)[i as int] == toks@[i as int]@);
                if i + 1 < toks@.len() {
                    assert(views(toks@)[i + 1] == toks@[i + 1]@);
                }
            }
            if str_eq(toks[i].as_str(), "--long") || str_eq(toks[i].as_str(), "-l") {
                long = true;
                i = i + 1;
            } else if str_eq(toks[i].as_str(), "--filter") || str_eq(toks[i].as_str(), "-f") {
                if i + 1 < toks.len() {
                    filter = Some(toks[i + 1].clone());
                    i = i + 2;
                } else {
                    return Err(ParseError::BadArguments);
                }
            } else {
                return Err(ParseError::BadArguments);
            }
        }
        return Ok(Command::ComponentsList { long, filter });
    }
    if str_eq(toks[1].as_str(), "info") {
        if toks.len() != 4 {
            return Err(ParseError::BadArguments);
        }
        if str_eq(toks[2].as_str(), "--id") {
            match parse_usize(toks[3].as_str()) {
                Option::Some(v) => {
                    return Ok(Command::ComponentsInfoById { id: v });
                },
                Option::None => {
                    return Err(ParseError::BadInteger);
                },
            }
        }
        if str_eq(toks[2].as_str(), "--name") {
            return Ok(Command::ComponentsInfoByName { name: toks[3].clone() });
        }
        return Err(ParseError::BadArguments);
    }
    Err(ParseError::UnknownSubcommand)
}

fn parse_entities(toks: &Vec<String>) -> (r: Result<Command, ParseError>)
    ensures
        match r {
            Result::Ok(c) => spec_parse_entities(views(toks@)) == Ok::<SpecCommand, ParseError>(
                c@,
            ),
            Result::Err(e) => spec_parse_entities(views(toks@)) == Err::<SpecCommand, ParseError>(
                e,
            ),
        },
{
    if toks.len() < 2 {
        return Err(ParseError::MissingSubcommand);
    }
    if str_eq(toks[1].as_str(), "list") {
        if toks.len() == 2 {
            return Ok(Command::EntitiesList);
        }
        return Err(ParseError::BadArguments);
    }
    if str_eq(toks[1].as_str(), "find") {
        if toks.len() != 4 {
            return Err(ParseError::BadArguments);
        }
        if str_eq(toks[2].as_str(), "--componentid") {
            match parse_usize(toks[3].as_str()) {
                Option::Some(v) => {
                    return Ok(Command::EntitiesFindByComponentId { id: v });
                },
                Option::None => {
                    return Err(ParseError::BadInteger);
                },
            }
        }
        if str_eq(toks[2].as_str(), "--componentname") {
            return Ok(Command::EntitiesFindByComponentName { name: toks[3].clone() });
        }
        return Err(ParseError::BadArguments);
    }
    Err(ParseError::UnknownSubcommand)
}

fn parse_resources(toks: &Vec<String>) -> (r: Result<Command, ParseError>)
    ensures
        match r {
            Result::Ok(c) => spec_parse_resources(views(toks@)) == Ok::<SpecCommand, ParseError>(
                c@,
            ),
            Result::Err(e) => spec_parse_resources(views(toks@)) == Err::<
                SpecCommand,
                ParseError,
            >(e),
        },
{
    if toks.len() < 2 {
        return Err(ParseError::MissingSubcommand);
    }
    if str_eq(toks[1].as_str(), "list") {
        if toks.len() == 2 {
            return Ok(Command::ResourcesList);
        }
        return Err(ParseError::BadArguments);
    }
    Err(ParseError::UnknownSubcommand)
}

/// Parse a token list into an invocation, or say why it is rejected.
pub fn parse_command(toks: &Vec<String>) -> (r: Result<Command, ParseError>)
    ensures
        match r {
            Result::Ok(c) => spec_parse(views(toks@)) == Ok::<SpecCommand, ParseError>(c@),
            Result::Err(e) => spec_parse(views(toks@)) == Err::<SpecCommand, ParseError>(e),
        },
{
    if toks.len() == 0 {
        return Ok(Command::Empty);
    }
    let head = toks[0].as_str();
    if str_eq(head, "resume") {
        if toks.len() == 1 {
            return Ok(Command::Resume);
        }
        return Err(ParseError::BadArguments);
    }
    if str_eq(head, "quit") {
        if toks.len() == 1 {
            return Ok(Command::Quit);
        }
        return Err(ParseError::BadArguments);
    }
    if str_eq(head, "counts") {
        if toks.len() == 1 {
            return Ok(Command::Counts);
        }
        return Err(ParseError::BadArguments);
    }
    if str_eq(head, "help") {
        if toks.len() == 1 {
            return Ok(Command::Help);
        }
        return Err(ParseError::BadArguments);
    }
    if str_eq(head, "archetypes") || str_eq(head, "archetype") {
        return parse_archetypes(toks);
    }
    if str_eq(head, "components") || str_eq(head, "component") {
        return parse_components(toks);
    }
    if str_eq(head, "entities") {
        return parse_entities(toks);
    }
    if str_eq(head, "resources") {
        return parse_resources(toks);
    }
    Err(ParseError::UnknownCommand)
}

/// The usage text: the command vocabulary, one command per line.
pub open spec fn spec_usage_text() -> Seq<char> {
    "Commands:\n  resume\n  quit\n  counts\n  help\n  archetypes {list | info --id <Id> | find (--componentid <ComponentId> | --componentname <ComponentName> | --entityid <EntityId>)}\n  components {list [--filter <Filter>] [--long] | info (--id <Id> | --name <Name>)}\n  entities {list | find (--componentid <ComponentId> | --componentname <ComponentName>)}\n  resources list\n"@
}

/// The one-line explanation of a parse error.
pub open spec fn spec_error_line(e: ParseError) -> Seq<char> {
    match e {
        ParseError::UnknownCommand => "unknown command\n\n"@,
        ParseError::MissingSubcommand => "missing required subcommand\n\n"@,
        ParseError::UnknownSubcommand => "unknown subcommand\n\n"@,
        ParseError::BadArguments => "invalid arguments: expected exactly the parameters of one subcommand form\n\n"@,
        ParseError::BadInteger => "expected an integer value\n\n"@,
    }
}

/// The full text shown for a rejected line: the explanation, then the usage.
pub open spec fn spec_usage(e: ParseError) -> Seq<char> {
    spec_error_line(e) + spec_usage_text()
}

/// Render the usage text.
pub fn usage_text() -> (r: String)
    ensures
        r@ == spec_usage_text(),
{
    let mut out = String::new();
    out.append(
        "Commands:\n  resume\n  quit\n  counts\n  help\n  archetypes {list | info --id <Id> | find (--componentid <ComponentId> | --componentname <ComponentName> | --entityid <EntityId>)}\n  components {list [--filter <Filter>] [--long] | info (--id <Id> | --name <Name>)}\n  entities {list | find (--componentid <ComponentId> | --componentname <ComponentName>)}\n  resources list\n",
    );
    out
}

/// Render the usage report for a rejected line.
pub fn usage(e: ParseError) -> (r: String)
    ensures
        r@ == spec_usage(e),
{
    let mut out = String::new();
    match e {
        ParseError::UnknownCommand => out.append("unknown command\n\n"),
        ParseError::MissingSubcommand => out.append("missing required subcommand\n\n"),
        ParseError::UnknownSubcommand => out.append("unknown subcommand\n\n"),
        ParseError::BadArguments => out.append(
            "invalid arguments: expected exactly the parameters of one subcommand form\n\n",
        ),
        ParseError::BadInteger => out.append("expected an integer value\n\n"),
    }
    let u = usage_text();
    out.append(u.as_str());
    out
}

} // verus!

//! The console protocol: what to do at startup and with each line of input.
//! Reading lines, printing and the MIDI port itself are left to the caller.

use crate::command::{CommandError, Handler};
use crate::registry::{dispatch, CommandSpec, Commands, Registry};
use crate::token::{tokenize, words};
use vstd::prelude::*;
use vstd::string::*;

verus! {

/// What the console does with one line of input.
#[derive(Clone, Copy, Debug, PartialEq, Eq)]
pub enum Action {
    /// Nothing: the line is blank, or names no registered command.
    Ignore,
    /// Leave the loop.
    Quit,
    /// Print the registered commands with their help texts.
    Help,
    /// Send these three bytes to the port.
    Send([u8; 3]),
    /// Report that the command could not be carried out; nothing is sent.
    Reject(CommandError),
}

/// The action for one line. The first word decides: `quit` and `help` are
/// taken before the registry is asked, every other word is looked up there
/// and handed all the words of the line, itself included.
pub open spec fn line_action(registry: Registry, line: Seq<char>) -> Action {
    let tokens = words(line);
    if tokens.len() == 0 {
        Action::Ignore
    } else if tokens[0] == "quit"@ {
        Action::Quit
    } else if tokens[0] == "help"@ {
        Action::Help
    } else {
        match dispatch(registry, tokens[0], tokens) {
            None => Action::Ignore,
            Some(Ok(message)) => Action::Send(message),
            Some(Err(e)) => Action::Reject(e),
        }
    }
}

/// The action for what a read from the input gave: a line, or nothing at the
/// end of the input, where the console leaves the loop.
pub open spec fn input_action(registry: Registry, input: Option<Seq<char>>) -> Action {
    match input {
        Some(line) => line_action(registry, line),
        None => Action::Quit,
    }
}

/// The registry that the console starts with: `noteon` and `cc`.
pub open spec fn standard_registry() -> Registry {
    Map::empty().insert(
        "noteon"@,
        CommandSpec { handler: Handler::NoteOn, help: "noteon NOTE VELOCITY CHANNEL"@ },
    ).insert(
        "cc"@,
        CommandSpec { handler: Handler::ControlChange, help: "cc CONTROL VALUE CHANNEL"@ },
    )
}

/// Builds the registry that the console starts with.
pub fn standard_commands() -> (commands: Commands)
    ensures
        commands.wf(),
        commands@ == standard_registry(),
{
    let mut commands = Commands::new();
    commands.add("noteon".to_owned(), Handler::NoteOn, "noteon NOTE VELOCITY CHANNEL".to_owned());
    commands.add("cc".to_owned(), Handler::ControlChange, "cc CONTROL VALUE CHANNEL".to_owned());
    commands
}

/// Tells whether two string slices hold the same text.
fn same_text(a: &str, b: &str) -> (same: bool)
    ensures
        same == (a@ == b@),
{
    let left = a.to_owned();
    let right = b.to_owned();
    left == right
}

/// Decides what to do with one line of input.
pub fn interpret_line(commands: &Commands, line: &str) -> (action: Action)
    requires
        commands.wf(),
    ensures
        action == line_action(commands@, line@),
{
    let parts = tokenize(line);
    if parts.len() == 0 {
        return Action::Ignore;
    }
    let name = parts[0];
    if same_text(name, "quit") {
        return Action::Quit;
    }
    if same_text(name, "help") {
        return Action::Help;
    }
    match commands.try_run(name, &parts) {
        None => Action::Ignore,
        Some(Ok(message)) => Action::Send(message),
        Some(Err(e)) => Action::Reject(e),
    }
}

/// Decides what to do after a read from the input: `None` stands for the end
/// of the input.
pub fn next_action(commands: &Commands, input: Option<&str>) -> (action: Action)
    requires
        commands.wf(),
    ensures
        action == input_action(
            commands@,
            match input {
                Some(line) => Some(line@),
                None => None,
            },
        ),
{
    match input {
        Some(line) => interpret_line(commands, line),
        None => Action::Quit,
    }
}

/// The line that `help` prints for one command.
pub open spec fn help_line_text(name: Seq<char>, help: Seq<char>) -> Seq<char> {
    "'"@ + name + "': "@ + help
}

/// Builds the line that `help` prints for one command: the name in single
/// quotes, a colon, a space, the help text.
pub fn help_line(name: &str, help: &str) -> (line: String)
    ensures
        line@ == help_line_text(name@, help@),
{
    let mut line = "'".to_owned();
    line.append(name);
    line.append("': ");
    line.append(help);
    line
}

/// What the program does when it starts.
#[derive(Clone, Copy, Debug, PartialEq, Eq, Structural)]
pub enum Startup {
    /// Print the output ports, each with its index, and exit.
    ListPorts,
    /// Connect to the port at this index and read commands.
    Connect { port: usize },
    /// Fail: no port has the name that was asked for.
    PortNotFound,
}

/// Tells whether `port` is the first position of `names` that holds
/// `wanted`.
pub open spec fn is_first_port(names: Seq<String>, wanted: Seq<char>, port: int) -> bool {
    &&& 0 <= port < names.len()
    &&& names[port]@ == wanted
    &&& forall|j: int| 0 <= j < port ==> (#[trigger] names[j])@ != wanted
}

/// Tells whether no position of `names` holds `wanted`.
pub open spec fn no_port(names: Seq<String>, wanted: Seq<char>) -> bool {
    forall|j: int| 0 <= j < names.len() ==> (#[trigger] names[j])@ != wanted
}

/// Finds the first port whose name is exactly `wanted`.
pub fn find_port(names: &Vec<String>, wanted: &str) -> (port: Option<usize>)
    ensures
        match port {
            Some(i) => is_first_port(names@, wanted@, i as int),
            None => no_port(names@, wanted@),
        },
{
    let target = wanted.to_owned();
    let mut i: usize = 0;
    while i < names.len()
        invariant
            i <= names.len(),
            target@ == wanted@,
            forall|j: int| 0 <= j < i ==> (#[trigger] names[j])@ != wanted@,
        decreases names.len() - i,
    {
        if names[i] == target {
            return Some(i);
        }
        i = i + 1;
    }
    None
}

/// Decides what to do at startup from the arguments that follow the
/// program's name and the names of the output ports. Without an argument
/// the ports are listed; otherwise the first argument names the port, and
/// further arguments are not looked at.
pub fn startup(arguments: &Vec<String>, port_names: &Vec<String>) -> (plan: Startup)
    ensures
        match plan {
            Startup::ListPorts => arguments.len() == 0,
            Startup::Connect { port } => arguments.len() > 0 && is_first_port(
                port_names@,
                arguments[0]@,
                port as int,
            ),
            Startup::PortNotFound => arguments.len() > 0 && no_port(port_names@, arguments[0]@),
        },
{
    if arguments.len() == 0 {
        return Startup::ListPorts;
    }
    match find_port(port_names, arguments[0].as_str()) {
        Some(port) => Startup::Connect { port },
        None => Startup::PortNotFound,
    }
}

} // verus!

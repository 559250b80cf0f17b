use midiline::command::{CommandError, Handler};
use midiline::console::{
    find_port, help_line, interpret_line, next_action, standard_commands, startup, Action,
    Startup,
};
use midiline::registry::Commands;

fn names(list: &[&str]) -> Vec<String> {
    list.iter().map(|name| name.to_string()).collect()
}

#[test]
fn end_to_end_noteon() {
    let commands = standard_commands();
    assert_eq!(interpret_line(&commands, "noteon 60 100 0"), Action::Send([0x90, 60, 100]));
}

#[test]
fn end_to_end_cc() {
    let commands = standard_commands();
    assert_eq!(interpret_line(&commands, "cc 7 127 1"), Action::Send([0xB1, 7, 127]));
}

#[test]
fn end_to_end_quit() {
    let commands = standard_commands();
    assert_eq!(interpret_line(&commands, "quit"), Action::Quit);
}

#[test]
fn end_to_end_unknown_command_is_ignored() {
    let commands = standard_commands();
    assert_eq!(interpret_line(&commands, "bogus 1 2 3"), Action::Ignore);
}

#[test]
fn end_to_end_too_few_arguments_are_reported() {
    let commands = standard_commands();
    assert_eq!(
        interpret_line(&commands, "noteon 1 2"),
        Action::Reject(CommandError::MissingArgument { position: 3 })
    );
    // The console goes on with the next line.
    assert_eq!(interpret_line(&commands, "noteon 1 2 3"), Action::Send([0x93, 1, 2]));
}

#[test]
fn malformed_numbers_are_reported() {
    let commands = standard_commands();
    assert_eq!(
        interpret_line(&commands, "noteon sixty 100 0"),
        Action::Reject(CommandError::InvalidArgument { position: 1 })
    );
    assert_eq!(
        interpret_line(&commands, "cc 7 300 1"),
        Action::Reject(CommandError::InvalidArgument { position: 2 })
    );
    assert_eq!(
        interpret_line(&commands, "cc"),
        Action::Reject(CommandError::MissingArgument { position: 1 })
    );
}

#[test]
fn blank_lines_are_ignored() {
    let commands = standard_commands();
    assert_eq!(interpret_line(&commands, ""), Action::Ignore);
    assert_eq!(interpret_line(&commands, "\n"), Action::Ignore);
    assert_eq!(interpret_line(&commands, "   \t\r\n"), Action::Ignore);
}

#[test]
fn help_is_taken_before_the_registry() {
    let commands = standard_commands();
    assert_eq!(interpret_line(&commands, "help"), Action::Help);
    assert_eq!(interpret_line(&commands, "help\n"), Action::Help);
    assert_eq!(interpret_line(&commands, "  help noteon"), Action::Help);
    let mut shadowed = Commands::new();
    shadowed.add("help".to_string(), Handler::NoteOn, "never reached".to_string());
    shadowed.add("quit".to_string(), Handler::NoteOn, "never reached".to_string());
    assert_eq!(interpret_line(&shadowed, "help 1 2 3"), Action::Help);
    assert_eq!(interpret_line(&shadowed, "quit 1 2 3"), Action::Quit);
}

#[test]
fn quit_goes_by_the_first_word() {
    let commands = standard_commands();
    assert_eq!(interpret_line(&commands, "quit\n"), Action::Quit);
    assert_eq!(interpret_line(&commands, " quit now"), Action::Quit);
    assert_eq!(interpret_line(&commands, "quitx"), Action::Ignore);
    assert_eq!(interpret_line(&commands, "QUIT"), Action::Ignore);
    assert_eq!(interpret_line(&commands, "noteon quit"), Action::Reject(
        CommandError::InvalidArgument { position: 1 }
    ));
}

#[test]
fn lines_as_they_come_from_a_terminal() {
    let commands = standard_commands();
    assert_eq!(interpret_line(&commands, "noteon 60 100 0\n"), Action::Send([0x90, 60, 100]));
    assert_eq!(interpret_line(&commands, "noteon 60 100 0\r\n"), Action::Send([0x90, 60, 100]));
    assert_eq!(interpret_line(&commands, "  cc   7\t127  1  "), Action::Send([0xB1, 7, 127]));
    assert_eq!(interpret_line(&commands, "cc 7 127 1 and more"), Action::Send([0xB1, 7, 127]));
}

#[test]
fn an_empty_registry_ignores_every_command() {
    let commands = Commands::new();
    assert_eq!(interpret_line(&commands, "noteon 60 100 0"), Action::Ignore);
    assert_eq!(interpret_line(&commands, "cc x"), Action::Ignore);
    assert_eq!(interpret_line(&commands, "quit"), Action::Quit);
    assert_eq!(interpret_line(&commands, "help"), Action::Help);
}

#[test]
fn the_handler_gets_all_tokens_of_the_line() {
    let mut commands = Commands::new();
    commands.add("n".to_string(), Handler::NoteOn, "short name".to_string());
    assert_eq!(interpret_line(&commands, "n 1 2 3"), Action::Send([0x93, 1, 2]));
    assert_eq!(
        interpret_line(&commands, "n 1 2"),
        Action::Reject(CommandError::MissingArgument { position: 3 })
    );
}

#[test]
fn the_end_of_the_input_ends_the_loop() {
    let commands = standard_commands();
    assert_eq!(next_action(&commands, None), Action::Quit);
    assert_eq!(next_action(&commands, Some("")), Action::Ignore);
    assert_eq!(next_action(&commands, Some("noteon 60 100 0\n")), Action::Send([0x90, 60, 100]));
    assert_eq!(next_action(&commands, Some("quit\n")), Action::Quit);
}

#[test]
fn standard_commands_are_noteon_and_cc() {
    let commands = standard_commands();
    let mut listing = commands.list();
    listing.sort();
    assert_eq!(
        listing,
        vec![
            ("cc".to_string(), "cc CONTROL VALUE CHANNEL".to_string()),
            ("noteon".to_string(), "noteon NOTE VELOCITY CHANNEL".to_string()),
        ]
    );
}

#[test]
fn help_line_exact_text() {
    assert_eq!(
        help_line("noteon", "noteon NOTE VELOCITY CHANNEL"),
        "'noteon': noteon NOTE VELOCITY CHANNEL"
    );
    assert_eq!(help_line("cc", "cc CONTROL VALUE CHANNEL"), "'cc': cc CONTROL VALUE CHANNEL");
    assert_eq!(help_line("", ""), "'': ");
}

#[test]
fn find_port_gives_the_first_exact_match() {
    let ports = names(&["Midi Through", "Synth", "Synth", "synth"]);
    assert_eq!(find_port(&ports, "Midi Through"), Some(0));
    assert_eq!(find_port(&ports, "Synth"), Some(1));
    assert_eq!(find_port(&ports, "synth"), Some(3));
    assert_eq!(find_port(&ports, "Synt"), None);
    assert_eq!(find_port(&ports, "Synth "), None);
    assert_eq!(find_port(&ports, ""), None);
    assert_eq!(find_port(&Vec::new(), "Synth"), None);
}

#[test]
fn startup_without_arguments_lists_the_ports() {
    assert_eq!(startup(&Vec::new(), &names(&["a", "b"])), Startup::ListPorts);
    assert_eq!(startup(&Vec::new(), &Vec::new()), Startup::ListPorts);
}

#[test]
fn startup_with_a_port_name_connects_to_it() {
    let ports = names(&["Midi Through", "Synth"]);
    assert_eq!(startup(&names(&["Synth"]), &ports), Startup::Connect { port: 1 });
    assert_eq!(startup(&names(&["Midi Through"]), &ports), Startup::Connect { port: 0 });
    assert_eq!(startup(&names(&["Synth", "ignored"]), &ports), Startup::Connect { port: 1 });
}

#[test]
fn startup_with_an_unknown_port_name_fails() {
    let ports = names(&["Midi Through", "Synth"]);
    assert_eq!(startup(&names(&["Piano"]), &ports), Startup::PortNotFound);
    assert_eq!(startup(&names(&["Piano", "Synth"]), &ports), Startup::PortNotFound);
    assert_eq!(startup(&names(&["Synth"]), &Vec::new()), Startup::PortNotFound);
}

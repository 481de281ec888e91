use commandservice::CommandProcessor;
use commandservice::HostVersions;
use commandservice::Identity;
use commandservice::Message;
use commandservice::PluginDescriptor;
use commandservice::ProcessorError;

fn host() -> HostVersions {
    HostVersions {
        runtime_version: "rustc 1.57.0".to_string(),
        core_version: "0.1.0".to_string(),
    }
}

fn descriptor() -> PluginDescriptor {
    PluginDescriptor {
        rustc_version: "rustc 1.57.0".to_string(),
        core_version: "0.1.0".to_string(),
    }
}

fn message(text: &str) -> Message {
    Message::new(Identity { channel_id: "chan-1".to_string() }, text.to_string())
}

/// Load one plugin that registers `ping` (aliases `p`, `pi`) as handle 7.
fn load_ping(processor: &mut CommandProcessor, library: &str, handle: u64) {
    let mut registrar = processor.begin_load(library, &descriptor()).expect("versions match");
    registrar.register_command(
        "ping".to_string(),
        vec!["p".to_string(), "pi".to_string()],
        handle,
    );
    processor.finish_load(registrar);
}

#[test]
fn registered_command_and_aliases_are_reachable() {
    let mut processor = CommandProcessor::new(host());
    load_ping(&mut processor, "plugin.so", 7);

    for name in ["!ping", "!p", "!pi"] {
        let invocation = processor.call(&message(name)).expect("registered name resolves");
        assert_eq!(invocation.command, 7);
        assert_eq!(invocation.library, "plugin.so");
        assert!(processor.finish_call(invocation, true).is_ok());
    }
}

#[test]
fn alias_entries_are_marked_and_carry_no_aliases() {
    let processor = CommandProcessor::new(host());
    let mut registrar = processor.begin_load("plugin.so", &descriptor()).expect("versions match");
    registrar.register_command("ping".to_string(), vec!["p".to_string()], 7);

    assert_eq!(registrar.commands.len(), 2);
    let canonical = registrar.commands.iter().find(|e| e.name == "ping").expect("canonical");
    assert!(!canonical.is_alias);
    assert_eq!(canonical.aliases, vec!["p".to_string()]);
    let alias = registrar.commands.iter().find(|e| e.name == "p").expect("alias");
    assert!(alias.is_alias);
    assert!(alias.aliases.is_empty());
    assert_eq!(alias.command, canonical.command);
    assert_eq!(alias.library, canonical.library);
}

#[test]
fn unknown_name_is_command_not_found_and_invokes_nothing() {
    let mut processor = CommandProcessor::new(host());
    load_ping(&mut processor, "plugin.so", 7);

    let err = processor.call(&message("!pong")).err().expect("unregistered name");
    match err {
        ProcessorError::CommandNotFound { command } => assert_eq!(command, "pong"),
        _ => panic!("wrong classification"),
    }
    // Nothing was handed out to invoke, and no hold was taken.
    assert_eq!(processor.libraries[0].holds, 0);
}

#[test]
fn duplicate_names_resolve_to_the_first_loaded_library_every_time() {
    let mut processor = CommandProcessor::new(host());
    load_ping(&mut processor, "first.so", 1);
    load_ping(&mut processor, "second.so", 2);

    for _ in 0..5 {
        let invocation = processor.call(&message("!ping")).expect("resolves");
        assert_eq!(invocation.command, 1);
        assert_eq!(invocation.library, "first.so");
        assert!(processor.finish_call(invocation, true).is_ok());
    }
}

#[test]
fn failed_execution_is_classified_with_command_library_and_text() {
    let mut processor = CommandProcessor::new(host());
    load_ping(&mut processor, "plugin.so", 7);

    let invocation = processor.call(&message("!ping hello")).expect("resolves");
    assert_eq!(invocation.raw_message, "!ping hello");
    let err = processor.finish_call(invocation, false).err().expect("failure is reported");
    match err {
        ProcessorError::CommandExecutionFailed { command, library, message } => {
            assert_eq!(command, "ping");
            assert_eq!(library, "plugin.so");
            assert_eq!(message, "!ping hello");
        }
        _ => panic!("wrong classification"),
    }
    assert_eq!(processor.libraries[0].holds, 0);
}

#[test]
fn reloading_a_library_replaces_its_registry() {
    let mut processor = CommandProcessor::new(host());
    load_ping(&mut processor, "plugin.so", 7);

    let mut registrar = processor.begin_load("plugin.so", &descriptor()).expect("versions match");
    registrar.register_command("pong".to_string(), vec![], 8);
    processor.finish_load(registrar);

    assert_eq!(processor.libraries.len(), 1);
    let err = processor.call(&message("!ping")).err().expect("old command is gone");
    assert!(matches!(err, ProcessorError::CommandNotFound { .. }));
    let invocation = processor.call(&message("!pong")).expect("new command resolves");
    assert_eq!(invocation.command, 8);
}

#[test]
fn later_registration_of_the_same_name_wins_within_one_registry() {
    let processor = CommandProcessor::new(host());
    let mut registrar = processor.begin_load("plugin.so", &descriptor()).expect("versions match");
    registrar.register_command("ping".to_string(), vec![], 1);
    registrar.register_command("ping".to_string(), vec![], 2);
    assert_eq!(registrar.commands.len(), 1);
    assert_eq!(registrar.commands[0].command, 2);
}

use commandservice::CommandProcessor;
use commandservice::HostVersions;
use commandservice::Identity;
use commandservice::Message;
use commandservice::PluginDescriptor;
use commandservice::ProcessorError;
use commandservice::CommandServiceServer;
use commandservice::UnloadOutcome;

fn host() -> HostVersions {
    HostVersions {
        runtime_version: "rustc 1.57.0".to_string(),
        core_version: "0.1.0".to_string(),
    }
}

fn descriptor() -> PluginDescriptor {
    PluginDescriptor {
        rustc_version: "rustc 1.57.0".to_string(),
        core_version: "0.1.0".to_string(),
    }
}

fn message(text: &str) -> Message {
    Message::new(Identity { channel_id: "chan-1".to_string() }, text.to_string())
}

fn load_ping(processor: &mut CommandProcessor, library: &str, handle: u64) {
    let mut registrar = processor.begin_load(library, &descriptor()).expect("versions match");
    registrar.register_command("ping".to_string(), vec!["p".to_string()], handle);
    processor.finish_load(registrar);
}

#[test]
fn unload_of_an_idle_library_removes_all_its_commands() {
    let mut processor = CommandProcessor::new(host());
    load_ping(&mut processor, "plugin.so", 7);

    assert_eq!(processor.unload("plugin.so"), UnloadOutcome::Removed);
    for name in ["!ping", "!p"] {
        let err = processor.call(&message(name)).err().expect("command is gone");
        assert!(matches!(err, ProcessorError::CommandNotFound { .. }));
    }
    let server = CommandServiceServer { processor };
    let listing = server.get_commands();
    assert!(listing.commands.is_empty());
    assert_eq!(listing.count, 0);
}

#[test]
fn unload_of_a_library_with_an_invocation_in_flight_leaves_it_usable() {
    let mut processor = CommandProcessor::new(host());
    load_ping(&mut processor, "plugin.so", 7);

    let in_flight = processor.call(&message("!ping")).expect("resolves");
    assert_eq!(processor.unload("plugin.so"), UnloadOutcome::StillInUse);

    // The commands stay fully reachable afterwards.
    let second = processor.call(&message("!p")).expect("still resolves");
    assert_eq!(second.command, 7);
    assert!(processor.finish_call(second, true).is_ok());
    assert!(processor.finish_call(in_flight, true).is_ok());

    // Once nothing is in flight the library can be reclaimed.
    assert_eq!(processor.unload("plugin.so"), UnloadOutcome::Removed);
}

#[test]
fn unload_of_an_absent_library_reports_not_loaded() {
    let mut processor = CommandProcessor::new(host());
    load_ping(&mut processor, "plugin.so", 7);
    assert_eq!(processor.unload("other.so"), UnloadOutcome::NotLoaded);
    assert_eq!(processor.libraries.len(), 1);
}

#[test]
fn unload_leaves_other_libraries_untouched() {
    let mut processor = CommandProcessor::new(host());
    load_ping(&mut processor, "first.so", 1);
    let mut registrar = processor.begin_load("second.so", &descriptor()).expect("versions match");
    registrar.register_command("pong".to_string(), vec![], 2);
    processor.finish_load(registrar);

    assert_eq!(processor.unload("first.so"), UnloadOutcome::Removed);
    let invocation = processor.call(&message("!pong")).expect("other library still serves");
    assert_eq!(invocation.command, 2);
    assert_eq!(invocation.library, "second.so");
}

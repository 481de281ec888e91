use commandservice::CommandProcessor;
use commandservice::CommandServiceServer;
use commandservice::HostVersions;
use commandservice::PluginDescriptor;

fn host() -> HostVersions {
    HostVersions {
        runtime_version: "rustc 1.57.0".to_string(),
        core_version: "0.1.0".to_string(),
    }
}

fn descriptor() -> PluginDescriptor {
    PluginDescriptor {
        rustc_version: "rustc 1.57.0".to_string(),
        core_version: "0.1.0".to_string(),
    }
}

fn server_with_two_libraries() -> CommandServiceServer {
    let mut processor = CommandProcessor::new(host());

    let mut registrar = processor.begin_load("first.so", &descriptor()).expect("versions match");
    registrar.register_command(
        "ping".to_string(),
        vec!["p".to_string(), "pi".to_string()],
        1,
    );
    processor.finish_load(registrar);

    let mut registrar = processor.begin_load("second.so", &descriptor()).expect("versions match");
    registrar.register_command("roll".to_string(), vec![], 2);
    registrar.register_command("quote".to_string(), vec!["q".to_string()], 3);
    processor.finish_load(registrar);

    CommandServiceServer { processor }
}

#[test]
fn listing_has_one_record_per_canonical_name_and_no_alias_entries() {
    let server = server_with_two_libraries();
    let listing = server.get_commands();

    assert_eq!(listing.count, 2);
    let mut names: Vec<(String, String)> = listing
        .commands
        .iter()
        .map(|c| (c.library.clone(), c.name.clone()))
        .collect();
    names.sort();
    assert_eq!(
        names,
        vec![
            ("first.so".to_string(), "ping".to_string()),
            ("second.so".to_string(), "quote".to_string()),
            ("second.so".to_string(), "roll".to_string()),
        ]
    );
    for record in &listing.commands {
        assert_eq!(record.description, "A command for ByersPlusPlus");
        assert!(record.name != "p" && record.name != "pi" && record.name != "q");
    }
    let ping = listing.commands.iter().find(|c| c.name == "ping").expect("listed");
    assert_eq!(ping.aliases, vec!["p".to_string(), "pi".to_string()]);
    assert_eq!(ping.library, "first.so");
}

#[test]
fn get_command_reports_a_canonical_name() {
    let server = server_with_two_libraries();
    let record = server.get_command("quote").expect("canonical name is reported");
    assert_eq!(record.name, "quote");
    assert_eq!(record.aliases, vec!["q".to_string()]);
    assert_eq!(record.library, "second.so");
    assert_eq!(record.description, "A command for ByersPlusPlus");
}

#[test]
fn get_command_does_not_report_aliases_or_unknown_names() {
    let server = server_with_two_libraries();
    assert!(server.get_command("p").is_none());
    assert!(server.get_command("q").is_none());
    assert!(server.get_command("missing").is_none());
}

#[test]
fn listing_of_an_empty_table_is_empty() {
    let server = CommandServiceServer { processor: CommandProcessor::new(host()) };
    let listing = server.get_commands();
    assert!(listing.commands.is_empty());
    assert_eq!(listing.count, 0);
}

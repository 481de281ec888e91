use commandservice::CommandProcessor;
use commandservice::HostVersions;
use commandservice::Message;
use commandservice::PluginDescriptor;
use commandservice::ProcessorError;
use commandservice::Identity;

fn host() -> HostVersions {
    HostVersions {
        runtime_version: "rustc 1.57.0".to_string(),
        core_version: "0.1.0".to_string(),
    }
}

fn message(text: &str) -> Message {
    Message::new(Identity { channel_id: "chan-1".to_string() }, text.to_string())
}

#[test]
fn matching_versions_are_admitted() {
    let processor = CommandProcessor::new(host());
    let descriptor = PluginDescriptor {
        rustc_version: "rustc 1.57.0".to_string(),
        core_version: "0.1.0".to_string(),
    };
    let registrar = processor.begin_load("plugin.so", &descriptor);
    let registrar = registrar.expect("matching versions are admitted");
    assert_eq!(registrar.library_name, "plugin.so");
    assert!(registrar.commands.is_empty());
}

#[test]
fn mismatched_runtime_version_is_rejected() {
    let processor = CommandProcessor::new(host());
    let descriptor = PluginDescriptor {
        rustc_version: "rustc 1.56.1".to_string(),
        core_version: "0.1.0".to_string(),
    };
    let err = processor.begin_load("plugin.so", &descriptor).err().expect("a mismatch is rejected");
    match err {
        ProcessorError::LibraryRustCVersionMismatch {
            library_name,
            rustc_version,
            actual_rustc_version,
        } => {
            assert_eq!(library_name, "plugin.so");
            assert_eq!(rustc_version, "rustc 1.57.0");
            assert_eq!(actual_rustc_version, "rustc 1.56.1");
        }
        _ => panic!("wrong classification"),
    }
}

#[test]
fn core_version_off_by_one_character_is_rejected() {
    let processor = CommandProcessor::new(host());
    let descriptor = PluginDescriptor {
        rustc_version: "rustc 1.57.0".to_string(),
        core_version: "0.1.1".to_string(),
    };
    let err = processor.begin_load("plugin.so", &descriptor).err().expect("a mismatch is rejected");
    match err {
        ProcessorError::LibraryCoreVersionMismatch {
            library_name,
            core_version,
            actual_core_version,
        } => {
            assert_eq!(library_name, "plugin.so");
            assert_eq!(core_version, "0.1.0");
            assert_eq!(actual_core_version, "0.1.1");
        }
        _ => panic!("wrong classification"),
    }
}

#[test]
fn rejected_plugin_contributes_no_commands() {
    let mut processor = CommandProcessor::new(host());
    let descriptor = PluginDescriptor {
        rustc_version: "other".to_string(),
        core_version: "0.1.0".to_string(),
    };
    assert!(processor.begin_load("plugin.so", &descriptor).is_err());
    let err = processor.call(&message("!ping")).err().expect("nothing is registered");
    match err {
        ProcessorError::CommandNotFound { command } => assert_eq!(command, "ping"),
        _ => panic!("wrong classification"),
    }
}

#[test]
fn error_texts_render_as_classified() {
    let not_found = ProcessorError::CommandNotFound { command: "ping".to_string() };
    assert_eq!(not_found.describe(), "Command ping not found");

    let exec_failed = ProcessorError::CommandExecutionFailed {
        command: "ping".to_string(),
        library: "plugin.so".to_string(),
        message: "!ping".to_string(),
    };
    assert_eq!(
        exec_failed.describe(),
        "Command ping (from library plugin.so) errored with the following message: !ping"
    );

    let load = ProcessorError::LoadError {
        library_name: "plugin.so".to_string(),
        message: "no such file".to_string(),
    };
    assert_eq!(load.describe(), "Unable to load plugin.so: no such file");

    let rustc = ProcessorError::LibraryRustCVersionMismatch {
        library_name: "plugin.so".to_string(),
        rustc_version: "a".to_string(),
        actual_rustc_version: "b".to_string(),
    };
    assert_eq!(
        rustc.describe(),
        "Library plugin.so has a different rustc version than this core.\n\tExpected: a\n\tActual: b"
    );

    let core = ProcessorError::LibraryCoreVersionMismatch {
        library_name: "plugin.so".to_string(),
        core_version: "a".to_string(),
        actual_core_version: "b".to_string(),
    };
    assert_eq!(
        core.describe(),
        "Library plugin.so has a different core version than this core.\n\tExpected: a\n\tActual: b"
    );
}

use rnpmrc::command::{parse_command, Command};
use rnpmrc::store::StoreError;

#[test]
fn parse_create() {
    assert_eq!(
        parse_command("create", Some("work"), None),
        Ok(Command::Create { profile: "work".to_string() })
    );
}

#[test]
fn parse_open_default_editor() {
    assert_eq!(
        parse_command("open", Some("work"), None),
        Ok(Command::Open { profile: "work".to_string(), editor: "vi".to_string() })
    );
}

#[test]
fn parse_open_named_editor() {
    assert_eq!(
        parse_command("open", Some("work"), Some("nano")),
        Ok(Command::Open { profile: "work".to_string(), editor: "nano".to_string() })
    );
}

#[test]
fn parse_activate_remove_list_status() {
    assert_eq!(
        parse_command("activate", Some("a"), None),
        Ok(Command::Activate { profile: "a".to_string() })
    );
    assert_eq!(
        parse_command("remove", Some("a"), None),
        Ok(Command::Remove { profile: "a".to_string() })
    );
    assert_eq!(parse_command("list", None, None), Ok(Command::List));
    assert_eq!(parse_command("status", None, None), Ok(Command::Status));
}

#[test]
fn parse_without_subcommand_fails() {
    assert_eq!(
        parse_command("", None, None),
        Err(StoreError::InvalidArgument { message: "no subcommand was used".to_string() })
    );
}

#[test]
fn parse_unknown_subcommand_fails() {
    assert_eq!(
        parse_command("backup", Some("a"), None),
        Err(StoreError::InvalidArgument { message: "unknown subcommand".to_string() })
    );
}

#[test]
fn parse_missing_profile_fails() {
    let missing = Err(StoreError::InvalidArgument { message: "missing profile name".to_string() });
    assert_eq!(parse_command("create", None, None), missing);
    assert_eq!(parse_command("remove", Some(""), None), missing);
}

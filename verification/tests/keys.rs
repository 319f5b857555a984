use gfret::command::Command;
use gfret::keys::Keys;
use gfret::keys::default_accel;

#[test]
fn keys_missing_file_gives_defaults() {
    let keys = Keys::resolve(None);
    assert_eq!(keys.get(Command::Quit), "<Control>q".to_string());
    assert_eq!(keys.get(Command::Open), "<Control>o".to_string());
    assert!(keys.open.is_none());
    assert!(keys.quit.is_none());
}

#[test]
fn keys_corrupt_file_gives_defaults() {
    // No '=' on the line: the whole definition is rejected, fail-open.
    let keys = Keys::resolve(Some("save <Control>w"));
    assert!(keys.save.is_none());
    assert_eq!(keys.get(Command::Quit), default_accel(Command::Quit).to_string());
}

#[test]
fn keys_override_wins_others_default() {
    let keys = Keys::resolve(Some("save = <Control><Shift>w\n"));
    assert_eq!(keys.get(Command::Save), "<Control><Shift>w".to_string());
    assert_eq!(keys.get(Command::About), "F1".to_string());
}

#[test]
fn keys_comments_and_blanks_ignored() {
    let keys = Keys::resolve(Some("# my bindings\n\nopen = <Alt>o\n"));
    assert_eq!(keys.get(Command::Open), "<Alt>o".to_string());
    assert_eq!(keys.get(Command::Save), "<Control>s".to_string());
}

#[test]
fn keys_unknown_command_rejects_file() {
    let keys = Keys::resolve(Some("snooze = <Control>z\n"));
    assert!(keys.open.is_none());
    assert_eq!(keys.get(Command::Open), "<Control>o".to_string());
}

#[test]
fn keys_malformed_accelerator_rejects_file() {
    // A modifier with no key after it is not a well-formed accelerator.
    let keys = Keys::resolve(Some("save = <Control>\n"));
    assert!(keys.save.is_none());
    assert_eq!(keys.get(Command::Save), "<Control>s".to_string());
}

#[test]
fn keys_parse_is_fail_closed() {
    assert!(Keys::parse("open = <Alt>o").is_some());
    assert!(Keys::parse("open = <Alt>o\nnonsense line\n").is_none());
}

#[test]
fn keys_later_binding_replaces_earlier() {
    let keys = Keys::resolve(Some("open = a\nopen = b\n"));
    assert_eq!(keys.get(Command::Open), "b".to_string());
}

#[test]
fn keys_all_commands_have_default() {
    let keys = Keys::resolve(None);
    let all = [
        Command::Open,
        Command::Save,
        Command::SaveAs,
        Command::OpenExternal,
        Command::Preferences,
        Command::About,
        Command::Quit,
    ];
    for c in all {
        assert!(!keys.get(c).is_empty());
        assert_eq!(keys.get(c), default_accel(c).to_string());
    }
}

#[test]
fn keys_command_names_round_trip() {
    let all = [
        Command::Open,
        Command::Save,
        Command::SaveAs,
        Command::OpenExternal,
        Command::Preferences,
        Command::About,
        Command::Quit,
    ];
    for c in all {
        assert_eq!(Command::from_name(c.name()), Some(c));
    }
    assert_eq!(Command::from_name("close"), None);
}

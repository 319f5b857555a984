use gfret::actions::Actions;
use gfret::actions::Handler;
use gfret::command::Command;
use gfret::keys::Keys;
use gfret::keys::default_accel;

#[test]
fn registry_covers_all_seven_commands() {
    let actions = Actions::default();
    let keys = Keys::resolve(None);
    let bindings = actions.add(&keys);
    assert_eq!(bindings.len(), 7);
    let expected = [
        Command::Open,
        Command::Save,
        Command::SaveAs,
        Command::OpenExternal,
        Command::Preferences,
        Command::About,
        Command::Quit,
    ];
    for (b, c) in bindings.iter().zip(expected.iter()) {
        assert_eq!(b.command, *c);
        assert_eq!(b.accel, default_accel(*c).to_string());
        assert!(!b.accel.is_empty());
    }
}

#[test]
fn registry_handlers_are_distinct() {
    let actions = Actions::default();
    let keys = Keys::resolve(None);
    let bindings = actions.add(&keys);
    for i in 0..bindings.len() {
        for j in 0..bindings.len() {
            if i != j {
                assert_ne!(bindings[i].handler, bindings[j].handler);
            }
        }
    }
    assert_eq!(bindings[0].handler, Handler::OpenFile);
    assert_eq!(bindings[6].handler, Handler::CloseWindow);
}

#[test]
fn registry_uses_table_overrides() {
    let actions = Actions::default();
    let keys = Keys::resolve(Some("save = <Primary>w\n"));
    let bindings = actions.add(&keys);
    assert_eq!(bindings[1].command, Command::Save);
    assert_eq!(bindings[1].accel, "<Primary>w".to_string());
    assert_eq!(bindings[0].accel, default_accel(Command::Open).to_string());
}

#[test]
fn registry_is_idempotent() {
    let actions = Actions::default();
    let keys = Keys::resolve(Some("quit = <Alt>F4\n"));
    let first = actions.add(&keys);
    let second = actions.add(&keys);
    assert_eq!(first, second);
    assert_eq!(first.len(), 7);
}

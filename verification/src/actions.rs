//! The action registry: wires every command of the fixed set to an
//! accelerator and an activation handler.
//!
//! The registry walks the command set in its fixed order and produces one
//! binding per command: the command, the accelerator the keybinding table
//! resolves for it, and the handler the host shell must invoke when the
//! command activates. The host registers each binding with its own
//! action-dispatch machinery; the registry itself keeps no state, so
//! running it again over the same table produces the same bindings.

use vstd::prelude::*;

use crate::command::Command;
use crate::keys::Keys;
use crate::keys::lemma_get_nonempty;

verus! {

/// The activation a binding hands to the host shell, one distinct handler
/// per command.
#[derive(Clone, Copy, Debug, PartialEq, Eq, Structural)]
pub enum Handler {
    OpenFile,
    SaveFile,
    SaveFileAs,
    OpenInExternalApp,
    ShowPreferences,
    ShowAboutDialog,
    CloseWindow,
}

/// One wired command: its name, the accelerator that invokes it, and the
/// activation the host runs for it.
#[derive(Clone, Debug, PartialEq, Eq)]
pub struct CommandBinding {
    pub command: Command,
    pub accel: String,
    pub handler: Handler,
}

/// The fixed order the commands are registered in.
pub open spec fn command_order() -> Seq<Command> {
    seq![
        Command::Open,
        Command::Save,
        Command::SaveAs,
        Command::OpenExternal,
        Command::Preferences,
        Command::About,
        Command::Quit,
    ]
}

/// The handler attached to each command.
pub open spec fn handler_for(c: Command) -> Handler {
    match c {
        Command::Open => Handler::OpenFile,
        Command::Save => Handler::SaveFile,
        Command::SaveAs => Handler::SaveFileAs,
        Command::OpenExternal => Handler::OpenInExternalApp,
        Command::Preferences => Handler::ShowPreferences,
        Command::About => Handler::ShowAboutDialog,
        Command::Quit => Handler::CloseWindow,
    }
}

/// What a registry run must produce over `names` and the table `k`: one
/// binding per name, in order, each carrying the accelerator the table
/// resolves and the handler of its command.
pub open spec fn bindings_match(names: Seq<Command>, k: Keys, r: Seq<CommandBinding>) -> bool {
    &&& r.len() == names.len()
    &&& forall|i: int|
        0 <= i < r.len() ==> {
            &&& (#[trigger] r[i]).command == names[i]
            &&& r[i].accel@ == k.spec_get(names[i])
            &&& r[i].handler == handler_for(names[i])
        }
}

/// The observable content of a run's bindings: command, accelerator text
/// and handler, in order.
pub open spec fn binding_views(r: Seq<CommandBinding>) -> Seq<(Command, Seq<char>, Handler)> {
    r.map_values(|b: CommandBinding| (b.command, b.accel@, b.handler))
}

/// The registry: the fixed list of command names to wire, in registration
/// order.
pub struct Actions {
    pub names: Vec<Command>,
}

impl Default for Actions {
    /// The registry over the full fixed command set, in its fixed order.
    fn default() -> (r: Self)
        ensures
            r.names@ == command_order(),
    {
        let mut names: Vec<Command> = Vec::new();
        names.push(Command::Open);
        names.push(Command::Save);
        names.push(Command::SaveAs);
        names.push(Command::OpenExternal);
        names.push(Command::Preferences);
        names.push(Command::About);
        names.push(Command::Quit);
        proof {
            assert(names@ =~= command_order());
        }
        Actions { names }
    }
}

/// The handler attached to each command.
fn handler_of(c: Command) -> (r: Handler)
    ensures
        r == handler_for(c),
{
    match c {
        Command::Open => Handler::OpenFile,
        Command::Save => Handler::SaveFile,
        Command::SaveAs => Handler::SaveFileAs,
        Command::OpenExternal => Handler::OpenInExternalApp,
        Command::Preferences => Handler::ShowPreferences,
        Command::About => Handler::ShowAboutDialog,
        Command::Quit => Handler::CloseWindow,
    }
}

impl Actions {
    /// Wires every command of the registry: resolves its accelerator
    /// through the keybinding table and attaches its handler, yielding the
    /// bindings the host shell registers.
    pub fn add(&self, keys: &Keys) -> (r: Vec<CommandBinding>)
        ensures
            bindings_match(self.names@, *keys, r@),
    {
        let mut out: Vec<CommandBinding> = Vec::new();
        let mut i: usize = 0;
        while i < self.names.len()
            invariant
                i <= self.names@.len(),
                out@.len() == i,
                forall|j: int|
                    0 <= j < i ==> {
                        &&& (#[trigger] out@[j]).command == self.names@[j]
                        &&& out@[j].accel@ == keys.spec_get(self.names@[j])
                        &&& out@[j].handler == handler_for(self.names@[j])
                    },
            decreases self.names@.len() - i,
        {
            let c = self.names[i];
            let accel = keys.get(c);
            let handler = handler_of(c);
            out.push(CommandBinding { command: c, accel, handler });
            i += 1;
        }
        out
    }
}

/// Different commands never share a handler.
pub proof fn lemma_handlers_distinct(c1: Command, c2: Command)
    requires
        c1 != c2,
    ensures
        handler_for(c1) != handler_for(c2),
{
}

/// The fixed command set has exactly seven commands, no two alike, so a
/// registry run over it yields exactly seven bindings with pairwise
/// distinct commands and handlers.
pub proof fn lemma_command_order_distinct()
    ensures
        command_order().len() == 7,
        forall|i: int, j: int|
            0 <= i < j < command_order().len() ==> command_order()[i] != command_order()[j],
{
}

/// With a table whose entries are all nonempty — as every parsed or empty
/// table is — no binding of a registry run carries an empty accelerator.
pub proof fn lemma_bindings_nonempty(names: Seq<Command>, k: Keys, r: Seq<CommandBinding>)
    requires
        k.wf(),
        bindings_match(names, k, r),
    ensures
        forall|i: int| 0 <= i < r.len() ==> (#[trigger] r[i]).accel@.len() > 0,
{
    assert forall|i: int| 0 <= i < r.len() implies (#[trigger] r[i]).accel@.len() > 0 by {
        lemma_get_nonempty(k, names[i]);
    }
}

/// A registry run over the fixed command set and a table whose entries are
/// all nonempty produces exactly seven bindings, each with a nonempty
/// accelerator, no two for the same command and no two sharing a handler.
pub proof fn lemma_registry_total(k: Keys, r: Seq<CommandBinding>)
    requires
        k.wf(),
        bindings_match(command_order(), k, r),
    ensures
        r.len() == 7,
        forall|i: int| 0 <= i < r.len() ==> (#[trigger] r[i]).accel@.len() > 0,
        forall|i: int, j: int|
            0 <= i < j < r.len() ==> (#[trigger] r[i]).command != (#[trigger] r[j]).command,
        forall|i: int, j: int|
            0 <= i < j < r.len() ==> (#[trigger] r[i]).handler != (#[trigger] r[j]).handler,
{
    lemma_command_order_distinct();
    lemma_bindings_nonempty(command_order(), k, r);
    assert forall|i: int, j: int| 0 <= i < j < r.len() implies (#[trigger] r[i]).handler != (
    #[trigger] r[j]).handler by {
        lemma_handlers_distinct(command_order()[i], command_order()[j]);
    }
}

/// Registration is idempotent: two runs over the same names and the same
/// table produce the same bindings — nothing is duplicated and nothing
/// accumulates.
pub proof fn lemma_add_idempotent(
    names: Seq<Command>,
    k: Keys,
    r1: Seq<CommandBinding>,
    r2: Seq<CommandBinding>,
)
    requires
        bindings_match(names, k, r1),
        bindings_match(names, k, r2),
    ensures
        binding_views(r1) == binding_views(r2),
{
    assert(binding_views(r1) =~= binding_views(r2));
}

} // verus!

//! The capabilities that the shell registers with the framework, and their order.
use vstd::prelude::*;

verus! {

/// A capability that the shell registers with the framework at startup.
#[derive(Clone, Copy, Debug, PartialEq, Eq, Structural)]
pub enum Plugin {
    /// Remembers and restores window positions.
    Positioner,
    /// Sends notifications through the operating system.
    Notification,
    /// Runs shell commands.
    Shell,
    /// Reads and writes files.
    Fs,
    /// Opens native file and message dialogs.
    Dialog,
    /// Asks the update service for updates and replaces the installed binary.
    Updater,
}

/// The capabilities in the order in which they are registered.
pub open spec fn plugin_order() -> Seq<Plugin> {
    seq![
        Plugin::Positioner,
        Plugin::Notification,
        Plugin::Shell,
        Plugin::Fs,
        Plugin::Dialog,
        Plugin::Updater,
    ]
}

impl Plugin {
    /// The place of this capability in the registration order, counted from zero.
    pub open spec fn rank(self) -> int {
        match self {
            Plugin::Positioner => 0,
            Plugin::Notification => 1,
            Plugin::Shell => 2,
            Plugin::Fs => 3,
            Plugin::Dialog => 4,
            Plugin::Updater => 5,
        }
    }
}

/// The capabilities to register, in registration order.
pub fn plugins() -> (list: Vec<Plugin>)
    ensures
        list@ == plugin_order(),
{
    let mut list: Vec<Plugin> = Vec::new();
    list.push(Plugin::Positioner);
    list.push(Plugin::Notification);
    list.push(Plugin::Shell);
    list.push(Plugin::Fs);
    list.push(Plugin::Dialog);
    list.push(Plugin::Updater);
    list
}

/// Every capability stands in the registration order exactly once: at the
/// place that its rank gives, and at no other.
pub proof fn lemma_each_plugin_registered_once(plugin: Plugin)
    ensures
        plugin_order().len() == 6,
        0 <= plugin.rank() < plugin_order().len(),
        plugin_order()[plugin.rank()] == plugin,
        forall|i: int|
            0 <= i < plugin_order().len() && plugin_order()[i] == plugin ==> i == plugin.rank(),
{
}

} // verus!

//! What the shell does between process entry and the event loop.
use vstd::prelude::*;
use crate::plugins::{plugin_order, plugins, Plugin};

verus! {

/// One thing that the shell asks of the framework during startup.
#[derive(Clone, Copy, Debug, PartialEq, Eq, Structural)]
pub enum Step {
    /// Register a capability with the application builder.
    Attach(Plugin),
    /// Install the setup hook, which the framework calls once before the
    /// event loop starts.
    RegisterSetup,
    /// Build the application and enter the event loop. Blocks until the
    /// application is told to exit.
    Launch,
}

/// The startup from first to last step: every capability in registration
/// order, then the setup hook, then the launch.
pub open spec fn startup_sequence() -> Seq<Step> {
    plugin_order().map_values(|plugin: Plugin| Step::Attach(plugin)) + seq![
        Step::RegisterSetup,
        Step::Launch,
    ]
}

/// The steps of the startup, in the order in which they are to be performed.
pub fn startup_plan() -> (plan: Vec<Step>)
    ensures
        plan@ == startup_sequence(),
{
    let order = plugins();
    let mut plan: Vec<Step> = Vec::new();
    let mut i: usize = 0;
    while i < order.len()
        invariant
            i <= order.len(),
            order@ == plugin_order(),
            plan@ == order@.take(i as int).map_values(|plugin: Plugin| Step::Attach(plugin)),
        decreases order.len() - i,
    {
        plan.push(Step::Attach(order[i]));
        i += 1;
    }
    plan.push(Step::RegisterSetup);
    plan.push(Step::Launch);
    plan
}

/// Why the setup hook gave up.
#[derive(Clone, Copy, Debug, PartialEq, Eq)]
pub struct SetupError {}

/// The setup hook: called by the framework once, after the capabilities are
/// registered and before the event loop starts. It has nothing to do and
/// always succeeds.
pub fn setup() -> (outcome: Result<(), SetupError>)
    ensures
        outcome is Ok,
{
    Ok(())
}

/// How the launch step ended.
#[derive(Clone, Copy, Debug, PartialEq, Eq, Structural)]
pub enum Launch {
    /// The event loop ran and the application was told to exit.
    Exited,
    /// The application could not be built from its configuration, so the
    /// event loop never started.
    Failed,
}

/// What the process does once the launch step has returned.
#[derive(Clone, Copy, Debug, PartialEq, Eq, Structural)]
pub enum Exit {
    /// Leave the entry point in the ordinary way.
    Return,
    /// Abort the process: there is no degraded mode and no retry.
    Abort,
}

/// The failure policy of the entry point: a failed launch is fatal.
pub open spec fn exit_after(launch: Launch) -> Exit {
    match launch {
        Launch::Exited => Exit::Return,
        Launch::Failed => Exit::Abort,
    }
}

/// Decides how the process ends, given how the launch step ended.
pub fn conclude(launch: Launch) -> (exit: Exit)
    ensures
        exit == exit_after(launch),
{
    match launch {
        Launch::Exited => Exit::Return,
        Launch::Failed => Exit::Abort,
    }
}

/// The startup has eight steps: six that attach a capability, then the one
/// that installs the setup hook, then the launch. So the hook is installed
/// exactly once, after every capability and before the event loop is entered,
/// and the launch is the last step.
pub proof fn lemma_startup_shape()
    ensures
        startup_sequence().len() == 8,
        forall|i: int| 0 <= i < 6 ==> startup_sequence()[i] == Step::Attach(plugin_order()[i]),
        startup_sequence()[6] == Step::RegisterSetup,
        startup_sequence()[7] == Step::Launch,
        forall|i: int|
            0 <= i < startup_sequence().len() && startup_sequence()[i] == Step::RegisterSetup
                ==> i == 6,
        forall|i: int|
            0 <= i < startup_sequence().len() && startup_sequence()[i] == Step::Launch ==> i == 7,
{
}

/// The startup registers every capability exactly once, in registration
/// order, before anything else: the step at a capability's rank attaches it,
/// and no other step does.
pub proof fn lemma_startup_attaches_each_plugin_once(plugin: Plugin)
    ensures
        0 <= plugin.rank() < startup_sequence().len(),
        startup_sequence()[plugin.rank()] == Step::Attach(plugin),
        forall|i: int|
            0 <= i < startup_sequence().len() && startup_sequence()[i] == Step::Attach(plugin)
                ==> i == plugin.rank(),
{
    lemma_startup_shape();
}

} // verus!

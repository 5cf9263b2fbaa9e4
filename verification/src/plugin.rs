//! Plugin system.
//!
//! Provides a trait-based plugin architecture with lifecycle hooks for VM and
//! container events.  Plugins are registered with a [`PluginManager`] which
//! dispatches events to every loaded plugin in registration order, and
//! returns the errors of the plugins that failed, in that order.
//!
//! # Built-in plugins
//!
//! * [`LoggingPlugin`] -- accepts every lifecycle event.
use vstd::prelude::*;
use crate::hypervisor::VmConfig;
use crate::text::{clone_string, concat, owned};

verus! {

// ---------------------------------------------------------------------------
// PluginError
// ---------------------------------------------------------------------------

/// Error type returned by plugin hooks.
#[derive(Debug, Clone)]
pub struct PluginError {
    /// Name of the plugin that produced the error.
    pub plugin: String,
    /// Human-readable description of what went wrong.
    pub message: String,
}

impl PluginError {
    /// The text this error displays: `plugin '<plugin>': <message>`.
    pub fn describe(&self) -> (s: String)
        ensures
            s@ == "plugin '"@ + self.plugin@ + "': "@ + self.message@,
    {
        let a = concat("plugin '", self.plugin.as_str());
        let b = concat(a.as_str(), "': ");
        concat(b.as_str(), self.message.as_str())
    }
}

// ---------------------------------------------------------------------------
// Plugin trait
// ---------------------------------------------------------------------------

/// A plugin that can react to VM and container lifecycle events.
///
/// A plugin may state what its hooks answer: it sets `states_outcomes`
/// and gives each hook's answer by the matching outcome function, and each
/// hook then answers exactly that. A plugin that states nothing (the
/// default) is promised nothing about.
pub trait Plugin {
    /// Human-readable name of the plugin (e.g. "logging").
    fn name(&self) -> &str;

    /// SemVer version string of the plugin.
    fn version(&self) -> &str;

    /// Whether this plugin's hooks answer as its outcome functions say.
    open spec fn states_outcomes(&self) -> bool {
        false
    }

    /// What this plugin answers when a VM is created with `config`.
    open spec fn vm_create_outcome(&self, config: VmConfig) -> Result<(), PluginError> {
        Ok(())
    }

    /// Called just before a VM is created.
    fn on_vm_create(&self, config: &VmConfig) -> (r: Result<(), PluginError>)
        ensures
            self.states_outcomes() ==> r == self.vm_create_outcome(*config),
    ;

    /// What this plugin answers when VM `id` has started.
    open spec fn vm_start_outcome(&self, id: Seq<char>) -> Result<(), PluginError> {
        Ok(())
    }

    /// Called after a VM has been started.
    fn on_vm_start(&self, id: &str) -> (r: Result<(), PluginError>)
        ensures
            self.states_outcomes() ==> r == self.vm_start_outcome(id@),
    ;

    /// What this plugin answers when VM `id` has stopped.
    open spec fn vm_stop_outcome(&self, id: Seq<char>) -> Result<(), PluginError> {
        Ok(())
    }

    /// Called after a VM has been stopped.
    fn on_vm_stop(&self, id: &str) -> (r: Result<(), PluginError>)
        ensures
            self.states_outcomes() ==> r == self.vm_stop_outcome(id@),
    ;

    /// What this plugin answers when VM `id` has been deleted.
    open spec fn vm_delete_outcome(&self, id: Seq<char>) -> Result<(), PluginError> {
        Ok(())
    }

    /// Called after a VM has been deleted.
    fn on_vm_delete(&self, id: &str) -> (r: Result<(), PluginError>)
        ensures
            self.states_outcomes() ==> r == self.vm_delete_outcome(id@),
    ;

    /// What this plugin answers when container `id` has started.
    open spec fn container_start_outcome(&self, id: Seq<char>) -> Result<(), PluginError> {
        Ok(())
    }

    /// Called after a container has been started.
    fn on_container_start(&self, id: &str) -> (r: Result<(), PluginError>)
        ensures
            self.states_outcomes() ==> r == self.container_start_outcome(id@),
    ;

    /// What this plugin answers when container `id` has stopped.
    open spec fn container_stop_outcome(&self, id: Seq<char>) -> Result<(), PluginError> {
        Ok(())
    }

    /// Called after a container has been stopped.
    fn on_container_stop(&self, id: &str) -> (r: Result<(), PluginError>)
        ensures
            self.states_outcomes() ==> r == self.container_stop_outcome(id@),
    ;
}

// ---------------------------------------------------------------------------
// Collecting hook results
// ---------------------------------------------------------------------------

/// The errors among `rs`, in order.
pub open spec fn errors_of(rs: Seq<Result<(), PluginError>>) -> Seq<PluginError>
    decreases rs.len(),
{
    if rs.len() == 0 {
        Seq::empty()
    } else {
        match rs[0] {
            Ok(()) => errors_of(rs.drop_first()),
            Err(e) => seq![e] + errors_of(rs.drop_first()),
        }
    }
}

/// The errors among the hook results `results`, in order.
pub fn collect_plugin_errors(results: Vec<Result<(), PluginError>>) -> (errs: Vec<PluginError>)
    ensures
        errs@ == errors_of(results@),
{
    let ghost all = results@;
    let mut rest = results;
    let mut errs: Vec<PluginError> = Vec::new();
    while rest.len() > 0
        invariant
            errs@ + errors_of(rest@) == errors_of(all),
        decreases rest.len(),
    {
        let ghost before = rest@;
        let r = rest.remove(0);
        proof {
            assert(before.drop_first() =~= rest@);
        }
        match r {
            Ok(()) => {},
            Err(e) => {
                let ghost prev = errs@;
                errs.push(e);
                proof {
                    assert(errs@ + errors_of(rest@) =~= prev + (seq![e] + errors_of(rest@)));
                }
            },
        }
    }
    proof {
        assert(errs@ + errors_of(rest@) =~= errs@);
    }
    errs
}

// ---------------------------------------------------------------------------
// PluginManager
// ---------------------------------------------------------------------------

/// A lifecycle event, with what the hooks receive.
pub enum Hook<'a> {
    VmCreate(&'a VmConfig),
    VmStart(&'a str),
    VmStop(&'a str),
    VmDelete(&'a str),
    ContainerStart(&'a str),
    ContainerStop(&'a str),
}

/// Moves the plugin held in `slot` to the end of `v` (`Vec::extend` with
/// the option's one item). The plugin travels inside the option because
/// Verus keeps a trait object's identity across a call only behind a
/// reference; `slot` is left empty.
#[verifier::external_body]
fn push_plugin(v: &mut Vec<Box<dyn Plugin>>, slot: &mut Option<Box<dyn Plugin>>)
    requires
        *old(slot) is Some,
    ensures
        final(v)@.len() == old(v)@.len() + 1,
        forall|i: int| 0 <= i < old(v)@.len() ==> final(v)@[i] == old(v)@[i],
        final(v)@[old(v)@.len() as int] == (*old(slot))->0,
        *final(slot) is None,
{
    v.extend(slot.take());
}

/// What `plugin` answers to `hook`: the outcome of the hook that handles
/// it, for the hook's argument.
pub open spec fn hook_outcome<P: Plugin + ?Sized>(plugin: &P, hook: Hook) -> Result<(), PluginError> {
    match hook {
        Hook::VmCreate(config) => plugin.vm_create_outcome(*config),
        Hook::VmStart(id) => plugin.vm_start_outcome(id@),
        Hook::VmStop(id) => plugin.vm_stop_outcome(id@),
        Hook::VmDelete(id) => plugin.vm_delete_outcome(id@),
        Hook::ContainerStart(id) => plugin.container_start_outcome(id@),
        Hook::ContainerStop(id) => plugin.container_stop_outcome(id@),
    }
}

/// Whether `plugin` states what its hooks answer.
pub open spec fn states<P: Plugin + ?Sized>(plugin: &P) -> bool {
    plugin.states_outcomes()
}

/// Calls the hook of `plugin` that handles `hook`.
fn call_hook(plugin: &Box<dyn Plugin>, hook: &Hook) -> (r: Result<(), PluginError>)
    ensures
        states(&**plugin) ==> r == hook_outcome(&**plugin, *hook),
{
    match hook {
        Hook::VmCreate(config) => plugin.on_vm_create(config),
        Hook::VmStart(id) => plugin.on_vm_start(id),
        Hook::VmStop(id) => plugin.on_vm_stop(id),
        Hook::VmDelete(id) => plugin.on_vm_delete(id),
        Hook::ContainerStart(id) => plugin.on_container_start(id),
        Hook::ContainerStop(id) => plugin.on_container_stop(id),
    }
}

/// What a dispatch returns: for some outcome of each of the `n` hook calls,
/// in registration order, the errors among them.
pub open spec fn dispatch_result(n: nat, errs: Seq<PluginError>) -> bool {
    exists|rs: Seq<Result<(), PluginError>>| rs.len() == n && errs == errors_of(rs)
}

/// Manages a collection of [`Plugin`] instances and dispatches lifecycle
/// events to each one in registration order.
///
/// If a plugin hook returns an error the manager continues dispatching to
/// the remaining plugins.  The collected errors are returned to the caller
/// so it can decide how to handle them (e.g. abort the operation or carry
/// on).
pub struct PluginManager {
    plugins: Vec<Box<dyn Plugin>>,
}

impl PluginManager {
    /// How many plugins are registered.
    pub closed spec fn count(&self) -> nat {
        self.plugins@.len()
    }

    /// What the plugin registered `i`-th answers to `hook`.
    pub closed spec fn answer(&self, i: int, hook: Hook) -> Result<(), PluginError> {
        hook_outcome(&*self.plugins@[i], hook)
    }

    /// Whether the plugin registered `i`-th states what its hooks answer.
    pub closed spec fn states_at(&self, i: int) -> bool {
        states(&*self.plugins@[i])
    }

    /// `rs` can be what the registered plugins answered to `hook`, in
    /// registration order: one answer per plugin, and for each plugin that
    /// states its answers, exactly that answer.
    pub open spec fn answers(&self, hook: Hook, rs: Seq<Result<(), PluginError>>) -> bool {
        &&& rs.len() == self.count()
        &&& forall|k: int| 0 <= k < self.count() && self.states_at(k) ==> #[trigger] rs[k] == self.answer(k, hook)
    }

    /// What a dispatch of `hook` returns: the errors, in registration
    /// order, among answers that the registered plugins can have given.
    pub open spec fn dispatched(&self, hook: Hook, errs: Seq<PluginError>) -> bool {
        exists|rs: Seq<Result<(), PluginError>>| self.answers(hook, rs) && errs == errors_of(rs)
    }

    /// Create an empty plugin manager with no plugins registered.
    pub fn new() -> (m: PluginManager)
        ensures
            m.count() == 0,
    {
        PluginManager { plugins: Vec::new() }
    }

    /// Register a plugin.  Plugins are called in registration order.
    pub fn register(&mut self, plugin: Box<dyn Plugin>)
        ensures
            final(self).count() == old(self).count() + 1,
            forall|i: int, hook: Hook|
                0 <= i < old(self).count() ==> #[trigger] final(self).answer(i, hook) == old(self).answer(i, hook),
            forall|i: int| 0 <= i < old(self).count() ==> #[trigger] final(self).states_at(i) == old(self).states_at(i),
            final(self).states_at(old(self).count() as int) == states(&*plugin),
            forall|hook: Hook| #[trigger] final(self).answer(old(self).count() as int, hook) == hook_outcome(&*plugin, hook),
    {
        let mut slot = Some(plugin);
        push_plugin(&mut self.plugins, &mut slot);
    }

    /// Return a read-only slice of the currently registered plugins.
    pub fn plugins(&self) -> (p: &[Box<dyn Plugin>])
        ensures
            p@.len() == self.count(),
            forall|i: int, hook: Hook| 0 <= i < self.count() ==> #[trigger] hook_outcome(&*p@[i], hook) == self.answer(i, hook),
            forall|i: int| 0 <= i < self.count() ==> #[trigger] states(&*p@[i]) == self.states_at(i),
    {
        self.plugins.as_slice()
    }

    /// Return how many plugins are registered.
    pub fn plugin_count(&self) -> (n: usize)
        ensures
            n == self.count(),
    {
        self.plugins.len()
    }

    /// Calls the hook for `hook` on every registered plugin, in
    /// registration order, and returns the errors.
    fn dispatch(&self, hook: &Hook) -> (errs: Vec<PluginError>)
        ensures
            self.dispatched(*hook, errs@),
            dispatch_result(self.count(), errs@),
    {
        let mut results: Vec<Result<(), PluginError>> = Vec::new();
        let mut i: usize = 0;
        while i < self.plugins.len()
            invariant
                i <= self.plugins.len(),
                results@.len() == i,
                forall|k: int| 0 <= k < i && self.states_at(k) ==> #[trigger] results@[k] == self.answer(k, *hook),
            decreases self.plugins.len() - i,
        {
            let r = call_hook(&self.plugins[i], hook);
            results.push(r);
            i = i + 1;
        }
        let ghost rs = results@;
        let errs = collect_plugin_errors(results);
        proof {
            assert(self.answers(*hook, rs) && errs@ == errors_of(rs));
        }
        errs
    }

    /// Fire the `on_vm_create` hook on every registered plugin, in registration
    /// order, and return the errors they answered, in that order.
    pub fn fire_vm_create(&self, config: &VmConfig) -> (errs: Vec<PluginError>)
        ensures
            self.dispatched(Hook::VmCreate(config), errs@),
            dispatch_result(self.count(), errs@),
    {
        self.dispatch(&Hook::VmCreate(config))
    }

    /// Fire the `on_vm_start` hook on every registered plugin, in registration
    /// order, and return the errors they answered, in that order.
    pub fn fire_vm_start(&self, id: &str) -> (errs: Vec<PluginError>)
        ensures
            self.dispatched(Hook::VmStart(id), errs@),
            dispatch_result(self.count(), errs@),
    {
        self.dispatch(&Hook::VmStart(id))
    }

    /// Fire the `on_vm_stop` hook on every registered plugin, in registration
    /// order, and return the errors they answered, in that order.
    pub fn fire_vm_stop(&self, id: &str) -> (errs: Vec<PluginError>)
        ensures
            self.dispatched(Hook::VmStop(id), errs@),
            dispatch_result(self.count(), errs@),
    {
        self.dispatch(&Hook::VmStop(id))
    }

    /// Fire the `on_vm_delete` hook on every registered plugin, in registration
    /// order, and return the errors they answered, in that order.
    pub fn fire_vm_delete(&self, id: &str) -> (errs: Vec<PluginError>)
        ensures
            self.dispatched(Hook::VmDelete(id), errs@),
            dispatch_result(self.count(), errs@),
    {
        self.dispatch(&Hook::VmDelete(id))
    }

    /// Fire the `on_container_start` hook on every registered plugin, in registration
    /// order, and return the errors they answered, in that order.
    pub fn fire_container_start(&self, id: &str) -> (errs: Vec<PluginError>)
        ensures
            self.dispatched(Hook::ContainerStart(id), errs@),
            dispatch_result(self.count(), errs@),
    {
        self.dispatch(&Hook::ContainerStart(id))
    }

    /// Fire the `on_container_stop` hook on every registered plugin, in registration
    /// order, and return the errors they answered, in that order.
    pub fn fire_container_stop(&self, id: &str) -> (errs: Vec<PluginError>)
        ensures
            self.dispatched(Hook::ContainerStop(id), errs@),
            dispatch_result(self.count(), errs@),
    {
        self.dispatch(&Hook::ContainerStop(id))
    }
}

impl Default for PluginManager {
    fn default() -> (m: PluginManager)
        ensures
            m.count() == 0,
    {
        PluginManager::new()
    }
}

/// When every registered plugin states what its hooks answer, a dispatch
/// returns exactly the errors among their answers, in registration order.
pub proof fn law_stated_dispatch(m: &PluginManager, hook: Hook, errs: Seq<PluginError>)
    requires
        forall|k: int| 0 <= k < m.count() ==> #[trigger] m.states_at(k),
        m.dispatched(hook, errs),
    ensures
        errs == errors_of(Seq::new(m.count(), |k: int| m.answer(k, hook))),
{
    let rs = choose|rs: Seq<Result<(), PluginError>>| m.answers(hook, rs) && errs == errors_of(rs);
    assert forall|k: int| 0 <= k < rs.len() implies rs[k] == Seq::new(m.count(), |j: int| m.answer(j, hook))[k] by {
        assert(m.states_at(k));
    }
    assert(rs =~= Seq::new(m.count(), |k: int| m.answer(k, hook)));
}

/// A dispatch never returns more errors than there are plugins.
pub proof fn law_errors_at_most_plugins(rs: Seq<Result<(), PluginError>>)
    ensures
        errors_of(rs).len() <= rs.len(),
    decreases rs.len(),
{
    if rs.len() > 0 {
        law_errors_at_most_plugins(rs.drop_first());
    }
}

/// With no plugins registered, a dispatch returns no errors.
pub proof fn law_no_plugins_no_errors(errs: Seq<PluginError>)
    requires
        dispatch_result(0, errs),
    ensures
        errs.len() == 0,
{
    let rs = choose|rs: Seq<Result<(), PluginError>>| rs.len() == 0 && errs == errors_of(rs);
}

/// When every hook succeeds, the dispatch returns no errors.
pub proof fn law_all_ok_no_errors(rs: Seq<Result<(), PluginError>>)
    requires
        forall|i: int| 0 <= i < rs.len() ==> rs[i] is Ok,
    ensures
        errors_of(rs).len() == 0,
    decreases rs.len(),
{
    if rs.len() > 0 {
        assert forall|i: int| 0 <= i < rs.drop_first().len() implies rs.drop_first()[i] is Ok by {
            assert(rs.drop_first()[i] == rs[i + 1]);
        }
        law_all_ok_no_errors(rs.drop_first());
    }
}

// ---------------------------------------------------------------------------
// Built-in: LoggingPlugin
// ---------------------------------------------------------------------------

/// A simple built-in plugin that accepts every lifecycle event.
///
/// It serves as a reference implementation for the [`Plugin`] trait.
pub struct LoggingPlugin;

impl Plugin for LoggingPlugin {
    open spec fn states_outcomes(&self) -> bool {
        true
    }

    fn name(&self) -> (s: &str)
        ensures
            s@ == "logging"@,
    {
        "logging"
    }

    fn version(&self) -> (s: &str)
        ensures
            s@ == "0.1.0"@,
    {
        "0.1.0"
    }

    open spec fn vm_create_outcome(&self, config: VmConfig) -> Result<(), PluginError> {
        Ok(())
    }

    fn on_vm_create(&self, config: &VmConfig) -> (r: Result<(), PluginError>) {
        Ok(())
    }

    open spec fn vm_start_outcome(&self, id: Seq<char>) -> Result<(), PluginError> {
        Ok(())
    }

    fn on_vm_start(&self, id: &str) -> (r: Result<(), PluginError>) {
        Ok(())
    }

    open spec fn vm_stop_outcome(&self, id: Seq<char>) -> Result<(), PluginError> {
        Ok(())
    }

    fn on_vm_stop(&self, id: &str) -> (r: Result<(), PluginError>) {
        Ok(())
    }

    open spec fn vm_delete_outcome(&self, id: Seq<char>) -> Result<(), PluginError> {
        Ok(())
    }

    fn on_vm_delete(&self, id: &str) -> (r: Result<(), PluginError>) {
        Ok(())
    }

    open spec fn container_start_outcome(&self, id: Seq<char>) -> Result<(), PluginError> {
        Ok(())
    }

    fn on_container_start(&self, id: &str) -> (r: Result<(), PluginError>) {
        Ok(())
    }

    open spec fn container_stop_outcome(&self, id: Seq<char>) -> Result<(), PluginError> {
        Ok(())
    }

    fn on_container_stop(&self, id: &str) -> (r: Result<(), PluginError>) {
        Ok(())
    }
}

} // verus!

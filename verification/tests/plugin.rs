use cratebay_core::hypervisor::VmConfig;
use cratebay_core::plugin::{LoggingPlugin, Plugin, PluginError, PluginManager};
use std::sync::{Arc, Mutex};
// -- A test-only plugin that always succeeds -----------------------------

struct NoOpPlugin;

impl Plugin for NoOpPlugin {
    fn name(&self) -> &str {
        "noop"
    }

    fn version(&self) -> &str {
        "1.0.0"
    }

    fn on_vm_create(&self, _config: &VmConfig) -> Result<(), PluginError> {
        Ok(())
    }

    fn on_vm_start(&self, _id: &str) -> Result<(), PluginError> {
        Ok(())
    }

    fn on_vm_stop(&self, _id: &str) -> Result<(), PluginError> {
        Ok(())
    }

    fn on_vm_delete(&self, _id: &str) -> Result<(), PluginError> {
        Ok(())
    }

    fn on_container_start(&self, _id: &str) -> Result<(), PluginError> {
        Ok(())
    }

    fn on_container_stop(&self, _id: &str) -> Result<(), PluginError> {
        Ok(())
    }
}

// -- A test-only plugin that always fails --------------------------------

struct FailingPlugin {
    label: String,
}

impl FailingPlugin {
    fn new(label: &str) -> Self {
        Self {
            label: label.to_string(),
        }
    }
}

impl Plugin for FailingPlugin {
    fn name(&self) -> &str {
        &self.label
    }

    fn version(&self) -> &str {
        "0.0.1"
    }

    fn on_vm_create(&self, _config: &VmConfig) -> Result<(), PluginError> {
        Err(PluginError {
            plugin: self.label.clone(),
            message: "create rejected".into(),
        })
    }

    fn on_vm_start(&self, _id: &str) -> Result<(), PluginError> {
        Err(PluginError {
            plugin: self.label.clone(),
            message: "start rejected".into(),
        })
    }

    fn on_vm_stop(&self, _id: &str) -> Result<(), PluginError> {
        Err(PluginError {
            plugin: self.label.clone(),
            message: "stop rejected".into(),
        })
    }

    fn on_vm_delete(&self, _id: &str) -> Result<(), PluginError> {
        Err(PluginError {
            plugin: self.label.clone(),
            message: "delete rejected".into(),
        })
    }

    fn on_container_start(&self, _id: &str) -> Result<(), PluginError> {
        Err(PluginError {
            plugin: self.label.clone(),
            message: "container start rejected".into(),
        })
    }

    fn on_container_stop(&self, _id: &str) -> Result<(), PluginError> {
        Err(PluginError {
            plugin: self.label.clone(),
            message: "container stop rejected".into(),
        })
    }
}

// -- A test-only plugin that tracks calls via shared state ---------------


#[derive(Default)]
struct CallLog {
    calls: Vec<String>,
}

struct TrackingPlugin {
    log: Arc<Mutex<CallLog>>,
}

impl TrackingPlugin {
    fn new(log: Arc<Mutex<CallLog>>) -> Self {
        Self { log }
    }
}

impl Plugin for TrackingPlugin {
    fn name(&self) -> &str {
        "tracking"
    }

    fn version(&self) -> &str {
        "0.1.0"
    }

    fn on_vm_create(&self, config: &VmConfig) -> Result<(), PluginError> {
        self.log
            .lock()
            .unwrap()
            .calls
            .push(format!("vm_create:{}", config.name));
        Ok(())
    }

    fn on_vm_start(&self, id: &str) -> Result<(), PluginError> {
        self.log
            .lock()
            .unwrap()
            .calls
            .push(format!("vm_start:{}", id));
        Ok(())
    }

    fn on_vm_stop(&self, id: &str) -> Result<(), PluginError> {
        self.log
            .lock()
            .unwrap()
            .calls
            .push(format!("vm_stop:{}", id));
        Ok(())
    }

    fn on_vm_delete(&self, id: &str) -> Result<(), PluginError> {
        self.log
            .lock()
            .unwrap()
            .calls
            .push(format!("vm_delete:{}", id));
        Ok(())
    }

    fn on_container_start(&self, id: &str) -> Result<(), PluginError> {
        self.log
            .lock()
            .unwrap()
            .calls
            .push(format!("container_start:{}", id));
        Ok(())
    }

    fn on_container_stop(&self, id: &str) -> Result<(), PluginError> {
        self.log
            .lock()
            .unwrap()
            .calls
            .push(format!("container_stop:{}", id));
        Ok(())
    }
}

// =======================================================================
// PluginManager tests
// =======================================================================

#[test]
fn new_manager_has_no_plugins() {
    let mgr = PluginManager::new();
    assert_eq!(mgr.plugin_count(), 0);
    assert!(mgr.plugins().is_empty());
}

#[test]
fn default_manager_has_no_plugins() {
    let mgr = PluginManager::default();
    assert_eq!(mgr.plugin_count(), 0);
}

#[test]
fn register_adds_plugin() {
    let mut mgr = PluginManager::new();
    mgr.register(Box::new(NoOpPlugin));
    assert_eq!(mgr.plugin_count(), 1);
    assert_eq!(mgr.plugins()[0].name(), "noop");
    assert_eq!(mgr.plugins()[0].version(), "1.0.0");
}

#[test]
fn register_multiple_plugins_preserves_order() {
    let mut mgr = PluginManager::new();
    mgr.register(Box::new(NoOpPlugin));
    mgr.register(Box::new(LoggingPlugin));
    assert_eq!(mgr.plugin_count(), 2);
    assert_eq!(mgr.plugins()[0].name(), "noop");
    assert_eq!(mgr.plugins()[1].name(), "logging");
}

// -- fire_vm_create -----------------------------------------------------

#[test]
fn fire_vm_create_no_plugins_returns_empty() {
    let mgr = PluginManager::new();
    let errors = mgr.fire_vm_create(&VmConfig::default());
    assert!(errors.is_empty());
}

#[test]
fn fire_vm_create_success() {
    let mut mgr = PluginManager::new();
    mgr.register(Box::new(NoOpPlugin));
    let errors = mgr.fire_vm_create(&VmConfig::default());
    assert!(errors.is_empty());
}

#[test]
fn fire_vm_create_collects_errors() {
    let mut mgr = PluginManager::new();
    mgr.register(Box::new(FailingPlugin::new("bad-1")));
    mgr.register(Box::new(FailingPlugin::new("bad-2")));
    let errors = mgr.fire_vm_create(&VmConfig::default());
    assert_eq!(errors.len(), 2);
    assert_eq!(errors[0].plugin, "bad-1");
    assert_eq!(errors[1].plugin, "bad-2");
}

#[test]
fn fire_vm_create_mixed_success_and_failure() {
    let mut mgr = PluginManager::new();
    mgr.register(Box::new(NoOpPlugin));
    mgr.register(Box::new(FailingPlugin::new("bad")));
    mgr.register(Box::new(NoOpPlugin));
    let errors = mgr.fire_vm_create(&VmConfig::default());
    assert_eq!(errors.len(), 1);
    assert_eq!(errors[0].plugin, "bad");
}

// -- fire_vm_start ------------------------------------------------------

#[test]
fn fire_vm_start_success() {
    let mut mgr = PluginManager::new();
    mgr.register(Box::new(NoOpPlugin));
    let errors = mgr.fire_vm_start("vm-1");
    assert!(errors.is_empty());
}

#[test]
fn fire_vm_start_collects_errors() {
    let mut mgr = PluginManager::new();
    mgr.register(Box::new(FailingPlugin::new("fail")));
    let errors = mgr.fire_vm_start("vm-1");
    assert_eq!(errors.len(), 1);
    assert!(errors[0].message.contains("start rejected"));
}

// -- fire_vm_stop -------------------------------------------------------

#[test]
fn fire_vm_stop_success() {
    let mut mgr = PluginManager::new();
    mgr.register(Box::new(NoOpPlugin));
    let errors = mgr.fire_vm_stop("vm-1");
    assert!(errors.is_empty());
}

#[test]
fn fire_vm_stop_collects_errors() {
    let mut mgr = PluginManager::new();
    mgr.register(Box::new(FailingPlugin::new("fail")));
    let errors = mgr.fire_vm_stop("vm-1");
    assert_eq!(errors.len(), 1);
    assert!(errors[0].message.contains("stop rejected"));
}

// -- fire_vm_delete -----------------------------------------------------

#[test]
fn fire_vm_delete_success() {
    let mut mgr = PluginManager::new();
    mgr.register(Box::new(NoOpPlugin));
    let errors = mgr.fire_vm_delete("vm-1");
    assert!(errors.is_empty());
}

#[test]
fn fire_vm_delete_collects_errors() {
    let mut mgr = PluginManager::new();
    mgr.register(Box::new(FailingPlugin::new("fail")));
    let errors = mgr.fire_vm_delete("vm-1");
    assert_eq!(errors.len(), 1);
    assert!(errors[0].message.contains("delete rejected"));
}

// -- fire_container_start -----------------------------------------------

#[test]
fn fire_container_start_success() {
    let mut mgr = PluginManager::new();
    mgr.register(Box::new(NoOpPlugin));
    let errors = mgr.fire_container_start("ctr-1");
    assert!(errors.is_empty());
}

#[test]
fn fire_container_start_collects_errors() {
    let mut mgr = PluginManager::new();
    mgr.register(Box::new(FailingPlugin::new("fail")));
    let errors = mgr.fire_container_start("ctr-1");
    assert_eq!(errors.len(), 1);
    assert!(errors[0].message.contains("container start rejected"));
}

// -- fire_container_stop ------------------------------------------------

#[test]
fn fire_container_stop_success() {
    let mut mgr = PluginManager::new();
    mgr.register(Box::new(NoOpPlugin));
    let errors = mgr.fire_container_stop("ctr-1");
    assert!(errors.is_empty());
}

#[test]
fn fire_container_stop_collects_errors() {
    let mut mgr = PluginManager::new();
    mgr.register(Box::new(FailingPlugin::new("fail")));
    let errors = mgr.fire_container_stop("ctr-1");
    assert_eq!(errors.len(), 1);
    assert!(errors[0].message.contains("container stop rejected"));
}

// -- Tracking plugin (verifies hooks actually receive correct args) ------

#[test]
fn tracking_plugin_receives_correct_vm_create_args() {
    let log = Arc::new(Mutex::new(CallLog::default()));
    let mut mgr = PluginManager::new();
    mgr.register(Box::new(TrackingPlugin::new(log.clone())));

    let config = VmConfig {
        name: "test-vm".into(),
        ..VmConfig::default()
    };
    let errors = mgr.fire_vm_create(&config);
    assert!(errors.is_empty());

    let calls = &log.lock().unwrap().calls;
    assert_eq!(calls.len(), 1);
    assert_eq!(calls[0], "vm_create:test-vm");
}

#[test]
fn tracking_plugin_receives_correct_vm_lifecycle_args() {
    let log = Arc::new(Mutex::new(CallLog::default()));
    let mut mgr = PluginManager::new();
    mgr.register(Box::new(TrackingPlugin::new(log.clone())));

    mgr.fire_vm_start("vm-42");
    mgr.fire_vm_stop("vm-42");
    mgr.fire_vm_delete("vm-42");

    let calls = &log.lock().unwrap().calls;
    assert_eq!(calls.len(), 3);
    assert_eq!(calls[0], "vm_start:vm-42");
    assert_eq!(calls[1], "vm_stop:vm-42");
    assert_eq!(calls[2], "vm_delete:vm-42");
}

#[test]
fn tracking_plugin_receives_correct_container_args() {
    let log = Arc::new(Mutex::new(CallLog::default()));
    let mut mgr = PluginManager::new();
    mgr.register(Box::new(TrackingPlugin::new(log.clone())));

    mgr.fire_container_start("ctr-7");
    mgr.fire_container_stop("ctr-7");

    let calls = &log.lock().unwrap().calls;
    assert_eq!(calls.len(), 2);
    assert_eq!(calls[0], "container_start:ctr-7");
    assert_eq!(calls[1], "container_stop:ctr-7");
}

#[test]
fn multiple_plugins_all_called_in_order() {
    let log = Arc::new(Mutex::new(CallLog::default()));
    let mut mgr = PluginManager::new();

    // Register two tracking plugins sharing the same log.
    mgr.register(Box::new(TrackingPlugin::new(log.clone())));
    mgr.register(Box::new(TrackingPlugin::new(log.clone())));

    mgr.fire_vm_start("vm-1");

    let calls = &log.lock().unwrap().calls;
    // Both plugins should have been called (2 entries for the same event).
    assert_eq!(calls.len(), 2);
    assert_eq!(calls[0], "vm_start:vm-1");
    assert_eq!(calls[1], "vm_start:vm-1");
}

// -- PluginError --------------------------------------------------------

#[test]
fn plugin_error_display() {
    let err = PluginError {
        plugin: "test".into(),
        message: "something broke".into(),
    };
    assert_eq!(err.describe(), "plugin 'test': something broke");
}

#[test]
fn plugin_error_debug_includes_fields() {
    let err = PluginError {
        plugin: "my-plugin".into(),
        message: "oops".into(),
    };
    let debug = format!("{:?}", err);
    assert!(debug.contains("my-plugin"));
    assert!(debug.contains("oops"));
}

#[test]
fn plugin_error_clone() {
    let err = PluginError {
        plugin: "p".into(),
        message: "m".into(),
    };
    let cloned = err.clone();
    assert_eq!(err.plugin, cloned.plugin);
    assert_eq!(err.message, cloned.message);
}

// -- LoggingPlugin trait impl -------------------------------------------

#[test]
fn logging_plugin_name_and_version() {
    let p = LoggingPlugin;
    assert_eq!(p.name(), "logging");
    assert_eq!(p.version(), "0.1.0");
}

#[test]
fn logging_plugin_hooks_succeed() {
    let p = LoggingPlugin;
    assert!(p.on_vm_create(&VmConfig::default()).is_ok());
    assert!(p.on_vm_start("vm-1").is_ok());
    assert!(p.on_vm_stop("vm-1").is_ok());
    assert!(p.on_vm_delete("vm-1").is_ok());
    assert!(p.on_container_start("ctr-1").is_ok());
    assert!(p.on_container_stop("ctr-1").is_ok());
}

// -- Default trait implementations (NoOpPlugin uses them) ----------------

#[test]
fn default_hooks_return_ok() {
    let p = NoOpPlugin;
    assert!(p.on_vm_create(&VmConfig::default()).is_ok());
    assert!(p.on_vm_start("x").is_ok());
    assert!(p.on_vm_stop("x").is_ok());
    assert!(p.on_vm_delete("x").is_ok());
    assert!(p.on_container_start("x").is_ok());
    assert!(p.on_container_stop("x").is_ok());
}

// -- Error continues dispatching ----------------------------------------

#[test]
fn error_in_first_plugin_does_not_block_second() {
    let log = Arc::new(Mutex::new(CallLog::default()));
    let mut mgr = PluginManager::new();

    mgr.register(Box::new(FailingPlugin::new("fail")));
    mgr.register(Box::new(TrackingPlugin::new(log.clone())));

    let errors = mgr.fire_vm_start("vm-1");
    assert_eq!(errors.len(), 1, "only the failing plugin should error");

    let calls = &log.lock().unwrap().calls;
    assert_eq!(
        calls.len(),
        1,
        "tracking plugin should still have been called"
    );
    assert_eq!(calls[0], "vm_start:vm-1");
}

use std::cell::Cell;
use std::rc::Rc;

use devdash::plugin::{
    check_api_version, dll_extension, extract_plugin_name, find_widget_index, install_widget,
    is_plugin_file, plugin_name, replace_widget_at, temp_file_name, Platform, PluginError,
    PluginManager, PluginMetadata, PLUGIN_API_VERSION,
};
use devdash::rect::{Rect, Size};
use devdash::widget::{Event, EventResult, Widget, WidgetContainer};

/// A stand-in for a plugin-created widget instance, counting against a
/// shared allocation counter as a plugin's own allocator would.
struct PluginStub {
    alive: Rc<Cell<i32>>,
    mounts: Rc<Cell<u32>>,
}

impl PluginStub {
    fn create(alive: Rc<Cell<i32>>) -> Self {
        alive.set(alive.get() + 1);
        PluginStub {
            alive,
            mounts: Rc::new(Cell::new(0)),
        }
    }
}

impl Drop for PluginStub {
    fn drop(&mut self) {
        self.alive.set(self.alive.get() - 1);
    }
}

impl Widget for PluginStub {
    fn on_mount(&mut self) {
        self.mounts.set(self.mounts.get() + 1);
    }

    fn on_update(&mut self, _delta_ms: u64) {}

    fn on_event(&mut self, _event: &Event) -> EventResult {
        EventResult::Ignored
    }

    fn render(&mut self, _area: Rect) {}

    fn render_focused(&mut self, _area: Rect, _focused: bool) {}

    fn preferred_size(&self) -> Option<Size> {
        None
    }

    fn needs_update(&self) -> bool {
        false
    }

    fn on_unmount(&mut self) {}
}

#[test]
fn test_version_mismatch_is_rejected_before_create() {
    let meta = PluginMetadata {
        api_version: 2,
        name: b"demo".to_vec(),
    };
    let alive = Rc::new(Cell::new(0));
    let mut widgets: Vec<WidgetContainer<PluginStub>> = Vec::new();

    let checked = check_api_version(&meta, PLUGIN_API_VERSION);
    assert_eq!(
        checked,
        Err(PluginError::VersionMismatch {
            expected: 1,
            got: 2
        })
    );
    if checked.is_ok() {
        // Never reached: `create` runs only after the version check passes.
        let idx = find_widget_index(&widgets, "demo");
        let fresh = WidgetContainer::new("demo".to_string(), PluginStub::create(alive.clone()));
        install_widget(&mut widgets, idx, fresh);
    }
    assert_eq!(widgets.len(), 0);
    assert_eq!(alive.get(), 0);
}

#[test]
fn test_matching_version_is_accepted() {
    let meta = PluginMetadata {
        api_version: PLUGIN_API_VERSION,
        name: b"demo".to_vec(),
    };
    assert!(check_api_version(&meta, PLUGIN_API_VERSION).is_ok());
}

#[test]
fn test_plugin_name_decodes_ascii() {
    assert_eq!(plugin_name(b"clock".to_vec()).unwrap(), "clock");
}

#[test]
fn test_plugin_name_rejects_invalid_utf8() {
    assert_eq!(plugin_name(vec![0xff, 0xfe]), Err(PluginError::Utf8));
}

#[test]
fn test_extract_plugin_name_strips_the_extension() {
    assert_eq!(extract_plugin_name("clock.so"), "clock");
    assert_eq!(extract_plugin_name("libclock.tar.so"), "libclock.tar");
    assert_eq!(extract_plugin_name("noext"), "noext");
    assert_eq!(extract_plugin_name(".hidden"), ".hidden");
}

#[test]
fn test_dll_extension_per_platform() {
    assert_eq!(dll_extension(Platform::Linux), "so");
    assert_eq!(dll_extension(Platform::MacOs), "dylib");
    assert_eq!(dll_extension(Platform::Windows), "dll");
}

#[test]
fn test_is_plugin_file_checks_the_extension() {
    assert!(is_plugin_file("clock.so", Platform::Linux));
    assert!(!is_plugin_file("clock.so", Platform::Windows));
    assert!(!is_plugin_file("clock.txt", Platform::Linux));
    assert!(!is_plugin_file("so", Platform::Linux));
    assert!(!is_plugin_file(".so", Platform::Linux));
}

#[test]
fn test_temp_file_name_embeds_the_token() {
    assert_eq!(temp_file_name("clock.so", 1234, Platform::Linux), "clock_1234.so");
    // Repeated extensions are all stripped before the token is added.
    assert_eq!(temp_file_name("clock.so.so", 7, Platform::Linux), "clock_7.so");
    assert_eq!(temp_file_name("clock", 7, Platform::Linux), "clock_7.so");
}

#[test]
fn test_plugin_manager_bookkeeping() {
    let mut mgr = PluginManager::new();
    assert!(!mgr.is_loaded("clock"));
    mgr.register_plugin("clock".to_string());
    assert!(mgr.is_loaded("clock"));
    mgr.register_plugin("clock".to_string());
    assert!(mgr.is_loaded("clock"));
    assert!(mgr.remove_plugin("clock"));
    assert!(!mgr.is_loaded("clock"));
    assert!(!mgr.remove_plugin("clock"));
}

#[test]
fn test_hot_reload_replaces_in_place() {
    let alive = Rc::new(Cell::new(0));
    let names = ["alpha", "beta", "foo", "gamma"];
    let mut widgets: Vec<WidgetContainer<PluginStub>> = Vec::new();
    let mut mount_counters = Vec::new();
    for name in names {
        let w = PluginStub::create(alive.clone());
        mount_counters.push(w.mounts.clone());
        widgets.push(WidgetContainer::new(name.to_string(), w));
    }
    for w in widgets.iter_mut() {
        w.mount();
    }

    // The widget named "foo" sits at list index 2; a reload replaces it in
    // place.
    let idx = find_widget_index(&widgets, "foo");
    assert_eq!(idx, Some(2));

    let mut old = replace_widget_at(
        &mut widgets,
        2,
        WidgetContainer::new("foo".to_string(), PluginStub::create(alive.clone())),
    );
    old.unmount();
    drop(old);
    widgets[2].mount();

    assert_eq!(widgets.len(), 4);
    let got: Vec<&str> = widgets.iter().map(|w| w.name()).collect();
    assert_eq!(got, ["alpha", "beta", "foo", "gamma"]);
    // The other widgets were not remounted.
    assert_eq!(mount_counters[0].get(), 1);
    assert_eq!(mount_counters[1].get(), 1);
    assert_eq!(mount_counters[3].get(), 1);
}

#[test]
fn test_install_widget_appends_on_first_load() {
    let alive = Rc::new(Cell::new(0));
    let mut widgets: Vec<WidgetContainer<PluginStub>> = Vec::new();
    widgets.push(WidgetContainer::new(
        "alpha".to_string(),
        PluginStub::create(alive.clone()),
    ));
    let idx = find_widget_index(&widgets, "fresh");
    assert_eq!(idx, None);
    let displaced = install_widget(
        &mut widgets,
        idx,
        WidgetContainer::new("fresh".to_string(), PluginStub::create(alive.clone())),
    );
    assert!(displaced.is_none());
    assert_eq!(widgets.len(), 2);
    assert_eq!(widgets[1].name(), "fresh");
}

#[test]
fn test_create_destroy_round_trip_leaves_no_allocation() {
    let alive = Rc::new(Cell::new(0));
    {
        let w = PluginStub::create(alive.clone());
        assert_eq!(alive.get(), 1);
        let mut container = WidgetContainer::new("counted".to_string(), w);
        container.mount();
        container.update(16);
        container.unmount();
    }
    assert_eq!(alive.get(), 0);

    // The same round trip through a hot reload: the displaced instance is
    // torn down, the fresh one lives until the list is dropped.
    {
        let mut widgets = vec![WidgetContainer::new(
            "counted".to_string(),
            PluginStub::create(alive.clone()),
        )];
        widgets[0].mount();
        assert_eq!(alive.get(), 1);
        let mut old = replace_widget_at(
            &mut widgets,
            0,
            WidgetContainer::new("counted".to_string(), PluginStub::create(alive.clone())),
        );
        assert_eq!(alive.get(), 2);
        old.unmount();
        drop(old);
        assert_eq!(alive.get(), 1);
    }
    assert_eq!(alive.get(), 0);
}

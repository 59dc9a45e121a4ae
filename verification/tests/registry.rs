use std::cell::Cell;
use std::rc::Rc;

use devdash::event::EventBus;
use devdash::rect::{Rect, Size};
use devdash::registry::{WidgetFactory, WidgetRegistry};
use devdash::widget::{Event, EventResult, Widget};

/// A registry test widget tagged with the interval it was built for.
struct TagWidget {
    interval_ms: u64,
}

impl Widget for TagWidget {
    fn on_mount(&mut self) {}

    fn on_update(&mut self, _delta_ms: u64) {}

    fn on_event(&mut self, _event: &Event) -> EventResult {
        EventResult::Ignored
    }

    fn render(&mut self, _area: Rect) {}

    fn render_focused(&mut self, _area: Rect, _focused: bool) {}

    fn preferred_size(&self) -> Option<Size> {
        None
    }

    fn needs_update(&self) -> bool {
        false
    }

    fn on_unmount(&mut self) {}
}

/// A factory counting how often it builds.
struct TagFactory {
    builds: Rc<Cell<u32>>,
}

impl WidgetFactory<TagWidget> for TagFactory {
    fn build(&self, _bus: &EventBus, poll_interval_ms: u64) -> TagWidget {
        self.builds.set(self.builds.get() + 1);
        TagWidget {
            interval_ms: poll_interval_ms,
        }
    }
}

#[test]
fn test_registry_factory_builds_widgets() {
    let bus = EventBus::new();
    let builds = Rc::new(Cell::new(0));
    let mut registry: WidgetRegistry<TagWidget, TagFactory> = WidgetRegistry::new();
    registry.register("cpu", TagFactory { builds: builds.clone() });

    let made = registry.create("cpu", &bus, 1000).unwrap();
    assert_eq!(made.interval_ms, 1000);
    assert_eq!(builds.get(), 1);

    // A factory is reusable: creating again builds again.
    let again = registry.create("cpu", &bus, 250).unwrap();
    assert_eq!(again.interval_ms, 250);
    assert_eq!(builds.get(), 2);
}

#[test]
fn test_registry_unknown_name_is_not_found() {
    let bus = EventBus::new();
    let mut registry: WidgetRegistry<TagWidget, TagFactory> = WidgetRegistry::new();
    assert!(registry.create("nothing", &bus, 1000).is_none());
}

#[test]
fn test_registry_prebuilt_widget_is_consumed_once() {
    let bus = EventBus::new();
    let mut registry: WidgetRegistry<TagWidget, TagFactory> = WidgetRegistry::new();
    registry.register_widget("plugin.clock", TagWidget { interval_ms: 77 });

    let first = registry.create("plugin.clock", &bus, 1000);
    assert_eq!(first.unwrap().interval_ms, 77);
    // Pre-built instances are consumable exactly once.
    assert!(registry.create("plugin.clock", &bus, 1000).is_none());
}

#[test]
fn test_registry_prebuilt_wins_over_factory() {
    let bus = EventBus::new();
    let builds = Rc::new(Cell::new(0));
    let mut registry: WidgetRegistry<TagWidget, TagFactory> = WidgetRegistry::new();
    registry.register("clock", TagFactory { builds: builds.clone() });
    registry.register_widget("clock", TagWidget { interval_ms: 5 });

    let first = registry.create("clock", &bus, 1000).unwrap();
    assert_eq!(first.interval_ms, 5);
    assert_eq!(builds.get(), 0);

    let second = registry.create("clock", &bus, 1000).unwrap();
    assert_eq!(second.interval_ms, 1000);
    assert_eq!(builds.get(), 1);
}

#[test]
fn test_registry_lists_factory_names_in_order() {
    let builds = Rc::new(Cell::new(0));
    let mut registry: WidgetRegistry<TagWidget, TagFactory> = WidgetRegistry::new();
    registry.register("cpu", TagFactory { builds: builds.clone() });
    registry.register("memory", TagFactory { builds: builds.clone() });
    registry.register("disk", TagFactory { builds: builds.clone() });
    let names: Vec<&String> = registry.list_widgets();
    let as_str: Vec<&str> = names.iter().map(|s| s.as_str()).collect();
    assert_eq!(as_str, ["cpu", "memory", "disk"]);
}

#[test]
fn test_registry_clear_widgets_drops_prebuilt_instances() {
    let bus = EventBus::new();
    let mut registry: WidgetRegistry<TagWidget, TagFactory> = WidgetRegistry::new();
    registry.register_widget("plugin.gauge", TagWidget { interval_ms: 9 });
    registry.clear_widgets();
    assert!(registry.create("plugin.gauge", &bus, 1000).is_none());
}

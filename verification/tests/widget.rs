use std::cell::Cell;
use std::rc::Rc;

use devdash::rect::{Rect, Size};
use devdash::widget::{Event, EventResult, KeyCode, Widget, WidgetContainer};

/// A probe widget counting its lifecycle calls; its "allocation" is the
/// shared `alive` counter, incremented on construction and decremented on
/// drop.
struct ProbeWidget {
    alive: Rc<Cell<i32>>,
    mounts: Rc<Cell<u32>>,
    unmounts: Rc<Cell<u32>>,
    last_delta: Rc<Cell<u64>>,
    wants_updates: bool,
}

impl ProbeWidget {
    fn new(alive: Rc<Cell<i32>>, wants_updates: bool) -> Self {
        alive.set(alive.get() + 1);
        ProbeWidget {
            alive,
            mounts: Rc::new(Cell::new(0)),
            unmounts: Rc::new(Cell::new(0)),
            last_delta: Rc::new(Cell::new(0)),
            wants_updates,
        }
    }
}

impl Drop for ProbeWidget {
    fn drop(&mut self) {
        self.alive.set(self.alive.get() - 1);
    }
}

impl Widget for ProbeWidget {
    fn on_mount(&mut self) {
        self.mounts.set(self.mounts.get() + 1);
    }

    fn on_update(&mut self, delta_ms: u64) {
        self.last_delta.set(delta_ms);
    }

    fn on_event(&mut self, event: &Event) -> EventResult {
        match event {
            Event::Key(KeyCode::Char('q')) => EventResult::Consumed,
            _ => EventResult::Ignored,
        }
    }

    fn render(&mut self, _area: Rect) {}

    fn render_focused(&mut self, _area: Rect, _focused: bool) {}

    fn preferred_size(&self) -> Option<Size> {
        None
    }

    fn needs_update(&self) -> bool {
        self.wants_updates
    }

    fn on_unmount(&mut self) {
        self.unmounts.set(self.unmounts.get() + 1);
    }
}

#[test]
fn test_mount_is_idempotent() {
    let alive = Rc::new(Cell::new(0));
    let w = ProbeWidget::new(alive.clone(), false);
    let mounts = w.mounts.clone();
    let mut c = WidgetContainer::new("probe".to_string(), w);
    assert_eq!(c.name(), "probe");
    c.mount();
    c.mount();
    c.mount();
    assert_eq!(mounts.get(), 1);
}

#[test]
fn test_unmount_is_idempotent_and_safe_when_never_mounted() {
    let alive = Rc::new(Cell::new(0));
    let w = ProbeWidget::new(alive.clone(), false);
    let unmounts = w.unmounts.clone();
    let mut c = WidgetContainer::new("probe2".to_string(), w);
    c.unmount();
    assert_eq!(unmounts.get(), 0);
    c.mount();
    c.unmount();
    c.unmount();
    assert_eq!(unmounts.get(), 1);
}

#[test]
fn test_update_passes_the_elapsed_delta() {
    let alive = Rc::new(Cell::new(0));
    let w = ProbeWidget::new(alive.clone(), true);
    let last_delta = w.last_delta.clone();
    let mut c = WidgetContainer::new("probe3".to_string(), w);
    c.update(100);
    assert_eq!(last_delta.get(), 100);
    c.update(350);
    assert_eq!(last_delta.get(), 250);
}

#[test]
fn test_update_skips_widgets_that_do_not_want_updates() {
    let alive = Rc::new(Cell::new(0));
    let w = ProbeWidget::new(alive.clone(), false);
    let last_delta = w.last_delta.clone();
    let mut c = WidgetContainer::new("probe4".to_string(), w);
    c.update(100);
    c.update(350);
    assert_eq!(last_delta.get(), 0);
}

#[test]
fn test_handle_event_forwards_to_the_widget() {
    let alive = Rc::new(Cell::new(0));
    let w = ProbeWidget::new(alive.clone(), false);
    let mut c = WidgetContainer::new("probe5".to_string(), w);
    let consumed = c.handle_event(&Event::Key(KeyCode::Char('q')));
    let ignored = c.handle_event(&Event::Key(KeyCode::Char('x')));
    assert_eq!(consumed, EventResult::Consumed);
    assert_eq!(ignored, EventResult::Ignored);
}

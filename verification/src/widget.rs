//! The widget capability and its lifecycle container.
//!
//! A widget is mounted once, updated and rendered repeatedly, and unmounted
//! exactly once before it is destroyed. The container owns one widget,
//! guards that order with an idempotent `mounted` flag, and computes the
//! delta time each update hands to the widget.

use vstd::prelude::*;

use crate::rect::{Rect, Size};

verus! {

/// An input or custom event handed to a widget.
#[derive(Debug, Clone)]
pub enum Event {
    /// A key press.
    Key(KeyCode),
    /// A mouse action at a cell position.
    Mouse(MouseKind, u16, u16),
    /// The terminal was resized to the given width and height.
    Resize(u16, u16),
    /// A plugin-defined event: a tag and an opaque payload.
    Custom(String, Vec<u8>),
}

/// The key of a key press, reduced to what widgets dispatch on.
#[derive(Debug, Clone, Copy, PartialEq, Eq, Structural)]
pub enum KeyCode {
    Char(char),
    Up,
    Down,
    Left,
    Right,
    Enter,
    Esc,
    Tab,
    Backspace,
    Other,
}

/// The kind of a mouse action.
#[derive(Debug, Clone, Copy, PartialEq, Eq, Structural)]
pub enum MouseKind {
    Down,
    Up,
    Drag,
    Moved,
    ScrollUp,
    ScrollDown,
    Other,
}

/// Whether a widget consumed an event or left it for the next one.
#[derive(Debug, Clone, Copy, PartialEq, Eq, Structural)]
pub enum EventResult {
    /// Stop propagation.
    Consumed,
    /// Continue to the next widget.
    Ignored,
}

/// The capability set every dashboard widget satisfies, built-in or
/// plugin-provided. Painting itself is the renderer's business: `render`
/// receives the area and the widget records what to draw.
pub trait Widget {
    /// Called once when the widget is added to the dashboard.
    fn on_mount(&mut self);

    /// Called each frame that needs an update, with the milliseconds since
    /// the previous update.
    fn on_update(&mut self, delta_ms: u64);

    /// Handle an input or custom event.
    fn on_event(&mut self, event: &Event) -> EventResult;

    /// Render into the given area.
    fn render(&mut self, area: Rect);

    /// Render with focus awareness.
    fn render_focused(&mut self, area: Rect, focused: bool);

    /// The widget's preferred size, `None` meaning flexible.
    fn preferred_size(&self) -> Option<Size>;

    /// Whether the widget wants regular updates (polling, animations).
    fn needs_update(&self) -> bool;

    /// Cleanup when the widget is removed.
    fn on_unmount(&mut self);
}

/// Owns exactly one widget and its lifecycle state: the `mounted`
/// idempotency guard, the timestamp of the previous update, and the stable
/// name used for hot-reload matching and focus indexing.
pub struct WidgetContainer<W: Widget> {
    widget: W,
    last_update_ms: u64,
    mounted: bool,
    name: String,
}

impl<W: Widget> WidgetContainer<W> {
    /// The container's stable name.
    pub closed spec fn spec_name(&self) -> Seq<char> {
        self.name@
    }

    /// Whether the widget is currently mounted.
    pub closed spec fn is_mounted(&self) -> bool {
        self.mounted
    }

    /// The timestamp the previous update ran at, in milliseconds.
    pub closed spec fn last_update_spec(&self) -> u64 {
        self.last_update_ms
    }

    /// Wrap a widget under a stable name; not yet mounted, with the update
    /// clock at zero.
    pub fn new(name: String, widget: W) -> (r: Self)
        ensures
            r.spec_name() == name@,
            !r.is_mounted(),
            r.last_update_spec() == 0,
    {
        WidgetContainer { widget, last_update_ms: 0, mounted: false, name }
    }

    /// The container's stable name.
    pub fn name(&self) -> (r: &str)
        ensures
            r@ == self.spec_name(),
    {
        self.name.as_str()
    }

    /// Mount the widget if it is not mounted yet; mounting a mounted
    /// container changes nothing (idempotent).
    pub fn mount(&mut self)
        ensures
            final(self).is_mounted(),
            final(self).spec_name() == old(self).spec_name(),
            final(self).last_update_spec() == old(self).last_update_spec(),
            old(self).is_mounted() ==> *final(self) == *old(self),
    {
        if !self.mounted {
            self.widget.on_mount();
            self.mounted = true;
        }
    }

    /// Advance the widget by the time elapsed since the previous update:
    /// invokes the update hook only if the widget asks for updates, and
    /// always moves the stored timestamp to `now_ms`.
    pub fn update(&mut self, now_ms: u64)
        ensures
            final(self).last_update_spec() == now_ms,
            final(self).spec_name() == old(self).spec_name(),
            final(self).is_mounted() == old(self).is_mounted(),
    {
        let delta = now_ms.saturating_sub(self.last_update_ms);
        if self.widget.needs_update() {
            self.widget.on_update(delta);
        }
        self.last_update_ms = now_ms;
    }

    /// Forward an event to the widget.
    pub fn handle_event(&mut self, event: &Event) -> (r: EventResult)
        ensures
            final(self).spec_name() == old(self).spec_name(),
            final(self).is_mounted() == old(self).is_mounted(),
            final(self).last_update_spec() == old(self).last_update_spec(),
    {
        self.widget.on_event(event)
    }

    /// Forward a render pass to the widget.
    pub fn render(&mut self, area: Rect)
        ensures
            final(self).spec_name() == old(self).spec_name(),
            final(self).is_mounted() == old(self).is_mounted(),
            final(self).last_update_spec() == old(self).last_update_spec(),
    {
        self.widget.render(area);
    }

    /// Forward a focus-aware render pass to the widget.
    pub fn render_focused(&mut self, area: Rect, focused: bool)
        ensures
            final(self).spec_name() == old(self).spec_name(),
            final(self).is_mounted() == old(self).is_mounted(),
            final(self).last_update_spec() == old(self).last_update_spec(),
    {
        self.widget.render_focused(area, focused);
    }

    /// Unmount the widget if it is mounted; unmounting an unmounted (or
    /// never-mounted) container changes nothing (idempotent).
    pub fn unmount(&mut self)
        ensures
            !final(self).is_mounted(),
            final(self).spec_name() == old(self).spec_name(),
            final(self).last_update_spec() == old(self).last_update_spec(),
            !old(self).is_mounted() ==> *final(self) == *old(self),
    {
        if self.mounted {
            self.widget.on_unmount();
            self.mounted = false;
        }
    }
}

} // verus!

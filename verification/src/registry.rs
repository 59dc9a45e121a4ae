//! The widget registry: maps logical widget names to either a factory
//! (built-in widgets, handed a bus handle and a poll interval) or a
//! pre-built instance (plugin widgets, already constructed by load time).
//! A pre-built instance is consumable exactly once; an unknown name is "not
//! found", which callers treat as "skip with a warning", not as an error.

use vstd::prelude::*;

use crate::event::EventBus;
use crate::text::str_eq;
use crate::widget::Widget;

verus! {

/// Builds a widget from a bus handle and a poll interval in milliseconds.
/// The host registers one factory per built-in widget name.
pub trait WidgetFactory<W: Widget> {
    /// Construct a fresh widget instance.
    fn build(&self, bus: &EventBus, poll_interval_ms: u64) -> W;
}

/// Registry of widget factories and pre-built widget instances, keyed by
/// logical name. Each name is registered at most once per table.
pub struct WidgetRegistry<W: Widget, F: WidgetFactory<W>> {
    factories: Vec<(String, F)>,
    widgets: Vec<(String, W)>,
}

impl<W: Widget, F: WidgetFactory<W>> WidgetRegistry<W, F> {
    /// The registered factories: each name with its factory, in
    /// registration order.
    pub closed spec fn factories_seq(&self) -> Seq<(Seq<char>, F)> {
        self.factories@.map_values(|e: (String, F)| (e.0@, e.1))
    }

    /// The pre-built instances waiting to be taken, each under its name.
    pub closed spec fn widgets_seq(&self) -> Seq<(Seq<char>, W)> {
        self.widgets@.map_values(|e: (String, W)| (e.0@, e.1))
    }

    /// Well-formed registry: no name appears twice in either table.
    pub closed spec fn wf(&self) -> bool {
        &&& (forall|j: int, k: int|
            0 <= j < k < self.factories@.len() ==> self.factories@[j].0@ != self.factories@[k].0@)
        &&& (forall|j: int, k: int|
            0 <= j < k < self.widgets@.len() ==> self.widgets@[j].0@ != self.widgets@[k].0@)
    }

    /// A fresh registry with nothing registered.
    pub fn new() -> (r: Self)
        ensures
            r.wf(),
            r.factories_seq() == Seq::<(Seq<char>, F)>::empty(),
            r.widgets_seq() == Seq::<(Seq<char>, W)>::empty(),
    {
        let r = WidgetRegistry { factories: Vec::new(), widgets: Vec::new() };
        proof {
            assert(r.factories_seq() =~= Seq::<(Seq<char>, F)>::empty());
            assert(r.widgets_seq() =~= Seq::<(Seq<char>, W)>::empty());
        }
        r
    }

    /// Install a factory under `name`, replacing an earlier factory of the
    /// same name in place and leaving every other entry untouched.
    pub fn register(&mut self, name: &str, factory: F)
        requires
            old(self).wf(),
        ensures
            final(self).wf(),
            final(self).widgets_seq() == old(self).widgets_seq(),
            (forall|j: int|
                0 <= j < old(self).factories_seq().len() ==> (#[trigger] old(
                    self,
                ).factories_seq()[j]).0 != name@) ==> final(self).factories_seq() == old(
                self,
            ).factories_seq().push((name@, factory)),
            forall|k: int|
                0 <= k < old(self).factories_seq().len() && (#[trigger] old(
                    self,
                ).factories_seq()[k]).0 == name@ ==> final(self).factories_seq() == old(
                self,
            ).factories_seq().update(k, (name@, factory)),
    {
        let n = self.factories.len();
        let mut i: usize = 0;
        while i < n
            invariant
                old(self).wf(),
                n == self.factories@.len(),
                i <= n,
                *self == *old(self),
                forall|j: int| 0 <= j < i ==> (#[trigger] self.factories@[j].0@) != name@,
            decreases n - i,
        {
            if str_eq(self.factories[i].0.as_str(), name) {
                let stored = self.factories[i].0.clone();
                self.factories[i] = (stored, factory);
                proof {
                    assert((old(self).factories_seq()[i as int]).0 == name@);
                    assert(final(self).factories_seq() =~= old(self).factories_seq().update(
                        i as int,
                        (name@, final(self).factories@[i as int].1),
                    ));
                    assert forall|k: int|
                        0 <= k < old(self).factories_seq().len() && (#[trigger] old(
                            self,
                        ).factories_seq()[k]).0 == name@ implies final(self).factories_seq() == old(
                        self,
                    ).factories_seq().update(k, (name@, factory)) by {
                        assert(old(self).factories@[k].0@ == old(self).factories@[i as int].0@);
                        assert(k == i as int);
                    }
                }
                return ;
            }
            i = i + 1;
        }
        self.factories.push((name.to_owned(), factory));
        proof {
            assert(final(self).factories_seq() =~= old(self).factories_seq().push(
                (name@, factory),
            ));
        }
    }

    /// Install a pre-built widget instance under `name`, replacing an
    /// earlier instance of the same name in place.
    pub fn register_widget(&mut self, name: &str, widget: W)
        requires
            old(self).wf(),
        ensures
            final(self).wf(),
            final(self).factories_seq() == old(self).factories_seq(),
            (forall|j: int|
                0 <= j < old(self).widgets_seq().len() ==> (#[trigger] old(
                    self,
                ).widgets_seq()[j]).0 != name@) ==> final(self).widgets_seq() == old(
                self,
            ).widgets_seq().push((name@, widget)),
            forall|k: int|
                0 <= k < old(self).widgets_seq().len() && (#[trigger] old(
                    self,
                ).widgets_seq()[k]).0 == name@ ==> final(self).widgets_seq() == old(
                self,
            ).widgets_seq().update(k, (name@, widget)),
    {
        let n = self.widgets.len();
        let mut i: usize = 0;
        while i < n
            invariant
                old(self).wf(),
                n == self.widgets@.len(),
                i <= n,
                *self == *old(self),
                forall|j: int| 0 <= j < i ==> (#[trigger] self.widgets@[j].0@) != name@,
            decreases n - i,
        {
            if str_eq(self.widgets[i].0.as_str(), name) {
                let stored = self.widgets[i].0.clone();
                self.widgets[i] = (stored, widget);
                proof {
                    assert((old(self).widgets_seq()[i as int]).0 == name@);
                    assert(final(self).widgets_seq() =~= old(self).widgets_seq().update(
                        i as int,
                        (name@, final(self).widgets@[i as int].1),
                    ));
                    assert forall|k: int|
                        0 <= k < old(self).widgets_seq().len() && (#[trigger] old(
                            self,
                        ).widgets_seq()[k]).0 == name@ implies final(self).widgets_seq() == old(
                        self,
                    ).widgets_seq().update(k, (name@, widget)) by {
                        assert(old(self).widgets@[k].0@ == old(self).widgets@[i as int].0@);
                        assert(k == i as int);
                    }
                }
                return ;
            }
            i = i + 1;
        }
        self.widgets.push((name.to_owned(), widget));
        proof {
            assert(final(self).widgets_seq() =~= old(self).widgets_seq().push((name@, widget)));
        }
    }

    /// Create the widget registered under `name`: a pre-built instance is
    /// removed from the table and returned (consumable exactly once);
    /// otherwise a registered factory is invoked; otherwise `None` — the
    /// name is unknown.
    pub fn create(&mut self, name: &str, bus: &EventBus, poll_interval_ms: u64) -> (r: Option<W>)
        requires
            old(self).wf(),
        ensures
            final(self).wf(),
            final(self).factories_seq() == old(self).factories_seq(),
            forall|k: int|
                0 <= k < old(self).widgets_seq().len() && (#[trigger] old(
                    self,
                ).widgets_seq()[k]).0 == name@ ==> (r == Some((old(self).widgets_seq()[k]).1)
                    && final(self).widgets_seq() == old(self).widgets_seq().remove(k)),
            (forall|j: int|
                0 <= j < old(self).widgets_seq().len() ==> (#[trigger] old(
                    self,
                ).widgets_seq()[j]).0 != name@) ==> {
                &&& final(self).widgets_seq() == old(self).widgets_seq()
                &&& ((exists|j: int|
                    0 <= j < old(self).factories_seq().len() && (#[trigger] old(
                        self,
                    ).factories_seq()[j]).0 == name@) ==> r is Some)
                &&& ((forall|j: int|
                    0 <= j < old(self).factories_seq().len() ==> (#[trigger] old(
                        self,
                    ).factories_seq()[j]).0 != name@) ==> r is None)
            },
    {
        let nw = self.widgets.len();
        let mut i: usize = 0;
        while i < nw
            invariant
                old(self).wf(),
                nw == self.widgets@.len(),
                i <= nw,
                *self == *old(self),
                forall|j: int| 0 <= j < i ==> (#[trigger] self.widgets@[j].0@) != name@,
            decreases nw - i,
        {
            if str_eq(self.widgets[i].0.as_str(), name) {
                let entry = self.widgets.remove(i);
                proof {
                    assert((old(self).widgets_seq()[i as int]).0 == name@);
                    assert(final(self).widgets_seq() =~= old(self).widgets_seq().remove(i as int));
                    assert forall|k: int|
                        0 <= k < old(self).widgets_seq().len() && (#[trigger] old(
                            self,
                        ).widgets_seq()[k]).0 == name@ implies k == i as int by {
                        assert(old(self).widgets@[k].0@ == old(self).widgets@[i as int].0@);
                    }
                }
                return Some(entry.1);
            }
            i = i + 1;
        }
        let nf = self.factories.len();
        let mut j: usize = 0;
        while j < nf
            invariant
                old(self).wf(),
                nf == self.factories@.len(),
                j <= nf,
                *self == *old(self),
                forall|k: int| 0 <= k < j ==> (#[trigger] self.factories@[k].0@) != name@,
                forall|k: int| 0 <= k < self.widgets@.len() ==> (#[trigger] self.widgets@[k].0@)
                    != name@,
            decreases nf - j,
        {
            if str_eq(self.factories[j].0.as_str(), name) {
                proof {
                    assert((old(self).factories_seq()[j as int]).0 == name@);
                }
                let built = self.factories[j].1.build(bus, poll_interval_ms);
                return Some(built);
            }
            j = j + 1;
        }
        None
    }

    /// The names a factory is registered under, in registration order.
    pub fn list_widgets(&self) -> (r: Vec<&String>)
        ensures
            r@.len() == self.factories_seq().len(),
            forall|j: int|
                0 <= j < r@.len() ==> r@[j]@ == (#[trigger] self.factories_seq()[j]).0,
    {
        let n = self.factories.len();
        let mut names: Vec<&String> = Vec::new();
        let mut i: usize = 0;
        while i < n
            invariant
                n == self.factories@.len(),
                i <= n,
                names@.len() == i,
                forall|j: int|
                    0 <= j < i ==> names@[j]@ == (#[trigger] self.factories@[j].0@),
            decreases n - i,
        {
            names.push(&self.factories[i].0);
            i = i + 1;
        }
        names
    }

    /// Drop every pre-built instance that was not consumed.
    pub fn clear_widgets(&mut self)
        requires
            old(self).wf(),
        ensures
            final(self).wf(),
            final(self).factories_seq() == old(self).factories_seq(),
            final(self).widgets_seq() == Seq::<(Seq<char>, W)>::empty(),
    {
        self.widgets.clear();
        proof {
            assert(final(self).widgets_seq() =~= Seq::<(Seq<char>, W)>::empty());
        }
    }
}

} // verus!

//! The presentation coordinator: consumes domain events in arrival order,
//! tracks the live windows by notification id, computes stacked placement,
//! and decides what user interaction emits.
//!
//! The rendering toolkit itself is an external collaborator: this module says
//! which window goes where, which buttons are visible, and what a click
//! produces; drawing, the timer that fires the auto-close, and the real event
//! loop live with the caller.
use vstd::prelude::*;

use crate::config::Config;
use crate::server::{Action, NinomiyaEvent, Notification, Signal};

verus! {

/// One live on-screen window, tracked by notification id.
#[derive(Clone, Copy, Debug, PartialEq, Eq, Structural)]
pub struct WindowRecord {
    /// The id of the notification this window shows.
    pub id: u32,
    /// Screen position.
    pub x: i32,
    pub y: i32,
    /// Window size, per configuration.
    pub width: i32,
    pub height: i32,
}

/// The index of the first tracked window with the given id, if any.
pub open spec fn spec_find_id(ws: Seq<WindowRecord>, id: u32) -> Option<int>
    decreases ws.len(),
{
    if ws.len() == 0 {
        None
    } else if ws[0].id == id {
        Some(0)
    } else {
        match spec_find_id(ws.drop_first(), id) {
            Some(i) => Some(i + 1),
            None => None,
        }
    }
}

/// The lowest edge among the tracked windows: the largest `y + height`.
pub open spec fn spec_bottom(ws: Seq<WindowRecord>) -> int
    decreases ws.len(),
{
    if ws.len() == 0 {
        0
    } else {
        let rest = spec_bottom(ws.drop_last());
        let last = ws.last().y + ws.last().height;
        if last > rest {
            last
        } else {
            rest
        }
    }
}

/// The coordinator's state: the configuration, the screen it stacks on, and
/// the live windows. Owned and mutated by one presentation context alone.
pub struct Gui {
    pub config: Config,
    /// The width of the screen the windows stack on the right edge of.
    pub screen_width: i32,
    /// The live windows, in creation order.
    pub windows: Vec<WindowRecord>,
}

impl Gui {
    /// The geometry is non-negative, the right-edge position fits the screen
    /// arithmetic, and every tracked window sits at a non-negative position
    /// with a non-negative height.
    pub open spec fn wf(&self) -> bool {
        &&& self.config.wf()
        &&& i32::MIN <= self.screen_width - self.config.width - self.config.padding_x
        &&& forall|i: int|
            0 <= i < self.windows@.len() ==> (0 <= (#[trigger] self.windows@[i]).y && 0
                <= self.windows@[i].height && self.windows@[i].y + self.windows@[i].height
                <= i32::MAX)
    }

    /// Where the next window goes: below the lowest tracked window plus the
    /// configured spacing; the very first window anchors at the configured
    /// top margin.
    pub open spec fn spec_next_y(&self) -> int {
        if self.windows@.len() == 0 {
            self.config.padding_y as int
        } else {
            spec_bottom(self.windows@) + self.config.notification_spacing
        }
    }

    /// A coordinator with no live windows.
    pub fn new(config: Config, screen_width: i32) -> (g: Gui)
        requires
            config.wf(),
            i32::MIN <= screen_width - config.width - config.padding_x,
        ensures
            g.wf(),
            g.windows@.len() == 0,
            g.config == config,
            g.screen_width == screen_width,
    {
        Gui { config, screen_width, windows: Vec::new() }
    }

    /// The index of the tracked window with the given id, if any.
    fn find_index(&self, id: u32) -> (r: Option<usize>)
        ensures
            match r {
                Some(i) => spec_find_id(self.windows@, id) == Some(i as int),
                None => spec_find_id(self.windows@, id) is None,
            },
    {
        let n = self.windows.len();
        let mut i: usize = 0;
        while i < n
            invariant
                n == self.windows@.len(),
                i <= n,
                forall|j: int| 0 <= j < i ==> self.windows@[j].id != id,
            decreases n - i,
        {
            if self.windows[i].id == id {
                proof {
                    lemma_find_id_first(self.windows@, id, i as int);
                }
                return Some(i);
            }
            i = i + 1;
        }
        proof {
            lemma_find_id_none(self.windows@, id);
        }
        None
    }

    /// The vertical position the next window is placed at.
    fn next_y(&self) -> (y: i32)
        requires
            self.wf(),
            self.spec_next_y() <= i32::MAX,
        ensures
            y == self.spec_next_y(),
            y >= 0,
    {
        let n = self.windows.len();
        if n == 0 {
            return self.config.padding_y;
        }
        let w0 = self.windows[0];
        let mut best: i32 = w0.y + w0.height;
        proof {
            assert(self.windows@.take(1).drop_last() =~= Seq::<WindowRecord>::empty());
            assert(self.windows@.take(1).last() == self.windows@[0]);
            assert(spec_bottom(Seq::<WindowRecord>::empty()) == 0);
            assert(0 <= self.windows@[0].y && 0 <= self.windows@[0].height);
            assert(spec_bottom(self.windows@.take(1)) == w0.y + w0.height);
        }
        let mut i: usize = 1;
        while i < n
            invariant
                self.wf(),
                n == self.windows@.len(),
                1 <= i <= n,
                best == spec_bottom(self.windows@.take(i as int)),
                best >= 0,
            decreases n - i,
        {
            let w = self.windows[i];
            let b = w.y + w.height;
            proof {
                assert(self.windows@.take(i + 1).drop_last() =~= self.windows@.take(i as int));
                assert(self.windows@.take(i + 1).last() == self.windows@[i as int]);
            }
            if b > best {
                best = b;
            }
            i = i + 1;
        }
        proof {
            assert(self.windows@.take(n as int) =~= self.windows@);
        }
        best + self.config.notification_spacing
    }

    /// Consumes a created-notification event: sizes a window per
    /// configuration, stacks it below the lowest tracked window (the first
    /// window anchors at the configured top margin, and windows hang off the
    /// screen's right edge), and registers it under the notification's id.
    ///
    /// Returns the placed record and whether an entry for this id already
    /// existed; a duplicate is replaced and reported, never fatal. The caller
    /// renders the window and arms the auto-close timer for the configured
    /// duration.
    pub fn notification_window(&mut self, n: &Notification) -> (r: (WindowRecord, bool))
        requires
            old(self).wf(),
            old(self).spec_next_y() + old(self).config.image_height <= i32::MAX,
        ensures
            final(self).wf(),
            final(self).config == old(self).config,
            final(self).screen_width == old(self).screen_width,
            r.0.id == n.id,
            r.0.x == old(self).screen_width - old(self).config.width - old(self).config.padding_x,
            r.0.y == old(self).spec_next_y(),
            r.0.width == old(self).config.width,
            r.0.height == old(self).config.image_height,
            r.1 == (spec_find_id(old(self).windows@, n.id) is Some),
            r.1 ==> final(self).windows@ == old(self).windows@.update(
                spec_find_id(old(self).windows@, n.id)->Some_0,
                r.0,
            ),
            !r.1 ==> final(self).windows@ == old(self).windows@.push(r.0),
    {
        let y = self.next_y();
        let record = WindowRecord {
            id: n.id,
            x: self.screen_width - self.config.width - self.config.padding_x,
            y,
            width: self.config.width,
            height: self.config.image_height,
        };
        match self.find_index(n.id) {
            Some(i) => {
                proof {
                    lemma_find_id_in_range(self.windows@, n.id);
                }
                self.windows.set(i, record);
                (record, true)
            },
            None => {
                self.windows.push(record);
                (record, false)
            },
        }
    }

    /// Consumes a close request: the window tracked under `id` is destroyed
    /// and its entry removed, and every other window keeps its place — gaps
    /// are not compacted. A close for an id with no live window changes
    /// nothing and is no error; the returned flag says whether a window was
    /// found, so the caller can log the inconsistency.
    pub fn close_notification(&mut self, id: u32) -> (found: bool)
        requires
            old(self).wf(),
        ensures
            final(self).wf(),
            final(self).config == old(self).config,
            final(self).screen_width == old(self).screen_width,
            found == (spec_find_id(old(self).windows@, id) is Some),
            found ==> final(self).windows@ == old(self).windows@.remove(
                spec_find_id(old(self).windows@, id)->Some_0,
            ),
            !found ==> *final(self) == *old(self),
    {
        match self.find_index(id) {
            Some(i) => {
                proof {
                    lemma_find_id_in_range(self.windows@, id);
                }
                self.windows.remove(i);
                true
            },
            None => false,
        }
    }

    /// Consumes one domain event, in arrival order: a created notification
    /// gets a window, a close request takes one down.
    pub fn handle_event(&mut self, event: &NinomiyaEvent) -> (r: HandledEvent)
        requires
            old(self).wf(),
            event matches NinomiyaEvent::Notification(n) ==> old(self).spec_next_y() + old(
                self,
            ).config.image_height <= i32::MAX,
        ensures
            final(self).wf(),
            event matches NinomiyaEvent::Notification(n) ==> (r matches HandledEvent::Created(
                rec,
                dup,
            ) && rec.id == n.id && rec.y == old(self).spec_next_y()),
            event matches NinomiyaEvent::CloseNotification(id) ==> (r
                matches HandledEvent::Closed(i, found) && i == id && found == (spec_find_id(
                old(self).windows@,
                *id,
            ) is Some)),
    {
        match event {
            NinomiyaEvent::Notification(n) => {
                let (rec, dup) = self.notification_window(n);
                HandledEvent::Created(rec, dup)
            },
            NinomiyaEvent::CloseNotification(id) => {
                let found = self.close_notification(*id);
                HandledEvent::Closed(*id, found)
            },
        }
    }
}

/// What consuming one domain event did: the window that was placed (and
/// whether it replaced a duplicate), or the id a close was requested for (and
/// whether a window was found).
#[derive(Clone, Copy, Debug)]
pub enum HandledEvent {
    Created(WindowRecord, bool),
    Closed(u32, bool),
}

/// The first window with a given id is found at the first matching index.
proof fn lemma_find_id_first(ws: Seq<WindowRecord>, id: u32, i: int)
    requires
        0 <= i < ws.len(),
        ws[i].id == id,
        forall|j: int| 0 <= j < i ==> ws[j].id != id,
    ensures
        spec_find_id(ws, id) == Some(i),
    decreases i,
{
    if i > 0 {
        lemma_find_id_first(ws.drop_first(), id, i - 1);
    }
}

/// An id no window carries is not found.
proof fn lemma_find_id_none(ws: Seq<WindowRecord>, id: u32)
    requires
        forall|j: int| 0 <= j < ws.len() ==> ws[j].id != id,
    ensures
        spec_find_id(ws, id) is None,
    decreases ws.len(),
{
    if ws.len() > 0 {
        lemma_find_id_none(ws.drop_first(), id);
    }
}

/// A found index lies in range and carries the id it was found for.
proof fn lemma_find_id_in_range(ws: Seq<WindowRecord>, id: u32)
    requires
        spec_find_id(ws, id) is Some,
    ensures
        0 <= spec_find_id(ws, id)->Some_0 < ws.len(),
        ws[spec_find_id(ws, id)->Some_0].id == id,
    decreases ws.len(),
{
    if ws.len() > 0 && ws[0].id != id {
        lemma_find_id_in_range(ws.drop_first(), id);
    }
}

/// Whether some declared action carries the reserved default key, which
/// stands for "the user clicked the notification body itself".
pub open spec fn spec_has_default(acts: Seq<(Seq<char>, Seq<char>)>) -> bool {
    exists|i: int| 0 <= i < acts.len() && acts[i].0 == "default"@
}

/// Whether the notification declares a default action.
pub fn has_default_action(actions: &Vec<Action>) -> (r: bool)
    ensures
        r == spec_has_default(actions@.map_values(|a: Action| a@)),
{
    let n = actions.len();
    let mut i: usize = 0;
    while i < n
        invariant
            n == actions@.len(),
            i <= n,
            forall|j: int| 0 <= j < i ==> actions@[j].key@ != "default"@,
        decreases n - i,
    {
        if crate::text::str_eq(actions[i].key.as_str(), "default") {
            assert(actions@.map_values(|a: Action| a@)[i as int].0 == "default"@);
            return true;
        }
        i = i + 1;
    }
    proof {
        let av = actions@.map_values(|a: Action| a@);
        if spec_has_default(av) {
            let k = choose|k: int| 0 <= k < av.len() && av[k].0 == "default"@;
            assert(av[k] == actions@[k]@);
            assert(false);
        }
    }
    false
}

/// A declared action is rendered as a button unless it is the default action
/// with an empty label, which exists only to make the body clickable.
pub open spec fn spec_action_visible(a: (Seq<char>, Seq<char>)) -> bool {
    !(a.0 == "default"@ && a.1.len() == 0)
}

/// The actions rendered as buttons, in declaration order.
pub open spec fn spec_visible_actions(acts: Seq<(Seq<char>, Seq<char>)>) -> Seq<
    (Seq<char>, Seq<char>),
>
    decreases acts.len(),
{
    if acts.len() == 0 {
        Seq::empty()
    } else {
        let rest = spec_visible_actions(acts.drop_last());
        if spec_action_visible(acts.last()) {
            rest.push(acts.last())
        } else {
            rest
        }
    }
}

/// The buttons to render for a notification: `None` when it declares no
/// actions (no button bar at all), otherwise its actions without any
/// default-keyed one that has an empty label.
pub fn action_buttons(actions: &Vec<Action>) -> (r: Option<Vec<Action>>)
    ensures
        actions@.len() == 0 ==> r is None,
        actions@.len() > 0 ==> (r matches Some(v) && v@.map_values(|a: Action| a@)
            == spec_visible_actions(actions@.map_values(|a: Action| a@))),
{
    let n = actions.len();
    if n == 0 {
        return None;
    }
    let ghost av = actions@.map_values(|a: Action| a@);
    let mut buttons: Vec<Action> = Vec::new();
    let mut i: usize = 0;
    while i < n
        invariant
            n == actions@.len(),
            i <= n,
            av == actions@.map_values(|a: Action| a@),
            buttons@.map_values(|a: Action| a@) == spec_visible_actions(av.take(i as int)),
        decreases n - i,
    {
        let visible = !(crate::text::str_eq(actions[i].key.as_str(), "default")
            && actions[i].label.as_str().is_empty());
        proof {
            assert(av.take(i + 1).drop_last() =~= av.take(i as int));
            assert(av.take(i + 1).last() == av[i as int]);
        }
        if visible {
            let a = Action { key: actions[i].key.clone(), label: actions[i].label.clone() };
            buttons.push(a);
            proof {
                assert(buttons@.map_values(|a: Action| a@) =~= spec_visible_actions(
                    av.take(i + 1),
                ));
            }
        } else {
            proof {
                assert(buttons@.map_values(|a: Action| a@) =~= spec_visible_actions(
                    av.take(i + 1),
                ));
            }
        }
        i = i + 1;
    }
    proof {
        assert(av.take(n as int) =~= av);
    }
    Some(buttons)
}

/// What clicking the notification body does: with a declared default action,
/// an `ActionInvoked` intent with the reserved key fires; a body click also
/// always requests that the window close.
pub fn body_click(id: u32, actions: &Vec<Action>) -> (r: (Option<Signal>, NinomiyaEvent))
    ensures
        spec_has_default(actions@.map_values(|a: Action| a@)) ==> (r.0 matches Some(s) && (s
            matches Signal::ActionInvoked { id: i, key } && i == id && key@ == "default"@)),
        !spec_has_default(actions@.map_values(|a: Action| a@)) ==> r.0 is None,
        r.1 matches NinomiyaEvent::CloseNotification(i) && i == id,
{
    let signal = if has_default_action(actions) {
        Some(Signal::ActionInvoked { id, key: "default".to_owned() })
    } else {
        None
    };
    (signal, NinomiyaEvent::CloseNotification(id))
}

/// What clicking a declared action's button does: an `ActionInvoked` intent
/// with that action's key, and no close request.
pub fn button_click(id: u32, action: &Action) -> (s: Signal)
    ensures
        s matches Signal::ActionInvoked { id: i, key } && i == id && key@ == action.key@,
{
    Signal::ActionInvoked { id, key: action.key.clone() }
}

} // verus!

//! The protocol server: validates and decodes each method call, owns the
//! identity allocator, and turns accepted calls into domain events for the
//! presentation side.
use vstd::prelude::*;

use crate::error::ProtocolError;
use crate::hints::{
    kv, opt_image_view, opt_str_view, spec_decode_image, spec_parse_image_ref, HintMap, Hints,
    ImageRef, ImageRefV, WireValueV,
};

verus! {

/// An action the user can take in response to a notification.
#[derive(Debug, Clone)]
pub struct Action {
    /// The key sent back in the `ActionInvoked` signal.
    pub key: String,
    /// The localized label shown to the user.
    pub label: String,
}

impl View for Action {
    type V = (Seq<char>, Seq<char>);

    open spec fn view(&self) -> (Seq<char>, Seq<char>) {
        (self.key@, self.label@)
    }
}

/// A notification as the server accepted it; immutable once created.
#[derive(Debug)]
pub struct Notification {
    /// The identity the server allocated; unique for the process lifetime.
    pub id: u32,
    /// The declared actions, in wire order.
    pub actions: Vec<Action>,
    /// The application icon, parsed from the wire's `app_icon` field.
    pub icon: Option<ImageRef>,
    /// The calling application's display name; an empty wire string is absent.
    pub application_name: Option<String>,
    /// The required summary line.
    pub summary: String,
    /// The body text; an empty wire string is absent.
    pub body: Option<String>,
    /// The decoded hints.
    pub hints: Hints,
}

/// The mathematical value of a [`Notification`].
#[verifier::ext_equal]
pub struct NotificationV {
    pub id: u32,
    pub actions: Seq<(Seq<char>, Seq<char>)>,
    pub icon: Option<ImageRefV>,
    pub application_name: Option<Seq<char>>,
    pub summary: Seq<char>,
    pub body: Option<Seq<char>>,
    pub image: Option<ImageRefV>,
}

/// The view of an optional owned string.
pub open spec fn opt_string_view(o: Option<String>) -> Option<Seq<char>> {
    match o {
        Some(s) => Some(s@),
        None => None,
    }
}

/// The views of a sequence of strings.
pub open spec fn strings_view(s: Seq<String>) -> Seq<Seq<char>> {
    s.map_values(|x: String| x@)
}

impl View for Notification {
    type V = NotificationV;

    open spec fn view(&self) -> NotificationV {
        NotificationV {
            id: self.id,
            actions: self.actions@.map_values(|a: Action| a@),
            icon: opt_image_view(self.icon),
            application_name: opt_string_view(self.application_name),
            summary: self.summary@,
            body: opt_string_view(self.body),
            image: self.hints@,
        }
    }
}

/// A domain event flowing from the protocol side to the presentation side.
#[derive(Debug)]
pub enum NinomiyaEvent {
    /// A notification to be displayed.
    Notification(Notification),
    /// The window for the given notification should be closed.
    CloseNotification(u32),
}

/// A signal flowing back from the presentation side to the protocol side, to
/// be emitted on the bus.
#[derive(Debug, Clone)]
pub enum Signal {
    /// The user invoked an action on the notification.
    ActionInvoked { id: u32, key: String },
}

/// Returns `None` for an empty string, `Some` of the owned string otherwise:
/// wire fields such as the application name and the body treat an empty
/// string as absent.
pub fn owned_if_nonempty(s: &str) -> (r: Option<String>)
    ensures
        opt_string_view(r) == spec_normalize(s@),
{
    if s.is_empty() {
        None
    } else {
        Some(s.to_owned())
    }
}

/// An empty wire string normalized to "absent".
pub open spec fn spec_normalize(s: Seq<char>) -> Option<Seq<char>> {
    if s.len() == 0 {
        None
    } else {
        Some(s)
    }
}

/// Keys and labels paired up from the flat wire sequence: every key is
/// immediately followed by its label.
pub open spec fn spec_pair_actions(a: Seq<Seq<char>>) -> Seq<(Seq<char>, Seq<char>)> {
    Seq::new(a.len() / 2, |i: int| (a[2 * i], a[2 * i + 1]))
}

/// The outcome of one `Notify` call, given the wire arguments, the canonical
/// forms of its two possibly path-like strings, and the id the allocator
/// would hand out. The icon is parsed first (an empty `app_icon` means no
/// icon), then the action list must have even length, then the hints decode;
/// the first failure rejects the whole call.
pub open spec fn spec_notify(
    app_name: Seq<char>,
    app_icon: Seq<char>,
    summary: Seq<char>,
    body: Seq<char>,
    actions: Seq<Seq<char>>,
    hints: Seq<(Seq<char>, WireValueV)>,
    icon_canonical: Option<Seq<char>>,
    image_path_canonical: Option<Seq<char>>,
    id: u32,
) -> Result<NotificationV, ProtocolError> {
    let icon: Result<Option<ImageRefV>, ProtocolError> = if app_icon.len() == 0 {
        Ok(None)
    } else {
        match spec_parse_image_ref(app_icon, icon_canonical) {
            Ok(i) => Ok(Some(i)),
            Err(e) => Err(e),
        }
    };
    match icon {
        Err(e) => Err(e),
        Ok(icon) => if actions.len() % 2 != 0 {
            Err(ProtocolError::OddActionCount)
        } else {
            match spec_decode_image(hints, image_path_canonical) {
                Err(e) => Err(e),
                Ok(image) => Ok(
                    NotificationV {
                        id,
                        actions: spec_pair_actions(actions),
                        icon,
                        application_name: spec_normalize(app_name),
                        summary,
                        body: spec_normalize(body),
                        image,
                    },
                ),
            }
        },
    }
}

/// The state of the notification server: the identity allocator. Exactly one
/// server exists per process, and only it writes notification identities.
pub struct NotifyServer {
    /// The id the next accepted call receives. Starts at 1: many client
    /// libraries use 0 as "no notification", so 0 is never handed out.
    pub next_id: u32,
}

impl NotifyServer {
    /// The allocator never stands at 0, so every id it hands out is nonzero.
    pub open spec fn wf(&self) -> bool {
        1 <= self.next_id
    }

    /// A fresh server whose first accepted call receives id 1.
    pub fn new() -> (s: NotifyServer)
        ensures
            s.wf(),
            s.next_id == 1,
    {
        NotifyServer { next_id: 1 }
    }

    /// Hands out the current counter and advances it.
    fn new_id(&mut self) -> (id: u32)
        requires
            old(self).wf(),
            old(self).next_id < u32::MAX,
        ensures
            issued(*old(self), *final(self), id),
            final(self).wf(),
    {
        let id = self.next_id;
        self.next_id = self.next_id + 1;
        id
    }

    /// The constant feature set this server supports.
    pub fn get_capabilities(&self) -> (r: Vec<String>)
        ensures
            r@.len() == 3,
            r@[0]@ == "body"@,
            r@[1]@ == "actions"@,
            r@[2]@ == "body-markup"@,
    {
        let mut v: Vec<String> = Vec::new();
        v.push("body".to_owned());
        v.push("actions".to_owned());
        v.push("body-markup".to_owned());
        v
    }

    /// The static server descriptor: name, vendor, version, protocol
    /// specification version.
    pub fn get_server_information(&self) -> (r: (String, String, String, String))
        ensures
            r.0@ == "ninomiya"@,
            r.1@ == "deifactor"@,
            r.2@ == "0.1.0"@,
            r.3@ == "1.2"@,
    {
        (
            "ninomiya".to_owned(),
            "deifactor".to_owned(),
            "0.1.0".to_owned(),
            "1.2".to_owned(),
        )
    }

    /// Validates and decodes one `Notify` call. On success the returned
    /// notification carries the freshly allocated id and is to be published
    /// as a `Created` event; the id goes back to the caller. On failure the
    /// call is rejected whole.
    ///
    /// `replaces_id` is accepted for wire compatibility but never reuses a
    /// window: every accepted call creates a new notification. The expiry
    /// timeout is accepted and left to the presentation side's configured
    /// duration.
    ///
    /// The identity allocator does not advance on a rejection, except for a
    /// malformed hint dictionary, whose decode follows the allocation.
    pub fn notify(
        &mut self,
        app_name: &str,
        _replaces_id: u32,
        app_icon: &str,
        summary: &str,
        body: &str,
        actions: Vec<String>,
        hints: HintMap,
        _expire_timeout: i32,
        app_icon_canonical: Option<&str>,
        image_path_canonical: Option<&str>,
    ) -> (r: Result<Notification, ProtocolError>)
        requires
            old(self).wf(),
            old(self).next_id < u32::MAX,
            app_icon_canonical matches Some(p) ==> p@.len() < 0x10000000,
            image_path_canonical matches Some(p) ==> p@.len() < 0x10000000,
        ensures
            final(self).wf(),
            r matches Ok(n) ==> (spec_notify(
                app_name@,
                app_icon@,
                summary@,
                body@,
                strings_view(actions@),
                kv(hints@),
                opt_str_view(app_icon_canonical),
                opt_str_view(image_path_canonical),
                old(self).next_id,
            ) == Ok::<NotificationV, ProtocolError>(n@) && issued(*old(self), *final(self), n.id)),
            r matches Err(e) ==> spec_notify(
                app_name@,
                app_icon@,
                summary@,
                body@,
                strings_view(actions@),
                kv(hints@),
                opt_str_view(app_icon_canonical),
                opt_str_view(image_path_canonical),
                old(self).next_id,
            ) == Err::<NotificationV, ProtocolError>(e),
            (r matches Err(e) && e != ProtocolError::MalformedHint) ==> *final(self) == *old(self),
            (r matches Err(e) && e == ProtocolError::MalformedHint) ==> final(self).next_id == old(
                self,
            ).next_id + 1,
    {
        let icon: Option<ImageRef> = if app_icon.is_empty() {
            None
        } else {
            match ImageRef::parse(app_icon, app_icon_canonical) {
                Ok(i) => Some(i),
                Err(e) => {
                    return Err(e);
                },
            }
        };

        if actions.len() % 2 != 0 {
            return Err(ProtocolError::OddActionCount);
        }
        let n_actions = actions.len();
        let n_pairs = n_actions / 2;
        let mut acts: Vec<Action> = Vec::new();
        let mut i: usize = 0;
        while i < n_pairs
            invariant
                n_actions == actions@.len(),
                n_pairs == actions@.len() / 2,
                actions@.len() % 2 == 0,
                i <= n_pairs,
                acts@.len() == i,
                forall|j: int|
                    0 <= j < i ==> (acts@[j].key@ == actions@[2 * j]@ && acts@[j].label@
                        == actions@[2 * j + 1]@),
            decreases n_pairs - i,
        {
            let key = actions[2 * i].clone();
            let label = actions[2 * i + 1].clone();
            acts.push(Action { key, label });
            i = i + 1;
        }
        proof {
            assert(acts@.map_values(|a: Action| a@) =~= spec_pair_actions(
                strings_view(actions@),
            ));
        }

        let id = self.new_id();
        let h = match Hints::from_dbus(hints, image_path_canonical) {
            Ok(h) => h,
            Err(e) => {
                return Err(e);
            },
        };
        let notification = Notification {
            id,
            icon,
            actions: acts,
            application_name: owned_if_nonempty(app_name),
            summary: summary.to_owned(),
            body: owned_if_nonempty(body),
            hints: h,
        };
        proof {
            assert(spec_notify(
                app_name@,
                app_icon@,
                summary@,
                body@,
                strings_view(actions@),
                kv(hints@),
                opt_str_view(app_icon_canonical),
                opt_str_view(image_path_canonical),
                old(self).next_id,
            ) matches Ok(nv) && nv =~= notification@);
        }
        Ok(notification)
    }

    /// Publishes a close request for `id`. This always succeeds, even when no
    /// window is live for the id: that mismatch is a presentation-side
    /// concern, not a protocol error, and no signal is emitted here.
    pub fn close_notification(&self, id: u32) -> (ev: NinomiyaEvent)
        ensures
            ev matches NinomiyaEvent::CloseNotification(i) && i == id,
    {
        NinomiyaEvent::CloseNotification(id)
    }
}

/// One accepted call's effect on the identity allocator: the call receives
/// the counter's current value, never 0, and the counter advances past it.
pub open spec fn issued(pre: NotifyServer, post: NotifyServer, id: u32) -> bool {
    &&& 1 <= pre.next_id
    &&& id == pre.next_id
    &&& post.next_id == pre.next_id + 1
}

/// The allocator's counter rises strictly across a chain of accepted calls.
proof fn lemma_next_id_monotone(states: Seq<NotifyServer>, ids: Seq<u32>, i: int, j: int)
    requires
        states.len() == ids.len() + 1,
        forall|k: int| 0 <= k < ids.len() ==> issued(states[k], states[k + 1], ids[k]),
        0 <= i < j <= ids.len(),
    ensures
        states[i].next_id < states[j].next_id,
    decreases j - i,
{
    if j == i + 1 {
        assert(issued(states[i], states[i + 1], ids[i]));
    } else {
        lemma_next_id_monotone(states, ids, i, j - 1);
        assert(issued(states[j - 1], states[j], ids[j - 1]));
    }
}

/// Law: across any sequence of accepted `Notify` calls, the returned ids rise
/// strictly and none of them is 0.
pub proof fn lemma_ids_strictly_increase(states: Seq<NotifyServer>, ids: Seq<u32>)
    requires
        states.len() == ids.len() + 1,
        forall|k: int| 0 <= k < ids.len() ==> issued(states[k], states[k + 1], ids[k]),
    ensures
        forall|k: int| 0 <= k < ids.len() ==> ids[k] != 0,
        forall|i: int, j: int| 0 <= i < j < ids.len() ==> ids[i] < ids[j],
{
    assert forall|k: int| 0 <= k < ids.len() implies ids[k] != 0 by {
        assert(issued(states[k], states[k + 1], ids[k]));
    }
    assert forall|i: int, j: int| 0 <= i < j < ids.len() implies ids[i] < ids[j] by {
        lemma_next_id_monotone(states, ids, i, j);
        assert(issued(states[i], states[i + 1], ids[i]));
        assert(issued(states[j], states[j + 1], ids[j]));
    }
}

} // verus!

//! The demo notifications: a fixed series that covers the combinations of
//! icon and image present or absent, plus one with actions.
use vstd::prelude::*;

use crate::channel::EventChannel;
use crate::hints::{Hints, ImageRef};
use crate::server::{Action, NinomiyaEvent, Notification};

verus! {

/// The URL of the demo icon built into the binary.
pub fn demo_icon_url() -> (r: String)
    ensures
        r@ == "ninomiya:///demo-icon.png"@,
{
    "ninomiya:///demo-icon.png".to_owned()
}

/// The URL of the demo image built into the binary.
pub fn demo_image_url() -> (r: String)
    ensures
        r@ == "ninomiya:///demo-image.png"@,
{
    "ninomiya:///demo-image.png".to_owned()
}

/// The demo notifications, with ids 1 through 5: no icon and no image, icon
/// only, image only, icon and image, and icon and image with two actions.
pub fn demo_notifications() -> (r: Vec<Notification>)
    ensures
        r@.len() == 5,
        forall|i: int| 0 <= i < 5 ==> (#[trigger] r@[i]).id == i + 1,
        forall|i: int| 0 <= i < 5 ==> (#[trigger] r@[i])@.icon is Some == (i == 1 || i == 3 || i
            == 4),
        forall|i: int| 0 <= i < 5 ==> (#[trigger] r@[i])@.image is Some == (i == 2 || i == 3 || i
            == 4),
        forall|i: int| 0 <= i < 5 ==> (#[trigger] r@[i])@.actions.len() == if i == 4 {
            2int
        } else {
            0int
        },
{
    let mut v: Vec<Notification> = Vec::new();
    v.push(
        Notification {
            id: 1,
            icon: None,
            actions: Vec::new(),
            application_name: Some("galax".to_owned()),
            summary: "no image or icon".to_owned(),
            body: Some("we are not alone / yowaku te tsuyoi hitori hitori da".to_owned()),
            hints: Hints::new(),
        },
    );
    v.push(
        Notification {
            id: 2,
            icon: Some(ImageRef::Url(demo_icon_url())),
            actions: Vec::new(),
            application_name: Some("galax".to_owned()),
            summary: "icon, no image".to_owned(),
            body: Some("<load_galax> let's upgrade the world!".to_owned()),
            hints: Hints::new(),
        },
    );
    v.push(
        Notification {
            id: 3,
            icon: None,
            actions: Vec::new(),
            application_name: Some("galax".to_owned()),
            summary: "image, no icon".to_owned(),
            body: Some("<load_galax> gatchaman crowds is a good anime".to_owned()),
            hints: Hints { image: Some(ImageRef::Url(demo_image_url())) },
        },
    );
    v.push(
        Notification {
            id: 4,
            icon: Some(ImageRef::Url(demo_icon_url())),
            actions: Vec::new(),
            application_name: Some("galax".to_owned()),
            summary: "image and icon".to_owned(),
            body: Some("<load_galax> some weird alien gave me this book".to_owned()),
            hints: Hints { image: Some(ImageRef::Url(demo_image_url())) },
        },
    );
    let mut actions: Vec<Action> = Vec::new();
    actions.push(Action { key: "key-1".to_owned(), label: "fight".to_owned() });
    actions.push(Action { key: "key-2".to_owned(), label: "perish like a MESS".to_owned() });
    v.push(
        Notification {
            id: 5,
            icon: Some(ImageRef::Url(demo_icon_url())),
            actions,
            application_name: Some("galax".to_owned()),
            summary: "image and actions".to_owned(),
            body: Some("<load_galax> what will you do?".to_owned()),
            hints: Hints { image: Some(ImageRef::Url(demo_image_url())) },
        },
    );
    v
}

/// Queues every demo notification on the channel to the presentation side,
/// in order, after whatever already waits there.
pub fn send_notifications(tx: &mut EventChannel<NinomiyaEvent>)
    ensures
        final(tx)@.len() == old(tx)@.len() + 5,
        forall|i: int| 0 <= i < old(tx)@.len() ==> final(tx)@[i] == old(tx)@[i],
        forall|k: int|
            0 <= k < 5 ==> ((#[trigger] final(tx)@[old(tx)@.len() + k])
                matches NinomiyaEvent::Notification(n) && n.id == k + 1),
{
    let mut ns = demo_notifications();
    let ghost base = tx@.len() as int;
    let ghost nsv = ns@;
    let mut k: usize = 0;
    while k < 5
        invariant
            ns@.len() + k == 5,
            tx@.len() == base + k,
            base == old(tx)@.len(),
            forall|i: int| 0 <= i < base ==> tx@[i] == old(tx)@[i],
            forall|j: int| 0 <= j < ns@.len() ==> ns@[j] == nsv[j + k],
            nsv.len() == 5,
            forall|i: int| 0 <= i < 5 ==> (#[trigger] nsv[i]).id == i + 1,
            forall|i: int|
                0 <= i < k ==> ((#[trigger] tx@[base + i])
                    matches NinomiyaEvent::Notification(n) && n.id == i + 1),
        decreases 5 - k,
    {
        let n = ns.remove(0);
        assert(n == nsv[k as int]);
        tx.send(NinomiyaEvent::Notification(n));
        k = k + 1;
    }
}

} // verus!

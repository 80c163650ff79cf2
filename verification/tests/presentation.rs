//! The presentation coordinator: stacked placement, close handling, visible
//! buttons, click decisions, and the event flow from an accepted call to an
//! automatic close.
use ninomiya::channel::EventChannel;
use ninomiya::config::Config;
use ninomiya::gui::{action_buttons, body_click, button_click, Gui, HandledEvent};
use ninomiya::server::{Action, NinomiyaEvent, NotifyServer, Signal};

fn test_config() -> Config {
    Config {
        width: 300,
        image_height: 64,
        padding_x: 8,
        padding_y: 16,
        duration_ms: 3000,
        notification_spacing: 10,
        icon_height: 64,
        theme_path: "style.css".to_owned(),
    }
}

#[test]
fn created_then_expired_closes_automatically() {
    // a client call travels to the presentation side as a Created event;
    // once the configured duration elapses, a close request is produced
    let mut server = NotifyServer::new();
    let mut events: EventChannel<NinomiyaEvent> = EventChannel::new();
    let n = server
        .notify("mail", 0, "", "New message", "From Bob", Vec::new(), Vec::new(), -1, None, None)
        .expect("plain call should be accepted");
    let id = n.id;
    assert_eq!(id, 1);
    events.send(NinomiyaEvent::Notification(n));

    let mut gui = Gui::new(test_config(), 1920);
    let event = events.try_recv().expect("the created event arrives");
    match gui.handle_event(&event) {
        HandledEvent::Created(record, duplicate) => {
            assert_eq!(record.id, 1);
            assert!(!duplicate);
        }
        other => panic!("expected a created window, got {:?}", other),
    }
    // the caller armed a timer for the configured duration; its expiry
    // queues an ordinary close event
    assert_eq!(gui.config.duration_ms, 3000);
    events.send(NinomiyaEvent::CloseNotification(id));
    let event = events.try_recv().expect("the close event arrives");
    match gui.handle_event(&event) {
        HandledEvent::Closed(closed_id, found) => {
            assert_eq!(closed_id, 1);
            assert!(found);
        }
        other => panic!("expected a close, got {:?}", other),
    }
    assert!(gui.windows.is_empty());
}

#[test]
fn stacking_and_no_compaction() {
    // two notifications stack downward; closing the first leaves the second
    // where it was
    let mut server = NotifyServer::new();
    let mut gui = Gui::new(test_config(), 1920);
    let n1 = server
        .notify("a", 0, "", "one", "", Vec::new(), Vec::new(), -1, None, None)
        .expect("accepted");
    let n2 = server
        .notify("a", 0, "", "two", "", Vec::new(), Vec::new(), -1, None, None)
        .expect("accepted");
    assert_eq!((n1.id, n2.id), (1, 2));

    let (w1, dup1) = gui.notification_window(&n1);
    let (w2, dup2) = gui.notification_window(&n2);
    assert!(!dup1 && !dup2);
    // the first window anchors at the top margin
    assert_eq!(w1.y, 16);
    // the second stacks below it: y + height + spacing
    assert_eq!(w2.y, 16 + 64 + 10);
    assert_eq!(w1.x, 1920 - 300 - 8);
    assert_eq!(w2.x, w1.x);

    assert!(gui.close_notification(1));
    // no compaction: the remaining window keeps its place
    assert_eq!(gui.windows.len(), 1);
    assert_eq!(gui.windows[0], w2);
    // and the next window still stacks below the lowest live one
    let n3 = server
        .notify("a", 0, "", "three", "", Vec::new(), Vec::new(), -1, None, None)
        .expect("accepted");
    let (w3, _) = gui.notification_window(&n3);
    assert_eq!(w3.y, w2.y + 64 + 10);
}

#[test]
fn close_for_unknown_id_is_a_quiet_no_op() {
    let server = NotifyServer::new();
    // the protocol side always accepts a close request
    let event = server.close_notification(77);
    match event {
        NinomiyaEvent::CloseNotification(id) => assert_eq!(id, 77),
        other => panic!("expected a close event, got {:?}", other),
    }
    // the presentation side finds no window, emits nothing, changes nothing
    let mut gui = Gui::new(test_config(), 1920);
    let found = gui.close_notification(77);
    assert!(!found);
    assert!(gui.windows.is_empty());
}

#[test]
fn default_action_makes_the_body_clickable() {
    // actions = ["default", "", "snooze", "Snooze"]: one visible button,
    // body clicks fire the default key and close, the button fires its own
    // key without closing
    let mut server = NotifyServer::new();
    let n = server
        .notify(
            "mail",
            0,
            "",
            "s",
            "",
            vec![
                "default".to_owned(),
                "".to_owned(),
                "snooze".to_owned(),
                "Snooze".to_owned(),
            ],
            Vec::new(),
            -1,
            None,
            None,
        )
        .expect("accepted");
    assert_eq!(n.actions.len(), 2);

    let buttons = action_buttons(&n.actions).expect("declared actions make a button bar");
    assert_eq!(buttons.len(), 1);
    assert_eq!(buttons[0].label, "Snooze");

    let (signal, close) = body_click(n.id, &n.actions);
    match signal {
        Some(Signal::ActionInvoked { id, key }) => {
            assert_eq!(id, n.id);
            assert_eq!(key, "default");
        }
        None => panic!("a declared default action fires on body clicks"),
    }
    match close {
        NinomiyaEvent::CloseNotification(id) => assert_eq!(id, n.id),
        other => panic!("expected a close request, got {:?}", other),
    }

    let Signal::ActionInvoked { id, key } = button_click(n.id, &n.actions[1]);
    assert_eq!(id, n.id);
    assert_eq!(key, "snooze");
}

#[test]
fn body_click_without_default_only_closes() {
    let actions = vec![Action { key: "snooze".to_owned(), label: "Snooze".to_owned() }];
    let (signal, close) = body_click(4, &actions);
    assert!(signal.is_none());
    match close {
        NinomiyaEvent::CloseNotification(id) => assert_eq!(id, 4),
        other => panic!("expected a close request, got {:?}", other),
    }
}

#[test]
fn no_actions_means_no_button_bar() {
    assert!(action_buttons(&Vec::new()).is_none());
    let only_default = vec![Action { key: "default".to_owned(), label: "".to_owned() }];
    let buttons = action_buttons(&only_default).expect("declared actions make a button bar");
    assert!(buttons.is_empty());
}

#[test]
fn duplicate_ids_replace_the_tracked_window() {
    let mut server = NotifyServer::new();
    let mut gui = Gui::new(test_config(), 1920);
    let n = server
        .notify("a", 0, "", "one", "", Vec::new(), Vec::new(), -1, None, None)
        .expect("accepted");
    let (_, dup) = gui.notification_window(&n);
    assert!(!dup);
    let (_, dup) = gui.notification_window(&n);
    assert!(dup);
    assert_eq!(gui.windows.len(), 1);
}

#[test]
fn timer_firing_after_a_close_is_a_no_op() {
    // cancellation is implicit: when the user dismisses a window before its
    // timer fires, the late firing finds no window and changes nothing
    let mut server = NotifyServer::new();
    let mut gui = Gui::new(test_config(), 1920);
    let n = server
        .notify("a", 0, "", "one", "", Vec::new(), Vec::new(), -1, None, None)
        .expect("accepted");
    let id = n.id;
    gui.notification_window(&n);
    let (_, close) = body_click(id, &n.actions);
    match close {
        NinomiyaEvent::CloseNotification(close_id) => {
            assert!(gui.close_notification(close_id));
        }
        other => panic!("expected a close request, got {:?}", other),
    }
    // now the auto-close timer fires for the same id
    assert!(!gui.close_notification(id));
    assert!(gui.windows.is_empty());
}

#[test]
fn channel_delivers_in_send_order() {
    let mut ch: EventChannel<u32> = EventChannel::new();
    assert_eq!(ch.try_recv(), None);
    ch.send(1);
    ch.send(2);
    ch.send(3);
    assert_eq!(ch.len(), 3);
    assert_eq!(ch.try_recv(), Some(1));
    assert_eq!(ch.try_recv(), Some(2));
    assert_eq!(ch.try_recv(), Some(3));
    assert_eq!(ch.try_recv(), None);
}

#[test]
fn demo_notifications_cover_the_combinations() {
    let ns = ninomiya::demo::demo_notifications();
    assert_eq!(ns.len(), 5);
    for (i, n) in ns.iter().enumerate() {
        assert_eq!(n.id as usize, i + 1);
    }
    assert!(ns[0].icon.is_none() && ns[0].hints.image.is_none());
    assert!(ns[1].icon.is_some() && ns[1].hints.image.is_none());
    assert!(ns[2].icon.is_none() && ns[2].hints.image.is_some());
    assert!(ns[3].icon.is_some() && ns[3].hints.image.is_some());
    assert_eq!(ns[4].actions.len(), 2);

    let mut ch = EventChannel::new();
    ninomiya::demo::send_notifications(&mut ch);
    assert_eq!(ch.len(), 5);
    match ch.try_recv() {
        Some(NinomiyaEvent::Notification(n)) => assert_eq!(n.id, 1),
        other => panic!("expected the first demo notification, got {:?}", other),
    }
}

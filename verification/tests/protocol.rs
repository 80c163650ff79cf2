//! The protocol server's method surface: validation, identity allocation,
//! and the client-side call assembly.
use ninomiya::client::{fill_hints, flatten_actions, format_icon, parse_action, ImageAs, NotifyOpt};
use ninomiya::error::ProtocolError;
use ninomiya::hints::{HintEntry, ImageRef, WireValue};
use ninomiya::server::{owned_if_nonempty, Action, NotifyServer};

#[test]
fn notify_ids_start_at_one_and_rise() {
    let mut server = NotifyServer::new();
    let first = server
        .notify("mail", 0, "", "a", "", Vec::new(), Vec::new(), -1, None, None)
        .expect("plain call should be accepted");
    let second = server
        .notify("mail", 0, "", "b", "", Vec::new(), Vec::new(), -1, None, None)
        .expect("plain call should be accepted");
    assert_eq!(first.id, 1);
    assert_eq!(second.id, 2);
    assert!(first.id != 0 && second.id != 0);
    assert!(second.id > first.id);
}

#[test]
fn odd_action_count_rejects_without_allocating() {
    let mut server = NotifyServer::new();
    let err = server
        .notify(
            "mail",
            0,
            "",
            "a",
            "",
            vec!["default".to_owned()],
            Vec::new(),
            -1,
            None,
            None,
        )
        .unwrap_err();
    assert_eq!(err, ProtocolError::OddActionCount);
    // the rejection did not advance the allocator
    let accepted = server
        .notify("mail", 0, "", "a", "", Vec::new(), Vec::new(), -1, None, None)
        .expect("plain call should be accepted");
    assert_eq!(accepted.id, 1);
}

#[test]
fn notify_normalizes_empty_strings() {
    let mut server = NotifyServer::new();
    let n = server
        .notify("", 0, "", "summary", "", Vec::new(), Vec::new(), -1, None, None)
        .expect("plain call should be accepted");
    assert!(n.application_name.is_none());
    assert!(n.body.is_none());
    assert_eq!(n.summary, "summary");
    assert!(n.icon.is_none());

    let n = server
        .notify("mail", 0, "", "s", "b", Vec::new(), Vec::new(), -1, None, None)
        .expect("plain call should be accepted");
    assert_eq!(n.application_name.as_deref(), Some("mail"));
    assert_eq!(n.body.as_deref(), Some("b"));
}

#[test]
fn notify_pairs_actions_in_order() {
    let mut server = NotifyServer::new();
    let n = server
        .notify(
            "mail",
            0,
            "",
            "s",
            "",
            vec![
                "default".to_owned(),
                "".to_owned(),
                "snooze".to_owned(),
                "Snooze".to_owned(),
            ],
            Vec::new(),
            -1,
            None,
            None,
        )
        .expect("even action list should be accepted");
    assert_eq!(n.actions.len(), 2);
    assert_eq!(n.actions[0].key, "default");
    assert_eq!(n.actions[0].label, "");
    assert_eq!(n.actions[1].key, "snooze");
    assert_eq!(n.actions[1].label, "Snooze");
}

#[test]
fn notify_parses_the_app_icon() {
    let mut server = NotifyServer::new();
    let n = server
        .notify("m", 0, "mail-unread", "s", "", Vec::new(), Vec::new(), -1, None, None)
        .expect("icon-name icons never fail");
    match n.icon {
        Some(ImageRef::IconName(name)) => assert_eq!(name, "mail-unread"),
        other => panic!("expected an icon name, got {:?}", other),
    }

    let err = server
        .notify("m", 0, "no/such.png", "s", "", Vec::new(), Vec::new(), -1, None, None)
        .unwrap_err();
    assert_eq!(err, ProtocolError::InvalidResource);
}

#[test]
fn notify_rejects_malformed_hints() {
    let mut server = NotifyServer::new();
    let hints = vec![HintEntry {
        key: "image-data".to_owned(),
        value: WireValue::Str("wrong shape".to_owned()),
    }];
    let err = server
        .notify("m", 0, "", "s", "", Vec::new(), hints, -1, None, None)
        .unwrap_err();
    assert_eq!(err, ProtocolError::MalformedHint);
}

#[test]
fn capabilities_and_server_information_are_static() {
    let server = NotifyServer::new();
    let caps = server.get_capabilities();
    assert_eq!(caps, vec!["body", "actions", "body-markup"]);
    let (name, vendor, version, spec_version) = server.get_server_information();
    assert_eq!(name, "ninomiya");
    assert_eq!(vendor, "deifactor");
    assert_eq!(version, "0.1.0");
    assert_eq!(spec_version, "1.2");
}

#[test]
fn owned_if_nonempty_drops_empty_strings() {
    assert_eq!(owned_if_nonempty(""), None);
    assert_eq!(owned_if_nonempty("x"), Some("x".to_owned()));
}

#[test]
fn parse_action_splits_at_the_first_colon() {
    let a = parse_action("default:Open").expect("a colon makes an action");
    assert_eq!(a.key, "default");
    assert_eq!(a.label, "Open");
    let a = parse_action("k:v:w").expect("a colon makes an action");
    assert_eq!(a.key, "k");
    assert_eq!(a.label, "v:w");
    assert!(parse_action("no colon here").is_none());
}

#[test]
fn format_icon_passes_names_and_converts_paths() {
    assert_eq!(format_icon(&None, None).unwrap(), "");
    assert_eq!(
        format_icon(&Some("mail-unread".to_owned()), None).unwrap(),
        "mail-unread"
    );
    assert_eq!(
        format_icon(&Some("pics/cat.png".to_owned()), Some("/home/me/pics/cat.png")).unwrap(),
        "file:///home/me/pics/cat.png"
    );
    assert_eq!(
        format_icon(&Some("pics/cat.png".to_owned()), None).unwrap_err(),
        ProtocolError::InvalidResource
    );
}

#[test]
fn fill_hints_parses_the_image_option() {
    let opt = NotifyOpt {
        app_name: None,
        icon: None,
        image: Some("mail-unread".to_owned()),
        summary: "s".to_owned(),
        action: Vec::new(),
        body: None,
        image_as: ImageAs::Path,
    };
    let hints = fill_hints(&opt, None).expect("icon names never fail");
    match hints.image {
        Some(ImageRef::IconName(name)) => assert_eq!(name, "mail-unread"),
        other => panic!("expected an icon name, got {:?}", other),
    }
}

#[test]
fn flatten_actions_alternates_keys_and_labels() {
    let actions = vec![
        Action { key: "a".to_owned(), label: "A".to_owned() },
        Action { key: "b".to_owned(), label: "B".to_owned() },
    ];
    let flat = flatten_actions(&actions);
    assert_eq!(flat, vec!["a", "A", "b", "B"]);
}

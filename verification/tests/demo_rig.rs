use breadknife::demo::{
    card_title, card_tooltip, menu_entry_text, timestamp, DemoAction, DemoRig, RigStep,
};

#[test]
fn buttons_cycle_and_flip() {
    let mut rig = DemoRig::new();
    let statuses: Vec<&str> = (0..4).map(|_| match rig.press(DemoAction::Status) {
        RigStep::SetStatus(s) => s,
        _ => panic!(),
    }).collect();
    assert_eq!(statuses, vec!["passive", "needs-attention", "active", "passive"]);
    assert!(matches!(rig.press(DemoAction::Pixmap), RigStep::UsePixmap(true)));
    assert!(matches!(rig.press(DemoAction::Icon), RigStep::SetIcon("audio-volume-high")));
    assert!(!rig.pixmap_on);
    assert!(matches!(rig.press(DemoAction::Icon), RigStep::SetIcon("network-wireless")));
    assert!(matches!(rig.press(DemoAction::MenuAdd), RigStep::MenuAdd(l) if l == "entry 1"));
    assert!(matches!(rig.press(DemoAction::MenuToggle), RigStep::MenuToggle(1)));
    rig.menu_added(5);
    assert!(matches!(rig.press(DemoAction::MenuRemove), RigStep::MenuRemove(5)));
    assert!(matches!(rig.press(DemoAction::MenuMount), RigStep::SetMenuEnabled(false)));
    assert!(matches!(rig.press(DemoAction::MenuMount), RigStep::SetMenuEnabled(true)));
    assert!(matches!(rig.press(DemoAction::Remove), RigStep::Remove));
}

#[test]
fn timestamps_are_time_of_day() {
    assert_eq!(timestamp(0, 0), "00:00:00.000");
    assert_eq!(timestamp(3600 * 25 + 61, 7), "01:01:01.007");
    assert_eq!(timestamp(86399, 999), "23:59:59.999");
}

#[test]
fn popup_entries_and_cards_read_as_shown() {
    assert_eq!(menu_entry_text(Some(true), 0, "Mute", false), "\u{2713} Mute");
    assert_eq!(menu_entry_text(Some(false), 1, "Mute", false), "        Mute");
    assert_eq!(menu_entry_text(None, 2, "More", true), "        More  \u{25b8}");
    assert_eq!(menu_entry_text(None, 0, "", false), "");
    assert_eq!(card_title(&Some("Demo Item".to_string())), "Demo Item");
    assert_eq!(card_title(&None), "\u{2014}");
    assert_eq!(card_tooltip("Demo tooltip", "From demo-item"), "Demo tooltip \u{2014} From demo-item");
}

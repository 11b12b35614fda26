//! The windows in which phones are shown.
use phonebridge::commands::windows::{
    open_simulator_inner, session_id_from_simulator_label, simulator_label,
    sync_simulator_windows, WindowPlan, SIMULATOR_PREFIX,
};
use phonebridge::session::device::DeviceKind;
use phonebridge::session::manager::SessionRegistry;

#[test]
fn label_encoding_is_reversible_and_safe() {
    assert_eq!(
        simulator_label("iphone:85C76618-C200-5A6B-A692-8704B3DE3467"),
        "simulator-6970686f6e653a38354337363631382d433230302d354136422d413639322d383730344233444533343637"
    );
    assert_eq!(
        simulator_label("android:AB/CD ef"),
        "simulator-616e64726f69643a41422f4344206566"
    );
    assert!(simulator_label("x").starts_with(SIMULATOR_PREFIX));
}

#[test]
fn session_id_decodes_only_valid_simulator_labels() {
    let id = "android:AB/CD ef";
    assert_eq!(
        session_id_from_simulator_label(&simulator_label(id)),
        Some(id.to_string())
    );
    assert_eq!(session_id_from_simulator_label("main"), None);
    assert_eq!(session_id_from_simulator_label("simulator-"), None);
    assert_eq!(session_id_from_simulator_label("simulator-0"), None);
    assert_eq!(session_id_from_simulator_label("simulator-zz"), None);
    assert_eq!(session_id_from_simulator_label("simulator-c3"), None);
}

#[test]
fn labels_of_any_name_lead_back_and_are_plain() {
    for id in ["iphone:1", "android:快投屏 😀", "a", "\u{7f}\u{80}"] {
        let label = simulator_label(id);
        assert_eq!(session_id_from_simulator_label(&label).as_deref(), Some(id));
        assert!(label
            .chars()
            .all(|c| c.is_ascii_lowercase() || c.is_ascii_digit() || c == '-'));
    }
    assert_ne!(simulator_label("a"), simulator_label("b"));
    assert_eq!(
        session_id_from_simulator_label("simulator-4A").as_deref(),
        Some("J")
    );
    assert_eq!(session_id_from_simulator_label(&simulator_label("")), None);
}

#[test]
fn a_window_is_shown_or_made() {
    let mut reg = SessionRegistry::new("/res".into());
    reg.start_session(DeviceKind::Iphone, "iphone:A".into(), None, Ok(()), "t")
        .unwrap();
    assert!(matches!(
        open_simulator_inner(&reg, "iphone:A", true),
        Ok(WindowPlan::Show { label }) if label == simulator_label("iphone:A")
    ));
    match open_simulator_inner(&reg, "iphone:A", false) {
        Ok(WindowPlan::Create { label, url, title }) => {
            assert_eq!(label, "simulator-6970686f6e653a41");
            assert_eq!(url, "simulator.html?simulator=6970686f6e653a41");
            assert_eq!(title, "iphone:A");
        }
        other => panic!("{other:?}"),
    }
    assert_eq!(
        open_simulator_inner(&reg, "iphone:B", false).unwrap_err(),
        "会话不存在：iphone:B"
    );
    assert!(sync_simulator_windows(&reg, "iphone:B", false).is_none());
    assert!(sync_simulator_windows(&reg, "iphone:A", false).is_some());
}

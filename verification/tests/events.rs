use edges::events::{
    cleanup_event, front_event, modify_event, registrations, space_event, spawn_event, CallbackKind,
    WindowEvent,
};
use edges::skylight::{EventType, ProcessSerialNumber};

#[test]
fn event_codes() {
    assert_eq!(EventType::WindowUpdate.code(), 723);
    assert_eq!(EventType::WindowClose.code(), 804);
    assert_eq!(EventType::WindowMove.code(), 806);
    assert_eq!(EventType::WindowCreate.code(), 1325);
    assert_eq!(EventType::WindowDestroy.code(), 1326);
    assert_eq!(EventType::SpaceChange.code(), 1401);
    assert_eq!(EventType::FrontChange.code(), 1508);
}

#[test]
fn modify_callback_decodes_window_events() {
    assert_eq!(modify_event(804, 7), Some(WindowEvent::WindowClose(7)));
    assert_eq!(modify_event(806, 7), Some(WindowEvent::Moved(7)));
    assert_eq!(modify_event(807, 7), Some(WindowEvent::Resized(7)));
    assert_eq!(modify_event(808, 7), Some(WindowEvent::Reordered(7)));
    assert_eq!(modify_event(811, 7), Some(WindowEvent::LevelChanged(7)));
    assert_eq!(modify_event(815, 7), Some(WindowEvent::Unhidden(7)));
    assert_eq!(modify_event(816, 7), Some(WindowEvent::Hidden(7)));
    assert_eq!(modify_event(1322, 7), Some(WindowEvent::TitleChanged(7)));
    assert_eq!(modify_event(723, 7), Some(WindowEvent::WindowUpdate(7)));
    assert_eq!(modify_event(1325, 7), None);
    assert_eq!(modify_event(0, 7), None);
}

#[test]
fn spawn_callback_decodes_create_and_destroy() {
    assert_eq!(spawn_event(1325, 3, 99), Some(WindowEvent::Created(3, 99)));
    assert_eq!(spawn_event(1326, 3, 99), Some(WindowEvent::Destroyed(3, 99)));
    assert_eq!(spawn_event(804, 3, 99), None);
}

#[test]
fn other_callbacks() {
    assert_eq!(space_event(), WindowEvent::SpaceChanged);
    assert_eq!(front_event(), WindowEvent::FrontChanged);
    assert_eq!(cleanup_event(), WindowEvent::PeriodicCleanup);
}

#[test]
fn every_registration_is_decoded_by_its_callback() {
    let regs = registrations();
    assert_eq!(regs.len(), 13);
    for e in regs.iter() {
        let decoded = match e.callback_kind() {
            CallbackKind::Modify => modify_event(e.code(), 1),
            CallbackKind::Spawn => spawn_event(e.code(), 1, 2),
            CallbackKind::Space => Some(space_event()),
            CallbackKind::Front => Some(front_event()),
        };
        assert!(decoded.is_some(), "{:?}", e);
    }
    assert_eq!(regs[0], EventType::WindowClose);
    assert_eq!(regs[12], EventType::FrontChange);
}

#[test]
fn callback_kinds() {
    assert_eq!(EventType::WindowCreate.callback_kind(), CallbackKind::Spawn);
    assert_eq!(EventType::WindowDestroy.callback_kind(), CallbackKind::Spawn);
    assert_eq!(EventType::SpaceChange.callback_kind(), CallbackKind::Space);
    assert_eq!(EventType::FrontChange.callback_kind(), CallbackKind::Front);
    assert_eq!(EventType::WindowHide.callback_kind(), CallbackKind::Modify);
}

#[test]
fn default_process_serial_number() {
    let p = ProcessSerialNumber::default();
    assert_eq!(p, ProcessSerialNumber { high: 0, low: 0 });
}

#[test]
fn registrations_are_distinct_and_codes_unique() {
    let regs = registrations();
    for i in 0..regs.len() {
        for j in 0..regs.len() {
            if i != j {
                assert_ne!(regs[i], regs[j]);
                assert_ne!(regs[i].code(), regs[j].code());
            }
        }
    }
}

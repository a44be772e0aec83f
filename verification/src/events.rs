//! Window server notifications: which callback each event type is registered
//! with, and how a callback turns a raw notification into a `WindowEvent`.
use vstd::prelude::*;
use crate::skylight::{EventType, SpaceID, WindowID, event_code};

verus! {

/// A decoded notification about a window or the desktop.
#[derive(Debug, Clone, Copy, PartialEq, Eq, Structural)]
pub enum WindowEvent {
    Created(WindowID, SpaceID),
    Destroyed(WindowID, SpaceID),
    Moved(WindowID),
    Resized(WindowID),
    Reordered(WindowID),
    LevelChanged(WindowID),
    Hidden(WindowID),
    Unhidden(WindowID),
    TitleChanged(WindowID),
    WindowUpdate(WindowID),
    WindowClose(WindowID),
    SpaceChanged,
    FrontChanged,
    PeriodicCleanup,
}

/// The callback through which an event type is delivered.
#[derive(Debug, Clone, Copy, PartialEq, Eq, Structural)]
pub enum CallbackKind {
    /// Carries a window id: the window was modified.
    Modify,
    /// Carries a space id and a window id: a window appeared or went away.
    Spawn,
    /// The active space changed.
    Space,
    /// The frontmost application changed.
    Front,
}

/// The callback each event type is registered with.
pub open spec fn spec_callback_kind(e: EventType) -> CallbackKind {
    match e {
        EventType::WindowCreate | EventType::WindowDestroy => CallbackKind::Spawn,
        EventType::SpaceChange => CallbackKind::Space,
        EventType::FrontChange => CallbackKind::Front,
        _ => CallbackKind::Modify,
    }
}

impl EventType {
    /// The callback this event type is registered with.
    pub fn callback_kind(self) -> (k: CallbackKind)
        ensures
            k == spec_callback_kind(self),
    {
        match self {
            EventType::WindowCreate | EventType::WindowDestroy => CallbackKind::Spawn,
            EventType::SpaceChange => CallbackKind::Space,
            EventType::FrontChange => CallbackKind::Front,
            _ => CallbackKind::Modify,
        }
    }
}

/// The event that the modify callback reports for a notification code.
pub open spec fn spec_modify_event(code: u32, wid: WindowID) -> Option<WindowEvent> {
    if code == 804 {
        Some(WindowEvent::WindowClose(wid))
    } else if code == 806 {
        Some(WindowEvent::Moved(wid))
    } else if code == 807 {
        Some(WindowEvent::Resized(wid))
    } else if code == 808 {
        Some(WindowEvent::Reordered(wid))
    } else if code == 811 {
        Some(WindowEvent::LevelChanged(wid))
    } else if code == 815 {
        Some(WindowEvent::Unhidden(wid))
    } else if code == 816 {
        Some(WindowEvent::Hidden(wid))
    } else if code == 1322 {
        Some(WindowEvent::TitleChanged(wid))
    } else if code == 723 {
        Some(WindowEvent::WindowUpdate(wid))
    } else {
        None
    }
}

/// The event that the spawn callback reports for a notification code.
pub open spec fn spec_spawn_event(code: u32, wid: WindowID, sid: SpaceID) -> Option<WindowEvent> {
    if code == 1325 {
        Some(WindowEvent::Created(wid, sid))
    } else if code == 1326 {
        Some(WindowEvent::Destroyed(wid, sid))
    } else {
        None
    }
}

/// Decodes a notification delivered to the modify callback; other codes are ignored.
pub fn modify_event(code: u32, wid: WindowID) -> (e: Option<WindowEvent>)
    ensures
        e == spec_modify_event(code, wid),
{
    match code {
        804 => Some(WindowEvent::WindowClose(wid)),
        806 => Some(WindowEvent::Moved(wid)),
        807 => Some(WindowEvent::Resized(wid)),
        808 => Some(WindowEvent::Reordered(wid)),
        811 => Some(WindowEvent::LevelChanged(wid)),
        815 => Some(WindowEvent::Unhidden(wid)),
        816 => Some(WindowEvent::Hidden(wid)),
        1322 => Some(WindowEvent::TitleChanged(wid)),
        723 => Some(WindowEvent::WindowUpdate(wid)),
        _ => None,
    }
}

/// Decodes a notification delivered to the spawn callback; other codes are ignored.
pub fn spawn_event(code: u32, wid: WindowID, sid: SpaceID) -> (e: Option<WindowEvent>)
    ensures
        e == spec_spawn_event(code, wid, sid),
{
    match code {
        1325 => Some(WindowEvent::Created(wid, sid)),
        1326 => Some(WindowEvent::Destroyed(wid, sid)),
        _ => None,
    }
}

/// The event the space callback reports, whatever the notification.
pub fn space_event() -> (e: WindowEvent)
    ensures
        e == WindowEvent::SpaceChanged,
{
    WindowEvent::SpaceChanged
}

/// The event the front-application callback reports, whatever the notification.
pub fn front_event() -> (e: WindowEvent)
    ensures
        e == WindowEvent::FrontChanged,
{
    WindowEvent::FrontChanged
}

/// The event the periodic cleanup timer reports.
pub fn cleanup_event() -> (e: WindowEvent)
    ensures
        e == WindowEvent::PeriodicCleanup,
{
    WindowEvent::PeriodicCleanup
}

/// The event that a notification of type `e` turns into, once its callback has decoded it.
pub open spec fn spec_delivered_event(e: EventType, wid: WindowID, sid: SpaceID) -> Option<WindowEvent> {
    match spec_callback_kind(e) {
        CallbackKind::Modify => spec_modify_event(event_code(e), wid),
        CallbackKind::Spawn => spec_spawn_event(event_code(e), wid, sid),
        CallbackKind::Space => Some(WindowEvent::SpaceChanged),
        CallbackKind::Front => Some(WindowEvent::FrontChanged),
    }
}

/// The event types registered at start-up, in registration order.
pub open spec fn spec_registrations() -> Seq<EventType> {
    seq![
        EventType::WindowClose,
        EventType::WindowMove,
        EventType::WindowResize,
        EventType::WindowLevel,
        EventType::WindowUnhide,
        EventType::WindowHide,
        EventType::WindowTitle,
        EventType::WindowReorder,
        EventType::WindowUpdate,
        EventType::WindowCreate,
        EventType::WindowDestroy,
        EventType::SpaceChange,
        EventType::FrontChange,
    ]
}

/// The event types to register with the window server, in registration order.
pub fn registrations() -> (r: Vec<EventType>)
    ensures
        r@ == spec_registrations(),
{
    let r = vec![
        EventType::WindowClose,
        EventType::WindowMove,
        EventType::WindowResize,
        EventType::WindowLevel,
        EventType::WindowUnhide,
        EventType::WindowHide,
        EventType::WindowTitle,
        EventType::WindowReorder,
        EventType::WindowUpdate,
        EventType::WindowCreate,
        EventType::WindowDestroy,
        EventType::SpaceChange,
        EventType::FrontChange,
    ];
    assert(r@ =~= spec_registrations());
    r
}

/// Every event type is registered exactly once.
pub proof fn lemma_registrations_complete(e: EventType)
    ensures
        spec_registrations().contains(e),
        spec_registrations().filter(|x: EventType| x == e).len() == 1,
{
    reveal_with_fuel(Seq::filter, 14);
    let s = spec_registrations();
    match e {
        EventType::WindowClose => assert(s[0] == e),
        EventType::WindowMove => assert(s[1] == e),
        EventType::WindowResize => assert(s[2] == e),
        EventType::WindowLevel => assert(s[3] == e),
        EventType::WindowUnhide => assert(s[4] == e),
        EventType::WindowHide => assert(s[5] == e),
        EventType::WindowTitle => assert(s[6] == e),
        EventType::WindowReorder => assert(s[7] == e),
        EventType::WindowUpdate => assert(s[8] == e),
        EventType::WindowCreate => assert(s[9] == e),
        EventType::WindowDestroy => assert(s[10] == e),
        EventType::SpaceChange => assert(s[11] == e),
        EventType::FrontChange => assert(s[12] == e),
    }
}

/// Every registered event type is decoded by the callback it is registered
/// with: no notification the library asks for is dropped on the floor.
pub proof fn lemma_registered_events_decoded(e: EventType, wid: WindowID, sid: SpaceID)
    ensures
        spec_delivered_event(e, wid, sid) is Some,
{
}

/// Every event type, once its callback has decoded it, becomes the event
/// named after it, carrying the window (and, for creation and destruction,
/// the space) it is about.
pub proof fn lemma_delivered_event_carries_ids(e: EventType, wid: WindowID, sid: SpaceID)
    ensures
        e == EventType::WindowCreate ==> spec_delivered_event(e, wid, sid) == Some(WindowEvent::Created(wid, sid)),
        e == EventType::WindowDestroy ==> spec_delivered_event(e, wid, sid) == Some(WindowEvent::Destroyed(wid, sid)),
        e == EventType::WindowMove ==> spec_delivered_event(e, wid, sid) == Some(WindowEvent::Moved(wid)),
        e == EventType::WindowResize ==> spec_delivered_event(e, wid, sid) == Some(WindowEvent::Resized(wid)),
        e == EventType::WindowReorder ==> spec_delivered_event(e, wid, sid) == Some(WindowEvent::Reordered(wid)),
        e == EventType::WindowLevel ==> spec_delivered_event(e, wid, sid) == Some(WindowEvent::LevelChanged(wid)),
        e == EventType::WindowClose ==> spec_delivered_event(e, wid, sid) == Some(WindowEvent::WindowClose(wid)),
        e == EventType::WindowHide ==> spec_delivered_event(e, wid, sid) == Some(WindowEvent::Hidden(wid)),
        e == EventType::WindowUnhide ==> spec_delivered_event(e, wid, sid) == Some(WindowEvent::Unhidden(wid)),
        e == EventType::WindowTitle ==> spec_delivered_event(e, wid, sid) == Some(WindowEvent::TitleChanged(wid)),
        e == EventType::WindowUpdate ==> spec_delivered_event(e, wid, sid) == Some(WindowEvent::WindowUpdate(wid)),
        e == EventType::SpaceChange ==> spec_delivered_event(e, wid, sid) == Some(WindowEvent::SpaceChanged),
        e == EventType::FrontChange ==> spec_delivered_event(e, wid, sid) == Some(WindowEvent::FrontChanged),
{
}

/// Window-level notifications (those carrying a single window id) go to the
/// modify callback; creation and destruction to the spawn callback; space
/// and front-application changes to their own callbacks.
pub proof fn lemma_callback_kinds(e: EventType)
    ensures
        (e == EventType::WindowCreate || e == EventType::WindowDestroy) <==> spec_callback_kind(e)
            == CallbackKind::Spawn,
        e == EventType::SpaceChange <==> spec_callback_kind(e) == CallbackKind::Space,
        e == EventType::FrontChange <==> spec_callback_kind(e) == CallbackKind::Front,
        (e != EventType::WindowCreate && e != EventType::WindowDestroy && e != EventType::SpaceChange
            && e != EventType::FrontChange) <==> spec_callback_kind(e) == CallbackKind::Modify,
{
}

/// Each notification code is decoded into the event of its event type and
/// no other: the modify callback recognises exactly the codes of the event
/// types registered with it, and the spawn callback those of its own.
pub proof fn lemma_decoders_recognise_own_codes(code: u32, wid: WindowID, sid: SpaceID)
    ensures
        spec_modify_event(code, wid) is Some <==> exists|e: EventType| event_code(e) == code
            && spec_callback_kind(e) == CallbackKind::Modify,
        spec_spawn_event(code, wid, sid) is Some <==> exists|e: EventType| event_code(e) == code
            && spec_callback_kind(e) == CallbackKind::Spawn,
{
    if spec_modify_event(code, wid) is Some {
        let e = if code == 804 { EventType::WindowClose } else if code == 806 { EventType::WindowMove }
            else if code == 807 { EventType::WindowResize } else if code == 808 { EventType::WindowReorder }
            else if code == 811 { EventType::WindowLevel } else if code == 815 { EventType::WindowUnhide }
            else if code == 816 { EventType::WindowHide } else if code == 1322 { EventType::WindowTitle }
            else { EventType::WindowUpdate };
        assert(event_code(e) == code && spec_callback_kind(e) == CallbackKind::Modify);
    }
    if spec_spawn_event(code, wid, sid) is Some {
        let e = if code == 1325 { EventType::WindowCreate } else { EventType::WindowDestroy };
        assert(event_code(e) == code && spec_callback_kind(e) == CallbackKind::Spawn);
    }
}

} // verus!

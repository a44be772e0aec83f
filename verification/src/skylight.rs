//! Identifiers, window tags and notification event types of the window server.
use vstd::prelude::*;

verus! {

/// Connection to the window server.
pub type ConnectionID = i32;

/// Window identifier.
pub type WindowID = u32;

/// Space (Mission Control desktop) identifier.
pub type SpaceID = u64;

/// Backing store kind used for border windows (buffered).
pub const K_CG_BACKING_STORE_BUFFERED: i32 = 2;

/// Window tag: document window.
pub const TAG_DOCUMENT: u64 = 0x1;

/// Window tag: floating window.
pub const TAG_FLOATING: u64 = 0x2;

/// Window tag: attached (sheet-like) window.
pub const TAG_ATTACHED: u64 = 0x80;

/// Window tag: visible on all spaces.
pub const TAG_STICKY: u64 = 0x800;

/// Window tag: excluded from window cycling.
pub const TAG_IGNORES_CYCLE: u64 = 0x40000;

/// Window tag: modal window.
pub const TAG_MODAL: u64 = 0x8000_0000;

/// Notification kinds the window server can deliver to a registered callback.
#[derive(Debug, Clone, Copy, PartialEq, Eq, Structural)]
pub enum EventType {
    WindowUpdate,
    WindowClose,
    WindowMove,
    WindowResize,
    WindowReorder,
    WindowLevel,
    WindowUnhide,
    WindowHide,
    WindowTitle,
    WindowCreate,
    WindowDestroy,
    SpaceChange,
    FrontChange,
}

/// The numeric code under which the window server knows each event type.
pub open spec fn event_code(e: EventType) -> u32 {
    match e {
        EventType::WindowUpdate => 723,
        EventType::WindowClose => 804,
        EventType::WindowMove => 806,
        EventType::WindowResize => 807,
        EventType::WindowReorder => 808,
        EventType::WindowLevel => 811,
        EventType::WindowUnhide => 815,
        EventType::WindowHide => 816,
        EventType::WindowTitle => 1322,
        EventType::WindowCreate => 1325,
        EventType::WindowDestroy => 1326,
        EventType::SpaceChange => 1401,
        EventType::FrontChange => 1508,
    }
}

impl EventType {
    /// The numeric code of this event type, as passed to the notification registration.
    pub fn code(self) -> (c: u32)
        ensures
            c == event_code(self),
    {
        match self {
            EventType::WindowUpdate => 723,
            EventType::WindowClose => 804,
            EventType::WindowMove => 806,
            EventType::WindowResize => 807,
            EventType::WindowReorder => 808,
            EventType::WindowLevel => 811,
            EventType::WindowUnhide => 815,
            EventType::WindowHide => 816,
            EventType::WindowTitle => 1322,
            EventType::WindowCreate => 1325,
            EventType::WindowDestroy => 1326,
            EventType::SpaceChange => 1401,
            EventType::FrontChange => 1508,
        }
    }
}

/// Distinct event types have distinct codes.
pub proof fn lemma_event_code_injective(a: EventType, b: EventType)
    ensures
        event_code(a) == event_code(b) <==> a == b,
{
}

/// A process serial number as the window server reports it.
#[derive(Debug, Clone, Copy, PartialEq, Eq, Structural)]
pub struct ProcessSerialNumber {
    pub high: u32,
    pub low: u32,
}

impl Default for ProcessSerialNumber {
    fn default() -> (p: Self)
        ensures
            p.high == 0 && p.low == 0,
    {
        ProcessSerialNumber { high: 0, low: 0 }
    }
}

} // verus!

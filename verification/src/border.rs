//! The state of one border overlay window: which window it outlines, on
//! which space, whether it is focused, and what must be redone on screen.
//! Geometry and drawing are done by the caller; this module decides.
use vstd::prelude::*;
use crate::settings::{BorderOrder, ColorSpec, WindowColors};
use crate::skylight::{ConnectionID, SpaceID, WindowID, TAG_STICKY};

verus! {

/// Tags every border window carries: floating (bit 1) and bit 9.
pub const BORDER_BASE_TAGS: u64 = 0x202;

/// Tag cleared on a sticky border window (bit 45).
pub const BORDER_STICKY_CLEAR_TAG: u64 = 0x2000_0000_0000;

/// Corner radius used when the window server reports none.
pub const DEFAULT_CORNER_RADIUS: i32 = 9;

/// The non-geometric state of one border window.
#[derive(Debug, Clone, Copy, PartialEq, Eq, Structural)]
pub struct Border {
    /// The border window itself.
    pub wid: WindowID,
    /// The window it outlines.
    pub target_wid: WindowID,
    pub cid: ConnectionID,
    /// The space the border was last moved to.
    pub sid: SpaceID,
    /// The target is visible on all spaces.
    pub sticky: bool,
    pub focused: bool,
    pub needs_redraw: bool,
    /// The target is too small to carry a border.
    pub too_small: bool,
}

/// The state after `set_focused(focused)`.
pub open spec fn spec_with_focus(b: Border, focused: bool) -> Border {
    if b.focused == focused {
        b
    } else {
        Border { focused: focused, needs_redraw: true, ..b }
    }
}

/// The state after `move_to_space(new_sid)`.
pub open spec fn spec_moved_to_space(b: Border, new_sid: SpaceID) -> Border {
    if new_sid == 0 || new_sid == b.sid {
        b
    } else {
        Border { sid: new_sid, needs_redraw: true, ..b }
    }
}

/// The stacking order value for the border relative to its target.
pub open spec fn spec_order_value(order: BorderOrder) -> i32 {
    match order {
        BorderOrder::Above => 1i32,
        BorderOrder::Below => -1i32,
    }
}

/// The color a color specification draws a border with (a gradient draws with its start).
pub open spec fn spec_color_of(c: ColorSpec) -> u32 {
    match c {
        ColorSpec::Solid { color } => color,
        ColorSpec::Gradient { start, .. } => start,
    }
}

/// Stacking order value: 1 above the target, -1 below it.
pub fn order_value(order: BorderOrder) -> (v: i32)
    ensures
        v == spec_order_value(order),
{
    match order {
        BorderOrder::Above => 1,
        BorderOrder::Below => -1,
    }
}

/// The corner radius a new border uses: the window's own when positive, else 9.
pub fn radius_or_default(radius: i32) -> (r: i32)
    ensures
        r == (if radius > 0 { radius } else { DEFAULT_CORNER_RADIUS }),
        r > 0,
        radius > 0 ==> r == radius,
        radius <= 0 ==> r == 9,
{
    if radius > 0 {
        radius
    } else {
        DEFAULT_CORNER_RADIUS
    }
}

/// Splits an ARGB color into its alpha, red, green and blue bytes.
pub fn argb_channels(hex: u32) -> (c: (u8, u8, u8, u8))
    ensures
        c.0 == hex / 0x100_0000,
        c.1 == (hex / 0x1_0000) % 0x100,
        c.2 == (hex / 0x100) % 0x100,
        c.3 == hex % 0x100,
        hex == c.0 * 0x100_0000 + c.1 * 0x1_0000 + c.2 * 0x100 + c.3,
{
    let a: u32 = (hex >> 24) & 0xFF;
    let r: u32 = (hex >> 16) & 0xFF;
    let g: u32 = (hex >> 8) & 0xFF;
    let b: u32 = hex & 0xFF;
    assert(a == hex / 0x100_0000 && r == (hex / 0x1_0000) % 0x100 && g == (hex / 0x100) % 0x100
        && b == hex % 0x100) by (bit_vector)
        requires
            a == (hex >> 24) & 0xFF,
            r == (hex >> 16) & 0xFF,
            g == (hex >> 8) & 0xFF,
            b == hex & 0xFF,
    ;
    assert(hex == a * 0x100_0000 + r * 0x1_0000 + g * 0x100 + b) by (bit_vector)
        requires
            a == (hex >> 24) & 0xFF,
            r == (hex >> 16) & 0xFF,
            g == (hex >> 8) & 0xFF,
            b == hex & 0xFF,
    ;
    (a as u8, r as u8, g as u8, b as u8)
}

/// Query of a window's sub-level: the default sub-level 0 is used for every window.
pub fn query_window_sub_level(_cid: ConnectionID, _wid: WindowID) -> (r: i32)
    ensures
        r == 0,
{
    0
}

impl Border {
    /// A freshly created border: not sticky, not focused, waiting for its first draw.
    pub fn new(cid: ConnectionID, wid: WindowID, target_wid: WindowID, sid: SpaceID, too_small: bool) -> (b: Border)
        ensures
            b == (Border {
                wid: wid,
                target_wid: target_wid,
                cid: cid,
                sid: sid,
                sticky: false,
                focused: false,
                needs_redraw: true,
                too_small: too_small,
            }),
    {
        Border { wid, target_wid, cid, sid, sticky: false, focused: false, needs_redraw: true, too_small }
    }

    pub fn wid(&self) -> (w: WindowID)
        ensures
            w == self.wid,
    {
        self.wid
    }

    pub fn is_focused(&self) -> (f: bool)
        ensures
            f == self.focused,
    {
        self.focused
    }

    pub fn sid(&self) -> (s: SpaceID)
        ensures
            s == self.sid,
    {
        self.sid
    }

    /// Records a move to space `new_sid`; returns whether the border window
    /// must actually be moved (space 0 and the current space are ignored).
    pub fn move_to_space(&mut self, new_sid: SpaceID) -> (moved: bool)
        ensures
            *final(self) == spec_moved_to_space(*old(self), new_sid),
            moved == (new_sid != 0 && new_sid != old(self).sid),
            moved ==> final(self).sid == new_sid && final(self).needs_redraw,
            !moved ==> *final(self) == *old(self),
    {
        if new_sid == 0 || new_sid == self.sid {
            return false;
        }
        self.sid = new_sid;
        self.needs_redraw = true;
        true
    }

    /// Records the focus; returns whether it changed, in which case the border
    /// must be redrawn in its new color.
    pub fn set_focused(&mut self, focused: bool) -> (changed: bool)
        ensures
            *final(self) == spec_with_focus(*old(self), focused),
            changed == (old(self).focused != focused),
            final(self).focused == focused,
            changed ==> final(self).needs_redraw,
            !changed ==> *final(self) == *old(self),
    {
        if self.focused != focused {
            self.focused = focused;
            self.needs_redraw = true;
            true
        } else {
            false
        }
    }

    /// Starts a draw: a border on a too-small target is never drawn; otherwise
    /// the pending redraw is cleared and `true` returned.
    pub fn begin_draw(&mut self) -> (draw: bool)
        ensures
            draw == !old(self).too_small,
            *final(self) == (if old(self).too_small { *old(self) } else { Border { needs_redraw: false, ..*old(self) } }),
    {
        if self.too_small {
            return false;
        }
        self.needs_redraw = false;
        true
    }

    /// Records the target's window tags: the border is sticky exactly when the target is.
    pub fn observe_tags(&mut self, tags: u64)
        ensures
            *final(self) == (Border { sticky: (tags & TAG_STICKY) != 0, ..*old(self) }),
            final(self).sticky == (tags & 0x800 != 0),
    {
        self.sticky = (tags & TAG_STICKY) != 0;
    }

    /// The tags to set and to clear on the border window: the base tags, plus
    /// stickiness when the target is sticky.
    pub fn window_tags(&self) -> (t: (u64, u64))
        ensures
            t.0 == (if self.sticky { BORDER_BASE_TAGS | TAG_STICKY } else { BORDER_BASE_TAGS }),
            t.1 == (if self.sticky { BORDER_STICKY_CLEAR_TAG } else { 0u64 }),
    {
        let mut set_tags: u64 = BORDER_BASE_TAGS;
        let mut clear_tags: u64 = 0;
        if self.sticky {
            set_tags = set_tags | TAG_STICKY;
            clear_tags = BORDER_STICKY_CLEAR_TAG;
        }
        (set_tags, clear_tags)
    }

    /// The stacking order to show the border with, or `None` when its target
    /// is too small to carry one.
    pub fn unhide_order(&self, order: BorderOrder) -> (o: Option<i32>)
        ensures
            o == (if self.too_small { None } else { Some(spec_order_value(order)) }),
            self.too_small ==> o is None,
            !self.too_small && order == BorderOrder::Above ==> o == Some(1i32),
            !self.too_small && order == BorderOrder::Below ==> o == Some(-1i32),
    {
        if self.too_small {
            None
        } else {
            Some(order_value(order))
        }
    }

    /// The ARGB color the border is drawn with: the active color when focused,
    /// the inactive one otherwise.
    pub fn current_color(&self, colors: &WindowColors) -> (c: u32)
        ensures
            c == spec_color_of(if self.focused { colors.active } else { colors.inactive }),
            self.focused ==> (colors.active matches ColorSpec::Solid { color } ==> c == color),
            !self.focused ==> (colors.inactive matches ColorSpec::Solid { color } ==> c == color),
            self.focused ==> (colors.active matches ColorSpec::Gradient { start, .. } ==> c == start),
            !self.focused ==> (colors.inactive matches ColorSpec::Gradient { start, .. } ==> c == start),
    {
        let spec = if self.focused { colors.active } else { colors.inactive };
        match spec {
            ColorSpec::Solid { color } => color,
            ColorSpec::Gradient { start, .. } => start,
        }
    }
}

/// Setting the same focus twice changes nothing the second time.
pub proof fn lemma_set_focused_idempotent(b: Border, f: bool)
    ensures
        spec_with_focus(spec_with_focus(b, f), f) == spec_with_focus(b, f),
{
}

/// A focus change leaves the border's identity and placement alone.
pub proof fn lemma_focus_keeps_identity(b: Border, f: bool)
    ensures
        spec_with_focus(b, f).wid == b.wid,
        spec_with_focus(b, f).target_wid == b.target_wid,
        spec_with_focus(b, f).sid == b.sid,
        spec_with_focus(b, f).focused == f,
{
}

/// A focus change (in either direction) sets the new focus and always asks
/// for a redraw, so the border is repainted in its new color; every other
/// field is kept. Setting the focus it already has changes nothing.
pub proof fn lemma_focus_change_requests_redraw(b: Border, f: bool)
    ensures
        spec_with_focus(b, f).focused == f,
        b.focused != f ==> spec_with_focus(b, f).needs_redraw,
        b.focused == f ==> spec_with_focus(b, f) == b,
        spec_with_focus(b, f).wid == b.wid,
        spec_with_focus(b, f).target_wid == b.target_wid,
        spec_with_focus(b, f).cid == b.cid,
        spec_with_focus(b, f).sid == b.sid,
        spec_with_focus(b, f).sticky == b.sticky,
        spec_with_focus(b, f).too_small == b.too_small,
        !b.needs_redraw && spec_with_focus(b, f).needs_redraw ==> b.focused != f,
{
}

/// Moving to space 0 or to the current space changes nothing; moving to any
/// other space records it and asks for a redraw, keeping the other fields.
pub proof fn lemma_move_to_space(b: Border, new_sid: SpaceID)
    ensures
        (new_sid == 0 || new_sid == b.sid) ==> spec_moved_to_space(b, new_sid) == b,
        (new_sid != 0 && new_sid != b.sid) ==> spec_moved_to_space(b, new_sid).sid == new_sid
            && spec_moved_to_space(b, new_sid).needs_redraw,
        spec_moved_to_space(b, new_sid).wid == b.wid,
        spec_moved_to_space(b, new_sid).target_wid == b.target_wid,
        spec_moved_to_space(b, new_sid).focused == b.focused,
        spec_moved_to_space(b, new_sid).sticky == b.sticky,
        spec_moved_to_space(b, new_sid).too_small == b.too_small,
        spec_moved_to_space(b, new_sid).sid == 0 ==> b.sid == 0,
{
}

/// Borders go above their window for `Above` and below it for `Below`.
pub proof fn lemma_order_values()
    ensures
        spec_order_value(BorderOrder::Above) == 1,
        spec_order_value(BorderOrder::Below) == -1,
{
}

/// A solid color draws with its color, a gradient with its start color.
pub proof fn lemma_color_of(color: u32, start: u32, end: u32, angle_bits: u32)
    ensures
        spec_color_of(ColorSpec::Solid { color }) == color,
        spec_color_of(ColorSpec::Gradient { start, end, angle_bits }) == start,
{
}

/// The sticky tag is bit 11 of the window tags.
pub proof fn lemma_sticky_tag()
    ensures
        TAG_STICKY == 0x800,
        BORDER_BASE_TAGS == 0x2 | 0x200,
        BORDER_STICKY_CLEAR_TAG == 0x2000_0000_0000,
{
    assert(0x2u64 | 0x200u64 == 0x202u64) by (bit_vector);
}

} // verus!

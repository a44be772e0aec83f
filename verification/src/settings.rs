//! Border appearance settings, the configuration file's overrides, and
//! the parsing of ARGB colors written in hexadecimal.
//!
//! Lengths that the user gives in points (the border width, the blur radius,
//! a gradient angle) are `f32` values; they are held here as their IEEE-754
//! bit patterns (`f32::to_bits`), which the settings only store and copy.
use vstd::prelude::*;

verus! {

/// Bit pattern of the `f32` value 0.0.
pub const F32_ZERO_BITS: u32 = 0x0000_0000;

/// Bit pattern of the `f32` value 4.0 (the default border width in points).
pub const F32_FOUR_BITS: u32 = 0x4080_0000;

/// Bit pattern of the `f32` value 9.0 (the uniform corner radius).
pub const F32_NINE_BITS: u32 = 0x4110_0000;

/// Bit pattern of the `f32` value 45.0 (the default gradient angle in degrees).
pub const F32_FORTY_FIVE_BITS: u32 = 0x4234_0000;

/// Default color of the focused window's border (ARGB).
pub const DEFAULT_ACTIVE_COLOR: u32 = 0xffe1_e3e4;

/// Default color of unfocused windows' borders (ARGB, fully transparent).
pub const DEFAULT_INACTIVE_COLOR: u32 = 0x0000_0000;

/// Border style variants.
#[derive(Debug, Clone, Copy, PartialEq, Eq, Structural)]
pub enum BorderStyle {
    /// Rounded corners that follow the window's own radius.
    Round,
    /// Square corners.
    Square,
    /// The same radius for every window.
    Uniform,
}

impl Default for BorderStyle {
    fn default() -> (s: Self)
        ensures
            s == BorderStyle::Round,
    {
        BorderStyle::Round
    }
}

/// Whether borders are ordered above or below their window.
#[derive(Debug, Clone, Copy, PartialEq, Eq, Structural)]
pub enum BorderOrder {
    Above,
    Below,
}

impl Default for BorderOrder {
    fn default() -> (o: Self)
        ensures
            o == BorderOrder::Below,
    {
        BorderOrder::Below
    }
}

/// A border color: solid, or a gradient between two colors.
#[derive(Debug, Clone, Copy, PartialEq, Eq, Structural)]
pub enum ColorSpec {
    Solid { color: u32 },
    /// `angle_bits` is the bit pattern of the angle in degrees.
    Gradient { start: u32, end: u32, angle_bits: u32 },
}

/// Colors for the focused and the unfocused windows.
#[derive(Debug, Clone, Copy, PartialEq, Eq, Structural)]
pub struct WindowColors {
    pub active: ColorSpec,
    pub inactive: ColorSpec,
    pub background: Option<u32>,
}

/// Complete border settings.
#[derive(Debug, Clone)]
pub struct Settings {
    pub style: BorderStyle,
    /// Bit pattern of the border width in points.
    pub width_bits: u32,
    pub hidpi: bool,
    pub colors: WindowColors,
    /// Bit pattern of the blur radius.
    pub blur_radius_bits: u32,
    pub show_background: bool,
    pub border_order: BorderOrder,
    pub blacklist: Vec<String>,
    pub whitelist: Vec<String>,
}

impl Default for Settings {
    fn default() -> (s: Self)
        ensures
            s.style == BorderStyle::Round,
            s.width_bits == F32_FOUR_BITS,
            !s.hidpi,
            s.colors.active == (ColorSpec::Solid { color: DEFAULT_ACTIVE_COLOR }),
            s.colors.inactive == (ColorSpec::Solid { color: DEFAULT_INACTIVE_COLOR }),
            s.colors.background is None,
            s.blur_radius_bits == F32_ZERO_BITS,
            !s.show_background,
            s.border_order == BorderOrder::Below,
            s.blacklist@.len() == 0,
            s.whitelist@.len() == 0,
            s.width_bits == 0x4080_0000,
            s.blur_radius_bits == 0,
            s.colors.active == (ColorSpec::Solid { color: 0xffe1_e3e4 }),
            s.colors.inactive == (ColorSpec::Solid { color: 0 }),
    {
        Settings {
            style: BorderStyle::Round,
            width_bits: F32_FOUR_BITS,
            hidpi: false,
            colors: WindowColors {
                active: ColorSpec::Solid { color: DEFAULT_ACTIVE_COLOR },
                inactive: ColorSpec::Solid { color: DEFAULT_INACTIVE_COLOR },
                background: None,
            },
            blur_radius_bits: F32_ZERO_BITS,
            show_background: false,
            border_order: BorderOrder::Below,
            blacklist: Vec::new(),
            whitelist: Vec::new(),
        }
    }
}

/// The corner radius (as an `f32` bit pattern) a style draws with, given the window's own.
pub open spec fn spec_corner_radius(style: BorderStyle, window_corner_radius_bits: u32) -> u32 {
    match style {
        BorderStyle::Round => window_corner_radius_bits,
        BorderStyle::Square => F32_ZERO_BITS,
        BorderStyle::Uniform => F32_NINE_BITS,
    }
}

impl Settings {
    /// Corner radius for this style: the window's own radius for round borders,
    /// 0.0 for square ones and 9.0 for uniform ones. Radii are `f32` bit patterns.
    pub fn corner_radius(&self, window_corner_radius_bits: u32) -> (r: u32)
        ensures
            r == spec_corner_radius(self.style, window_corner_radius_bits),
            self.style == BorderStyle::Round ==> r == window_corner_radius_bits,
            self.style == BorderStyle::Square ==> r == 0,
            self.style == BorderStyle::Uniform ==> r == 0x4110_0000,
    {
        match self.style {
            BorderStyle::Round => window_corner_radius_bits,
            BorderStyle::Square => F32_ZERO_BITS,
            BorderStyle::Uniform => F32_NINE_BITS,
        }
    }
}

// ── Hexadecimal colors ───────────────────────────────────────────────────────

/// The value of a hexadecimal digit, or -1 for any other character.
pub open spec fn hex_digit_value(c: char) -> int {
    if '0' <= c && c <= '9' {
        c as int - '0' as int
    } else if 'a' <= c && c <= 'f' {
        c as int - 'a' as int + 10
    } else if 'A' <= c && c <= 'F' {
        c as int - 'A' as int + 10
    } else {
        -1
    }
}

/// Every character of `s` is a hexadecimal digit.
pub open spec fn all_hex_digits(s: Seq<char>) -> bool {
    forall|i: int| 0 <= i < s.len() ==> hex_digit_value(#[trigger] s[i]) >= 0
}

/// The number that the hexadecimal digits `s` denote (most significant first).
pub open spec fn hex_value(s: Seq<char>) -> int
    decreases s.len(),
{
    if s.len() == 0 {
        0
    } else {
        hex_value(s.drop_last()) * 16 + hex_digit_value(s.last())
    }
}

/// `s` with every leading repetition of the non-empty pattern `p` removed.
pub open spec fn strip_leading(s: Seq<char>, p: Seq<char>) -> Seq<char>
    decreases s.len(),
{
    if p.len() > 0 && p.is_prefix_of(s) {
        strip_leading(s.skip(p.len() as int), p)
    } else {
        s
    }
}

/// Unsigned base-16 parsing of a whole string: an optional `+`, then one or
/// more hexadecimal digits whose value fits in 32 bits.
pub open spec fn spec_parse_radix16(t: Seq<char>) -> Option<u32> {
    if t.len() == 0 {
        None
    } else if t[0] == '+' && t.len() == 1 {
        None
    } else {
        let digits = if t[0] == '+' { t.drop_first() } else { t };
        if all_hex_digits(digits) && hex_value(digits) <= u32::MAX {
            Some(hex_value(digits) as u32)
        } else {
            None
        }
    }
}

/// What `parse_hex` returns for a string: leading `0x` runs, then leading
/// `0X` runs are stripped, and the rest is parsed in base 16.
pub open spec fn spec_parse_hex(s: Seq<char>) -> Option<u32> {
    spec_parse_radix16(strip_leading(strip_leading(s, seq!['0', 'x']), seq!['0', 'X']))
}

proof fn lemma_hex_value_nonneg(s: Seq<char>)
    requires
        all_hex_digits(s),
    ensures
        hex_value(s) >= 0,
    decreases s.len(),
{
    if s.len() > 0 {
        assert(all_hex_digits(s.drop_last())) by {
            assert forall|i: int| 0 <= i < s.drop_last().len() implies hex_digit_value(
                #[trigger] s.drop_last()[i],
            ) >= 0 by {
                assert(s.drop_last()[i] == s[i]);
            }
        }
        lemma_hex_value_nonneg(s.drop_last());
        assert(hex_digit_value(s[s.len() - 1]) >= 0);
    }
}

/// A longer run of hexadecimal digits never denotes a smaller number.
proof fn lemma_hex_value_prefix_monotone(s: Seq<char>, k: int)
    requires
        all_hex_digits(s),
        0 <= k <= s.len(),
    ensures
        hex_value(s.take(k)) <= hex_value(s),
    decreases s.len() - k,
{
    if k < s.len() {
        lemma_hex_value_prefix_monotone(s, k + 1);
        let t = s.take(k + 1);
        assert(t.drop_last() =~= s.take(k));
        assert(all_hex_digits(s.take(k))) by {
            assert forall|i: int| 0 <= i < s.take(k).len() implies hex_digit_value(
                #[trigger] s.take(k)[i],
            ) >= 0 by {
                assert(s.take(k)[i] == s[i]);
            }
        }
        lemma_hex_value_nonneg(s.take(k));
        assert(hex_digit_value(t.last()) >= 0) by {
            assert(t.last() == s[k]);
        }
        assert(s.take(s.len() as int) =~= s);
    } else {
        assert(s.take(k) =~= s);
    }
}

/// Returns `c`'s hexadecimal digit value, or 16 when `c` is not a hexadecimal digit.
fn hex_digit(c: char) -> (d: u32)
    ensures
        hex_digit_value(c) >= 0 ==> d == hex_digit_value(c),
        hex_digit_value(c) < 0 ==> d == 16,
{
    if '0' <= c && c <= '9' {
        (c as u32) - ('0' as u32)
    } else if 'a' <= c && c <= 'f' {
        (c as u32) - ('a' as u32) + 10
    } else if 'A' <= c && c <= 'F' {
        (c as u32) - ('A' as u32) + 10
    } else {
        16
    }
}

/// The index just past the leading runs of the two characters `'0'`, `second`,
/// starting at `start`.
fn skip_leading_pairs(s: &str, len: usize, start: usize, second: char) -> (end: usize)
    requires
        len == s@.len(),
        start <= len,
    ensures
        start <= end <= len,
        s@.skip(end as int) == strip_leading(s@.skip(start as int), seq!['0', second]),
{
    let ghost p = seq!['0', second];
    assert(p.len() == 2 && p[0] == '0' && p[1] == second);
    let mut i: usize = start;
    loop
        invariant
            len == s@.len(),
            start <= i <= len,
            p == seq!['0', second],
            strip_leading(s@.skip(start as int), p) == strip_leading(s@.skip(i as int), p),
        ensures
            start <= i <= len,
            strip_leading(s@.skip(start as int), p) == s@.skip(i as int),
        decreases len - i,
    {
        let ghost r = s@.skip(i as int);
        assert(r.len() == len - i);
        if len - i < 2 {
            assert(!p.is_prefix_of(r));
            break;
        }
        let c0 = s.get_char(i);
        let c1 = s.get_char(i + 1);
        proof {
            assert(r[0] == c0);
            assert(r[1] == c1);
        }
        if c0 != '0' || c1 != second {
            proof {
                if p.is_prefix_of(r) {
                    assert(r.subrange(0, 2)[0] == r[0]);
                    assert(r.subrange(0, 2)[1] == r[1]);
                    assert(false);
                }
            }
            break;
        }
        proof {
            assert(p.is_prefix_of(r)) by {
                assert(r.subrange(0, 2) =~= p);
            }
            assert(r.skip(2) =~= s@.skip(i + 2));
        }
        i = i + 2;
    }
    i
}

/// Parses `s@.skip(start)` in base 16 as `u32::from_str_radix` does.
fn parse_radix16_from(s: &str, len: usize, start: usize) -> (r: Option<u32>)
    requires
        len == s@.len(),
        start <= len,
    ensures
        r == spec_parse_radix16(s@.skip(start as int)),
{
    let ghost t = s@.skip(start as int);
    if start == len {
        return None;
    }
    let first = s.get_char(start);
    if first == '+' && start + 1 == len {
        return None;
    }
    let d: usize = if first == '+' { start + 1 } else { start };
    let ghost digits = s@.skip(d as int);
    assert(digits =~= (if t[0] == '+' { t.drop_first() } else { t }));
    let mut acc: u64 = 0;
    let mut k: usize = d;
    while k < len
        invariant
            len == s@.len(),
            d <= k <= len,
            digits == s@.skip(d as int),
            t == s@.skip(start as int),
            t.len() > 0,
            t[0] == first,
            !(t[0] == '+' && t.len() == 1),
            digits == (if t[0] == '+' { t.drop_first() } else { t }),
            all_hex_digits(digits.take(k - d)),
            acc == hex_value(digits.take(k - d)),
            acc <= u32::MAX,
        decreases len - k,
    {
        let c = s.get_char(k);
        let v: u32 = hex_digit(c);
        let ghost pre = digits.take(k - d);
        let ghost next = digits.take(k + 1 - d);
        proof {
            assert(next.drop_last() =~= pre);
            assert(next.last() == c);
        }
        if v == 16 {
            proof {
                assert(digits[k - d] == c);
                assert(hex_digit_value(c) < 0);
                assert(!all_hex_digits(digits));
                assert(t[0] == first);
            }
            return None;
        }
        let nacc: u64 = acc * 16 + (v as u64);
        if nacc > 0xFFFF_FFFF {
            proof {
                assert(all_hex_digits(next)) by {
                    assert forall|i: int| 0 <= i < next.len() implies hex_digit_value(
                        #[trigger] next[i],
                    ) >= 0 by {
                        if i < next.len() - 1 {
                            assert(next[i] == pre[i]);
                        }
                    }
                }
                assert(hex_value(next) == nacc);
                if all_hex_digits(digits) {
                    lemma_hex_value_prefix_monotone(digits, k + 1 - d);
                    assert(hex_value(digits) > u32::MAX);
                }
                assert(t[0] == first);
            }
            return None;
        }
        proof {
            assert(all_hex_digits(next)) by {
                assert forall|i: int| 0 <= i < next.len() implies hex_digit_value(
                    #[trigger] next[i],
                ) >= 0 by {
                    if i < next.len() - 1 {
                        assert(next[i] == pre[i]);
                    }
                }
            }
        }
        acc = nacc;
        k = k + 1;
    }
    assert(digits.take(len - d) =~= digits);
    Some(acc as u32)
}

/// Parses an ARGB color written in hexadecimal, such as `0xffe1e3e4`.
/// Leading `0x` and `0X` are stripped; the rest must be a base-16 number
/// that fits in 32 bits.
pub fn parse_hex(s: &str) -> (r: Option<u32>)
    ensures
        r == spec_parse_hex(s@),
{
    let len: usize = s.unicode_len();
    let a: usize = skip_leading_pairs(s, len, 0, 'x');
    let b: usize = skip_leading_pairs(s, len, a, 'X');
    assert(s@.skip(0) =~= s@);
    parse_radix16_from(s, len, b)
}

/// A leading `0x` never changes what `parse_hex` reads.
pub proof fn lemma_parse_hex_ignores_0x_prefix(s: Seq<char>)
    ensures
        spec_parse_hex(seq!['0', 'x'] + s) == spec_parse_hex(s),
{
    let p = seq!['0', 'x'];
    let t = p + s;
    assert(p.is_prefix_of(t)) by {
        assert(t.subrange(0, 2) =~= p);
    }
    assert(t.skip(2) =~= s);
}

/// A leading `0X` never changes what `parse_hex` reads, unless what follows
/// starts with `0x` (which is only stripped before the `0X`).
pub proof fn lemma_parse_hex_ignores_0X_prefix(s: Seq<char>)
    requires
        !seq!['0', 'x'].is_prefix_of(s),
    ensures
        spec_parse_hex(seq!['0', 'X'] + s) == spec_parse_hex(s),
{
    let p = seq!['0', 'X'];
    let t = p + s;
    assert(!seq!['0', 'x'].is_prefix_of(t)) by {
        if seq!['0', 'x'].is_prefix_of(t) {
            assert(t.subrange(0, 2)[1] == t[1]);
            assert(seq!['0', 'x'][1] == 'x');
        }
    }
    assert(p.is_prefix_of(t)) by {
        assert(t.subrange(0, 2) =~= p);
    }
    assert(t.skip(2) =~= s);
}

// ── Names in the configuration ───────────────────────────────────────────────

/// Whether two strings hold the same characters.
pub fn str_eq(a: &str, b: &str) -> (r: bool)
    ensures
        r == (a@ == b@),
{
    let n: usize = a.unicode_len();
    let m: usize = b.unicode_len();
    if n != m {
        return false;
    }
    let mut i: usize = 0;
    while i < n
        invariant
            n == a@.len(),
            m == b@.len(),
            n == m,
            i <= n,
            forall|j: int| 0 <= j < i ==> a@[j] == b@[j],
        decreases n - i,
    {
        if a.get_char(i) != b.get_char(i) {
            return false;
        }
        i = i + 1;
    }
    assert(a@ =~= b@);
    true
}

/// The border style a name selects, if any.
pub open spec fn spec_style_from_name(name: Seq<char>) -> Option<BorderStyle> {
    if name == "round"@ {
        Some(BorderStyle::Round)
    } else if name == "square"@ {
        Some(BorderStyle::Square)
    } else if name == "uniform"@ {
        Some(BorderStyle::Uniform)
    } else {
        None
    }
}

/// The border order a name selects, if any.
pub open spec fn spec_order_from_name(name: Seq<char>) -> Option<BorderOrder> {
    if name == "above"@ {
        Some(BorderOrder::Above)
    } else if name == "below"@ {
        Some(BorderOrder::Below)
    } else {
        None
    }
}

/// The style named `round`, `square` or `uniform`.
pub fn style_from_name(name: &str) -> (r: Option<BorderStyle>)
    ensures
        r == spec_style_from_name(name@),
{
    if str_eq(name, "round") {
        Some(BorderStyle::Round)
    } else if str_eq(name, "square") {
        Some(BorderStyle::Square)
    } else if str_eq(name, "uniform") {
        Some(BorderStyle::Uniform)
    } else {
        None
    }
}

/// The order named `above` or `below`.
pub fn order_from_name(name: &str) -> (r: Option<BorderOrder>)
    ensures
        r == spec_order_from_name(name@),
{
    if str_eq(name, "above") {
        Some(BorderOrder::Above)
    } else if str_eq(name, "below") {
        Some(BorderOrder::Below)
    } else {
        None
    }
}

// ── Configuration file ───────────────────────────────────────────────────────

/// Overrides read from the configuration file; absent keys change nothing.
#[derive(Debug, Clone)]
pub struct ConfigFile {
    pub style: Option<String>,
    /// Bit pattern of the border width in points.
    pub width_bits: Option<u32>,
    pub hidpi: Option<bool>,
    pub active_color: Option<String>,
    pub inactive_color: Option<String>,
    pub order: Option<String>,
}

impl Default for ConfigFile {
    fn default() -> (c: Self)
        ensures
            c.style is None,
            c.width_bits is None,
            c.hidpi is None,
            c.active_color is None,
            c.inactive_color is None,
            c.order is None,
    {
        ConfigFile {
            style: None,
            width_bits: None,
            hidpi: None,
            active_color: None,
            inactive_color: None,
            order: None,
        }
    }
}

/// The style after a possible override by name: an unknown name keeps the current one.
pub open spec fn style_after(name: Option<String>, current: BorderStyle) -> BorderStyle {
    match name {
        Some(n) => match spec_style_from_name(n@) {
            Some(st) => st,
            None => current,
        },
        None => current,
    }
}

/// The order after a possible override by name: an unknown name keeps the current one.
pub open spec fn order_after(name: Option<String>, current: BorderOrder) -> BorderOrder {
    match name {
        Some(n) => match spec_order_from_name(n@) {
            Some(o) => o,
            None => current,
        },
        None => current,
    }
}

/// The color after a possible override by a hexadecimal string: a string
/// that does not parse keeps the current color.
pub open spec fn color_after(hex: Option<String>, current: ColorSpec) -> ColorSpec {
    match hex {
        Some(h) => match spec_parse_hex(h@) {
            Some(c) => ColorSpec::Solid { color: c },
            None => current,
        },
        None => current,
    }
}

/// A plain value after a possible override.
pub open spec fn value_after<T>(v: Option<T>, current: T) -> T {
    match v {
        Some(x) => x,
        None => current,
    }
}

impl ConfigFile {
    /// The settings that result from applying this configuration to `s`.
    pub open spec fn spec_apply(self, s: Settings) -> Settings {
        Settings {
            style: style_after(self.style, s.style),
            width_bits: value_after(self.width_bits, s.width_bits),
            hidpi: value_after(self.hidpi, s.hidpi),
            colors: WindowColors {
                active: color_after(self.active_color, s.colors.active),
                inactive: color_after(self.inactive_color, s.colors.inactive),
                background: s.colors.background,
            },
            blur_radius_bits: s.blur_radius_bits,
            show_background: s.show_background,
            border_order: order_after(self.order, s.border_order),
            blacklist: s.blacklist,
            whitelist: s.whitelist,
        }
    }

    /// Applies the keys present in this configuration to `settings`.
    pub fn apply(&self, settings: &mut Settings)
        ensures
            *final(settings) == self.spec_apply(*old(settings)),
    {
        if let Some(s) = &self.style {
            if let Some(st) = style_from_name(s.as_str()) {
                settings.style = st;
            }
        }
        if let Some(w) = self.width_bits {
            settings.width_bits = w;
        }
        if let Some(h) = self.hidpi {
            settings.hidpi = h;
        }
        if let Some(c) = &self.active_color {
            if let Some(hex) = parse_hex(c.as_str()) {
                settings.colors.active = ColorSpec::Solid { color: hex };
            }
        }
        if let Some(c) = &self.inactive_color {
            if let Some(hex) = parse_hex(c.as_str()) {
                settings.colors.inactive = ColorSpec::Solid { color: hex };
            }
        }
        if let Some(o) = &self.order {
            if let Some(ord) = order_from_name(o.as_str()) {
                settings.border_order = ord;
            }
        }
    }
}

/// Applying the same configuration twice gives the same settings as applying it once.
pub proof fn lemma_apply_idempotent(cfg: ConfigFile, s: Settings)
    ensures
        cfg.spec_apply(cfg.spec_apply(s)) == cfg.spec_apply(s),
{
}

/// An empty configuration changes nothing.
pub proof fn lemma_apply_empty_is_identity(cfg: ConfigFile, s: Settings)
    requires
        cfg.style is None,
        cfg.width_bits is None,
        cfg.hidpi is None,
        cfg.active_color is None,
        cfg.inactive_color is None,
        cfg.order is None,
    ensures
        cfg.spec_apply(s) == s,
{
}

/// A key given by a later configuration wins over the same key given by an
/// earlier one (command-line options over the configuration file), as long
/// as the later value is valid; other keys keep the earlier value.
pub proof fn lemma_later_config_wins(first: ConfigFile, second: ConfigFile, s: Settings)
    ensures
        ({
            let both = second.spec_apply(first.spec_apply(s));
            let early = first.spec_apply(s);
            &&& second.style matches Some(n) ==> (spec_style_from_name(n@) matches Some(st)
                ==> both.style == st)
            &&& second.style is None ==> both.style == early.style
            &&& second.width_bits matches Some(w) ==> both.width_bits == w
            &&& second.width_bits is None ==> both.width_bits == early.width_bits
            &&& second.hidpi matches Some(h) ==> both.hidpi == h
            &&& second.hidpi is None ==> both.hidpi == early.hidpi
            &&& second.active_color matches Some(c) ==> (spec_parse_hex(c@) matches Some(v)
                ==> both.colors.active == (ColorSpec::Solid { color: v }))
            &&& second.active_color is None ==> both.colors.active == early.colors.active
            &&& second.inactive_color matches Some(c) ==> (spec_parse_hex(c@) matches Some(v)
                ==> both.colors.inactive == (ColorSpec::Solid { color: v }))
            &&& second.inactive_color is None ==> both.colors.inactive == early.colors.inactive
            &&& second.order matches Some(n) ==> (spec_order_from_name(n@) matches Some(o)
                ==> both.border_order == o)
            &&& second.order is None ==> both.border_order == early.border_order
        }),
{
}

// ── Writing colors back ──────────────────────────────────────────────────────

/// The lowercase hexadecimal digits, by value.
pub open spec fn hex_chars() -> Seq<char> {
    seq!['0', '1', '2', '3', '4', '5', '6', '7', '8', '9', 'a', 'b', 'c', 'd', 'e', 'f']
}

/// `v` written with exactly `n` lowercase hexadecimal digits (most significant
/// first), as `format!("{:0n$x}", v)` writes a value below 16^n.
pub open spec fn hex_digits_of(v: nat, n: nat) -> Seq<char>
    decreases n,
{
    if n == 0 {
        Seq::empty()
    } else {
        hex_digits_of(v / 16, (n - 1) as nat).push(hex_chars()[(v % 16) as int])
    }
}

/// 16 to the power `n`.
pub open spec fn pow16(n: nat) -> nat
    decreases n,
{
    if n == 0 {
        1
    } else {
        16 * pow16((n - 1) as nat)
    }
}

proof fn lemma_hex_chars_values(d: int)
    requires
        0 <= d < 16,
    ensures
        hex_digit_value(hex_chars()[d]) == d,
{
    let h = hex_chars();
    assert(h[0] == '0' && h[1] == '1' && h[2] == '2' && h[3] == '3' && h[4] == '4' && h[5] == '5'
        && h[6] == '6' && h[7] == '7' && h[8] == '8' && h[9] == '9' && h[10] == 'a' && h[11] == 'b'
        && h[12] == 'c' && h[13] == 'd' && h[14] == 'e' && h[15] == 'f');
}

proof fn lemma_hex_digits_of(v: nat, n: nat)
    requires
        v < pow16(n),
    ensures
        hex_digits_of(v, n).len() == n,
        all_hex_digits(hex_digits_of(v, n)),
        hex_value(hex_digits_of(v, n)) == v,
    decreases n,
{
    if n > 0 {
        let q = v / 16;
        let r = v % 16;
        assert(q < pow16((n - 1) as nat));
        lemma_hex_digits_of(q, (n - 1) as nat);
        let pre = hex_digits_of(q, (n - 1) as nat);
        let s = hex_digits_of(v, n);
        lemma_hex_chars_values(r as int);
        assert(s.drop_last() =~= pre);
        assert forall|i: int| 0 <= i < s.len() implies hex_digit_value(#[trigger] s[i]) >= 0 by {
            if i < s.len() - 1 {
                assert(s[i] == pre[i]);
            }
        }
    }
}

/// Writing a color as `0x` followed by its eight lowercase hexadecimal digits
/// and parsing it back gives the same color.
pub proof fn lemma_parse_hex_reads_written_color(v: u32)
    ensures
        spec_parse_hex(seq!['0', 'x'] + hex_digits_of(v as nat, 8)) == Some(v),
{
    let h = hex_digits_of(v as nat, 8);
    assert(pow16(8) == 0x1_0000_0000) by {
        reveal_with_fuel(pow16, 9);
    }
    lemma_hex_digits_of(v as nat, 8);
    lemma_parse_hex_ignores_0x_prefix(h);
    assert(hex_digit_value(h[1]) >= 0);
    assert(hex_digit_value(h[0]) >= 0);
    assert(!seq!['0', 'x'].is_prefix_of(h)) by {
        if seq!['0', 'x'].is_prefix_of(h) {
            assert(h.subrange(0, 2)[1] == h[1]);
        }
    }
    assert(!seq!['0', 'X'].is_prefix_of(h)) by {
        if seq!['0', 'X'].is_prefix_of(h) {
            assert(h.subrange(0, 2)[1] == h[1]);
        }
    }
}

/// Round borders follow the window's own radius, whatever it is; square
/// borders use 0.0 (bits 0) and uniform borders 9.0 (bits 0x4110_0000),
/// whatever the window's radius.
pub proof fn lemma_corner_radius_by_style(r: u32, other: u32)
    ensures
        spec_corner_radius(BorderStyle::Round, r) == r,
        spec_corner_radius(BorderStyle::Square, r) == 0,
        spec_corner_radius(BorderStyle::Uniform, r) == 0x4110_0000,
        spec_corner_radius(BorderStyle::Square, r) == spec_corner_radius(BorderStyle::Square, other),
        spec_corner_radius(BorderStyle::Uniform, r) == spec_corner_radius(BorderStyle::Uniform, other),
{
}

/// The names `round`, `square` and `uniform` select their styles, `above`
/// and `below` their orders, and no other name selects anything.
pub proof fn lemma_names(name: Seq<char>)
    ensures
        spec_style_from_name("round"@) == Some(BorderStyle::Round),
        spec_style_from_name("square"@) == Some(BorderStyle::Square),
        spec_style_from_name("uniform"@) == Some(BorderStyle::Uniform),
        (name != "round"@ && name != "square"@ && name != "uniform"@) ==> spec_style_from_name(name) is None,
        spec_order_from_name("above"@) == Some(BorderOrder::Above),
        spec_order_from_name("below"@) == Some(BorderOrder::Below),
        (name != "above"@ && name != "below"@) ==> spec_order_from_name(name) is None,
{
    reveal_strlit("round");
    reveal_strlit("square");
    reveal_strlit("uniform");
    reveal_strlit("above");
    reveal_strlit("below");
    assert("round"@ != "square"@) by { assert("round"@[0] != "square"@[0]); }
    assert("round"@ != "uniform"@) by { assert("round"@[0] != "uniform"@[0]); }
    assert("square"@ != "uniform"@) by { assert("square"@[0] != "uniform"@[0]); }
    assert("above"@ != "below"@) by { assert("above"@[0] != "below"@[0]); }
}

/// What applying a configuration does to each setting: a present key with a
/// valid value replaces the setting, an absent or invalid one keeps it, and
/// the settings the configuration cannot name are never touched.
pub proof fn lemma_apply_fields(cfg: ConfigFile, s: Settings)
    ensures
        ({
            let r = cfg.spec_apply(s);
            &&& cfg.style matches Some(n) ==> (spec_style_from_name(n@) matches Some(st) ==> r.style == st)
            &&& cfg.style matches Some(n) ==> (spec_style_from_name(n@) is None ==> r.style == s.style)
            &&& cfg.style is None ==> r.style == s.style
            &&& cfg.width_bits matches Some(w) ==> r.width_bits == w
            &&& cfg.width_bits is None ==> r.width_bits == s.width_bits
            &&& cfg.hidpi matches Some(h) ==> r.hidpi == h
            &&& cfg.hidpi is None ==> r.hidpi == s.hidpi
            &&& cfg.active_color matches Some(c) ==> (spec_parse_hex(c@) matches Some(v) ==> r.colors.active
                == (ColorSpec::Solid { color: v }))
            &&& cfg.active_color matches Some(c) ==> (spec_parse_hex(c@) is None ==> r.colors.active
                == s.colors.active)
            &&& cfg.active_color is None ==> r.colors.active == s.colors.active
            &&& cfg.inactive_color matches Some(c) ==> (spec_parse_hex(c@) matches Some(v) ==> r.colors.inactive
                == (ColorSpec::Solid { color: v }))
            &&& cfg.inactive_color matches Some(c) ==> (spec_parse_hex(c@) is None ==> r.colors.inactive
                == s.colors.inactive)
            &&& cfg.inactive_color is None ==> r.colors.inactive == s.colors.inactive
            &&& cfg.order matches Some(n) ==> (spec_order_from_name(n@) matches Some(o) ==> r.border_order == o)
            &&& cfg.order matches Some(n) ==> (spec_order_from_name(n@) is None ==> r.border_order == s.border_order)
            &&& cfg.order is None ==> r.border_order == s.border_order
            &&& r.colors.background == s.colors.background
            &&& r.blur_radius_bits == s.blur_radius_bits
            &&& r.show_background == s.show_background
            &&& r.blacklist == s.blacklist
            &&& r.whitelist == s.whitelist
        }),
{
}

/// A run of hexadecimal digits that does not start with `0` and denotes a
/// 32-bit number reads as that number, with or without a leading `0x`.
pub proof fn lemma_parse_hex_digits(d: Seq<char>)
    requires
        0 < d.len(),
        all_hex_digits(d),
        hex_value(d) <= u32::MAX,
        d[0] != '0',
    ensures
        spec_parse_hex(d) == Some(hex_value(d) as u32),
        spec_parse_hex(seq!['0', 'x'] + d) == Some(hex_value(d) as u32),
{
    assert(!seq!['0', 'x'].is_prefix_of(d)) by {
        if seq!['0', 'x'].is_prefix_of(d) {
            assert(d.subrange(0, 2)[0] == d[0]);
        }
    }
    assert(!seq!['0', 'X'].is_prefix_of(d)) by {
        if seq!['0', 'X'].is_prefix_of(d) {
            assert(d.subrange(0, 2)[0] == d[0]);
        }
    }
    assert(hex_digit_value(d[0]) >= 0);
    lemma_parse_hex_ignores_0x_prefix(d);
}

/// The digits `0`-`9`, `a`-`f` and `A`-`F` have their usual values (either
/// case alike); every value is below 16.
pub proof fn lemma_hex_digit_values(c: char)
    ensures
        hex_digit_value(c) < 16,
        hex_digit_value('0') == 0 && hex_digit_value('9') == 9,
        hex_digit_value('a') == 10 && hex_digit_value('A') == 10,
        hex_digit_value('f') == 15 && hex_digit_value('F') == 15,
        hex_digit_value('g') < 0 && hex_digit_value('G') < 0 && hex_digit_value('x') < 0
            && hex_digit_value('X') < 0 && hex_digit_value('+') < 0 && hex_digit_value('-') < 0
            && hex_digit_value(' ') < 0,
        ('a' <= c <= 'f') ==> hex_digit_value(c) == hex_digit_value((c as u32 - 32) as char),
{
}

/// What `parse_hex` refuses, once the prefixes are stripped: an empty rest,
/// a lone `+`, a character that is not a hexadecimal digit, or a number that
/// does not fit in 32 bits.
pub proof fn lemma_parse_radix16_rejects(t: Seq<char>, i: int)
    ensures
        t.len() == 0 ==> spec_parse_radix16(t) is None,
        t =~= seq!['+'] ==> spec_parse_radix16(t) is None,
        (0 < i < t.len() || (i == 0 && t.len() > 0 && t[0] != '+')) && hex_digit_value(t[i]) < 0
            ==> spec_parse_radix16(t) is None,
        (t.len() > 0 && t[0] != '+' && all_hex_digits(t) && hex_value(t) > u32::MAX)
            ==> spec_parse_radix16(t) is None,
        spec_parse_radix16(t) matches Some(v) ==> t.len() > 0,
{
    if t.len() > 0 && t[0] == '+' && 0 < i < t.len() && hex_digit_value(t[i]) < 0 && t.len() > 1 {
        assert(t.drop_first()[i - 1] == t[i]);
    }
}

} // verus!

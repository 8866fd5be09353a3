use std::str::FromStr;

use vstd::prelude::*;

use crate::text::{all_ascii, chars_eq_str, chars_of, text_view, to_lowercase, unicode_lowercase};

verus! {

/// Custom colors configuration for advanced styling.
///
/// Each value is a terminal color name or a `#RRGGBB` / `RRGGBB` hex code.
#[derive(Debug, Clone)]
pub struct CustomColors {
    pub tomato_red: Option<String>,
    pub nature_green: Option<String>,
    pub accent_purple: Option<String>,
    pub dark_bg: Option<String>,
    pub dark_base: Option<String>,
    pub border_dim: Option<String>,
    pub border_glow: Option<String>,
    pub muted_text: Option<String>,
    pub progress_bg: Option<String>,
    pub soft_white: Option<String>,
    pub warm_yellow: Option<String>,
}


/// A 24-bit color.
#[derive(Debug, Clone, Copy, PartialEq, Eq, Structural)]
pub struct Rgb {
    pub r: u8,
    pub g: u8,
    pub b: u8,
}

/// The eleven colors of a theme.
#[derive(Debug, Clone, Copy, PartialEq, Eq, Structural)]
pub struct Palette {
    pub tomato_red: Rgb,
    pub nature_green: Rgb,
    pub accent_purple: Rgb,
    pub dark_bg: Rgb,
    pub dark_base: Rgb,
    pub border_dim: Rgb,
    pub border_glow: Rgb,
    pub muted_text: Rgb,
    pub progress_bg: Rgb,
    pub soft_white: Rgb,
    pub warm_yellow: Rgb,
}

/// The built-in themes.
#[derive(Debug, Clone, Copy, PartialEq, Eq, Structural)]
pub enum ThemePreset {
    Default,
    Nord,
    Dracula,
    Gruvbox,
    Monochrome,
}

/// The theme a (lowercased) name picks; anything unknown is the default.
pub open spec fn preset_for(key: Seq<char>) -> ThemePreset {
    if key == "nord"@ {
        ThemePreset::Nord
    } else if key == "dracula"@ {
        ThemePreset::Dracula
    } else if key == "gruvbox"@ {
        ThemePreset::Gruvbox
    } else if key == "monochrome"@ {
        ThemePreset::Monochrome
    } else {
        ThemePreset::Default
    }
}

/// The colors of each built-in theme.
pub open spec fn palette_of(p: ThemePreset) -> Palette {
    match p {
        ThemePreset::Default => Palette {
            tomato_red: Rgb { r: 192u8, g: 57u8, b: 43u8 },
            nature_green: Rgb { r: 39u8, g: 174u8, b: 96u8 },
            accent_purple: Rgb { r: 142u8, g: 68u8, b: 173u8 },
            dark_bg: Rgb { r: 20u8, g: 30u8, b: 40u8 },
            dark_base: Rgb { r: 28u8, g: 40u8, b: 51u8 },
            border_dim: Rgb { r: 52u8, g: 73u8, b: 94u8 },
            border_glow: Rgb { r: 80u8, g: 110u8, b: 140u8 },
            muted_text: Rgb { r: 127u8, g: 140u8, b: 141u8 },
            progress_bg: Rgb { r: 44u8, g: 62u8, b: 80u8 },
            soft_white: Rgb { r: 236u8, g: 240u8, b: 241u8 },
            warm_yellow: Rgb { r: 243u8, g: 156u8, b: 18u8 },
        },
        ThemePreset::Nord => Palette {
            tomato_red: Rgb { r: 191u8, g: 97u8, b: 106u8 },
            nature_green: Rgb { r: 163u8, g: 190u8, b: 140u8 },
            accent_purple: Rgb { r: 180u8, g: 142u8, b: 173u8 },
            dark_bg: Rgb { r: 46u8, g: 52u8, b: 64u8 },
            dark_base: Rgb { r: 59u8, g: 66u8, b: 82u8 },
            border_dim: Rgb { r: 76u8, g: 86u8, b: 106u8 },
            border_glow: Rgb { r: 136u8, g: 192u8, b: 208u8 },
            muted_text: Rgb { r: 216u8, g: 222u8, b: 233u8 },
            progress_bg: Rgb { r: 67u8, g: 76u8, b: 94u8 },
            soft_white: Rgb { r: 236u8, g: 239u8, b: 244u8 },
            warm_yellow: Rgb { r: 235u8, g: 203u8, b: 139u8 },
        },
        ThemePreset::Dracula => Palette {
            tomato_red: Rgb { r: 255u8, g: 85u8, b: 85u8 },
            nature_green: Rgb { r: 80u8, g: 250u8, b: 123u8 },
            accent_purple: Rgb { r: 189u8, g: 147u8, b: 249u8 },
            dark_bg: Rgb { r: 40u8, g: 42u8, b: 54u8 },
            dark_base: Rgb { r: 30u8, g: 31u8, b: 41u8 },
            border_dim: Rgb { r: 68u8, g: 71u8, b: 90u8 },
            border_glow: Rgb { r: 255u8, g: 121u8, b: 198u8 },
            muted_text: Rgb { r: 98u8, g: 114u8, b: 164u8 },
            progress_bg: Rgb { r: 68u8, g: 71u8, b: 90u8 },
            soft_white: Rgb { r: 248u8, g: 248u8, b: 242u8 },
            warm_yellow: Rgb { r: 241u8, g: 250u8, b: 140u8 },
        },
        ThemePreset::Gruvbox => Palette {
            tomato_red: Rgb { r: 204u8, g: 36u8, b: 29u8 },
            nature_green: Rgb { r: 152u8, g: 151u8, b: 26u8 },
            accent_purple: Rgb { r: 177u8, g: 98u8, b: 134u8 },
            dark_bg: Rgb { r: 40u8, g: 40u8, b: 40u8 },
            dark_base: Rgb { r: 29u8, g: 32u8, b: 33u8 },
            border_dim: Rgb { r: 102u8, g: 92u8, b: 84u8 },
            border_glow: Rgb { r: 215u8, g: 153u8, b: 33u8 },
            muted_text: Rgb { r: 146u8, g: 131u8, b: 116u8 },
            progress_bg: Rgb { r: 60u8, g: 56u8, b: 54u8 },
            soft_white: Rgb { r: 235u8, g: 219u8, b: 178u8 },
            warm_yellow: Rgb { r: 250u8, g: 189u8, b: 47u8 },
        },
        ThemePreset::Monochrome => Palette {
            tomato_red: Rgb { r: 255u8, g: 255u8, b: 255u8 },
            nature_green: Rgb { r: 200u8, g: 200u8, b: 200u8 },
            accent_purple: Rgb { r: 150u8, g: 150u8, b: 150u8 },
            dark_bg: Rgb { r: 0u8, g: 0u8, b: 0u8 },
            dark_base: Rgb { r: 20u8, g: 20u8, b: 20u8 },
            border_dim: Rgb { r: 80u8, g: 80u8, b: 80u8 },
            border_glow: Rgb { r: 255u8, g: 255u8, b: 255u8 },
            muted_text: Rgb { r: 120u8, g: 120u8, b: 120u8 },
            progress_bg: Rgb { r: 40u8, g: 40u8, b: 40u8 },
            soft_white: Rgb { r: 255u8, g: 255u8, b: 255u8 },
            warm_yellow: Rgb { r: 200u8, g: 200u8, b: 200u8 },
        },
    }
}

impl ThemePreset {
    /// The built-in theme a name picks, ignoring case.
    pub fn from_name(name: &str) -> (p: Self)
        ensures
            p == preset_for(unicode_lowercase(name@)),
    {
        let key = to_lowercase(name);
        let k = chars_of(key.as_str());
        if chars_eq_str(&k, "nord") {
            ThemePreset::Nord
        } else if chars_eq_str(&k, "dracula") {
            ThemePreset::Dracula
        } else if chars_eq_str(&k, "gruvbox") {
            ThemePreset::Gruvbox
        } else if chars_eq_str(&k, "monochrome") {
            ThemePreset::Monochrome
        } else {
            ThemePreset::Default
        }
    }

    /// The colors of this theme.
    pub fn palette(self) -> (c: Palette)
        ensures
            c == palette_of(self),
    {
        match self {
            ThemePreset::Default => Palette {
                tomato_red: Rgb { r: 192, g: 57, b: 43 },
                nature_green: Rgb { r: 39, g: 174, b: 96 },
                accent_purple: Rgb { r: 142, g: 68, b: 173 },
                dark_bg: Rgb { r: 20, g: 30, b: 40 },
                dark_base: Rgb { r: 28, g: 40, b: 51 },
                border_dim: Rgb { r: 52, g: 73, b: 94 },
                border_glow: Rgb { r: 80, g: 110, b: 140 },
                muted_text: Rgb { r: 127, g: 140, b: 141 },
                progress_bg: Rgb { r: 44, g: 62, b: 80 },
                soft_white: Rgb { r: 236, g: 240, b: 241 },
                warm_yellow: Rgb { r: 243, g: 156, b: 18 },
            },
            ThemePreset::Nord => Palette {
                tomato_red: Rgb { r: 191, g: 97, b: 106 },
                nature_green: Rgb { r: 163, g: 190, b: 140 },
                accent_purple: Rgb { r: 180, g: 142, b: 173 },
                dark_bg: Rgb { r: 46, g: 52, b: 64 },
                dark_base: Rgb { r: 59, g: 66, b: 82 },
                border_dim: Rgb { r: 76, g: 86, b: 106 },
                border_glow: Rgb { r: 136, g: 192, b: 208 },
                muted_text: Rgb { r: 216, g: 222, b: 233 },
                progress_bg: Rgb { r: 67, g: 76, b: 94 },
                soft_white: Rgb { r: 236, g: 239, b: 244 },
                warm_yellow: Rgb { r: 235, g: 203, b: 139 },
            },
            ThemePreset::Dracula => Palette {
                tomato_red: Rgb { r: 255, g: 85, b: 85 },
                nature_green: Rgb { r: 80, g: 250, b: 123 },
                accent_purple: Rgb { r: 189, g: 147, b: 249 },
                dark_bg: Rgb { r: 40, g: 42, b: 54 },
                dark_base: Rgb { r: 30, g: 31, b: 41 },
                border_dim: Rgb { r: 68, g: 71, b: 90 },
                border_glow: Rgb { r: 255, g: 121, b: 198 },
                muted_text: Rgb { r: 98, g: 114, b: 164 },
                progress_bg: Rgb { r: 68, g: 71, b: 90 },
                soft_white: Rgb { r: 248, g: 248, b: 242 },
                warm_yellow: Rgb { r: 241, g: 250, b: 140 },
            },
            ThemePreset::Gruvbox => Palette {
                tomato_red: Rgb { r: 204, g: 36, b: 29 },
                nature_green: Rgb { r: 152, g: 151, b: 26 },
                accent_purple: Rgb { r: 177, g: 98, b: 134 },
                dark_bg: Rgb { r: 40, g: 40, b: 40 },
                dark_base: Rgb { r: 29, g: 32, b: 33 },
                border_dim: Rgb { r: 102, g: 92, b: 84 },
                border_glow: Rgb { r: 215, g: 153, b: 33 },
                muted_text: Rgb { r: 146, g: 131, b: 116 },
                progress_bg: Rgb { r: 60, g: 56, b: 54 },
                soft_white: Rgb { r: 235, g: 219, b: 178 },
                warm_yellow: Rgb { r: 250, g: 189, b: 47 },
            },
            ThemePreset::Monochrome => Palette {
                tomato_red: Rgb { r: 255, g: 255, b: 255 },
                nature_green: Rgb { r: 200, g: 200, b: 200 },
                accent_purple: Rgb { r: 150, g: 150, b: 150 },
                dark_bg: Rgb { r: 0, g: 0, b: 0 },
                dark_base: Rgb { r: 20, g: 20, b: 20 },
                border_dim: Rgb { r: 80, g: 80, b: 80 },
                border_glow: Rgb { r: 255, g: 255, b: 255 },
                muted_text: Rgb { r: 120, g: 120, b: 120 },
                progress_bg: Rgb { r: 40, g: 40, b: 40 },
                soft_white: Rgb { r: 255, g: 255, b: 255 },
                warm_yellow: Rgb { r: 200, g: 200, b: 200 },
            },
        }
    }
}

/// The value of a hexadecimal digit, if `c` is one.
pub open spec fn hex_value(c: char) -> Option<nat> {
    if '0' <= c && c <= '9' {
        Some((c as nat - '0' as nat) as nat)
    } else if 'a' <= c && c <= 'f' {
        Some((c as nat - 'a' as nat + 10) as nat)
    } else if 'A' <= c && c <= 'F' {
        Some((c as nat - 'A' as nat + 10) as nat)
    } else {
        None
    }
}

/// The byte two characters spell in base 16, as `u8::from_str_radix`
/// reads them: two hex digits, or a `+` sign and one hex digit.
pub open spec fn hex_pair(a: char, b: char) -> Option<nat> {
    match (hex_value(a), hex_value(b)) {
        (Some(x), Some(y)) => Some(16 * x + y),
        (None, Some(y)) => if a == '+' {
            Some(y)
        } else {
            None
        },
        _ => None,
    }
}

/// `s` without one leading `#`.
pub open spec fn strip_hash(s: Seq<char>) -> Seq<char> {
    if s.len() > 0 && s[0] == '#' {
        s.drop_first()
    } else {
        s
    }
}

/// The color a `RRGGBB` or `#RRGGBB` code spells, if it is one.
pub open spec fn hex_color(s: Seq<char>) -> Option<Rgb> {
    let t = strip_hash(s);
    if t.len() == 6 && all_ascii(t) {
        match (hex_pair(t[0], t[1]), hex_pair(t[2], t[3]), hex_pair(t[4], t[5])) {
            (Some(r), Some(g), Some(b)) => Some(Rgb { r: r as u8, g: g as u8, b: b as u8 }),
            _ => None,
        }
    } else {
        None
    }
}

fn hex_digit(c: char) -> (v: Option<u8>)
    ensures
        match hex_value(c) {
            Some(x) => v == Some(x as u8),
            None => v is None,
        },
{
    if '0' <= c && c <= '9' {
        Some((c as u8) - 48)
    } else if 'a' <= c && c <= 'f' {
        Some((c as u8) - 87)
    } else if 'A' <= c && c <= 'F' {
        Some((c as u8) - 55)
    } else {
        None
    }
}

fn pair_value(a: char, b: char) -> (v: Option<u8>)
    ensures
        match hex_pair(a, b) {
            Some(x) => v == Some(x as u8) && x < 256,
            None => v is None,
        },
{
    match (hex_digit(a), hex_digit(b)) {
        (Some(x), Some(y)) => Some(16 * x + y),
        (None, Some(y)) => if a == '+' {
            Some(y)
        } else {
            None
        },
        _ => None,
    }
}

/// Parse a `RRGGBB` or `#RRGGBB` hex code: the fallback for color values
/// that are not terminal color names.
///
/// The code is cut into byte pairs, so a non-ASCII value whose UTF-8 bytes
/// would be cut inside a character is not accepted by `requires`.
pub fn parse_hex_color(s: &str) -> (c: Option<Rgb>)
    requires
        hex_cuts_ok(s@),
    ensures
        c == hex_color(s@),
{
    let v = chars_of(s);
    let mut t: Vec<char> = Vec::new();
    let start: usize = if v.len() > 0 && v[0] == '#' {
        1
    } else {
        0
    };
    let mut i = start;
    while i < v.len()
        invariant
            start <= i <= v.len(),
            v@ == s@,
            start == (if v@.len() > 0 && v@[0] == '#' { 1usize } else { 0usize }),
            t@ == v@.subrange(start as int, i as int),
        decreases v.len() - i,
    {
        t.push(v[i]);
        i = i + 1;
        proof {
            assert(t@ =~= v@.subrange(start as int, i as int));
        }
    }
    proof {
        assert(t@ =~= strip_hash(s@));
    }
    if t.len() != 6 {
        return None;
    }
    let mut k: usize = 0;
    while k < 6
        invariant
            k <= 6,
            t@.len() == 6,
            t@ == strip_hash(s@),
            forall|j: int| 0 <= j < k ==> (#[trigger] t@[j] as u32) < 128,
        decreases 6 - k,
    {
        if (t[k] as u32) >= 128 {
            proof {
                assert(!all_ascii(strip_hash(s@)));
            }
            return None;
        }
        k = k + 1;
    }
    match (pair_value(t[0], t[1]), pair_value(t[2], t[3]), pair_value(t[4], t[5])) {
        (Some(r), Some(g), Some(b)) => Some(Rgb { r, g, b }),
        _ => None,
    }
}

/// The parse of `parse_hex_color` cuts the code into byte pairs; this says
/// the cuts fall between characters whenever the code is six bytes long.
pub open spec fn hex_cuts_ok(s: Seq<char>) -> bool {
    let bytes = vstd::utf8::encode_utf8(strip_hash(s));
    bytes.len() == 6 ==> vstd::utf8::is_char_boundary(bytes, 2) && vstd::utf8::is_char_boundary(
        bytes,
        4,
    )
}

/// Whether ratatui reads `s` as a terminal color (a color name such as
/// `red` or `light-blue`, a palette index such as `42`, or `#rrggbb`).
pub uninterp spec fn terminal_color_name(s: Seq<char>) -> bool;

/// Whether the terminal library reads `s` as a color.
///
/// Trusted: calls ratatui's `Color::from_str` and reports whether it
/// returned `Ok`. The contract names the answer `terminal_color_name(s@)`;
/// which names ratatui accepts is not stated.
#[verifier::external_body]
fn reads_as_terminal_color(s: &str) -> (b: bool)
    ensures
        b == terminal_color_name(s@),
{
    ratatui::style::Color::from_str(s).is_ok()
}

/// One color of a theme: an RGB value, or a value the terminal library
/// reads as a color by itself (a name, an index or a `#rrggbb` code).
#[derive(Debug, Clone)]
pub enum Paint {
    Rgb(Rgb),
    Named(String),
}

/// What one color slot holds: the theme's own color, unless the custom
/// value is one the terminal library reads, or else a hex code.
pub open spec fn paint_for(theme: Rgb, custom: Option<Seq<char>>) -> (bool, Option<Rgb>) {
    match custom {
        Some(s) => if terminal_color_name(s) {
            (true, None)
        } else {
            match hex_color(s) {
                Some(c) => (false, Some(c)),
                None => (false, Some(theme)),
            }
        },
        None => (false, Some(theme)),
    }
}

/// `p` is what a slot with theme color `theme` and custom value `custom`
/// holds (see `paint_for`): the custom text itself when the terminal
/// library reads it, else the RGB color.
pub open spec fn paint_ok(p: Paint, theme: Rgb, custom: Option<String>) -> bool {
    let (named, rgb) = paint_for(theme, text_view(custom));
    if named {
        &&& custom is Some
        &&& p matches Paint::Named(t) && t@ == custom->0@
    } else {
        p == Paint::Rgb(rgb->0)
    }
}

/// Every custom value that is set can be cut as a hex code.
pub open spec fn custom_cuts_ok(c: CustomColors) -> bool {
    &&& (c.tomato_red matches Some(s) ==> hex_cuts_ok(s@))
    &&& (c.nature_green matches Some(s) ==> hex_cuts_ok(s@))
    &&& (c.accent_purple matches Some(s) ==> hex_cuts_ok(s@))
    &&& (c.dark_bg matches Some(s) ==> hex_cuts_ok(s@))
    &&& (c.dark_base matches Some(s) ==> hex_cuts_ok(s@))
    &&& (c.border_dim matches Some(s) ==> hex_cuts_ok(s@))
    &&& (c.border_glow matches Some(s) ==> hex_cuts_ok(s@))
    &&& (c.muted_text matches Some(s) ==> hex_cuts_ok(s@))
    &&& (c.progress_bg matches Some(s) ==> hex_cuts_ok(s@))
    &&& (c.soft_white matches Some(s) ==> hex_cuts_ok(s@))
    &&& (c.warm_yellow matches Some(s) ==> hex_cuts_ok(s@))
}

/// The color one slot ends up with (see `paint_ok`).
pub fn pick_paint(theme: Rgb, custom: &Option<String>) -> (p: Paint)
    requires
        custom matches Some(s) ==> hex_cuts_ok(s@),
    ensures
        paint_ok(p, theme, *custom),
{
    match custom {
        Some(s) => {
            if reads_as_terminal_color(s.as_str()) {
                Paint::Named(s.clone())
            } else {
                match parse_hex_color(s.as_str()) {
                    Some(c) => Paint::Rgb(c),
                    None => Paint::Rgb(theme),
                }
            }
        },
        None => Paint::Rgb(theme),
    }
}

/// The colors the interface is drawn with.
#[derive(Debug, Clone)]
pub struct ThemeColors {
    pub tomato_red: Paint,
    pub nature_green: Paint,
    pub accent_purple: Paint,
    pub dark_bg: Paint,
    pub dark_base: Paint,
    pub border_dim: Paint,
    pub border_glow: Paint,
    pub muted_text: Paint,
    pub progress_bg: Paint,
    pub soft_white: Paint,
    pub warm_yellow: Paint,
}

/// No custom color for any slot.
pub open spec fn no_custom() -> CustomColors {
    CustomColors {
        tomato_red: None,
        nature_green: None,
        accent_purple: None,
        dark_bg: None,
        dark_base: None,
        border_dim: None,
        border_glow: None,
        muted_text: None,
        progress_bg: None,
        soft_white: None,
        warm_yellow: None,
    }
}

/// `t` is the theme a name picks (ignoring case), with each custom color
/// that is set applied to its slot.
pub open spec fn theme_colors_ok(t: ThemeColors, name: Seq<char>, custom: Option<CustomColors>) -> bool {
    let p = palette_of(preset_for(unicode_lowercase(name)));
    let c = match custom {
        Some(c) => c,
        None => no_custom(),
    };
    &&& paint_ok(t.tomato_red, p.tomato_red, c.tomato_red)
    &&& paint_ok(t.nature_green, p.nature_green, c.nature_green)
    &&& paint_ok(t.accent_purple, p.accent_purple, c.accent_purple)
    &&& paint_ok(t.dark_bg, p.dark_bg, c.dark_bg)
    &&& paint_ok(t.dark_base, p.dark_base, c.dark_base)
    &&& paint_ok(t.border_dim, p.border_dim, c.border_dim)
    &&& paint_ok(t.border_glow, p.border_glow, c.border_glow)
    &&& paint_ok(t.muted_text, p.muted_text, c.muted_text)
    &&& paint_ok(t.progress_bg, p.progress_bg, c.progress_bg)
    &&& paint_ok(t.soft_white, p.soft_white, c.soft_white)
    &&& paint_ok(t.warm_yellow, p.warm_yellow, c.warm_yellow)
}

impl ThemeColors {
    /// The colors of the theme `name` (ignoring case; unknown names give the
    /// default theme), with the custom overrides applied. A custom value is
    /// used as the terminal library reads it, else as a hex code; one that
    /// is neither leaves the theme's color.
    pub fn get(name: &str, custom: &Option<CustomColors>) -> (t: ThemeColors)
        requires
            custom matches Some(c) ==> custom_cuts_ok(*c),
        ensures
            theme_colors_ok(t, name@, *custom),
    {
        let p = ThemePreset::from_name(name).palette();
        match custom {
            Some(c) => ThemeColors {
                tomato_red: pick_paint(p.tomato_red, &c.tomato_red),
                nature_green: pick_paint(p.nature_green, &c.nature_green),
                accent_purple: pick_paint(p.accent_purple, &c.accent_purple),
                dark_bg: pick_paint(p.dark_bg, &c.dark_bg),
                dark_base: pick_paint(p.dark_base, &c.dark_base),
                border_dim: pick_paint(p.border_dim, &c.border_dim),
                border_glow: pick_paint(p.border_glow, &c.border_glow),
                muted_text: pick_paint(p.muted_text, &c.muted_text),
                progress_bg: pick_paint(p.progress_bg, &c.progress_bg),
                soft_white: pick_paint(p.soft_white, &c.soft_white),
                warm_yellow: pick_paint(p.warm_yellow, &c.warm_yellow),
            },
            None => ThemeColors {
                tomato_red: Paint::Rgb(p.tomato_red),
                nature_green: Paint::Rgb(p.nature_green),
                accent_purple: Paint::Rgb(p.accent_purple),
                dark_bg: Paint::Rgb(p.dark_bg),
                dark_base: Paint::Rgb(p.dark_base),
                border_dim: Paint::Rgb(p.border_dim),
                border_glow: Paint::Rgb(p.border_glow),
                muted_text: Paint::Rgb(p.muted_text),
                progress_bg: Paint::Rgb(p.progress_bg),
                soft_white: Paint::Rgb(p.soft_white),
                warm_yellow: Paint::Rgb(p.warm_yellow),
            },
        }
    }
}

} // verus!

//! The typefaces of the big clock.

use vstd::prelude::*;

use crate::text::{
    all_ascii, ascii_lower, chars_eq_str, chars_of, lemma_split_pair, push_str, split_chars, split_on, string_of,
    to_lowercase, trim, trimmed, unicode_lowercase,
};

verus! {

/// Typeface used for the big clock.
///
/// Every glyph is exactly three columns wide and three rows tall, so the
/// layout maths stays the same whichever style is picked.
#[derive(Debug, Clone, Copy, PartialEq, Eq, Structural)]
pub enum DigitStyle {
    /// Rounded light box-drawing characters.
    Line,
    /// Heavy box-drawing characters.
    Heavy,
    /// Double box-drawing characters.
    Double,
}

impl Default for DigitStyle {
    fn default() -> (s: Self)
        ensures
            s == DigitStyle::Line,
    {
        DigitStyle::Line
    }
}

/// The style a config value names, after trimming and lowercasing it.
pub open spec fn style_named(key: Seq<char>) -> DigitStyle {
    if key == "heavy"@ || key == "bold"@ || key == "thick"@ {
        DigitStyle::Heavy
    } else if key == "double"@ {
        DigitStyle::Double
    } else {
        DigitStyle::Line
    }
}

/// The stable name of a style.
pub open spec fn style_name(s: DigitStyle) -> Seq<char> {
    match s {
        DigitStyle::Line => "line"@,
        DigitStyle::Heavy => "heavy"@,
        DigitStyle::Double => "double"@,
    }
}

/// The style after `s` in the cycle Line, Heavy, Double.
pub open spec fn style_after(s: DigitStyle) -> DigitStyle {
    match s {
        DigitStyle::Line => DigitStyle::Heavy,
        DigitStyle::Heavy => DigitStyle::Double,
        DigitStyle::Double => DigitStyle::Line,
    }
}

/// The three rows of a digit's glyph, top to bottom; blanks for anything
/// that is not a decimal digit.
pub open spec fn glyph(style: DigitStyle, digit: char) -> (Seq<char>, Seq<char>, Seq<char>) {
    match style {
        DigitStyle::Line => match digit {
            '0' => ("╭─╮"@, "│ │"@, "╰─╯"@),
            '1' => (" ╷ "@, " │ "@, " ╵ "@),
            '2' => ("╶─╮"@, "╭─╯"@, "╰─╴"@),
            '3' => ("╶─╮"@, " ─┤"@, "╶─╯"@),
            '4' => ("╷ ╷"@, "╰─┤"@, "  ╵"@),
            '5' => ("╭─╴"@, "╰─╮"@, "╶─╯"@),
            '6' => ("╭─╴"@, "├─╮"@, "╰─╯"@),
            '7' => ("╶─╮"@, "  │"@, "  ╵"@),
            '8' => ("╭─╮"@, "├─┤"@, "╰─╯"@),
            '9' => ("╭─╮"@, "╰─┤"@, "╶─╯"@),
            _ => ("   "@, "   "@, "   "@),
        },
        DigitStyle::Heavy => match digit {
            '0' => ("┏━┓"@, "┃ ┃"@, "┗━┛"@),
            '1' => (" ╻ "@, " ┃ "@, " ╹ "@),
            '2' => ("╺━┓"@, "┏━┛"@, "┗━╸"@),
            '3' => ("╺━┓"@, " ━┫"@, "╺━┛"@),
            '4' => ("╻ ╻"@, "┗━┫"@, "  ╹"@),
            '5' => ("┏━╸"@, "┗━┓"@, "╺━┛"@),
            '6' => ("┏━╸"@, "┣━┓"@, "┗━┛"@),
            '7' => ("╺━┓"@, "  ┃"@, "  ╹"@),
            '8' => ("┏━┓"@, "┣━┫"@, "┗━┛"@),
            '9' => ("┏━┓"@, "┗━┫"@, "╺━┛"@),
            _ => ("   "@, "   "@, "   "@),
        },
        DigitStyle::Double => match digit {
            '0' => ("╔═╗"@, "║ ║"@, "╚═╝"@),
            '1' => (" ║ "@, " ║ "@, " ║ "@),
            '2' => ("══╗"@, "╔═╝"@, "╚══"@),
            '3' => ("══╗"@, " ═╣"@, "══╝"@),
            '4' => ("║ ║"@, "╚═╣"@, "  ║"@),
            '5' => ("╔══"@, "╚═╗"@, "══╝"@),
            '6' => ("╔══"@, "╠═╗"@, "╚═╝"@),
            '7' => ("══╗"@, "  ║"@, "  ║"@),
            '8' => ("╔═╗"@, "╠═╣"@, "╚═╝"@),
            '9' => ("╔═╗"@, "╚═╣"@, "══╝"@),
            _ => ("   "@, "   "@, "   "@),
        },
    }
}

impl DigitStyle {
    /// Parse a config value, falling back to the default on anything unknown.
    pub fn from_name(name: &str) -> (s: Self)
        ensures
            s == style_named(unicode_lowercase(trim(name@))),
    {
        let t = trimmed(name);
        let key = to_lowercase(string_of(&t).as_str());
        let k = crate::text::chars_of(key.as_str());
        if chars_eq_str(&k, "heavy") || chars_eq_str(&k, "bold") || chars_eq_str(&k, "thick") {
            DigitStyle::Heavy
        } else if chars_eq_str(&k, "double") {
            DigitStyle::Double
        } else {
            DigitStyle::Line
        }
    }

    /// Stable name for config files and the status line.
    pub fn name(self) -> (s: &'static str)
        ensures
            s@ == style_name(self),
    {
        match self {
            DigitStyle::Line => "line",
            DigitStyle::Heavy => "heavy",
            DigitStyle::Double => "double",
        }
    }

    /// The next style, wrapping around. Used by the cycle key.
    pub fn next(self) -> (s: Self)
        ensures
            s == style_after(self),
    {
        match self {
            DigitStyle::Line => DigitStyle::Heavy,
            DigitStyle::Heavy => DigitStyle::Double,
            DigitStyle::Double => DigitStyle::Line,
        }
    }

    /// The three rows making up a digit, top to bottom.
    pub fn rows(self, digit: char) -> (r: [&'static str; 3])
        ensures
            (r[0]@, r[1]@, r[2]@) == glyph(self, digit),
    {
        match self {
            DigitStyle::Line => match digit {
                '0' => ["╭─╮", "│ │", "╰─╯"],
                '1' => [" ╷ ", " │ ", " ╵ "],
                '2' => ["╶─╮", "╭─╯", "╰─╴"],
                '3' => ["╶─╮", " ─┤", "╶─╯"],
                '4' => ["╷ ╷", "╰─┤", "  ╵"],
                '5' => ["╭─╴", "╰─╮", "╶─╯"],
                '6' => ["╭─╴", "├─╮", "╰─╯"],
                '7' => ["╶─╮", "  │", "  ╵"],
                '8' => ["╭─╮", "├─┤", "╰─╯"],
                '9' => ["╭─╮", "╰─┤", "╶─╯"],
                _ => ["   ", "   ", "   "],
            },
            DigitStyle::Heavy => match digit {
                '0' => ["┏━┓", "┃ ┃", "┗━┛"],
                '1' => [" ╻ ", " ┃ ", " ╹ "],
                '2' => ["╺━┓", "┏━┛", "┗━╸"],
                '3' => ["╺━┓", " ━┫", "╺━┛"],
                '4' => ["╻ ╻", "┗━┫", "  ╹"],
                '5' => ["┏━╸", "┗━┓", "╺━┛"],
                '6' => ["┏━╸", "┣━┓", "┗━┛"],
                '7' => ["╺━┓", "  ┃", "  ╹"],
                '8' => ["┏━┓", "┣━┫", "┗━┛"],
                '9' => ["┏━┓", "┗━┫", "╺━┛"],
                _ => ["   ", "   ", "   "],
            },
            DigitStyle::Double => match digit {
                '0' => ["╔═╗", "║ ║", "╚═╝"],
                '1' => [" ║ ", " ║ ", " ║ "],
                '2' => ["══╗", "╔═╝", "╚══"],
                '3' => ["══╗", " ═╣", "══╝"],
                '4' => ["║ ║", "╚═╣", "  ║"],
                '5' => ["╔══", "╚═╗", "══╝"],
                '6' => ["╔══", "╠═╗", "╚═╝"],
                '7' => ["══╗", "  ║", "  ║"],
                '8' => ["╔═╗", "╠═╣", "╚═╝"],
                '9' => ["╔═╗", "╚═╣", "══╝"],
                _ => ["   ", "   ", "   "],
            },
        }
    }

    /// The separator between minutes and seconds, sized to match the style.
    pub fn colon(self) -> (s: &'static str)
        ensures
            s@ == match self {
                DigitStyle::Line => " ● "@,
                DigitStyle::Heavy => " ◆ "@,
                DigitStyle::Double => " ◉ "@,
            },
    {
        match self {
            DigitStyle::Line => " ● ",
            DigitStyle::Heavy => " ◆ ",
            DigitStyle::Double => " ◉ ",
        }
    }
}

/// Row `r` (0 to 2) of a glyph.
pub open spec fn glyph_row(style: DigitStyle, digit: char, r: int) -> Seq<char> {
    let g = glyph(style, digit);
    if r == 0 {
        g.0
    } else if r == 1 {
        g.1
    } else {
        g.2
    }
}

/// The minutes and seconds of a `MM:SS` text; `00` and `00` when it does
/// not split into exactly two parts at the colon.
pub open spec fn time_parts(time: Seq<char>) -> (Seq<char>, Seq<char>) {
    let sp = split_on(time, ':');
    if sp.len() == 2 {
        (sp[0], sp[1])
    } else {
        ("00"@, "00"@)
    }
}

/// Character `i` of `s`, or `0` past its end.
pub open spec fn char_or_zero(s: Seq<char>, i: int) -> char {
    if i < s.len() {
        s[i]
    } else {
        '0'
    }
}

/// One row of the big clock: minutes on the left (a leading space, the two
/// glyphs with a space between), the separator in the middle (the colon on
/// the middle row, three spaces otherwise), seconds on the right (the two
/// glyphs with a space between, then a space).
pub open spec fn big_row(style: DigitStyle, time: Seq<char>, r: int) -> (Seq<char>, Seq<char>, Seq<char>) {
    let (m, sec) = time_parts(time);
    let left = " "@ + glyph_row(style, char_or_zero(m, 0), r) + " "@ + glyph_row(style, char_or_zero(m, 1), r);
    let mid = if r == 1 {
        match style {
            DigitStyle::Line => " ● "@,
            DigitStyle::Heavy => " ◆ "@,
            DigitStyle::Double => " ◉ "@,
        }
    } else {
        "   "@
    };
    let right = glyph_row(style, char_or_zero(sec, 0), r) + " "@ + glyph_row(style, char_or_zero(sec, 1), r) + " "@;
    (left, mid, right)
}

fn char_at_or_zero(s: &Vec<char>, i: usize) -> (c: char)
    ensures
        c == char_or_zero(s@, i as int),
{
    if i < s.len() {
        s[i]
    } else {
        '0'
    }
}

impl DigitStyle {
    /// The three rows of the big clock for a `MM:SS` text, each as its
    /// minutes part, separator and seconds part (see `big_row`).
    pub fn big_time(self, time: &str) -> (rows: Vec<(String, &'static str, String)>)
        ensures
            rows@.len() == 3,
            forall|r: int| 0 <= r < 3 ==> ((#[trigger] rows@[r]).0@, rows@[r].1@, rows@[r].2@) == big_row(self, time@, r),
    {
        let t = chars_of(time);
        let parts = split_chars(&t, ':');
        let (m, sec) = if parts.len() == 2 {
            (parts[0].clone(), parts[1].clone())
        } else {
            (chars_of("00"), chars_of("00"))
        };
        proof {
            assert(m@ == time_parts(time@).0);
            assert(sec@ == time_parts(time@).1);
        }
        let m0 = char_at_or_zero(&m, 0);
        let m1 = char_at_or_zero(&m, 1);
        let s0 = char_at_or_zero(&sec, 0);
        let s1 = char_at_or_zero(&sec, 1);
        let gm0 = self.rows(m0);
        let gm1 = self.rows(m1);
        let gs0 = self.rows(s0);
        let gs1 = self.rows(s1);
        let mut rows: Vec<(String, &'static str, String)> = Vec::new();
        let mut r: usize = 0;
        while r < 3
            invariant
                r <= 3,
                rows@.len() == r,
                (gm0[0]@, gm0[1]@, gm0[2]@) == glyph(self, m0),
                (gm1[0]@, gm1[1]@, gm1[2]@) == glyph(self, m1),
                (gs0[0]@, gs0[1]@, gs0[2]@) == glyph(self, s0),
                (gs1[0]@, gs1[1]@, gs1[2]@) == glyph(self, s1),
                m0 == char_or_zero(time_parts(time@).0, 0),
                m1 == char_or_zero(time_parts(time@).0, 1),
                s0 == char_or_zero(time_parts(time@).1, 0),
                s1 == char_or_zero(time_parts(time@).1, 1),
                forall|k: int| 0 <= k < r ==> ((#[trigger] rows@[k]).0@, rows@[k].1@, rows@[k].2@) == big_row(self, time@, k),
            decreases 3 - r,
        {
            let mut left: Vec<char> = Vec::new();
            push_str(&mut left, " ");
            push_str(&mut left, gm0[r]);
            push_str(&mut left, " ");
            push_str(&mut left, gm1[r]);
            let mid: &'static str = if r == 1 {
                self.colon()
            } else {
                "   "
            };
            let mut right: Vec<char> = Vec::new();
            push_str(&mut right, gs0[r]);
            push_str(&mut right, " ");
            push_str(&mut right, gs1[r]);
            push_str(&mut right, " ");
            proof {
                assert(gm0[r as int]@ == glyph_row(self, m0, r as int));
                assert(gm1[r as int]@ == glyph_row(self, m1, r as int));
                assert(gs0[r as int]@ == glyph_row(self, s0, r as int));
                assert(gs1[r as int]@ == glyph_row(self, s1, r as int));
                assert(left@ =~= big_row(self, time@, r as int).0);
                assert(right@ =~= big_row(self, time@, r as int).2);
            }
            rows.push((string_of(&left), mid, string_of(&right)));
            r = r + 1;
        }
        rows
    }
}

/// Every glyph is three characters on each of its three rows, and a
/// character that is not a digit is drawn blank.
pub proof fn law_glyphs_are_three_wide(style: DigitStyle, digit: char)
    ensures
        glyph(style, digit).0.len() == 3 && glyph(style, digit).1.len() == 3 && glyph(style, digit).2.len() == 3,
        !('0' <= digit <= '9') ==> glyph(style, digit) == ("   "@, "   "@, "   "@),
{
    reveal_strlit("   ");
    reveal_strlit("  │");
    reveal_strlit("  ┃");
    reveal_strlit("  ║");
    reveal_strlit("  ╵");
    reveal_strlit("  ╹");
    reveal_strlit(" ─┤");
    reveal_strlit(" ━┫");
    reveal_strlit(" │ ");
    reveal_strlit(" ┃ ");
    reveal_strlit(" ═╣");
    reveal_strlit(" ║ ");
    reveal_strlit(" ╵ ");
    reveal_strlit(" ╷ ");
    reveal_strlit(" ╹ ");
    reveal_strlit(" ╻ ");
    reveal_strlit(" ◆ ");
    reveal_strlit(" ◉ ");
    reveal_strlit(" ● ");
    reveal_strlit("│ │");
    reveal_strlit("┃ ┃");
    reveal_strlit("┏━┓");
    reveal_strlit("┏━┛");
    reveal_strlit("┏━╸");
    reveal_strlit("┗━┓");
    reveal_strlit("┗━┛");
    reveal_strlit("┗━┫");
    reveal_strlit("┗━╸");
    reveal_strlit("├─┤");
    reveal_strlit("├─╮");
    reveal_strlit("┣━┓");
    reveal_strlit("┣━┫");
    reveal_strlit("══╗");
    reveal_strlit("══╝");
    reveal_strlit("║ ║");
    reveal_strlit("╔══");
    reveal_strlit("╔═╗");
    reveal_strlit("╔═╝");
    reveal_strlit("╚══");
    reveal_strlit("╚═╗");
    reveal_strlit("╚═╝");
    reveal_strlit("╚═╣");
    reveal_strlit("╠═╗");
    reveal_strlit("╠═╣");
    reveal_strlit("╭─╮");
    reveal_strlit("╭─╯");
    reveal_strlit("╭─╴");
    reveal_strlit("╰─┤");
    reveal_strlit("╰─╮");
    reveal_strlit("╰─╯");
    reveal_strlit("╰─╴");
    reveal_strlit("╶─╮");
    reveal_strlit("╶─╯");
    reveal_strlit("╷ ╷");
    reveal_strlit("╺━┓");
    reveal_strlit("╺━┛");
    reveal_strlit("╻ ╻");
}

/// In every style, two different digits never share a glyph.
pub proof fn law_glyphs_tell_digits_apart(style: DigitStyle, d1: char, d2: char)
    requires
        '0' <= d1 <= '9',
        '0' <= d2 <= '9',
        d1 != d2,
    ensures
        glyph(style, d1) != glyph(style, d2),
{
    lemma_line_glyphs_differ();
    lemma_heavy_glyphs_differ();
    lemma_double_glyphs_differ();
}

proof fn lemma_line_glyphs_differ()
    ensures
        forall|d1: char, d2: char|
            '0' <= d1 <= '9' && '0' <= d2 <= '9' && d1 != d2 ==> glyph(DigitStyle::Line, d1) != glyph(
                DigitStyle::Line,
                d2,
            ),
{
    reveal_strlit("  │");
    reveal_strlit("  ╵");
    reveal_strlit(" ─┤");
    reveal_strlit(" │ ");
    reveal_strlit(" ╵ ");
    reveal_strlit(" ╷ ");
    reveal_strlit("│ │");
    reveal_strlit("├─┤");
    reveal_strlit("├─╮");
    reveal_strlit("╭─╮");
    reveal_strlit("╭─╯");
    reveal_strlit("╭─╴");
    reveal_strlit("╰─┤");
    reveal_strlit("╰─╮");
    reveal_strlit("╰─╯");
    reveal_strlit("╰─╴");
    reveal_strlit("╶─╮");
    reveal_strlit("╶─╯");
    reveal_strlit("╷ ╷");
    assert(glyph(DigitStyle::Line, '0').0[0] != glyph(DigitStyle::Line, '1').0[0]);
    assert(glyph(DigitStyle::Line, '0').0[0] != glyph(DigitStyle::Line, '2').0[0]);
    assert(glyph(DigitStyle::Line, '0').0[0] != glyph(DigitStyle::Line, '3').0[0]);
    assert(glyph(DigitStyle::Line, '0').0[0] != glyph(DigitStyle::Line, '4').0[0]);
    assert(glyph(DigitStyle::Line, '0').0[2] != glyph(DigitStyle::Line, '5').0[2]);
    assert(glyph(DigitStyle::Line, '0').0[2] != glyph(DigitStyle::Line, '6').0[2]);
    assert(glyph(DigitStyle::Line, '0').0[0] != glyph(DigitStyle::Line, '7').0[0]);
    assert(glyph(DigitStyle::Line, '0').1[0] != glyph(DigitStyle::Line, '8').1[0]);
    assert(glyph(DigitStyle::Line, '0').1[0] != glyph(DigitStyle::Line, '9').1[0]);
    assert(glyph(DigitStyle::Line, '1').0[0] != glyph(DigitStyle::Line, '2').0[0]);
    assert(glyph(DigitStyle::Line, '1').0[0] != glyph(DigitStyle::Line, '3').0[0]);
    assert(glyph(DigitStyle::Line, '1').0[0] != glyph(DigitStyle::Line, '4').0[0]);
    assert(glyph(DigitStyle::Line, '1').0[0] != glyph(DigitStyle::Line, '5').0[0]);
    assert(glyph(DigitStyle::Line, '1').0[0] != glyph(DigitStyle::Line, '6').0[0]);
    assert(glyph(DigitStyle::Line, '1').0[0] != glyph(DigitStyle::Line, '7').0[0]);
    assert(glyph(DigitStyle::Line, '1').0[0] != glyph(DigitStyle::Line, '8').0[0]);
    assert(glyph(DigitStyle::Line, '1').0[0] != glyph(DigitStyle::Line, '9').0[0]);
    assert(glyph(DigitStyle::Line, '2').1[0] != glyph(DigitStyle::Line, '3').1[0]);
    assert(glyph(DigitStyle::Line, '2').0[0] != glyph(DigitStyle::Line, '4').0[0]);
    assert(glyph(DigitStyle::Line, '2').0[0] != glyph(DigitStyle::Line, '5').0[0]);
    assert(glyph(DigitStyle::Line, '2').0[0] != glyph(DigitStyle::Line, '6').0[0]);
    assert(glyph(DigitStyle::Line, '2').1[0] != glyph(DigitStyle::Line, '7').1[0]);
    assert(glyph(DigitStyle::Line, '2').0[0] != glyph(DigitStyle::Line, '8').0[0]);
    assert(glyph(DigitStyle::Line, '2').0[0] != glyph(DigitStyle::Line, '9').0[0]);
    assert(glyph(DigitStyle::Line, '3').0[0] != glyph(DigitStyle::Line, '4').0[0]);
    assert(glyph(DigitStyle::Line, '3').0[0] != glyph(DigitStyle::Line, '5').0[0]);
    assert(glyph(DigitStyle::Line, '3').0[0] != glyph(DigitStyle::Line, '6').0[0]);
    assert(glyph(DigitStyle::Line, '3').1[1] != glyph(DigitStyle::Line, '7').1[1]);
    assert(glyph(DigitStyle::Line, '3').0[0] != glyph(DigitStyle::Line, '8').0[0]);
    assert(glyph(DigitStyle::Line, '3').0[0] != glyph(DigitStyle::Line, '9').0[0]);
    assert(glyph(DigitStyle::Line, '4').0[0] != glyph(DigitStyle::Line, '5').0[0]);
    assert(glyph(DigitStyle::Line, '4').0[0] != glyph(DigitStyle::Line, '6').0[0]);
    assert(glyph(DigitStyle::Line, '4').0[0] != glyph(DigitStyle::Line, '7').0[0]);
    assert(glyph(DigitStyle::Line, '4').0[0] != glyph(DigitStyle::Line, '8').0[0]);
    assert(glyph(DigitStyle::Line, '4').0[0] != glyph(DigitStyle::Line, '9').0[0]);
    assert(glyph(DigitStyle::Line, '5').1[0] != glyph(DigitStyle::Line, '6').1[0]);
    assert(glyph(DigitStyle::Line, '5').0[0] != glyph(DigitStyle::Line, '7').0[0]);
    assert(glyph(DigitStyle::Line, '5').0[2] != glyph(DigitStyle::Line, '8').0[2]);
    assert(glyph(DigitStyle::Line, '5').0[2] != glyph(DigitStyle::Line, '9').0[2]);
    assert(glyph(DigitStyle::Line, '6').0[0] != glyph(DigitStyle::Line, '7').0[0]);
    assert(glyph(DigitStyle::Line, '6').0[2] != glyph(DigitStyle::Line, '8').0[2]);
    assert(glyph(DigitStyle::Line, '6').0[2] != glyph(DigitStyle::Line, '9').0[2]);
    assert(glyph(DigitStyle::Line, '7').0[0] != glyph(DigitStyle::Line, '8').0[0]);
    assert(glyph(DigitStyle::Line, '7').0[0] != glyph(DigitStyle::Line, '9').0[0]);
    assert(glyph(DigitStyle::Line, '8').1[0] != glyph(DigitStyle::Line, '9').1[0]);
}

proof fn lemma_heavy_glyphs_differ()
    ensures
        forall|d1: char, d2: char|
            '0' <= d1 <= '9' && '0' <= d2 <= '9' && d1 != d2 ==> glyph(DigitStyle::Heavy, d1) != glyph(
                DigitStyle::Heavy,
                d2,
            ),
{
    reveal_strlit("  ┃");
    reveal_strlit("  ╹");
    reveal_strlit(" ━┫");
    reveal_strlit(" ┃ ");
    reveal_strlit(" ╹ ");
    reveal_strlit(" ╻ ");
    reveal_strlit("┃ ┃");
    reveal_strlit("┏━┓");
    reveal_strlit("┏━┛");
    reveal_strlit("┏━╸");
    reveal_strlit("┗━┓");
    reveal_strlit("┗━┛");
    reveal_strlit("┗━┫");
    reveal_strlit("┗━╸");
    reveal_strlit("┣━┓");
    reveal_strlit("┣━┫");
    reveal_strlit("╺━┓");
    reveal_strlit("╺━┛");
    reveal_strlit("╻ ╻");
    assert(glyph(DigitStyle::Heavy, '0').0[0] != glyph(DigitStyle::Heavy, '1').0[0]);
    assert(glyph(DigitStyle::Heavy, '0').0[0] != glyph(DigitStyle::Heavy, '2').0[0]);
    assert(glyph(DigitStyle::Heavy, '0').0[0] != glyph(DigitStyle::Heavy, '3').0[0]);
    assert(glyph(DigitStyle::Heavy, '0').0[0] != glyph(DigitStyle::Heavy, '4').0[0]);
    assert(glyph(DigitStyle::Heavy, '0').0[2] != glyph(DigitStyle::Heavy, '5').0[2]);
    assert(glyph(DigitStyle::Heavy, '0').0[2] != glyph(DigitStyle::Heavy, '6').0[2]);
    assert(glyph(DigitStyle::Heavy, '0').0[0] != glyph(DigitStyle::Heavy, '7').0[0]);
    assert(glyph(DigitStyle::Heavy, '0').1[0] != glyph(DigitStyle::Heavy, '8').1[0]);
    assert(glyph(DigitStyle::Heavy, '0').1[0] != glyph(DigitStyle::Heavy, '9').1[0]);
    assert(glyph(DigitStyle::Heavy, '1').0[0] != glyph(DigitStyle::Heavy, '2').0[0]);
    assert(glyph(DigitStyle::Heavy, '1').0[0] != glyph(DigitStyle::Heavy, '3').0[0]);
    assert(glyph(DigitStyle::Heavy, '1').0[0] != glyph(DigitStyle::Heavy, '4').0[0]);
    assert(glyph(DigitStyle::Heavy, '1').0[0] != glyph(DigitStyle::Heavy, '5').0[0]);
    assert(glyph(DigitStyle::Heavy, '1').0[0] != glyph(DigitStyle::Heavy, '6').0[0]);
    assert(glyph(DigitStyle::Heavy, '1').0[0] != glyph(DigitStyle::Heavy, '7').0[0]);
    assert(glyph(DigitStyle::Heavy, '1').0[0] != glyph(DigitStyle::Heavy, '8').0[0]);
    assert(glyph(DigitStyle::Heavy, '1').0[0] != glyph(DigitStyle::Heavy, '9').0[0]);
    assert(glyph(DigitStyle::Heavy, '2').1[0] != glyph(DigitStyle::Heavy, '3').1[0]);
    assert(glyph(DigitStyle::Heavy, '2').0[0] != glyph(DigitStyle::Heavy, '4').0[0]);
    assert(glyph(DigitStyle::Heavy, '2').0[0] != glyph(DigitStyle::Heavy, '5').0[0]);
    assert(glyph(DigitStyle::Heavy, '2').0[0] != glyph(DigitStyle::Heavy, '6').0[0]);
    assert(glyph(DigitStyle::Heavy, '2').1[0] != glyph(DigitStyle::Heavy, '7').1[0]);
    assert(glyph(DigitStyle::Heavy, '2').0[0] != glyph(DigitStyle::Heavy, '8').0[0]);
    assert(glyph(DigitStyle::Heavy, '2').0[0] != glyph(DigitStyle::Heavy, '9').0[0]);
    assert(glyph(DigitStyle::Heavy, '3').0[0] != glyph(DigitStyle::Heavy, '4').0[0]);
    assert(glyph(DigitStyle::Heavy, '3').0[0] != glyph(DigitStyle::Heavy, '5').0[0]);
    assert(glyph(DigitStyle::Heavy, '3').0[0] != glyph(DigitStyle::Heavy, '6').0[0]);
    assert(glyph(DigitStyle::Heavy, '3').1[1] != glyph(DigitStyle::Heavy, '7').1[1]);
    assert(glyph(DigitStyle::Heavy, '3').0[0] != glyph(DigitStyle::Heavy, '8').0[0]);
    assert(glyph(DigitStyle::Heavy, '3').0[0] != glyph(DigitStyle::Heavy, '9').0[0]);
    assert(glyph(DigitStyle::Heavy, '4').0[0] != glyph(DigitStyle::Heavy, '5').0[0]);
    assert(glyph(DigitStyle::Heavy, '4').0[0] != glyph(DigitStyle::Heavy, '6').0[0]);
    assert(glyph(DigitStyle::Heavy, '4').0[0] != glyph(DigitStyle::Heavy, '7').0[0]);
    assert(glyph(DigitStyle::Heavy, '4').0[0] != glyph(DigitStyle::Heavy, '8').0[0]);
    assert(glyph(DigitStyle::Heavy, '4').0[0] != glyph(DigitStyle::Heavy, '9').0[0]);
    assert(glyph(DigitStyle::Heavy, '5').1[0] != glyph(DigitStyle::Heavy, '6').1[0]);
    assert(glyph(DigitStyle::Heavy, '5').0[0] != glyph(DigitStyle::Heavy, '7').0[0]);
    assert(glyph(DigitStyle::Heavy, '5').0[2] != glyph(DigitStyle::Heavy, '8').0[2]);
    assert(glyph(DigitStyle::Heavy, '5').0[2] != glyph(DigitStyle::Heavy, '9').0[2]);
    assert(glyph(DigitStyle::Heavy, '6').0[0] != glyph(DigitStyle::Heavy, '7').0[0]);
    assert(glyph(DigitStyle::Heavy, '6').0[2] != glyph(DigitStyle::Heavy, '8').0[2]);
    assert(glyph(DigitStyle::Heavy, '6').0[2] != glyph(DigitStyle::Heavy, '9').0[2]);
    assert(glyph(DigitStyle::Heavy, '7').0[0] != glyph(DigitStyle::Heavy, '8').0[0]);
    assert(glyph(DigitStyle::Heavy, '7').0[0] != glyph(DigitStyle::Heavy, '9').0[0]);
    assert(glyph(DigitStyle::Heavy, '8').1[0] != glyph(DigitStyle::Heavy, '9').1[0]);
}

proof fn lemma_double_glyphs_differ()
    ensures
        forall|d1: char, d2: char|
            '0' <= d1 <= '9' && '0' <= d2 <= '9' && d1 != d2 ==> glyph(DigitStyle::Double, d1) != glyph(
                DigitStyle::Double,
                d2,
            ),
{
    reveal_strlit("  ║");
    reveal_strlit(" ═╣");
    reveal_strlit(" ║ ");
    reveal_strlit("══╗");
    reveal_strlit("══╝");
    reveal_strlit("║ ║");
    reveal_strlit("╔══");
    reveal_strlit("╔═╗");
    reveal_strlit("╔═╝");
    reveal_strlit("╚══");
    reveal_strlit("╚═╗");
    reveal_strlit("╚═╝");
    reveal_strlit("╚═╣");
    reveal_strlit("╠═╗");
    reveal_strlit("╠═╣");
    assert(glyph(DigitStyle::Double, '0').0[0] != glyph(DigitStyle::Double, '1').0[0]);
    assert(glyph(DigitStyle::Double, '0').0[0] != glyph(DigitStyle::Double, '2').0[0]);
    assert(glyph(DigitStyle::Double, '0').0[0] != glyph(DigitStyle::Double, '3').0[0]);
    assert(glyph(DigitStyle::Double, '0').0[0] != glyph(DigitStyle::Double, '4').0[0]);
    assert(glyph(DigitStyle::Double, '0').0[2] != glyph(DigitStyle::Double, '5').0[2]);
    assert(glyph(DigitStyle::Double, '0').0[2] != glyph(DigitStyle::Double, '6').0[2]);
    assert(glyph(DigitStyle::Double, '0').0[0] != glyph(DigitStyle::Double, '7').0[0]);
    assert(glyph(DigitStyle::Double, '0').1[0] != glyph(DigitStyle::Double, '8').1[0]);
    assert(glyph(DigitStyle::Double, '0').1[0] != glyph(DigitStyle::Double, '9').1[0]);
    assert(glyph(DigitStyle::Double, '1').0[0] != glyph(DigitStyle::Double, '2').0[0]);
    assert(glyph(DigitStyle::Double, '1').0[0] != glyph(DigitStyle::Double, '3').0[0]);
    assert(glyph(DigitStyle::Double, '1').0[0] != glyph(DigitStyle::Double, '4').0[0]);
    assert(glyph(DigitStyle::Double, '1').0[0] != glyph(DigitStyle::Double, '5').0[0]);
    assert(glyph(DigitStyle::Double, '1').0[0] != glyph(DigitStyle::Double, '6').0[0]);
    assert(glyph(DigitStyle::Double, '1').0[0] != glyph(DigitStyle::Double, '7').0[0]);
    assert(glyph(DigitStyle::Double, '1').0[0] != glyph(DigitStyle::Double, '8').0[0]);
    assert(glyph(DigitStyle::Double, '1').0[0] != glyph(DigitStyle::Double, '9').0[0]);
    assert(glyph(DigitStyle::Double, '2').1[0] != glyph(DigitStyle::Double, '3').1[0]);
    assert(glyph(DigitStyle::Double, '2').0[0] != glyph(DigitStyle::Double, '4').0[0]);
    assert(glyph(DigitStyle::Double, '2').0[0] != glyph(DigitStyle::Double, '5').0[0]);
    assert(glyph(DigitStyle::Double, '2').0[0] != glyph(DigitStyle::Double, '6').0[0]);
    assert(glyph(DigitStyle::Double, '2').1[0] != glyph(DigitStyle::Double, '7').1[0]);
    assert(glyph(DigitStyle::Double, '2').0[0] != glyph(DigitStyle::Double, '8').0[0]);
    assert(glyph(DigitStyle::Double, '2').0[0] != glyph(DigitStyle::Double, '9').0[0]);
    assert(glyph(DigitStyle::Double, '3').0[0] != glyph(DigitStyle::Double, '4').0[0]);
    assert(glyph(DigitStyle::Double, '3').0[0] != glyph(DigitStyle::Double, '5').0[0]);
    assert(glyph(DigitStyle::Double, '3').0[0] != glyph(DigitStyle::Double, '6').0[0]);
    assert(glyph(DigitStyle::Double, '3').1[1] != glyph(DigitStyle::Double, '7').1[1]);
    assert(glyph(DigitStyle::Double, '3').0[0] != glyph(DigitStyle::Double, '8').0[0]);
    assert(glyph(DigitStyle::Double, '3').0[0] != glyph(DigitStyle::Double, '9').0[0]);
    assert(glyph(DigitStyle::Double, '4').0[0] != glyph(DigitStyle::Double, '5').0[0]);
    assert(glyph(DigitStyle::Double, '4').0[0] != glyph(DigitStyle::Double, '6').0[0]);
    assert(glyph(DigitStyle::Double, '4').0[0] != glyph(DigitStyle::Double, '7').0[0]);
    assert(glyph(DigitStyle::Double, '4').0[0] != glyph(DigitStyle::Double, '8').0[0]);
    assert(glyph(DigitStyle::Double, '4').0[0] != glyph(DigitStyle::Double, '9').0[0]);
    assert(glyph(DigitStyle::Double, '5').1[0] != glyph(DigitStyle::Double, '6').1[0]);
    assert(glyph(DigitStyle::Double, '5').0[0] != glyph(DigitStyle::Double, '7').0[0]);
    assert(glyph(DigitStyle::Double, '5').0[2] != glyph(DigitStyle::Double, '8').0[2]);
    assert(glyph(DigitStyle::Double, '5').0[2] != glyph(DigitStyle::Double, '9').0[2]);
    assert(glyph(DigitStyle::Double, '6').0[0] != glyph(DigitStyle::Double, '7').0[0]);
    assert(glyph(DigitStyle::Double, '6').0[2] != glyph(DigitStyle::Double, '8').0[2]);
    assert(glyph(DigitStyle::Double, '6').0[2] != glyph(DigitStyle::Double, '9').0[2]);
    assert(glyph(DigitStyle::Double, '7').0[0] != glyph(DigitStyle::Double, '8').0[0]);
    assert(glyph(DigitStyle::Double, '7').0[0] != glyph(DigitStyle::Double, '9').0[0]);
    assert(glyph(DigitStyle::Double, '8').1[0] != glyph(DigitStyle::Double, '9').1[0]);
}

/// The big clock of minutes `m` and seconds `sec` (neither holding a colon):
/// each row is a space, the glyph rows of the first two minute characters
/// with a space between, the separator, then the glyph rows of the first
/// two second characters each followed by a space (a missing character
/// counts as `0`).
pub proof fn law_big_rows_from_minutes_and_seconds(style: DigitStyle, m: Seq<char>, sec: Seq<char>, r: int)
    requires
        !m.contains(':'),
        !sec.contains(':'),
    ensures
        time_parts(m + seq![':'] + sec) == (m, sec),
        big_row(style, m + seq![':'] + sec, r).0 == " "@ + glyph_row(style, char_or_zero(m, 0), r) + " "@
            + glyph_row(style, char_or_zero(m, 1), r),
        big_row(style, m + seq![':'] + sec, r).2 == glyph_row(style, char_or_zero(sec, 0), r) + " "@
            + glyph_row(style, char_or_zero(sec, 1), r) + " "@,
{
    lemma_split_pair(m, sec, ':');
}

/// Cycling visits every style and comes back home after three steps.
pub proof fn law_cycle_returns_home(s: DigitStyle)
    ensures
        style_after(style_after(style_after(s))) == s,
        style_after(s) != s,
        style_after(style_after(s)) != s,
{
}

/// A style's own name parses back to that style.
pub proof fn law_names_round_trip(s: DigitStyle)
    ensures
        all_ascii(style_name(s)),
        trim(style_name(s)) == style_name(s),
        style_named(ascii_lower(style_name(s))) == s,
{
    reveal_strlit("line");
    reveal_strlit("heavy");
    reveal_strlit("double");
    reveal_strlit("bold");
    reveal_strlit("thick");
    let n = style_name(s);
    assert(ascii_lower(n) =~= n);
    crate::text::lemma_trim_plain(n);
}

} // verus!

//! Tasks and their colours.

use vstd::prelude::*;
use vstd::string::*;
use vstd::utf8::*;
use crate::text::{parse_unsigned, parse_unsigned_text};

verus! {

/// A kind of work that time can be recorded against, with the colour it is
/// drawn in (six hexadecimal digits, `rrggbb`).
#[derive(Debug)]
pub struct Task {
    pub name: String,
    pub color: String,
}

/// The three colour channels of a `rrggbb` colour, each read the way
/// `u8::from_str_radix(_, 16)` reads its two characters; `None` where any of
/// them is not such a number or the text is shorter than six characters.
pub open spec fn spec_hex_to_rgb(s: Seq<char>) -> Option<(u8, u8, u8)> {
    if s.len() < 6 {
        None
    } else {
        let r = parse_unsigned(s.subrange(0, 2), 16, 255);
        let g = parse_unsigned(s.subrange(2, 4), 16, 255);
        let b = parse_unsigned(s.subrange(4, 6), 16, 255);
        if r is Some && g is Some && b is Some {
            Some((r->0 as u8, g->0 as u8, b->0 as u8))
        } else {
            None
        }
    }
}

/// Reads one two-character channel starting at character `i`.
fn hex_channel(s: &str, i: usize) -> (r: Option<u8>)
    requires
        i <= 4,
        i + 2 <= s@.len(),
    ensures
        match r {
            Some(v) => parse_unsigned(s@.subrange(i as int, i + 2), 16, 255) == Some(v as nat),
            None => parse_unsigned(s@.subrange(i as int, i + 2), 16, 255) is None,
        },
{
    let pair = s.substring_char(i, i + 2);
    match parse_unsigned_text(pair, 16, 255) {
        Some(v) => Some(v as u8),
        None => None,
    }
}

/// Reads a `rrggbb` colour, or `None` where `hex_to_rgb` would panic.
pub fn try_hex_to_rgb(s: &str) -> (r: Option<(u8, u8, u8)>)
    ensures
        r == spec_hex_to_rgb(s@),
{
    if s.unicode_len() < 6 {
        return None;
    }
    let r = hex_channel(s, 0);
    let g = hex_channel(s, 2);
    let b = hex_channel(s, 4);
    match (r, g, b) {
        (Some(r), Some(g), Some(b)) => Some((r, g, b)),
        _ => None,
    }
}

/// The red, green and blue channels of a `rrggbb` colour.
pub fn hex_to_rgb(str: &String) -> (rgb: (u8, u8, u8))
    requires
        spec_hex_to_rgb(str@) is Some,
    ensures
        Some(rgb) == spec_hex_to_rgb(str@),
{
    match try_hex_to_rgb(str.as_str()) {
        Some(rgb) => rgb,
        None => {
            proof {
                assert(false);
            }
            (0, 0, 0)
        },
    }
}

/// The colour type of the `piechart` crate (`ansi_term::Colour`), carried
/// through as an opaque value.
#[verifier::external_type_specification]
#[verifier::external_body]
pub struct ExChartColor(piechart::Color);

/// What `piechart::Color::RGB(r, g, b)` builds.
pub uninterp spec fn chart_rgb(r: u8, g: u8, b: u8) -> piechart::Color;

/// Builds the chart colour `piechart::Color::RGB(r, g, b)`; its contract
/// claims only that the value is the one that variant holds for these
/// three channels.
#[verifier::external_body]
fn rgb_chart_color(r: u8, g: u8, b: u8) -> (c: piechart::Color)
    ensures
        c == chart_rgb(r, g, b),
{
    piechart::Color::RGB(r, g, b)
}

/// The chart colour of a `rrggbb` colour.
pub fn hex_to_rgb_piechart(str: &String) -> (c: piechart::Color)
    requires
        spec_hex_to_rgb(str@) is Some,
    ensures
        match spec_hex_to_rgb(str@) {
            Some((r, g, b)) => c == chart_rgb(r, g, b),
            None => false,
        },
{
    let (r, g, b) = hex_to_rgb(str);
    rgb_chart_color(r, g, b)
}

impl Task {
    /// A task called `name` whose colour is the first six bytes of what the
    /// user typed (`color_input`).
    pub fn new(name: &str, color_input: &str) -> (t: Task)
        requires
            is_char_boundary(color_input.spec_bytes(), 6),
        ensures
            t.name@ == name@,
            encode_utf8(t.color@) == color_input.spec_bytes().subrange(0, 6),
    {
        let (head, _rest) = color_input.split_at(6);
        Task { name: name.to_owned(), color: head.to_owned() }
    }
}

} // verus!

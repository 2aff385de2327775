//! Colours of the current theme and the icons and colour schemes drawn in them.
use vstd::prelude::*;

use crate::text::{push_char, replace_all, replace_text};

verus! {

/// The lowercase hexadecimal digit of a value below 16.
pub open spec fn hex_digit(d: nat) -> char {
    if d < 10 {
        crate::text::digit_char(d)
    } else if d == 10 {
        'a'
    } else if d == 11 {
        'b'
    } else if d == 12 {
        'c'
    } else if d == 13 {
        'd'
    } else if d == 14 {
        'e'
    } else {
        'f'
    }
}

/// A byte as two lowercase hexadecimal digits.
pub open spec fn hex_byte(b: u8) -> Seq<char> {
    seq![hex_digit((b / 16) as nat), hex_digit((b % 16) as nat)]
}

fn hex_digit_char(d: u8) -> (c: char)
    requires
        d < 16,
    ensures
        c == hex_digit(d as nat),
{
    if d == 0 { '0' }
    else if d == 1 { '1' }
    else if d == 2 { '2' }
    else if d == 3 { '3' }
    else if d == 4 { '4' }
    else if d == 5 { '5' }
    else if d == 6 { '6' }
    else if d == 7 { '7' }
    else if d == 8 { '8' }
    else if d == 9 { '9' }
    else if d == 10 { 'a' }
    else if d == 11 { 'b' }
    else if d == 12 { 'c' }
    else if d == 13 { 'd' }
    else if d == 14 { 'e' }
    else { 'f' }
}

/// The colour written as `rrggbb` in lowercase hexadecimal, as `{:02x}` writes
/// each channel.
pub fn hex_color(red: u8, green: u8, blue: u8) -> (s: String)
    ensures
        s@ == hex_byte(red) + hex_byte(green) + hex_byte(blue),
{
    let mut s = String::new();
    push_char(&mut s, hex_digit_char(red / 16));
    push_char(&mut s, hex_digit_char(red % 16));
    push_char(&mut s, hex_digit_char(green / 16));
    push_char(&mut s, hex_digit_char(green % 16));
    push_char(&mut s, hex_digit_char(blue / 16));
    push_char(&mut s, hex_digit_char(blue % 16));
    assert(s@ =~= hex_byte(red) + hex_byte(green) + hex_byte(blue));
    s
}

/// The colour scheme of the text views: a dark one on a light foreground, that
/// is in a dark theme, and Adwaita otherwise.
pub fn color_scheme_name(dark_theme: bool) -> (name: String)
    ensures
        name@ == (if dark_theme {
            "encode-dark"@
        } else {
            "Adwaita"@
        }),
{
    if dark_theme {
        String::from_str("encode-dark")
    } else {
        String::from_str("Adwaita")
    }
}

/// The name of the application icon drawn in the foreground colour `hex`.
pub fn search_icon_name(hex: &str) -> (name: String)
    ensures
        name@ == "encode-"@ + hex@,
{
    let mut name = String::from_str("encode-");
    name.append(hex);
    name
}

/// The file name of an icon: its name and the `.svg` extension.
pub fn svg_file_name(name: &str) -> (file: String)
    ensures
        file@ == name@ + ".svg"@,
{
    let mut file = String::from_str(name);
    file.append(".svg");
    file
}

/// An icon drawn in black, redrawn in the colour `hex`: each `"black"` becomes
/// `"#` followed by the colour and `"`.
pub fn recolor_svg(svg: &str, hex: &str) -> (r: String)
    ensures
        r@ == replace_all(svg@, "\"black\""@, "\"#"@ + hex@ + "\""@),
{
    let pat = "\"black\"";
    proof {
        reveal_strlit("\"black\"");
    }
    let mut rep = String::from_str("\"#");
    rep.append(hex);
    rep.append("\"");
    replace_text(svg, pat, rep.as_str())
}

/// The application icon drawn in the colour `hex`: each `fill="black"` becomes
/// `fill="#` followed by the colour and `"`.
pub fn recolor_svg_fill(svg: &str, hex: &str) -> (r: String)
    ensures
        r@ == replace_all(svg@, "fill=\"black\""@, "fill=\"#"@ + hex@ + "\""@),
{
    let pat = "fill=\"black\"";
    proof {
        reveal_strlit("fill=\"black\"");
    }
    let mut rep = String::from_str("fill=\"#");
    rep.append(hex);
    rep.append("\"");
    replace_text(svg, pat, rep.as_str())
}

} // verus!

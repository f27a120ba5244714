//! Images as positioned HTML blocks.
//!
//! Positions and sizes come in document units, of which 7200 make an inch,
//! and go out in millimetres with at most two decimal places.

use vstd::prelude::*;
use crate::number::{decimal, digit_char, push_decimal};
use crate::text::{push_str, string_of};

verus! {

/// A length of `value` document units in hundredths of a millimetre, to
/// the nearest one, a half counting up; without its sign. An inch is 7200
/// units and 25.4 millimetres, so a unit is 127/360 of a hundredth.
pub open spec fn hundredths_of_mm(value: int) -> nat {
    let units = if value < 0 {
        -value
    } else {
        value
    };
    ((2 * units * 127 + 360) / 720) as nat
}

/// The decimal places of a number of hundredths, without zeros at the end:
/// nothing for a whole number, else a point and one or two digits.
pub open spec fn decimal_places(hundredths: nat) -> Seq<char> {
    let rest = hundredths % 100;
    if rest == 0 {
        Seq::empty()
    } else if rest % 10 == 0 {
        seq!['.', digit_char((rest / 10) as int)]
    } else {
        seq!['.', digit_char((rest / 10) as int), digit_char((rest % 10) as int)]
    }
}

/// A length of `value` document units, written in millimetres: a minus
/// sign for a negative length, the whole millimetres, and the decimal
/// places that are not zero.
pub open spec fn millimetres(value: i32) -> Seq<char> {
    let h = hundredths_of_mm(value as int);
    let sign = if value < 0 {
        seq!['-']
    } else {
        Seq::empty()
    };
    sign + decimal(h / 100) + decimal_places(h)
}

/// Appends a length in millimetres to `out`.
pub fn push_millimetres(out: &mut Vec<char>, value: i32)
    ensures
        final(out)@ == old(out)@ + millimetres(value),
{
    let units: u64 = if value < 0 {
        (-(value as i64)) as u64
    } else {
        value as u64
    };
    let h: u64 = (2 * units * 127 + 360) / 720;
    let mut text: Vec<char> = Vec::new();
    if value < 0 {
        text.push('-');
    }
    push_decimal(&mut text, h / 100);
    let rest = h % 100;
    if rest != 0 {
        text.push('.');
        push_decimal(&mut text, rest / 10);
        if rest % 10 != 0 {
            push_decimal(&mut text, rest % 10);
        }
    }
    crate::text::push_range(out, &text, 0, text.len());
}

/// The HTML block of an image at a position, of a size.
pub open spec fn image_block(image_url: Seq<char>, left: i32, top: i32, width: i32, height: i32)
    -> Seq<char> {
    "<div class=\"hsR\" style=\"top:"@ + millimetres(top) + "mm;left:"@ + millimetres(left)
        + "mm;width:"@ + millimetres(width) + "mm;height:"@ + millimetres(height)
        + "mm;background-repeat:no-repeat;background-size:contain;background-image:url('"@
        + image_url + "');\"></div>"@
}

/// Renders an image as an HTML block at the position (`left`, `top`), of
/// the size `width` by `height`, all in document units.
pub fn render_image(image_url: &str, left: i32, top: i32, width: i32, height: i32) -> (html: String)
    ensures
        html@ == image_block(image_url@, left, top, width, height),
{
    let mut out: Vec<char> = Vec::new();
    push_str(&mut out, "<div class=\"hsR\" style=\"top:");
    push_millimetres(&mut out, top);
    push_str(&mut out, "mm;left:");
    push_millimetres(&mut out, left);
    push_str(&mut out, "mm;width:");
    push_millimetres(&mut out, width);
    push_str(&mut out, "mm;height:");
    push_millimetres(&mut out, height);
    push_str(
        &mut out,
        "mm;background-repeat:no-repeat;background-size:contain;background-image:url('",
    );
    push_str(&mut out, image_url);
    push_str(&mut out, "');\"></div>");
    string_of(&out)
}

/// The HTML block of an image that stands in a line of text, with margins
/// below it and to its right.
pub open spec fn inline_image_block(
    image_url: Seq<char>,
    left: i32,
    top: i32,
    width: i32,
    height: i32,
    margin_bottom: i32,
    margin_right: i32,
) -> Seq<char> {
    "<div class=\"hsR\" style=\"top:"@ + millimetres(top) + "mm;left:"@ + millimetres(left)
        + "mm;margin-bottom:"@ + millimetres(margin_bottom) + "mm;margin-right:"@ + millimetres(
        margin_right,
    ) + "mm;width:"@ + millimetres(width) + "mm;height:"@ + millimetres(height)
        + "mm;display:inline-block;position:relative;vertical-align:middle;background-repeat:no-repeat;background-size:contain;background-image:url('"@
        + image_url + "');\"></div>"@
}

/// Renders an image as an HTML block that stands in a line of text.
pub fn render_image_with_style(
    image_url: &str,
    left: i32,
    top: i32,
    width: i32,
    height: i32,
    margin_bottom: i32,
    margin_right: i32,
) -> (html: String)
    ensures
        html@ == inline_image_block(
            image_url@,
            left,
            top,
            width,
            height,
            margin_bottom,
            margin_right,
        ),
{
    let mut out: Vec<char> = Vec::new();
    push_str(&mut out, "<div class=\"hsR\" style=\"top:");
    push_millimetres(&mut out, top);
    push_str(&mut out, "mm;left:");
    push_millimetres(&mut out, left);
    push_str(&mut out, "mm;margin-bottom:");
    push_millimetres(&mut out, margin_bottom);
    push_str(&mut out, "mm;margin-right:");
    push_millimetres(&mut out, margin_right);
    push_str(&mut out, "mm;width:");
    push_millimetres(&mut out, width);
    push_str(&mut out, "mm;height:");
    push_millimetres(&mut out, height);
    push_str(
        &mut out,
        "mm;display:inline-block;position:relative;vertical-align:middle;background-repeat:no-repeat;background-size:contain;background-image:url('",
    );
    push_str(&mut out, image_url);
    push_str(&mut out, "');\"></div>");
    string_of(&out)
}

} // verus!

//! Colour helpers of the 3D view: CSS colour names, the `#rgb` and
//! `#rrggbb` notations, the parts of
//! `rgb(...)`-style functions, decimal literals, and the FNV-1a signature
//! over which the scene is rebuilt.
use vstd::prelude::*;
use vstd::arithmetic::div_mod::lemma_breakdown;

use crate::sim::expr::{digit_value_in, to_digit};
use crate::sim::regex::{decimal_value, digit_value, lemma_decimal_nonneg};
use crate::text::{chars_of, str_eq, string_of, trim_chars, trimmed};

verus! {

// ---------------------------------------------------------------------
// Named colours

/// The 24-bit RGB value of a CSS colour name (lowercase).
pub open spec fn css_color_value(name: Seq<char>) -> Option<u32> {
    if name == "aliceblue"@ {
        Some(0xf0f8ff)
    } else if name == "antiquewhite"@ {
        Some(0xfaebd7)
    } else if name == "aqua"@ {
        Some(0x00ffff)
    } else if name == "aquamarine"@ {
        Some(0x7fffd4)
    } else if name == "azure"@ {
        Some(0xf0ffff)
    } else if name == "beige"@ {
        Some(0xf5f5dc)
    } else if name == "bisque"@ {
        Some(0xffe4c4)
    } else if name == "black"@ {
        Some(0x000000)
    } else if name == "blanchedalmond"@ {
        Some(0xffebcd)
    } else if name == "blue"@ {
        Some(0x0000ff)
    } else if name == "blueviolet"@ {
        Some(0x8a2be2)
    } else if name == "brown"@ {
        Some(0xa52a2a)
    } else if name == "burlywood"@ {
        Some(0xdeb887)
    } else if name == "cadetblue"@ {
        Some(0x5f9ea0)
    } else if name == "chartreuse"@ {
        Some(0x7fff00)
    } else if name == "chocolate"@ {
        Some(0xd2691e)
    } else if name == "coral"@ {
        Some(0xff7f50)
    } else if name == "cornflowerblue"@ {
        Some(0x6495ed)
    } else if name == "cornsilk"@ {
        Some(0xfff8dc)
    } else if name == "crimson"@ {
        Some(0xdc143c)
    } else if name == "cyan"@ {
        Some(0x00ffff)
    } else if name == "darkblue"@ {
        Some(0x00008b)
    } else if name == "darkcyan"@ {
        Some(0x008b8b)
    } else if name == "darkgoldenrod"@ {
        Some(0xb8860b)
    } else if name == "darkgray"@ {
        Some(0xa9a9a9)
    } else if name == "darkgreen"@ {
        Some(0x006400)
    } else if name == "darkgrey"@ {
        Some(0xa9a9a9)
    } else if name == "darkkhaki"@ {
        Some(0xbdb76b)
    } else if name == "darkmagenta"@ {
        Some(0x8b008b)
    } else if name == "darkolivegreen"@ {
        Some(0x556b2f)
    } else if name == "darkorange"@ {
        Some(0xff8c00)
    } else if name == "darkorchid"@ {
        Some(0x9932cc)
    } else if name == "darkred"@ {
        Some(0x8b0000)
    } else if name == "darksalmon"@ {
        Some(0xe9967a)
    } else if name == "darkseagreen"@ {
        Some(0x8fbc8f)
    } else if name == "darkslateblue"@ {
        Some(0x483d8b)
    } else if name == "darkslategray"@ {
        Some(0x2f4f4f)
    } else if name == "darkslategrey"@ {
        Some(0x2f4f4f)
    } else if name == "darkturquoise"@ {
        Some(0x00ced1)
    } else if name == "darkviolet"@ {
        Some(0x9400d3)
    } else if name == "deeppink"@ {
        Some(0xff1493)
    } else if name == "deepskyblue"@ {
        Some(0x00bfff)
    } else if name == "dimgray"@ {
        Some(0x696969)
    } else if name == "dimgrey"@ {
        Some(0x696969)
    } else if name == "dodgerblue"@ {
        Some(0x1e90ff)
    } else if name == "firebrick"@ {
        Some(0xb22222)
    } else if name == "floralwhite"@ {
        Some(0xfffaf0)
    } else if name == "forestgreen"@ {
        Some(0x228b22)
    } else if name == "fuchsia"@ {
        Some(0xff00ff)
    } else if name == "gainsboro"@ {
        Some(0xdcdcdc)
    } else if name == "ghostwhite"@ {
        Some(0xf8f8ff)
    } else if name == "gold"@ {
        Some(0xffd700)
    } else if name == "goldenrod"@ {
        Some(0xdaa520)
    } else if name == "gray"@ {
        Some(0x808080)
    } else if name == "green"@ {
        Some(0x008000)
    } else if name == "greenyellow"@ {
        Some(0xadff2f)
    } else if name == "grey"@ {
        Some(0x808080)
    } else if name == "honeydew"@ {
        Some(0xf0fff0)
    } else if name == "hotpink"@ {
        Some(0xff69b4)
    } else if name == "indianred"@ {
        Some(0xcd5c5c)
    } else if name == "indigo"@ {
        Some(0x4b0082)
    } else if name == "ivory"@ {
        Some(0xfffff0)
    } else if name == "khaki"@ {
        Some(0xf0e68c)
    } else if name == "lavender"@ {
        Some(0xe6e6fa)
    } else if name == "lavenderblush"@ {
        Some(0xfff0f5)
    } else if name == "lawngreen"@ {
        Some(0x7cfc00)
    } else if name == "lemonchiffon"@ {
        Some(0xfffacd)
    } else if name == "lightblue"@ {
        Some(0xadd8e6)
    } else if name == "lightcoral"@ {
        Some(0xf08080)
    } else if name == "lightcyan"@ {
        Some(0xe0ffff)
    } else if name == "lightgoldenrodyellow"@ {
        Some(0xfafad2)
    } else if name == "lightgray"@ {
        Some(0xd3d3d3)
    } else if name == "lightgreen"@ {
        Some(0x90ee90)
    } else if name == "lightgrey"@ {
        Some(0xd3d3d3)
    } else if name == "lightpink"@ {
        Some(0xffb6c1)
    } else if name == "lightsalmon"@ {
        Some(0xffa07a)
    } else if name == "lightseagreen"@ {
        Some(0x20b2aa)
    } else if name == "lightskyblue"@ {
        Some(0x87cefa)
    } else if name == "lightslategray"@ {
        Some(0x778899)
    } else if name == "lightslategrey"@ {
        Some(0x778899)
    } else if name == "lightsteelblue"@ {
        Some(0xb0c4de)
    } else if name == "lightyellow"@ {
        Some(0xffffe0)
    } else if name == "lime"@ {
        Some(0x00ff00)
    } else if name == "limegreen"@ {
        Some(0x32cd32)
    } else if name == "linen"@ {
        Some(0xfaf0e6)
    } else if name == "magenta"@ {
        Some(0xff00ff)
    } else if name == "maroon"@ {
        Some(0x800000)
    } else if name == "mediumaquamarine"@ {
        Some(0x66cdaa)
    } else if name == "mediumblue"@ {
        Some(0x0000cd)
    } else if name == "mediumorchid"@ {
        Some(0xba55d3)
    } else if name == "mediumpurple"@ {
        Some(0x9370db)
    } else if name == "mediumseagreen"@ {
        Some(0x3cb371)
    } else if name == "mediumslateblue"@ {
        Some(0x7b68ee)
    } else if name == "mediumspringgreen"@ {
        Some(0x00fa9a)
    } else if name == "mediumturquoise"@ {
        Some(0x48d1cc)
    } else if name == "mediumvioletred"@ {
        Some(0xc71585)
    } else if name == "midnightblue"@ {
        Some(0x191970)
    } else if name == "mintcream"@ {
        Some(0xf5fffa)
    } else if name == "mistyrose"@ {
        Some(0xffe4e1)
    } else if name == "moccasin"@ {
        Some(0xffe4b5)
    } else if name == "navajowhite"@ {
        Some(0xffdead)
    } else if name == "navy"@ {
        Some(0x000080)
    } else if name == "oldlace"@ {
        Some(0xfdf5e6)
    } else if name == "olive"@ {
        Some(0x808000)
    } else if name == "olivedrab"@ {
        Some(0x6b8e23)
    } else if name == "orange"@ {
        Some(0xffa500)
    } else if name == "orangered"@ {
        Some(0xff4500)
    } else if name == "orchid"@ {
        Some(0xda70d6)
    } else if name == "palegoldenrod"@ {
        Some(0xeee8aa)
    } else if name == "palegreen"@ {
        Some(0x98fb98)
    } else if name == "paleturquoise"@ {
        Some(0xafeeee)
    } else if name == "palevioletred"@ {
        Some(0xdb7093)
    } else if name == "papayawhip"@ {
        Some(0xffefd5)
    } else if name == "peachpuff"@ {
        Some(0xffdab9)
    } else if name == "peru"@ {
        Some(0xcd853f)
    } else if name == "pink"@ {
        Some(0xffc0cb)
    } else if name == "plum"@ {
        Some(0xdda0dd)
    } else if name == "powderblue"@ {
        Some(0xb0e0e6)
    } else if name == "purple"@ {
        Some(0x800080)
    } else if name == "rebeccapurple"@ {
        Some(0x663399)
    } else if name == "red"@ {
        Some(0xff0000)
    } else if name == "rosybrown"@ {
        Some(0xbc8f8f)
    } else if name == "royalblue"@ {
        Some(0x4169e1)
    } else if name == "saddlebrown"@ {
        Some(0x8b4513)
    } else if name == "salmon"@ {
        Some(0xfa8072)
    } else if name == "sandybrown"@ {
        Some(0xf4a460)
    } else if name == "seagreen"@ {
        Some(0x2e8b57)
    } else if name == "seashell"@ {
        Some(0xfff5ee)
    } else if name == "sienna"@ {
        Some(0xa0522d)
    } else if name == "silver"@ {
        Some(0xc0c0c0)
    } else if name == "skyblue"@ {
        Some(0x87ceeb)
    } else if name == "slateblue"@ {
        Some(0x6a5acd)
    } else if name == "slategray"@ {
        Some(0x708090)
    } else if name == "slategrey"@ {
        Some(0x708090)
    } else if name == "snow"@ {
        Some(0xfffafa)
    } else if name == "springgreen"@ {
        Some(0x00ff7f)
    } else if name == "steelblue"@ {
        Some(0x4682b4)
    } else if name == "tan"@ {
        Some(0xd2b48c)
    } else if name == "teal"@ {
        Some(0x008080)
    } else if name == "thistle"@ {
        Some(0xd8bfd8)
    } else if name == "tomato"@ {
        Some(0xff6347)
    } else if name == "turquoise"@ {
        Some(0x40e0d0)
    } else if name == "violet"@ {
        Some(0xee82ee)
    } else if name == "wheat"@ {
        Some(0xf5deb3)
    } else if name == "white"@ {
        Some(0xffffff)
    } else if name == "whitesmoke"@ {
        Some(0xf5f5f5)
    } else if name == "yellow"@ {
        Some(0xffff00)
    } else if name == "yellowgreen"@ {
        Some(0x9acd32)
    } else {
        None
    }
}

/// The 24-bit RGB value of a CSS colour name.
pub fn css_color_name(name: &str) -> (value: Option<u32>)
    ensures
        value == css_color_value(name@),
{
    if str_eq(name, "aliceblue") {
        Some(0xf0f8ff)
    } else if str_eq(name, "antiquewhite") {
        Some(0xfaebd7)
    } else if str_eq(name, "aqua") {
        Some(0x00ffff)
    } else if str_eq(name, "aquamarine") {
        Some(0x7fffd4)
    } else if str_eq(name, "azure") {
        Some(0xf0ffff)
    } else if str_eq(name, "beige") {
        Some(0xf5f5dc)
    } else if str_eq(name, "bisque") {
        Some(0xffe4c4)
    } else if str_eq(name, "black") {
        Some(0x000000)
    } else if str_eq(name, "blanchedalmond") {
        Some(0xffebcd)
    } else if str_eq(name, "blue") {
        Some(0x0000ff)
    } else if str_eq(name, "blueviolet") {
        Some(0x8a2be2)
    } else if str_eq(name, "brown") {
        Some(0xa52a2a)
    } else if str_eq(name, "burlywood") {
        Some(0xdeb887)
    } else if str_eq(name, "cadetblue") {
        Some(0x5f9ea0)
    } else if str_eq(name, "chartreuse") {
        Some(0x7fff00)
    } else if str_eq(name, "chocolate") {
        Some(0xd2691e)
    } else if str_eq(name, "coral") {
        Some(0xff7f50)
    } else if str_eq(name, "cornflowerblue") {
        Some(0x6495ed)
    } else if str_eq(name, "cornsilk") {
        Some(0xfff8dc)
    } else if str_eq(name, "crimson") {
        Some(0xdc143c)
    } else if str_eq(name, "cyan") {
        Some(0x00ffff)
    } else if str_eq(name, "darkblue") {
        Some(0x00008b)
    } else if str_eq(name, "darkcyan") {
        Some(0x008b8b)
    } else if str_eq(name, "darkgoldenrod") {
        Some(0xb8860b)
    } else if str_eq(name, "darkgray") {
        Some(0xa9a9a9)
    } else if str_eq(name, "darkgreen") {
        Some(0x006400)
    } else if str_eq(name, "darkgrey") {
        Some(0xa9a9a9)
    } else if str_eq(name, "darkkhaki") {
        Some(0xbdb76b)
    } else if str_eq(name, "darkmagenta") {
        Some(0x8b008b)
    } else if str_eq(name, "darkolivegreen") {
        Some(0x556b2f)
    } else if str_eq(name, "darkorange") {
        Some(0xff8c00)
    } else if str_eq(name, "darkorchid") {
        Some(0x9932cc)
    } else if str_eq(name, "darkred") {
        Some(0x8b0000)
    } else if str_eq(name, "darksalmon") {
        Some(0xe9967a)
    } else if str_eq(name, "darkseagreen") {
        Some(0x8fbc8f)
    } else if str_eq(name, "darkslateblue") {
        Some(0x483d8b)
    } else if str_eq(name, "darkslategray") {
        Some(0x2f4f4f)
    } else if str_eq(name, "darkslategrey") {
        Some(0x2f4f4f)
    } else if str_eq(name, "darkturquoise") {
        Some(0x00ced1)
    } else if str_eq(name, "darkviolet") {
        Some(0x9400d3)
    } else if str_eq(name, "deeppink") {
        Some(0xff1493)
    } else if str_eq(name, "deepskyblue") {
        Some(0x00bfff)
    } else if str_eq(name, "dimgray") {
        Some(0x696969)
    } else if str_eq(name, "dimgrey") {
        Some(0x696969)
    } else if str_eq(name, "dodgerblue") {
        Some(0x1e90ff)
    } else if str_eq(name, "firebrick") {
        Some(0xb22222)
    } else if str_eq(name, "floralwhite") {
        Some(0xfffaf0)
    } else if str_eq(name, "forestgreen") {
        Some(0x228b22)
    } else if str_eq(name, "fuchsia") {
        Some(0xff00ff)
    } else if str_eq(name, "gainsboro") {
        Some(0xdcdcdc)
    } else if str_eq(name, "ghostwhite") {
        Some(0xf8f8ff)
    } else if str_eq(name, "gold") {
        Some(0xffd700)
    } else if str_eq(name, "goldenrod") {
        Some(0xdaa520)
    } else if str_eq(name, "gray") {
        Some(0x808080)
    } else if str_eq(name, "green") {
        Some(0x008000)
    } else if str_eq(name, "greenyellow") {
        Some(0xadff2f)
    } else if str_eq(name, "grey") {
        Some(0x808080)
    } else if str_eq(name, "honeydew") {
        Some(0xf0fff0)
    } else if str_eq(name, "hotpink") {
        Some(0xff69b4)
    } else if str_eq(name, "indianred") {
        Some(0xcd5c5c)
    } else if str_eq(name, "indigo") {
        Some(0x4b0082)
    } else if str_eq(name, "ivory") {
        Some(0xfffff0)
    } else if str_eq(name, "khaki") {
        Some(0xf0e68c)
    } else if str_eq(name, "lavender") {
        Some(0xe6e6fa)
    } else if str_eq(name, "lavenderblush") {
        Some(0xfff0f5)
    } else if str_eq(name, "lawngreen") {
        Some(0x7cfc00)
    } else if str_eq(name, "lemonchiffon") {
        Some(0xfffacd)
    } else if str_eq(name, "lightblue") {
        Some(0xadd8e6)
    } else if str_eq(name, "lightcoral") {
        Some(0xf08080)
    } else if str_eq(name, "lightcyan") {
        Some(0xe0ffff)
    } else if str_eq(name, "lightgoldenrodyellow") {
        Some(0xfafad2)
    } else if str_eq(name, "lightgray") {
        Some(0xd3d3d3)
    } else if str_eq(name, "lightgreen") {
        Some(0x90ee90)
    } else if str_eq(name, "lightgrey") {
        Some(0xd3d3d3)
    } else if str_eq(name, "lightpink") {
        Some(0xffb6c1)
    } else if str_eq(name, "lightsalmon") {
        Some(0xffa07a)
    } else if str_eq(name, "lightseagreen") {
        Some(0x20b2aa)
    } else if str_eq(name, "lightskyblue") {
        Some(0x87cefa)
    } else if str_eq(name, "lightslategray") {
        Some(0x778899)
    } else if str_eq(name, "lightslategrey") {
        Some(0x778899)
    } else if str_eq(name, "lightsteelblue") {
        Some(0xb0c4de)
    } else if str_eq(name, "lightyellow") {
        Some(0xffffe0)
    } else if str_eq(name, "lime") {
        Some(0x00ff00)
    } else if str_eq(name, "limegreen") {
        Some(0x32cd32)
    } else if str_eq(name, "linen") {
        Some(0xfaf0e6)
    } else if str_eq(name, "magenta") {
        Some(0xff00ff)
    } else if str_eq(name, "maroon") {
        Some(0x800000)
    } else if str_eq(name, "mediumaquamarine") {
        Some(0x66cdaa)
    } else if str_eq(name, "mediumblue") {
        Some(0x0000cd)
    } else if str_eq(name, "mediumorchid") {
        Some(0xba55d3)
    } else if str_eq(name, "mediumpurple") {
        Some(0x9370db)
    } else if str_eq(name, "mediumseagreen") {
        Some(0x3cb371)
    } else if str_eq(name, "mediumslateblue") {
        Some(0x7b68ee)
    } else if str_eq(name, "mediumspringgreen") {
        Some(0x00fa9a)
    } else if str_eq(name, "mediumturquoise") {
        Some(0x48d1cc)
    } else if str_eq(name, "mediumvioletred") {
        Some(0xc71585)
    } else if str_eq(name, "midnightblue") {
        Some(0x191970)
    } else if str_eq(name, "mintcream") {
        Some(0xf5fffa)
    } else if str_eq(name, "mistyrose") {
        Some(0xffe4e1)
    } else if str_eq(name, "moccasin") {
        Some(0xffe4b5)
    } else if str_eq(name, "navajowhite") {
        Some(0xffdead)
    } else if str_eq(name, "navy") {
        Some(0x000080)
    } else if str_eq(name, "oldlace") {
        Some(0xfdf5e6)
    } else if str_eq(name, "olive") {
        Some(0x808000)
    } else if str_eq(name, "olivedrab") {
        Some(0x6b8e23)
    } else if str_eq(name, "orange") {
        Some(0xffa500)
    } else if str_eq(name, "orangered") {
        Some(0xff4500)
    } else if str_eq(name, "orchid") {
        Some(0xda70d6)
    } else if str_eq(name, "palegoldenrod") {
        Some(0xeee8aa)
    } else if str_eq(name, "palegreen") {
        Some(0x98fb98)
    } else if str_eq(name, "paleturquoise") {
        Some(0xafeeee)
    } else if str_eq(name, "palevioletred") {
        Some(0xdb7093)
    } else if str_eq(name, "papayawhip") {
        Some(0xffefd5)
    } else if str_eq(name, "peachpuff") {
        Some(0xffdab9)
    } else if str_eq(name, "peru") {
        Some(0xcd853f)
    } else if str_eq(name, "pink") {
        Some(0xffc0cb)
    } else if str_eq(name, "plum") {
        Some(0xdda0dd)
    } else if str_eq(name, "powderblue") {
        Some(0xb0e0e6)
    } else if str_eq(name, "purple") {
        Some(0x800080)
    } else if str_eq(name, "rebeccapurple") {
        Some(0x663399)
    } else if str_eq(name, "red") {
        Some(0xff0000)
    } else if str_eq(name, "rosybrown") {
        Some(0xbc8f8f)
    } else if str_eq(name, "royalblue") {
        Some(0x4169e1)
    } else if str_eq(name, "saddlebrown") {
        Some(0x8b4513)
    } else if str_eq(name, "salmon") {
        Some(0xfa8072)
    } else if str_eq(name, "sandybrown") {
        Some(0xf4a460)
    } else if str_eq(name, "seagreen") {
        Some(0x2e8b57)
    } else if str_eq(name, "seashell") {
        Some(0xfff5ee)
    } else if str_eq(name, "sienna") {
        Some(0xa0522d)
    } else if str_eq(name, "silver") {
        Some(0xc0c0c0)
    } else if str_eq(name, "skyblue") {
        Some(0x87ceeb)
    } else if str_eq(name, "slateblue") {
        Some(0x6a5acd)
    } else if str_eq(name, "slategray") {
        Some(0x708090)
    } else if str_eq(name, "slategrey") {
        Some(0x708090)
    } else if str_eq(name, "snow") {
        Some(0xfffafa)
    } else if str_eq(name, "springgreen") {
        Some(0x00ff7f)
    } else if str_eq(name, "steelblue") {
        Some(0x4682b4)
    } else if str_eq(name, "tan") {
        Some(0xd2b48c)
    } else if str_eq(name, "teal") {
        Some(0x008080)
    } else if str_eq(name, "thistle") {
        Some(0xd8bfd8)
    } else if str_eq(name, "tomato") {
        Some(0xff6347)
    } else if str_eq(name, "turquoise") {
        Some(0x40e0d0)
    } else if str_eq(name, "violet") {
        Some(0xee82ee)
    } else if str_eq(name, "wheat") {
        Some(0xf5deb3)
    } else if str_eq(name, "white") {
        Some(0xffffff)
    } else if str_eq(name, "whitesmoke") {
        Some(0xf5f5f5)
    } else if str_eq(name, "yellow") {
        Some(0xffff00)
    } else if str_eq(name, "yellowgreen") {
        Some(0x9acd32)
    } else {
        None
    }
}

/// Whether `a` and `b` are two spellings of one CSS colour: `aqua` and
/// `cyan`, `fuchsia` and `magenta`, or one name written with `gray` at its
/// end and with `grey`.
pub open spec fn css_spellings(a: Seq<char>, b: Seq<char>) -> bool {
    let n = a.len() - 4;
    ||| (a == "aqua"@ && b == "cyan"@) || (a == "cyan"@ && b == "aqua"@)
    ||| (a == "fuchsia"@ && b == "magenta"@) || (a == "magenta"@ && b == "fuchsia"@)
    ||| a.len() == b.len() && n >= 0 && a.take(n) == b.take(n) && ((a.skip(n) == "gray"@ && b.skip(n)
        == "grey"@) || (a.skip(n) == "grey"@ && b.skip(n) == "gray"@))
}

/// The gray and grey names of the CSS table are spellings of each other.
proof fn lemma_gray_spellings()
    ensures
        css_spellings("darkgray"@, "darkgrey"@),
        css_spellings("darkgrey"@, "darkgray"@),
        css_spellings("darkslategray"@, "darkslategrey"@),
        css_spellings("darkslategrey"@, "darkslategray"@),
        css_spellings("dimgray"@, "dimgrey"@),
        css_spellings("dimgrey"@, "dimgray"@),
        css_spellings("gray"@, "grey"@),
        css_spellings("grey"@, "gray"@),
        css_spellings("lightgray"@, "lightgrey"@),
        css_spellings("lightgrey"@, "lightgray"@),
        css_spellings("lightslategray"@, "lightslategrey"@),
        css_spellings("lightslategrey"@, "lightslategray"@),
        css_spellings("slategray"@, "slategrey"@),
        css_spellings("slategrey"@, "slategray"@),
{
    reveal_strlit("gray");
    reveal_strlit("grey");
    assert("gray"@ =~= seq!['g', 'r', 'a', 'y']);
    assert("grey"@ =~= seq!['g', 'r', 'e', 'y']);
    reveal_strlit("darkgray");
    assert("darkgray"@ =~= seq!['d', 'a', 'r', 'k', 'g', 'r', 'a', 'y']);
    assert("darkgray"@.take(4) =~= seq!['d', 'a', 'r', 'k']);
    assert("darkgray"@.skip(4) =~= "gray"@);
    reveal_strlit("darkgrey");
    assert("darkgrey"@ =~= seq!['d', 'a', 'r', 'k', 'g', 'r', 'e', 'y']);
    assert("darkgrey"@.take(4) =~= seq!['d', 'a', 'r', 'k']);
    assert("darkgrey"@.skip(4) =~= "grey"@);
    reveal_strlit("darkslategray");
    assert("darkslategray"@ =~= seq!['d', 'a', 'r', 'k', 's', 'l', 'a', 't', 'e', 'g', 'r', 'a', 'y']);
    assert("darkslategray"@.take(9) =~= seq!['d', 'a', 'r', 'k', 's', 'l', 'a', 't', 'e']);
    assert("darkslategray"@.skip(9) =~= "gray"@);
    reveal_strlit("darkslategrey");
    assert("darkslategrey"@ =~= seq!['d', 'a', 'r', 'k', 's', 'l', 'a', 't', 'e', 'g', 'r', 'e', 'y']);
    assert("darkslategrey"@.take(9) =~= seq!['d', 'a', 'r', 'k', 's', 'l', 'a', 't', 'e']);
    assert("darkslategrey"@.skip(9) =~= "grey"@);
    reveal_strlit("dimgray");
    assert("dimgray"@ =~= seq!['d', 'i', 'm', 'g', 'r', 'a', 'y']);
    assert("dimgray"@.take(3) =~= seq!['d', 'i', 'm']);
    assert("dimgray"@.skip(3) =~= "gray"@);
    reveal_strlit("dimgrey");
    assert("dimgrey"@ =~= seq!['d', 'i', 'm', 'g', 'r', 'e', 'y']);
    assert("dimgrey"@.take(3) =~= seq!['d', 'i', 'm']);
    assert("dimgrey"@.skip(3) =~= "grey"@);
    reveal_strlit("gray");
    assert("gray"@ =~= seq!['g', 'r', 'a', 'y']);
    assert("gray"@.take(0) =~= Seq::<char>::empty());
    assert("gray"@.skip(0) =~= "gray"@);
    reveal_strlit("grey");
    assert("grey"@ =~= seq!['g', 'r', 'e', 'y']);
    assert("grey"@.take(0) =~= Seq::<char>::empty());
    assert("grey"@.skip(0) =~= "grey"@);
    reveal_strlit("lightgray");
    assert("lightgray"@ =~= seq!['l', 'i', 'g', 'h', 't', 'g', 'r', 'a', 'y']);
    assert("lightgray"@.take(5) =~= seq!['l', 'i', 'g', 'h', 't']);
    assert("lightgray"@.skip(5) =~= "gray"@);
    reveal_strlit("lightgrey");
    assert("lightgrey"@ =~= seq!['l', 'i', 'g', 'h', 't', 'g', 'r', 'e', 'y']);
    assert("lightgrey"@.take(5) =~= seq!['l', 'i', 'g', 'h', 't']);
    assert("lightgrey"@.skip(5) =~= "grey"@);
    reveal_strlit("lightslategray");
    assert("lightslategray"@ =~= seq!['l', 'i', 'g', 'h', 't', 's', 'l', 'a', 't', 'e', 'g', 'r', 'a', 'y']);
    assert("lightslategray"@.take(10) =~= seq!['l', 'i', 'g', 'h', 't', 's', 'l', 'a', 't', 'e']);
    assert("lightslategray"@.skip(10) =~= "gray"@);
    reveal_strlit("lightslategrey");
    assert("lightslategrey"@ =~= seq!['l', 'i', 'g', 'h', 't', 's', 'l', 'a', 't', 'e', 'g', 'r', 'e', 'y']);
    assert("lightslategrey"@.take(10) =~= seq!['l', 'i', 'g', 'h', 't', 's', 'l', 'a', 't', 'e']);
    assert("lightslategrey"@.skip(10) =~= "grey"@);
    reveal_strlit("slategray");
    assert("slategray"@ =~= seq!['s', 'l', 'a', 't', 'e', 'g', 'r', 'a', 'y']);
    assert("slategray"@.take(5) =~= seq!['s', 'l', 'a', 't', 'e']);
    assert("slategray"@.skip(5) =~= "gray"@);
    reveal_strlit("slategrey");
    assert("slategrey"@ =~= seq!['s', 'l', 'a', 't', 'e', 'g', 'r', 'e', 'y']);
    assert("slategrey"@.take(5) =~= seq!['s', 'l', 'a', 't', 'e']);
    assert("slategrey"@.skip(5) =~= "grey"@);
}

/// The first name of a colour value in the CSS table.
spec fn css_first_name(v: u32) -> Seq<char> {
    if v == 0xf0f8ff {
        "aliceblue"@
    } else if v == 0xfaebd7 {
        "antiquewhite"@
    } else if v == 0x00ffff {
        "aqua"@
    } else if v == 0x7fffd4 {
        "aquamarine"@
    } else if v == 0xf0ffff {
        "azure"@
    } else if v == 0xf5f5dc {
        "beige"@
    } else if v == 0xffe4c4 {
        "bisque"@
    } else if v == 0x000000 {
        "black"@
    } else if v == 0xffebcd {
        "blanchedalmond"@
    } else if v == 0x0000ff {
        "blue"@
    } else if v == 0x8a2be2 {
        "blueviolet"@
    } else if v == 0xa52a2a {
        "brown"@
    } else if v == 0xdeb887 {
        "burlywood"@
    } else if v == 0x5f9ea0 {
        "cadetblue"@
    } else if v == 0x7fff00 {
        "chartreuse"@
    } else if v == 0xd2691e {
        "chocolate"@
    } else if v == 0xff7f50 {
        "coral"@
    } else if v == 0x6495ed {
        "cornflowerblue"@
    } else if v == 0xfff8dc {
        "cornsilk"@
    } else if v == 0xdc143c {
        "crimson"@
    } else if v == 0x00008b {
        "darkblue"@
    } else if v == 0x008b8b {
        "darkcyan"@
    } else if v == 0xb8860b {
        "darkgoldenrod"@
    } else if v == 0xa9a9a9 {
        "darkgray"@
    } else if v == 0x006400 {
        "darkgreen"@
    } else if v == 0xbdb76b {
        "darkkhaki"@
    } else if v == 0x8b008b {
        "darkmagenta"@
    } else if v == 0x556b2f {
        "darkolivegreen"@
    } else if v == 0xff8c00 {
        "darkorange"@
    } else if v == 0x9932cc {
        "darkorchid"@
    } else if v == 0x8b0000 {
        "darkred"@
    } else if v == 0xe9967a {
        "darksalmon"@
    } else if v == 0x8fbc8f {
        "darkseagreen"@
    } else if v == 0x483d8b {
        "darkslateblue"@
    } else if v == 0x2f4f4f {
        "darkslategray"@
    } else if v == 0x00ced1 {
        "darkturquoise"@
    } else if v == 0x9400d3 {
        "darkviolet"@
    } else if v == 0xff1493 {
        "deeppink"@
    } else if v == 0x00bfff {
        "deepskyblue"@
    } else if v == 0x696969 {
        "dimgray"@
    } else if v == 0x1e90ff {
        "dodgerblue"@
    } else if v == 0xb22222 {
        "firebrick"@
    } else if v == 0xfffaf0 {
        "floralwhite"@
    } else if v == 0x228b22 {
        "forestgreen"@
    } else if v == 0xff00ff {
        "fuchsia"@
    } else if v == 0xdcdcdc {
        "gainsboro"@
    } else if v == 0xf8f8ff {
        "ghostwhite"@
    } else if v == 0xffd700 {
        "gold"@
    } else if v == 0xdaa520 {
        "goldenrod"@
    } else if v == 0x808080 {
        "gray"@
    } else if v == 0x008000 {
        "green"@
    } else if v == 0xadff2f {
        "greenyellow"@
    } else if v == 0xf0fff0 {
        "honeydew"@
    } else if v == 0xff69b4 {
        "hotpink"@
    } else if v == 0xcd5c5c {
        "indianred"@
    } else if v == 0x4b0082 {
        "indigo"@
    } else if v == 0xfffff0 {
        "ivory"@
    } else if v == 0xf0e68c {
        "khaki"@
    } else if v == 0xe6e6fa {
        "lavender"@
    } else if v == 0xfff0f5 {
        "lavenderblush"@
    } else if v == 0x7cfc00 {
        "lawngreen"@
    } else if v == 0xfffacd {
        "lemonchiffon"@
    } else if v == 0xadd8e6 {
        "lightblue"@
    } else if v == 0xf08080 {
        "lightcoral"@
    } else if v == 0xe0ffff {
        "lightcyan"@
    } else if v == 0xfafad2 {
        "lightgoldenrodyellow"@
    } else if v == 0xd3d3d3 {
        "lightgray"@
    } else if v == 0x90ee90 {
        "lightgreen"@
    } else if v == 0xffb6c1 {
        "lightpink"@
    } else if v == 0xffa07a {
        "lightsalmon"@
    } else if v == 0x20b2aa {
        "lightseagreen"@
    } else if v == 0x87cefa {
        "lightskyblue"@
    } else if v == 0x778899 {
        "lightslategray"@
    } else if v == 0xb0c4de {
        "lightsteelblue"@
    } else if v == 0xffffe0 {
        "lightyellow"@
    } else if v == 0x00ff00 {
        "lime"@
    } else if v == 0x32cd32 {
        "limegreen"@
    } else if v == 0xfaf0e6 {
        "linen"@
    } else if v == 0x800000 {
        "maroon"@
    } else if v == 0x66cdaa {
        "mediumaquamarine"@
    } else if v == 0x0000cd {
        "mediumblue"@
    } else if v == 0xba55d3 {
        "mediumorchid"@
    } else if v == 0x9370db {
        "mediumpurple"@
    } else if v == 0x3cb371 {
        "mediumseagreen"@
    } else if v == 0x7b68ee {
        "mediumslateblue"@
    } else if v == 0x00fa9a {
        "mediumspringgreen"@
    } else if v == 0x48d1cc {
        "mediumturquoise"@
    } else if v == 0xc71585 {
        "mediumvioletred"@
    } else if v == 0x191970 {
        "midnightblue"@
    } else if v == 0xf5fffa {
        "mintcream"@
    } else if v == 0xffe4e1 {
        "mistyrose"@
    } else if v == 0xffe4b5 {
        "moccasin"@
    } else if v == 0xffdead {
        "navajowhite"@
    } else if v == 0x000080 {
        "navy"@
    } else if v == 0xfdf5e6 {
        "oldlace"@
    } else if v == 0x808000 {
        "olive"@
    } else if v == 0x6b8e23 {
        "olivedrab"@
    } else if v == 0xffa500 {
        "orange"@
    } else if v == 0xff4500 {
        "orangered"@
    } else if v == 0xda70d6 {
        "orchid"@
    } else if v == 0xeee8aa {
        "palegoldenrod"@
    } else if v == 0x98fb98 {
        "palegreen"@
    } else if v == 0xafeeee {
        "paleturquoise"@
    } else if v == 0xdb7093 {
        "palevioletred"@
    } else if v == 0xffefd5 {
        "papayawhip"@
    } else if v == 0xffdab9 {
        "peachpuff"@
    } else if v == 0xcd853f {
        "peru"@
    } else if v == 0xffc0cb {
        "pink"@
    } else if v == 0xdda0dd {
        "plum"@
    } else if v == 0xb0e0e6 {
        "powderblue"@
    } else if v == 0x800080 {
        "purple"@
    } else if v == 0x663399 {
        "rebeccapurple"@
    } else if v == 0xff0000 {
        "red"@
    } else if v == 0xbc8f8f {
        "rosybrown"@
    } else if v == 0x4169e1 {
        "royalblue"@
    } else if v == 0x8b4513 {
        "saddlebrown"@
    } else if v == 0xfa8072 {
        "salmon"@
    } else if v == 0xf4a460 {
        "sandybrown"@
    } else if v == 0x2e8b57 {
        "seagreen"@
    } else if v == 0xfff5ee {
        "seashell"@
    } else if v == 0xa0522d {
        "sienna"@
    } else if v == 0xc0c0c0 {
        "silver"@
    } else if v == 0x87ceeb {
        "skyblue"@
    } else if v == 0x6a5acd {
        "slateblue"@
    } else if v == 0x708090 {
        "slategray"@
    } else if v == 0xfffafa {
        "snow"@
    } else if v == 0x00ff7f {
        "springgreen"@
    } else if v == 0x4682b4 {
        "steelblue"@
    } else if v == 0xd2b48c {
        "tan"@
    } else if v == 0x008080 {
        "teal"@
    } else if v == 0xd8bfd8 {
        "thistle"@
    } else if v == 0xff6347 {
        "tomato"@
    } else if v == 0x40e0d0 {
        "turquoise"@
    } else if v == 0xee82ee {
        "violet"@
    } else if v == 0xf5deb3 {
        "wheat"@
    } else if v == 0xffffff {
        "white"@
    } else if v == 0xf5f5f5 {
        "whitesmoke"@
    } else if v == 0xffff00 {
        "yellow"@
    } else if v == 0x9acd32 {
        "yellowgreen"@
    } else {
        Seq::empty()
    }
}

/// The second name of a colour value that CSS spells two ways, else its
/// first name.
spec fn css_second_name(v: u32) -> Seq<char> {
    if v == 0x00ffff {
        "cyan"@
    } else if v == 0xa9a9a9 {
        "darkgrey"@
    } else if v == 0x2f4f4f {
        "darkslategrey"@
    } else if v == 0x696969 {
        "dimgrey"@
    } else if v == 0x808080 {
        "grey"@
    } else if v == 0xd3d3d3 {
        "lightgrey"@
    } else if v == 0x778899 {
        "lightslategrey"@
    } else if v == 0xff00ff {
        "magenta"@
    } else if v == 0x708090 {
        "slategrey"@
    } else {
        css_first_name(v)
    }
}

/// A CSS colour name is the first or the second name of its value.
proof fn lemma_css_name_of_value(n: Seq<char>)
    requires
        css_color_value(n) is Some,
    ensures
        n == css_first_name(css_color_value(n)->0) || n == css_second_name(css_color_value(n)->0),
{
}

/// Distinct CSS colour names stand for distinct colours, but for the
/// spellings that CSS gives one value.
pub proof fn law_css_names_distinct(a: Seq<char>, b: Seq<char>)
    requires
        a != b,
        css_color_value(a) is Some,
        css_color_value(a) == css_color_value(b),
    ensures
        css_spellings(a, b),
{
    lemma_css_name_of_value(a);
    lemma_css_name_of_value(b);
    lemma_gray_spellings();
}

// ---------------------------------------------------------------------
// Decimal literals and unsigned integers

pub open spec fn is_ascii_digit(c: char) -> bool {
    '0' <= c <= '9'
}

/// The number of `c` in `s`.
pub open spec fn count_char(s: Seq<char>, c: char) -> nat
    decreases s.len(),
{
    if s.len() == 0 {
        0
    } else {
        count_char(s.drop_last(), c) + if s.last() == c {
            1nat
        } else {
            0nat
        }
    }
}

/// The number of ASCII digits in `s`.
pub open spec fn count_digits(s: Seq<char>) -> nat
    decreases s.len(),
{
    if s.len() == 0 {
        0
    } else {
        count_digits(s.drop_last()) + if is_ascii_digit(s.last()) {
            1nat
        } else {
            0nat
        }
    }
}

/// Whether `s` is a plain decimal number: digits with at most one `.`, at
/// least one digit, not ending in `.`.
pub open spec fn decimal_literal_ok(s: Seq<char>) -> bool {
    &&& s.len() > 0
    &&& forall|i: int| 0 <= i < s.len() ==> is_ascii_digit(#[trigger] s[i]) || s[i] == '.'
    &&& count_char(s, '.') <= 1
    &&& count_digits(s) > 0
    &&& s.last() != '.'
}

/// Whether `text` is a plain decimal number, such as the alpha of
/// `rgba(...)` or a hue.
pub fn is_decimal_literal(text: &str) -> (r: bool)
    ensures
        r == decimal_literal_ok(text@),
{
    let s = chars_of(text);
    if s.len() == 0 {
        return false;
    }
    let mut dots: usize = 0;
    let mut digits: usize = 0;
    let mut i: usize = 0;
    while i < s.len()
        invariant
            i <= s.len(),
            s@ == text@,
            dots == count_char(s@.take(i as int), '.'),
            digits == count_digits(s@.take(i as int)),
            dots <= 1,
            digits <= i,
            forall|k: int| 0 <= k < i ==> is_ascii_digit(#[trigger] s@[k]) || s@[k] == '.',
        decreases s.len() - i,
    {
        let c = s[i];
        assert(s@.take(i + 1).drop_last() =~= s@.take(i as int));
        assert(s@.take(i + 1).last() == c);
        if '0' <= c && c <= '9' {
            digits += 1;
        } else if c == '.' {
            dots += 1;
            if dots > 1 {
                proof {
                    lemma_count_prefix(s@, i + 1);
                }
                return false;
            }
        } else {
            return false;
        }
        i += 1;
    }
    assert(s@.take(i as int) =~= s@);
    digits > 0 && s[s.len() - 1] != '.'
}

proof fn lemma_count_prefix(s: Seq<char>, k: int)
    requires
        0 <= k <= s.len(),
    ensures
        count_char(s.take(k), '.') <= count_char(s, '.'),
    decreases s.len() - k,
{
    if k < s.len() {
        lemma_count_prefix(s, k + 1);
        assert(s.take(k + 1).drop_last() =~= s.take(k));
    } else {
        assert(s.take(k) =~= s);
    }
}

proof fn lemma_decimal_grows(s: Seq<char>, k: int, e: int)
    requires
        0 <= k <= e <= s.len(),
        forall|i: int| 0 <= i < s.len() ==> is_ascii_digit(#[trigger] s[i]),
    ensures
        decimal_value(s, 0, k) <= decimal_value(s, 0, e),
    decreases e - k,
{
    if k < e {
        lemma_decimal_grows(s, k, e - 1);
        lemma_decimal_nonneg(s, 0, e - 1);
    }
}

/// A whole unsigned decimal that fits `u32`: ASCII digits only, at least
/// one.
pub open spec fn uint_value(s: Seq<char>) -> Option<u32> {
    if s.len() == 0 || exists|i: int| 0 <= i < s.len() && !is_ascii_digit(#[trigger] s[i]) {
        None
    } else if decimal_value(s, 0, s.len() as int) > u32::MAX {
        None
    } else {
        Some(decimal_value(s, 0, s.len() as int) as u32)
    }
}

/// The value of a string of ASCII digits, if it fits `u32`.
pub fn digit_uint(text: &str) -> (r: Option<u32>)
    ensures
        r == uint_value(text@),
{
    let s = chars_of(text);
    if s.len() == 0 {
        return None;
    }
    let mut i: usize = 0;
    while i < s.len()
        invariant
            i <= s.len(),
            s@ == text@,
            forall|k: int| 0 <= k < i ==> is_ascii_digit(#[trigger] s@[k]),
        decreases s.len() - i,
    {
        if !('0' <= s[i] && s[i] <= '9') {
            assert(!is_ascii_digit(s@[i as int]));
            return None;
        }
        i += 1;
    }
    let mut value: u32 = 0;
    let mut j: usize = 0;
    while j < s.len()
        invariant
            j <= s.len(),
            s@ == text@,
            s@.len() > 0,
            forall|k: int| 0 <= k < s.len() ==> is_ascii_digit(#[trigger] s@[k]),
            value == decimal_value(s@, 0, j as int),
        decreases s.len() - j,
    {
        let d = (s[j] as u32) - 48;
        assert(d == digit_value(s@[j as int]));
        let next = match value.checked_mul(10) {
            Some(v) => v.checked_add(d),
            None => None,
        };
        match next {
            Some(v) => {
                value = v;
            },
            None => {
                proof {
                    assert(decimal_value(s@, 0, j + 1) == value * 10 + d);
                    lemma_decimal_grows(s@, j + 1, s@.len() as int);
                }
                return None;
            },
        }
        j += 1;
    }
    Some(value)
}

// ---------------------------------------------------------------------
// Hexadecimal colours

/// What a colour text says in the `#` notation.
#[derive(Clone, Copy, Debug, PartialEq, Eq, Structural)]
pub enum HexColor {
    /// The text does not begin with `#`.
    NotHex,
    /// The text begins with `#` but is neither `#rgb` nor `#rrggbb`.
    Invalid,
    /// `#rgb`: one hexadecimal digit per channel, each 0 to 15.
    Short(u32, u32, u32),
    /// `#rrggbb`: the 24-bit value of the six digits.
    Full(u32),
}

/// Every character of `s` is a hexadecimal digit.
pub open spec fn all_hex(s: Seq<char>) -> bool {
    forall|i: int| 0 <= i < s.len() ==> digit_value_in(#[trigger] s[i], 16) is Some
}

/// The value of a hexadecimal digit.
pub open spec fn hex_digit(c: char) -> u32 {
    digit_value_in(c, 16).unwrap()
}

/// The value of a string of hexadecimal digits, most significant first.
pub open spec fn hex_value(s: Seq<char>) -> nat
    decreases s.len(),
{
    if s.len() == 0 {
        0
    } else {
        hex_value(s.drop_last()) * 16 + hex_digit(s.last()) as nat
    }
}

/// Sixteen to the power `n`.
pub open spec fn pow16(n: nat) -> nat
    decreases n,
{
    if n == 0 {
        1
    } else {
        pow16((n - 1) as nat) * 16
    }
}

/// The reading of `s` in the `#` notation: after the `#`, three or six
/// hexadecimal digits (either case).
pub open spec fn hex_color_of(s: Seq<char>) -> HexColor {
    if s.len() == 0 || s[0] != '#' {
        HexColor::NotHex
    } else {
        let body = s.skip(1);
        if body.len() == 3 && all_hex(body) {
            HexColor::Short(hex_digit(body[0]), hex_digit(body[1]), hex_digit(body[2]))
        } else if body.len() == 6 && all_hex(body) {
            HexColor::Full(hex_value(body) as u32)
        } else {
            HexColor::Invalid
        }
    }
}

proof fn lemma_pow16_mono(a: nat, b: nat)
    requires
        a <= b,
    ensures
        pow16(a) <= pow16(b),
    decreases b,
{
    if a < b {
        lemma_pow16_mono(a, (b - 1) as nat);
    }
}

/// Reads a colour text in the `#rgb` / `#rrggbb` notation.
pub fn hex_color(text: &str) -> (r: HexColor)
    ensures
        r == hex_color_of(text@),
{
    let s = chars_of(text);
    if s.len() == 0 || s[0] != '#' {
        return HexColor::NotHex;
    }
    let n = s.len() - 1;
    let ghost body = s@.skip(1);
    if n != 3 && n != 6 {
        return HexColor::Invalid;
    }
    proof {
        reveal_with_fuel(pow16, 7);
        assert(pow16(6) == 0x1000000);
    }
    let mut value: u32 = 0;
    let mut i: usize = 1;
    while i < s.len()
        invariant
            1 <= i <= s.len(),
            s@ == text@,
            s.len() == n + 1,
            s@[0] == '#',
            n == 3 || n == 6,
            body == s@.skip(1),
            pow16(6) == 0x1000000,
            forall|k: int| 0 <= k < i - 1 ==> digit_value_in(#[trigger] body[k], 16) is Some,
            value == hex_value(body.take(i - 1)),
            value < pow16((i - 1) as nat),
        decreases s.len() - i,
    {
        match to_digit(s[i], 16) {
            Some(d) => {
                proof {
                    lemma_pow16_mono((i - 1) as nat, 5);
                    assert(body.take(i as int).drop_last() =~= body.take(i - 1));
                    assert(body.take(i as int).last() == s@[i as int]);
                }
                value = value * 16 + d;
            },
            None => {
                proof {
                    assert(body[i - 1] == s@[i as int]);
                    assert(digit_value_in(body[i - 1], 16) is None);
                    assert(!all_hex(body));
                    assert(body.len() == n);
                }
                return HexColor::Invalid;
            },
        }
        i += 1;
    }
    proof {
        assert(body.take(n as int) =~= body);
        assert(all_hex(body));
    }
    if n == 3 {
        match (to_digit(s[1], 16), to_digit(s[2], 16), to_digit(s[3], 16)) {
            (Some(r), Some(g), Some(b)) => HexColor::Short(r, g, b),
            _ => {
                proof {
                    assert(digit_value_in(body[0], 16) is Some);
                    assert(digit_value_in(body[1], 16) is Some);
                    assert(digit_value_in(body[2], 16) is Some);
                }
                HexColor::Invalid
            },
        }
    } else {
        HexColor::Full(value)
    }
}

/// The lowercase hexadecimal digit of `d` (below 16).
pub open spec fn hex_char(d: nat) -> char {
    if d < 10 {
        (48 + d) as char
    } else {
        (87 + d) as char
    }
}

/// The last `n` hexadecimal digits of `v`, most significant first, with
/// leading zeros.
pub open spec fn hex_text(v: nat, n: nat) -> Seq<char>
    decreases n,
{
    if n == 0 {
        Seq::empty()
    } else {
        hex_text(v / 16, (n - 1) as nat).push(hex_char(v % 16))
    }
}

/// Appends the last `n` hexadecimal digits of `v`.
fn push_hex(out: &mut Vec<char>, v: u32, n: usize)
    ensures
        final(out)@ == old(out)@ + hex_text(v as nat, n as nat),
    decreases n,
{
    let ghost start = out@;
    if n > 0 {
        push_hex(out, v / 16, n - 1);
        let d = v % 16;
        let c = if d < 10 {
            ((48 + d) as u8) as char
        } else {
            ((87 + d) as u8) as char
        };
        out.push(c);
        assert(out@ =~= start + hex_text(v as nat, n as nat));
    }
}

/// The `#rrggbb` text of a 24-bit colour, in lowercase digits.
pub fn hex_color_text(value: u32) -> (r: String)
    requires
        value < 0x1000000,
    ensures
        r@ == seq!['#'] + hex_text(value as nat, 6),
{
    let mut out: Vec<char> = Vec::new();
    out.push('#');
    push_hex(&mut out, value, 6);
    string_of(&out)
}

proof fn lemma_hex_text(v: nat, n: nat)
    ensures
        hex_text(v, n).len() == n,
        all_hex(hex_text(v, n)),
        hex_value(hex_text(v, n)) == v % pow16(n),
    decreases n,
{
    if n > 0 {
        let prev = hex_text(v / 16, (n - 1) as nat);
        let t = hex_text(v, n);
        lemma_hex_text(v / 16, (n - 1) as nat);
        assert(t.drop_last() =~= prev);
        assert(hex_digit(hex_char(v % 16)) == v % 16);
        assert forall|i: int| 0 <= i < t.len() implies digit_value_in(#[trigger] t[i], 16) is Some by {
            if i < prev.len() {
                assert(t[i] == prev[i]);
            }
        }
        lemma_pow16_positive((n - 1) as nat);
        lemma_breakdown(v as int, 16, pow16((n - 1) as nat) as int);
    }
}

proof fn lemma_pow16_positive(n: nat)
    ensures
        pow16(n) > 0,
    decreases n,
{
    if n > 0 {
        lemma_pow16_positive((n - 1) as nat);
    }
}

/// The `#rrggbb` text of a colour reads back as that colour.
pub proof fn law_hex_color_text_reads_back(value: nat)
    requires
        value < 0x1000000,
    ensures
        hex_color_of(seq!['#'] + hex_text(value, 6)) == HexColor::Full(value as u32),
{
    let s = seq!['#'] + hex_text(value, 6);
    lemma_hex_text(value, 6);
    reveal_with_fuel(pow16, 7);
    assert(pow16(6) == 0x1000000);
    assert(value % 0x1000000 == value);
    assert(s[0] == '#');
    assert(s.skip(1) =~= hex_text(value, 6));
    assert(s.skip(1).len() == 6 && all_hex(s.skip(1)));
    assert(hex_value(s.skip(1)) == value);
}

// ---------------------------------------------------------------------
// Colour functions

/// The first position at or after `p` that holds `c`, or the length.
pub open spec fn find_from(s: Seq<char>, c: char, p: int) -> int
    decreases s.len() - p,
{
    if p < 0 || p >= s.len() {
        s.len() as int
    } else if s[p] == c {
        p
    } else {
        find_from(s, c, p + 1)
    }
}

pub(crate) proof fn lemma_find_from(s: Seq<char>, c: char, p: int)
    requires
        0 <= p <= s.len(),
    ensures
        p <= find_from(s, c, p) <= s.len(),
        find_from(s, c, p) < s.len() ==> s[find_from(s, c, p)] == c,
        forall|i: int| p <= i < find_from(s, c, p) ==> #[trigger] s[i] != c,
    decreases s.len() - p,
{
    if p < s.len() && s[p] != c {
        lemma_find_from(s, c, p + 1);
    }
}

/// The first position at or after `p` that holds `c`.
pub(crate) fn find_char(s: &Vec<char>, c: char, p: usize) -> (r: usize)
    requires
        p <= s.len(),
    ensures
        r == find_from(s@, c, p as int),
{
    let mut i = p;
    while i < s.len() && s[i] != c
        invariant
            p <= i <= s.len(),
            find_from(s@, c, i as int) == find_from(s@, c, p as int),
        decreases s.len() - i,
    {
        i += 1;
    }
    i
}

pub open spec fn is_name_char(c: char) -> bool {
    ('0' <= c <= '9') || ('a' <= c <= 'z') || ('A' <= c <= 'Z') || c == '_'
}

/// The name and the text between the parentheses of a colour function
/// such as `rgb(1, 2, 3)`: the name is what precedes the first `(` and
/// must be ASCII letters, digits or `_`; the text runs to the first `)`.
pub open spec fn color_function_parts(s: Seq<char>) -> Option<(Seq<char>, Seq<char>)> {
    let open = find_from(s, '(', 0);
    let close = find_from(s, ')', open + 1);
    if open >= s.len() || open == 0 {
        None
    } else if exists|i: int| 0 <= i < open && !is_name_char(#[trigger] s[i]) {
        None
    } else if close >= s.len() {
        None
    } else {
        Some((s.subrange(0, open), s.subrange(open + 1, close)))
    }
}

fn copy_range(s: &Vec<char>, a: usize, b: usize) -> (r: String)
    requires
        a <= b <= s.len(),
    ensures
        r@ == s@.subrange(a as int, b as int),
{
    let mut out: Vec<char> = Vec::new();
    let mut i = a;
    while i < b
        invariant
            a <= i <= b <= s.len(),
            out@ == s@.subrange(a as int, i as int),
        decreases b - i,
    {
        out.push(s[i]);
        assert(out@ =~= s@.subrange(a as int, i + 1));
        i += 1;
    }
    string_of(&out)
}

/// Splits a colour function into its name and its arguments' text.
pub fn color_function(text: &str) -> (r: Option<(String, String)>)
    ensures
        match color_function_parts(text@) {
            Some((name, args)) => match r {
                Some((n, a)) => n@ == name && a@ == args,
                None => false,
            },
            None => r is None,
        },
{
    let s = chars_of(text);
    proof {
        lemma_find_from(s@, '(', 0);
    }
    let open = find_char(&s, '(', 0);
    if open >= s.len() || open == 0 {
        return None;
    }
    let mut i: usize = 0;
    while i < open
        invariant
            i <= open < s.len(),
            s@ == text@,
            open == find_from(s@, '(', 0),
            forall|k: int| 0 <= k < i ==> is_name_char(#[trigger] s@[k]),
        decreases open - i,
    {
        let c = s[i];
        if !(('0' <= c && c <= '9') || ('a' <= c && c <= 'z') || ('A' <= c && c <= 'Z') || c == '_') {
            assert(!is_name_char(s@[i as int]));
            return None;
        }
        i += 1;
    }
    proof {
        lemma_find_from(s@, ')', open + 1);
    }
    let close = find_char(&s, ')', open + 1);
    if close >= s.len() {
        return None;
    }
    Some((copy_range(&s, 0, open), copy_range(&s, open + 1, close)))
}

/// The pieces of `s` between commas, the current piece being `cur`.
pub open spec fn split_commas(s: Seq<char>, cur: Seq<char>) -> Seq<Seq<char>>
    decreases s.len(),
{
    if s.len() == 0 {
        seq![cur]
    } else if s[0] == ',' {
        seq![cur] + split_commas(s.drop_first(), Seq::empty())
    } else {
        split_commas(s.drop_first(), cur.push(s[0]))
    }
}

/// The trimmed comma-separated parts of a colour function's arguments,
/// when there are three or four, none empty, and a fourth is a plain
/// decimal number.
pub open spec fn color_parts_of(components: Seq<char>) -> Option<Seq<Seq<char>>> {
    let raw = split_commas(components, Seq::empty());
    let parts = Seq::new(raw.len(), |i: int| trimmed(raw[i]));
    if parts.len() < 3 || parts.len() > 4 {
        None
    } else if exists|i: int| 0 <= i < parts.len() && #[trigger] parts[i].len() == 0 {
        None
    } else if parts.len() == 4 && !decimal_literal_ok(parts[3]) {
        None
    } else {
        Some(parts)
    }
}

/// Whether one of `parts` is empty.
fn has_empty(parts: &Vec<String>) -> (r: bool)
    ensures
        r == exists|k: int| 0 <= k < parts@.len() && #[trigger] parts@[k]@.len() == 0,
{
    let mut j: usize = 0;
    while j < parts.len()
        invariant
            j <= parts.len(),
            forall|k: int| 0 <= k < j ==> #[trigger] parts@[k]@.len() > 0,
        decreases parts.len() - j,
    {
        if parts[j].as_str().is_empty() {
            return true;
        }
        j += 1;
    }
    false
}

/// Splits a colour function's arguments into trimmed parts.
pub fn color_parts(components: &str) -> (r: Option<Vec<String>>)
    ensures
        match color_parts_of(components@) {
            Some(parts) => r is Some && r->0@.len() == parts.len() && forall|i: int|
                0 <= i < parts.len() ==> #[trigger] r->0@[i]@ == parts[i],
            None => r is None,
        },
{
    let s = chars_of(components);
    let ghost raw = split_commas(s@, Seq::empty());
    let mut parts: Vec<String> = Vec::new();
    let mut cur: Vec<char> = Vec::new();
    let mut i: usize = 0;
    assert(s@.skip(0) =~= s@);
    assert(Seq::new(parts@.len(), |k: int| parts@[k]@) =~= Seq::<Seq<char>>::empty());
    while i < s.len()
        invariant
            i <= s.len(),
            raw == split_commas(s@, Seq::empty()),
            Seq::new(raw.len(), |k: int| trimmed(raw[k])) == Seq::new(parts@.len(), |k: int| parts@[k]@)
                + Seq::new(split_commas(s@.skip(i as int), cur@).len(), |k: int| trimmed(split_commas(s@.skip(i as int), cur@)[k])),
        decreases s.len() - i,
    {
        let ghost done = Seq::new(parts@.len(), |k: int| parts@[k]@);
        let ghost rest = s@.skip(i as int);
        assert(rest[0] == s@[i as int]);
        assert(rest.drop_first() =~= s@.skip(i + 1));
        if s[i] == ',' {
            let ghost piece = cur@;
            let t = trim_chars(&cur);
            parts.push(string_of(&t));
            cur = Vec::new();
            let ghost tail = split_commas(s@.skip(i + 1), Seq::empty());
            assert(Seq::new(parts@.len(), |k: int| parts@[k]@) =~= done.push(trimmed(piece)));
            assert(Seq::new((seq![piece] + tail).len(), |k: int| trimmed((seq![piece] + tail)[k])) =~= seq![trimmed(piece)]
                + Seq::new(tail.len(), |k: int| trimmed(tail[k])));
            assert(done + (seq![trimmed(piece)] + Seq::new(tail.len(), |k: int| trimmed(tail[k]))) =~= done.push(
                trimmed(piece),
            ) + Seq::new(tail.len(), |k: int| trimmed(tail[k])));
        } else {
            cur.push(s[i]);
            assert(Seq::new(parts@.len(), |k: int| parts@[k]@) =~= done);
        }
        i += 1;
    }
    let ghost done = Seq::new(parts@.len(), |k: int| parts@[k]@);
    assert(s@.skip(i as int) =~= Seq::<char>::empty());
    let ghost piece = cur@;
    let t = trim_chars(&cur);
    parts.push(string_of(&t));
    assert(Seq::new(parts@.len(), |k: int| parts@[k]@) =~= done.push(trimmed(piece)));
    let ghost all = Seq::new(raw.len(), |k: int| trimmed(raw[k]));
    assert(all =~= Seq::new(parts@.len(), |k: int| parts@[k]@));
    assert forall|k: int| 0 <= k < parts@.len() implies #[trigger] parts@[k]@ == all[k] by {
        assert(Seq::new(parts@.len(), |k: int| parts@[k]@)[k] == parts@[k]@);
    }
    if parts.len() < 3 || parts.len() > 4 {
        return None;
    }
    if has_empty(&parts) {
        assert(exists|k: int| 0 <= k < all.len() && #[trigger] all[k].len() == 0) by {
            let k = choose|k: int| 0 <= k < parts@.len() && #[trigger] parts@[k]@.len() == 0;
            assert(all[k].len() == 0);
        }
        return None;
    }
    assert(!exists|k: int| 0 <= k < all.len() && #[trigger] all[k].len() == 0) by {
        if exists|k: int| 0 <= k < all.len() && #[trigger] all[k].len() == 0 {
            let k = choose|k: int| 0 <= k < all.len() && #[trigger] all[k].len() == 0;
            assert(parts@[k]@.len() == 0);
        }
    }
    if parts.len() == 4 && !is_decimal_literal(parts[3].as_str()) {
        return None;
    }
    Some(parts)
}

// ---------------------------------------------------------------------
// The scene signature

/// FNV-1a over `bytes`, from `seed`: each byte is xored in and the state
/// multiplied by the FNV prime, wrapping.
pub open spec fn fnv(seed: u64, bytes: Seq<u8>) -> u64
    decreases bytes.len(),
{
    if bytes.len() == 0 {
        seed
    } else {
        vstd::wrapping::u64_specs::wrapping_mul(fnv(seed, bytes.drop_last()) ^ (bytes.last() as u64), 1099511628211)
    }
}

/// Folds `bytes` into the signature `seed`.
pub fn sig_bytes(seed: &mut u64, bytes: &[u8])
    ensures
        *final(seed) == fnv(*old(seed), bytes@),
{
    let ghost start = *seed;
    let mut i: usize = 0;
    while i < bytes.len()
        invariant
            i <= bytes.len(),
            *seed == fnv(start, bytes@.take(i as int)),
            start == *old(seed),
        decreases bytes.len() - i,
    {
        assert(bytes@.take(i + 1).drop_last() =~= bytes@.take(i as int));
        assert(bytes@.take(i + 1).last() == bytes@[i as int]);
        *seed = *seed ^ (bytes[i] as u64);
        *seed = seed.wrapping_mul(1099511628211);
        i += 1;
    }
    assert(bytes@.take(i as int) =~= bytes@);
}

/// Signing two pieces in turn signs their concatenation.
pub proof fn law_signature_concat(seed: u64, a: Seq<u8>, b: Seq<u8>)
    ensures
        fnv(fnv(seed, a), b) == fnv(seed, a + b),
    decreases b.len(),
{
    if b.len() == 0 {
        assert(a + b =~= a);
    } else {
        law_signature_concat(seed, a, b.drop_last());
        assert((a + b).drop_last() =~= a + b.drop_last());
        assert((a + b).last() == b.last());
    }
}

} // verus!

//! The Python lines that each command becomes in a CoDrone EDU script,
//! over the text of each parameter, and the reader of scripts.
use vstd::prelude::*;

use crate::commands::{led_rgb, led_rgb_of, sway_dir_int, sway_direction, Template};
use crate::sim::runtime::pair_views;
use crate::text::{chars_of, str_eq, string_of};

verus! {

broadcast use vstd::string::group_string_axioms;

/// Reads Python scripts into commands; it keeps no state.
pub struct ScriptParser;

impl ScriptParser {
    pub fn new() -> (p: ScriptParser) {
        ScriptParser
    }
}

impl Default for ScriptParser {
    fn default() -> (p: ScriptParser) {
        ScriptParser
    }
}

// ---------------------------------------------------------------------
// Pieces of a line

/// The text of parameter `key` in `p` (key, text pairs): the text of the
/// first pair with that key, or `undefined` when there is none.
pub open spec fn param_text(p: Seq<(Seq<char>, Seq<char>)>, key: Seq<char>) -> Seq<char>
    decreases p.len(),
{
    if p.len() == 0 {
        "undefined"@
    } else if p[0].0 == key {
        p[0].1
    } else {
        param_text(p.drop_first(), key)
    }
}

/// The decimal digits of `n`.
pub open spec fn nat_text(n: nat) -> Seq<char>
    decreases n,
{
    if n < 10 {
        seq![(48 + n) as char]
    } else {
        nat_text(n / 10) + seq![(48 + n % 10) as char]
    }
}

/// The decimal text of `n`, with a `-` when negative.
pub open spec fn int_text(n: int) -> Seq<char> {
    if n < 0 {
        seq!['-'] + nat_text((-n) as nat)
    } else {
        nat_text(n as nat)
    }
}

/// Appends the characters of `s`.
pub(crate) fn push_text(out: &mut Vec<char>, s: &str)
    ensures
        final(out)@ == old(out)@ + s@,
{
    let chars = chars_of(s);
    let ghost start = out@;
    let mut i: usize = 0;
    while i < chars.len()
        invariant
            i <= chars.len(),
            out@ == start + chars@.take(i as int),
        decreases chars.len() - i,
    {
        out.push(chars[i]);
        assert(chars@.take(i + 1) =~= chars@.take(i as int).push(chars@[i as int]));
        i += 1;
    }
    assert(chars@.take(i as int) =~= s@);
}

/// Appends the text of parameter `key`.
fn push_param(out: &mut Vec<char>, params: &Vec<(String, String)>, key: &str)
    ensures
        final(out)@ == old(out)@ + param_text(pair_views(params@), key@),
{
    let ghost pv = pair_views(params@);
    let mut i: usize = 0;
    assert(pv.skip(0) =~= pv);
    while i < params.len()
        invariant
            i <= params.len(),
            pv == pair_views(params@),
            out@ == old(out)@,
            param_text(pv, key@) == param_text(pv.skip(i as int), key@),
        decreases params.len() - i,
    {
        assert(pv.skip(i as int)[0] == pv[i as int]);
        assert(pv.skip(i as int).drop_first() =~= pv.skip(i + 1));
        if str_eq(params[i].0.as_str(), key) {
            push_text(out, params[i].1.as_str());
            return;
        }
        i += 1;
    }
    assert(pv.skip(i as int) =~= Seq::<(Seq<char>, Seq<char>)>::empty());
    push_text(out, "undefined");
}

/// Appends the decimal digits of `n`.
pub(crate) fn push_uint(out: &mut Vec<char>, n: u64)
    ensures
        final(out)@ == old(out)@ + nat_text(n as nat),
    decreases n,
{
    let ghost start = out@;
    if n >= 10 {
        push_uint(out, n / 10);
    }
    let d = (n % 10) as u8;
    out.push((48 + d) as char);
    assert(out@ =~= start + nat_text(n as nat));
}

/// Appends the decimal text of `n`.
fn push_int(out: &mut Vec<char>, n: i32)
    ensures
        final(out)@ == old(out)@ + int_text(n as int),
{
    let ghost start = out@;
    if n < 0 {
        out.push('-');
        let m = (0i64 - n as i64) as u64;
        push_uint(out, m);
        assert(out@ =~= start + int_text(n as int));
    } else {
        push_uint(out, n as u64);
    }
}

// ---------------------------------------------------------------------
// Lines of the commands

/// Whether and how a shape command writes its duration.
pub enum ShapeSecs {
    Off,
    FromParam,
    Fixed(&'static str),
}

/// The duration part of a shape command's line.
pub open spec fn secs_text(secs: ShapeSecs, p: Seq<(Seq<char>, Seq<char>)>) -> Seq<char> {
    match secs {
        ShapeSecs::Off => Seq::empty(),
        ShapeSecs::FromParam => ", seconds="@ + param_text(p, "secs"@),
        ShapeSecs::Fixed(fixed) => ", seconds="@ + fixed@,
    }
}

/// The direction argument of a shape: 1 clockwise, -1 otherwise.
pub open spec fn dir_text(p: Seq<(Seq<char>, Seq<char>)>) -> Seq<char> {
    if param_text(p, "dir"@) == "clockwise"@ {
        "1"@
    } else {
        "-1"@
    }
}

/// The line of a shape command: `drone.<method>(speed=..., [seconds=...,]
/// direction=...)`.
pub open spec fn shape_line(method: Seq<char>, secs: ShapeSecs, p: Seq<(Seq<char>, Seq<char>)>) -> Seq<char> {
    "drone."@ + method + "(speed="@ + param_text(p, "speed"@) + secs_text(secs, p) + ", direction="@
        + dir_text(p) + ")"@
}

/// The line of a shape command.
pub fn shape_code(method: &str, secs: ShapeSecs, params: &Vec<(String, String)>) -> (code: String)
    ensures
        code@ == shape_line(method@, secs, pair_views(params@)),
{
    let ghost p = pair_views(params@);
    let mut out: Vec<char> = Vec::new();
    push_text(&mut out, "drone.");
    push_text(&mut out, method);
    push_text(&mut out, "(speed=");
    push_param(&mut out, params, "speed");
    let ghost head = out@;
    match secs {
        ShapeSecs::Off => {},
        ShapeSecs::FromParam => {
            push_text(&mut out, ", seconds=");
            push_param(&mut out, params, "secs");
        },
        ShapeSecs::Fixed(fixed) => {
            push_text(&mut out, ", seconds=");
            push_text(&mut out, fixed);
        },
    }
    assert(out@ =~= head + secs_text(secs, p));
    push_text(&mut out, ", direction=");
    let mut dir: Vec<char> = Vec::new();
    push_param(&mut dir, params, "dir");
    let dir_value = string_of(&dir);
    assert(dir@ =~= param_text(p, "dir"@));
    if str_eq(dir_value.as_str(), "clockwise") {
        push_text(&mut out, "1");
    } else {
        push_text(&mut out, "-1");
    }
    push_text(&mut out, ")");
    assert(out@ =~= shape_line(method@, secs, p));
    string_of(&out)
}

/// The line for flying a circle.
pub fn circle_code(params: &Vec<(String, String)>) -> (code: String)
    ensures
        code@ == shape_line("circle"@, ShapeSecs::Off, pair_views(params@)),
{
    shape_code("circle", ShapeSecs::Off, params)
}

/// The line for a turning circle.
pub fn circle_turn_code(params: &Vec<(String, String)>) -> (code: String)
    ensures
        code@ == shape_line("circle_turn"@, ShapeSecs::FromParam, pair_views(params@)),
{
    shape_code("circle_turn", ShapeSecs::FromParam, params)
}

/// The line for flying a square (also the line of the turning square).
pub fn square_code(params: &Vec<(String, String)>) -> (code: String)
    ensures
        code@ == shape_line("square"@, ShapeSecs::FromParam, pair_views(params@)),
{
    shape_code("square", ShapeSecs::FromParam, params)
}

/// The line for flying a triangle.
pub fn triangle_code(params: &Vec<(String, String)>) -> (code: String)
    ensures
        code@ == shape_line("triangle"@, ShapeSecs::FromParam, pair_views(params@)),
{
    shape_code("triangle", ShapeSecs::FromParam, params)
}

/// The line for a turning triangle.
pub fn triangle_turn_code(params: &Vec<(String, String)>) -> (code: String)
    ensures
        code@ == shape_line("triangle_turn"@, ShapeSecs::FromParam, pair_views(params@)),
{
    shape_code("triangle_turn", ShapeSecs::FromParam, params)
}

/// The line for a spiral, which always lasts three seconds.
pub fn spiral_code(params: &Vec<(String, String)>) -> (code: String)
    ensures
        code@ == shape_line("spiral"@, ShapeSecs::Fixed("3"), pair_views(params@)),
{
    shape_code("spiral", ShapeSecs::Fixed("3"), params)
}

/// The line for swaying in direction `dir`.
pub fn sway_code(params: &Vec<(String, String)>) -> (code: String)
    ensures
        code@ == "drone.sway(speed="@ + param_text(pair_views(params@), "speed"@) + ", seconds="@
            + param_text(pair_views(params@), "secs"@) + ", direction="@ + int_text(
            sway_direction(param_text(pair_views(params@), "dir"@)) as int,
        ) + ")"@,
{
    let ghost p = pair_views(params@);
    let mut out: Vec<char> = Vec::new();
    push_text(&mut out, "drone.sway(speed=");
    push_param(&mut out, params, "speed");
    push_text(&mut out, ", seconds=");
    push_param(&mut out, params, "secs");
    push_text(&mut out, ", direction=");
    let mut dir: Vec<char> = Vec::new();
    push_param(&mut dir, params, "dir");
    let dir_value = string_of(&dir);
    push_int(&mut out, sway_dir_int(dir_value.as_str()));
    push_text(&mut out, ")");
    assert(out@ =~= "drone.sway(speed="@ + param_text(p, "speed"@) + ", seconds="@ + param_text(p, "secs"@)
        + ", direction="@ + int_text(sway_direction(param_text(p, "dir"@)) as int) + ")"@);
    string_of(&out)
}

/// The line of the LED command for colour `color`: LED off for `off`, else
/// the colour's RGB at full brightness.
pub open spec fn led_line(color: Seq<char>) -> Seq<char> {
    if color == "off"@ {
        "drone.drone_LED_off()"@
    } else {
        let (r, g, b) = led_rgb_of(color);
        "drone.set_drone_LED("@ + int_text(r as int) + ", "@ + int_text(g as int) + ", "@ + int_text(
            b as int,
        ) + ", 100)"@
    }
}

/// The line for setting the LED to colour `color`.
pub fn led_code(params: &Vec<(String, String)>) -> (code: String)
    ensures
        code@ == led_line(param_text(pair_views(params@), "color"@)),
{
    let ghost p = pair_views(params@);
    let mut color: Vec<char> = Vec::new();
    push_param(&mut color, params, "color");
    let color_value = string_of(&color);
    if str_eq(color_value.as_str(), "off") {
        return string_of(&chars_of("drone.drone_LED_off()"));
    }
    let (r, g, b) = led_rgb(color_value.as_str());
    let mut out: Vec<char> = Vec::new();
    push_text(&mut out, "drone.set_drone_LED(");
    push_int(&mut out, r);
    push_text(&mut out, ", ");
    push_int(&mut out, g);
    push_text(&mut out, ", ");
    push_int(&mut out, b);
    push_text(&mut out, ", 100)");
    assert(out@ =~= led_line(param_text(p, "color"@)));
    string_of(&out)
}

/// The line for hovering for `dur` seconds.
pub fn hover_code(params: &Vec<(String, String)>) -> (code: String)
    ensures
        code@ == "drone.hover("@ + param_text(pair_views(params@), "dur"@) + ")"@,
{
    let mut out: Vec<char> = Vec::new();
    push_text(&mut out, "drone.hover(");
    push_param(&mut out, params, "dur");
    push_text(&mut out, ")");
    assert(out@ =~= "drone.hover("@ + param_text(pair_views(params@), "dur"@) + ")"@);
    string_of(&out)
}

/// The line for a flip in direction `dir`.
pub fn flip_code(params: &Vec<(String, String)>) -> (code: String)
    ensures
        code@ == "drone.flip(\""@ + param_text(pair_views(params@), "dir"@) + "\")"@,
{
    let mut out: Vec<char> = Vec::new();
    push_text(&mut out, "drone.flip(\"");
    push_param(&mut out, params, "dir");
    push_text(&mut out, "\")");
    assert(out@ =~= "drone.flip(\""@ + param_text(pair_views(params@), "dir"@) + "\")"@);
    string_of(&out)
}

/// The line for flying in direction `dir` at `power` for `dur` seconds.
pub fn go_code(params: &Vec<(String, String)>) -> (code: String)
    ensures
        code@ == "drone.go(\""@ + param_text(pair_views(params@), "dir"@) + "\", "@ + param_text(pair_views(params@), "power"@) + ", "@ + param_text(pair_views(params@), "dur"@) + ")"@,
{
    let mut out: Vec<char> = Vec::new();
    push_text(&mut out, "drone.go(\"");
    push_param(&mut out, params, "dir");
    push_text(&mut out, "\", ");
    push_param(&mut out, params, "power");
    push_text(&mut out, ", ");
    push_param(&mut out, params, "dur");
    push_text(&mut out, ")");
    assert(out@ =~= "drone.go(\""@ + param_text(pair_views(params@), "dir"@) + "\", "@ + param_text(pair_views(params@), "power"@) + ", "@ + param_text(pair_views(params@), "dur"@) + ")"@);
    string_of(&out)
}

/// The line for turning left by `deg` degrees.
pub fn turn_left_code(params: &Vec<(String, String)>) -> (code: String)
    ensures
        code@ == "drone.turn_left("@ + param_text(pair_views(params@), "deg"@) + ")"@,
{
    let mut out: Vec<char> = Vec::new();
    push_text(&mut out, "drone.turn_left(");
    push_param(&mut out, params, "deg");
    push_text(&mut out, ")");
    assert(out@ =~= "drone.turn_left("@ + param_text(pair_views(params@), "deg"@) + ")"@);
    string_of(&out)
}

/// The line for turning right by `deg` degrees.
pub fn turn_right_code(params: &Vec<(String, String)>) -> (code: String)
    ensures
        code@ == "drone.turn_right("@ + param_text(pair_views(params@), "deg"@) + ")"@,
{
    let mut out: Vec<char> = Vec::new();
    push_text(&mut out, "drone.turn_right(");
    push_param(&mut out, params, "deg");
    push_text(&mut out, ")");
    assert(out@ =~= "drone.turn_right("@ + param_text(pair_views(params@), "deg"@) + ")"@);
    string_of(&out)
}

/// The line for turning to `deg` with a timeout and a P gain.
pub fn turn_degree_code(params: &Vec<(String, String)>) -> (code: String)
    ensures
        code@ == "drone.turn_degree("@ + param_text(pair_views(params@), "deg"@) + ", timeout="@ + param_text(pair_views(params@), "timeout"@) + ", p_value="@ + param_text(pair_views(params@), "p_value"@) + ")"@,
{
    let mut out: Vec<char> = Vec::new();
    push_text(&mut out, "drone.turn_degree(");
    push_param(&mut out, params, "deg");
    push_text(&mut out, ", timeout=");
    push_param(&mut out, params, "timeout");
    push_text(&mut out, ", p_value=");
    push_param(&mut out, params, "p_value");
    push_text(&mut out, ")");
    assert(out@ =~= "drone.turn_degree("@ + param_text(pair_views(params@), "deg"@) + ", timeout="@ + param_text(pair_views(params@), "timeout"@) + ", p_value="@ + param_text(pair_views(params@), "p_value"@) + ")"@);
    string_of(&out)
}

/// The line for keeping `dist` from an object ahead.
pub fn keep_distance_code(params: &Vec<(String, String)>) -> (code: String)
    ensures
        code@ == "drone.keep_distance(2, "@ + param_text(pair_views(params@), "dist"@) + ")"@,
{
    let mut out: Vec<char> = Vec::new();
    push_text(&mut out, "drone.keep_distance(2, ");
    push_param(&mut out, params, "dist");
    push_text(&mut out, ")");
    assert(out@ =~= "drone.keep_distance(2, "@ + param_text(pair_views(params@), "dist"@) + ")"@);
    string_of(&out)
}

/// The line for avoiding a wall at `dist`.
pub fn avoid_wall_code(params: &Vec<(String, String)>) -> (code: String)
    ensures
        code@ == "drone.avoid_wall(2, "@ + param_text(pair_views(params@), "dist"@) + ")"@,
{
    let mut out: Vec<char> = Vec::new();
    push_text(&mut out, "drone.avoid_wall(2, ");
    push_param(&mut out, params, "dist");
    push_text(&mut out, ")");
    assert(out@ =~= "drone.avoid_wall(2, "@ + param_text(pair_views(params@), "dist"@) + ")"@);
    string_of(&out)
}

/// The line for storing wall detection in `var`.
pub fn detect_wall_code(params: &Vec<(String, String)>) -> (code: String)
    ensures
        code@ == param_text(pair_views(params@), "var"@) + " = drone.detect_wall()"@,
{
    let mut out: Vec<char> = Vec::new();
    push_param(&mut out, params, "var");
    push_text(&mut out, " = drone.detect_wall()");
    assert(out@ =~= param_text(pair_views(params@), "var"@) + " = drone.detect_wall()"@);
    string_of(&out)
}

/// The line for pausing for `dur` seconds.
pub fn sleep_code(params: &Vec<(String, String)>) -> (code: String)
    ensures
        code@ == "time.sleep("@ + param_text(pair_views(params@), "dur"@) + ")"@,
{
    let mut out: Vec<char> = Vec::new();
    push_text(&mut out, "time.sleep(");
    push_param(&mut out, params, "dur");
    push_text(&mut out, ")");
    assert(out@ =~= "time.sleep("@ + param_text(pair_views(params@), "dur"@) + ")"@);
    string_of(&out)
}

/// The line for declaring variable `name` with `value`.
pub fn var_declare_code(params: &Vec<(String, String)>) -> (code: String)
    ensures
        code@ == param_text(pair_views(params@), "name"@) + " = "@ + param_text(pair_views(params@), "value"@),
{
    let mut out: Vec<char> = Vec::new();
    push_param(&mut out, params, "name");
    push_text(&mut out, " = ");
    push_param(&mut out, params, "value");
    assert(out@ =~= param_text(pair_views(params@), "name"@) + " = "@ + param_text(pair_views(params@), "value"@));
    string_of(&out)
}

/// The line for updating `name` with `op` and `value`.
pub fn set_var_code(params: &Vec<(String, String)>) -> (code: String)
    ensures
        code@ == param_text(pair_views(params@), "name"@) + " "@ + param_text(pair_views(params@), "op"@) + " "@ + param_text(pair_views(params@), "value"@),
{
    let mut out: Vec<char> = Vec::new();
    push_param(&mut out, params, "name");
    push_text(&mut out, " ");
    push_param(&mut out, params, "op");
    push_text(&mut out, " ");
    push_param(&mut out, params, "value");
    assert(out@ =~= param_text(pair_views(params@), "name"@) + " "@ + param_text(pair_views(params@), "op"@) + " "@ + param_text(pair_views(params@), "value"@));
    string_of(&out)
}

/// The line for printing `value`.
pub fn print_var_code(params: &Vec<(String, String)>) -> (code: String)
    ensures
        code@ == "print("@ + param_text(pair_views(params@), "value"@) + ")"@,
{
    let mut out: Vec<char> = Vec::new();
    push_text(&mut out, "print(");
    push_param(&mut out, params, "value");
    push_text(&mut out, ")");
    assert(out@ =~= "print("@ + param_text(pair_views(params@), "value"@) + ")"@);
    string_of(&out)
}

/// The line for reading the battery into `var`.
pub fn get_battery_code(params: &Vec<(String, String)>) -> (code: String)
    ensures
        code@ == param_text(pair_views(params@), "var"@) + " = drone.get_battery()"@,
{
    let mut out: Vec<char> = Vec::new();
    push_param(&mut out, params, "var");
    push_text(&mut out, " = drone.get_battery()");
    assert(out@ =~= param_text(pair_views(params@), "var"@) + " = drone.get_battery()"@);
    string_of(&out)
}

/// The line for reading the height in `unit` into `var`.
pub fn get_height_code(params: &Vec<(String, String)>) -> (code: String)
    ensures
        code@ == param_text(pair_views(params@), "var"@) + " = drone.get_height(unit=\""@ + param_text(pair_views(params@), "unit"@) + "\")"@,
{
    let mut out: Vec<char> = Vec::new();
    push_param(&mut out, params, "var");
    push_text(&mut out, " = drone.get_height(unit=\"");
    push_param(&mut out, params, "unit");
    push_text(&mut out, "\")");
    assert(out@ =~= param_text(pair_views(params@), "var"@) + " = drone.get_height(unit=\""@ + param_text(pair_views(params@), "unit"@) + "\")"@);
    string_of(&out)
}

/// The line for reading the front range in `unit` into `var`.
pub fn get_front_range_code(params: &Vec<(String, String)>) -> (code: String)
    ensures
        code@ == param_text(pair_views(params@), "var"@) + " = drone.get_front_range(unit=\""@ + param_text(pair_views(params@), "unit"@) + "\")"@,
{
    let mut out: Vec<char> = Vec::new();
    push_param(&mut out, params, "var");
    push_text(&mut out, " = drone.get_front_range(unit=\"");
    push_param(&mut out, params, "unit");
    push_text(&mut out, "\")");
    assert(out@ =~= param_text(pair_views(params@), "var"@) + " = drone.get_front_range(unit=\""@ + param_text(pair_views(params@), "unit"@) + "\")"@);
    string_of(&out)
}

/// The line for reading the bottom range in `unit` into `var`.
pub fn get_bottom_range_code(params: &Vec<(String, String)>) -> (code: String)
    ensures
        code@ == param_text(pair_views(params@), "var"@) + " = drone.get_bottom_range(unit=\""@ + param_text(pair_views(params@), "unit"@) + "\")"@,
{
    let mut out: Vec<char> = Vec::new();
    push_param(&mut out, params, "var");
    push_text(&mut out, " = drone.get_bottom_range(unit=\"");
    push_param(&mut out, params, "unit");
    push_text(&mut out, "\")");
    assert(out@ =~= param_text(pair_views(params@), "var"@) + " = drone.get_bottom_range(unit=\""@ + param_text(pair_views(params@), "unit"@) + "\")"@);
    string_of(&out)
}

/// The line for reading the front colour as `kind` into `var`.
pub fn get_front_color_code(params: &Vec<(String, String)>) -> (code: String)
    ensures
        code@ == param_text(pair_views(params@), "var"@) + " = drone.get_front_color(kind=\""@ + param_text(pair_views(params@), "kind"@) + "\")"@,
{
    let mut out: Vec<char> = Vec::new();
    push_param(&mut out, params, "var");
    push_text(&mut out, " = drone.get_front_color(kind=\"");
    push_param(&mut out, params, "kind");
    push_text(&mut out, "\")");
    assert(out@ =~= param_text(pair_views(params@), "var"@) + " = drone.get_front_color(kind=\""@ + param_text(pair_views(params@), "kind"@) + "\")"@);
    string_of(&out)
}

/// The line for reading the back colour as `kind` into `var`.
pub fn get_back_color_code(params: &Vec<(String, String)>) -> (code: String)
    ensures
        code@ == param_text(pair_views(params@), "var"@) + " = drone.get_back_color(kind=\""@ + param_text(pair_views(params@), "kind"@) + "\")"@,
{
    let mut out: Vec<char> = Vec::new();
    push_param(&mut out, params, "var");
    push_text(&mut out, " = drone.get_back_color(kind=\"");
    push_param(&mut out, params, "kind");
    push_text(&mut out, "\")");
    assert(out@ =~= param_text(pair_views(params@), "var"@) + " = drone.get_back_color(kind=\""@ + param_text(pair_views(params@), "kind"@) + "\")"@);
    string_of(&out)
}

/// The line for reading the temperature in `unit` into `var`.
pub fn get_temperature_code(params: &Vec<(String, String)>) -> (code: String)
    ensures
        code@ == param_text(pair_views(params@), "var"@) + " = drone.get_temperature(unit=\""@ + param_text(pair_views(params@), "unit"@) + "\")"@,
{
    let mut out: Vec<char> = Vec::new();
    push_param(&mut out, params, "var");
    push_text(&mut out, " = drone.get_temperature(unit=\"");
    push_param(&mut out, params, "unit");
    push_text(&mut out, "\")");
    assert(out@ =~= param_text(pair_views(params@), "var"@) + " = drone.get_temperature(unit=\""@ + param_text(pair_views(params@), "unit"@) + "\")"@);
    string_of(&out)
}

/// The line for reading the front distance into `var`.
pub fn get_distance_code(params: &Vec<(String, String)>) -> (code: String)
    ensures
        code@ == param_text(pair_views(params@), "var"@) + " = drone.get_front_range()"@,
{
    let mut out: Vec<char> = Vec::new();
    push_param(&mut out, params, "var");
    push_text(&mut out, " = drone.get_front_range()");
    assert(out@ =~= param_text(pair_views(params@), "var"@) + " = drone.get_front_range()"@);
    string_of(&out)
}

/// The line for calling function `name`.
pub fn func_call_code(params: &Vec<(String, String)>) -> (code: String)
    ensures
        code@ == param_text(pair_views(params@), "name"@) + "()"@,
{
    let mut out: Vec<char> = Vec::new();
    push_param(&mut out, params, "name");
    push_text(&mut out, "()");
    assert(out@ =~= param_text(pair_views(params@), "name"@) + "()"@);
    string_of(&out)
}

/// The line for returning `value`.
pub fn return_val_code(params: &Vec<(String, String)>) -> (code: String)
    ensures
        code@ == "return "@ + param_text(pair_views(params@), "value"@),
{
    let mut out: Vec<char> = Vec::new();
    push_text(&mut out, "return ");
    push_param(&mut out, params, "value");
    assert(out@ =~= "return "@ + param_text(pair_views(params@), "value"@));
    string_of(&out)
}

/// The line for declaring list `name` with `values`.
pub fn list_declare_code(params: &Vec<(String, String)>) -> (code: String)
    ensures
        code@ == param_text(pair_views(params@), "name"@) + " = ["@ + param_text(pair_views(params@), "values"@) + "]"@,
{
    let mut out: Vec<char> = Vec::new();
    push_param(&mut out, params, "name");
    push_text(&mut out, " = [");
    push_param(&mut out, params, "values");
    push_text(&mut out, "]");
    assert(out@ =~= param_text(pair_views(params@), "name"@) + " = ["@ + param_text(pair_views(params@), "values"@) + "]"@);
    string_of(&out)
}

/// The line for appending `value` to list `name`.
pub fn list_append_code(params: &Vec<(String, String)>) -> (code: String)
    ensures
        code@ == param_text(pair_views(params@), "name"@) + ".append("@ + param_text(pair_views(params@), "value"@) + ")"@,
{
    let mut out: Vec<char> = Vec::new();
    push_param(&mut out, params, "name");
    push_text(&mut out, ".append(");
    push_param(&mut out, params, "value");
    push_text(&mut out, ")");
    assert(out@ =~= param_text(pair_views(params@), "name"@) + ".append("@ + param_text(pair_views(params@), "value"@) + ")"@);
    string_of(&out)
}

/// The line for reading `list_name[index]` into `var`.
pub fn list_get_code(params: &Vec<(String, String)>) -> (code: String)
    ensures
        code@ == param_text(pair_views(params@), "var"@) + " = "@ + param_text(pair_views(params@), "list_name"@) + "["@ + param_text(pair_views(params@), "index"@) + "]"@,
{
    let mut out: Vec<char> = Vec::new();
    push_param(&mut out, params, "var");
    push_text(&mut out, " = ");
    push_param(&mut out, params, "list_name");
    push_text(&mut out, "[");
    push_param(&mut out, params, "index");
    push_text(&mut out, "]");
    assert(out@ =~= param_text(pair_views(params@), "var"@) + " = "@ + param_text(pair_views(params@), "list_name"@) + "["@ + param_text(pair_views(params@), "index"@) + "]"@);
    string_of(&out)
}

/// The line for reading user input with `prompt` into `var`.
pub fn user_input_code(params: &Vec<(String, String)>) -> (code: String)
    ensures
        code@ == param_text(pair_views(params@), "var"@) + " = input(\""@ + param_text(pair_views(params@), "prompt"@) + "\")"@,
{
    let mut out: Vec<char> = Vec::new();
    push_param(&mut out, params, "var");
    push_text(&mut out, " = input(\"");
    push_param(&mut out, params, "prompt");
    push_text(&mut out, "\")");
    assert(out@ =~= param_text(pair_views(params@), "var"@) + " = input(\""@ + param_text(pair_views(params@), "prompt"@) + "\")"@);
    string_of(&out)
}

/// The line for starting timer `name`.
pub fn timer_start_code(params: &Vec<(String, String)>) -> (code: String)
    ensures
        code@ == param_text(pair_views(params@), "name"@) + " = time.time()"@,
{
    let mut out: Vec<char> = Vec::new();
    push_param(&mut out, params, "name");
    push_text(&mut out, " = time.time()");
    assert(out@ =~= param_text(pair_views(params@), "name"@) + " = time.time()"@);
    string_of(&out)
}

/// The line for reading the time since timer `name` into `var`.
pub fn timer_elapsed_code(params: &Vec<(String, String)>) -> (code: String)
    ensures
        code@ == param_text(pair_views(params@), "var"@) + " = time.time() - "@ + param_text(pair_views(params@), "name"@),
{
    let mut out: Vec<char> = Vec::new();
    push_param(&mut out, params, "var");
    push_text(&mut out, " = time.time() - ");
    push_param(&mut out, params, "name");
    assert(out@ =~= param_text(pair_views(params@), "var"@) + " = time.time() - "@ + param_text(pair_views(params@), "name"@));
    string_of(&out)
}
// ---------------------------------------------------------------------
// Lines by template

/// The Python line of a template over parameter texts `p`; none for the
/// lines that are computed in floating point (moves and the buzzer).
pub open spec fn template_line(t: Template, p: Seq<(Seq<char>, Seq<char>)>) -> Option<Seq<char>> {
    match t {
        Template::Takeoff => Some("drone.takeoff()"@),
        Template::Land => Some("drone.land()"@),
        Template::EmergencyStop => Some("drone.emergency_stop()"@),
        Template::StopMotors => Some("drone.stop_motors()"@),
        Template::Hover => Some("drone.hover("@ + param_text(p, "dur"@) + ")"@),
        Template::Flip => Some("drone.flip(\""@ + param_text(p, "dir"@) + "\")"@),
        Template::Go => Some("drone.go(\""@ + param_text(p, "dir"@) + "\", "@ + param_text(p, "power"@) + ", "@ + param_text(p, "dur"@) + ")"@),
        Template::MoveForward => None,
        Template::MoveBackward => None,
        Template::MoveLeft => None,
        Template::MoveRight => None,
        Template::TurnLeft => Some("drone.turn_left("@ + param_text(p, "deg"@) + ")"@),
        Template::TurnRight => Some("drone.turn_right("@ + param_text(p, "deg"@) + ")"@),
        Template::TurnDegree => Some("drone.turn_degree("@ + param_text(p, "deg"@) + ", timeout="@ + param_text(p, "timeout"@) + ", p_value="@ + param_text(p, "p_value"@) + ")"@),
        Template::Circle => Some(shape_line("circle"@, ShapeSecs::Off, p)),
        Template::CircleTurn => Some(shape_line("circle_turn"@, ShapeSecs::FromParam, p)),
        Template::Square => Some(shape_line("square"@, ShapeSecs::FromParam, p)),
        Template::Triangle => Some(shape_line("triangle"@, ShapeSecs::FromParam, p)),
        Template::TriangleTurn => Some(shape_line("triangle_turn"@, ShapeSecs::FromParam, p)),
        Template::Spiral => Some(shape_line("spiral"@, ShapeSecs::Fixed("3"), p)),
        Template::Sway => Some("drone.sway(speed="@ + param_text(p, "speed"@) + ", seconds="@
            + param_text(p, "secs"@) + ", direction="@ + int_text(
            sway_direction(param_text(p, "dir"@)) as int,
        ) + ")"@),
        Template::KeepDistance => Some("drone.keep_distance(2, "@ + param_text(p, "dist"@) + ")"@),
        Template::AvoidWall => Some("drone.avoid_wall(2, "@ + param_text(p, "dist"@) + ")"@),
        Template::DetectWall => Some(param_text(p, "var"@) + " = drone.detect_wall()"@),
        Template::Led => Some(led_line(param_text(p, "color"@))),
        Template::LedOff => Some("drone.drone_LED_off()"@),
        Template::RandomLed => Some("drone.set_drone_LED(0, 255, 128, 100)"@),
        Template::Buzzer => None,
        Template::Sleep => Some("time.sleep("@ + param_text(p, "dur"@) + ")"@),
        Template::VarDeclare => Some(param_text(p, "name"@) + " = "@ + param_text(p, "value"@)),
        Template::SetVar => Some(param_text(p, "name"@) + " "@ + param_text(p, "op"@) + " "@ + param_text(p, "value"@)),
        Template::PrintVar => Some("print("@ + param_text(p, "value"@) + ")"@),
        Template::Blank => Some(Seq::empty()),
        Template::Break => Some("break"@),
        Template::GetBattery => Some(param_text(p, "var"@) + " = drone.get_battery()"@),
        Template::GetHeight => Some(param_text(p, "var"@) + " = drone.get_height(unit=\""@ + param_text(p, "unit"@) + "\")"@),
        Template::GetFrontRange => Some(param_text(p, "var"@) + " = drone.get_front_range(unit=\""@ + param_text(p, "unit"@) + "\")"@),
        Template::GetBottomRange => Some(param_text(p, "var"@) + " = drone.get_bottom_range(unit=\""@ + param_text(p, "unit"@) + "\")"@),
        Template::GetFrontColor => Some(param_text(p, "var"@) + " = drone.get_front_color(kind=\""@ + param_text(p, "kind"@) + "\")"@),
        Template::GetBackColor => Some(param_text(p, "var"@) + " = drone.get_back_color(kind=\""@ + param_text(p, "kind"@) + "\")"@),
        Template::GetTemperature => Some(param_text(p, "var"@) + " = drone.get_temperature(unit=\""@ + param_text(p, "unit"@) + "\")"@),
        Template::GetDistance => Some(param_text(p, "var"@) + " = drone.get_front_range()"@),
        Template::FuncCall => Some(param_text(p, "name"@) + "()"@),
        Template::ReturnVal => Some("return "@ + param_text(p, "value"@)),
        Template::ListDeclare => Some(param_text(p, "name"@) + " = ["@ + param_text(p, "values"@) + "]"@),
        Template::ListAppend => Some(param_text(p, "name"@) + ".append("@ + param_text(p, "value"@) + ")"@),
        Template::ListGet => Some(param_text(p, "var"@) + " = "@ + param_text(p, "list_name"@) + "["@ + param_text(p, "index"@) + "]"@),
        Template::UserInput => Some(param_text(p, "var"@) + " = input(\""@ + param_text(p, "prompt"@) + "\")"@),
        Template::TimerStart => Some(param_text(p, "name"@) + " = time.time()"@),
        Template::TimerElapsed => Some(param_text(p, "var"@) + " = time.time() - "@ + param_text(p, "name"@)),
    }
}

/// The Python line of a template over parameter texts; none for the
/// lines that are computed in floating point (moves and the buzzer).
pub fn template_code(t: Template, params: &Vec<(String, String)>) -> (r: Option<String>)
    ensures
        match r {
            Some(line) => template_line(t, pair_views(params@)) == Some(line@),
            None => template_line(t, pair_views(params@)) is None,
        },
{
    match t {
        Template::Takeoff => Some(string_of(&chars_of("drone.takeoff()"))),
        Template::Land => Some(string_of(&chars_of("drone.land()"))),
        Template::EmergencyStop => Some(string_of(&chars_of("drone.emergency_stop()"))),
        Template::StopMotors => Some(string_of(&chars_of("drone.stop_motors()"))),
        Template::Hover => Some(hover_code(params)),
        Template::Flip => Some(flip_code(params)),
        Template::Go => Some(go_code(params)),
        Template::MoveForward => None,
        Template::MoveBackward => None,
        Template::MoveLeft => None,
        Template::MoveRight => None,
        Template::TurnLeft => Some(turn_left_code(params)),
        Template::TurnRight => Some(turn_right_code(params)),
        Template::TurnDegree => Some(turn_degree_code(params)),
        Template::Circle => Some(circle_code(params)),
        Template::CircleTurn => Some(circle_turn_code(params)),
        Template::Square => Some(square_code(params)),
        Template::Triangle => Some(triangle_code(params)),
        Template::TriangleTurn => Some(triangle_turn_code(params)),
        Template::Spiral => Some(spiral_code(params)),
        Template::Sway => Some(sway_code(params)),
        Template::KeepDistance => Some(keep_distance_code(params)),
        Template::AvoidWall => Some(avoid_wall_code(params)),
        Template::DetectWall => Some(detect_wall_code(params)),
        Template::Led => Some(led_code(params)),
        Template::LedOff => Some(string_of(&chars_of("drone.drone_LED_off()"))),
        Template::RandomLed => Some(string_of(&chars_of("drone.set_drone_LED(0, 255, 128, 100)"))),
        Template::Buzzer => None,
        Template::Sleep => Some(sleep_code(params)),
        Template::VarDeclare => Some(var_declare_code(params)),
        Template::SetVar => Some(set_var_code(params)),
        Template::PrintVar => Some(print_var_code(params)),
        Template::Blank => Some(String::new()),
        Template::Break => Some(string_of(&chars_of("break"))),
        Template::GetBattery => Some(get_battery_code(params)),
        Template::GetHeight => Some(get_height_code(params)),
        Template::GetFrontRange => Some(get_front_range_code(params)),
        Template::GetBottomRange => Some(get_bottom_range_code(params)),
        Template::GetFrontColor => Some(get_front_color_code(params)),
        Template::GetBackColor => Some(get_back_color_code(params)),
        Template::GetTemperature => Some(get_temperature_code(params)),
        Template::GetDistance => Some(get_distance_code(params)),
        Template::FuncCall => Some(func_call_code(params)),
        Template::ReturnVal => Some(return_val_code(params)),
        Template::ListDeclare => Some(list_declare_code(params)),
        Template::ListAppend => Some(list_append_code(params)),
        Template::ListGet => Some(list_get_code(params)),
        Template::UserInput => Some(user_input_code(params)),
        Template::TimerStart => Some(timer_start_code(params)),
        Template::TimerElapsed => Some(timer_elapsed_code(params)),
    }
}

} // verus!

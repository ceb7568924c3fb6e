//! The plain state of the editor's panels, the category of each command
//! type, the command palette with its search filter, the tones of console
//! lines, the marked line of the code view, and fresh numbered names for
//! copied commands and new obstacles.
use vstd::prelude::*;
use vstd::set_lib::{lemma_int_range, lemma_len_subset, lemma_map_size, set_int_range};
use vstd::string::StringSliceAdditionalSpecFns;

use crate::codegen::{nat_text, push_text, push_uint};
use crate::color::{find_char, find_from, lemma_find_from};
use crate::commands::{command_name, CommandType};
use crate::sim::runtime::pair_views;
use crate::text::{
    char_upper,
    chars_of,
    contains_chars,
    contains_seq,
    contains_str,
    lowercase,
    starts_with_str,
    str_eq,
    string_of,
    to_lowercase,
    to_uppercase_char,
    trim_chars,
    trimmed,
};

verus! {

#[verifier::external_type_specification]
#[verifier::external_body]
pub struct ExInstant(std::time::Instant);

// ---------------------------------------------------------------------
// Selection and playback

/// Which drone and which command (a path of child indices) are selected.
#[derive(Clone, Debug)]
pub struct Selection {
    pub drone_index: Option<usize>,
    pub command_path: Vec<usize>,
}

impl Default for Selection {
    fn default() -> (s: Selection)
        ensures
            s.drone_index is None,
            s.command_path@.len() == 0,
    {
        Selection { drone_index: None, command_path: Vec::new() }
    }
}

/// Whether the simulation replays, and at which frame.
#[derive(Clone, Copy, Debug)]
pub struct Playback {
    pub playing: bool,
    pub frame: usize,
}

impl Default for Playback {
    fn default() -> (p: Playback)
        ensures
            !p.playing,
            p.frame == 0,
    {
        Playback { playing: false, frame: 0 }
    }
}

// ---------------------------------------------------------------------
// Categories and the palette

/// The colour group of a command in the plan tree and the palette.
#[derive(Clone, Copy, Debug, PartialEq, Eq, Structural)]
pub enum Category {
    Flight,
    Control,
    Output,
    Var,
    Sensor,
    Func,
    Timer,
}

/// The category of each command type.
pub open spec fn category_of(t: CommandType) -> Category {
    match t {
        CommandType::Takeoff => Category::Flight,
        CommandType::Land => Category::Flight,
        CommandType::EmergencyStop => Category::Flight,
        CommandType::StopMotors => Category::Flight,
        CommandType::Hover => Category::Flight,
        CommandType::Flip => Category::Flight,
        CommandType::Go => Category::Flight,
        CommandType::MoveForward => Category::Flight,
        CommandType::MoveBackward => Category::Flight,
        CommandType::MoveLeft => Category::Flight,
        CommandType::MoveRight => Category::Flight,
        CommandType::TurnLeft => Category::Flight,
        CommandType::TurnRight => Category::Flight,
        CommandType::TurnDegree => Category::Flight,
        CommandType::Circle => Category::Flight,
        CommandType::CircleTurn => Category::Flight,
        CommandType::Square => Category::Flight,
        CommandType::SquareTurn => Category::Flight,
        CommandType::Triangle => Category::Flight,
        CommandType::TriangleTurn => Category::Flight,
        CommandType::Spiral => Category::Flight,
        CommandType::Sway => Category::Flight,
        CommandType::KeepDistance => Category::Flight,
        CommandType::AvoidWall => Category::Flight,
        CommandType::DetectWall => Category::Sensor,
        CommandType::Led => Category::Output,
        CommandType::LedOff => Category::Output,
        CommandType::RandomLed => Category::Output,
        CommandType::Buzzer => Category::Output,
        CommandType::TimeSleep => Category::Output,
        CommandType::DroneSleep => Category::Output,
        CommandType::VarDeclare => Category::Var,
        CommandType::SetVar => Category::Var,
        CommandType::PrintVar => Category::Var,
        CommandType::IfBlock => Category::Control,
        CommandType::ElifBlock => Category::Control,
        CommandType::ElseBlock => Category::Control,
        CommandType::EndBlock => Category::Control,
        CommandType::WhileBlock => Category::Control,
        CommandType::ForBlock => Category::Control,
        CommandType::BreakCmd => Category::Control,
        CommandType::GetBattery => Category::Sensor,
        CommandType::GetHeight => Category::Sensor,
        CommandType::GetFrontRange => Category::Sensor,
        CommandType::GetBottomRange => Category::Sensor,
        CommandType::GetFrontColor => Category::Sensor,
        CommandType::GetBackColor => Category::Sensor,
        CommandType::GetTemperature => Category::Sensor,
        CommandType::GetDistance => Category::Sensor,
        CommandType::FuncDef => Category::Func,
        CommandType::FuncCall => Category::Func,
        CommandType::ReturnVal => Category::Func,
        CommandType::ListDeclare => Category::Func,
        CommandType::ListAppend => Category::Func,
        CommandType::ListGet => Category::Func,
        CommandType::UserInput => Category::Var,
        CommandType::TimerStart => Category::Timer,
        CommandType::TimerElapsed => Category::Timer,
    }
}

/// The category of a command type; every type has one.
pub fn type_category(command_type: CommandType) -> (r: Option<Category>)
    ensures
        r == Some(category_of(command_type)),
{
    match command_type {
        CommandType::Takeoff | CommandType::Land | CommandType::EmergencyStop | CommandType::StopMotors | CommandType::Hover | CommandType::Flip | CommandType::Go | CommandType::MoveForward | CommandType::MoveBackward | CommandType::MoveLeft | CommandType::MoveRight | CommandType::TurnLeft | CommandType::TurnRight | CommandType::TurnDegree | CommandType::Circle | CommandType::CircleTurn | CommandType::Square | CommandType::SquareTurn | CommandType::Triangle | CommandType::TriangleTurn | CommandType::Spiral | CommandType::Sway | CommandType::KeepDistance | CommandType::AvoidWall => Some(Category::Flight),
        CommandType::IfBlock | CommandType::ElifBlock | CommandType::ElseBlock | CommandType::EndBlock | CommandType::WhileBlock | CommandType::ForBlock | CommandType::BreakCmd => Some(Category::Control),
        CommandType::Led | CommandType::LedOff | CommandType::RandomLed | CommandType::Buzzer | CommandType::TimeSleep | CommandType::DroneSleep => Some(Category::Output),
        CommandType::VarDeclare | CommandType::SetVar | CommandType::PrintVar | CommandType::UserInput => Some(Category::Var),
        CommandType::DetectWall | CommandType::GetBattery | CommandType::GetHeight | CommandType::GetFrontRange | CommandType::GetBottomRange | CommandType::GetFrontColor | CommandType::GetBackColor | CommandType::GetTemperature | CommandType::GetDistance => Some(Category::Sensor),
        CommandType::FuncDef | CommandType::FuncCall | CommandType::ReturnVal | CommandType::ListDeclare | CommandType::ListAppend | CommandType::ListGet => Some(Category::Func),
        CommandType::TimerStart | CommandType::TimerElapsed => Some(Category::Timer),
    }
}

/// The palette group of a category: its title and its command types, in
/// the order the palette lists them.
pub open spec fn palette_types(c: Category) -> Seq<CommandType> {
    match c {
        Category::Flight => seq![CommandType::Takeoff, CommandType::Land, CommandType::EmergencyStop, CommandType::StopMotors, CommandType::Hover, CommandType::Flip, CommandType::Go, CommandType::MoveForward, CommandType::MoveBackward, CommandType::MoveLeft, CommandType::MoveRight, CommandType::TurnLeft, CommandType::TurnRight, CommandType::TurnDegree, CommandType::Circle, CommandType::CircleTurn, CommandType::Square, CommandType::SquareTurn, CommandType::Triangle, CommandType::TriangleTurn, CommandType::Spiral, CommandType::Sway, CommandType::KeepDistance, CommandType::AvoidWall],
        Category::Control => seq![CommandType::IfBlock, CommandType::ElifBlock, CommandType::ElseBlock, CommandType::EndBlock, CommandType::WhileBlock, CommandType::ForBlock, CommandType::BreakCmd],
        Category::Output => seq![CommandType::Led, CommandType::LedOff, CommandType::RandomLed, CommandType::Buzzer, CommandType::TimeSleep, CommandType::DroneSleep],
        Category::Var => seq![CommandType::VarDeclare, CommandType::SetVar, CommandType::PrintVar, CommandType::UserInput],
        Category::Sensor => seq![CommandType::GetBattery, CommandType::GetHeight, CommandType::GetDistance, CommandType::GetFrontRange, CommandType::GetBottomRange, CommandType::GetFrontColor, CommandType::GetBackColor, CommandType::GetTemperature, CommandType::DetectWall],
        Category::Func => seq![CommandType::FuncDef, CommandType::FuncCall, CommandType::ReturnVal, CommandType::ListDeclare, CommandType::ListAppend, CommandType::ListGet],
        Category::Timer => seq![CommandType::TimerStart, CommandType::TimerElapsed],
    }
}

/// The button labels of a category's palette group, in order.
pub open spec fn palette_labels(c: Category) -> Seq<Seq<char>> {
    match c {
        Category::Flight => seq!["Takeoff"@, "Land"@, "Emergency Stop"@, "Stop Motors"@, "Hover"@, "Flip"@, "Go"@, "Forward"@, "Back"@, "Left"@, "Right"@, "Turn L"@, "Turn R"@, "Turn"@, "Circle"@, "Circle Turn"@, "Square"@, "Square Turn"@, "Triangle"@, "Triangle Turn"@, "Spiral"@, "Sway"@, "Keep Distance"@, "Avoid Wall"@],
        Category::Control => seq!["If"@, "Elif"@, "Else"@, "End"@, "While"@, "For Loop"@, "Break"@],
        Category::Output => seq!["LED"@, "LED Off"@, "Random LED"@, "Buzzer"@, "Sleep"@, "Drone Sleep"@],
        Category::Var => seq!["Var"@, "Set"@, "Print"@, "Input"@],
        Category::Sensor => seq!["Battery"@, "Height"@, "Distance"@, "Front Range"@, "Bottom Range"@, "Front Color"@, "Back Color"@, "Temp"@, "Detect Wall"@],
        Category::Func => seq!["Define"@, "Call"@, "Return"@, "New List"@, "Append"@, "Get Index"@],
        Category::Timer => seq!["Start"@, "Elapsed"@],
    }
}

/// The title of a category's palette group.
pub open spec fn palette_title(c: Category) -> Seq<char> {
    match c {
        Category::Flight => "Flight"@,
        Category::Control => "Control Flow"@,
        Category::Output => "Output"@,
        Category::Var => "Variables"@,
        Category::Sensor => "Sensors"@,
        Category::Func => "Functions & Lists"@,
        Category::Timer => "Timer"@,
    }
}

/// The order of the palette groups.
pub open spec fn palette_order() -> Seq<Category> {
    seq![Category::Flight, Category::Control, Category::Output, Category::Var, Category::Sensor, Category::Func, Category::Timer]
}

/// One group of the command palette.
pub struct PaletteGroup {
    pub title: &'static str,
    pub category: Category,
    pub entries: Vec<(CommandType, &'static str)>,
}

/// Whether `g` is the palette group of category `c`.
pub open spec fn is_palette_group(g: PaletteGroup, c: Category) -> bool {
    &&& g.title@ == palette_title(c)
    &&& g.category == c
    &&& g.entries@.len() == palette_types(c).len()
    &&& forall|i: int|
        0 <= i < g.entries@.len() ==> #[trigger] g.entries@[i].0 == palette_types(c)[i]
            && g.entries@[i].1@ == palette_labels(c)[i]
}

/// The palette group of a category.
pub fn palette_group(c: Category) -> (g: PaletteGroup)
    ensures
        is_palette_group(g, c),
{
    match c {
        Category::Flight => {
            let entries = vec![(CommandType::Takeoff, "Takeoff"), (CommandType::Land, "Land"), (CommandType::EmergencyStop, "Emergency Stop"), (CommandType::StopMotors, "Stop Motors"), (CommandType::Hover, "Hover"), (CommandType::Flip, "Flip"), (CommandType::Go, "Go"), (CommandType::MoveForward, "Forward"), (CommandType::MoveBackward, "Back"), (CommandType::MoveLeft, "Left"), (CommandType::MoveRight, "Right"), (CommandType::TurnLeft, "Turn L"), (CommandType::TurnRight, "Turn R"), (CommandType::TurnDegree, "Turn"), (CommandType::Circle, "Circle"), (CommandType::CircleTurn, "Circle Turn"), (CommandType::Square, "Square"), (CommandType::SquareTurn, "Square Turn"), (CommandType::Triangle, "Triangle"), (CommandType::TriangleTurn, "Triangle Turn"), (CommandType::Spiral, "Spiral"), (CommandType::Sway, "Sway"), (CommandType::KeepDistance, "Keep Distance"), (CommandType::AvoidWall, "Avoid Wall")];
            assert(entries@ =~= seq![(CommandType::Takeoff, "Takeoff"), (CommandType::Land, "Land"), (CommandType::EmergencyStop, "Emergency Stop"), (CommandType::StopMotors, "Stop Motors"), (CommandType::Hover, "Hover"), (CommandType::Flip, "Flip"), (CommandType::Go, "Go"), (CommandType::MoveForward, "Forward"), (CommandType::MoveBackward, "Back"), (CommandType::MoveLeft, "Left"), (CommandType::MoveRight, "Right"), (CommandType::TurnLeft, "Turn L"), (CommandType::TurnRight, "Turn R"), (CommandType::TurnDegree, "Turn"), (CommandType::Circle, "Circle"), (CommandType::CircleTurn, "Circle Turn"), (CommandType::Square, "Square"), (CommandType::SquareTurn, "Square Turn"), (CommandType::Triangle, "Triangle"), (CommandType::TriangleTurn, "Triangle Turn"), (CommandType::Spiral, "Spiral"), (CommandType::Sway, "Sway"), (CommandType::KeepDistance, "Keep Distance"), (CommandType::AvoidWall, "Avoid Wall")]);
            PaletteGroup { title: "Flight", category: Category::Flight, entries }
        },
        Category::Control => {
            let entries = vec![(CommandType::IfBlock, "If"), (CommandType::ElifBlock, "Elif"), (CommandType::ElseBlock, "Else"), (CommandType::EndBlock, "End"), (CommandType::WhileBlock, "While"), (CommandType::ForBlock, "For Loop"), (CommandType::BreakCmd, "Break")];
            assert(entries@ =~= seq![(CommandType::IfBlock, "If"), (CommandType::ElifBlock, "Elif"), (CommandType::ElseBlock, "Else"), (CommandType::EndBlock, "End"), (CommandType::WhileBlock, "While"), (CommandType::ForBlock, "For Loop"), (CommandType::BreakCmd, "Break")]);
            PaletteGroup { title: "Control Flow", category: Category::Control, entries }
        },
        Category::Output => {
            let entries = vec![(CommandType::Led, "LED"), (CommandType::LedOff, "LED Off"), (CommandType::RandomLed, "Random LED"), (CommandType::Buzzer, "Buzzer"), (CommandType::TimeSleep, "Sleep"), (CommandType::DroneSleep, "Drone Sleep")];
            assert(entries@ =~= seq![(CommandType::Led, "LED"), (CommandType::LedOff, "LED Off"), (CommandType::RandomLed, "Random LED"), (CommandType::Buzzer, "Buzzer"), (CommandType::TimeSleep, "Sleep"), (CommandType::DroneSleep, "Drone Sleep")]);
            PaletteGroup { title: "Output", category: Category::Output, entries }
        },
        Category::Var => {
            let entries = vec![(CommandType::VarDeclare, "Var"), (CommandType::SetVar, "Set"), (CommandType::PrintVar, "Print"), (CommandType::UserInput, "Input")];
            assert(entries@ =~= seq![(CommandType::VarDeclare, "Var"), (CommandType::SetVar, "Set"), (CommandType::PrintVar, "Print"), (CommandType::UserInput, "Input")]);
            PaletteGroup { title: "Variables", category: Category::Var, entries }
        },
        Category::Sensor => {
            let entries = vec![(CommandType::GetBattery, "Battery"), (CommandType::GetHeight, "Height"), (CommandType::GetDistance, "Distance"), (CommandType::GetFrontRange, "Front Range"), (CommandType::GetBottomRange, "Bottom Range"), (CommandType::GetFrontColor, "Front Color"), (CommandType::GetBackColor, "Back Color"), (CommandType::GetTemperature, "Temp"), (CommandType::DetectWall, "Detect Wall")];
            assert(entries@ =~= seq![(CommandType::GetBattery, "Battery"), (CommandType::GetHeight, "Height"), (CommandType::GetDistance, "Distance"), (CommandType::GetFrontRange, "Front Range"), (CommandType::GetBottomRange, "Bottom Range"), (CommandType::GetFrontColor, "Front Color"), (CommandType::GetBackColor, "Back Color"), (CommandType::GetTemperature, "Temp"), (CommandType::DetectWall, "Detect Wall")]);
            PaletteGroup { title: "Sensors", category: Category::Sensor, entries }
        },
        Category::Func => {
            let entries = vec![(CommandType::FuncDef, "Define"), (CommandType::FuncCall, "Call"), (CommandType::ReturnVal, "Return"), (CommandType::ListDeclare, "New List"), (CommandType::ListAppend, "Append"), (CommandType::ListGet, "Get Index")];
            assert(entries@ =~= seq![(CommandType::FuncDef, "Define"), (CommandType::FuncCall, "Call"), (CommandType::ReturnVal, "Return"), (CommandType::ListDeclare, "New List"), (CommandType::ListAppend, "Append"), (CommandType::ListGet, "Get Index")]);
            PaletteGroup { title: "Functions & Lists", category: Category::Func, entries }
        },
        Category::Timer => {
            let entries = vec![(CommandType::TimerStart, "Start"), (CommandType::TimerElapsed, "Elapsed")];
            assert(entries@ =~= seq![(CommandType::TimerStart, "Start"), (CommandType::TimerElapsed, "Elapsed")]);
            PaletteGroup { title: "Timer", category: Category::Timer, entries }
        },
    }
}

/// The palette groups, in the order the palette shows them.
pub fn palette_groups() -> (groups: Vec<PaletteGroup>)
    ensures
        groups@.len() == palette_order().len(),
        forall|i: int| 0 <= i < groups@.len() ==> is_palette_group(#[trigger] groups@[i], palette_order()[i]),
{
    let mut groups: Vec<PaletteGroup> = Vec::new();
    groups.push(palette_group(Category::Flight));
    groups.push(palette_group(Category::Control));
    groups.push(palette_group(Category::Output));
    groups.push(palette_group(Category::Var));
    groups.push(palette_group(Category::Sensor));
    groups.push(palette_group(Category::Func));
    groups.push(palette_group(Category::Timer));
    groups
}

/// Every entry of a palette group belongs to the group's category.
pub proof fn law_palette_entries_in_category(c: Category, i: int)
    requires
        0 <= i < palette_types(c).len(),
    ensures
        category_of(palette_types(c)[i]) == c,
{
    match c {
        Category::Flight => {
            assert(palette_types(c) =~= seq![CommandType::Takeoff, CommandType::Land, CommandType::EmergencyStop, CommandType::StopMotors, CommandType::Hover, CommandType::Flip, CommandType::Go, CommandType::MoveForward, CommandType::MoveBackward, CommandType::MoveLeft, CommandType::MoveRight, CommandType::TurnLeft, CommandType::TurnRight, CommandType::TurnDegree, CommandType::Circle, CommandType::CircleTurn, CommandType::Square, CommandType::SquareTurn, CommandType::Triangle, CommandType::TriangleTurn, CommandType::Spiral, CommandType::Sway, CommandType::KeepDistance, CommandType::AvoidWall]);
        },
        Category::Control => {
            assert(palette_types(c) =~= seq![CommandType::IfBlock, CommandType::ElifBlock, CommandType::ElseBlock, CommandType::EndBlock, CommandType::WhileBlock, CommandType::ForBlock, CommandType::BreakCmd]);
        },
        Category::Output => {
            assert(palette_types(c) =~= seq![CommandType::Led, CommandType::LedOff, CommandType::RandomLed, CommandType::Buzzer, CommandType::TimeSleep, CommandType::DroneSleep]);
        },
        Category::Var => {
            assert(palette_types(c) =~= seq![CommandType::VarDeclare, CommandType::SetVar, CommandType::PrintVar, CommandType::UserInput]);
        },
        Category::Sensor => {
            assert(palette_types(c) =~= seq![CommandType::GetBattery, CommandType::GetHeight, CommandType::GetDistance, CommandType::GetFrontRange, CommandType::GetBottomRange, CommandType::GetFrontColor, CommandType::GetBackColor, CommandType::GetTemperature, CommandType::DetectWall]);
        },
        Category::Func => {
            assert(palette_types(c) =~= seq![CommandType::FuncDef, CommandType::FuncCall, CommandType::ReturnVal, CommandType::ListDeclare, CommandType::ListAppend, CommandType::ListGet]);
        },
        Category::Timer => {
            assert(palette_types(c) =~= seq![CommandType::TimerStart, CommandType::TimerElapsed]);
        },
    }
}

/// Every command type has a button in the palette group of its category,
/// and only one.
pub proof fn law_palette_lists_every_type(t: CommandType)
    ensures
        exists|i: int| 0 <= i < palette_types(category_of(t)).len() && palette_types(category_of(t))[i] == t,
        forall|i: int, j: int|
            0 <= i < palette_types(category_of(t)).len() && 0 <= j < palette_types(category_of(t)).len()
                && palette_types(category_of(t))[i] == t && palette_types(category_of(t))[j] == t ==> i == j,
{
    match t {
        CommandType::Takeoff => {
            assert(palette_types(category_of(t))[0] == t);
        },
        CommandType::Land => {
            assert(palette_types(category_of(t))[1] == t);
        },
        CommandType::EmergencyStop => {
            assert(palette_types(category_of(t))[2] == t);
        },
        CommandType::StopMotors => {
            assert(palette_types(category_of(t))[3] == t);
        },
        CommandType::Hover => {
            assert(palette_types(category_of(t))[4] == t);
        },
        CommandType::Flip => {
            assert(palette_types(category_of(t))[5] == t);
        },
        CommandType::Go => {
            assert(palette_types(category_of(t))[6] == t);
        },
        CommandType::MoveForward => {
            assert(palette_types(category_of(t))[7] == t);
        },
        CommandType::MoveBackward => {
            assert(palette_types(category_of(t))[8] == t);
        },
        CommandType::MoveLeft => {
            assert(palette_types(category_of(t))[9] == t);
        },
        CommandType::MoveRight => {
            assert(palette_types(category_of(t))[10] == t);
        },
        CommandType::TurnLeft => {
            assert(palette_types(category_of(t))[11] == t);
        },
        CommandType::TurnRight => {
            assert(palette_types(category_of(t))[12] == t);
        },
        CommandType::TurnDegree => {
            assert(palette_types(category_of(t))[13] == t);
        },
        CommandType::Circle => {
            assert(palette_types(category_of(t))[14] == t);
        },
        CommandType::CircleTurn => {
            assert(palette_types(category_of(t))[15] == t);
        },
        CommandType::Square => {
            assert(palette_types(category_of(t))[16] == t);
        },
        CommandType::SquareTurn => {
            assert(palette_types(category_of(t))[17] == t);
        },
        CommandType::Triangle => {
            assert(palette_types(category_of(t))[18] == t);
        },
        CommandType::TriangleTurn => {
            assert(palette_types(category_of(t))[19] == t);
        },
        CommandType::Spiral => {
            assert(palette_types(category_of(t))[20] == t);
        },
        CommandType::Sway => {
            assert(palette_types(category_of(t))[21] == t);
        },
        CommandType::KeepDistance => {
            assert(palette_types(category_of(t))[22] == t);
        },
        CommandType::AvoidWall => {
            assert(palette_types(category_of(t))[23] == t);
        },
        CommandType::DetectWall => {
            assert(palette_types(category_of(t))[8] == t);
        },
        CommandType::Led => {
            assert(palette_types(category_of(t))[0] == t);
        },
        CommandType::LedOff => {
            assert(palette_types(category_of(t))[1] == t);
        },
        CommandType::RandomLed => {
            assert(palette_types(category_of(t))[2] == t);
        },
        CommandType::Buzzer => {
            assert(palette_types(category_of(t))[3] == t);
        },
        CommandType::TimeSleep => {
            assert(palette_types(category_of(t))[4] == t);
        },
        CommandType::DroneSleep => {
            assert(palette_types(category_of(t))[5] == t);
        },
        CommandType::VarDeclare => {
            assert(palette_types(category_of(t))[0] == t);
        },
        CommandType::SetVar => {
            assert(palette_types(category_of(t))[1] == t);
        },
        CommandType::PrintVar => {
            assert(palette_types(category_of(t))[2] == t);
        },
        CommandType::IfBlock => {
            assert(palette_types(category_of(t))[0] == t);
        },
        CommandType::ElifBlock => {
            assert(palette_types(category_of(t))[1] == t);
        },
        CommandType::ElseBlock => {
            assert(palette_types(category_of(t))[2] == t);
        },
        CommandType::EndBlock => {
            assert(palette_types(category_of(t))[3] == t);
        },
        CommandType::WhileBlock => {
            assert(palette_types(category_of(t))[4] == t);
        },
        CommandType::ForBlock => {
            assert(palette_types(category_of(t))[5] == t);
        },
        CommandType::BreakCmd => {
            assert(palette_types(category_of(t))[6] == t);
        },
        CommandType::GetBattery => {
            assert(palette_types(category_of(t))[0] == t);
        },
        CommandType::GetHeight => {
            assert(palette_types(category_of(t))[1] == t);
        },
        CommandType::GetFrontRange => {
            assert(palette_types(category_of(t))[3] == t);
        },
        CommandType::GetBottomRange => {
            assert(palette_types(category_of(t))[4] == t);
        },
        CommandType::GetFrontColor => {
            assert(palette_types(category_of(t))[5] == t);
        },
        CommandType::GetBackColor => {
            assert(palette_types(category_of(t))[6] == t);
        },
        CommandType::GetTemperature => {
            assert(palette_types(category_of(t))[7] == t);
        },
        CommandType::GetDistance => {
            assert(palette_types(category_of(t))[2] == t);
        },
        CommandType::FuncDef => {
            assert(palette_types(category_of(t))[0] == t);
        },
        CommandType::FuncCall => {
            assert(palette_types(category_of(t))[1] == t);
        },
        CommandType::ReturnVal => {
            assert(palette_types(category_of(t))[2] == t);
        },
        CommandType::ListDeclare => {
            assert(palette_types(category_of(t))[3] == t);
        },
        CommandType::ListAppend => {
            assert(palette_types(category_of(t))[4] == t);
        },
        CommandType::ListGet => {
            assert(palette_types(category_of(t))[5] == t);
        },
        CommandType::UserInput => {
            assert(palette_types(category_of(t))[3] == t);
        },
        CommandType::TimerStart => {
            assert(palette_types(category_of(t))[0] == t);
        },
        CommandType::TimerElapsed => {
            assert(palette_types(category_of(t))[1] == t);
        },
    }
}

/// `s` with each `_` written as a space.
pub open spec fn underscores_as_spaces(s: Seq<char>) -> Seq<char> {
    s.map_values(|c: char| if c == '_' { ' ' } else { c })
}

/// The search text of the palette filter: trimmed and lowercased.
pub fn palette_needle(filter: &str) -> (needle: String)
    ensures
        needle@ == lowercase(trimmed(filter@)),
{
    let chars = chars_of(filter);
    let trimmed_chars = trim_chars(&chars);
    let text = string_of(&trimmed_chars);
    to_lowercase(text.as_str())
}

/// Whether a palette button shows for the search text `needle`: always
/// for an empty search, else when the lowercased label, the type's name,
/// or the name with spaces for underscores contains it.
pub open spec fn palette_shows(t: CommandType, label: Seq<char>, needle: Seq<char>) -> bool {
    needle.len() == 0 || contains_seq(lowercase(label), needle) || contains_seq(command_name(t), needle)
        || contains_seq(underscores_as_spaces(command_name(t)), needle)
}

/// Whether a palette button shows for the search text `needle`.
pub fn palette_entry_visible(command_type: CommandType, label: &str, needle: &str) -> (r: bool)
    ensures
        r == palette_shows(command_type, label@, needle@),
{
    let needle_chars = chars_of(needle);
    if needle_chars.len() == 0 {
        return true;
    }
    let lowered = to_lowercase(label);
    let lowered_chars = chars_of(lowered.as_str());
    if contains_chars(&lowered_chars, &needle_chars) {
        return true;
    }
    let name = chars_of(command_type.as_str());
    if contains_chars(&name, &needle_chars) {
        return true;
    }
    let mut spaced: Vec<char> = Vec::new();
    let mut i: usize = 0;
    while i < name.len()
        invariant
            i <= name.len(),
            spaced@ == underscores_as_spaces(name@).take(i as int),
        decreases name.len() - i,
    {
        let c = name[i];
        spaced.push(if c == '_' { ' ' } else { c });
        assert(spaced@ =~= underscores_as_spaces(name@).take(i + 1));
        i += 1;
    }
    assert(spaced@ =~= underscores_as_spaces(name@));
    contains_chars(&spaced, &needle_chars)
}

// ---------------------------------------------------------------------
// Labels

/// `text` with its first character in upper case.
pub open spec fn capitalized(text: Seq<char>) -> Seq<char> {
    if text.len() == 0 {
        Seq::empty()
    } else {
        char_upper(text[0]) + text.skip(1)
    }
}

/// `text` with its first character in upper case.
pub fn capitalize(text: &str) -> (r: String)
    ensures
        r@ == capitalized(text@),
{
    let chars = chars_of(text);
    if chars.len() == 0 {
        return String::new();
    }
    let first = to_uppercase_char(chars[0]);
    let mut out = chars_of(first.as_str());
    let mut i: usize = 1;
    let ghost head = out@;
    while i < chars.len()
        invariant
            1 <= i <= chars.len(),
            out@ == head + chars@.subrange(1, i as int),
        decreases chars.len() - i,
    {
        out.push(chars[i]);
        assert(out@ =~= head + chars@.subrange(1, i + 1));
        i += 1;
    }
    assert(chars@.subrange(1, i as int) =~= text@.skip(1));
    string_of(&out)
}

// ---------------------------------------------------------------------
// Console lines

/// The colour a console line is shown in.
#[derive(Clone, Copy, Debug, PartialEq, Eq, Structural)]
pub enum ConsoleTone {
    Success,
    Warn,
    Error,
    Plain,
}

/// The tone of a line in the code panel's console: by its `[success]`,
/// `[warn]` or `[error]` prefix, checked in that order.
pub open spec fn console_tone_of(line: Seq<char>) -> ConsoleTone {
    if "[success]"@.is_prefix_of(line) {
        ConsoleTone::Success
    } else if "[warn]"@.is_prefix_of(line) {
        ConsoleTone::Warn
    } else if "[error]"@.is_prefix_of(line) {
        ConsoleTone::Error
    } else {
        ConsoleTone::Plain
    }
}

/// The tone of a line in the code panel's console.
pub fn console_tone(line: &str) -> (r: ConsoleTone)
    ensures
        r == console_tone_of(line@),
{
    if starts_with_str(line, "[success]") {
        ConsoleTone::Success
    } else if starts_with_str(line, "[warn]") {
        ConsoleTone::Warn
    } else if starts_with_str(line, "[error]") {
        ConsoleTone::Error
    } else {
        ConsoleTone::Plain
    }
}

/// The tone of a line in the obstacles panel's console strip, which also
/// reads the words in it: an error is tagged `[error]` or says
/// `COLLISION` or `Error`; a warning is tagged `[warn]` or says `Rejected`
/// or `Cannot`; a success is tagged `[success]` or says `success`. Checked
/// in that order.
pub open spec fn strip_tone_of(line: Seq<char>) -> ConsoleTone {
    if "[error]"@.is_prefix_of(line) || contains_seq(line, "COLLISION"@) || contains_seq(
        line,
        "Error"@,
    ) {
        ConsoleTone::Error
    } else if "[warn]"@.is_prefix_of(line) || contains_seq(line, "Rejected"@) || contains_seq(
        line,
        "Cannot"@,
    ) {
        ConsoleTone::Warn
    } else if "[success]"@.is_prefix_of(line) || contains_seq(line, "success"@) {
        ConsoleTone::Success
    } else {
        ConsoleTone::Plain
    }
}

/// The tone of a line in the obstacles panel's console strip.
pub fn strip_tone(line: &str) -> (r: ConsoleTone)
    ensures
        r == strip_tone_of(line@),
{
    if starts_with_str(line, "[error]") || contains_str(line, "COLLISION") || contains_str(
        line,
        "Error",
    ) {
        ConsoleTone::Error
    } else if starts_with_str(line, "[warn]") || contains_str(line, "Rejected") || contains_str(
        line,
        "Cannot",
    ) {
        ConsoleTone::Warn
    } else if starts_with_str(line, "[success]") || contains_str(line, "success") {
        ConsoleTone::Success
    } else {
        ConsoleTone::Plain
    }
}

// ---------------------------------------------------------------------
// The code view

/// Where line `k` (from 0) of `s` begins, the lines being the pieces
/// between `\n`s; none when `s` has no line `k`.
pub open spec fn line_start(s: Seq<char>, k: nat) -> Option<int>
    decreases k,
{
    if k == 0 {
        Some(0)
    } else {
        match line_start(s, (k - 1) as nat) {
            Some(p) => {
                let q = find_from(s, '\n', p);
                if q < s.len() {
                    Some(q + 1)
                } else {
                    None
                }
            },
            None => None,
        }
    }
}

/// `s` with `> ` before line `k`, which is how the code view marks the
/// line of the command being flown; `s` itself when it has no line `k`.
pub open spec fn marked_line(s: Seq<char>, k: nat) -> Seq<char> {
    match line_start(s, k) {
        Some(p) => s.take(p) + seq!['>', ' '] + s.skip(p),
        None => s,
    }
}

proof fn lemma_line_start_none(s: Seq<char>, k: nat, j: nat)
    requires
        k <= j,
        line_start(s, k) is None,
    ensures
        line_start(s, j) is None,
    decreases j,
{
    if k < j {
        lemma_line_start_none(s, k, (j - 1) as nat);
    }
}

/// Marks line `index` of `text` with `> `, as the split-and-join of the
/// code view does; the text is unchanged when it has fewer lines.
pub fn mark_line(text: &str, index: usize) -> (r: String)
    ensures
        r@ == marked_line(text@, index as nat),
{
    let s = chars_of(text);
    let mut p: usize = 0;
    let mut k: usize = 0;
    while k < index
        invariant
            k <= index,
            s@ == text@,
            p <= s.len(),
            line_start(s@, k as nat) == Some(p as int),
        decreases index - k,
    {
        let q = find_char(&s, '\n', p);
        proof {
            lemma_find_from(s@, '\n', p as int);
        }
        if q >= s.len() {
            proof {
                lemma_line_start_none(s@, (k + 1) as nat, index as nat);
            }
            return string_of(&s);
        }
        p = q + 1;
        k += 1;
    }
    let mut out: Vec<char> = Vec::new();
    let mut i: usize = 0;
    while i < p
        invariant
            i <= p <= s.len(),
            out@ == s@.take(i as int),
        decreases p - i,
    {
        out.push(s[i]);
        assert(out@ =~= s@.take(i + 1));
        i += 1;
    }
    out.push('>');
    out.push(' ');
    let ghost head = out@;
    while i < s.len()
        invariant
            p <= i <= s.len(),
            out@ == head + s@.subrange(p as int, i as int),
        decreases s.len() - i,
    {
        out.push(s[i]);
        assert(out@ =~= head + s@.subrange(p as int, i + 1));
        i += 1;
    }
    assert(out@ =~= s@.take(p as int) + seq!['>', ' '] + s@.skip(p as int));
    string_of(&out)
}

// ---------------------------------------------------------------------
// Fresh numbered names

/// The texts of some strings.
pub open spec fn string_views(v: Seq<String>) -> Seq<Seq<char>> {
    Seq::new(v.len(), |i: int| v[i]@)
}

/// `prefix` followed by the decimal digits of `n`.
pub open spec fn numbered(prefix: Seq<char>, n: nat) -> Seq<char> {
    prefix + nat_text(n)
}

proof fn lemma_nat_text_len(n: nat)
    ensures
        nat_text(n).len() >= 1,
        nat_text(n).len() == 1 <==> n < 10,
    decreases n,
{
    if n >= 10 {
        lemma_nat_text_len(n / 10);
    }
}

proof fn lemma_nat_text_injective(a: nat, b: nat)
    requires
        nat_text(a) == nat_text(b),
    ensures
        a == b,
    decreases a,
{
    lemma_nat_text_len(a);
    lemma_nat_text_len(b);
    if a >= 10 && b >= 10 {
        let ta = nat_text(a);
        assert(ta.drop_last() =~= nat_text(a / 10));
        assert(nat_text(b).drop_last() =~= nat_text(b / 10));
        assert(ta.last() == nat_text(b).last());
        assert(ta.last() as int == 48 + a % 10);
        assert(nat_text(b).last() as int == 48 + b % 10);
        lemma_nat_text_injective(a / 10, b / 10);
    } else if a < 10 && b < 10 {
        assert(nat_text(a)[0] == nat_text(b)[0]);
        assert(nat_text(a)[0] as int == 48 + a);
        assert(nat_text(b)[0] as int == 48 + b);
    }
}

proof fn lemma_numbered_injective(prefix: Seq<char>, a: nat, b: nat)
    requires
        numbered(prefix, a) == numbered(prefix, b),
    ensures
        a == b,
{
    assert(numbered(prefix, a).skip(prefix.len() as int) =~= nat_text(a));
    assert(numbered(prefix, b).skip(prefix.len() as int) =~= nat_text(b));
    lemma_nat_text_injective(a, b);
}

/// Among `taken.len() + 1` numbers in a row, some number is free: the
/// names they give are all different, and `taken` holds at most
/// `taken.len()` of them.
proof fn lemma_some_number_free(prefix: Seq<char>, start: nat, taken: Seq<Seq<char>>)
    ensures
        exists|m: nat| start <= m <= start + taken.len() && !taken.contains(#[trigger] numbered(prefix, m)),
{
    if forall|m: nat| start <= m <= start + taken.len() ==> taken.contains(#[trigger] numbered(prefix, m)) {
        let lo = start as int;
        let hi = (start + taken.len() + 1) as int;
        let range = set_int_range(lo, hi);
        let f = |i: int| numbered(prefix, i as nat);
        lemma_int_range(lo, hi);
        assert forall|x: int, y: int| range.contains(x) && range.contains(y) && #[trigger] f(x) == #[trigger] f(
            y,
        ) implies x == y by {
            lemma_numbered_injective(prefix, x as nat, y as nat);
        }
        lemma_map_size(range, range.map(f), f);
        assert forall|t: Seq<char>| range.map(f).contains(t) implies taken.to_set().contains(t) by {
            let i = choose|i: int| range.contains(i) && f(i) == t;
            assert(taken.contains(numbered(prefix, i as nat)));
        }
        taken.lemma_cardinality_of_set();
        lemma_len_subset(range.map(f), taken.to_set());
    }
}

/// The first number from `n` on, looking at most `fuel` numbers further,
/// whose name is not among `taken`.
pub open spec fn free_from(prefix: Seq<char>, n: nat, taken: Seq<Seq<char>>, fuel: nat) -> nat
    decreases fuel,
{
    if fuel == 0 || !taken.contains(numbered(prefix, n)) {
        n
    } else {
        free_from(prefix, n + 1, taken, (fuel - 1) as nat)
    }
}

/// The first number from `start` on whose name is not among `taken`.
pub open spec fn first_free(prefix: Seq<char>, start: nat, taken: Seq<Seq<char>>) -> nat {
    free_from(prefix, start, taken, taken.len())
}

/// Whether `name` is among `taken`.
fn is_taken(taken: &Vec<String>, name: &str) -> (r: bool)
    ensures
        r == string_views(taken@).contains(name@),
{
    let ghost views = string_views(taken@);
    let mut j: usize = 0;
    while j < taken.len()
        invariant
            j <= taken.len(),
            views == string_views(taken@),
            forall|k: int| 0 <= k < j ==> views[k] != name@,
        decreases taken.len() - j,
    {
        if str_eq(taken[j].as_str(), name) {
            assert(views[j as int] == name@);
            return true;
        }
        j += 1;
    }
    false
}

/// The first number from `start` on for which `prefix` and the number is
/// not among `taken`, with that name. Such a number comes within
/// `taken.len()` steps.
pub fn first_free_name(prefix: &str, start: u64, taken: &Vec<String>) -> (r: (u64, String))
    requires
        start + taken.len() <= u64::MAX,
    ensures
        r.0 == first_free(prefix@, start as nat, string_views(taken@)),
        r.1@ == numbered(prefix@, r.0 as nat),
        start <= r.0 <= start + taken.len(),
        !string_views(taken@).contains(numbered(prefix@, r.0 as nat)),
        forall|m: nat| start <= m < r.0 ==> string_views(taken@).contains(#[trigger] numbered(prefix@, m)),
{
    let ghost views = string_views(taken@);
    let last: u64 = start + taken.len() as u64;
    let mut n: u64 = start;
    loop
        invariant
            start <= n <= last,
            last == start + taken.len(),
            views == string_views(taken@),
            free_from(prefix@, n as nat, views, (last - n) as nat) == first_free(
                prefix@,
                start as nat,
                views,
            ),
            forall|m: nat| start <= m < n ==> views.contains(#[trigger] numbered(prefix@, m)),
        decreases last - n,
    {
        let mut text: Vec<char> = Vec::new();
        push_text(&mut text, prefix);
        push_uint(&mut text, n);
        let candidate = string_of(&text);
        if !is_taken(taken, candidate.as_str()) {
            return (n, candidate);
        }
        if n == last {
            proof {
                assert forall|m: nat| start <= m <= start + views.len() implies views.contains(
                    #[trigger] numbered(prefix@, m),
                ) by {
                    if m < n {
                    } else {
                        assert(m == n);
                    }
                }
                lemma_some_number_free(prefix@, start as nat, views);
                let m = choose|m: nat| start <= m <= start + views.len() && !views.contains(
                    #[trigger] numbered(prefix@, m),
                );
                assert(views.contains(numbered(prefix@, m)));
            }
        }
        n += 1;
    }
}

/// The id prefix of new obstacles of a type: `obs_`, the type, `_`.
pub open spec fn obstacle_id_prefix(obstacle_type: Seq<char>) -> Seq<char> {
    "obs_"@ + obstacle_type + "_"@
}

/// The number the obstacles panel gives a new obstacle: counting on from
/// one more than the number of obstacles, the first whose id is free.
pub open spec fn new_obstacle_number(obstacle_type: Seq<char>, ids: Seq<Seq<char>>) -> nat {
    first_free(obstacle_id_prefix(obstacle_type), ids.len() + 1, ids)
}

/// The id and the name of a new obstacle of type `obstacle_type` beside
/// obstacles with ids `ids`: `obs_<type>_<n>` and `<type> <n>`, `n` being
/// its number.
pub fn new_obstacle_label(obstacle_type: &str, ids: &Vec<String>) -> (r: (String, String))
    requires
        2 * ids.len() < u64::MAX,
    ensures
        r.0@ == numbered(
            obstacle_id_prefix(obstacle_type@),
            new_obstacle_number(obstacle_type@, string_views(ids@)),
        ),
        r.1@ == obstacle_type@ + seq![' '] + nat_text(
            new_obstacle_number(obstacle_type@, string_views(ids@)),
        ),
{
    let mut prefix_chars: Vec<char> = Vec::new();
    push_text(&mut prefix_chars, "obs_");
    push_text(&mut prefix_chars, obstacle_type);
    push_text(&mut prefix_chars, "_");
    let prefix = string_of(&prefix_chars);
    let (n, id) = first_free_name(prefix.as_str(), ids.len() as u64 + 1, ids);
    let mut name_chars: Vec<char> = Vec::new();
    push_text(&mut name_chars, obstacle_type);
    name_chars.push(' ');
    push_uint(&mut name_chars, n);
    proof {
        assert(prefix@ =~= obstacle_id_prefix(obstacle_type@));
        assert(name_chars@ =~= obstacle_type@ + seq![' '] + nat_text(n as nat));
    }
    (id, string_of(&name_chars))
}

// ---------------------------------------------------------------------
// Drone swatches

/// The value of a hexadecimal digit byte.
pub open spec fn hex_byte(b: u8) -> Option<u8> {
    if 48 <= b <= 57 {
        Some((b - 48) as u8)
    } else if 97 <= b <= 102 {
        Some((b - 87) as u8)
    } else if 65 <= b <= 70 {
        Some((b - 55) as u8)
    } else {
        None
    }
}

/// Two bytes read as `u8::from_str_radix` in base 16 reads them: an
/// optional `+`, then hexadecimal digits.
pub open spec fn byte_pair_value(a: u8, b: u8) -> Option<u8> {
    if a == 43 {
        hex_byte(b)
    } else {
        match (hex_byte(a), hex_byte(b)) {
            (Some(x), Some(y)) => Some((16 * x + y) as u8),
            _ => None,
        }
    }
}

/// `s` without its leading `#` bytes.
pub open spec fn skip_hashes(s: Seq<u8>) -> Seq<u8>
    decreases s.len(),
{
    if s.len() > 0 && s[0] == 35 {
        skip_hashes(s.skip(1))
    } else {
        s
    }
}

/// Whether `b` continues a UTF-8 sequence, so that no character starts at it.
pub open spec fn is_continuation(b: u8) -> bool {
    128 <= b < 192
}

/// Whether the swatch colour can cut `s` into its three channels: when
/// six bytes follow the `#`s, characters start at the third and fifth.
pub open spec fn swatch_cuttable(s: Seq<u8>) -> bool {
    let h = skip_hashes(s);
    h.len() == 6 ==> !is_continuation(h[2]) && !is_continuation(h[4])
}

/// The swatch colour of a drone colour text: after the leading `#`s, six
/// bytes read as three channels of two hexadecimal digits, a channel that
/// does not read being `0x88`; grey `0x888888` when there are not six.
pub open spec fn swatch_of(s: Seq<u8>) -> (u8, u8, u8) {
    let h = skip_hashes(s);
    if h.len() != 6 {
        (0x88, 0x88, 0x88)
    } else {
        (
            byte_pair_value(h[0], h[1]).unwrap_or(0x88),
            byte_pair_value(h[2], h[3]).unwrap_or(0x88),
            byte_pair_value(h[4], h[5]).unwrap_or(0x88),
        )
    }
}

fn hex_byte_exec(b: u8) -> (r: Option<u8>)
    ensures
        r == hex_byte(b),
{
    if 48 <= b && b <= 57 {
        Some(b - 48)
    } else if 97 <= b && b <= 102 {
        Some(b - 87)
    } else if 65 <= b && b <= 70 {
        Some(b - 55)
    } else {
        None
    }
}

fn pair_channel(a: u8, b: u8) -> (r: u8)
    ensures
        r == byte_pair_value(a, b).unwrap_or(0x88),
{
    if a == 43 {
        return match hex_byte_exec(b) {
            Some(v) => v,
            None => 0x88,
        };
    }
    match (hex_byte_exec(a), hex_byte_exec(b)) {
        (Some(x), Some(y)) => 16 * x + y,
        _ => 0x88,
    }
}

/// The swatch colour of a drone colour text, as red, green and blue.
pub fn swatch_rgb(color: &str) -> (r: (u8, u8, u8))
    requires
        swatch_cuttable(color.spec_bytes()),
    ensures
        r == swatch_of(color.spec_bytes()),
{
    let bytes = color.as_bytes();
    let ghost s = bytes@;
    let mut i: usize = 0;
    assert(s.skip(0) =~= s);
    while i < bytes.len() && bytes[i] == 35
        invariant
            i <= bytes.len(),
            s == bytes@,
            skip_hashes(s) == skip_hashes(s.skip(i as int)),
        decreases bytes.len() - i,
    {
        assert(s.skip(i as int).skip(1) =~= s.skip(i + 1));
        i += 1;
    }
    let ghost h = s.skip(i as int);
    assert(skip_hashes(h) == h);
    if bytes.len() - i != 6 {
        return (0x88, 0x88, 0x88);
    }
    assert(h[0] == bytes@[i as int] && h[5] == bytes@[i + 5]);
    (
        pair_channel(bytes[i], bytes[i + 1]),
        pair_channel(bytes[i + 2], bytes[i + 3]),
        pair_channel(bytes[i + 4], bytes[i + 5]),
    )
}

// ---------------------------------------------------------------------
// Command summaries

/// The text of the first pair of `p` with key `key`.
pub open spec fn value_of(p: Seq<(Seq<char>, Seq<char>)>, key: Seq<char>) -> Option<Seq<char>>
    decreases p.len(),
{
    if p.len() == 0 {
        None
    } else if p[0].0 == key {
        Some(p[0].1)
    } else {
        value_of(p.drop_first(), key)
    }
}

/// `key=value`.
pub open spec fn summary_part(key: Seq<char>, value: Seq<char>) -> Seq<char> {
    key + seq!['='] + value
}

/// The parts for the keys a command's definition lists, in that order,
/// for those the command has.
pub open spec fn listed_parts(keys: Seq<Seq<char>>, p: Seq<(Seq<char>, Seq<char>)>) -> Seq<Seq<char>>
    decreases keys.len(),
{
    if keys.len() == 0 {
        Seq::empty()
    } else {
        let prev = listed_parts(keys.drop_last(), p);
        match value_of(p, keys.last()) {
            Some(v) => prev.push(summary_part(keys.last(), v)),
            None => prev,
        }
    }
}

/// The parts for the parameters whose keys the definition does not list,
/// in their order.
pub open spec fn other_parts(p: Seq<(Seq<char>, Seq<char>)>, keys: Seq<Seq<char>>) -> Seq<Seq<char>>
    decreases p.len(),
{
    if p.len() == 0 {
        Seq::empty()
    } else {
        let prev = other_parts(p.drop_last(), keys);
        if keys.contains(p.last().0) {
            prev
        } else {
            prev.push(summary_part(p.last().0, p.last().1))
        }
    }
}

/// Texts joined by `, `.
pub open spec fn joined(parts: Seq<Seq<char>>) -> Seq<char>
    decreases parts.len(),
{
    if parts.len() == 0 {
        Seq::empty()
    } else if parts.len() == 1 {
        parts[0]
    } else {
        joined(parts.drop_last()) + seq![',', ' '] + parts.last()
    }
}

/// The one-line summary of a command's parameters (key, value-text pairs,
/// in key order) beside the keys its definition lists: first the listed
/// ones it has, in the definition's order, then the rest, joined by `, `.
pub open spec fn summary_of(keys: Seq<Seq<char>>, p: Seq<(Seq<char>, Seq<char>)>) -> Seq<char> {
    joined(listed_parts(keys, p) + other_parts(p, keys))
}

/// The value text of `key` in `params`, if it has one.
fn find_value(params: &Vec<(String, String)>, key: &str) -> (r: Option<usize>)
    ensures
        match r {
            Some(i) => i < params.len() && value_of(pair_views(params@), key@) == Some(
                params@[i as int].1@,
            ),
            None => value_of(pair_views(params@), key@) is None,
        },
{
    let ghost pv = pair_views(params@);
    let mut i: usize = 0;
    assert(pv.skip(0) =~= pv);
    while i < params.len()
        invariant
            i <= params.len(),
            pv == pair_views(params@),
            value_of(pv, key@) == value_of(pv.skip(i as int), key@),
        decreases params.len() - i,
    {
        assert(pv.skip(i as int)[0] == pv[i as int]);
        assert(pv.skip(i as int).drop_first() =~= pv.skip(i + 1));
        if str_eq(params[i].0.as_str(), key) {
            return Some(i);
        }
        i += 1;
    }
    assert(pv.skip(i as int) =~= Seq::<(Seq<char>, Seq<char>)>::empty());
    None
}

/// Whether `key` is among `keys`.
fn has_key(keys: &Vec<String>, key: &str) -> (r: bool)
    ensures
        r == string_views(keys@).contains(key@),
{
    let ghost views = string_views(keys@);
    let mut j: usize = 0;
    while j < keys.len()
        invariant
            j <= keys.len(),
            views == string_views(keys@),
            forall|k: int| 0 <= k < j ==> views[k] != key@,
        decreases keys.len() - j,
    {
        if str_eq(keys[j].as_str(), key) {
            assert(views[j as int] == key@);
            return true;
        }
        j += 1;
    }
    false
}

/// Appends `key=value` as the next part after `parts`.
fn push_part(out: &mut Vec<char>, any: bool, key: &str, value: &str, Ghost(parts): Ghost<Seq<Seq<char>>>)
    requires
        old(out)@ == joined(parts),
        any == (parts.len() > 0),
    ensures
        final(out)@ == joined(parts.push(summary_part(key@, value@))),
{
    let ghost next = parts.push(summary_part(key@, value@));
    assert(next.drop_last() =~= parts);
    if any {
        out.push(',');
        out.push(' ');
    }
    push_text(out, key);
    out.push('=');
    push_text(out, value);
    assert(out@ =~= joined(next));
}

/// The summary of a command's parameters beside its definition's keys.
pub fn params_summary(keys: &Vec<String>, params: &Vec<(String, String)>) -> (r: String)
    ensures
        r@ == summary_of(string_views(keys@), pair_views(params@)),
{
    let ghost ks = string_views(keys@);
    let ghost pv = pair_views(params@);
    let mut out: Vec<char> = Vec::new();
    let mut any = false;
    let ghost mut parts: Seq<Seq<char>> = Seq::empty();
    let mut i: usize = 0;
    while i < keys.len()
        invariant
            i <= keys.len(),
            ks == string_views(keys@),
            pv == pair_views(params@),
            parts == listed_parts(ks.take(i as int), pv),
            out@ == joined(parts),
            any == (parts.len() > 0),
        decreases keys.len() - i,
    {
        assert(ks.take(i + 1).drop_last() =~= ks.take(i as int));
        assert(ks.take(i + 1).last() == keys@[i as int]@);
        match find_value(params, keys[i].as_str()) {
            Some(j) => {
                push_part(&mut out, any, keys[i].as_str(), params[j].1.as_str(), Ghost(parts));
                proof {
                    parts = parts.push(summary_part(keys@[i as int]@, params@[j as int].1@));
                }
                any = true;
            },
            None => {},
        }
        i += 1;
    }
    assert(ks.take(i as int) =~= ks);
    let ghost listed = parts;
    let mut j: usize = 0;
    assert(pv.take(0) =~= Seq::<(Seq<char>, Seq<char>)>::empty());
    while j < params.len()
        invariant
            j <= params.len(),
            ks == string_views(keys@),
            pv == pair_views(params@),
            listed == listed_parts(ks, pv),
            parts == listed + other_parts(pv.take(j as int), ks),
            out@ == joined(parts),
            any == (parts.len() > 0),
        decreases params.len() - j,
    {
        assert(pv.take(j + 1).drop_last() =~= pv.take(j as int));
        assert(pv.take(j + 1).last() == pv[j as int]);
        if !has_key(keys, params[j].0.as_str()) {
            push_part(&mut out, any, params[j].0.as_str(), params[j].1.as_str(), Ghost(parts));
            proof {
                let part = summary_part(params@[j as int].0@, params@[j as int].1@);
                assert(listed + other_parts(pv.take(j + 1), ks) =~= parts.push(part));
                parts = parts.push(part);
            }
            any = true;
        } else {
            assert(listed + other_parts(pv.take(j + 1), ks) =~= parts);
        }
        j += 1;
    }
    assert(pv.take(j as int) =~= pv);
    string_of(&out)
}

/// Which obstacle stays expanded after obstacle `removed` is taken out:
/// none if it was that one, the one before if it came after, else the same.
pub open spec fn expanded_after(expanded: Option<usize>, removed: usize) -> Option<usize> {
    match expanded {
        Some(current) => if current == removed {
            None
        } else if current > removed {
            Some((current - 1) as usize)
        } else {
            Some(current)
        },
        None => None,
    }
}

/// Which obstacle stays expanded after obstacle `removed` is taken out.
pub fn expanded_after_removal(expanded: Option<usize>, removed: usize) -> (r: Option<usize>)
    ensures
        r == expanded_after(expanded, removed),
{
    match expanded {
        Some(current) => if current == removed {
            None
        } else if current > removed {
            Some(current - 1)
        } else {
            Some(current)
        },
        None => None,
    }
}

// ---------------------------------------------------------------------
// Panel state

/// The state of the telemetry panel: whether its chart is shown.
pub struct TelemetryPanel {
    pub chart_expanded: bool,
}

impl TelemetryPanel {
    pub fn new() -> (p: TelemetryPanel)
        ensures
            !p.chart_expanded,
    {
        TelemetryPanel { chart_expanded: false }
    }

    /// Whether the chart is shown.
    pub fn chart_expanded(&self) -> (r: bool)
        ensures
            r == self.chart_expanded,
    {
        self.chart_expanded
    }
}

impl Default for TelemetryPanel {
    fn default() -> (p: TelemetryPanel)
        ensures
            !p.chart_expanded,
    {
        TelemetryPanel::new()
    }
}

/// The state of the plan tree: the drone being renamed (id and edited
/// name), the palette's search text, the telemetry below it, and the
/// selection it last scrolled to.
pub struct PlanTreePanel {
    pub renaming: Option<(String, String)>,
    pub palette_filter: String,
    pub telemetry: TelemetryPanel,
    pub last_selection: Vec<usize>,
}

impl PlanTreePanel {
    pub fn new() -> (p: PlanTreePanel)
        ensures
            p.renaming is None,
            p.palette_filter@.len() == 0,
            !p.telemetry.chart_expanded,
            p.last_selection@.len() == 0,
    {
        PlanTreePanel {
            renaming: None,
            palette_filter: String::new(),
            telemetry: TelemetryPanel::new(),
            last_selection: Vec::new(),
        }
    }
}

impl Default for PlanTreePanel {
    fn default() -> (p: PlanTreePanel)
        ensures
            p.renaming is None,
            p.palette_filter@.len() == 0,
            !p.telemetry.chart_expanded,
            p.last_selection@.len() == 0,
    {
        PlanTreePanel::new()
    }
}

/// The command palette panel; it keeps no state.
pub struct PalettePanel;

impl PalettePanel {
    pub fn new() -> (p: PalettePanel) {
        PalettePanel
    }
}

impl Default for PalettePanel {
    fn default() -> (p: PalettePanel) {
        PalettePanel
    }
}

/// The state of the code panel: the edited code, whether it differs from
/// the generated code, and when it was last copied.
pub struct CodePanel {
    pub edited: String,
    pub dirty: bool,
    pub copied_at: Option<std::time::Instant>,
}

impl CodePanel {
    pub fn new() -> (p: CodePanel)
        ensures
            p.edited@.len() == 0,
            !p.dirty,
            p.copied_at is None,
    {
        CodePanel { edited: String::new(), dirty: false, copied_at: None }
    }
}

impl Default for CodePanel {
    fn default() -> (p: CodePanel)
        ensures
            p.edited@.len() == 0,
            !p.dirty,
            p.copied_at is None,
    {
        CodePanel::new()
    }
}

/// The obstacle code editor inside the obstacles panel.
pub struct CodeSection {
    pub edited: String,
    pub dirty: bool,
    pub copied_at: Option<std::time::Instant>,
    pub last_generated: String,
}

impl Default for CodeSection {
    fn default() -> (c: CodeSection)
        ensures
            c.edited@.len() == 0,
            !c.dirty,
            c.copied_at is None,
            c.last_generated@.len() == 0,
    {
        CodeSection {
            edited: String::new(),
            dirty: false,
            copied_at: None,
            last_generated: String::new(),
        }
    }
}

/// The state of the obstacles panel: the expanded obstacle, the count of
/// the last import's rejections, a pending edit, the code editor and
/// whether the console is open.
pub struct ObstaclesPanel {
    pub expanded: Option<usize>,
    pub last_rejected: Option<usize>,
    pub edit_pending: bool,
    pub code: CodeSection,
    pub console_open: bool,
}

impl ObstaclesPanel {
    pub fn new() -> (p: ObstaclesPanel)
        ensures
            p.expanded is None,
            p.last_rejected is None,
            !p.edit_pending,
            p.code.edited@.len() == 0,
            !p.code.dirty,
            p.code.copied_at is None,
            p.code.last_generated@.len() == 0,
            !p.console_open,
    {
        ObstaclesPanel {
            expanded: None,
            last_rejected: None,
            edit_pending: false,
            code: CodeSection::default(),
            console_open: false,
        }
    }
}

impl Default for ObstaclesPanel {
    fn default() -> (p: ObstaclesPanel)
        ensures
            p.expanded is None,
            p.last_rejected is None,
            !p.edit_pending,
            p.code.edited@.len() == 0,
            !p.console_open,
    {
        ObstaclesPanel::new()
    }
}

} // verus!

//! The command types of a flight plan, their names in plan files, the
//! editor's table of commands (labels, parameter schemas with defaults,
//! block flags, line templates), and the small tables that the code
//! emitter reads (LED colours, sway directions).
use vstd::prelude::*;

use crate::text::str_eq;

verus! {

/// The kind of a plan command. Its name in plan files is `as_str`.
#[derive(Clone, Copy, Debug, PartialEq, Eq, Structural)]
pub enum CommandType {
    Takeoff,
    Land,
    EmergencyStop,
    StopMotors,
    Hover,
    Flip,
    Go,
    MoveForward,
    MoveBackward,
    MoveLeft,
    MoveRight,
    TurnLeft,
    TurnRight,
    TurnDegree,
    Circle,
    CircleTurn,
    Square,
    SquareTurn,
    Triangle,
    TriangleTurn,
    Spiral,
    Sway,
    KeepDistance,
    AvoidWall,
    DetectWall,
    Led,
    LedOff,
    RandomLed,
    Buzzer,
    TimeSleep,
    DroneSleep,
    VarDeclare,
    SetVar,
    PrintVar,
    IfBlock,
    ElifBlock,
    ElseBlock,
    EndBlock,
    WhileBlock,
    ForBlock,
    BreakCmd,
    GetBattery,
    GetHeight,
    GetFrontRange,
    GetBottomRange,
    GetFrontColor,
    GetBackColor,
    GetTemperature,
    GetDistance,
    FuncDef,
    FuncCall,
    ReturnVal,
    ListDeclare,
    ListAppend,
    ListGet,
    UserInput,
    TimerStart,
    TimerElapsed,
}

/// The name of a command type in plan files and fixtures.
pub open spec fn command_name(t: CommandType) -> Seq<char> {
    match t {
        CommandType::Takeoff => "takeoff"@,
        CommandType::Land => "land"@,
        CommandType::EmergencyStop => "emergency_stop"@,
        CommandType::StopMotors => "stop_motors"@,
        CommandType::Hover => "hover"@,
        CommandType::Flip => "flip"@,
        CommandType::Go => "go"@,
        CommandType::MoveForward => "move_forward"@,
        CommandType::MoveBackward => "move_backward"@,
        CommandType::MoveLeft => "move_left"@,
        CommandType::MoveRight => "move_right"@,
        CommandType::TurnLeft => "turn_left"@,
        CommandType::TurnRight => "turn_right"@,
        CommandType::TurnDegree => "turn_degree"@,
        CommandType::Circle => "circle"@,
        CommandType::CircleTurn => "circle_turn"@,
        CommandType::Square => "square"@,
        CommandType::SquareTurn => "square_turn"@,
        CommandType::Triangle => "triangle"@,
        CommandType::TriangleTurn => "triangle_turn"@,
        CommandType::Spiral => "spiral"@,
        CommandType::Sway => "sway"@,
        CommandType::KeepDistance => "keep_distance"@,
        CommandType::AvoidWall => "avoid_wall"@,
        CommandType::DetectWall => "detect_wall"@,
        CommandType::Led => "led"@,
        CommandType::LedOff => "led_off"@,
        CommandType::RandomLed => "random_led"@,
        CommandType::Buzzer => "buzzer"@,
        CommandType::TimeSleep => "time_sleep"@,
        CommandType::DroneSleep => "drone_sleep"@,
        CommandType::VarDeclare => "var_declare"@,
        CommandType::SetVar => "set_var"@,
        CommandType::PrintVar => "print_var"@,
        CommandType::IfBlock => "if_block"@,
        CommandType::ElifBlock => "elif_block"@,
        CommandType::ElseBlock => "else_block"@,
        CommandType::EndBlock => "end_block"@,
        CommandType::WhileBlock => "while_block"@,
        CommandType::ForBlock => "for_block"@,
        CommandType::BreakCmd => "break_cmd"@,
        CommandType::GetBattery => "get_battery"@,
        CommandType::GetHeight => "get_height"@,
        CommandType::GetFrontRange => "get_front_range"@,
        CommandType::GetBottomRange => "get_bottom_range"@,
        CommandType::GetFrontColor => "get_front_color"@,
        CommandType::GetBackColor => "get_back_color"@,
        CommandType::GetTemperature => "get_temperature"@,
        CommandType::GetDistance => "get_distance"@,
        CommandType::FuncDef => "func_def"@,
        CommandType::FuncCall => "func_call"@,
        CommandType::ReturnVal => "return_val"@,
        CommandType::ListDeclare => "list_declare"@,
        CommandType::ListAppend => "list_append"@,
        CommandType::ListGet => "list_get"@,
        CommandType::UserInput => "user_input"@,
        CommandType::TimerStart => "timer_start"@,
        CommandType::TimerElapsed => "timer_elapsed"@,
    }
}

/// Whether a command type opens a block of child commands.
pub open spec fn opens_block(t: CommandType) -> bool {
    t == CommandType::IfBlock || t == CommandType::ElifBlock || t == CommandType::ElseBlock || t
        == CommandType::WhileBlock || t == CommandType::ForBlock || t == CommandType::FuncDef
}

/// The command type that a name stands for, trying the names in order.
pub open spec fn command_of_name(s: Seq<char>) -> Option<CommandType> {
    if s == "takeoff"@ {
        Some(CommandType::Takeoff)
    } else if s == "land"@ {
        Some(CommandType::Land)
    } else if s == "emergency_stop"@ {
        Some(CommandType::EmergencyStop)
    } else if s == "stop_motors"@ {
        Some(CommandType::StopMotors)
    } else if s == "hover"@ {
        Some(CommandType::Hover)
    } else if s == "flip"@ {
        Some(CommandType::Flip)
    } else if s == "go"@ {
        Some(CommandType::Go)
    } else if s == "move_forward"@ {
        Some(CommandType::MoveForward)
    } else if s == "move_backward"@ {
        Some(CommandType::MoveBackward)
    } else if s == "move_left"@ {
        Some(CommandType::MoveLeft)
    } else if s == "move_right"@ {
        Some(CommandType::MoveRight)
    } else if s == "turn_left"@ {
        Some(CommandType::TurnLeft)
    } else if s == "turn_right"@ {
        Some(CommandType::TurnRight)
    } else if s == "turn_degree"@ {
        Some(CommandType::TurnDegree)
    } else if s == "circle"@ {
        Some(CommandType::Circle)
    } else if s == "circle_turn"@ {
        Some(CommandType::CircleTurn)
    } else if s == "square"@ {
        Some(CommandType::Square)
    } else if s == "square_turn"@ {
        Some(CommandType::SquareTurn)
    } else if s == "triangle"@ {
        Some(CommandType::Triangle)
    } else if s == "triangle_turn"@ {
        Some(CommandType::TriangleTurn)
    } else if s == "spiral"@ {
        Some(CommandType::Spiral)
    } else if s == "sway"@ {
        Some(CommandType::Sway)
    } else if s == "keep_distance"@ {
        Some(CommandType::KeepDistance)
    } else if s == "avoid_wall"@ {
        Some(CommandType::AvoidWall)
    } else if s == "detect_wall"@ {
        Some(CommandType::DetectWall)
    } else if s == "led"@ {
        Some(CommandType::Led)
    } else if s == "led_off"@ {
        Some(CommandType::LedOff)
    } else if s == "random_led"@ {
        Some(CommandType::RandomLed)
    } else if s == "buzzer"@ {
        Some(CommandType::Buzzer)
    } else if s == "time_sleep"@ {
        Some(CommandType::TimeSleep)
    } else if s == "drone_sleep"@ {
        Some(CommandType::DroneSleep)
    } else if s == "var_declare"@ {
        Some(CommandType::VarDeclare)
    } else if s == "set_var"@ {
        Some(CommandType::SetVar)
    } else if s == "print_var"@ {
        Some(CommandType::PrintVar)
    } else if s == "if_block"@ {
        Some(CommandType::IfBlock)
    } else if s == "elif_block"@ {
        Some(CommandType::ElifBlock)
    } else if s == "else_block"@ {
        Some(CommandType::ElseBlock)
    } else if s == "end_block"@ {
        Some(CommandType::EndBlock)
    } else if s == "while_block"@ {
        Some(CommandType::WhileBlock)
    } else if s == "for_block"@ {
        Some(CommandType::ForBlock)
    } else if s == "break_cmd"@ {
        Some(CommandType::BreakCmd)
    } else if s == "get_battery"@ {
        Some(CommandType::GetBattery)
    } else if s == "get_height"@ {
        Some(CommandType::GetHeight)
    } else if s == "get_front_range"@ {
        Some(CommandType::GetFrontRange)
    } else if s == "get_bottom_range"@ {
        Some(CommandType::GetBottomRange)
    } else if s == "get_front_color"@ {
        Some(CommandType::GetFrontColor)
    } else if s == "get_back_color"@ {
        Some(CommandType::GetBackColor)
    } else if s == "get_temperature"@ {
        Some(CommandType::GetTemperature)
    } else if s == "get_distance"@ {
        Some(CommandType::GetDistance)
    } else if s == "func_def"@ {
        Some(CommandType::FuncDef)
    } else if s == "func_call"@ {
        Some(CommandType::FuncCall)
    } else if s == "return_val"@ {
        Some(CommandType::ReturnVal)
    } else if s == "list_declare"@ {
        Some(CommandType::ListDeclare)
    } else if s == "list_append"@ {
        Some(CommandType::ListAppend)
    } else if s == "list_get"@ {
        Some(CommandType::ListGet)
    } else if s == "user_input"@ {
        Some(CommandType::UserInput)
    } else if s == "timer_start"@ {
        Some(CommandType::TimerStart)
    } else if s == "timer_elapsed"@ {
        Some(CommandType::TimerElapsed)
    } else {
        None
    }
}

impl CommandType {
    /// The name of this command type, as plan files write it.
    pub fn as_str(self) -> (name: &'static str)
        ensures
            name@ == command_name(self),
    {
        match self {
            CommandType::Takeoff => "takeoff",
            CommandType::Land => "land",
            CommandType::EmergencyStop => "emergency_stop",
            CommandType::StopMotors => "stop_motors",
            CommandType::Hover => "hover",
            CommandType::Flip => "flip",
            CommandType::Go => "go",
            CommandType::MoveForward => "move_forward",
            CommandType::MoveBackward => "move_backward",
            CommandType::MoveLeft => "move_left",
            CommandType::MoveRight => "move_right",
            CommandType::TurnLeft => "turn_left",
            CommandType::TurnRight => "turn_right",
            CommandType::TurnDegree => "turn_degree",
            CommandType::Circle => "circle",
            CommandType::CircleTurn => "circle_turn",
            CommandType::Square => "square",
            CommandType::SquareTurn => "square_turn",
            CommandType::Triangle => "triangle",
            CommandType::TriangleTurn => "triangle_turn",
            CommandType::Spiral => "spiral",
            CommandType::Sway => "sway",
            CommandType::KeepDistance => "keep_distance",
            CommandType::AvoidWall => "avoid_wall",
            CommandType::DetectWall => "detect_wall",
            CommandType::Led => "led",
            CommandType::LedOff => "led_off",
            CommandType::RandomLed => "random_led",
            CommandType::Buzzer => "buzzer",
            CommandType::TimeSleep => "time_sleep",
            CommandType::DroneSleep => "drone_sleep",
            CommandType::VarDeclare => "var_declare",
            CommandType::SetVar => "set_var",
            CommandType::PrintVar => "print_var",
            CommandType::IfBlock => "if_block",
            CommandType::ElifBlock => "elif_block",
            CommandType::ElseBlock => "else_block",
            CommandType::EndBlock => "end_block",
            CommandType::WhileBlock => "while_block",
            CommandType::ForBlock => "for_block",
            CommandType::BreakCmd => "break_cmd",
            CommandType::GetBattery => "get_battery",
            CommandType::GetHeight => "get_height",
            CommandType::GetFrontRange => "get_front_range",
            CommandType::GetBottomRange => "get_bottom_range",
            CommandType::GetFrontColor => "get_front_color",
            CommandType::GetBackColor => "get_back_color",
            CommandType::GetTemperature => "get_temperature",
            CommandType::GetDistance => "get_distance",
            CommandType::FuncDef => "func_def",
            CommandType::FuncCall => "func_call",
            CommandType::ReturnVal => "return_val",
            CommandType::ListDeclare => "list_declare",
            CommandType::ListAppend => "list_append",
            CommandType::ListGet => "list_get",
            CommandType::UserInput => "user_input",
            CommandType::TimerStart => "timer_start",
            CommandType::TimerElapsed => "timer_elapsed",
        }
    }

    /// Whether this command type holds child commands.
    pub fn is_block(self) -> (r: bool)
        ensures
            r == opens_block(self),
    {
        match self {
            CommandType::IfBlock | CommandType::ElifBlock | CommandType::ElseBlock
            | CommandType::WhileBlock | CommandType::ForBlock | CommandType::FuncDef => true,
            _ => false,
        }
    }
}

/// Every command type is found again from its name.
pub proof fn law_command_name_round_trip(t: CommandType)
    ensures
        command_of_name(command_name(t)) == Some(t),
{
    reveal_strlit("takeoff");
    reveal_strlit("land");
    reveal_strlit("emergency_stop");
    reveal_strlit("stop_motors");
    reveal_strlit("hover");
    reveal_strlit("flip");
    reveal_strlit("go");
    reveal_strlit("move_forward");
    reveal_strlit("move_backward");
    reveal_strlit("move_left");
    reveal_strlit("move_right");
    reveal_strlit("turn_left");
    reveal_strlit("turn_right");
    reveal_strlit("turn_degree");
    reveal_strlit("circle");
    reveal_strlit("circle_turn");
    reveal_strlit("square");
    reveal_strlit("square_turn");
    reveal_strlit("triangle");
    reveal_strlit("triangle_turn");
    reveal_strlit("spiral");
    reveal_strlit("sway");
    reveal_strlit("keep_distance");
    reveal_strlit("avoid_wall");
    reveal_strlit("detect_wall");
    reveal_strlit("led");
    reveal_strlit("led_off");
    reveal_strlit("random_led");
    reveal_strlit("buzzer");
    reveal_strlit("time_sleep");
    reveal_strlit("drone_sleep");
    reveal_strlit("var_declare");
    reveal_strlit("set_var");
    reveal_strlit("print_var");
    reveal_strlit("if_block");
    reveal_strlit("elif_block");
    reveal_strlit("else_block");
    reveal_strlit("end_block");
    reveal_strlit("while_block");
    reveal_strlit("for_block");
    reveal_strlit("break_cmd");
    reveal_strlit("get_battery");
    reveal_strlit("get_height");
    reveal_strlit("get_front_range");
    reveal_strlit("get_bottom_range");
    reveal_strlit("get_front_color");
    reveal_strlit("get_back_color");
    reveal_strlit("get_temperature");
    reveal_strlit("get_distance");
    reveal_strlit("func_def");
    reveal_strlit("func_call");
    reveal_strlit("return_val");
    reveal_strlit("list_declare");
    reveal_strlit("list_append");
    reveal_strlit("list_get");
    reveal_strlit("user_input");
    reveal_strlit("timer_start");
    reveal_strlit("timer_elapsed");
    assert("takeoff"@ =~= seq!['t', 'a', 'k', 'e', 'o', 'f', 'f']);
    assert("land"@ =~= seq!['l', 'a', 'n', 'd']);
    assert("emergency_stop"@ =~= seq!['e', 'm', 'e', 'r', 'g', 'e', 'n', 'c', 'y', '_', 's', 't', 'o', 'p']);
    assert("stop_motors"@ =~= seq!['s', 't', 'o', 'p', '_', 'm', 'o', 't', 'o', 'r', 's']);
    assert("hover"@ =~= seq!['h', 'o', 'v', 'e', 'r']);
    assert("flip"@ =~= seq!['f', 'l', 'i', 'p']);
    assert("go"@ =~= seq!['g', 'o']);
    assert("move_forward"@ =~= seq!['m', 'o', 'v', 'e', '_', 'f', 'o', 'r', 'w', 'a', 'r', 'd']);
    assert("move_backward"@ =~= seq!['m', 'o', 'v', 'e', '_', 'b', 'a', 'c', 'k', 'w', 'a', 'r', 'd']);
    assert("move_left"@ =~= seq!['m', 'o', 'v', 'e', '_', 'l', 'e', 'f', 't']);
    assert("move_right"@ =~= seq!['m', 'o', 'v', 'e', '_', 'r', 'i', 'g', 'h', 't']);
    assert("turn_left"@ =~= seq!['t', 'u', 'r', 'n', '_', 'l', 'e', 'f', 't']);
    assert("turn_right"@ =~= seq!['t', 'u', 'r', 'n', '_', 'r', 'i', 'g', 'h', 't']);
    assert("turn_degree"@ =~= seq!['t', 'u', 'r', 'n', '_', 'd', 'e', 'g', 'r', 'e', 'e']);
    assert("circle"@ =~= seq!['c', 'i', 'r', 'c', 'l', 'e']);
    assert("circle_turn"@ =~= seq!['c', 'i', 'r', 'c', 'l', 'e', '_', 't', 'u', 'r', 'n']);
    assert("square"@ =~= seq!['s', 'q', 'u', 'a', 'r', 'e']);
    assert("square_turn"@ =~= seq!['s', 'q', 'u', 'a', 'r', 'e', '_', 't', 'u', 'r', 'n']);
    assert("triangle"@ =~= seq!['t', 'r', 'i', 'a', 'n', 'g', 'l', 'e']);
    assert("triangle_turn"@ =~= seq!['t', 'r', 'i', 'a', 'n', 'g', 'l', 'e', '_', 't', 'u', 'r', 'n']);
    assert("spiral"@ =~= seq!['s', 'p', 'i', 'r', 'a', 'l']);
    assert("sway"@ =~= seq!['s', 'w', 'a', 'y']);
    assert("keep_distance"@ =~= seq!['k', 'e', 'e', 'p', '_', 'd', 'i', 's', 't', 'a', 'n', 'c', 'e']);
    assert("avoid_wall"@ =~= seq!['a', 'v', 'o', 'i', 'd', '_', 'w', 'a', 'l', 'l']);
    assert("detect_wall"@ =~= seq!['d', 'e', 't', 'e', 'c', 't', '_', 'w', 'a', 'l', 'l']);
    assert("led"@ =~= seq!['l', 'e', 'd']);
    assert("led_off"@ =~= seq!['l', 'e', 'd', '_', 'o', 'f', 'f']);
    assert("random_led"@ =~= seq!['r', 'a', 'n', 'd', 'o', 'm', '_', 'l', 'e', 'd']);
    assert("buzzer"@ =~= seq!['b', 'u', 'z', 'z', 'e', 'r']);
    assert("time_sleep"@ =~= seq!['t', 'i', 'm', 'e', '_', 's', 'l', 'e', 'e', 'p']);
    assert("drone_sleep"@ =~= seq!['d', 'r', 'o', 'n', 'e', '_', 's', 'l', 'e', 'e', 'p']);
    assert("var_declare"@ =~= seq!['v', 'a', 'r', '_', 'd', 'e', 'c', 'l', 'a', 'r', 'e']);
    assert("set_var"@ =~= seq!['s', 'e', 't', '_', 'v', 'a', 'r']);
    assert("print_var"@ =~= seq!['p', 'r', 'i', 'n', 't', '_', 'v', 'a', 'r']);
    assert("if_block"@ =~= seq!['i', 'f', '_', 'b', 'l', 'o', 'c', 'k']);
    assert("elif_block"@ =~= seq!['e', 'l', 'i', 'f', '_', 'b', 'l', 'o', 'c', 'k']);
    assert("else_block"@ =~= seq!['e', 'l', 's', 'e', '_', 'b', 'l', 'o', 'c', 'k']);
    assert("end_block"@ =~= seq!['e', 'n', 'd', '_', 'b', 'l', 'o', 'c', 'k']);
    assert("while_block"@ =~= seq!['w', 'h', 'i', 'l', 'e', '_', 'b', 'l', 'o', 'c', 'k']);
    assert("for_block"@ =~= seq!['f', 'o', 'r', '_', 'b', 'l', 'o', 'c', 'k']);
    assert("break_cmd"@ =~= seq!['b', 'r', 'e', 'a', 'k', '_', 'c', 'm', 'd']);
    assert("get_battery"@ =~= seq!['g', 'e', 't', '_', 'b', 'a', 't', 't', 'e', 'r', 'y']);
    assert("get_height"@ =~= seq!['g', 'e', 't', '_', 'h', 'e', 'i', 'g', 'h', 't']);
    assert("get_front_range"@ =~= seq!['g', 'e', 't', '_', 'f', 'r', 'o', 'n', 't', '_', 'r', 'a', 'n', 'g', 'e']);
    assert("get_bottom_range"@ =~= seq!['g', 'e', 't', '_', 'b', 'o', 't', 't', 'o', 'm', '_', 'r', 'a', 'n', 'g', 'e']);
    assert("get_front_color"@ =~= seq!['g', 'e', 't', '_', 'f', 'r', 'o', 'n', 't', '_', 'c', 'o', 'l', 'o', 'r']);
    assert("get_back_color"@ =~= seq!['g', 'e', 't', '_', 'b', 'a', 'c', 'k', '_', 'c', 'o', 'l', 'o', 'r']);
    assert("get_temperature"@ =~= seq!['g', 'e', 't', '_', 't', 'e', 'm', 'p', 'e', 'r', 'a', 't', 'u', 'r', 'e']);
    assert("get_distance"@ =~= seq!['g', 'e', 't', '_', 'd', 'i', 's', 't', 'a', 'n', 'c', 'e']);
    assert("func_def"@ =~= seq!['f', 'u', 'n', 'c', '_', 'd', 'e', 'f']);
    assert("func_call"@ =~= seq!['f', 'u', 'n', 'c', '_', 'c', 'a', 'l', 'l']);
    assert("return_val"@ =~= seq!['r', 'e', 't', 'u', 'r', 'n', '_', 'v', 'a', 'l']);
    assert("list_declare"@ =~= seq!['l', 'i', 's', 't', '_', 'd', 'e', 'c', 'l', 'a', 'r', 'e']);
    assert("list_append"@ =~= seq!['l', 'i', 's', 't', '_', 'a', 'p', 'p', 'e', 'n', 'd']);
    assert("list_get"@ =~= seq!['l', 'i', 's', 't', '_', 'g', 'e', 't']);
    assert("user_input"@ =~= seq!['u', 's', 'e', 'r', '_', 'i', 'n', 'p', 'u', 't']);
    assert("timer_start"@ =~= seq!['t', 'i', 'm', 'e', 'r', '_', 's', 't', 'a', 'r', 't']);
    assert("timer_elapsed"@ =~= seq!['t', 'i', 'm', 'e', 'r', '_', 'e', 'l', 'a', 'p', 's', 'e', 'd']);
    match t {
        CommandType::Takeoff => {},
        CommandType::Land => {},
        CommandType::EmergencyStop => {},
        CommandType::StopMotors => {},
        CommandType::Hover => {},
        CommandType::Flip => {},
        CommandType::Go => {},
        CommandType::MoveForward => {},
        CommandType::MoveBackward => {},
        CommandType::MoveLeft => {},
        CommandType::MoveRight => {},
        CommandType::TurnLeft => {},
        CommandType::TurnRight => {},
        CommandType::TurnDegree => {},
        CommandType::Circle => {},
        CommandType::CircleTurn => {},
        CommandType::Square => {},
        CommandType::SquareTurn => {},
        CommandType::Triangle => {},
        CommandType::TriangleTurn => {},
        CommandType::Spiral => {},
        CommandType::Sway => {},
        CommandType::KeepDistance => {},
        CommandType::AvoidWall => {},
        CommandType::DetectWall => {},
        CommandType::Led => {},
        CommandType::LedOff => {},
        CommandType::RandomLed => {},
        CommandType::Buzzer => {},
        CommandType::TimeSleep => {},
        CommandType::DroneSleep => {},
        CommandType::VarDeclare => {},
        CommandType::SetVar => {},
        CommandType::PrintVar => {},
        CommandType::IfBlock => {},
        CommandType::ElifBlock => {},
        CommandType::ElseBlock => {},
        CommandType::EndBlock => {},
        CommandType::WhileBlock => {},
        CommandType::ForBlock => {},
        CommandType::BreakCmd => {},
        CommandType::GetBattery => {},
        CommandType::GetHeight => {},
        CommandType::GetFrontRange => {},
        CommandType::GetBottomRange => {},
        CommandType::GetFrontColor => {},
        CommandType::GetBackColor => {},
        CommandType::GetTemperature => {},
        CommandType::GetDistance => {},
        CommandType::FuncDef => {},
        CommandType::FuncCall => {},
        CommandType::ReturnVal => {},
        CommandType::ListDeclare => {},
        CommandType::ListAppend => {},
        CommandType::ListGet => {},
        CommandType::UserInput => {},
        CommandType::TimerStart => {},
        CommandType::TimerElapsed => {},
    }
}

/// Distinct command types have distinct names, so a name in a plan file
/// identifies its command type.
pub proof fn law_command_names_distinct(a: CommandType, b: CommandType)
    ensures
        command_name(a) == command_name(b) ==> a == b,
{
    law_command_name_round_trip(a);
    law_command_name_round_trip(b);
}

/// How a parameter is edited: a number, free text, or one of fixed options.
#[derive(Clone, Copy, Debug, PartialEq, Eq, Structural)]
pub enum ParamKind {
    Number,
    Text,
    Select,
}

/// The RGB that the LED command sets for a colour name; green for a name
/// it does not know.
pub open spec fn led_rgb_of(color: Seq<char>) -> (i32, i32, i32) {
    if color == "red"@ {
        (255, 0, 0)
    } else if color == "green"@ {
        (0, 255, 0)
    } else if color == "blue"@ {
        (0, 0, 255)
    } else if color == "yellow"@ {
        (255, 255, 0)
    } else if color == "cyan"@ {
        (0, 255, 255)
    } else if color == "magenta"@ {
        (255, 0, 255)
    } else if color == "white"@ {
        (255, 255, 255)
    } else if color == "purple"@ {
        (128, 0, 255)
    } else if color == "orange"@ {
        (255, 165, 0)
    } else if color == "pink"@ {
        (255, 192, 203)
    } else {
        (0, 255, 0)
    }
}

/// The RGB of an LED colour name.
pub fn led_rgb(color: &str) -> (rgb: (i32, i32, i32))
    ensures
        rgb == led_rgb_of(color@),
{
    if str_eq(color, "red") {
        (255, 0, 0)
    } else if str_eq(color, "green") {
        (0, 255, 0)
    } else if str_eq(color, "blue") {
        (0, 0, 255)
    } else if str_eq(color, "yellow") {
        (255, 255, 0)
    } else if str_eq(color, "cyan") {
        (0, 255, 255)
    } else if str_eq(color, "magenta") {
        (255, 0, 255)
    } else if str_eq(color, "white") {
        (255, 255, 255)
    } else if str_eq(color, "purple") {
        (128, 0, 255)
    } else if str_eq(color, "orange") {
        (255, 165, 0)
    } else if str_eq(color, "pink") {
        (255, 192, 203)
    } else {
        (0, 255, 0)
    }
}

/// The direction argument of `sway` for a direction name: -1 for the
/// right-hand, backward and rightward ones, 1 for all others.
pub open spec fn sway_direction(dir: Seq<char>) -> i32 {
    if dir == "turn-right"@ || dir == "pitch-backward"@ || dir == "roll-right"@ {
        -1i32
    } else {
        1i32
    }
}

/// The direction argument of `sway` for a direction name.
pub fn sway_dir_int(dir: &str) -> (d: i32)
    ensures
        d == sway_direction(dir@),
{
    if str_eq(dir, "turn-right") || str_eq(dir, "pitch-backward") || str_eq(dir, "roll-right") {
        -1
    } else {
        1
    }
}

// ---------------------------------------------------------------------
// The command table

/// A parameter row as plain values: key, label, kind, default text,
/// bounds and step as decimal text, and the options of a select.
pub type ParamRow = (
    Seq<char>,
    Seq<char>,
    ParamKind,
    Seq<char>,
    Option<Seq<char>>,
    Option<Seq<char>>,
    Option<Seq<char>>,
    Seq<Seq<char>>,
);

/// A command row as plain values: label, type, parameters, whether it
/// opens a block, and the template of its Python line.
pub type CommandRow = (Seq<char>, CommandType, Seq<ParamRow>, bool, Template);

/// One parameter of a command: its key in plan files, its label in the
/// editor, how it is edited, its default (a decimal text for a number),
/// the bounds and step of a number as decimal text, and the options of a
/// select.
pub struct ParamSpec {
    pub key: &'static str,
    pub label: &'static str,
    pub kind: ParamKind,
    pub default: &'static str,
    pub min: Option<&'static str>,
    pub max: Option<&'static str>,
    pub step: Option<&'static str>,
    pub options: Vec<&'static str>,
}

/// The kind of Python line a command becomes: one of the fixed lines, or
/// the line of a template over its parameters (see `codegen`).
#[derive(Clone, Copy, Debug, PartialEq, Eq, Structural)]
pub enum Template {
    Takeoff,
    Land,
    EmergencyStop,
    StopMotors,
    Hover,
    Flip,
    Go,
    MoveForward,
    MoveBackward,
    MoveLeft,
    MoveRight,
    TurnLeft,
    TurnRight,
    TurnDegree,
    Circle,
    CircleTurn,
    Square,
    Triangle,
    TriangleTurn,
    Spiral,
    Sway,
    KeepDistance,
    AvoidWall,
    DetectWall,
    Led,
    LedOff,
    RandomLed,
    Buzzer,
    Sleep,
    VarDeclare,
    SetVar,
    PrintVar,
    Blank,
    Break,
    GetBattery,
    GetHeight,
    GetFrontRange,
    GetBottomRange,
    GetFrontColor,
    GetBackColor,
    GetTemperature,
    GetDistance,
    FuncCall,
    ReturnVal,
    ListDeclare,
    ListAppend,
    ListGet,
    UserInput,
    TimerStart,
    TimerElapsed,
}

/// A command type's entry in the editor: its label, parameters, whether
/// it opens a block, and the template of its line.
pub struct CommandSpec {
    pub label: &'static str,
    pub command_type: CommandType,
    pub params: Vec<ParamSpec>,
    pub is_block: bool,
    pub template: Template,
}

/// The text of an optional text.
pub open spec fn opt_text(o: Option<&'static str>) -> Option<Seq<char>> {
    match o {
        Some(s) => Some(s@),
        None => None,
    }
}

/// The texts of some static strings.
pub open spec fn texts_of(v: Seq<&'static str>) -> Seq<Seq<char>> {
    Seq::new(v.len(), |i: int| v[i]@)
}

/// A parameter as plain values.
pub open spec fn param_view(p: ParamSpec) -> ParamRow {
    (p.key@, p.label@, p.kind, p.default@, opt_text(p.min), opt_text(p.max), opt_text(p.step), texts_of(p.options@))
}

/// Parameters as plain values.
pub open spec fn params_view(v: Seq<ParamSpec>) -> Seq<ParamRow> {
    Seq::new(v.len(), |i: int| param_view(v[i]))
}

/// A command entry as plain values.
pub open spec fn spec_view(c: CommandSpec) -> CommandRow {
    (c.label@, c.command_type, params_view(c.params@), c.is_block, c.template)
}

/// No two parameters share a key.
pub open spec fn keys_distinct(ps: Seq<ParamRow>) -> bool {
    forall|i: int, j: int| 0 <= i < j < ps.len() ==> #[trigger] ps[i].0 != #[trigger] ps[j].0
}

/// The default of each select parameter is one of its options.
pub open spec fn select_defaults_listed(ps: Seq<ParamRow>) -> bool {
    forall|i: int| 0 <= i < ps.len() && #[trigger] ps[i].2 == ParamKind::Select ==> ps[i].7.contains(ps[i].3)
}

/// The options of `dir_options`.
pub open spec fn dir_options_texts() -> Seq<Seq<char>> {
    seq!["clockwise"@, "counter-clockwise"@]
}

fn dir_options() -> (v: Vec<&'static str>)
    ensures
        texts_of(v@) == dir_options_texts(),
{
    let mut v: Vec<&'static str> = Vec::new();
    v.push("clockwise");
    v.push("counter-clockwise");
    assert(texts_of(v@) =~= dir_options_texts());
    v
}

/// The options of `flip_dir_options`.
pub open spec fn flip_dir_options_texts() -> Seq<Seq<char>> {
    seq!["forward"@, "back"@, "left"@, "right"@]
}

fn flip_dir_options() -> (v: Vec<&'static str>)
    ensures
        texts_of(v@) == flip_dir_options_texts(),
{
    let mut v: Vec<&'static str> = Vec::new();
    v.push("forward");
    v.push("back");
    v.push("left");
    v.push("right");
    assert(texts_of(v@) =~= flip_dir_options_texts());
    v
}

/// The options of `go_dir_options`.
pub open spec fn go_dir_options_texts() -> Seq<Seq<char>> {
    seq!["forward"@, "backward"@, "left"@, "right"@]
}

fn go_dir_options() -> (v: Vec<&'static str>)
    ensures
        texts_of(v@) == go_dir_options_texts(),
{
    let mut v: Vec<&'static str> = Vec::new();
    v.push("forward");
    v.push("backward");
    v.push("left");
    v.push("right");
    assert(texts_of(v@) =~= go_dir_options_texts());
    v
}

/// The options of `sway_dir_options`.
pub open spec fn sway_dir_options_texts() -> Seq<Seq<char>> {
    seq!["forward-back"@, "left-right"@, "up-down"@, "turn-left"@, "turn-right"@, "pitch-forward"@, "pitch-backward"@, "roll-left"@, "roll-right"@]
}

fn sway_dir_options() -> (v: Vec<&'static str>)
    ensures
        texts_of(v@) == sway_dir_options_texts(),
{
    let mut v: Vec<&'static str> = Vec::new();
    v.push("forward-back");
    v.push("left-right");
    v.push("up-down");
    v.push("turn-left");
    v.push("turn-right");
    v.push("pitch-forward");
    v.push("pitch-backward");
    v.push("roll-left");
    v.push("roll-right");
    assert(texts_of(v@) =~= sway_dir_options_texts());
    v
}

/// The options of `led_color_options`.
pub open spec fn led_color_options_texts() -> Seq<Seq<char>> {
    seq!["red"@, "green"@, "blue"@, "yellow"@, "cyan"@, "magenta"@, "white"@, "purple"@, "orange"@, "pink"@, "off"@]
}

fn led_color_options() -> (v: Vec<&'static str>)
    ensures
        texts_of(v@) == led_color_options_texts(),
{
    let mut v: Vec<&'static str> = Vec::new();
    v.push("red");
    v.push("green");
    v.push("blue");
    v.push("yellow");
    v.push("cyan");
    v.push("magenta");
    v.push("white");
    v.push("purple");
    v.push("orange");
    v.push("pink");
    v.push("off");
    assert(texts_of(v@) =~= led_color_options_texts());
    v
}

/// The letters of the LED colour names.
proof fn lemma_led_colour_names()
    ensures
        "red"@ == seq!['r', 'e', 'd'],
        "green"@ == seq!['g', 'r', 'e', 'e', 'n'],
        "blue"@ == seq!['b', 'l', 'u', 'e'],
        "yellow"@ == seq!['y', 'e', 'l', 'l', 'o', 'w'],
        "cyan"@ == seq!['c', 'y', 'a', 'n'],
        "magenta"@ == seq!['m', 'a', 'g', 'e', 'n', 't', 'a'],
        "white"@ == seq!['w', 'h', 'i', 't', 'e'],
        "purple"@ == seq!['p', 'u', 'r', 'p', 'l', 'e'],
        "orange"@ == seq!['o', 'r', 'a', 'n', 'g', 'e'],
        "pink"@ == seq!['p', 'i', 'n', 'k'],
        "off"@ == seq!['o', 'f', 'f'],
{
    reveal_strlit("red");
    reveal_strlit("green");
    reveal_strlit("blue");
    reveal_strlit("yellow");
    reveal_strlit("cyan");
    reveal_strlit("magenta");
    reveal_strlit("white");
    reveal_strlit("purple");
    reveal_strlit("orange");
    reveal_strlit("pink");
    reveal_strlit("off");
    assert("red"@ =~= seq!['r', 'e', 'd']);
    assert("green"@ =~= seq!['g', 'r', 'e', 'e', 'n']);
    assert("blue"@ =~= seq!['b', 'l', 'u', 'e']);
    assert("yellow"@ =~= seq!['y', 'e', 'l', 'l', 'o', 'w']);
    assert("cyan"@ =~= seq!['c', 'y', 'a', 'n']);
    assert("magenta"@ =~= seq!['m', 'a', 'g', 'e', 'n', 't', 'a']);
    assert("white"@ =~= seq!['w', 'h', 'i', 't', 'e']);
    assert("purple"@ =~= seq!['p', 'u', 'r', 'p', 'l', 'e']);
    assert("orange"@ =~= seq!['o', 'r', 'a', 'n', 'g', 'e']);
    assert("pink"@ =~= seq!['p', 'i', 'n', 'k']);
    assert("off"@ =~= seq!['o', 'f', 'f']);
}

/// Two lights together, channel by channel.
pub open spec fn rgb_mix(a: (i32, i32, i32), b: (i32, i32, i32)) -> (i32, i32, i32) {
    ((a.0 + b.0) as i32, (a.1 + b.1) as i32, (a.2 + b.2) as i32)
}

/// The LED mixes light: yellow is red and green together, cyan green and
/// blue, magenta red and blue, and white all three. A name that is not
/// one of the offered colours lights the LED green.
pub proof fn law_led_colour_mixing(name: Seq<char>)
    ensures
        led_rgb_of("yellow"@) == rgb_mix(led_rgb_of("red"@), led_rgb_of("green"@)),
        led_rgb_of("cyan"@) == rgb_mix(led_rgb_of("green"@), led_rgb_of("blue"@)),
        led_rgb_of("magenta"@) == rgb_mix(led_rgb_of("red"@), led_rgb_of("blue"@)),
        led_rgb_of("white"@) == rgb_mix(rgb_mix(led_rgb_of("red"@), led_rgb_of("green"@)), led_rgb_of("blue"@)),
        !led_color_options_texts().contains(name) ==> led_rgb_of(name) == led_rgb_of("green"@),
{
    lemma_led_colour_names();
    if !led_color_options_texts().contains(name) {
        assert(name != led_color_options_texts()[0]);
        assert(name != led_color_options_texts()[1]);
        assert(name != led_color_options_texts()[2]);
        assert(name != led_color_options_texts()[3]);
        assert(name != led_color_options_texts()[4]);
        assert(name != led_color_options_texts()[5]);
        assert(name != led_color_options_texts()[6]);
        assert(name != led_color_options_texts()[7]);
        assert(name != led_color_options_texts()[8]);
        assert(name != led_color_options_texts()[9]);
    }
}

/// Each LED colour that the editor offers, `off` aside, lights an RGB of
/// its own: no two offered colours light the same triple. Red, green and
/// blue light their own channel alone at full brightness, and white
/// lights all three.
pub proof fn law_led_colours_distinct(i: int, j: int)
    requires
        0 <= i < led_color_options_texts().len() - 1,
        0 <= j < led_color_options_texts().len() - 1,
        i != j,
    ensures
        led_rgb_of(led_color_options_texts()[i]) != led_rgb_of(led_color_options_texts()[j]),
        led_rgb_of("red"@) == (255i32, 0i32, 0i32),
        led_rgb_of("green"@) == (0i32, 255i32, 0i32),
        led_rgb_of("blue"@) == (0i32, 0i32, 255i32),
        led_rgb_of("white"@) == (255i32, 255i32, 255i32),
{
    lemma_led_colour_names();
}

/// The options of `op_options`.
pub open spec fn op_options_texts() -> Seq<Seq<char>> {
    seq!["="@, "+="@, "-="@, "*="@, "/="@]
}

fn op_options() -> (v: Vec<&'static str>)
    ensures
        texts_of(v@) == op_options_texts(),
{
    let mut v: Vec<&'static str> = Vec::new();
    v.push("=");
    v.push("+=");
    v.push("-=");
    v.push("*=");
    v.push("/=");
    assert(texts_of(v@) =~= op_options_texts());
    v
}

/// The options of `unit_options`.
pub open spec fn unit_options_texts() -> Seq<Seq<char>> {
    seq!["cm"@, "m"@, "ft"@, "in"@]
}

fn unit_options() -> (v: Vec<&'static str>)
    ensures
        texts_of(v@) == unit_options_texts(),
{
    let mut v: Vec<&'static str> = Vec::new();
    v.push("cm");
    v.push("m");
    v.push("ft");
    v.push("in");
    assert(texts_of(v@) =~= unit_options_texts());
    v
}

/// The options of `kind_options`.
pub open spec fn kind_options_texts() -> Seq<Seq<char>> {
    seq!["name"@, "rgb"@, "index"@]
}

fn kind_options() -> (v: Vec<&'static str>)
    ensures
        texts_of(v@) == kind_options_texts(),
{
    let mut v: Vec<&'static str> = Vec::new();
    v.push("name");
    v.push("rgb");
    v.push("index");
    assert(texts_of(v@) =~= kind_options_texts());
    v
}

/// The options of `temp_unit_options`.
pub open spec fn temp_unit_options_texts() -> Seq<Seq<char>> {
    seq!["C"@, "F"@]
}

fn temp_unit_options() -> (v: Vec<&'static str>)
    ensures
        texts_of(v@) == temp_unit_options_texts(),
{
    let mut v: Vec<&'static str> = Vec::new();
    v.push("C");
    v.push("F");
    assert(texts_of(v@) =~= temp_unit_options_texts());
    v
}

fn pd_num(
    key: &'static str,
    label: &'static str,
    default: &'static str,
    min: Option<&'static str>,
    max: Option<&'static str>,
    step: Option<&'static str>,
) -> (p: ParamSpec)
    ensures
        param_view(p) == (key@, label@, ParamKind::Number, default@, opt_text(min), opt_text(max), opt_text(step), Seq::<Seq<char>>::empty()),
{
    let p = ParamSpec { key, label, kind: ParamKind::Number, default, min, max, step, options: Vec::new() };
    assert(texts_of(p.options@) =~= Seq::<Seq<char>>::empty());
    p
}

fn pd_text(key: &'static str, label: &'static str, default: &'static str) -> (p: ParamSpec)
    ensures
        param_view(p) == (key@, label@, ParamKind::Text, default@, None::<Seq<char>>, None::<Seq<char>>, None::<Seq<char>>, Seq::<Seq<char>>::empty()),
{
    let p = ParamSpec { key, label, kind: ParamKind::Text, default, min: None, max: None, step: None, options: Vec::new() };
    assert(texts_of(p.options@) =~= Seq::<Seq<char>>::empty());
    p
}

fn pd_select(key: &'static str, label: &'static str, default: &'static str, options: Vec<&'static str>) -> (p: ParamSpec)
    ensures
        param_view(p) == (key@, label@, ParamKind::Select, default@, None::<Seq<char>>, None::<Seq<char>>, None::<Seq<char>>, texts_of(options@)),
{
    ParamSpec { key, label, kind: ParamKind::Select, default, min: None, max: None, step: None, options }
}

/// No parameters.
fn no_params() -> (v: Vec<ParamSpec>)
    ensures
        params_view(v@) == Seq::<ParamRow>::empty(),
{
    let v: Vec<ParamSpec> = Vec::new();
    assert(params_view(v@) =~= Seq::<ParamRow>::empty());
    v
}

/// The parameters of `move_params`.
pub open spec fn move_param_rows() -> Seq<ParamRow> {
    seq![
        ("dist"@, "cm"@, ParamKind::Number, "50"@, Some("10"@), Some("300"@), None, Seq::empty()),
        ("speed"@, "Speed"@, ParamKind::Number, "50"@, Some("0"@), Some("100"@), None, Seq::empty()),
    ]
}

fn move_params() -> (v: Vec<ParamSpec>)
    ensures
        params_view(v@) == move_param_rows(),
{
    let mut v: Vec<ParamSpec> = Vec::new();
    v.push(pd_num("dist", "cm", "50", Some("10"), Some("300"), None));
    v.push(pd_num("speed", "Speed", "50", Some("0"), Some("100"), None));
    assert(params_view(v@) =~= move_param_rows());
    v
}

proof fn lemma_move_param_rows()
    ensures
        keys_distinct(move_param_rows()),
        select_defaults_listed(move_param_rows()),
{
    let ps = move_param_rows();
    reveal_strlit("dist");
    reveal_strlit("speed");
    assert(ps[0].0.len() != ps[1].0.len());
}

/// The parameters of `hover_params`.
pub open spec fn hover_param_rows() -> Seq<ParamRow> {
    seq![
        ("dur"@, "Secs"@, ParamKind::Number, "1"@, Some("0.01"@), Some("10"@), None, Seq::empty()),
    ]
}

fn hover_params() -> (v: Vec<ParamSpec>)
    ensures
        params_view(v@) == hover_param_rows(),
{
    let mut v: Vec<ParamSpec> = Vec::new();
    v.push(pd_num("dur", "Secs", "1", Some("0.01"), Some("10"), None));
    assert(params_view(v@) =~= hover_param_rows());
    v
}

proof fn lemma_hover_param_rows()
    ensures
        keys_distinct(hover_param_rows()),
        select_defaults_listed(hover_param_rows()),
{
}

/// The parameters of `flip_params`.
pub open spec fn flip_param_rows() -> Seq<ParamRow> {
    seq![
        ("dir"@, "Dir"@, ParamKind::Select, "back"@, None, None, None, flip_dir_options_texts()),
    ]
}

fn flip_params() -> (v: Vec<ParamSpec>)
    ensures
        params_view(v@) == flip_param_rows(),
{
    let mut v: Vec<ParamSpec> = Vec::new();
    v.push(pd_select("dir", "Dir", "back", flip_dir_options()));
    assert(params_view(v@) =~= flip_param_rows());
    v
}

proof fn lemma_flip_param_rows()
    ensures
        keys_distinct(flip_param_rows()),
        select_defaults_listed(flip_param_rows()),
{
    let ps = flip_param_rows();
    assert(ps[0].7[1] == ps[0].3);
}

/// The parameters of `go_params`.
pub open spec fn go_param_rows() -> Seq<ParamRow> {
    seq![
        ("dir"@, "Dir"@, ParamKind::Select, "forward"@, None, None, None, go_dir_options_texts()),
        ("power"@, "Power %"@, ParamKind::Number, "50"@, Some("0"@), Some("100"@), None, Seq::empty()),
        ("dur"@, "Secs"@, ParamKind::Number, "1"@, Some("0.1"@), Some("10"@), None, Seq::empty()),
    ]
}

fn go_params() -> (v: Vec<ParamSpec>)
    ensures
        params_view(v@) == go_param_rows(),
{
    let mut v: Vec<ParamSpec> = Vec::new();
    v.push(pd_select("dir", "Dir", "forward", go_dir_options()));
    v.push(pd_num("power", "Power %", "50", Some("0"), Some("100"), None));
    v.push(pd_num("dur", "Secs", "1", Some("0.1"), Some("10"), None));
    assert(params_view(v@) =~= go_param_rows());
    v
}

proof fn lemma_go_param_rows()
    ensures
        keys_distinct(go_param_rows()),
        select_defaults_listed(go_param_rows()),
{
    let ps = go_param_rows();
    reveal_strlit("dir");
    reveal_strlit("dur");
    reveal_strlit("power");
    assert(ps[0].0.len() != ps[1].0.len());
    assert(ps[0].0[1] != ps[2].0[1]);
    assert(ps[1].0.len() != ps[2].0.len());
    assert(ps[0].7[0] == ps[0].3);
}

/// The parameters of `turn_params`.
pub open spec fn turn_param_rows() -> Seq<ParamRow> {
    seq![
        ("deg"@, "Deg"@, ParamKind::Number, "90"@, Some("1"@), Some("360"@), None, Seq::empty()),
    ]
}

fn turn_params() -> (v: Vec<ParamSpec>)
    ensures
        params_view(v@) == turn_param_rows(),
{
    let mut v: Vec<ParamSpec> = Vec::new();
    v.push(pd_num("deg", "Deg", "90", Some("1"), Some("360"), None));
    assert(params_view(v@) =~= turn_param_rows());
    v
}

proof fn lemma_turn_param_rows()
    ensures
        keys_distinct(turn_param_rows()),
        select_defaults_listed(turn_param_rows()),
{
}

/// The parameters of `turn_degree_params`.
pub open spec fn turn_degree_param_rows() -> Seq<ParamRow> {
    seq![
        ("deg"@, "Deg"@, ParamKind::Number, "90"@, Some("-360"@), Some("360"@), None, Seq::empty()),
        ("timeout"@, "Timeout"@, ParamKind::Number, "3"@, Some("0.1"@), Some("30"@), None, Seq::empty()),
        ("p_value"@, "P Value"@, ParamKind::Number, "10"@, Some("0"@), Some("100"@), None, Seq::empty()),
    ]
}

fn turn_degree_params() -> (v: Vec<ParamSpec>)
    ensures
        params_view(v@) == turn_degree_param_rows(),
{
    let mut v: Vec<ParamSpec> = Vec::new();
    v.push(pd_num("deg", "Deg", "90", Some("-360"), Some("360"), None));
    v.push(pd_num("timeout", "Timeout", "3", Some("0.1"), Some("30"), None));
    v.push(pd_num("p_value", "P Value", "10", Some("0"), Some("100"), None));
    assert(params_view(v@) =~= turn_degree_param_rows());
    v
}

proof fn lemma_turn_degree_param_rows()
    ensures
        keys_distinct(turn_degree_param_rows()),
        select_defaults_listed(turn_degree_param_rows()),
{
    let ps = turn_degree_param_rows();
    reveal_strlit("deg");
    reveal_strlit("p_value");
    reveal_strlit("timeout");
    assert(ps[0].0.len() != ps[1].0.len());
    assert(ps[0].0.len() != ps[2].0.len());
    assert(ps[1].0[0] != ps[2].0[0]);
}

/// The parameters of `circle_params`.
pub open spec fn circle_param_rows() -> Seq<ParamRow> {
    seq![
        ("speed"@, "Speed %"@, ParamKind::Number, "75"@, Some("10"@), Some("100"@), None, Seq::empty()),
        ("dir"@, "Direction"@, ParamKind::Select, "clockwise"@, None, None, None, dir_options_texts()),
    ]
}

fn circle_params() -> (v: Vec<ParamSpec>)
    ensures
        params_view(v@) == circle_param_rows(),
{
    let mut v: Vec<ParamSpec> = Vec::new();
    v.push(pd_num("speed", "Speed %", "75", Some("10"), Some("100"), None));
    v.push(pd_select("dir", "Direction", "clockwise", dir_options()));
    assert(params_view(v@) =~= circle_param_rows());
    v
}

proof fn lemma_circle_param_rows()
    ensures
        keys_distinct(circle_param_rows()),
        select_defaults_listed(circle_param_rows()),
{
    let ps = circle_param_rows();
    reveal_strlit("dir");
    reveal_strlit("speed");
    assert(ps[0].0.len() != ps[1].0.len());
    assert(ps[1].7[0] == ps[1].3);
}

/// The parameters of `circle_turn_params`.
pub open spec fn circle_turn_param_rows() -> Seq<ParamRow> {
    seq![
        ("speed"@, "Speed %"@, ParamKind::Number, "75"@, Some("10"@), Some("100"@), None, Seq::empty()),
        ("secs"@, "Secs"@, ParamKind::Number, "1"@, Some("1"@), Some("10"@), None, Seq::empty()),
        ("dir"@, "Direction"@, ParamKind::Select, "clockwise"@, None, None, None, dir_options_texts()),
    ]
}

fn circle_turn_params() -> (v: Vec<ParamSpec>)
    ensures
        params_view(v@) == circle_turn_param_rows(),
{
    let mut v: Vec<ParamSpec> = Vec::new();
    v.push(pd_num("speed", "Speed %", "75", Some("10"), Some("100"), None));
    v.push(pd_num("secs", "Secs", "1", Some("1"), Some("10"), None));
    v.push(pd_select("dir", "Direction", "clockwise", dir_options()));
    assert(params_view(v@) =~= circle_turn_param_rows());
    v
}

proof fn lemma_circle_turn_param_rows()
    ensures
        keys_distinct(circle_turn_param_rows()),
        select_defaults_listed(circle_turn_param_rows()),
{
    let ps = circle_turn_param_rows();
    reveal_strlit("dir");
    reveal_strlit("secs");
    reveal_strlit("speed");
    assert(ps[0].0.len() != ps[1].0.len());
    assert(ps[0].0.len() != ps[2].0.len());
    assert(ps[1].0.len() != ps[2].0.len());
    assert(ps[2].7[0] == ps[2].3);
}

/// The parameters of `square_params`.
pub open spec fn square_param_rows() -> Seq<ParamRow> {
    seq![
        ("speed"@, "Speed %"@, ParamKind::Number, "60"@, Some("10"@), Some("100"@), None, Seq::empty()),
        ("secs"@, "Secs"@, ParamKind::Number, "1"@, Some("0.1"@), Some("10"@), None, Seq::empty()),
        ("dir"@, "Direction"@, ParamKind::Select, "clockwise"@, None, None, None, dir_options_texts()),
    ]
}

fn square_params() -> (v: Vec<ParamSpec>)
    ensures
        params_view(v@) == square_param_rows(),
{
    let mut v: Vec<ParamSpec> = Vec::new();
    v.push(pd_num("speed", "Speed %", "60", Some("10"), Some("100"), None));
    v.push(pd_num("secs", "Secs", "1", Some("0.1"), Some("10"), None));
    v.push(pd_select("dir", "Direction", "clockwise", dir_options()));
    assert(params_view(v@) =~= square_param_rows());
    v
}

proof fn lemma_square_param_rows()
    ensures
        keys_distinct(square_param_rows()),
        select_defaults_listed(square_param_rows()),
{
    let ps = square_param_rows();
    reveal_strlit("dir");
    reveal_strlit("secs");
    reveal_strlit("speed");
    assert(ps[0].0.len() != ps[1].0.len());
    assert(ps[0].0.len() != ps[2].0.len());
    assert(ps[1].0.len() != ps[2].0.len());
    assert(ps[2].7[0] == ps[2].3);
}

/// The parameters of `triangle_params`.
pub open spec fn triangle_param_rows() -> Seq<ParamRow> {
    seq![
        ("speed"@, "Speed %"@, ParamKind::Number, "60"@, Some("10"@), Some("100"@), None, Seq::empty()),
        ("secs"@, "Secs"@, ParamKind::Number, "1"@, Some("0.1"@), Some("10"@), None, Seq::empty()),
        ("dir"@, "Direction"@, ParamKind::Select, "clockwise"@, None, None, None, dir_options_texts()),
    ]
}

fn triangle_params() -> (v: Vec<ParamSpec>)
    ensures
        params_view(v@) == triangle_param_rows(),
{
    let mut v: Vec<ParamSpec> = Vec::new();
    v.push(pd_num("speed", "Speed %", "60", Some("10"), Some("100"), None));
    v.push(pd_num("secs", "Secs", "1", Some("0.1"), Some("10"), None));
    v.push(pd_select("dir", "Direction", "clockwise", dir_options()));
    assert(params_view(v@) =~= triangle_param_rows());
    v
}

proof fn lemma_triangle_param_rows()
    ensures
        keys_distinct(triangle_param_rows()),
        select_defaults_listed(triangle_param_rows()),
{
    let ps = triangle_param_rows();
    reveal_strlit("dir");
    reveal_strlit("secs");
    reveal_strlit("speed");
    assert(ps[0].0.len() != ps[1].0.len());
    assert(ps[0].0.len() != ps[2].0.len());
    assert(ps[1].0.len() != ps[2].0.len());
    assert(ps[2].7[0] == ps[2].3);
}

/// The parameters of `spiral_params`.
pub open spec fn spiral_param_rows() -> Seq<ParamRow> {
    seq![
        ("speed"@, "Speed %"@, ParamKind::Number, "50"@, Some("10"@), Some("100"@), None, Seq::empty()),
        ("dir"@, "Direction"@, ParamKind::Select, "clockwise"@, None, None, None, dir_options_texts()),
    ]
}

fn spiral_params() -> (v: Vec<ParamSpec>)
    ensures
        params_view(v@) == spiral_param_rows(),
{
    let mut v: Vec<ParamSpec> = Vec::new();
    v.push(pd_num("speed", "Speed %", "50", Some("10"), Some("100"), None));
    v.push(pd_select("dir", "Direction", "clockwise", dir_options()));
    assert(params_view(v@) =~= spiral_param_rows());
    v
}

proof fn lemma_spiral_param_rows()
    ensures
        keys_distinct(spiral_param_rows()),
        select_defaults_listed(spiral_param_rows()),
{
    let ps = spiral_param_rows();
    reveal_strlit("dir");
    reveal_strlit("speed");
    assert(ps[0].0.len() != ps[1].0.len());
    assert(ps[1].7[0] == ps[1].3);
}

/// The parameters of `sway_params`.
pub open spec fn sway_param_rows() -> Seq<ParamRow> {
    seq![
        ("speed"@, "Speed %"@, ParamKind::Number, "50"@, Some("10"@), Some("100"@), None, Seq::empty()),
        ("secs"@, "Secs"@, ParamKind::Number, "2"@, Some("1"@), Some("10"@), None, Seq::empty()),
        ("dir"@, "Direction"@, ParamKind::Select, "forward-back"@, None, None, None, sway_dir_options_texts()),
    ]
}

fn sway_params() -> (v: Vec<ParamSpec>)
    ensures
        params_view(v@) == sway_param_rows(),
{
    let mut v: Vec<ParamSpec> = Vec::new();
    v.push(pd_num("speed", "Speed %", "50", Some("10"), Some("100"), None));
    v.push(pd_num("secs", "Secs", "2", Some("1"), Some("10"), None));
    v.push(pd_select("dir", "Direction", "forward-back", sway_dir_options()));
    assert(params_view(v@) =~= sway_param_rows());
    v
}

proof fn lemma_sway_param_rows()
    ensures
        keys_distinct(sway_param_rows()),
        select_defaults_listed(sway_param_rows()),
{
    let ps = sway_param_rows();
    reveal_strlit("dir");
    reveal_strlit("secs");
    reveal_strlit("speed");
    assert(ps[0].0.len() != ps[1].0.len());
    assert(ps[0].0.len() != ps[2].0.len());
    assert(ps[1].0.len() != ps[2].0.len());
    assert(ps[2].7[0] == ps[2].3);
}

/// The parameters of `range_params`.
pub open spec fn range_param_rows() -> Seq<ParamRow> {
    seq![
        ("dist"@, "cm"@, ParamKind::Number, "50"@, Some("10"@), Some("300"@), None, Seq::empty()),
        ("speed"@, "Speed %"@, ParamKind::Number, "50"@, Some("10"@), Some("100"@), None, Seq::empty()),
    ]
}

fn range_params() -> (v: Vec<ParamSpec>)
    ensures
        params_view(v@) == range_param_rows(),
{
    let mut v: Vec<ParamSpec> = Vec::new();
    v.push(pd_num("dist", "cm", "50", Some("10"), Some("300"), None));
    v.push(pd_num("speed", "Speed %", "50", Some("10"), Some("100"), None));
    assert(params_view(v@) =~= range_param_rows());
    v
}

proof fn lemma_range_param_rows()
    ensures
        keys_distinct(range_param_rows()),
        select_defaults_listed(range_param_rows()),
{
    let ps = range_param_rows();
    reveal_strlit("dist");
    reveal_strlit("speed");
    assert(ps[0].0.len() != ps[1].0.len());
}

/// The parameters of `detect_wall_params`.
pub open spec fn detect_wall_param_rows() -> Seq<ParamRow> {
    seq![
        ("var"@, "Store in"@, ParamKind::Text, "detected"@, None, None, None, Seq::empty()),
    ]
}

fn detect_wall_params() -> (v: Vec<ParamSpec>)
    ensures
        params_view(v@) == detect_wall_param_rows(),
{
    let mut v: Vec<ParamSpec> = Vec::new();
    v.push(pd_text("var", "Store in", "detected"));
    assert(params_view(v@) =~= detect_wall_param_rows());
    v
}

proof fn lemma_detect_wall_param_rows()
    ensures
        keys_distinct(detect_wall_param_rows()),
        select_defaults_listed(detect_wall_param_rows()),
{
}

/// The parameters of `led_params`.
pub open spec fn led_param_rows() -> Seq<ParamRow> {
    seq![
        ("color"@, "Color"@, ParamKind::Select, "green"@, None, None, None, led_color_options_texts()),
    ]
}

fn led_params() -> (v: Vec<ParamSpec>)
    ensures
        params_view(v@) == led_param_rows(),
{
    let mut v: Vec<ParamSpec> = Vec::new();
    v.push(pd_select("color", "Color", "green", led_color_options()));
    assert(params_view(v@) =~= led_param_rows());
    v
}

proof fn lemma_led_param_rows()
    ensures
        keys_distinct(led_param_rows()),
        select_defaults_listed(led_param_rows()),
{
    let ps = led_param_rows();
    assert(ps[0].7[1] == ps[0].3);
}

/// The parameters of `buzzer_params`.
pub open spec fn buzzer_param_rows() -> Seq<ParamRow> {
    seq![
        ("freq"@, "Frequency (Hz)"@, ParamKind::Number, "440"@, Some("100"@), Some("2000"@), None, Seq::empty()),
        ("dur"@, "Duration (s)"@, ParamKind::Number, "0.5"@, Some("0.1"@), Some("5"@), Some("0.1"@), Seq::empty()),
    ]
}

fn buzzer_params() -> (v: Vec<ParamSpec>)
    ensures
        params_view(v@) == buzzer_param_rows(),
{
    let mut v: Vec<ParamSpec> = Vec::new();
    v.push(pd_num("freq", "Frequency (Hz)", "440", Some("100"), Some("2000"), None));
    v.push(pd_num("dur", "Duration (s)", "0.5", Some("0.1"), Some("5"), Some("0.1")));
    assert(params_view(v@) =~= buzzer_param_rows());
    v
}

proof fn lemma_buzzer_param_rows()
    ensures
        keys_distinct(buzzer_param_rows()),
        select_defaults_listed(buzzer_param_rows()),
{
    let ps = buzzer_param_rows();
    reveal_strlit("dur");
    reveal_strlit("freq");
    assert(ps[0].0.len() != ps[1].0.len());
}

/// The parameters of `time_sleep_params`.
pub open spec fn time_sleep_param_rows() -> Seq<ParamRow> {
    seq![
        ("dur"@, "Secs"@, ParamKind::Number, "1"@, Some("0.1"@), Some("10"@), None, Seq::empty()),
    ]
}

fn time_sleep_params() -> (v: Vec<ParamSpec>)
    ensures
        params_view(v@) == time_sleep_param_rows(),
{
    let mut v: Vec<ParamSpec> = Vec::new();
    v.push(pd_num("dur", "Secs", "1", Some("0.1"), Some("10"), None));
    assert(params_view(v@) =~= time_sleep_param_rows());
    v
}

proof fn lemma_time_sleep_param_rows()
    ensures
        keys_distinct(time_sleep_param_rows()),
        select_defaults_listed(time_sleep_param_rows()),
{
}

/// The parameters of `drone_sleep_params`.
pub open spec fn drone_sleep_param_rows() -> Seq<ParamRow> {
    seq![
        ("dur"@, "Secs"@, ParamKind::Number, "1"@, Some("0.1"@), Some("10"@), Some("0.1"@), Seq::empty()),
    ]
}

fn drone_sleep_params() -> (v: Vec<ParamSpec>)
    ensures
        params_view(v@) == drone_sleep_param_rows(),
{
    let mut v: Vec<ParamSpec> = Vec::new();
    v.push(pd_num("dur", "Secs", "1", Some("0.1"), Some("10"), Some("0.1")));
    assert(params_view(v@) =~= drone_sleep_param_rows());
    v
}

proof fn lemma_drone_sleep_param_rows()
    ensures
        keys_distinct(drone_sleep_param_rows()),
        select_defaults_listed(drone_sleep_param_rows()),
{
}

/// The parameters of `var_declare_params`.
pub open spec fn var_declare_param_rows() -> Seq<ParamRow> {
    seq![
        ("name"@, "Name"@, ParamKind::Text, "x"@, None, None, None, Seq::empty()),
        ("value"@, "Value"@, ParamKind::Text, "0"@, None, None, None, Seq::empty()),
    ]
}

fn var_declare_params() -> (v: Vec<ParamSpec>)
    ensures
        params_view(v@) == var_declare_param_rows(),
{
    let mut v: Vec<ParamSpec> = Vec::new();
    v.push(pd_text("name", "Name", "x"));
    v.push(pd_text("value", "Value", "0"));
    assert(params_view(v@) =~= var_declare_param_rows());
    v
}

proof fn lemma_var_declare_param_rows()
    ensures
        keys_distinct(var_declare_param_rows()),
        select_defaults_listed(var_declare_param_rows()),
{
    let ps = var_declare_param_rows();
    reveal_strlit("name");
    reveal_strlit("value");
    assert(ps[0].0.len() != ps[1].0.len());
}

/// The parameters of `set_var_params`.
pub open spec fn set_var_param_rows() -> Seq<ParamRow> {
    seq![
        ("name"@, "Name"@, ParamKind::Text, "x"@, None, None, None, Seq::empty()),
        ("op"@, "Op"@, ParamKind::Select, "="@, None, None, None, op_options_texts()),
        ("value"@, "Value"@, ParamKind::Text, "1"@, None, None, None, Seq::empty()),
    ]
}

fn set_var_params() -> (v: Vec<ParamSpec>)
    ensures
        params_view(v@) == set_var_param_rows(),
{
    let mut v: Vec<ParamSpec> = Vec::new();
    v.push(pd_text("name", "Name", "x"));
    v.push(pd_select("op", "Op", "=", op_options()));
    v.push(pd_text("value", "Value", "1"));
    assert(params_view(v@) =~= set_var_param_rows());
    v
}

proof fn lemma_set_var_param_rows()
    ensures
        keys_distinct(set_var_param_rows()),
        select_defaults_listed(set_var_param_rows()),
{
    let ps = set_var_param_rows();
    reveal_strlit("name");
    reveal_strlit("op");
    reveal_strlit("value");
    assert(ps[0].0.len() != ps[1].0.len());
    assert(ps[0].0.len() != ps[2].0.len());
    assert(ps[1].0.len() != ps[2].0.len());
    assert(ps[1].7[0] == ps[1].3);
}

/// The parameters of `print_var_params`.
pub open spec fn print_var_param_rows() -> Seq<ParamRow> {
    seq![
        ("value"@, "Value"@, ParamKind::Text, "x"@, None, None, None, Seq::empty()),
    ]
}

fn print_var_params() -> (v: Vec<ParamSpec>)
    ensures
        params_view(v@) == print_var_param_rows(),
{
    let mut v: Vec<ParamSpec> = Vec::new();
    v.push(pd_text("value", "Value", "x"));
    assert(params_view(v@) =~= print_var_param_rows());
    v
}

proof fn lemma_print_var_param_rows()
    ensures
        keys_distinct(print_var_param_rows()),
        select_defaults_listed(print_var_param_rows()),
{
}

/// The parameters of `if_params`.
pub open spec fn if_param_rows() -> Seq<ParamRow> {
    seq![
        ("condition"@, "Condition"@, ParamKind::Text, "x > 0"@, None, None, None, Seq::empty()),
    ]
}

fn if_params() -> (v: Vec<ParamSpec>)
    ensures
        params_view(v@) == if_param_rows(),
{
    let mut v: Vec<ParamSpec> = Vec::new();
    v.push(pd_text("condition", "Condition", "x > 0"));
    assert(params_view(v@) =~= if_param_rows());
    v
}

proof fn lemma_if_param_rows()
    ensures
        keys_distinct(if_param_rows()),
        select_defaults_listed(if_param_rows()),
{
}

/// The parameters of `elif_params`.
pub open spec fn elif_param_rows() -> Seq<ParamRow> {
    seq![
        ("condition"@, "Condition"@, ParamKind::Text, "x == 0"@, None, None, None, Seq::empty()),
    ]
}

fn elif_params() -> (v: Vec<ParamSpec>)
    ensures
        params_view(v@) == elif_param_rows(),
{
    let mut v: Vec<ParamSpec> = Vec::new();
    v.push(pd_text("condition", "Condition", "x == 0"));
    assert(params_view(v@) =~= elif_param_rows());
    v
}

proof fn lemma_elif_param_rows()
    ensures
        keys_distinct(elif_param_rows()),
        select_defaults_listed(elif_param_rows()),
{
}

/// The parameters of `while_params`.
pub open spec fn while_param_rows() -> Seq<ParamRow> {
    seq![
        ("condition"@, "Condition"@, ParamKind::Text, "True"@, None, None, None, Seq::empty()),
    ]
}

fn while_params() -> (v: Vec<ParamSpec>)
    ensures
        params_view(v@) == while_param_rows(),
{
    let mut v: Vec<ParamSpec> = Vec::new();
    v.push(pd_text("condition", "Condition", "True"));
    assert(params_view(v@) =~= while_param_rows());
    v
}

proof fn lemma_while_param_rows()
    ensures
        keys_distinct(while_param_rows()),
        select_defaults_listed(while_param_rows()),
{
}

/// The parameters of `for_params`.
pub open spec fn for_param_rows() -> Seq<ParamRow> {
    seq![
        ("var"@, "Var"@, ParamKind::Text, "i"@, None, None, None, Seq::empty()),
        ("start"@, "Start"@, ParamKind::Number, "0"@, None, None, None, Seq::empty()),
        ("end_val"@, "End"@, ParamKind::Number, "5"@, None, None, None, Seq::empty()),
        ("step"@, "Step"@, ParamKind::Number, "1"@, None, None, None, Seq::empty()),
    ]
}

fn for_params() -> (v: Vec<ParamSpec>)
    ensures
        params_view(v@) == for_param_rows(),
{
    let mut v: Vec<ParamSpec> = Vec::new();
    v.push(pd_text("var", "Var", "i"));
    v.push(pd_num("start", "Start", "0", None, None, None));
    v.push(pd_num("end_val", "End", "5", None, None, None));
    v.push(pd_num("step", "Step", "1", None, None, None));
    assert(params_view(v@) =~= for_param_rows());
    v
}

proof fn lemma_for_param_rows()
    ensures
        keys_distinct(for_param_rows()),
        select_defaults_listed(for_param_rows()),
{
    let ps = for_param_rows();
    reveal_strlit("end_val");
    reveal_strlit("start");
    reveal_strlit("step");
    reveal_strlit("var");
    assert(ps[0].0.len() != ps[1].0.len());
    assert(ps[0].0.len() != ps[2].0.len());
    assert(ps[0].0.len() != ps[3].0.len());
    assert(ps[1].0.len() != ps[2].0.len());
    assert(ps[1].0.len() != ps[3].0.len());
    assert(ps[2].0.len() != ps[3].0.len());
}

/// The parameters of `battery_params`.
pub open spec fn battery_param_rows() -> Seq<ParamRow> {
    seq![
        ("var"@, "Store in"@, ParamKind::Text, "battery"@, None, None, None, Seq::empty()),
    ]
}

fn battery_params() -> (v: Vec<ParamSpec>)
    ensures
        params_view(v@) == battery_param_rows(),
{
    let mut v: Vec<ParamSpec> = Vec::new();
    v.push(pd_text("var", "Store in", "battery"));
    assert(params_view(v@) =~= battery_param_rows());
    v
}

proof fn lemma_battery_param_rows()
    ensures
        keys_distinct(battery_param_rows()),
        select_defaults_listed(battery_param_rows()),
{
}

/// The parameters of `height_params`.
pub open spec fn height_param_rows() -> Seq<ParamRow> {
    seq![
        ("var"@, "Store in"@, ParamKind::Text, "height"@, None, None, None, Seq::empty()),
        ("unit"@, "Unit"@, ParamKind::Select, "cm"@, None, None, None, unit_options_texts()),
    ]
}

fn height_params() -> (v: Vec<ParamSpec>)
    ensures
        params_view(v@) == height_param_rows(),
{
    let mut v: Vec<ParamSpec> = Vec::new();
    v.push(pd_text("var", "Store in", "height"));
    v.push(pd_select("unit", "Unit", "cm", unit_options()));
    assert(params_view(v@) =~= height_param_rows());
    v
}

proof fn lemma_height_param_rows()
    ensures
        keys_distinct(height_param_rows()),
        select_defaults_listed(height_param_rows()),
{
    let ps = height_param_rows();
    reveal_strlit("unit");
    reveal_strlit("var");
    assert(ps[0].0.len() != ps[1].0.len());
    assert(ps[1].7[0] == ps[1].3);
}

/// The parameters of `front_range_params`.
pub open spec fn front_range_param_rows() -> Seq<ParamRow> {
    seq![
        ("var"@, "Store in"@, ParamKind::Text, "dist"@, None, None, None, Seq::empty()),
        ("unit"@, "Unit"@, ParamKind::Select, "cm"@, None, None, None, unit_options_texts()),
    ]
}

fn front_range_params() -> (v: Vec<ParamSpec>)
    ensures
        params_view(v@) == front_range_param_rows(),
{
    let mut v: Vec<ParamSpec> = Vec::new();
    v.push(pd_text("var", "Store in", "dist"));
    v.push(pd_select("unit", "Unit", "cm", unit_options()));
    assert(params_view(v@) =~= front_range_param_rows());
    v
}

proof fn lemma_front_range_param_rows()
    ensures
        keys_distinct(front_range_param_rows()),
        select_defaults_listed(front_range_param_rows()),
{
    let ps = front_range_param_rows();
    reveal_strlit("unit");
    reveal_strlit("var");
    assert(ps[0].0.len() != ps[1].0.len());
    assert(ps[1].7[0] == ps[1].3);
}

/// The parameters of `bottom_range_params`.
pub open spec fn bottom_range_param_rows() -> Seq<ParamRow> {
    seq![
        ("var"@, "Store in"@, ParamKind::Text, "dist"@, None, None, None, Seq::empty()),
        ("unit"@, "Unit"@, ParamKind::Select, "cm"@, None, None, None, unit_options_texts()),
    ]
}

fn bottom_range_params() -> (v: Vec<ParamSpec>)
    ensures
        params_view(v@) == bottom_range_param_rows(),
{
    let mut v: Vec<ParamSpec> = Vec::new();
    v.push(pd_text("var", "Store in", "dist"));
    v.push(pd_select("unit", "Unit", "cm", unit_options()));
    assert(params_view(v@) =~= bottom_range_param_rows());
    v
}

proof fn lemma_bottom_range_param_rows()
    ensures
        keys_distinct(bottom_range_param_rows()),
        select_defaults_listed(bottom_range_param_rows()),
{
    let ps = bottom_range_param_rows();
    reveal_strlit("unit");
    reveal_strlit("var");
    assert(ps[0].0.len() != ps[1].0.len());
    assert(ps[1].7[0] == ps[1].3);
}

/// The parameters of `front_color_params`.
pub open spec fn front_color_param_rows() -> Seq<ParamRow> {
    seq![
        ("var"@, "Store in"@, ParamKind::Text, "color"@, None, None, None, Seq::empty()),
        ("kind"@, "Kind"@, ParamKind::Select, "name"@, None, None, None, kind_options_texts()),
    ]
}

fn front_color_params() -> (v: Vec<ParamSpec>)
    ensures
        params_view(v@) == front_color_param_rows(),
{
    let mut v: Vec<ParamSpec> = Vec::new();
    v.push(pd_text("var", "Store in", "color"));
    v.push(pd_select("kind", "Kind", "name", kind_options()));
    assert(params_view(v@) =~= front_color_param_rows());
    v
}

proof fn lemma_front_color_param_rows()
    ensures
        keys_distinct(front_color_param_rows()),
        select_defaults_listed(front_color_param_rows()),
{
    let ps = front_color_param_rows();
    reveal_strlit("kind");
    reveal_strlit("var");
    assert(ps[0].0.len() != ps[1].0.len());
    assert(ps[1].7[0] == ps[1].3);
}

/// The parameters of `back_color_params`.
pub open spec fn back_color_param_rows() -> Seq<ParamRow> {
    seq![
        ("var"@, "Store in"@, ParamKind::Text, "color"@, None, None, None, Seq::empty()),
        ("kind"@, "Kind"@, ParamKind::Select, "name"@, None, None, None, kind_options_texts()),
    ]
}

fn back_color_params() -> (v: Vec<ParamSpec>)
    ensures
        params_view(v@) == back_color_param_rows(),
{
    let mut v: Vec<ParamSpec> = Vec::new();
    v.push(pd_text("var", "Store in", "color"));
    v.push(pd_select("kind", "Kind", "name", kind_options()));
    assert(params_view(v@) =~= back_color_param_rows());
    v
}

proof fn lemma_back_color_param_rows()
    ensures
        keys_distinct(back_color_param_rows()),
        select_defaults_listed(back_color_param_rows()),
{
    let ps = back_color_param_rows();
    reveal_strlit("kind");
    reveal_strlit("var");
    assert(ps[0].0.len() != ps[1].0.len());
    assert(ps[1].7[0] == ps[1].3);
}

/// The parameters of `temperature_params`.
pub open spec fn temperature_param_rows() -> Seq<ParamRow> {
    seq![
        ("var"@, "Store in"@, ParamKind::Text, "temp"@, None, None, None, Seq::empty()),
        ("unit"@, "Unit"@, ParamKind::Select, "C"@, None, None, None, temp_unit_options_texts()),
    ]
}

fn temperature_params() -> (v: Vec<ParamSpec>)
    ensures
        params_view(v@) == temperature_param_rows(),
{
    let mut v: Vec<ParamSpec> = Vec::new();
    v.push(pd_text("var", "Store in", "temp"));
    v.push(pd_select("unit", "Unit", "C", temp_unit_options()));
    assert(params_view(v@) =~= temperature_param_rows());
    v
}

proof fn lemma_temperature_param_rows()
    ensures
        keys_distinct(temperature_param_rows()),
        select_defaults_listed(temperature_param_rows()),
{
    let ps = temperature_param_rows();
    reveal_strlit("unit");
    reveal_strlit("var");
    assert(ps[0].0.len() != ps[1].0.len());
    assert(ps[1].7[0] == ps[1].3);
}

/// The parameters of `distance_params`.
pub open spec fn distance_param_rows() -> Seq<ParamRow> {
    seq![
        ("var"@, "Store in"@, ParamKind::Text, "dist"@, None, None, None, Seq::empty()),
    ]
}

fn distance_params() -> (v: Vec<ParamSpec>)
    ensures
        params_view(v@) == distance_param_rows(),
{
    let mut v: Vec<ParamSpec> = Vec::new();
    v.push(pd_text("var", "Store in", "dist"));
    assert(params_view(v@) =~= distance_param_rows());
    v
}

proof fn lemma_distance_param_rows()
    ensures
        keys_distinct(distance_param_rows()),
        select_defaults_listed(distance_param_rows()),
{
}

/// The parameters of `func_def_params`.
pub open spec fn func_def_param_rows() -> Seq<ParamRow> {
    seq![
        ("name"@, "Name"@, ParamKind::Text, "my_func"@, None, None, None, Seq::empty()),
    ]
}

fn func_def_params() -> (v: Vec<ParamSpec>)
    ensures
        params_view(v@) == func_def_param_rows(),
{
    let mut v: Vec<ParamSpec> = Vec::new();
    v.push(pd_text("name", "Name", "my_func"));
    assert(params_view(v@) =~= func_def_param_rows());
    v
}

proof fn lemma_func_def_param_rows()
    ensures
        keys_distinct(func_def_param_rows()),
        select_defaults_listed(func_def_param_rows()),
{
}

/// The parameters of `func_call_params`.
pub open spec fn func_call_param_rows() -> Seq<ParamRow> {
    seq![
        ("name"@, "Name"@, ParamKind::Text, "my_func"@, None, None, None, Seq::empty()),
    ]
}

fn func_call_params() -> (v: Vec<ParamSpec>)
    ensures
        params_view(v@) == func_call_param_rows(),
{
    let mut v: Vec<ParamSpec> = Vec::new();
    v.push(pd_text("name", "Name", "my_func"));
    assert(params_view(v@) =~= func_call_param_rows());
    v
}

proof fn lemma_func_call_param_rows()
    ensures
        keys_distinct(func_call_param_rows()),
        select_defaults_listed(func_call_param_rows()),
{
}

/// The parameters of `return_val_params`.
pub open spec fn return_val_param_rows() -> Seq<ParamRow> {
    seq![
        ("value"@, "Value"@, ParamKind::Text, "0"@, None, None, None, Seq::empty()),
    ]
}

fn return_val_params() -> (v: Vec<ParamSpec>)
    ensures
        params_view(v@) == return_val_param_rows(),
{
    let mut v: Vec<ParamSpec> = Vec::new();
    v.push(pd_text("value", "Value", "0"));
    assert(params_view(v@) =~= return_val_param_rows());
    v
}

proof fn lemma_return_val_param_rows()
    ensures
        keys_distinct(return_val_param_rows()),
        select_defaults_listed(return_val_param_rows()),
{
}

/// The parameters of `list_declare_params`.
pub open spec fn list_declare_param_rows() -> Seq<ParamRow> {
    seq![
        ("name"@, "Name"@, ParamKind::Text, "my_list"@, None, None, None, Seq::empty()),
        ("values"@, "Values"@, ParamKind::Text, "1, 2, 3"@, None, None, None, Seq::empty()),
    ]
}

fn list_declare_params() -> (v: Vec<ParamSpec>)
    ensures
        params_view(v@) == list_declare_param_rows(),
{
    let mut v: Vec<ParamSpec> = Vec::new();
    v.push(pd_text("name", "Name", "my_list"));
    v.push(pd_text("values", "Values", "1, 2, 3"));
    assert(params_view(v@) =~= list_declare_param_rows());
    v
}

proof fn lemma_list_declare_param_rows()
    ensures
        keys_distinct(list_declare_param_rows()),
        select_defaults_listed(list_declare_param_rows()),
{
    let ps = list_declare_param_rows();
    reveal_strlit("name");
    reveal_strlit("values");
    assert(ps[0].0.len() != ps[1].0.len());
}

/// The parameters of `list_append_params`.
pub open spec fn list_append_param_rows() -> Seq<ParamRow> {
    seq![
        ("name"@, "List"@, ParamKind::Text, "my_list"@, None, None, None, Seq::empty()),
        ("value"@, "Value"@, ParamKind::Text, "0"@, None, None, None, Seq::empty()),
    ]
}

fn list_append_params() -> (v: Vec<ParamSpec>)
    ensures
        params_view(v@) == list_append_param_rows(),
{
    let mut v: Vec<ParamSpec> = Vec::new();
    v.push(pd_text("name", "List", "my_list"));
    v.push(pd_text("value", "Value", "0"));
    assert(params_view(v@) =~= list_append_param_rows());
    v
}

proof fn lemma_list_append_param_rows()
    ensures
        keys_distinct(list_append_param_rows()),
        select_defaults_listed(list_append_param_rows()),
{
    let ps = list_append_param_rows();
    reveal_strlit("name");
    reveal_strlit("value");
    assert(ps[0].0.len() != ps[1].0.len());
}

/// The parameters of `list_get_params`.
pub open spec fn list_get_param_rows() -> Seq<ParamRow> {
    seq![
        ("list_name"@, "List"@, ParamKind::Text, "my_list"@, None, None, None, Seq::empty()),
        ("index"@, "Index"@, ParamKind::Text, "0"@, None, None, None, Seq::empty()),
        ("var"@, "Store in"@, ParamKind::Text, "val"@, None, None, None, Seq::empty()),
    ]
}

fn list_get_params() -> (v: Vec<ParamSpec>)
    ensures
        params_view(v@) == list_get_param_rows(),
{
    let mut v: Vec<ParamSpec> = Vec::new();
    v.push(pd_text("list_name", "List", "my_list"));
    v.push(pd_text("index", "Index", "0"));
    v.push(pd_text("var", "Store in", "val"));
    assert(params_view(v@) =~= list_get_param_rows());
    v
}

proof fn lemma_list_get_param_rows()
    ensures
        keys_distinct(list_get_param_rows()),
        select_defaults_listed(list_get_param_rows()),
{
    let ps = list_get_param_rows();
    reveal_strlit("index");
    reveal_strlit("list_name");
    reveal_strlit("var");
    assert(ps[0].0.len() != ps[1].0.len());
    assert(ps[0].0.len() != ps[2].0.len());
    assert(ps[1].0.len() != ps[2].0.len());
}

/// The parameters of `user_input_params`.
pub open spec fn user_input_param_rows() -> Seq<ParamRow> {
    seq![
        ("var"@, "Store in"@, ParamKind::Text, "user_val"@, None, None, None, Seq::empty()),
        ("prompt"@, "Prompt"@, ParamKind::Text, "Enter value: "@, None, None, None, Seq::empty()),
    ]
}

fn user_input_params() -> (v: Vec<ParamSpec>)
    ensures
        params_view(v@) == user_input_param_rows(),
{
    let mut v: Vec<ParamSpec> = Vec::new();
    v.push(pd_text("var", "Store in", "user_val"));
    v.push(pd_text("prompt", "Prompt", "Enter value: "));
    assert(params_view(v@) =~= user_input_param_rows());
    v
}

proof fn lemma_user_input_param_rows()
    ensures
        keys_distinct(user_input_param_rows()),
        select_defaults_listed(user_input_param_rows()),
{
    let ps = user_input_param_rows();
    reveal_strlit("prompt");
    reveal_strlit("var");
    assert(ps[0].0.len() != ps[1].0.len());
}

/// The parameters of `timer_start_params`.
pub open spec fn timer_start_param_rows() -> Seq<ParamRow> {
    seq![
        ("name"@, "Name"@, ParamKind::Text, "t"@, None, None, None, Seq::empty()),
    ]
}

fn timer_start_params() -> (v: Vec<ParamSpec>)
    ensures
        params_view(v@) == timer_start_param_rows(),
{
    let mut v: Vec<ParamSpec> = Vec::new();
    v.push(pd_text("name", "Name", "t"));
    assert(params_view(v@) =~= timer_start_param_rows());
    v
}

proof fn lemma_timer_start_param_rows()
    ensures
        keys_distinct(timer_start_param_rows()),
        select_defaults_listed(timer_start_param_rows()),
{
}

/// The parameters of `timer_elapsed_params`.
pub open spec fn timer_elapsed_param_rows() -> Seq<ParamRow> {
    seq![
        ("name"@, "Timer"@, ParamKind::Text, "t"@, None, None, None, Seq::empty()),
        ("var"@, "Store in"@, ParamKind::Text, "elapsed"@, None, None, None, Seq::empty()),
    ]
}

fn timer_elapsed_params() -> (v: Vec<ParamSpec>)
    ensures
        params_view(v@) == timer_elapsed_param_rows(),
{
    let mut v: Vec<ParamSpec> = Vec::new();
    v.push(pd_text("name", "Timer", "t"));
    v.push(pd_text("var", "Store in", "elapsed"));
    assert(params_view(v@) =~= timer_elapsed_param_rows());
    v
}

proof fn lemma_timer_elapsed_param_rows()
    ensures
        keys_distinct(timer_elapsed_param_rows()),
        select_defaults_listed(timer_elapsed_param_rows()),
{
    let ps = timer_elapsed_param_rows();
    reveal_strlit("name");
    reveal_strlit("var");
    assert(ps[0].0.len() != ps[1].0.len());
}

/// The entry of each command type.
pub open spec fn command_row(t: CommandType) -> CommandRow {
    match t {
        CommandType::Takeoff => ("Takeoff"@, CommandType::Takeoff, Seq::empty(), false, Template::Takeoff),
        CommandType::Land => ("Land"@, CommandType::Land, Seq::empty(), false, Template::Land),
        CommandType::EmergencyStop => ("Emergency Stop"@, CommandType::EmergencyStop, Seq::empty(), false, Template::EmergencyStop),
        CommandType::StopMotors => ("Stop Motors"@, CommandType::StopMotors, Seq::empty(), false, Template::StopMotors),
        CommandType::Hover => ("Hover"@, CommandType::Hover, hover_param_rows(), false, Template::Hover),
        CommandType::Flip => ("Flip"@, CommandType::Flip, flip_param_rows(), false, Template::Flip),
        CommandType::Go => ("Go"@, CommandType::Go, go_param_rows(), false, Template::Go),
        CommandType::MoveForward => ("Forward"@, CommandType::MoveForward, move_param_rows(), false, Template::MoveForward),
        CommandType::MoveBackward => ("Back"@, CommandType::MoveBackward, move_param_rows(), false, Template::MoveBackward),
        CommandType::MoveLeft => ("Left"@, CommandType::MoveLeft, move_param_rows(), false, Template::MoveLeft),
        CommandType::MoveRight => ("Right"@, CommandType::MoveRight, move_param_rows(), false, Template::MoveRight),
        CommandType::TurnLeft => ("Turn Left"@, CommandType::TurnLeft, turn_param_rows(), false, Template::TurnLeft),
        CommandType::TurnRight => ("Turn Right"@, CommandType::TurnRight, turn_param_rows(), false, Template::TurnRight),
        CommandType::TurnDegree => ("Turn"@, CommandType::TurnDegree, turn_degree_param_rows(), false, Template::TurnDegree),
        CommandType::Circle => ("Circle"@, CommandType::Circle, circle_param_rows(), false, Template::Circle),
        CommandType::CircleTurn => ("Circle Turn"@, CommandType::CircleTurn, circle_turn_param_rows(), false, Template::CircleTurn),
        CommandType::Square => ("Square"@, CommandType::Square, square_param_rows(), false, Template::Square),
        CommandType::SquareTurn => ("Square Turn"@, CommandType::SquareTurn, square_param_rows(), false, Template::Square),
        CommandType::Triangle => ("Triangle"@, CommandType::Triangle, triangle_param_rows(), false, Template::Triangle),
        CommandType::TriangleTurn => ("Triangle Turn"@, CommandType::TriangleTurn, triangle_param_rows(), false, Template::TriangleTurn),
        CommandType::Spiral => ("Spiral"@, CommandType::Spiral, spiral_param_rows(), false, Template::Spiral),
        CommandType::Sway => ("Sway"@, CommandType::Sway, sway_param_rows(), false, Template::Sway),
        CommandType::KeepDistance => ("Keep Distance"@, CommandType::KeepDistance, range_param_rows(), false, Template::KeepDistance),
        CommandType::AvoidWall => ("Avoid Wall"@, CommandType::AvoidWall, range_param_rows(), false, Template::AvoidWall),
        CommandType::DetectWall => ("Detect Wall"@, CommandType::DetectWall, detect_wall_param_rows(), false, Template::DetectWall),
        CommandType::Led => ("LED"@, CommandType::Led, led_param_rows(), false, Template::Led),
        CommandType::LedOff => ("LED Off"@, CommandType::LedOff, Seq::empty(), false, Template::LedOff),
        CommandType::RandomLed => ("Random LED"@, CommandType::RandomLed, Seq::empty(), false, Template::RandomLed),
        CommandType::Buzzer => ("Buzzer"@, CommandType::Buzzer, buzzer_param_rows(), false, Template::Buzzer),
        CommandType::TimeSleep => ("Sleep"@, CommandType::TimeSleep, time_sleep_param_rows(), false, Template::Sleep),
        CommandType::DroneSleep => ("Sleep"@, CommandType::DroneSleep, drone_sleep_param_rows(), false, Template::Sleep),
        CommandType::VarDeclare => ("Var"@, CommandType::VarDeclare, var_declare_param_rows(), false, Template::VarDeclare),
        CommandType::SetVar => ("Set"@, CommandType::SetVar, set_var_param_rows(), false, Template::SetVar),
        CommandType::PrintVar => ("Print"@, CommandType::PrintVar, print_var_param_rows(), false, Template::PrintVar),
        CommandType::IfBlock => ("If"@, CommandType::IfBlock, if_param_rows(), true, Template::Blank),
        CommandType::ElifBlock => ("Elif"@, CommandType::ElifBlock, elif_param_rows(), true, Template::Blank),
        CommandType::ElseBlock => ("Else"@, CommandType::ElseBlock, Seq::empty(), true, Template::Blank),
        CommandType::EndBlock => ("End"@, CommandType::EndBlock, Seq::empty(), false, Template::Blank),
        CommandType::WhileBlock => ("While"@, CommandType::WhileBlock, while_param_rows(), true, Template::Blank),
        CommandType::ForBlock => ("For Loop"@, CommandType::ForBlock, for_param_rows(), true, Template::Blank),
        CommandType::BreakCmd => ("Break"@, CommandType::BreakCmd, Seq::empty(), false, Template::Break),
        CommandType::GetBattery => ("Battery"@, CommandType::GetBattery, battery_param_rows(), false, Template::GetBattery),
        CommandType::GetHeight => ("Height"@, CommandType::GetHeight, height_param_rows(), false, Template::GetHeight),
        CommandType::GetFrontRange => ("Front Range"@, CommandType::GetFrontRange, front_range_param_rows(), false, Template::GetFrontRange),
        CommandType::GetBottomRange => ("Bottom Range"@, CommandType::GetBottomRange, bottom_range_param_rows(), false, Template::GetBottomRange),
        CommandType::GetFrontColor => ("Front Color"@, CommandType::GetFrontColor, front_color_param_rows(), false, Template::GetFrontColor),
        CommandType::GetBackColor => ("Back Color"@, CommandType::GetBackColor, back_color_param_rows(), false, Template::GetBackColor),
        CommandType::GetTemperature => ("Temperature"@, CommandType::GetTemperature, temperature_param_rows(), false, Template::GetTemperature),
        CommandType::GetDistance => ("Distance"@, CommandType::GetDistance, distance_param_rows(), false, Template::GetDistance),
        CommandType::FuncDef => ("Define Func"@, CommandType::FuncDef, func_def_param_rows(), true, Template::Blank),
        CommandType::FuncCall => ("Call Func"@, CommandType::FuncCall, func_call_param_rows(), false, Template::FuncCall),
        CommandType::ReturnVal => ("Return"@, CommandType::ReturnVal, return_val_param_rows(), false, Template::ReturnVal),
        CommandType::ListDeclare => ("New List"@, CommandType::ListDeclare, list_declare_param_rows(), false, Template::ListDeclare),
        CommandType::ListAppend => ("Append"@, CommandType::ListAppend, list_append_param_rows(), false, Template::ListAppend),
        CommandType::ListGet => ("Get Index"@, CommandType::ListGet, list_get_param_rows(), false, Template::ListGet),
        CommandType::UserInput => ("Input"@, CommandType::UserInput, user_input_param_rows(), false, Template::UserInput),
        CommandType::TimerStart => ("Start Timer"@, CommandType::TimerStart, timer_start_param_rows(), false, Template::TimerStart),
        CommandType::TimerElapsed => ("Get Elapsed"@, CommandType::TimerElapsed, timer_elapsed_param_rows(), false, Template::TimerElapsed),
    }
}

/// The command types in the order of the editor's table.
pub open spec fn command_order() -> Seq<CommandType> {
    seq![
        CommandType::Takeoff,
        CommandType::Land,
        CommandType::EmergencyStop,
        CommandType::StopMotors,
        CommandType::Hover,
        CommandType::Flip,
        CommandType::Go,
        CommandType::MoveForward,
        CommandType::MoveBackward,
        CommandType::MoveLeft,
        CommandType::MoveRight,
        CommandType::TurnLeft,
        CommandType::TurnRight,
        CommandType::TurnDegree,
        CommandType::Circle,
        CommandType::CircleTurn,
        CommandType::Square,
        CommandType::SquareTurn,
        CommandType::Triangle,
        CommandType::TriangleTurn,
        CommandType::Spiral,
        CommandType::Sway,
        CommandType::KeepDistance,
        CommandType::AvoidWall,
        CommandType::DetectWall,
        CommandType::Led,
        CommandType::LedOff,
        CommandType::RandomLed,
        CommandType::Buzzer,
        CommandType::TimeSleep,
        CommandType::DroneSleep,
        CommandType::VarDeclare,
        CommandType::SetVar,
        CommandType::PrintVar,
        CommandType::IfBlock,
        CommandType::ElifBlock,
        CommandType::ElseBlock,
        CommandType::EndBlock,
        CommandType::WhileBlock,
        CommandType::ForBlock,
        CommandType::BreakCmd,
        CommandType::GetBattery,
        CommandType::GetHeight,
        CommandType::GetFrontRange,
        CommandType::GetBottomRange,
        CommandType::GetFrontColor,
        CommandType::GetBackColor,
        CommandType::GetTemperature,
        CommandType::GetDistance,
        CommandType::FuncDef,
        CommandType::FuncCall,
        CommandType::ReturnVal,
        CommandType::ListDeclare,
        CommandType::ListAppend,
        CommandType::ListGet,
        CommandType::UserInput,
        CommandType::TimerStart,
        CommandType::TimerElapsed,
    ]
}

/// The place of each command type in `command_order`.
pub open spec fn command_index(t: CommandType) -> int {
    match t {
        CommandType::Takeoff => 0,
        CommandType::Land => 1,
        CommandType::EmergencyStop => 2,
        CommandType::StopMotors => 3,
        CommandType::Hover => 4,
        CommandType::Flip => 5,
        CommandType::Go => 6,
        CommandType::MoveForward => 7,
        CommandType::MoveBackward => 8,
        CommandType::MoveLeft => 9,
        CommandType::MoveRight => 10,
        CommandType::TurnLeft => 11,
        CommandType::TurnRight => 12,
        CommandType::TurnDegree => 13,
        CommandType::Circle => 14,
        CommandType::CircleTurn => 15,
        CommandType::Square => 16,
        CommandType::SquareTurn => 17,
        CommandType::Triangle => 18,
        CommandType::TriangleTurn => 19,
        CommandType::Spiral => 20,
        CommandType::Sway => 21,
        CommandType::KeepDistance => 22,
        CommandType::AvoidWall => 23,
        CommandType::DetectWall => 24,
        CommandType::Led => 25,
        CommandType::LedOff => 26,
        CommandType::RandomLed => 27,
        CommandType::Buzzer => 28,
        CommandType::TimeSleep => 29,
        CommandType::DroneSleep => 30,
        CommandType::VarDeclare => 31,
        CommandType::SetVar => 32,
        CommandType::PrintVar => 33,
        CommandType::IfBlock => 34,
        CommandType::ElifBlock => 35,
        CommandType::ElseBlock => 36,
        CommandType::EndBlock => 37,
        CommandType::WhileBlock => 38,
        CommandType::ForBlock => 39,
        CommandType::BreakCmd => 40,
        CommandType::GetBattery => 41,
        CommandType::GetHeight => 42,
        CommandType::GetFrontRange => 43,
        CommandType::GetBottomRange => 44,
        CommandType::GetFrontColor => 45,
        CommandType::GetBackColor => 46,
        CommandType::GetTemperature => 47,
        CommandType::GetDistance => 48,
        CommandType::FuncDef => 49,
        CommandType::FuncCall => 50,
        CommandType::ReturnVal => 51,
        CommandType::ListDeclare => 52,
        CommandType::ListAppend => 53,
        CommandType::ListGet => 54,
        CommandType::UserInput => 55,
        CommandType::TimerStart => 56,
        CommandType::TimerElapsed => 57,
    }
}

proof fn lemma_command_row(t: CommandType)
    ensures
        command_row(t).1 == t,
        command_row(t).3 == opens_block(t),
        keys_distinct(command_row(t).2),
        select_defaults_listed(command_row(t).2),
{
    match t {
        CommandType::Takeoff => {},
        CommandType::Land => {},
        CommandType::EmergencyStop => {},
        CommandType::StopMotors => {},
        CommandType::Hover => { lemma_hover_param_rows() },
        CommandType::Flip => { lemma_flip_param_rows() },
        CommandType::Go => { lemma_go_param_rows() },
        CommandType::MoveForward => { lemma_move_param_rows() },
        CommandType::MoveBackward => { lemma_move_param_rows() },
        CommandType::MoveLeft => { lemma_move_param_rows() },
        CommandType::MoveRight => { lemma_move_param_rows() },
        CommandType::TurnLeft => { lemma_turn_param_rows() },
        CommandType::TurnRight => { lemma_turn_param_rows() },
        CommandType::TurnDegree => { lemma_turn_degree_param_rows() },
        CommandType::Circle => { lemma_circle_param_rows() },
        CommandType::CircleTurn => { lemma_circle_turn_param_rows() },
        CommandType::Square => { lemma_square_param_rows() },
        CommandType::SquareTurn => { lemma_square_param_rows() },
        CommandType::Triangle => { lemma_triangle_param_rows() },
        CommandType::TriangleTurn => { lemma_triangle_param_rows() },
        CommandType::Spiral => { lemma_spiral_param_rows() },
        CommandType::Sway => { lemma_sway_param_rows() },
        CommandType::KeepDistance => { lemma_range_param_rows() },
        CommandType::AvoidWall => { lemma_range_param_rows() },
        CommandType::DetectWall => { lemma_detect_wall_param_rows() },
        CommandType::Led => { lemma_led_param_rows() },
        CommandType::LedOff => {},
        CommandType::RandomLed => {},
        CommandType::Buzzer => { lemma_buzzer_param_rows() },
        CommandType::TimeSleep => { lemma_time_sleep_param_rows() },
        CommandType::DroneSleep => { lemma_drone_sleep_param_rows() },
        CommandType::VarDeclare => { lemma_var_declare_param_rows() },
        CommandType::SetVar => { lemma_set_var_param_rows() },
        CommandType::PrintVar => { lemma_print_var_param_rows() },
        CommandType::IfBlock => { lemma_if_param_rows() },
        CommandType::ElifBlock => { lemma_elif_param_rows() },
        CommandType::ElseBlock => {},
        CommandType::EndBlock => {},
        CommandType::WhileBlock => { lemma_while_param_rows() },
        CommandType::ForBlock => { lemma_for_param_rows() },
        CommandType::BreakCmd => {},
        CommandType::GetBattery => { lemma_battery_param_rows() },
        CommandType::GetHeight => { lemma_height_param_rows() },
        CommandType::GetFrontRange => { lemma_front_range_param_rows() },
        CommandType::GetBottomRange => { lemma_bottom_range_param_rows() },
        CommandType::GetFrontColor => { lemma_front_color_param_rows() },
        CommandType::GetBackColor => { lemma_back_color_param_rows() },
        CommandType::GetTemperature => { lemma_temperature_param_rows() },
        CommandType::GetDistance => { lemma_distance_param_rows() },
        CommandType::FuncDef => { lemma_func_def_param_rows() },
        CommandType::FuncCall => { lemma_func_call_param_rows() },
        CommandType::ReturnVal => { lemma_return_val_param_rows() },
        CommandType::ListDeclare => { lemma_list_declare_param_rows() },
        CommandType::ListAppend => { lemma_list_append_param_rows() },
        CommandType::ListGet => { lemma_list_get_param_rows() },
        CommandType::UserInput => { lemma_user_input_param_rows() },
        CommandType::TimerStart => { lemma_timer_start_param_rows() },
        CommandType::TimerElapsed => { lemma_timer_elapsed_param_rows() },
    }
}

/// The entry of a command type.
pub fn command_spec(t: CommandType) -> (c: CommandSpec)
    ensures
        spec_view(c) == command_row(t),
{
    match t {
        CommandType::Takeoff => CommandSpec { label: "Takeoff", command_type: CommandType::Takeoff, params: no_params(), is_block: false, template: Template::Takeoff },
        CommandType::Land => CommandSpec { label: "Land", command_type: CommandType::Land, params: no_params(), is_block: false, template: Template::Land },
        CommandType::EmergencyStop => CommandSpec { label: "Emergency Stop", command_type: CommandType::EmergencyStop, params: no_params(), is_block: false, template: Template::EmergencyStop },
        CommandType::StopMotors => CommandSpec { label: "Stop Motors", command_type: CommandType::StopMotors, params: no_params(), is_block: false, template: Template::StopMotors },
        CommandType::Hover => CommandSpec { label: "Hover", command_type: CommandType::Hover, params: hover_params(), is_block: false, template: Template::Hover },
        CommandType::Flip => CommandSpec { label: "Flip", command_type: CommandType::Flip, params: flip_params(), is_block: false, template: Template::Flip },
        CommandType::Go => CommandSpec { label: "Go", command_type: CommandType::Go, params: go_params(), is_block: false, template: Template::Go },
        CommandType::MoveForward => CommandSpec { label: "Forward", command_type: CommandType::MoveForward, params: move_params(), is_block: false, template: Template::MoveForward },
        CommandType::MoveBackward => CommandSpec { label: "Back", command_type: CommandType::MoveBackward, params: move_params(), is_block: false, template: Template::MoveBackward },
        CommandType::MoveLeft => CommandSpec { label: "Left", command_type: CommandType::MoveLeft, params: move_params(), is_block: false, template: Template::MoveLeft },
        CommandType::MoveRight => CommandSpec { label: "Right", command_type: CommandType::MoveRight, params: move_params(), is_block: false, template: Template::MoveRight },
        CommandType::TurnLeft => CommandSpec { label: "Turn Left", command_type: CommandType::TurnLeft, params: turn_params(), is_block: false, template: Template::TurnLeft },
        CommandType::TurnRight => CommandSpec { label: "Turn Right", command_type: CommandType::TurnRight, params: turn_params(), is_block: false, template: Template::TurnRight },
        CommandType::TurnDegree => CommandSpec { label: "Turn", command_type: CommandType::TurnDegree, params: turn_degree_params(), is_block: false, template: Template::TurnDegree },
        CommandType::Circle => CommandSpec { label: "Circle", command_type: CommandType::Circle, params: circle_params(), is_block: false, template: Template::Circle },
        CommandType::CircleTurn => CommandSpec { label: "Circle Turn", command_type: CommandType::CircleTurn, params: circle_turn_params(), is_block: false, template: Template::CircleTurn },
        CommandType::Square => CommandSpec { label: "Square", command_type: CommandType::Square, params: square_params(), is_block: false, template: Template::Square },
        CommandType::SquareTurn => CommandSpec { label: "Square Turn", command_type: CommandType::SquareTurn, params: square_params(), is_block: false, template: Template::Square },
        CommandType::Triangle => CommandSpec { label: "Triangle", command_type: CommandType::Triangle, params: triangle_params(), is_block: false, template: Template::Triangle },
        CommandType::TriangleTurn => CommandSpec { label: "Triangle Turn", command_type: CommandType::TriangleTurn, params: triangle_params(), is_block: false, template: Template::TriangleTurn },
        CommandType::Spiral => CommandSpec { label: "Spiral", command_type: CommandType::Spiral, params: spiral_params(), is_block: false, template: Template::Spiral },
        CommandType::Sway => CommandSpec { label: "Sway", command_type: CommandType::Sway, params: sway_params(), is_block: false, template: Template::Sway },
        CommandType::KeepDistance => CommandSpec { label: "Keep Distance", command_type: CommandType::KeepDistance, params: range_params(), is_block: false, template: Template::KeepDistance },
        CommandType::AvoidWall => CommandSpec { label: "Avoid Wall", command_type: CommandType::AvoidWall, params: range_params(), is_block: false, template: Template::AvoidWall },
        CommandType::DetectWall => CommandSpec { label: "Detect Wall", command_type: CommandType::DetectWall, params: detect_wall_params(), is_block: false, template: Template::DetectWall },
        CommandType::Led => CommandSpec { label: "LED", command_type: CommandType::Led, params: led_params(), is_block: false, template: Template::Led },
        CommandType::LedOff => CommandSpec { label: "LED Off", command_type: CommandType::LedOff, params: no_params(), is_block: false, template: Template::LedOff },
        CommandType::RandomLed => CommandSpec { label: "Random LED", command_type: CommandType::RandomLed, params: no_params(), is_block: false, template: Template::RandomLed },
        CommandType::Buzzer => CommandSpec { label: "Buzzer", command_type: CommandType::Buzzer, params: buzzer_params(), is_block: false, template: Template::Buzzer },
        CommandType::TimeSleep => CommandSpec { label: "Sleep", command_type: CommandType::TimeSleep, params: time_sleep_params(), is_block: false, template: Template::Sleep },
        CommandType::DroneSleep => CommandSpec { label: "Sleep", command_type: CommandType::DroneSleep, params: drone_sleep_params(), is_block: false, template: Template::Sleep },
        CommandType::VarDeclare => CommandSpec { label: "Var", command_type: CommandType::VarDeclare, params: var_declare_params(), is_block: false, template: Template::VarDeclare },
        CommandType::SetVar => CommandSpec { label: "Set", command_type: CommandType::SetVar, params: set_var_params(), is_block: false, template: Template::SetVar },
        CommandType::PrintVar => CommandSpec { label: "Print", command_type: CommandType::PrintVar, params: print_var_params(), is_block: false, template: Template::PrintVar },
        CommandType::IfBlock => CommandSpec { label: "If", command_type: CommandType::IfBlock, params: if_params(), is_block: true, template: Template::Blank },
        CommandType::ElifBlock => CommandSpec { label: "Elif", command_type: CommandType::ElifBlock, params: elif_params(), is_block: true, template: Template::Blank },
        CommandType::ElseBlock => CommandSpec { label: "Else", command_type: CommandType::ElseBlock, params: no_params(), is_block: true, template: Template::Blank },
        CommandType::EndBlock => CommandSpec { label: "End", command_type: CommandType::EndBlock, params: no_params(), is_block: false, template: Template::Blank },
        CommandType::WhileBlock => CommandSpec { label: "While", command_type: CommandType::WhileBlock, params: while_params(), is_block: true, template: Template::Blank },
        CommandType::ForBlock => CommandSpec { label: "For Loop", command_type: CommandType::ForBlock, params: for_params(), is_block: true, template: Template::Blank },
        CommandType::BreakCmd => CommandSpec { label: "Break", command_type: CommandType::BreakCmd, params: no_params(), is_block: false, template: Template::Break },
        CommandType::GetBattery => CommandSpec { label: "Battery", command_type: CommandType::GetBattery, params: battery_params(), is_block: false, template: Template::GetBattery },
        CommandType::GetHeight => CommandSpec { label: "Height", command_type: CommandType::GetHeight, params: height_params(), is_block: false, template: Template::GetHeight },
        CommandType::GetFrontRange => CommandSpec { label: "Front Range", command_type: CommandType::GetFrontRange, params: front_range_params(), is_block: false, template: Template::GetFrontRange },
        CommandType::GetBottomRange => CommandSpec { label: "Bottom Range", command_type: CommandType::GetBottomRange, params: bottom_range_params(), is_block: false, template: Template::GetBottomRange },
        CommandType::GetFrontColor => CommandSpec { label: "Front Color", command_type: CommandType::GetFrontColor, params: front_color_params(), is_block: false, template: Template::GetFrontColor },
        CommandType::GetBackColor => CommandSpec { label: "Back Color", command_type: CommandType::GetBackColor, params: back_color_params(), is_block: false, template: Template::GetBackColor },
        CommandType::GetTemperature => CommandSpec { label: "Temperature", command_type: CommandType::GetTemperature, params: temperature_params(), is_block: false, template: Template::GetTemperature },
        CommandType::GetDistance => CommandSpec { label: "Distance", command_type: CommandType::GetDistance, params: distance_params(), is_block: false, template: Template::GetDistance },
        CommandType::FuncDef => CommandSpec { label: "Define Func", command_type: CommandType::FuncDef, params: func_def_params(), is_block: true, template: Template::Blank },
        CommandType::FuncCall => CommandSpec { label: "Call Func", command_type: CommandType::FuncCall, params: func_call_params(), is_block: false, template: Template::FuncCall },
        CommandType::ReturnVal => CommandSpec { label: "Return", command_type: CommandType::ReturnVal, params: return_val_params(), is_block: false, template: Template::ReturnVal },
        CommandType::ListDeclare => CommandSpec { label: "New List", command_type: CommandType::ListDeclare, params: list_declare_params(), is_block: false, template: Template::ListDeclare },
        CommandType::ListAppend => CommandSpec { label: "Append", command_type: CommandType::ListAppend, params: list_append_params(), is_block: false, template: Template::ListAppend },
        CommandType::ListGet => CommandSpec { label: "Get Index", command_type: CommandType::ListGet, params: list_get_params(), is_block: false, template: Template::ListGet },
        CommandType::UserInput => CommandSpec { label: "Input", command_type: CommandType::UserInput, params: user_input_params(), is_block: false, template: Template::UserInput },
        CommandType::TimerStart => CommandSpec { label: "Start Timer", command_type: CommandType::TimerStart, params: timer_start_params(), is_block: false, template: Template::TimerStart },
        CommandType::TimerElapsed => CommandSpec { label: "Get Elapsed", command_type: CommandType::TimerElapsed, params: timer_elapsed_params(), is_block: false, template: Template::TimerElapsed },
    }
}

/// The command types in table order.
#[verifier::rlimit(100)]
pub fn command_types() -> (v: Vec<CommandType>)
    ensures
        v@ == command_order(),
{
    let mut v: Vec<CommandType> = Vec::new();
    v.push(CommandType::Takeoff);
    v.push(CommandType::Land);
    v.push(CommandType::EmergencyStop);
    v.push(CommandType::StopMotors);
    v.push(CommandType::Hover);
    v.push(CommandType::Flip);
    v.push(CommandType::Go);
    v.push(CommandType::MoveForward);
    v.push(CommandType::MoveBackward);
    v.push(CommandType::MoveLeft);
    v.push(CommandType::MoveRight);
    v.push(CommandType::TurnLeft);
    v.push(CommandType::TurnRight);
    v.push(CommandType::TurnDegree);
    v.push(CommandType::Circle);
    v.push(CommandType::CircleTurn);
    v.push(CommandType::Square);
    v.push(CommandType::SquareTurn);
    v.push(CommandType::Triangle);
    v.push(CommandType::TriangleTurn);
    v.push(CommandType::Spiral);
    v.push(CommandType::Sway);
    v.push(CommandType::KeepDistance);
    v.push(CommandType::AvoidWall);
    v.push(CommandType::DetectWall);
    v.push(CommandType::Led);
    v.push(CommandType::LedOff);
    v.push(CommandType::RandomLed);
    v.push(CommandType::Buzzer);
    v.push(CommandType::TimeSleep);
    v.push(CommandType::DroneSleep);
    v.push(CommandType::VarDeclare);
    v.push(CommandType::SetVar);
    v.push(CommandType::PrintVar);
    v.push(CommandType::IfBlock);
    v.push(CommandType::ElifBlock);
    v.push(CommandType::ElseBlock);
    v.push(CommandType::EndBlock);
    v.push(CommandType::WhileBlock);
    v.push(CommandType::ForBlock);
    v.push(CommandType::BreakCmd);
    v.push(CommandType::GetBattery);
    v.push(CommandType::GetHeight);
    v.push(CommandType::GetFrontRange);
    v.push(CommandType::GetBottomRange);
    v.push(CommandType::GetFrontColor);
    v.push(CommandType::GetBackColor);
    v.push(CommandType::GetTemperature);
    v.push(CommandType::GetDistance);
    v.push(CommandType::FuncDef);
    v.push(CommandType::FuncCall);
    v.push(CommandType::ReturnVal);
    v.push(CommandType::ListDeclare);
    v.push(CommandType::ListAppend);
    v.push(CommandType::ListGet);
    v.push(CommandType::UserInput);
    v.push(CommandType::TimerStart);
    v.push(CommandType::TimerElapsed);
    assert(v@ =~= command_order());
    v
}

/// Each command type stands once in the table order, at `command_index`.
pub proof fn law_command_order_each_once(t: CommandType, i: int)
    ensures
        command_order().len() == 58,
        0 <= command_index(t) < 58,
        command_order()[command_index(t)] == t,
        0 <= i < 58 && command_order()[i] == t ==> i == command_index(t),
{
    let o = command_order();
    assert(command_index(o[0]) == 0);
    assert(command_index(o[1]) == 1);
    assert(command_index(o[2]) == 2);
    assert(command_index(o[3]) == 3);
    assert(command_index(o[4]) == 4);
    assert(command_index(o[5]) == 5);
    assert(command_index(o[6]) == 6);
    assert(command_index(o[7]) == 7);
    assert(command_index(o[8]) == 8);
    assert(command_index(o[9]) == 9);
    assert(command_index(o[10]) == 10);
    assert(command_index(o[11]) == 11);
    assert(command_index(o[12]) == 12);
    assert(command_index(o[13]) == 13);
    assert(command_index(o[14]) == 14);
    assert(command_index(o[15]) == 15);
    assert(command_index(o[16]) == 16);
    assert(command_index(o[17]) == 17);
    assert(command_index(o[18]) == 18);
    assert(command_index(o[19]) == 19);
    assert(command_index(o[20]) == 20);
    assert(command_index(o[21]) == 21);
    assert(command_index(o[22]) == 22);
    assert(command_index(o[23]) == 23);
    assert(command_index(o[24]) == 24);
    assert(command_index(o[25]) == 25);
    assert(command_index(o[26]) == 26);
    assert(command_index(o[27]) == 27);
    assert(command_index(o[28]) == 28);
    assert(command_index(o[29]) == 29);
    assert(command_index(o[30]) == 30);
    assert(command_index(o[31]) == 31);
    assert(command_index(o[32]) == 32);
    assert(command_index(o[33]) == 33);
    assert(command_index(o[34]) == 34);
    assert(command_index(o[35]) == 35);
    assert(command_index(o[36]) == 36);
    assert(command_index(o[37]) == 37);
    assert(command_index(o[38]) == 38);
    assert(command_index(o[39]) == 39);
    assert(command_index(o[40]) == 40);
    assert(command_index(o[41]) == 41);
    assert(command_index(o[42]) == 42);
    assert(command_index(o[43]) == 43);
    assert(command_index(o[44]) == 44);
    assert(command_index(o[45]) == 45);
    assert(command_index(o[46]) == 46);
    assert(command_index(o[47]) == 47);
    assert(command_index(o[48]) == 48);
    assert(command_index(o[49]) == 49);
    assert(command_index(o[50]) == 50);
    assert(command_index(o[51]) == 51);
    assert(command_index(o[52]) == 52);
    assert(command_index(o[53]) == 53);
    assert(command_index(o[54]) == 54);
    assert(command_index(o[55]) == 55);
    assert(command_index(o[56]) == 56);
    assert(command_index(o[57]) == 57);
    match t {
        CommandType::Takeoff => assert(o[0] == t),
        CommandType::Land => assert(o[1] == t),
        CommandType::EmergencyStop => assert(o[2] == t),
        CommandType::StopMotors => assert(o[3] == t),
        CommandType::Hover => assert(o[4] == t),
        CommandType::Flip => assert(o[5] == t),
        CommandType::Go => assert(o[6] == t),
        CommandType::MoveForward => assert(o[7] == t),
        CommandType::MoveBackward => assert(o[8] == t),
        CommandType::MoveLeft => assert(o[9] == t),
        CommandType::MoveRight => assert(o[10] == t),
        CommandType::TurnLeft => assert(o[11] == t),
        CommandType::TurnRight => assert(o[12] == t),
        CommandType::TurnDegree => assert(o[13] == t),
        CommandType::Circle => assert(o[14] == t),
        CommandType::CircleTurn => assert(o[15] == t),
        CommandType::Square => assert(o[16] == t),
        CommandType::SquareTurn => assert(o[17] == t),
        CommandType::Triangle => assert(o[18] == t),
        CommandType::TriangleTurn => assert(o[19] == t),
        CommandType::Spiral => assert(o[20] == t),
        CommandType::Sway => assert(o[21] == t),
        CommandType::KeepDistance => assert(o[22] == t),
        CommandType::AvoidWall => assert(o[23] == t),
        CommandType::DetectWall => assert(o[24] == t),
        CommandType::Led => assert(o[25] == t),
        CommandType::LedOff => assert(o[26] == t),
        CommandType::RandomLed => assert(o[27] == t),
        CommandType::Buzzer => assert(o[28] == t),
        CommandType::TimeSleep => assert(o[29] == t),
        CommandType::DroneSleep => assert(o[30] == t),
        CommandType::VarDeclare => assert(o[31] == t),
        CommandType::SetVar => assert(o[32] == t),
        CommandType::PrintVar => assert(o[33] == t),
        CommandType::IfBlock => assert(o[34] == t),
        CommandType::ElifBlock => assert(o[35] == t),
        CommandType::ElseBlock => assert(o[36] == t),
        CommandType::EndBlock => assert(o[37] == t),
        CommandType::WhileBlock => assert(o[38] == t),
        CommandType::ForBlock => assert(o[39] == t),
        CommandType::BreakCmd => assert(o[40] == t),
        CommandType::GetBattery => assert(o[41] == t),
        CommandType::GetHeight => assert(o[42] == t),
        CommandType::GetFrontRange => assert(o[43] == t),
        CommandType::GetBottomRange => assert(o[44] == t),
        CommandType::GetFrontColor => assert(o[45] == t),
        CommandType::GetBackColor => assert(o[46] == t),
        CommandType::GetTemperature => assert(o[47] == t),
        CommandType::GetDistance => assert(o[48] == t),
        CommandType::FuncDef => assert(o[49] == t),
        CommandType::FuncCall => assert(o[50] == t),
        CommandType::ReturnVal => assert(o[51] == t),
        CommandType::ListDeclare => assert(o[52] == t),
        CommandType::ListAppend => assert(o[53] == t),
        CommandType::ListGet => assert(o[54] == t),
        CommandType::UserInput => assert(o[55] == t),
        CommandType::TimerStart => assert(o[56] == t),
        CommandType::TimerElapsed => assert(o[57] == t),
    }
}

/// The editor's table of command types: each type once, in table order,
/// with its label, parameters, block flag and template.
pub fn command_specs() -> (defs: Vec<CommandSpec>)
    ensures
        defs@.len() == 58,
        forall|i: int| 0 <= i < 58 ==> (#[trigger] defs@[i]).command_type == command_order()[i],
        forall|i: int| 0 <= i < 58 ==> spec_view(#[trigger] defs@[i]) == command_row(command_order()[i]),
        forall|i: int| 0 <= i < 58 ==> (#[trigger] defs@[i]).is_block == opens_block(defs@[i].command_type),
        forall|i: int| 0 <= i < 58 ==> keys_distinct(params_view((#[trigger] defs@[i]).params@)),
        forall|i: int| 0 <= i < 58 ==> select_defaults_listed(params_view((#[trigger] defs@[i]).params@)),
{
    let types = command_types();
    proof {
        law_command_order_each_once(CommandType::Takeoff, 0);
    }
    let mut defs: Vec<CommandSpec> = Vec::new();
    let mut i: usize = 0;
    while i < types.len()
        invariant
            i <= types.len(),
            types@ == command_order(),
            types.len() == 58,
            defs@.len() == i,
            forall|k: int| 0 <= k < i ==> spec_view(#[trigger] defs@[k]) == command_row(command_order()[k]),
        decreases types.len() - i,
    {
        let c = command_spec(types[i]);
        defs.push(c);
        i += 1;
    }
    assert forall|k: int| 0 <= k < 58 implies (#[trigger] defs@[k]).command_type == command_order()[k]
        && defs@[k].is_block == opens_block(defs@[k].command_type)
        && keys_distinct(params_view(defs@[k].params@))
        && select_defaults_listed(params_view(defs@[k].params@)) by {
        assert(spec_view(defs@[k]) == command_row(command_order()[k]));
        lemma_command_row(command_order()[k]);
    }
    defs
}

} // verus!

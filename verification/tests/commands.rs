use planner_core::commands::{
    command_spec, command_specs, command_types, led_rgb, sway_dir_int, CommandType, ParamKind,
    Template,
};
use std::collections::BTreeSet;

const ALL: [CommandType; 58] = [
    CommandType::Takeoff,
    CommandType::Land,
    CommandType::EmergencyStop,
    CommandType::StopMotors,
    CommandType::Hover,
    CommandType::Flip,
    CommandType::Go,
    CommandType::MoveForward,
    CommandType::MoveBackward,
    CommandType::MoveLeft,
    CommandType::MoveRight,
    CommandType::TurnLeft,
    CommandType::TurnRight,
    CommandType::TurnDegree,
    CommandType::Circle,
    CommandType::CircleTurn,
    CommandType::Square,
    CommandType::SquareTurn,
    CommandType::Triangle,
    CommandType::TriangleTurn,
    CommandType::Spiral,
    CommandType::Sway,
    CommandType::KeepDistance,
    CommandType::AvoidWall,
    CommandType::DetectWall,
    CommandType::Led,
    CommandType::LedOff,
    CommandType::RandomLed,
    CommandType::Buzzer,
    CommandType::TimeSleep,
    CommandType::DroneSleep,
    CommandType::VarDeclare,
    CommandType::SetVar,
    CommandType::PrintVar,
    CommandType::IfBlock,
    CommandType::ElifBlock,
    CommandType::ElseBlock,
    CommandType::EndBlock,
    CommandType::WhileBlock,
    CommandType::ForBlock,
    CommandType::BreakCmd,
    CommandType::GetBattery,
    CommandType::GetHeight,
    CommandType::GetFrontRange,
    CommandType::GetBottomRange,
    CommandType::GetFrontColor,
    CommandType::GetBackColor,
    CommandType::GetTemperature,
    CommandType::GetDistance,
    CommandType::FuncDef,
    CommandType::FuncCall,
    CommandType::ReturnVal,
    CommandType::ListDeclare,
    CommandType::ListAppend,
    CommandType::ListGet,
    CommandType::UserInput,
    CommandType::TimerStart,
    CommandType::TimerElapsed,
];

const NAMES: [&str; 58] = [
    "takeoff",
    "land",
    "emergency_stop",
    "stop_motors",
    "hover",
    "flip",
    "go",
    "move_forward",
    "move_backward",
    "move_left",
    "move_right",
    "turn_left",
    "turn_right",
    "turn_degree",
    "circle",
    "circle_turn",
    "square",
    "square_turn",
    "triangle",
    "triangle_turn",
    "spiral",
    "sway",
    "keep_distance",
    "avoid_wall",
    "detect_wall",
    "led",
    "led_off",
    "random_led",
    "buzzer",
    "time_sleep",
    "drone_sleep",
    "var_declare",
    "set_var",
    "print_var",
    "if_block",
    "elif_block",
    "else_block",
    "end_block",
    "while_block",
    "for_block",
    "break_cmd",
    "get_battery",
    "get_height",
    "get_front_range",
    "get_bottom_range",
    "get_front_color",
    "get_back_color",
    "get_temperature",
    "get_distance",
    "func_def",
    "func_call",
    "return_val",
    "list_declare",
    "list_append",
    "list_get",
    "user_input",
    "timer_start",
    "timer_elapsed",
];

#[test]
fn command_types_have_fixture_names() {
    for (t, name) in ALL.iter().zip(NAMES.iter()) {
        assert_eq!(t.as_str(), *name);
    }
}

#[test]
fn command_names_are_distinct() {
    let names: BTreeSet<&str> = ALL.iter().map(|t| t.as_str()).collect();
    assert_eq!(names.len(), 58);
}

#[test]
fn block_commands() {
    let blocks: Vec<&str> = ALL.iter().filter(|t| t.is_block()).map(|t| t.as_str()).collect();
    assert_eq!(
        blocks,
        vec!["if_block", "elif_block", "else_block", "while_block", "for_block", "func_def"]
    );
    assert!(!CommandType::EndBlock.is_block());
    assert!(!CommandType::BreakCmd.is_block());
}

#[test]
fn led_colours() {
    assert_eq!(led_rgb("red"), (255, 0, 0));
    assert_eq!(led_rgb("purple"), (128, 0, 255));
    assert_eq!(led_rgb("orange"), (255, 165, 0));
    assert_eq!(led_rgb("pink"), (255, 192, 203));
    assert_eq!(led_rgb("white"), (255, 255, 255));
    assert_eq!(led_rgb("Red"), (0, 255, 0));
    assert_eq!(led_rgb(""), (0, 255, 0));
}

#[test]
fn sway_directions() {
    assert_eq!(sway_dir_int("forward-back"), 1);
    assert_eq!(sway_dir_int("roll-left"), 1);
    assert_eq!(sway_dir_int("turn-right"), -1);
    assert_eq!(sway_dir_int("pitch-backward"), -1);
    assert_eq!(sway_dir_int("roll-right"), -1);
    assert_eq!(sway_dir_int("sideways"), 1);
}

#[test]
fn command_table_order_and_blocks() {
    let specs = command_specs();
    assert_eq!(specs.len(), 58);
    let types = command_types();
    for (i, spec) in specs.iter().enumerate() {
        assert_eq!(spec.command_type, types[i]);
        assert_eq!(spec.is_block, spec.command_type.is_block());
        assert_eq!(specs.iter().filter(|other| other.command_type == spec.command_type).count(), 1);
        for (j, p) in spec.params.iter().enumerate() {
            assert!(spec.params[j + 1..].iter().all(|q| q.key != p.key));
            if p.kind == ParamKind::Select {
                assert!(p.options.contains(&p.default));
            }
        }
    }
    assert_eq!(specs[0].command_type.as_str(), "takeoff");
    assert_eq!(specs[57].command_type.as_str(), "timer_elapsed");
    let blocks: Vec<&str> = specs.iter().filter(|s| s.is_block).map(|s| s.label).collect();
    assert_eq!(blocks, ["If", "Elif", "Else", "While", "For Loop", "Define Func"]);
}

#[test]
fn command_table_rows() {
    let hover = command_spec(CommandType::Hover);
    assert_eq!(hover.label, "Hover");
    assert_eq!(hover.params.len(), 1);
    assert_eq!((hover.params[0].key, hover.params[0].default), ("dur", "1"));
    assert_eq!((hover.params[0].min, hover.params[0].max, hover.params[0].step), (Some("0.01"), Some("10"), None));
    let buzzer = command_spec(CommandType::Buzzer);
    assert_eq!(buzzer.params[1].step, Some("0.1"));
    assert_eq!(buzzer.params[1].default, "0.5");
    let flip = command_spec(CommandType::Flip);
    assert_eq!(flip.params[0].kind, ParamKind::Select);
    assert_eq!(flip.params[0].options, vec!["forward", "back", "left", "right"]);
    assert_eq!(flip.params[0].default, "back");
    let end = command_spec(CommandType::EndBlock);
    assert!(!end.is_block && end.params.is_empty() && end.template == Template::Blank);
    let for_loop = command_spec(CommandType::ForBlock);
    let keys: Vec<&str> = for_loop.params.iter().map(|p| p.key).collect();
    assert_eq!(keys, ["var", "start", "end_val", "step"]);
    assert_eq!(command_spec(CommandType::DroneSleep).label, "Sleep");
}

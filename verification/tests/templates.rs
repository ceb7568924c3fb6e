use planner_core::codegen::template_code;
use planner_core::commands::{command_spec, CommandType, Template};

fn params(list: &[(&str, &str)]) -> Vec<(String, String)> {
    list.iter().map(|(k, v)| (k.to_string(), v.to_string())).collect()
}

/// The line of a command type through its entry's template.
fn code_for(t: CommandType, p: &Vec<(String, String)>) -> Option<String> {
    template_code(command_spec(t).template, p)
}

#[test]
fn code_templates_match_golden_strings() {
    let empty: Vec<(String, String)> = Vec::new();
    assert_eq!(code_for(CommandType::Takeoff, &empty), Some("drone.takeoff()".to_string()));
    assert_eq!(code_for(CommandType::Land, &empty), Some("drone.land()".to_string()));
    assert_eq!(code_for(CommandType::EmergencyStop, &empty), Some("drone.emergency_stop()".to_string()));
    assert_eq!(code_for(CommandType::StopMotors, &empty), Some("drone.stop_motors()".to_string()));
    assert_eq!(code_for(CommandType::LedOff, &empty), Some("drone.drone_LED_off()".to_string()));
    assert_eq!(code_for(CommandType::RandomLed, &empty), Some("drone.set_drone_LED(0, 255, 128, 100)".to_string()));
    assert_eq!(code_for(CommandType::EndBlock, &empty), Some("".to_string()));
    assert_eq!(code_for(CommandType::BreakCmd, &empty), Some("break".to_string()));
    assert_eq!(code_for(CommandType::IfBlock, &empty), Some("".to_string()));
    assert_eq!(code_for(CommandType::ElifBlock, &empty), Some("".to_string()));
    assert_eq!(code_for(CommandType::ElseBlock, &empty), Some("".to_string()));
    assert_eq!(code_for(CommandType::WhileBlock, &empty), Some("".to_string()));
    assert_eq!(code_for(CommandType::ForBlock, &empty), Some("".to_string()));
    assert_eq!(code_for(CommandType::FuncDef, &empty), Some("".to_string()));
    assert_eq!(code_for(CommandType::Hover, &params(&[("dur", "2")])), Some("drone.hover(2)".to_string()));
    assert_eq!(code_for(CommandType::Hover, &params(&[("dur", "1")])), Some("drone.hover(1)".to_string()));
    assert_eq!(code_for(CommandType::Flip, &params(&[("dir", "back")])), Some("drone.flip(\"back\")".to_string()));
    assert_eq!(code_for(CommandType::Go, &params(&[("dir", "forward"), ("power", "60"), ("dur", "1")])), Some("drone.go(\"forward\", 60, 1)".to_string()));
    // "drone.move_forward(50, speed=1.0)" is computed in floating point.
    assert_eq!(code_for(CommandType::MoveForward, &params(&[("dist", "50"), ("speed", "50")])), None);
    // "drone.move_left(40, speed=1.2)" is computed in floating point.
    assert_eq!(code_for(CommandType::MoveLeft, &params(&[("dist", "40"), ("speed", "60")])), None);
    // "drone.move_forward(200, speed=1.5)" is computed in floating point.
    assert_eq!(code_for(CommandType::MoveForward, &params(&[("dist", "200"), ("speed", "75")])), None);
    // "drone.move_forward(30, speed=0.8)" is computed in floating point.
    assert_eq!(code_for(CommandType::MoveForward, &params(&[("dist", "30"), ("speed", "40")])), None);
    // "drone.move_backward(40, speed=1.2)" is computed in floating point.
    assert_eq!(code_for(CommandType::MoveBackward, &params(&[("dist", "40"), ("speed", "60")])), None);
    assert_eq!(code_for(CommandType::TurnLeft, &params(&[("deg", "45")])), Some("drone.turn_left(45)".to_string()));
    assert_eq!(code_for(CommandType::TurnDegree, &params(&[("deg", "135"), ("timeout", "3"), ("p_value", "10")])), Some("drone.turn_degree(135, timeout=3, p_value=10)".to_string()));
    assert_eq!(code_for(CommandType::Circle, &params(&[("speed", "75"), ("dir", "clockwise")])), Some("drone.circle(speed=75, direction=1)".to_string()));
    assert_eq!(code_for(CommandType::CircleTurn, &params(&[("speed", "75"), ("secs", "2"), ("dir", "counter-clockwise")])), Some("drone.circle_turn(speed=75, seconds=2, direction=-1)".to_string()));
    assert_eq!(code_for(CommandType::Square, &params(&[("speed", "60"), ("secs", "1"), ("dir", "clockwise")])), Some("drone.square(speed=60, seconds=1, direction=1)".to_string()));
    assert_eq!(code_for(CommandType::SquareTurn, &params(&[("speed", "75"), ("secs", "1"), ("dir", "counter-clockwise")])), Some("drone.square(speed=75, seconds=1, direction=-1)".to_string()));
    assert_eq!(code_for(CommandType::Triangle, &params(&[("speed", "60"), ("secs", "1"), ("dir", "clockwise")])), Some("drone.triangle(speed=60, seconds=1, direction=1)".to_string()));
    assert_eq!(code_for(CommandType::TriangleTurn, &params(&[("speed", "60"), ("secs", "2"), ("dir", "counter-clockwise")])), Some("drone.triangle_turn(speed=60, seconds=2, direction=-1)".to_string()));
    assert_eq!(code_for(CommandType::Spiral, &params(&[("speed", "50"), ("dir", "clockwise")])), Some("drone.spiral(speed=50, seconds=3, direction=1)".to_string()));
    assert_eq!(code_for(CommandType::Sway, &params(&[("speed", "50"), ("secs", "2"), ("dir", "turn-right")])), Some("drone.sway(speed=50, seconds=2, direction=-1)".to_string()));
    assert_eq!(code_for(CommandType::Sway, &params(&[("speed", "30"), ("secs", "1"), ("dir", "left-right")])), Some("drone.sway(speed=30, seconds=1, direction=1)".to_string()));
    assert_eq!(code_for(CommandType::KeepDistance, &params(&[("dist", "50"), ("speed", "50")])), Some("drone.keep_distance(2, 50)".to_string()));
    assert_eq!(code_for(CommandType::AvoidWall, &params(&[("dist", "70"), ("speed", "50")])), Some("drone.avoid_wall(2, 70)".to_string()));
    assert_eq!(code_for(CommandType::DetectWall, &params(&[("var", "det")])), Some("det = drone.detect_wall()".to_string()));
    assert_eq!(code_for(CommandType::Led, &params(&[("color", "green")])), Some("drone.set_drone_LED(0, 255, 0, 100)".to_string()));
    assert_eq!(code_for(CommandType::Led, &params(&[("color", "yellow")])), Some("drone.set_drone_LED(255, 255, 0, 100)".to_string()));
    assert_eq!(code_for(CommandType::Led, &params(&[("color", "purple")])), Some("drone.set_drone_LED(128, 0, 255, 100)".to_string()));
    assert_eq!(code_for(CommandType::Led, &params(&[("color", "off")])), Some("drone.drone_LED_off()".to_string()));
    // "drone.drone_buzzer(\"A4\", 0.5)" is computed in floating point.
    assert_eq!(code_for(CommandType::Buzzer, &params(&[("freq", "440"), ("dur", "0.5")])), None);
    // "drone.drone_buzzer(\"C5\", 0.2)" is computed in floating point.
    assert_eq!(code_for(CommandType::Buzzer, &params(&[("freq", "523"), ("dur", "0.2")])), None);
    assert_eq!(code_for(CommandType::TimeSleep, &params(&[("dur", "0.5")])), Some("time.sleep(0.5)".to_string()));
    assert_eq!(code_for(CommandType::DroneSleep, &params(&[("dur", "1")])), Some("time.sleep(1)".to_string()));
    assert_eq!(code_for(CommandType::VarDeclare, &params(&[("name", "x"), ("value", "3")])), Some("x = 3".to_string()));
    assert_eq!(code_for(CommandType::SetVar, &params(&[("name", "x"), ("op", "-="), ("value", "1")])), Some("x -= 1".to_string()));
    assert_eq!(code_for(CommandType::PrintVar, &params(&[("value", "v")])), Some("print(v)".to_string()));
    assert_eq!(code_for(CommandType::GetBattery, &params(&[("var", "battery")])), Some("battery = drone.get_battery()".to_string()));
    assert_eq!(code_for(CommandType::GetHeight, &params(&[("var", "h"), ("unit", "cm")])), Some("h = drone.get_height(unit=\"cm\")".to_string()));
    assert_eq!(code_for(CommandType::GetFrontRange, &params(&[("var", "fr"), ("unit", "cm")])), Some("fr = drone.get_front_range(unit=\"cm\")".to_string()));
    assert_eq!(code_for(CommandType::GetBottomRange, &params(&[("var", "br"), ("unit", "cm")])), Some("br = drone.get_bottom_range(unit=\"cm\")".to_string()));
    assert_eq!(code_for(CommandType::GetFrontColor, &params(&[("var", "fc"), ("kind", "name")])), Some("fc = drone.get_front_color(kind=\"name\")".to_string()));
    assert_eq!(code_for(CommandType::GetBackColor, &params(&[("var", "bc"), ("kind", "name")])), Some("bc = drone.get_back_color(kind=\"name\")".to_string()));
    assert_eq!(code_for(CommandType::GetTemperature, &params(&[("var", "t"), ("unit", "C")])), Some("t = drone.get_temperature(unit=\"C\")".to_string()));
    assert_eq!(code_for(CommandType::GetDistance, &params(&[("var", "dist")])), Some("dist = drone.get_front_range()".to_string()));
    assert_eq!(code_for(CommandType::FuncCall, &params(&[("name", "jig")])), Some("jig()".to_string()));
    assert_eq!(code_for(CommandType::ReturnVal, &params(&[("value", "0")])), Some("return 0".to_string()));
    assert_eq!(code_for(CommandType::ListDeclare, &params(&[("name", "L"), ("values", "1, 2, 3")])), Some("L = [1, 2, 3]".to_string()));
    assert_eq!(code_for(CommandType::ListAppend, &params(&[("name", "L"), ("value", "4")])), Some("L.append(4)".to_string()));
    assert_eq!(code_for(CommandType::ListGet, &params(&[("list_name", "L"), ("index", "2"), ("var", "v")])), Some("v = L[2]".to_string()));
    assert_eq!(code_for(CommandType::UserInput, &params(&[("var", "u"), ("prompt", "Enter value: ")])), Some("u = input(\"Enter value: \")".to_string()));
    assert_eq!(code_for(CommandType::TimerStart, &params(&[("name", "t")])), Some("t = time.time()".to_string()));
}

#[test]
fn move_and_buzzer_lines_are_left_to_floating_point() {
    assert_eq!(command_spec(CommandType::MoveForward).template, Template::MoveForward);
    assert_eq!(command_spec(CommandType::MoveRight).template, Template::MoveRight);
    assert_eq!(command_spec(CommandType::Buzzer).template, Template::Buzzer);
    assert_eq!(command_spec(CommandType::SquareTurn).template, Template::Square);
    assert_eq!(command_spec(CommandType::DroneSleep).template, Template::Sleep);
}

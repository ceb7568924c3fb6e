use planner_core::codegen::{
    avoid_wall_code, circle_code, circle_turn_code, detect_wall_code, flip_code, func_call_code,
    get_back_color_code, get_battery_code, get_bottom_range_code, get_distance_code,
    get_front_color_code, get_front_range_code, get_height_code, get_temperature_code, go_code,
    hover_code, keep_distance_code, led_code, list_append_code, list_declare_code, list_get_code,
    print_var_code, return_val_code, set_var_code, sleep_code, spiral_code, square_code, sway_code,
    timer_elapsed_code, timer_start_code, triangle_code, triangle_turn_code, turn_degree_code,
    turn_left_code, user_input_code, var_declare_code, ScriptParser,
};

fn params(list: &[(&str, &str)]) -> Vec<(String, String)> {
    list.iter().map(|(k, v)| (k.to_string(), v.to_string())).collect()
}

#[test]
fn template_functions_over_parameter_text() {
    assert_eq!(hover_code(&params(&[("dur", "2")])), "drone.hover(2)");
    assert_eq!(hover_code(&params(&[("dur", "1")])), "drone.hover(1)");
    assert_eq!(flip_code(&params(&[("dir", "back")])), "drone.flip(\"back\")");
    assert_eq!(
        go_code(&params(&[("dir", "forward"), ("power", "60"), ("dur", "1")])),
        "drone.go(\"forward\", 60, 1)"
    );
    assert_eq!(turn_left_code(&params(&[("deg", "45")])), "drone.turn_left(45)");
    assert_eq!(
        turn_degree_code(&params(&[("deg", "135"), ("timeout", "3"), ("p_value", "10")])),
        "drone.turn_degree(135, timeout=3, p_value=10)"
    );
    assert_eq!(
        circle_code(&params(&[("speed", "75"), ("dir", "clockwise")])),
        "drone.circle(speed=75, direction=1)"
    );
    assert_eq!(
        circle_turn_code(&params(&[("speed", "75"), ("secs", "2"), ("dir", "counter-clockwise")])),
        "drone.circle_turn(speed=75, seconds=2, direction=-1)"
    );
    assert_eq!(
        square_code(&params(&[("speed", "60"), ("secs", "1"), ("dir", "clockwise")])),
        "drone.square(speed=60, seconds=1, direction=1)"
    );
    assert_eq!(
        square_code(&params(&[("speed", "75"), ("secs", "1"), ("dir", "counter-clockwise")])),
        "drone.square(speed=75, seconds=1, direction=-1)"
    );
    assert_eq!(
        triangle_code(&params(&[("speed", "60"), ("secs", "1"), ("dir", "clockwise")])),
        "drone.triangle(speed=60, seconds=1, direction=1)"
    );
    assert_eq!(
        triangle_turn_code(&params(&[("speed", "60"), ("secs", "2"), ("dir", "counter-clockwise")])),
        "drone.triangle_turn(speed=60, seconds=2, direction=-1)"
    );
    assert_eq!(
        spiral_code(&params(&[("speed", "50"), ("dir", "clockwise")])),
        "drone.spiral(speed=50, seconds=3, direction=1)"
    );
    assert_eq!(
        sway_code(&params(&[("speed", "50"), ("secs", "2"), ("dir", "turn-right")])),
        "drone.sway(speed=50, seconds=2, direction=-1)"
    );
    assert_eq!(
        sway_code(&params(&[("speed", "30"), ("secs", "1"), ("dir", "left-right")])),
        "drone.sway(speed=30, seconds=1, direction=1)"
    );
    assert_eq!(
        keep_distance_code(&params(&[("dist", "50"), ("speed", "50")])),
        "drone.keep_distance(2, 50)"
    );
    assert_eq!(avoid_wall_code(&params(&[("dist", "70"), ("speed", "50")])), "drone.avoid_wall(2, 70)");
    assert_eq!(detect_wall_code(&params(&[("var", "det")])), "det = drone.detect_wall()");
    assert_eq!(led_code(&params(&[("color", "green")])), "drone.set_drone_LED(0, 255, 0, 100)");
    assert_eq!(led_code(&params(&[("color", "yellow")])), "drone.set_drone_LED(255, 255, 0, 100)");
    assert_eq!(led_code(&params(&[("color", "purple")])), "drone.set_drone_LED(128, 0, 255, 100)");
    assert_eq!(led_code(&params(&[("color", "off")])), "drone.drone_LED_off()");
    assert_eq!(sleep_code(&params(&[("dur", "0.5")])), "time.sleep(0.5)");
    assert_eq!(sleep_code(&params(&[("dur", "1")])), "time.sleep(1)");
    assert_eq!(var_declare_code(&params(&[("name", "x"), ("value", "3")])), "x = 3");
    assert_eq!(set_var_code(&params(&[("name", "x"), ("op", "-="), ("value", "1")])), "x -= 1");
    assert_eq!(print_var_code(&params(&[("value", "v")])), "print(v)");
    assert_eq!(get_battery_code(&params(&[("var", "battery")])), "battery = drone.get_battery()");
    assert_eq!(
        get_height_code(&params(&[("var", "h"), ("unit", "cm")])),
        "h = drone.get_height(unit=\"cm\")"
    );
    assert_eq!(
        get_front_range_code(&params(&[("var", "fr"), ("unit", "cm")])),
        "fr = drone.get_front_range(unit=\"cm\")"
    );
    assert_eq!(
        get_bottom_range_code(&params(&[("var", "br"), ("unit", "cm")])),
        "br = drone.get_bottom_range(unit=\"cm\")"
    );
    assert_eq!(
        get_front_color_code(&params(&[("var", "fc"), ("kind", "name")])),
        "fc = drone.get_front_color(kind=\"name\")"
    );
    assert_eq!(
        get_back_color_code(&params(&[("var", "bc"), ("kind", "name")])),
        "bc = drone.get_back_color(kind=\"name\")"
    );
    assert_eq!(
        get_temperature_code(&params(&[("var", "t"), ("unit", "C")])),
        "t = drone.get_temperature(unit=\"C\")"
    );
    assert_eq!(get_distance_code(&params(&[("var", "dist")])), "dist = drone.get_front_range()");
    assert_eq!(func_call_code(&params(&[("name", "jig")])), "jig()");
    assert_eq!(return_val_code(&params(&[("value", "0")])), "return 0");
    assert_eq!(
        list_declare_code(&params(&[("name", "L"), ("values", "1, 2, 3")])),
        "L = [1, 2, 3]"
    );
    assert_eq!(list_append_code(&params(&[("name", "L"), ("value", "4")])), "L.append(4)");
    assert_eq!(
        list_get_code(&params(&[("list_name", "L"), ("index", "2"), ("var", "v")])),
        "v = L[2]"
    );
    assert_eq!(
        user_input_code(&params(&[("var", "u"), ("prompt", "Enter value: ")])),
        "u = input(\"Enter value: \")"
    );
    assert_eq!(timer_start_code(&params(&[("name", "t")])), "t = time.time()");
    assert_eq!(timer_elapsed_code(&params(&[("name", "t"), ("var", "e")])), "e = time.time() - t");
}

#[test]
fn missing_parameters_read_undefined() {
    assert_eq!(hover_code(&Vec::new()), "drone.hover(undefined)");
    assert_eq!(circle_code(&Vec::new()), "drone.circle(speed=undefined, direction=-1)");
    assert_eq!(led_code(&Vec::new()), "drone.set_drone_LED(0, 255, 0, 100)");
    assert_eq!(sway_code(&params(&[("dir", "roll-right")])), "drone.sway(speed=undefined, seconds=undefined, direction=-1)");
}

#[test]
fn first_parameter_with_a_key_wins() {
    assert_eq!(hover_code(&params(&[("dur", "3"), ("dur", "4")])), "drone.hover(3)");
    let _ = ScriptParser::new();
}

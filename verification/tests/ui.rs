use planner_core::commands::CommandType;
use planner_core::ui::{
    capitalize, console_tone, expanded_after_removal, first_free_name, mark_line, new_obstacle_label, params_summary, palette_entry_visible, palette_groups, palette_needle, strip_tone, swatch_rgb,
    type_category, Category, CodePanel, ConsoleTone, ObstaclesPanel, PalettePanel, PlanTreePanel,
    Playback, Selection, TelemetryPanel,
};
use std::collections::BTreeSet;

#[test]
fn categories_of_command_types() {
    assert_eq!(type_category(CommandType::Takeoff), Some(Category::Flight));
    assert_eq!(type_category(CommandType::AvoidWall), Some(Category::Flight));
    assert_eq!(type_category(CommandType::DroneSleep), Some(Category::Output));
    assert_eq!(type_category(CommandType::BreakCmd), Some(Category::Control));
    assert_eq!(type_category(CommandType::UserInput), Some(Category::Var));
    assert_eq!(type_category(CommandType::DetectWall), Some(Category::Sensor));
    assert_eq!(type_category(CommandType::ListGet), Some(Category::Func));
    assert_eq!(type_category(CommandType::TimerElapsed), Some(Category::Timer));
    assert_eq!(type_category(CommandType::GetDistance), Some(Category::Sensor));
}

#[test]
fn palette_lists_each_type_once_in_its_category() {
    let groups = palette_groups();
    assert_eq!(groups.len(), 7);
    let titles: Vec<&str> = groups.iter().map(|g| g.title).collect();
    assert_eq!(
        titles,
        vec!["Flight", "Control Flow", "Output", "Variables", "Sensors", "Functions & Lists", "Timer"]
    );
    let mut seen = BTreeSet::new();
    for group in &groups {
        for (t, _) in &group.entries {
            assert_eq!(type_category(*t), Some(group.category));
            assert!(seen.insert(t.as_str()));
        }
    }
    assert_eq!(seen.len(), 58);
    assert_eq!(groups[0].entries[11], (CommandType::TurnLeft, "Turn L"));
    assert_eq!(groups[4].entries[7], (CommandType::GetTemperature, "Temp"));
}

#[test]
fn palette_search() {
    assert_eq!(palette_needle("  Turn L "), "turn l");
    assert_eq!(palette_needle("   "), "");
    assert!(palette_entry_visible(CommandType::TurnLeft, "Turn L", ""));
    assert!(palette_entry_visible(CommandType::TurnLeft, "Turn L", "turn l"));
    assert!(palette_entry_visible(CommandType::TurnLeft, "Turn L", "turn_left"));
    assert!(palette_entry_visible(CommandType::TurnLeft, "Turn L", "turn left"));
    assert!(!palette_entry_visible(CommandType::TurnLeft, "Turn L", "right"));
    assert!(palette_entry_visible(CommandType::GetTemperature, "Temp", "temperature"));
    assert!(!palette_entry_visible(CommandType::GetTemperature, "Temp", "Temp"));
}

#[test]
fn capitalize_first_letter() {
    assert_eq!(capitalize("flight"), "Flight");
    assert_eq!(capitalize(""), "");
    assert_eq!(capitalize("ßa"), "SSa");
    assert_eq!(capitalize("Already"), "Already");
}

#[test]
fn panels_start_empty() {
    let tree = PlanTreePanel::new();
    assert!(tree.renaming.is_none());
    assert!(tree.palette_filter.is_empty());
    assert!(!tree.telemetry.chart_expanded());
    assert!(tree.last_selection.is_empty());
    let code = CodePanel::new();
    assert!(code.edited.is_empty() && !code.dirty && code.copied_at.is_none());
    let obstacles = ObstaclesPanel::new();
    assert!(obstacles.expanded.is_none() && obstacles.last_rejected.is_none());
    assert!(!obstacles.console_open && !obstacles.edit_pending);
    let _ = PalettePanel::new();
    let telemetry = TelemetryPanel::new();
    assert!(!telemetry.chart_expanded());
    let selection = Selection::default();
    assert!(selection.drone_index.is_none() && selection.command_path.is_empty());
    let playback = Playback::default();
    assert!(!playback.playing);
    assert_eq!(playback.frame, 0);
}

#[test]
fn code_console_tones_by_prefix() {
    assert_eq!(console_tone("[success] saved"), ConsoleTone::Success);
    assert_eq!(console_tone("[warn] low battery"), ConsoleTone::Warn);
    assert_eq!(console_tone("[error] bad file"), ConsoleTone::Error);
    assert_eq!(console_tone("Error without tag"), ConsoleTone::Plain);
    assert_eq!(console_tone(" [error] indented"), ConsoleTone::Plain);
    assert_eq!(console_tone(""), ConsoleTone::Plain);
}

#[test]
fn strip_tones_read_words() {
    assert_eq!(strip_tone("[error] x"), ConsoleTone::Error);
    assert_eq!(strip_tone("COLLISION at 3s"), ConsoleTone::Error);
    assert_eq!(strip_tone("Error importing obstacles"), ConsoleTone::Error);
    assert_eq!(strip_tone("Rejected 2 obstacles"), ConsoleTone::Warn);
    assert_eq!(strip_tone("Cannot move"), ConsoleTone::Warn);
    assert_eq!(strip_tone("[warn] Error too"), ConsoleTone::Error);
    assert_eq!(strip_tone("import success"), ConsoleTone::Success);
    assert_eq!(strip_tone("[success] done"), ConsoleTone::Success);
    assert_eq!(strip_tone("Rejected, success"), ConsoleTone::Warn);
    assert_eq!(strip_tone("error in lower case"), ConsoleTone::Plain);
}

#[test]
fn code_view_marks_one_line() {
    assert_eq!(mark_line("a\nb\nc", 0), "> a\nb\nc");
    assert_eq!(mark_line("a\nb\nc", 1), "a\n> b\nc");
    assert_eq!(mark_line("a\nb\nc", 2), "a\nb\n> c");
    assert_eq!(mark_line("a\nb\nc", 3), "a\nb\nc");
    assert_eq!(mark_line("a\n", 1), "a\n> ");
    assert_eq!(mark_line("", 0), "> ");
    assert_eq!(mark_line("", 4), "");
}

fn owned(items: &[&str]) -> Vec<String> {
    items.iter().map(|item| item.to_string()).collect()
}

#[test]
fn first_free_name_skips_taken_names() {
    assert_eq!(first_free_name("cp", 1, &owned(&[])), (1, "cp1".to_string()));
    assert_eq!(first_free_name("cp", 1, &owned(&["cp1", "cp2", "c3"])), (3, "cp3".to_string()));
    assert_eq!(first_free_name("cp", 4, &owned(&["cp1", "cp2"])), (4, "cp4".to_string()));
    assert_eq!(first_free_name("cp", 9, &owned(&["cp10", "cp9", "cp11"])), (12, "cp12".to_string()));
    assert_eq!(first_free_name("x", 0, &owned(&["x0", "x00"])), (1, "x1".to_string()));
}

#[test]
fn new_obstacles_are_numbered_after_the_others() {
    assert_eq!(
        new_obstacle_label("tower", &owned(&[])),
        ("obs_tower_1".to_string(), "tower 1".to_string())
    );
    assert_eq!(
        new_obstacle_label("cone", &owned(&["obs_0", "obs_cone_3"])),
        ("obs_cone_4".to_string(), "cone 4".to_string())
    );
    assert_eq!(
        new_obstacle_label("hoop", &owned(&["a", "obs_hoop_3", "obs_hoop_4"])),
        ("obs_hoop_5".to_string(), "hoop 5".to_string())
    );
}

#[test]
fn drone_swatches() {
    assert_eq!(swatch_rgb("#4a9c68"), (0x4a, 0x9c, 0x68));
    assert_eq!(swatch_rgb("##58A6FF"), (0x58, 0xa6, 0xff));
    assert_eq!(swatch_rgb("123456"), (0x12, 0x34, 0x56));
    assert_eq!(swatch_rgb("#12345"), (0x88, 0x88, 0x88));
    assert_eq!(swatch_rgb("#1234567"), (0x88, 0x88, 0x88));
    assert_eq!(swatch_rgb(""), (0x88, 0x88, 0x88));
    assert_eq!(swatch_rgb("#zz3456"), (0x88, 0x34, 0x56));
    assert_eq!(swatch_rgb("#+1+2+3"), (1, 2, 3));
    assert_eq!(swatch_rgb("#-1+2++"), (0x88, 2, 0x88));
    assert_eq!(swatch_rgb("#ab\u{e9}cd"), (0xab, 0x88, 0xcd));
}

fn pairs(items: &[(&str, &str)]) -> Vec<(String, String)> {
    items.iter().map(|(k, v)| (k.to_string(), v.to_string())).collect()
}

#[test]
fn command_summaries_list_defined_keys_first() {
    let keys = owned(&["speed", "secs", "dir"]);
    let params = pairs(&[("dir", "1"), ("extra", "x"), ("secs", "2"), ("speed", "50")]);
    assert_eq!(params_summary(&keys, &params), "speed=50, secs=2, dir=1, extra=x");
    assert_eq!(params_summary(&keys, &pairs(&[])), "");
    assert_eq!(params_summary(&owned(&[]), &pairs(&[("a", "1"), ("b", "")])), "a=1, b=");
    assert_eq!(params_summary(&owned(&["n"]), &pairs(&[("m", "3")])), "m=3");
}

#[test]
fn expanded_obstacle_follows_removal() {
    assert_eq!(expanded_after_removal(Some(2), 2), None);
    assert_eq!(expanded_after_removal(Some(3), 1), Some(2));
    assert_eq!(expanded_after_removal(Some(1), 3), Some(1));
    assert_eq!(expanded_after_removal(None, 0), None);
}

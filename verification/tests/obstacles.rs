use planner_core::obstacles::{
    feature_source, obstacle_id, obstacle_source, FeatureSource, JsonKind, JsonTop, ObstacleSource,
    csv_field, csv_header, csv_row_skipped, feature_name, import_names, name_from_fields, norm_type, parse_csv_rows,
    scan_obj, ImportEntry,
};

fn rows(text: &str) -> Vec<Vec<String>> {
    parse_csv_rows(text)
}

fn cells(list: &[&str]) -> Vec<String> {
    list.iter().map(|s| s.to_string()).collect()
}

#[test]
fn csv_rows_skip_blank_lines() {
    assert_eq!(
        rows("type,x,z\r\nwall,1,2\n\n  \ntower,3,4"),
        vec![cells(&["type", "x", "z"]), cells(&["wall", "1", "2"]), cells(&["tower", "3", "4"])]
    );
    assert!(rows("").is_empty());
    assert!(rows("\n \r\n").is_empty());
}

#[test]
fn csv_quotes() {
    assert_eq!(rows("\"a,b\",c"), vec![cells(&["a,b", "c"])]);
    assert_eq!(rows("\"say \"\"hi\"\"\",x"), vec![cells(&["say \"hi\"", "x"])]);
    assert_eq!(rows("a\"b\"c,d"), vec![cells(&["abc", "d"])]);
    assert_eq!(rows("x,,y,"), vec![cells(&["x", "", "y", ""])]);
    assert_eq!(rows("\"open,"), vec![cells(&["open,"])]);
}

#[test]
fn obstacle_type_names() {
    assert_eq!(norm_type(Some("Tower")), "tower");
    assert_eq!(norm_type(Some("SPHERE")), "sphere");
    assert_eq!(norm_type(Some("pyramid")), "wall");
    assert_eq!(norm_type(Some(" hoop")), "wall");
    assert_eq!(norm_type(None), "wall");
}

#[test]
fn csv_headers_and_fields() {
    let header = csv_header(&cells(&[" Type ", "X", "NAME", "x"]));
    assert_eq!(header, cells(&["type", "x", "name", "x"]));
    let row = cells(&["Tower", "1.5", "big"]);
    assert_eq!(csv_field(&header, &row, "x"), Some("1.5".to_string()));
    assert_eq!(csv_field(&header, &row, "name"), Some("big".to_string()));
    assert_eq!(csv_field(&header, &cells(&["a"]), "name"), None);
    assert_eq!(csv_field(&header, &row, "color"), None);
    assert!(csv_row_skipped(&cells(&["  "])));
    assert!(csv_row_skipped(&Vec::new()));
    assert!(!csv_row_skipped(&cells(&["", ""])));
    assert!(!csv_row_skipped(&cells(&["wall"])));
}

fn entry(obstacle_type: &str, name: &str, inside: bool) -> ImportEntry {
    ImportEntry { obstacle_type: obstacle_type.to_string(), name: name.to_string(), inside }
}

#[test]
fn import_numbers_unnamed_by_accepted_place() {
    let entries = vec![entry("tower", "", false), entry("cone", "", true), entry("sphere", "", true)];
    let (kept, rejected) = import_names(&entries);
    assert_eq!(rejected, 1);
    assert_eq!(kept, vec![(1, "cone 1".to_string()), (2, "sphere 2".to_string())]);
}

#[test]
fn import_keeps_given_names() {
    let entries = vec![
        entry("hoop", "Gate", true),
        entry("tower", "Reject Me", false),
        entry("cone", "", true),
    ];
    let (kept, rejected) = import_names(&entries);
    assert_eq!(rejected, 1);
    assert_eq!(kept, vec![(0, "Gate".to_string()), (2, "cone 2".to_string())]);
    let (none, all_out) = import_names(&vec![entry("cone", "", false)]);
    assert!(none.is_empty());
    assert_eq!(all_out, 1);
    let many: Vec<ImportEntry> = (0..12).map(|_| entry("cone", "", true)).collect();
    let (kept, _) = import_names(&many);
    assert_eq!(kept[11].1, "cone 12");
}

fn some(text: &str) -> Option<String> {
    Some(text.to_string())
}

#[test]
fn imported_names_prefer_a_real_name() {
    assert_eq!(name_from_fields(some("Gate"), some("L")), some("Gate"));
    assert_eq!(name_from_fields(some("  "), some("L")), some("L"));
    assert_eq!(name_from_fields(some(" x "), None), some(" x "));
    assert_eq!(name_from_fields(None, some("42")), some("42"));
    assert_eq!(name_from_fields(some("\t"), some("")), None);
    assert_eq!(name_from_fields(None, None), None);
}

#[test]
fn feature_names_fall_back_in_order() {
    assert_eq!(feature_name(some(" Tree "), some("T"), some("ID9"), 0), "Tree");
    assert_eq!(feature_name(some("  "), some(""), some("ID9"), 0), "ID9");
    assert_eq!(feature_name(None, some(" T "), some("ID9"), 0), " T ");
    assert_eq!(feature_name(None, None, None, 0), "Geo Obstacle 1");
    assert_eq!(feature_name(some(""), some(""), some(""), 11), "Geo Obstacle 12");
}

fn triple(x: &str, y: &str, z: &str) -> (String, String, String) {
    (x.to_string(), y.to_string(), z.to_string())
}

#[test]
fn obj_lines_give_vertices_names_and_faces() {
    let scan = scan_obj("o Body\nv 0 0 0\nv 2 0 0\nv 2 1 0\nv 0 1 0\nf 1 2 3 4\n");
    assert_eq!(scan.vertices.len(), 4);
    assert_eq!(scan.vertices[1], triple("2", "0", "0"));
    assert_eq!(scan.name, Some("Body".to_string()));
    assert_eq!(scan.faces, 1);
    let scan = scan_obj("v 1.5abc 0x10 +2.5\n");
    assert_eq!(scan.vertices, vec![triple("1.5abc", "0x10", "+2.5")]);
    assert_eq!(scan.name, None);
    assert_eq!(scan.faces, 0);
}

#[test]
fn obj_reader_skips_what_it_does_not_know() {
    let text = "# comment\r\n  v  1\t2   3 4  \nvn 0 0 1\nvt 1 1 1\nv 1 2\ng  Left   Wing \nusemtl x\nf 1\r\nf 2\n\no\n";
    let scan = scan_obj(text);
    assert_eq!(scan.vertices, vec![triple("1", "2", "3")]);
    assert_eq!(scan.name, None);
    assert_eq!(scan.faces, 2);
    let scan = scan_obj("g  Left   Wing \nvx 1 2 3\n");
    assert_eq!(scan.name, Some("Left Wing".to_string()));
    assert!(scan.vertices.is_empty());
    assert!(scan_obj("").vertices.is_empty());
}

fn top(kind: JsonKind, type_field: Option<&str>, flags: [bool; 4]) -> JsonTop {
    JsonTop {
        kind,
        type_field: type_field.map(|t| t.to_string()),
        obstacles_array: flags[0],
        features_array: flags[1],
        geometries_array: flags[2],
        has_coordinates: flags[3],
    }
}

#[test]
fn json_documents_hold_obstacles_where_expected() {
    let none = [false; 4];
    assert_eq!(obstacle_source(&top(JsonKind::Array, None, none)), Ok(ObstacleSource::TopArray));
    assert_eq!(
        obstacle_source(&top(JsonKind::Object, Some("Feature"), [true, false, false, false])),
        Ok(ObstacleSource::ObstaclesField)
    );
    assert_eq!(
        obstacle_source(&top(JsonKind::Object, Some("FeatureCollection"), none)),
        Ok(ObstacleSource::GeoJson)
    );
    let message = "JSON must be an array of obstacles or an object with an \"obstacles\" array".to_string();
    assert_eq!(obstacle_source(&top(JsonKind::Object, Some("Point"), none)), Err(message.clone()));
    for kind in [JsonKind::Null, JsonKind::Bool, JsonKind::Number, JsonKind::Text] {
        assert_eq!(obstacle_source(&top(kind, None, none)), Err(message.clone()));
    }
}

#[test]
fn geojson_features_are_found_in_order() {
    let none = [false; 4];
    let bad = Err("Not a valid GeoJSON document".to_string());
    assert_eq!(feature_source(&top(JsonKind::Array, None, none)), Ok(FeatureSource::TopArray));
    assert_eq!(feature_source(&top(JsonKind::Text, None, none)), bad.clone());
    assert_eq!(
        feature_source(&top(JsonKind::Object, Some("FeatureCollection"), [false, true, false, false])),
        Ok(FeatureSource::FeaturesField)
    );
    assert_eq!(
        feature_source(&top(JsonKind::Object, Some("Feature"), [false, true, false, true])),
        Ok(FeatureSource::TopFeature)
    );
    assert_eq!(
        feature_source(&top(JsonKind::Object, Some("GeometryCollection"), [false, false, true, false])),
        Ok(FeatureSource::Geometries)
    );
    assert_eq!(
        feature_source(&top(JsonKind::Object, None, [false, true, false, false])),
        Ok(FeatureSource::FeaturesField)
    );
    assert_eq!(
        feature_source(&top(JsonKind::Object, Some("Point"), [false, false, false, true])),
        Ok(FeatureSource::TopGeometry)
    );
    assert_eq!(feature_source(&top(JsonKind::Object, None, [false, false, false, true])), bad.clone());
    assert_eq!(feature_source(&top(JsonKind::Object, Some("FeatureCollection"), none)), bad);
}

#[test]
fn imported_ids_number_from_zero() {
    assert_eq!(obstacle_id(0), "obs_0");
    assert_eq!(obstacle_id(12), "obs_12");
}

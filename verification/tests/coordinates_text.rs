use weekly_ad_recipes::coordinates::{csv_line_fields, split_fields, store_geometry_parts};

#[test]
fn split_matches_std_split() {
    for text in ["", "a", "a,b", ",", "a,,b,", ",,,", "x y, z"] {
        let expected: Vec<String> = text.split(',').map(|s| s.to_string()).collect();
        assert_eq!(split_fields(text, ','), expected, "for {:?}", text);
    }
}

#[test]
fn zip_table_line_fields() {
    let line = "98052,STANDARD,REDMOND,WA,King County,47.6740,-122.1215,extra";
    assert_eq!(
        csv_line_fields(line),
        Some(("98052".to_string(), "47.6740".to_string(), "-122.1215".to_string()))
    );
    assert_eq!(csv_line_fields("98052,STANDARD,REDMOND"), None);
    assert_eq!(csv_line_fields(""), None);
}

#[test]
fn store_geometry_attribute() {
    assert_eq!(
        store_geometry_parts(r#"<div store-geometry=" 47.67 , -122.12 "></div>"#),
        Some(("47.67".to_string(), "-122.12".to_string()))
    );
    assert_eq!(store_geometry_parts(r#"<div store-geometry="1,2,3"></div>"#), None);
    assert_eq!(store_geometry_parts("<div></div>"), None);
}

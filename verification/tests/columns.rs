use sensor_ingest::columns::all_distinct;
use sensor_ingest::columns::contains_name;
use sensor_ingest::columns::desired_columns;
use sensor_ingest::columns::expected_schema;
use sensor_ingest::columns::ColumnSet;

fn strings(names: &[&str]) -> Vec<String> {
    names.iter().map(|name| name.to_string()).collect()
}

#[test]
fn expected_schema_has_the_nineteen_columns_in_order() {
    let expected = expected_schema();
    assert_eq!(expected.len(), 19);
    assert_eq!(
        expected.names(),
        &strings(&[
            "Date",
            "NO2",
            "O3",
            "PM10",
            "PM2.5",
            "Latitude",
            "Longitude",
            "station_name",
            "Wind-Speed (U)",
            "Wind-Speed (V)",
            "Dewpoint Temp",
            "Soil Temp",
            "Total Percipitation",
            "Vegitation (High)",
            "Vegitation (Low)",
            "Temp",
            "Relative Humidity",
            "code",
            "id",
        ])
    );
}

#[test]
fn desired_columns_are_the_eight_in_order() {
    let desired = desired_columns();
    assert_eq!(desired.len(), 8);
    assert_eq!(
        desired.names(),
        &strings(&[
            "Date",
            "NO2",
            "O3",
            "PM10",
            "PM2.5",
            "Latitude",
            "Longitude",
            "station_name",
        ])
    );
}

#[test]
fn every_desired_column_is_expected() {
    let expected = expected_schema();
    let desired = desired_columns();
    for name in desired.names() {
        assert!(expected.contains(name));
    }
    assert_eq!(&expected.names()[..8], &desired.names()[..]);
}

#[test]
fn column_set_refuses_a_repeated_name() {
    assert!(ColumnSet::new(strings(&["a", "b", "a"])).is_none());
    assert!(!all_distinct(&strings(&["a", "b", "a"])));
}

#[test]
fn column_set_keeps_distinct_names_in_order() {
    let set = ColumnSet::new(strings(&["b", "a", "c"])).expect("distinct names");
    assert_eq!(set.names(), &strings(&["b", "a", "c"]));
    assert_eq!(set.len(), 3);
    assert!(set.contains(&"a".to_string()));
    assert!(!set.contains(&"d".to_string()));
}

#[test]
fn column_set_may_be_empty() {
    let set = ColumnSet::new(Vec::new()).expect("no names, none repeated");
    assert_eq!(set.len(), 0);
    assert!(all_distinct(&Vec::new()));
}

#[test]
fn contains_name_compares_whole_names() {
    let names = strings(&["PM10", "PM2.5"]);
    assert!(contains_name(&names, &"PM10".to_string()));
    assert!(!contains_name(&names, &"PM1".to_string()));
    assert!(!contains_name(&names, &"pm10".to_string()));
    assert!(!contains_name(&Vec::new(), &"PM10".to_string()));
}

use polars::prelude::ParquetReader;
use polars::prelude::SerReader;
use sensor_ingest::columns::desired_columns;
use sensor_ingest::columns::expected_schema;
use sensor_ingest::columns::ColumnSet;
use sensor_ingest::frame::column_filter;
use sensor_ingest::frame::column_verifier;
use sensor_ingest::frame::header_row;
use sensor_ingest::frame::ProjectionError;
use sensor_ingest::frame::TabularFrame;
use std::io::Cursor;

fn strings(names: &[&str]) -> Vec<String> {
    names.iter().map(|name| name.to_string()).collect()
}

fn staged_csv() -> Vec<u8> {
    let text = "Date,NO2,O3,PM10,PM2.5,Latitude,Longitude,station_name,extra\n\
                2024-01-01,12.5,30.1,18.0,9.5,48.85,2.35,Paris,a\n\
                2024-01-02,14.0,28.4,20.5,11.0,48.85,2.35,Paris,b\n\
                2024-01-03,10.2,33.9,15.5,8.0,45.76,4.84,Lyon,c\n";
    text.as_bytes().to_vec()
}

#[test]
fn a_frame_has_the_header_s_columns_and_the_text_s_rows() {
    let frame = TabularFrame::from_csv(&staged_csv()).expect("a table");
    assert_eq!(
        frame.column_names(),
        strings(&[
            "Date",
            "NO2",
            "O3",
            "PM10",
            "PM2.5",
            "Latitude",
            "Longitude",
            "station_name",
            "extra"
        ])
    );
    assert_eq!(frame.row_count(), 3);
}

#[test]
fn empty_text_is_no_frame() {
    assert!(TabularFrame::from_csv(&Vec::new()).is_err());
}

#[test]
fn projection_keeps_the_desired_order_whatever_the_source_order() {
    let text = "station_name,extra,Longitude,Latitude,PM2.5,PM10,O3,NO2,Date\n\
                Paris,a,2.35,48.85,9.5,18.0,30.1,12.5,2024-01-01\n\
                Lyon,c,4.84,45.76,8.0,15.5,33.9,10.2,2024-01-03\n";
    let frame = TabularFrame::from_csv(&text.as_bytes().to_vec()).expect("a table");
    let desired = desired_columns();
    let out = match frame.project(&desired) {
        Ok(out) => out,
        Err(_) => panic!("every desired column is there"),
    };
    assert_eq!(&out.column_names(), desired.names());
    assert_eq!(out.row_count(), 2);
    assert_eq!(frame.column_names().len(), 9);
}

#[test]
fn projection_names_the_missing_column() {
    let text = "Date,NO2,PM10,PM2.5,Latitude,Longitude,station_name\n\
                2024-01-01,12.5,18.0,9.5,48.85,2.35,Paris\n";
    let frame = TabularFrame::from_csv(&text.as_bytes().to_vec()).expect("a table");
    match frame.project(&desired_columns()) {
        Err(ProjectionError::ColumnNotFound(name)) => assert_eq!(name, "O3"),
        _ => panic!("the table has no column O3"),
    }
}

#[test]
fn projection_names_the_first_of_several_missing_columns() {
    let text = "Date,NO2,O3\n2024-01-01,12.5,30.1\n";
    let frame = TabularFrame::from_csv(&text.as_bytes().to_vec()).expect("a table");
    match frame.project(&desired_columns()) {
        Err(ProjectionError::ColumnNotFound(name)) => assert_eq!(name, "PM10"),
        _ => panic!("the table has no column PM10"),
    }
}

#[test]
fn projection_to_a_list_of_one_s_own() {
    let frame = TabularFrame::from_csv(&staged_csv()).expect("a table");
    let wanted = ColumnSet::new(strings(&["extra", "Date"])).expect("distinct");
    let out = match frame.project(&wanted) {
        Ok(out) => out,
        Err(_) => panic!("both columns are there"),
    };
    assert_eq!(out.column_names(), strings(&["extra", "Date"]));
    assert_eq!(out.row_count(), 3);
}

#[test]
fn projection_to_no_columns_has_no_rows() {
    let frame = TabularFrame::from_csv(&staged_csv()).expect("a table");
    let none = ColumnSet::new(Vec::new()).expect("distinct");
    let out = match frame.project(&none) {
        Ok(out) => out,
        Err(_) => panic!("nothing is asked for"),
    };
    assert_eq!(out.column_names(), Vec::<String>::new());
    assert_eq!(out.row_count(), 0);
}

#[test]
fn column_verifier_reports_the_extra_column() {
    let report = match column_verifier(&staged_csv()) {
        Ok(report) => report,
        Err(_) => panic!("the text is a table"),
    };
    let expected = expected_schema();
    assert_eq!(report.missing, expected.names()[8..].to_vec());
    assert_eq!(report.unexpected, strings(&["extra"]));
}

#[test]
fn column_verifier_on_a_full_header_with_one_extra() {
    let expected = expected_schema();
    let mut header = expected.names().join(",");
    header.push_str(",extra\n");
    let report = match column_verifier(&header.into_bytes()) {
        Ok(report) => report,
        Err(_) => panic!("the text is a table"),
    };
    assert!(report.missing.is_empty());
    assert_eq!(report.unexpected, strings(&["extra"]));
    assert!(report.all_present());
}

#[test]
fn column_verifier_on_empty_text_misses_everything() {
    let report = match column_verifier(&Vec::new()) {
        Ok(report) => report,
        Err(_) => panic!("empty text has an empty header"),
    };
    assert_eq!(&report.missing, expected_schema().names());
    assert!(report.unexpected.is_empty());
}

#[test]
fn column_filter_names_the_missing_column() {
    let text = "Date,NO2,O3,PM10,PM2.5,Latitude,station_name\n\
                2024-01-01,12.5,30.1,18.0,9.5,48.85,Paris\n";
    match column_filter(&text.as_bytes().to_vec()) {
        Err(ProjectionError::ColumnNotFound(name)) => assert_eq!(name, "Longitude"),
        _ => panic!("the table has no column Longitude"),
    }
}

#[test]
fn column_filter_on_empty_text_is_unreadable() {
    match column_filter(&Vec::new()) {
        Err(ProjectionError::Unreadable(message)) => assert!(!message.is_empty()),
        _ => panic!("empty text is no table"),
    }
}

#[test]
fn staged_table_becomes_a_columnar_file_of_the_desired_columns() {
    let data = staged_csv();
    let report = match column_verifier(&data) {
        Ok(report) => report,
        Err(_) => panic!("the text is a table"),
    };
    assert_eq!(report.unexpected, strings(&["extra"]));
    let mut frame = match column_filter(&data) {
        Ok(frame) => frame,
        Err(_) => panic!("every desired column is there"),
    };
    let bytes = match frame.write() {
        Ok(bytes) => bytes,
        Err(_) => panic!("the frame can be encoded"),
    };
    assert_eq!(&bytes[..4], b"PAR1");
    assert_eq!(&bytes[bytes.len() - 4..], b"PAR1");
    assert_eq!(&frame.column_names(), desired_columns().names());
    assert_eq!(frame.row_count(), 3);
    let read_back = ParquetReader::new(Cursor::new(bytes)).finish().expect("a columnar file");
    let names: Vec<String> =
        read_back.get_column_names().into_iter().map(|name| name.to_string()).collect();
    assert_eq!(
        names,
        strings(&[
            "Date",
            "NO2",
            "O3",
            "PM10",
            "PM2.5",
            "Latitude",
            "Longitude",
            "station_name"
        ])
    );
    assert_eq!(read_back.height(), 3);
}

#[test]
fn writing_twice_gives_the_same_bytes() {
    let mut first = match column_filter(&staged_csv()) {
        Ok(frame) => frame,
        Err(_) => panic!("every desired column is there"),
    };
    let mut second = match column_filter(&staged_csv()) {
        Ok(frame) => frame,
        Err(_) => panic!("every desired column is there"),
    };
    let a = match first.write() {
        Ok(bytes) => bytes,
        Err(_) => panic!("the frame can be encoded"),
    };
    let b = match second.write() {
        Ok(bytes) => bytes,
        Err(_) => panic!("the frame can be encoded"),
    };
    assert_eq!(a, b);
}

fn texts(cells: &[&str]) -> Vec<Option<String>> {
    cells.iter().map(|cell| Some(cell.to_string())).collect()
}

fn filtered(text: &str) -> TabularFrame {
    match column_filter(&text.as_bytes().to_vec()) {
        Ok(frame) => frame,
        Err(_) => panic!("every desired column is there"),
    }
}

#[test]
fn a_projected_row_keeps_the_values_of_its_columns() {
    let out = filtered(
        "station_name,Longitude,Latitude,PM2.5,PM10,O3,NO2,Date\n\
         S,2.0,1.0,4,3,2,1,2020-01-01\n",
    );
    assert_eq!(&out.column_names(), desired_columns().names());
    assert_eq!(out.row_count(), 1);
    assert_eq!(out.column_text(0), Some(texts(&["2020-01-01"])));
    assert_eq!(out.column_text(1), Some(texts(&["1"])));
    assert_eq!(out.column_text(2), Some(texts(&["2"])));
    assert_eq!(out.column_text(3), Some(texts(&["3"])));
    assert_eq!(out.column_text(4), Some(texts(&["4"])));
    assert_eq!(out.column_text(5), Some(texts(&["1.0"])));
    assert_eq!(out.column_text(6), Some(texts(&["2.0"])));
    assert_eq!(out.column_text(7), Some(texts(&["S"])));
    assert_eq!(out.column_text(8), None);
}

#[test]
fn a_projected_column_keeps_its_values_row_for_row() {
    let out = filtered(
        "Date,NO2,O3,PM10,PM2.5,Latitude,Longitude,station_name,extra\n\
         2020-01-01,1,2,3,4,1.0,2.0,S,x\n\
         2020-01-02,5,6,7,8,1.0,2.0,S,y\n\
         2020-01-03,9,10,11,12,1.0,2.0,S,z\n",
    );
    assert_eq!(&out.column_names(), desired_columns().names());
    assert_eq!(out.row_count(), 3);
    assert_eq!(out.column_text(1), Some(texts(&["1", "5", "9"])));
    assert_eq!(out.column_text(4), Some(texts(&["4", "8", "12"])));
    assert_eq!(out.column_text(0), Some(texts(&["2020-01-01", "2020-01-02", "2020-01-03"])));
}

#[test]
fn each_projected_column_is_the_source_column_of_its_name() {
    let text = "station_name,extra,Longitude,Latitude,PM2.5,PM10,O3,NO2,Date\n\
                Paris,a,2.35,48.85,9.5,18.0,30.1,12.5,2024-01-01\n\
                Lyon,c,4.84,45.76,,15.5,33.9,10.2,2024-01-03\n";
    let source = TabularFrame::from_csv(&text.as_bytes().to_vec()).expect("a table");
    let desired = desired_columns();
    let out = match source.project(&desired) {
        Ok(out) => out,
        Err(_) => panic!("every desired column is there"),
    };
    let source_names = source.column_names();
    for (i, name) in desired.names().iter().enumerate() {
        let j = source_names.iter().position(|other| other == name).expect("the column");
        assert_eq!(out.column_text(i), source.column_text(j));
    }
    assert_eq!(out.column_text(4), Some(vec![Some("9.5".to_string()), None]));
}

#[test]
fn projecting_a_projected_table_changes_nothing() {
    let text = "Date,NO2,O3,PM10,PM2.5,Latitude,Longitude,station_name\n\
                2020-01-01,1,2,3,4,1.0,2.0,S\n\
                2020-01-02,5,6,7,8,1.5,2.5,T\n";
    let source = TabularFrame::from_csv(&text.as_bytes().to_vec()).expect("a table");
    let out = filtered(text);
    assert_eq!(out.column_names(), source.column_names());
    assert_eq!(out.row_count(), source.row_count());
    for i in 0..8 {
        assert_eq!(out.column_text(i), source.column_text(i));
    }
}

#[test]
fn filtering_the_same_text_twice_gives_the_same_table() {
    let first = filtered(std::str::from_utf8(&staged_csv()).expect("text"));
    let second = filtered(std::str::from_utf8(&staged_csv()).expect("text"));
    assert_eq!(first.column_names(), second.column_names());
    assert_eq!(first.row_count(), second.row_count());
    for i in 0..8 {
        assert_eq!(first.column_text(i), second.column_text(i));
    }
}

#[test]
fn a_quoted_line_break_stays_inside_its_cell() {
    let mut text = String::from("Date,NO2,O3,PM10,PM2.5,Latitude,Longitude,station_name\n");
    for k in 0..400 {
        text.push_str(&format!("2020-01-01,{k},2,3,4,1.0,2.0,\"two\nlines\"\n"));
    }
    let out = filtered(&text);
    assert_eq!(out.row_count(), 400);
    let names = out.column_text(7).expect("a column of text");
    assert_eq!(names.len(), 400);
    assert_eq!(names[399], Some("two\nlines".to_string()));
}

#[test]
fn column_verifier_reads_the_header_row_alone() {
    let good = "Date,NO2,extra\n2020-01-01,1,x\n";
    let ragged = "Date,NO2,extra\n2020-01-01,1,x\n1,2,3,4,5,6\n\"open quote\n";
    let first = match column_verifier(&good.as_bytes().to_vec()) {
        Ok(report) => report,
        Err(_) => panic!("the header row can be read"),
    };
    let second = match column_verifier(&ragged.as_bytes().to_vec()) {
        Ok(report) => report,
        Err(_) => panic!("the header row can be read"),
    };
    assert_eq!(first, second);
    assert_eq!(first.unexpected, strings(&["extra"]));
    assert_eq!(first.missing, expected_schema().names()[2..].to_vec());
    assert!(column_filter(&ragged.as_bytes().to_vec()).is_err());
}

#[test]
fn column_verifier_takes_a_header_row_that_ends_in_carriage_return_and_line_feed() {
    let text = "Date,NO2\r\n2020-01-01,1\r\n";
    let report = match column_verifier(&text.as_bytes().to_vec()) {
        Ok(report) => report,
        Err(_) => panic!("the header row can be read"),
    };
    assert!(report.unexpected.is_empty());
    assert_eq!(report.missing, expected_schema().names()[2..].to_vec());
}

#[test]
fn header_row_is_the_text_up_to_the_first_line_feed() {
    assert_eq!(header_row(&b"a,b\n1,2\n3,4\n".to_vec()), b"a,b\n".to_vec());
    assert_eq!(header_row(&b"a,b".to_vec()), b"a,b".to_vec());
    assert_eq!(header_row(&b"\nrest".to_vec()), b"\n".to_vec());
    assert_eq!(header_row(&Vec::new()), Vec::<u8>::new());
}

use mock_edge_data::{
    insert_params, schema_matches, select_readings, ColumnInfo, window_ending_at, EdgeTelemetryTable, SensorReading, StorageError,
    UnsignedMillis,
};
use rusqlite::Connection;

fn table() -> EdgeTelemetryTable {
    EdgeTelemetryTable::new(Connection::open_in_memory().unwrap()).unwrap()
}

fn reading(timestamp: i64, sensor_id: i32) -> SensorReading {
    SensorReading::new(timestamp, sensor_id, 21_500, 101_325, 2_999_999)
}

#[test]
fn point_window_round_trip() {
    let t = table();
    let r = SensorReading::new(1_700_000_000_123, 3, 99_999, 50_000, 1_000);
    t.insert_reading(r).unwrap();
    let got = t.get_readings((r.timestamp, r.timestamp)).unwrap();
    assert_eq!(got, vec![r]);
}

#[test]
fn window_bounds_are_inclusive() {
    let t = table();
    for ts in [99, 100, 101] {
        t.insert_reading(reading(ts, 1)).unwrap();
    }
    assert_eq!(t.get_readings((100, 100)).unwrap(), vec![reading(100, 1)]);
    assert_eq!(
        t.get_readings((99, 101)).unwrap(),
        vec![reading(99, 1), reading(100, 1), reading(101, 1)]
    );
    assert_eq!(t.get_readings((102, 200)).unwrap(), vec![]);
    assert_eq!(t.get_readings((101, 99)).unwrap(), vec![]);
}

#[test]
fn sensor_filter() {
    let t = table();
    t.insert_reading(reading(10, 1)).unwrap();
    t.insert_reading(reading(11, 2)).unwrap();
    assert_eq!(t.get_readings_by_sensors((10, 11), vec![1]).unwrap(), vec![reading(10, 1)]);
    assert_eq!(
        t.get_readings_by_sensors((10, 11), vec![]).unwrap(),
        vec![reading(10, 1), reading(11, 2)]
    );
    assert_eq!(
        t.get_readings_by_sensors((10, 11), vec![2, 1]).unwrap(),
        vec![reading(10, 1), reading(11, 2)]
    );
    assert_eq!(t.get_readings_by_sensors((10, 11), vec![7]).unwrap(), vec![]);
}

#[test]
fn duplicate_timestamp_is_a_write_error() {
    let t = table();
    let first = reading(500, 1);
    t.insert_reading(first).unwrap();
    assert_eq!(t.insert_reading(reading(500, 2)), Err(StorageError::Write));
    assert_eq!(t.get_readings((500, 500)).unwrap(), vec![first]);
}

#[test]
fn unwritable_database_is_a_schema_error() {
    let conn =
        Connection::open_in_memory_with_flags(rusqlite::OpenFlags::SQLITE_OPEN_READ_ONLY).unwrap();
    assert!(matches!(EdgeTelemetryTable::new(conn), Err(StorageError::Schema)));
}

#[test]
fn table_without_sensor_column_is_a_schema_error() {
    let conn = Connection::open_in_memory().unwrap();
    conn.execute(
        "CREATE TABLE edge_telemetry (timestamp BINARY(16) PRIMARY KEY, temperature DOUBLE, \
         pressure DOUBLE, vibration DOUBLE)",
        (),
    )
    .unwrap();
    assert!(matches!(EdgeTelemetryTable::new(conn), Err(StorageError::Schema)));
}

#[test]
fn table_with_other_column_types_is_a_schema_error() {
    let conn = Connection::open_in_memory().unwrap();
    conn.execute(
        "CREATE TABLE edge_telemetry (timestamp INT PRIMARY KEY, sensor_id INT, \
         temperature DOUBLE, pressure DOUBLE, vibration DOUBLE)",
        (),
    )
    .unwrap();
    assert!(matches!(EdgeTelemetryTable::new(conn), Err(StorageError::Schema)));
}

#[test]
fn existing_table_of_the_same_shape_is_reused() {
    let conn = Connection::open_in_memory().unwrap();
    conn.execute(
        "CREATE TABLE edge_telemetry (timestamp INTEGER PRIMARY KEY, sensor_id INTEGER, \
         temperature REAL, pressure REAL, vibration REAL)",
        (),
    )
    .unwrap();
    conn.execute("INSERT INTO edge_telemetry VALUES (7, 1, 21.5, 101.325, 2999.999)", ()).unwrap();
    let t = EdgeTelemetryTable::new(conn).unwrap();
    assert_eq!(t.get_readings((0, 10)).unwrap(), vec![reading(7, 1)]);
}

fn column(name: &str, decl_type: &str, pk: i64) -> ColumnInfo {
    ColumnInfo::new(name.to_string(), decl_type.to_string(), pk)
}

fn expected_columns() -> Vec<ColumnInfo> {
    vec![
        column("timestamp", "INTEGER", 1),
        column("sensor_id", "INTEGER", 0),
        column("temperature", "REAL", 0),
        column("pressure", "REAL", 0),
        column("vibration", "REAL", 0),
    ]
}

#[test]
fn schema_matches_only_the_created_columns() {
    assert!(schema_matches(&expected_columns()));
    let mut renamed = expected_columns();
    renamed[1] = column("sensor", "INTEGER", 0);
    assert!(!schema_matches(&renamed));
    let mut retyped = expected_columns();
    retyped[2] = column("temperature", "DOUBLE", 0);
    assert!(!schema_matches(&retyped));
    let mut other_key = expected_columns();
    other_key[0] = column("timestamp", "INTEGER", 0);
    other_key[1] = column("sensor_id", "INTEGER", 1);
    assert!(!schema_matches(&other_key));
    let mut shorter = expected_columns();
    shorter.pop();
    assert!(!schema_matches(&shorter));
    let mut longer = expected_columns();
    longer.push(column("humidity", "REAL", 0));
    assert!(!schema_matches(&longer));
    assert!(!schema_matches(&vec![]));
}

#[test]
fn insert_params_order() {
    let r = SensorReading::new(1_700_000_000_000, 9, 1, 2, 3);
    assert_eq!(insert_params(r), vec![1_700_000_000_000, 9, 1, 2, 3]);
}

#[test]
fn results_ascend_by_timestamp() {
    let t = table();
    for ts in [30, 10, 20] {
        t.insert_reading(reading(ts, 4)).unwrap();
    }
    let got: Vec<i64> = t.get_readings((0, 100)).unwrap().iter().map(|r| r.timestamp).collect();
    assert_eq!(got, vec![10, 20, 30]);
}

#[test]
fn magnitudes_round_trip_exactly() {
    let t = table();
    let r = SensorReading::new(1, 1, 0, 500_000, 3_000_000);
    let s = SensorReading::new(2, 1, 100_000, 50_001, 1_001);
    t.insert_reading(r).unwrap();
    t.insert_reading(s).unwrap();
    assert_eq!(t.get_readings((1, 2)).unwrap(), vec![r, s]);
}

#[test]
fn select_keeps_window_and_sensors() {
    let rows = vec![reading(1, 1), reading(2, 2), reading(3, 1), reading(4, 3)];
    assert_eq!(select_readings(&rows, (2, 3), &vec![]), vec![reading(2, 2), reading(3, 1)]);
    assert_eq!(select_readings(&rows, (1, 4), &vec![1]), vec![reading(1, 1), reading(3, 1)]);
    assert_eq!(select_readings(&rows, (1, 4), &vec![9]), vec![]);
    assert_eq!(select_readings(&vec![], (1, 4), &vec![]), vec![]);
}

#[test]
fn generated_rows_are_found_by_recent_query() {
    let t = table();
    let start: i64 = 1_700_000_000_000;
    let generated: Vec<SensorReading> = (0..10)
        .map(|k| SensorReading::new(start + 50 * k, 5, 10_000 + k, 60_000 + k, 2_000 + k))
        .collect();
    for r in &generated {
        t.insert_reading(*r).unwrap();
    }
    let now = start + 500;
    let window = window_ending_at(now, UnsignedMillis::from_str("1s").unwrap());
    assert_eq!(t.get_readings_by_sensors(window, vec![5]).unwrap(), generated);
    assert_eq!(t.get_readings_by_sensors(window, vec![9]).unwrap(), vec![]);
}

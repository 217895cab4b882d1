use vstd::prelude::*;
use rusqlite::Connection;
use crate::reading::{keeps, select_readings, lemma_selected_keeps, SensorReading};

verus! {

#[verifier::external_type_specification]
#[verifier::external_body]
pub struct ExConnection(rusqlite::Connection);

#[verifier::external_type_specification]
#[verifier::external_body]
pub struct ExSqlError(rusqlite::Error);

/// Why an operation on the telemetry store failed.
#[derive(Debug, Clone, Copy, PartialEq, Eq, Structural)]
pub enum StorageError {
    /// The relation could not be created or does not fit.
    Schema,
    /// A reading could not be written, for instance because its timestamp is taken.
    Write,
    /// A query could not run, or a row could not be decoded.
    Query,
}

const CREATE_SQL: &'static str = "CREATE TABLE IF NOT EXISTS edge_telemetry (
    timestamp   INTEGER PRIMARY KEY,
    sensor_id   INTEGER,
    temperature REAL,
    pressure    REAL,
    vibration   REAL
)";

const INSERT_SQL: &'static str =
    "INSERT INTO edge_telemetry (timestamp, sensor_id, temperature, pressure, vibration)
    VALUES (?1, ?2, CAST(?3 AS REAL) / 1000, CAST(?4 AS REAL) / 1000, CAST(?5 AS REAL) / 1000)";

const RANGE_SQL: &'static str = "SELECT timestamp, sensor_id,
        CAST(ROUND(temperature * 1000) AS INTEGER),
        CAST(ROUND(pressure * 1000) AS INTEGER),
        CAST(ROUND(vibration * 1000) AS INTEGER)
    FROM edge_telemetry
    WHERE timestamp >= ?1 AND timestamp <= ?2
    ORDER BY timestamp";

const COLUMNS_SQL: &'static str =
    "SELECT name, type, pk FROM pragma_table_info('edge_telemetry') ORDER BY cid";

/// One column of a relation as the database declares it.
pub struct ColumnInfo {
    pub name: String,
    /// The declared type, as written in the table's definition.
    pub decl_type: String,
    /// Position in the primary key, counting from 1; 0 for other columns.
    pub pk: i64,
}

impl ColumnInfo {
    pub fn new(name: String, decl_type: String, pk: i64) -> (r: ColumnInfo)
        ensures
            r.name@ == name@,
            r.decl_type@ == decl_type@,
            r.pk == pk,
    {
        ColumnInfo { name, decl_type, pk }
    }
}

/// Name of the `i`-th column of `edge_telemetry`.
pub open spec fn column_name(i: int) -> Seq<char> {
    if i == 0 {
        "timestamp"@
    } else if i == 1 {
        "sensor_id"@
    } else if i == 2 {
        "temperature"@
    } else if i == 3 {
        "pressure"@
    } else {
        "vibration"@
    }
}

/// Declared type of the `i`-th column of `edge_telemetry`.
pub open spec fn column_type(i: int) -> Seq<char> {
    if i <= 1 {
        "INTEGER"@
    } else {
        "REAL"@
    }
}

/// Whether `cols` is exactly the column list of `edge_telemetry`: the five
/// columns in order, with their declared types, and the timestamp alone as
/// primary key.
pub open spec fn schema_fits(cols: Seq<ColumnInfo>) -> bool {
    &&& cols.len() == 5
    &&& forall|i: int|
        0 <= i < 5 ==> {
            &&& (#[trigger] cols[i]).name@ == column_name(i)
            &&& cols[i].decl_type@ == column_type(i)
            &&& (cols[i].pk == 1) == (i == 0)
            &&& (cols[i].pk == 0) == (i != 0)
        }
}

fn expected_name(i: usize) -> (r: &'static str)
    requires
        i < 5,
    ensures
        r@ == column_name(i as int),
{
    if i == 0 {
        "timestamp"
    } else if i == 1 {
        "sensor_id"
    } else if i == 2 {
        "temperature"
    } else if i == 3 {
        "pressure"
    } else {
        "vibration"
    }
}

fn expected_type(i: usize) -> (r: &'static str)
    ensures
        r@ == column_type(i as int),
{
    if i <= 1 {
        "INTEGER"
    } else {
        "REAL"
    }
}

fn same_text(a: &str, b: &str) -> (r: bool)
    ensures
        r == (a@ == b@),
{
    let n = a.unicode_len();
    if n != b.unicode_len() {
        return false;
    }
    let mut i: usize = 0;
    while i < n
        invariant
            n == a@.len() == b@.len(),
            i <= n,
            forall|j: int| 0 <= j < i ==> a@[j] == b@[j],
        decreases n - i,
    {
        if a.get_char(i) != b.get_char(i) {
            return false;
        }
        i = i + 1;
    }
    proof {
        assert(a@ =~= b@);
    }
    true
}

/// Whether the column list `cols` read from a database is the one that
/// this library creates.
pub fn schema_matches(cols: &Vec<ColumnInfo>) -> (r: bool)
    ensures
        r == schema_fits(cols@),
{
    if cols.len() != 5 {
        return false;
    }
    let mut i: usize = 0;
    while i < 5
        invariant
            cols@.len() == 5,
            i <= 5,
            forall|j: int|
                0 <= j < i ==> {
                    &&& (#[trigger] cols@[j]).name@ == column_name(j)
                    &&& cols@[j].decl_type@ == column_type(j)
                    &&& (cols@[j].pk == 1) == (j == 0)
                    &&& (cols@[j].pk == 0) == (j != 0)
                },
        decreases 5 - i,
    {
        let col = &cols[i];
        let pk_ok = if i == 0 {
            col.pk == 1
        } else {
            col.pk == 0
        };
        if !pk_ok || !same_text(col.name.as_str(), expected_name(i)) || !same_text(
            col.decl_type.as_str(),
            expected_type(i),
        ) {
            return false;
        }
        i = i + 1;
    }
    true
}

/// The statement parameters that write `reading`: `?1` to `?5` in the order
/// timestamp, sensor id, temperature, pressure, vibration.
pub fn insert_params(reading: SensorReading) -> (p: Vec<i64>)
    ensures
        p@ == seq![
            reading.timestamp,
            reading.sensor_id as i64,
            reading.temperature,
            reading.pressure,
            reading.vibration,
        ],
{
    let mut p: Vec<i64> = Vec::new();
    p.push(reading.timestamp);
    p.push(reading.sensor_id as i64);
    p.push(reading.temperature);
    p.push(reading.pressure);
    p.push(reading.vibration);
    proof {
        assert(p@ =~= seq![
            reading.timestamp,
            reading.sensor_id as i64,
            reading.temperature,
            reading.pressure,
            reading.vibration,
        ]);
    }
    p
}

/// Relies on rusqlite's `Connection::execute`: runs one statement with the
/// given positional parameters. Whether it succeeds depends on the database.
#[verifier::external_body]
fn execute(conn: &Connection, sql: &str, params: &Vec<i64>) -> (r: Result<
    usize,
    rusqlite::Error,
>) {
    conn.execute(sql, rusqlite::params_from_iter(params.iter()))
}

/// Relies on rusqlite's `Connection::prepare` and `Statement::query_map`: runs
/// a query with two integer parameters and decodes the five integer columns of
/// each row, in order, into a reading. What comes back depends on the database.
#[verifier::external_body]
fn query_rows(conn: &Connection, sql: &str, lo: i64, hi: i64) -> (r: Result<
    Vec<SensorReading>,
    rusqlite::Error,
>) {
    let mut stmt = conn.prepare(sql)?;
    let rows = stmt.query_map(
        [lo, hi],
        |row|
            Ok(
                SensorReading::new(
                    row.get(0)?,
                    row.get(1)?,
                    row.get(2)?,
                    row.get(3)?,
                    row.get(4)?,
                ),
            ),
    )?;
    rows.collect()
}

/// Relies on rusqlite's `Connection::prepare` and `Statement::query_map`: runs
/// a query without parameters whose rows hold a column's name, declared type
/// and primary-key position. What comes back depends on the database.
#[verifier::external_body]
fn query_columns(conn: &Connection, sql: &str) -> (r: Result<Vec<ColumnInfo>, rusqlite::Error>) {
    let mut stmt = conn.prepare(sql)?;
    let rows = stmt.query_map((), |row| Ok(ColumnInfo::new(row.get(0)?, row.get(1)?, row.get(2)?)))?;
    rows.collect()
}

/// The relation `edge_telemetry(timestamp PK, sensor_id, temperature,
/// pressure, vibration)` on one open database connection.
pub struct EdgeTelemetryTable {
    connection: Connection,
}

impl EdgeTelemetryTable {
    /// Creates the relation if it is absent and binds to `connection`. A
    /// relation of that name whose column list differs from the one created
    /// here (see `schema_matches`) is refused with `Schema`.
    pub fn new(connection: Connection) -> (r: Result<EdgeTelemetryTable, StorageError>)
        ensures
            r matches Err(e) ==> e == StorageError::Schema,
    {
        let none: Vec<i64> = Vec::new();
        if execute(&connection, CREATE_SQL, &none).is_err() {
            return Err(StorageError::Schema);
        }
        match query_columns(&connection, COLUMNS_SQL) {
            Ok(cols) => {
                if schema_matches(&cols) {
                    Ok(EdgeTelemetryTable { connection })
                } else {
                    Err(StorageError::Schema)
                }
            },
            Err(_) => Err(StorageError::Schema),
        }
    }

    /// Appends one reading; fails when its timestamp is already stored or the
    /// write fails.
    pub fn insert_reading(&self, reading: SensorReading) -> (r: Result<(), StorageError>)
        ensures
            r matches Err(e) ==> e == StorageError::Write,
    {
        let params = insert_params(reading);
        match execute(&self.connection, INSERT_SQL, &params) {
            Ok(_) => Ok(()),
            Err(_) => Err(StorageError::Write),
        }
    }

    /// The stored readings with timestamp in the inclusive `time_range`, from
    /// every sensor. They come in the order the database returns them, which
    /// its query asks to be ascending by timestamp; no contract states that
    /// order.
    pub fn get_readings(&self, time_range: (i64, i64)) -> (r: Result<
        Vec<SensorReading>,
        StorageError,
    >)
        ensures
            r matches Ok(v) ==> forall|i: int|
                0 <= i < v@.len() ==> keeps(
                    #[trigger] v@[i],
                    time_range.0,
                    time_range.1,
                    Seq::empty(),
                ),
            r matches Err(e) ==> e == StorageError::Query,
    {
        let all: Vec<i32> = Vec::new();
        proof {
            assert(all@ =~= Seq::<i32>::empty());
        }
        self.query(time_range, all)
    }

    /// The stored readings with timestamp in the inclusive `time_range` whose
    /// sensor is one of `sensor_ids` (every sensor when it is empty).
    pub fn get_readings_by_sensors(&self, time_range: (i64, i64), sensor_ids: Vec<i32>) -> (r:
        Result<Vec<SensorReading>, StorageError>)
        ensures
            r matches Ok(v) ==> forall|i: int|
                0 <= i < v@.len() ==> keeps(
                    #[trigger] v@[i],
                    time_range.0,
                    time_range.1,
                    sensor_ids@,
                ),
            r matches Err(e) ==> e == StorageError::Query,
    {
        self.query(time_range, sensor_ids)
    }

    fn query(&self, time_range: (i64, i64), sensor_ids: Vec<i32>) -> (r: Result<
        Vec<SensorReading>,
        StorageError,
    >)
        ensures
            r matches Ok(v) ==> forall|i: int|
                0 <= i < v@.len() ==> keeps(
                    #[trigger] v@[i],
                    time_range.0,
                    time_range.1,
                    sensor_ids@,
                ),
            r matches Err(e) ==> e == StorageError::Query,
    {
        match query_rows(&self.connection, RANGE_SQL, time_range.0, time_range.1) {
            Ok(rows) => {
                let v = select_readings(&rows, time_range, &sensor_ids);
                proof {
                    lemma_selected_keeps(rows@, time_range.0, time_range.1, sensor_ids@);
                }
                Ok(v)
            },
            Err(_) => Err(StorageError::Query),
        }
    }
}

} // verus!

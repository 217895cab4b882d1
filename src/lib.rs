pub mod duration;
pub mod reading;
pub mod store;

pub use duration::{DurationError, UnsignedMillis};
pub use reading::{select_readings, window_ending_at, SensorReading};
pub use store::{insert_params, schema_matches, ColumnInfo, EdgeTelemetryTable, StorageError};

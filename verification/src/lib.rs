//! Ensembles of forecast soundings: loading them as text, turning them into
//! per-run time series, and merging the runs of one site and model into a
//! single series that holds, for each valid time, the forecast with the
//! shortest lead time.
//!
//! Instants are whole seconds since the Unix epoch and lead times are whole
//! seconds, both as `i64`.

/// The envelope that carries loaded text or a loader's failure.
pub mod messages;
/// The merge of an ensemble of runs into one series.
pub mod merge;
/// The stages that a message goes through on its way to a plot.
pub mod pipeline;
/// The text that the plots are drawn from.
pub mod plot;
/// The loaders: what they ask of the archive and of the file system, and
/// what they make of the answers.
pub mod sources;
/// Time series, ensembles of them, and the transforms between them.
pub mod timeseries;
/// The types that a time series holds and how they are made.
pub mod types;

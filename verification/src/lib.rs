//! Library-side logic of a converter that turns electronic components into
//! KiCad library assets: command-line options, the resume checkpoint, symbol
//! library editing and the bookkeeping of a conversion run. Reading and
//! writing files, fetching components and the concurrency of a run are left
//! to the program around the library, which hands results back as values.

pub mod checkpoint;
pub mod cli;
pub mod error;
pub mod export_options;
pub mod fill_color;
pub mod library;
pub mod model_converter;
pub mod paths;
pub mod pattern;
pub mod runner;
pub mod symbol_library;
pub mod text;

pub use checkpoint::{CheckpointManager, CompletedAssets};
pub use cli::Cli;
pub use error::AppError;
pub use export_options::{
    ComponentConversionRequest, ConversionStep, FootprintExportOptions, Model3dExportOptions,
    RunOptions, RunRequest, SymbolExportOptions,
};
pub use fill_color::SymbolFillColor;
pub use library::{LibraryManager, Model3dWrite, WriteOutcome};
pub use runner::{PreparedRun, RunReporter, RunSummary, RunTally, filter_pending_lcsc_ids};

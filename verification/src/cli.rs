//! The command-line options, as plain values.

use vstd::prelude::*;

verus! {

/// The options of one invocation of the converter.
#[derive(Debug, Clone)]
pub struct Cli {
    /// A single component id (such as `C2040`).
    pub lcsc_id: Option<String>,
    /// The path of a file that lists component ids.
    pub batch: Option<String>,
    /// Convert the schematic symbol.
    pub symbol: bool,
    /// Convert the footprint.
    pub footprint: bool,
    /// Convert the 3D model.
    pub model_3d: bool,
    /// Convert symbol, footprint and 3D model.
    pub full: bool,
    /// The output directory.
    pub output: String,
    /// Overwrite every kind of existing output.
    pub overwrite: bool,
    /// Overwrite existing symbols.
    pub overwrite_symbol: bool,
    /// Overwrite existing footprints.
    pub overwrite_footprint: bool,
    /// Overwrite existing 3D models.
    pub overwrite_model_3d: bool,
    /// Refer to 3D models relative to the project rather than the footprint.
    pub project_relative: bool,
    /// A fill color for filled symbol rectangles, `#RRGGBB` or `#RRGGBBAA`.
    pub symbol_fill_color: Option<String>,
    /// Log at debug level.
    pub debug: bool,
    /// Go on with the next component of a batch when one fails.
    pub continue_on_error: bool,
    /// How many components of a batch are converted at once.
    pub parallel: usize,
}

} // verus!

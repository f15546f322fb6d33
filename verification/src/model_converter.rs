//! The decisions around converting the 3D model of a component: its name,
//! what is known of each of its two files, and the line that reports it.

use vstd::prelude::*;
use crate::export_options::Model3dExportOptions;
use crate::library::WriteOutcome;

verus! {

/// The name of the 3D model of a component: its (sanitized) title and the
/// component id, so that models of different components do not collide.
pub open spec fn model_name_of(title: Seq<char>, lcsc_id: Seq<char>) -> Seq<char> {
    title + "_"@ + lcsc_id
}

/// The name of the 3D model of component `lcsc_id` with sanitized title `title`.
pub fn model_3d_name(title: &str, lcsc_id: &str) -> (res: String)
    ensures
        res@ == model_name_of(title@, lcsc_id@),
{
    let mut s = title.to_owned();
    s.append("_");
    s.append(lcsc_id);
    s
}

/// Which files of a 3D model are to be fetched and written, given whether
/// they exist: a file is fetched where it is missing or where the 3D model
/// options overwrite. Where neither is, the model is kept as it is.
pub fn model_fetch_plan(options: &Model3dExportOptions, wrl_exists: bool, step_exists: bool) -> (res:
    (bool, bool))
    ensures
        res.0 == (options.overwrite || !wrl_exists),
        res.1 == (options.overwrite || !step_exists),
{
    (options.overwrite || !wrl_exists, options.overwrite || !step_exists)
}

/// What came of one file of a 3D model.
pub enum ModelFileResult {
    /// The file was not fetched because it exists and is kept; `present`
    /// tells whether it is there as a regular file.
    NotFetched { present: bool },
    /// Fetching, converting or writing it failed.
    Failed,
    /// It was stored with this outcome.
    Stored(WriteOutcome),
}

/// Whether the model file is there afterwards, and whether this run wrote it.
pub open spec fn file_status(r: ModelFileResult) -> (bool, bool) {
    match r {
        ModelFileResult::NotFetched { present } => (present, false),
        ModelFileResult::Failed => (false, false),
        ModelFileResult::Stored(o) => (true, o is Written),
    }
}

/// Whether the model file is there afterwards, and whether this run wrote it.
pub fn model_file_status(r: &ModelFileResult) -> (res: (bool, bool))
    ensures
        res == file_status(*r),
{
    match r {
        ModelFileResult::NotFetched { present } => (*present, false),
        ModelFileResult::Failed => (false, false),
        ModelFileResult::Stored(o) => (true, o.was_written()),
    }
}

/// The line that reports the 3D model: what became of it (converted when
/// this run wrote a file, else kept) and which of its files exist.
pub open spec fn model_report_text(
    name: Seq<char>,
    has_wrl: bool,
    has_step: bool,
    wrote_wrl: bool,
    wrote_step: bool,
) -> Seq<char> {
    let action = if wrote_wrl || wrote_step {
        "converted"@
    } else {
        "kept"@
    };
    if !has_wrl && !has_step {
        "\u{26a0} 3D model not available"@
    } else {
        "\u{2713} 3D model "@ + action + ": "@ + name + if has_wrl && has_step {
            " (WRL + STEP)"@
        } else if has_wrl {
            " (WRL only)"@
        } else {
            " (STEP only)"@
        }
    }
}

/// The line that reports the 3D model `model_name`.
pub fn model_3d_report(
    model_name: &str,
    has_wrl: bool,
    has_step: bool,
    wrote_wrl: bool,
    wrote_step: bool,
) -> (res: String)
    ensures
        res@ == model_report_text(model_name@, has_wrl, has_step, wrote_wrl, wrote_step),
{
    if !has_wrl && !has_step {
        return "\u{26a0} 3D model not available".to_owned();
    }
    let mut s = "\u{2713} 3D model ".to_owned();
    if wrote_wrl || wrote_step {
        s.append("converted");
    } else {
        s.append("kept");
    }
    s.append(": ");
    s.append(model_name);
    if has_wrl && has_step {
        s.append(" (WRL + STEP)");
    } else if has_wrl {
        s.append(" (WRL only)");
    } else {
        s.append(" (STEP only)");
    }
    s
}

} // verus!

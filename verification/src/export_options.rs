//! What one run converts and how, as decided from the command line.

use vstd::prelude::*;
use crate::checkpoint::CompletedAssets;
use crate::cli::Cli;
use crate::error::AppError;
use crate::fill_color::{SymbolFillColor, fill_color_of};
use crate::pattern::{compile_regex, regex_compiles, regex_find_all, regex_find_texts};
use crate::text::texts;

verus! {

/// How symbols are exported.
#[derive(Debug, Clone)]
pub struct SymbolExportOptions {
    pub symbol_fill_color: Option<SymbolFillColor>,
    pub overwrite: bool,
}

/// How footprints are exported.
#[derive(Debug, Clone, Copy)]
pub struct FootprintExportOptions {
    pub include_3d_model: bool,
    pub project_relative_3d: bool,
    pub overwrite: bool,
}

/// How 3D models are exported.
#[derive(Debug, Clone, Copy)]
pub struct Model3dExportOptions {
    pub overwrite: bool,
}

/// Which assets of a component are converted, and how.
#[derive(Debug, Clone)]
pub struct ComponentConversionRequest {
    pub convert_symbol: bool,
    pub convert_footprint: bool,
    pub convert_model_3d: bool,
    pub symbol: SymbolExportOptions,
    pub footprint: FootprintExportOptions,
    pub model_3d: Model3dExportOptions,
}

/// One step of the conversion of a component.
#[derive(Debug, Clone, Copy, PartialEq, Eq, Structural)]
pub enum ConversionStep {
    Symbol,
    Model3d,
    Footprint,
}

/// Settings of the run as a whole.
#[derive(Debug, Clone)]
pub struct RunOptions {
    pub output: String,
    pub continue_on_error: bool,
    pub parallel: usize,
    /// Whether some selected asset is to be overwritten; such a run replaces
    /// existing output and converts components that were completed before.
    pub overwrite: bool,
}

/// Everything a run needs: the component ids, the run settings and what to
/// convert of each component.
#[derive(Debug, Clone)]
pub struct RunRequest {
    pub lcsc_ids: Vec<String>,
    pub run: RunOptions,
    pub component: ComponentConversionRequest,
}

/// The pattern of a component id in a batch file: `C` and one or more digits.
pub open spec fn batch_id_pattern() -> Seq<char> {
    "C\\d+"@
}

/// The fill color that an optional option value asks for: `None` when the
/// option is absent, `Some(None)` when it is present but no valid color.
pub open spec fn fill_color_option(value: Option<String>) -> Option<Option<SymbolFillColor>> {
    match value {
        None => Some(None),
        Some(s) => match fill_color_of(s@) {
            Some(c) => Some(Some(c)),
            None => None,
        },
    }
}

/// A single component id has the form `C` followed by at least one character.
pub open spec fn id_is_well_formed(id: Seq<char>) -> bool {
    id.len() >= 2 && id[0] == 'C'
}

/// The options select at least one kind of asset.
pub open spec fn selects_conversion(cli: Cli) -> bool {
    cli.symbol || cli.footprint || cli.model_3d || cli.full
}

/// The command line can be acted on.
pub open spec fn cli_is_valid(cli: Cli) -> bool {
    &&& (cli.lcsc_id is Some || cli.batch is Some)
    &&& (cli.lcsc_id matches Some(id) ==> id_is_well_formed(id@))
    &&& selects_conversion(cli)
    &&& fill_color_option(cli.symbol_fill_color) is Some
}

/// `e` is the error that the first problem of an invalid command line gives.
pub open spec fn is_validation_error(cli: Cli, e: AppError) -> bool {
    if cli.lcsc_id is None && cli.batch is None {
        e is MissingIdSource
    } else if cli.lcsc_id is Some && !id_is_well_formed(cli.lcsc_id.unwrap()@) {
        e matches AppError::InvalidLcscId(id) && id@ == cli.lcsc_id.unwrap()@
    } else if !selects_conversion(cli) {
        e is NoConversionSelected
    } else {
        e matches AppError::InvalidSymbolFillColor(v) && v@ == cli.symbol_fill_color.unwrap()@
    }
}

/// `o` holds the symbol options that `cli` asks for.
pub open spec fn symbol_options_match(o: SymbolExportOptions, cli: Cli) -> bool {
    &&& Some(o.symbol_fill_color) == fill_color_option(cli.symbol_fill_color)
    &&& o.overwrite == (cli.overwrite || cli.overwrite_symbol)
}

/// `r` is the conversion request that `cli` asks for.
pub open spec fn request_matches_cli(r: ComponentConversionRequest, cli: Cli) -> bool {
    &&& r.convert_symbol == (cli.symbol || cli.full)
    &&& r.convert_footprint == (cli.footprint || cli.full)
    &&& r.convert_model_3d == (cli.model_3d || cli.full)
    &&& symbol_options_match(r.symbol, cli)
    &&& r.footprint.include_3d_model == (cli.model_3d || cli.full)
    &&& r.footprint.project_relative_3d == cli.project_relative
    &&& r.footprint.overwrite == (cli.overwrite || cli.overwrite_footprint)
    &&& r.model_3d.overwrite == (cli.overwrite || cli.overwrite_model_3d)
}

/// Any one of the selection flags is enough: a command line with a
/// well-formed single id, no fill color and at least one of `--symbol`,
/// `--footprint`, `--3d` and `--full` is valid, and without any of them it
/// is not.
pub proof fn lemma_any_selection_flag_suffices(cli: Cli)
    requires
        cli.lcsc_id matches Some(id) && id@.len() >= 2 && id@[0] == 'C',
        cli.symbol_fill_color is None,
    ensures
        (cli.symbol || cli.footprint || cli.model_3d || cli.full) ==> cli_is_valid(cli),
        !(cli.symbol || cli.footprint || cli.model_3d || cli.full) ==> !cli_is_valid(cli),
{
}

/// Each converted asset that is to be overwritten makes the request
/// overwrite, and only such an asset does.
pub proof fn lemma_overwrite_any_per_asset(r: ComponentConversionRequest)
    ensures
        r.convert_symbol && r.symbol.overwrite ==> r.spec_overwrite_any(),
        r.convert_footprint && r.footprint.overwrite ==> r.spec_overwrite_any(),
        r.convert_model_3d && r.model_3d.overwrite ==> r.spec_overwrite_any(),
        r.spec_overwrite_any() ==> (r.convert_symbol && r.symbol.overwrite) || (
        r.convert_footprint && r.footprint.overwrite) || (r.convert_model_3d
            && r.model_3d.overwrite),
{
}

/// A command line that converts an asset and overwrites it (by its own flag
/// or by `--overwrite`) asks for an overwriting request; one that overwrites
/// nothing it converts does not.
pub proof fn lemma_cli_overwrite_flags(cli: Cli, r: ComponentConversionRequest)
    requires
        request_matches_cli(r, cli),
    ensures
        (cli.symbol || cli.full) && (cli.overwrite || cli.overwrite_symbol) ==> r.spec_overwrite_any(),
        (cli.footprint || cli.full) && (cli.overwrite || cli.overwrite_footprint)
            ==> r.spec_overwrite_any(),
        (cli.model_3d || cli.full) && (cli.overwrite || cli.overwrite_model_3d)
            ==> r.spec_overwrite_any(),
        !cli.overwrite && !cli.overwrite_symbol && !cli.overwrite_footprint
            && !cli.overwrite_model_3d ==> !r.spec_overwrite_any(),
{
    lemma_overwrite_any_per_asset(r);
}

/// The pattern of a batch id is `C`, the digit class `\d` and the greedy
/// repetition `+` without an upper bound: every id is `C` with the whole run
/// of digits that follows it, however long.
pub proof fn lemma_batch_pattern_takes_all_digits()
    ensures
        batch_id_pattern() == seq!['C', '\\', 'd', '+'],
{
    reveal_strlit("C\\d+");
}

/// Reads the optional fill color option.
pub fn parse_symbol_fill_color(value: &Option<String>) -> (res: Result<
    Option<SymbolFillColor>,
    AppError,
>)
    ensures
        match fill_color_option(*value) {
            Some(c) => res == Ok::<Option<SymbolFillColor>, AppError>(c),
            None => res matches Err(AppError::InvalidSymbolFillColor(v)) && v@
                == value.unwrap()@,
        },
{
    match value {
        None => Ok(None),
        Some(s) => match SymbolFillColor::parse(s.as_str()) {
            Ok(c) => Ok(Some(c)),
            Err(e) => Err(e),
        },
    }
}

impl SymbolExportOptions {
    /// The symbol options that the command line asks for.
    pub fn from_cli(cli: &Cli) -> (res: Result<Self, AppError>)
        ensures
            match res {
                Ok(o) => symbol_options_match(o, *cli),
                Err(e) => fill_color_option(cli.symbol_fill_color) is None && (e matches AppError::InvalidSymbolFillColor(v) && v@
                    == cli.symbol_fill_color.unwrap()@),
            },
            res is Ok <==> fill_color_option(cli.symbol_fill_color) is Some,
    {
        let symbol_fill_color = parse_symbol_fill_color(&cli.symbol_fill_color)?;
        Ok(SymbolExportOptions { symbol_fill_color, overwrite: cli.overwrite || cli.overwrite_symbol })
    }
}

impl FootprintExportOptions {
    /// The footprint options that the command line asks for.
    pub fn from_cli(cli: &Cli) -> (res: Self)
        ensures
            res.include_3d_model == (cli.model_3d || cli.full),
            res.project_relative_3d == cli.project_relative,
            res.overwrite == (cli.overwrite || cli.overwrite_footprint),
    {
        let convert_model_3d = cli.model_3d || cli.full;
        FootprintExportOptions {
            include_3d_model: convert_model_3d,
            project_relative_3d: cli.project_relative,
            overwrite: cli.overwrite || cli.overwrite_footprint,
        }
    }
}

impl Model3dExportOptions {
    /// The 3D model options that the command line asks for.
    pub fn from_cli(cli: &Cli) -> (res: Self)
        ensures
            res.overwrite == (cli.overwrite || cli.overwrite_model_3d),
    {
        Model3dExportOptions { overwrite: cli.overwrite || cli.overwrite_model_3d }
    }
}

impl ComponentConversionRequest {
    /// Whether this request overwrites some asset that it converts.
    pub open spec fn spec_overwrite_any(self) -> bool {
        (self.convert_symbol && self.symbol.overwrite) || (self.convert_footprint
            && self.footprint.overwrite) || (self.convert_model_3d && self.model_3d.overwrite)
    }

    /// What the command line asks to convert of each component.
    pub fn from_cli(cli: &Cli) -> (res: Result<Self, AppError>)
        ensures
            match res {
                Ok(r) => request_matches_cli(r, *cli),
                Err(e) => e matches AppError::InvalidSymbolFillColor(v) && v@
                    == cli.symbol_fill_color.unwrap()@,
            },
            res is Ok <==> fill_color_option(cli.symbol_fill_color) is Some,
    {
        let convert_symbol = cli.symbol || cli.full;
        let convert_footprint = cli.footprint || cli.full;
        let convert_model_3d = cli.model_3d || cli.full;
        let symbol = SymbolExportOptions::from_cli(cli)?;
        Ok(ComponentConversionRequest {
            convert_symbol,
            convert_footprint,
            convert_model_3d,
            symbol,
            footprint: FootprintExportOptions::from_cli(cli),
            model_3d: Model3dExportOptions::from_cli(cli),
        })
    }

    /// Whether some asset that is converted is also to be overwritten.
    pub fn overwrite_any(&self) -> (res: bool)
        ensures
            res == self.spec_overwrite_any(),
    {
        (self.convert_symbol && self.symbol.overwrite) || (self.convert_footprint
            && self.footprint.overwrite) || (self.convert_model_3d && self.model_3d.overwrite)
    }

    /// The assets that count as done once this request succeeded.
    pub fn checkpoint_assets(&self) -> (res: CompletedAssets)
        ensures
            res.symbol == self.convert_symbol,
            res.footprint == self.convert_footprint,
            res.model_3d == self.convert_model_3d,
    {
        CompletedAssets {
            symbol: self.convert_symbol,
            footprint: self.convert_footprint,
            model_3d: self.convert_model_3d,
        }
    }

    /// The steps of converting one component, in the order they run: the
    /// symbol, then the 3D model (which the footprint refers to), then the
    /// footprint; each only where it is selected.
    pub fn conversion_steps(&self) -> (res: Vec<ConversionStep>)
        ensures
            res@ == (if self.convert_symbol {
                seq![ConversionStep::Symbol]
            } else {
                Seq::<ConversionStep>::empty()
            }) + (if self.convert_model_3d {
                seq![ConversionStep::Model3d]
            } else {
                Seq::<ConversionStep>::empty()
            }) + (if self.convert_footprint {
                seq![ConversionStep::Footprint]
            } else {
                Seq::<ConversionStep>::empty()
            }),
    {
        let mut steps = Vec::new();
        if self.convert_symbol {
            steps.push(ConversionStep::Symbol);
        }
        if self.convert_model_3d {
            steps.push(ConversionStep::Model3d);
        }
        if self.convert_footprint {
            steps.push(ConversionStep::Footprint);
        }
        assert(steps@ =~= (if self.convert_symbol {
            seq![ConversionStep::Symbol]
        } else {
            Seq::<ConversionStep>::empty()
        }) + (if self.convert_model_3d {
            seq![ConversionStep::Model3d]
        } else {
            Seq::<ConversionStep>::empty()
        }) + (if self.convert_footprint {
            seq![ConversionStep::Footprint]
        } else {
            Seq::<ConversionStep>::empty()
        }));
        steps
    }
}

/// Checks the command line before anything is read or written.
pub fn validate_cli(cli: &Cli) -> (res: Result<(), AppError>)
    ensures
        res is Ok <==> cli_is_valid(*cli),
        res matches Err(e) ==> is_validation_error(*cli, e),
{
    if cli.lcsc_id.is_none() && cli.batch.is_none() {
        return Err(AppError::MissingIdSource);
    }
    if let Some(id) = &cli.lcsc_id {
        let n = id.as_str().unicode_len();
        if n < 2 || id.as_str().get_char(0) != 'C' {
            return Err(AppError::InvalidLcscId(id.clone()));
        }
    }
    if !cli.symbol && !cli.footprint && !cli.model_3d && !cli.full {
        return Err(AppError::NoConversionSelected);
    }
    let _ = parse_symbol_fill_color(&cli.symbol_fill_color)?;
    Ok(())
}

/// The component ids of a run: the single id of the command line, or else
/// every match of `C` and digits in the text of the batch file.
pub fn resolve_lcsc_ids(cli: &Cli, batch_content: &Option<String>) -> (res: Result<
    Vec<String>,
    AppError,
>)
    ensures
        match (cli.lcsc_id, *batch_content) {
            (Some(id), _) => res matches Ok(ids) && texts(ids@) == seq![id@],
            (None, Some(content)) => if !regex_compiles(batch_id_pattern()) {
                res matches Err(AppError::InvalidPattern(p)) && p@ == batch_id_pattern()
            } else if regex_find_all(batch_id_pattern(), content@).len() == 0 {
                res matches Err(AppError::NoIdsInBatch)
            } else {
                res matches Ok(ids) && texts(ids@) == regex_find_all(batch_id_pattern(), content@)
            },
            (None, None) => res matches Err(AppError::NoIdSource),
        },
{
    if let Some(id) = &cli.lcsc_id {
        let mut ids = Vec::new();
        ids.push(id.clone());
        assert(texts(ids@) =~= seq![id@]);
        return Ok(ids);
    }
    if let Some(content) = batch_content {
        let pattern = "C\\d+";
        match compile_regex(pattern) {
            None => {
                return Err(AppError::InvalidPattern(pattern.to_owned()));
            },
            Some(re) => {
                let ids = regex_find_texts(&re, content.as_str());
                if ids.len() == 0 {
                    return Err(AppError::NoIdsInBatch);
                }
                return Ok(ids);
            },
        }
    }
    Err(AppError::NoIdSource)
}

impl RunRequest {
    /// Builds the request of a run from the command line and, where the
    /// command line names a batch file and no single id, the text of that
    /// file (which the caller reads after `validate_cli` has passed).
    pub fn try_from(cli: Cli, batch_content: Option<String>) -> (res: Result<Self, AppError>)
        ensures
            !cli_is_valid(cli) ==> (res matches Err(e) && is_validation_error(cli, e)),
            cli_is_valid(cli) ==> match (cli.lcsc_id, batch_content) {
                (Some(id), _) => res is Ok && texts(res->Ok_0.lcsc_ids@) == seq![id@],
                (None, Some(content)) => if !regex_compiles(batch_id_pattern()) {
                    res matches Err(AppError::InvalidPattern(p)) && p@ == batch_id_pattern()
                } else if regex_find_all(batch_id_pattern(), content@).len() == 0 {
                    res matches Err(AppError::NoIdsInBatch)
                } else {
                    res is Ok && texts(res->Ok_0.lcsc_ids@) == regex_find_all(
                        batch_id_pattern(),
                        content@,
                    )
                },
                (None, None) => res matches Err(AppError::NoIdSource),
            },
            res matches Ok(r) ==> {
                &&& request_matches_cli(r.component, cli)
                &&& r.run.output == cli.output
                &&& r.run.continue_on_error == cli.continue_on_error
                &&& r.run.parallel == cli.parallel
                &&& r.run.overwrite == r.component.spec_overwrite_any()
            },
    {
        validate_cli(&cli)?;
        let lcsc_ids = resolve_lcsc_ids(&cli, &batch_content)?;
        let component = ComponentConversionRequest::from_cli(&cli)?;
        let overwrite = component.overwrite_any();
        Ok(RunRequest {
            lcsc_ids,
            run: RunOptions {
                output: cli.output,
                continue_on_error: cli.continue_on_error,
                parallel: cli.parallel,
                overwrite,
            },
            component,
        })
    }
}

} // verus!

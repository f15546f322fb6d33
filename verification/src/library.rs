//! Where the assets of a library go, and whether existing files are replaced.

use vstd::prelude::*;
use crate::error::AppError;
use crate::paths::{file_name, join, join_path, path_file_name};
use crate::pattern::{
    is_regex_meta, compile_regex, regex_compiles, regex_escape, regex_escaped, regex_is_match, regex_matches,
};
use crate::symbol_library::{
    add_to_library, library_with_added, replace_component, replaced_component,
    update_component_text, updated_component,
};

verus! {

/// What becomes of one output file: written at the path, or left as it is
/// because it exists and overwriting is off.
#[derive(Debug, Clone, PartialEq, Eq)]
pub enum WriteOutcome {
    Written(String),
    Skipped(String),
}

impl WriteOutcome {
    /// The path of the file.
    pub open spec fn spec_path(self) -> Seq<char> {
        match self {
            WriteOutcome::Written(p) => p@,
            WriteOutcome::Skipped(p) => p@,
        }
    }

    /// Whether the file is written.
    pub fn was_written(&self) -> (res: bool)
        ensures
            res == (self is Written),
    {
        matches!(self, WriteOutcome::Written(_))
    }

    /// The path of the file.
    pub fn path(&self) -> (res: &str)
        ensures
            res@ == self.spec_path(),
    {
        match self {
            WriteOutcome::Written(path) => path.as_str(),
            WriteOutcome::Skipped(path) => path.as_str(),
        }
    }

    /// The path of the file, taken out of the outcome.
    pub fn into_path(self) -> (res: String)
        ensures
            res@ == self.spec_path(),
    {
        match self {
            WriteOutcome::Written(path) => path,
            WriteOutcome::Skipped(path) => path,
        }
    }
}

/// What writing the two files of a 3D model comes to.
#[derive(Debug, Clone, PartialEq, Eq)]
pub struct Model3dWrite {
    /// What becomes of the VRML file.
    pub wrl: WriteOutcome,
    /// The path of the VRML file.
    pub wrl_path: String,
    /// The path of the STEP file, whether or not it is written.
    pub step_path: String,
    /// What becomes of the STEP file; `None` where there is no STEP data.
    pub step: Option<WriteOutcome>,
}

/// The name of the library kept in the directory `output`: the directory's
/// own name, or `nlbn` where the path has none.
pub open spec fn library_name_for(output: Seq<char>) -> Seq<char> {
    match file_name(output) {
        Some(n) => n,
        None => "nlbn"@,
    }
}

/// The library in an output directory: its name and whether existing files
/// are replaced.
pub struct LibraryManager {
    output_path: String,
    lib_name: String,
    overwrite: bool,
}

impl LibraryManager {
    /// The output directory.
    pub closed spec fn output(self) -> Seq<char> {
        self.output_path@
    }

    /// The name of the library.
    pub closed spec fn name(self) -> Seq<char> {
        self.lib_name@
    }

    /// Whether existing files are replaced.
    pub closed spec fn overwrites(self) -> bool {
        self.overwrite
    }

    /// The directory of the footprints.
    pub open spec fn pretty_dir(self) -> Seq<char> {
        join_path(self.output(), self.name() + ".pretty"@)
    }

    /// The directory of the 3D models.
    pub open spec fn shapes_dir(self) -> Seq<char> {
        join_path(self.output(), self.name() + ".3dshapes"@)
    }

    /// The file of the footprint `name`.
    pub open spec fn footprint_path(self, name: Seq<char>) -> Seq<char> {
        join_path(self.pretty_dir(), name + ".kicad_mod"@)
    }

    /// The VRML file of the 3D model `name`.
    pub open spec fn wrl_path(self, name: Seq<char>) -> Seq<char> {
        join_path(self.shapes_dir(), name + ".wrl"@)
    }

    /// The STEP file of the 3D model `name`.
    pub open spec fn step_path(self, name: Seq<char>) -> Seq<char> {
        join_path(self.shapes_dir(), name + ".step"@)
    }

    /// What writing a file at `path` comes to, given whether it exists.
    pub open spec fn outcome_for(self, path: Seq<char>, exists: bool, o: WriteOutcome) -> bool {
        o.spec_path() == path && (o is Written <==> (self.overwrites() || !exists))
    }

    /// The library kept in `output_path`, replacing existing files or not.
    pub fn with_overwrite(output_path: &str, overwrite: bool) -> (res: Self)
        ensures
            res.output() == output_path@,
            res.name() == library_name_for(output_path@),
            res.overwrites() == overwrite,
    {
        let lib_name = match path_file_name(output_path) {
            Some(n) => n,
            None => "nlbn".to_owned(),
        };
        LibraryManager { output_path: output_path.to_owned(), lib_name, overwrite }
    }

    /// The name of the library.
    pub fn lib_name(&self) -> (res: &str)
        ensures
            res@ == self.name(),
    {
        self.lib_name.as_str()
    }

    /// The output directory.
    pub fn output_path(&self) -> (res: &str)
        ensures
            res@ == self.output(),
    {
        self.output_path.as_str()
    }

    /// Whether existing files are replaced.
    pub fn overwrite_enabled(&self) -> (res: bool)
        ensures
            res == self.overwrites(),
    {
        self.overwrite
    }

    /// Whether a file is to be written, given whether it exists: an existing
    /// file is replaced only when overwriting is on.
    pub fn should_write_file(&self, exists: bool) -> (res: bool)
        ensures
            res == (self.overwrites() || !exists),
    {
        self.overwrite || !exists
    }

    fn suffixed(name: &str, suffix: &str) -> (res: String)
        ensures
            res@ == name@ + suffix@,
    {
        let mut s = name.to_owned();
        s.append(suffix);
        s
    }

    /// The directory of the footprints (`<output>/<name>.pretty`).
    pub fn get_pretty_dir(&self) -> (res: String)
        ensures
            res@ == self.pretty_dir(),
    {
        join(self.output_path.as_str(), Self::suffixed(self.lib_name.as_str(), ".pretty").as_str())
    }

    /// The directory of the 3D models (`<output>/<name>.3dshapes`).
    pub fn get_shapes_dir(&self) -> (res: String)
        ensures
            res@ == self.shapes_dir(),
    {
        join(
            self.output_path.as_str(),
            Self::suffixed(self.lib_name.as_str(), ".3dshapes").as_str(),
        )
    }

    /// The path of the VRML file of a 3D model.
    pub fn get_wrl_path(&self, model_name: &str) -> (res: String)
        ensures
            res@ == self.wrl_path(model_name@),
    {
        join(self.get_shapes_dir().as_str(), Self::suffixed(model_name, ".wrl").as_str())
    }

    /// The path of a footprint file.
    pub fn get_footprint_path(&self, footprint_name: &str) -> (res: String)
        ensures
            res@ == self.footprint_path(footprint_name@),
    {
        join(self.get_pretty_dir().as_str(), Self::suffixed(footprint_name, ".kicad_mod").as_str())
    }

    /// The path of the STEP file of a 3D model.
    pub fn get_step_path(&self, model_name: &str) -> (res: String)
        ensures
            res@ == self.step_path(model_name@),
    {
        join(self.get_shapes_dir().as_str(), Self::suffixed(model_name, ".step").as_str())
    }

    /// The path of the symbol library: `<name>.lib` in the old format,
    /// `<name>.kicad_sym` otherwise.
    pub fn get_symbol_lib_path(&self, v5: bool) -> (res: String)
        ensures
            res@ == join_path(
                self.output(),
                self.name() + if v5 {
                    ".lib"@
                } else {
                    ".kicad_sym"@
                },
            ),
    {
        if v5 {
            join(self.output_path.as_str(), Self::suffixed(self.lib_name.as_str(), ".lib").as_str())
        } else {
            join(
                self.output_path.as_str(),
                Self::suffixed(self.lib_name.as_str(), ".kicad_sym").as_str(),
            )
        }
    }

    fn output_outcome(&self, path: String, exists: bool) -> (res: WriteOutcome)
        ensures
            self.outcome_for(path@, exists, res),
    {
        if self.should_write_file(exists) {
            WriteOutcome::Written(path)
        } else {
            WriteOutcome::Skipped(path)
        }
    }

    /// What writing a footprint comes to, given whether its file exists;
    /// the caller writes the file where the outcome is `Written`.
    pub fn write_footprint_with_status(&self, footprint_name: &str, exists: bool) -> (res:
        WriteOutcome)
        ensures
            self.outcome_for(self.footprint_path(footprint_name@), exists, res),
    {
        self.output_outcome(self.get_footprint_path(footprint_name), exists)
    }

    /// The path of the footprint file that writing a footprint leaves.
    pub fn write_footprint(&self, footprint_name: &str, exists: bool) -> (res: String)
        ensures
            res@ == self.footprint_path(footprint_name@),
    {
        self.write_footprint_with_status(footprint_name, exists).into_path()
    }

    /// What writing a VRML model comes to, given whether its file exists.
    pub fn write_wrl_model_with_status(&self, model_name: &str, exists: bool) -> (res:
        WriteOutcome)
        ensures
            self.outcome_for(self.wrl_path(model_name@), exists, res),
    {
        self.output_outcome(self.get_wrl_path(model_name), exists)
    }

    /// The path of the VRML file that writing a VRML model leaves.
    pub fn write_wrl_model(&self, model_name: &str, exists: bool) -> (res: String)
        ensures
            res@ == self.wrl_path(model_name@),
    {
        self.write_wrl_model_with_status(model_name, exists).into_path()
    }

    /// What writing a STEP model comes to, given whether its file exists.
    pub fn write_step_model_with_status(&self, model_name: &str, exists: bool) -> (res:
        WriteOutcome)
        ensures
            self.outcome_for(self.step_path(model_name@), exists, res),
    {
        self.output_outcome(self.get_step_path(model_name), exists)
    }

    /// The path of the STEP file that writing a STEP model leaves.
    pub fn write_step_model(&self, model_name: &str, exists: bool) -> (res: String)
        ensures
            res@ == self.step_path(model_name@),
    {
        self.write_step_model_with_status(model_name, exists).into_path()
    }

    /// What writing both files of a 3D model comes to: the VRML file, the
    /// path of the STEP file in every case, and what becomes of the STEP file
    /// where there is STEP data to write (`None` leaves it untouched).
    pub fn write_3d_model(
        &self,
        model_name: &str,
        step_data: &[u8],
        wrl_exists: bool,
        step_exists: bool,
    ) -> (res: Model3dWrite)
        ensures
            self.outcome_for(self.wrl_path(model_name@), wrl_exists, res.wrl),
            res.wrl_path@ == self.wrl_path(model_name@),
            res.step_path@ == self.step_path(model_name@),
            res.step is None <==> step_data@.len() == 0,
            res.step matches Some(o) ==> self.outcome_for(self.step_path(model_name@), step_exists, o),
    {
        let wrl = self.write_wrl_model_with_status(model_name, wrl_exists);
        let wrl_path = self.get_wrl_path(model_name);
        let step_path = self.get_step_path(model_name);
        let step = if step_data.len() > 0 {
            Some(self.write_step_model_with_status(model_name, step_exists))
        } else {
            None
        };
        Model3dWrite { wrl, wrl_path, step_path, step }
    }
}

/// The pattern that finds the block of symbol `name` in the current format:
/// `(symbol`, white space, and the name in quotes.
pub open spec fn v6_symbol_pattern(name: Seq<char>) -> Seq<char> {
    "\\(symbol\\s+\""@ + regex_escaped(name) + "\""@
}

/// The pattern that finds the block of symbol `name` in the old format:
/// `DEF`, white space, the name, white space.
pub open spec fn v5_symbol_pattern(name: Seq<char>) -> Seq<char> {
    "DEF\\s+"@ + regex_escaped(name) + "\\s+"@
}

/// `"NAME"`: a name in the quotes that a symbol's opening puts around it.
pub open spec fn quoted(name: Seq<char>) -> Seq<char> {
    seq!['"'] + name + seq!['"']
}

/// The search for a symbol asks for its whole quoted name: the pattern is
/// `(symbol`, white space, and then, matched literally (each meta character
/// escaped), the quote, the name and the closing quote. So the quoted text it
/// asks for never fits the opening of a symbol whose name only starts with
/// the name searched for: where `longer` is `name` followed by more text that
/// does not begin with a quote, `"name"` is not a prefix of `"longer"`.
pub proof fn lemma_symbol_pattern_quotes_whole_name(name: Seq<char>, more: Seq<char>)
    requires
        more.len() > 0,
        more[0] != '"',
    ensures
        v6_symbol_pattern(name) == "\\(symbol\\s+"@ + regex_escaped(quoted(name)),
        !quoted(name).is_prefix_of(quoted(name + more)),
{
    reveal_strlit("\\(symbol\\s+\"");
    reveal_strlit("\\(symbol\\s+");
    reveal_strlit("\"");
    let q = seq!['"'];
    assert(regex_escaped(q) == q) by {
        assert(q.drop_last() =~= Seq::<char>::empty());
        assert(regex_escaped(Seq::<char>::empty()) == Seq::<char>::empty());
        assert(q.last() == '"');
        assert(!is_regex_meta('"'));
        assert(Seq::<char>::empty() + seq!['"'] =~= q);
    }
    crate::pattern::lemma_regex_escaped_concat(q, name);
    crate::pattern::lemma_regex_escaped_concat(q + name, q);
    assert("\\(symbol\\s+\""@ =~= "\\(symbol\\s+"@ + q);
    assert("\""@ =~= q);
    assert(v6_symbol_pattern(name) =~= "\\(symbol\\s+"@ + regex_escaped(quoted(name)));
    let k: int = name.len() as int + 1;
    assert(quoted(name)[k] == '"');
    assert(quoted(name + more)[k] == more[0]);
}

/// `pattern` compiles and matches somewhere in `content`.
pub open spec fn pattern_found(pattern: Seq<char>, content: Seq<char>) -> bool {
    regex_compiles(pattern) && regex_is_match(pattern, content)
}

/// Whether `pattern` compiles and matches somewhere in `content`.
fn search_pattern(pattern: &str, content: &str) -> (res: bool)
    ensures
        res == pattern_found(pattern@, content@),
{
    match compile_regex(pattern) {
        Some(re) => regex_matches(&re, content),
        None => false,
    }
}

fn v6_pattern_for(name: &str) -> (res: String)
    ensures
        res@ == v6_symbol_pattern(name@),
{
    let mut p = "\\(symbol\\s+\"".to_owned();
    let escaped = regex_escape(name);
    p.append(escaped.as_str());
    p.append("\"");
    p
}

fn v5_pattern_for(name: &str) -> (res: String)
    ensures
        res@ == v5_symbol_pattern(name@),
{
    let mut p = "DEF\\s+".to_owned();
    let escaped = regex_escape(name);
    p.append(escaped.as_str());
    p.append("\\s+");
    p
}

/// The view of an optional string slice.
pub open spec fn opt_text(s: Option<&str>) -> Option<Seq<char>> {
    match s {
        Some(t) => Some(t@),
        None => None,
    }
}

impl LibraryManager {
    /// Whether the symbol library with text `lib_content` (`None` where the
    /// file does not exist) holds symbol `component_name`, in either format.
    pub fn component_exists(&self, lib_content: Option<&str>, component_name: &str) -> (res: bool)
        ensures
            res == match lib_content {
                None => false,
                Some(c) => pattern_found(v6_symbol_pattern(component_name@), c@) || pattern_found(
                    v5_symbol_pattern(component_name@),
                    c@,
                ),
            },
    {
        match lib_content {
            None => false,
            Some(content) => {
                if search_pattern(v6_pattern_for(component_name).as_str(), content) {
                    return true;
                }
                search_pattern(v5_pattern_for(component_name).as_str(), content)
            },
        }
    }

    /// What adding or updating symbol `component_name` does to the symbol
    /// library with text `existing` (`None` where the file does not exist):
    /// the new text to write, or `None` where the symbol is there and is
    /// kept because `overwrite` is off. A symbol is there where its
    /// current-format block is found.
    pub fn add_or_update_component(
        &self,
        existing: Option<&str>,
        component_name: &str,
        component_data: &str,
        overwrite: bool,
    ) -> (res: Result<Option<String>, AppError>)
        ensures
            ({
                let exists = existing matches Some(c) && pattern_found(
                    v6_symbol_pattern(component_name@),
                    c@,
                );
                &&& !exists ==> (res matches Ok(Some(t)) && t@ == library_with_added(
                    opt_text(existing),
                    component_data@,
                ))
                &&& exists && !overwrite ==> (res matches Ok(None))
                &&& exists && overwrite ==> match replaced_component(
                    existing.unwrap()@,
                    component_name@,
                    component_data@,
                ) {
                    Some(t) => (res matches Ok(Some(r)) && r@ == t),
                    None => (res matches Err(AppError::ComponentNotFound(n)) && n@
                        == component_name@),
                }
            }),
    {
        let exists = match existing {
            Some(content) => search_pattern(v6_pattern_for(component_name).as_str(), content),
            None => false,
        };
        if exists && overwrite {
            match replace_component(existing.unwrap(), component_name, component_data) {
                Some(t) => Ok(Some(t)),
                None => Err(AppError::ComponentNotFound(component_name.to_owned())),
            }
        } else if !exists {
            Ok(Some(add_to_library(existing, component_data)))
        } else {
            Ok(None)
        }
    }

    /// The text of the symbol library with text `existing` (`None` where the
    /// file does not exist) once `component_data` is added.
    pub fn add_component(&self, existing: Option<&str>, component_data: &str) -> (res: String)
        ensures
            res@ == library_with_added(opt_text(existing), component_data@),
    {
        add_to_library(existing, component_data)
    }

    /// The text of the symbol library with text `content` once the block of
    /// `component_name` is replaced by `new_data`.
    pub fn update_component(&self, content: &str, component_name: &str, new_data: &str) -> (res:
        Result<String, AppError>)
        ensures
            match updated_component(content@, component_name@, new_data@) {
                Some(t) => res matches Ok(r) && r@ == t,
                None => res matches Err(AppError::ComponentNotFound(n)) && n@ == component_name@,
            },
    {
        match update_component_text(content, component_name, new_data) {
            Some(t) => Ok(t),
            None => Err(AppError::ComponentNotFound(component_name.to_owned())),
        }
    }
}

/// Without overwriting, an existing file is never written; with it, every
/// file is.
pub proof fn lemma_existing_files_kept(lib: LibraryManager, path: Seq<char>, o: WriteOutcome)
    requires
        lib.outcome_for(path, true, o),
    ensures
        !lib.overwrites() ==> o is Skipped,
        lib.overwrites() ==> o is Written,
{
}

} // verus!

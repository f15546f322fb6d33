use nlbn::library::LibraryManager;
use nlbn::paths::{join, path_file_name};
use nlbn::WriteOutcome;

#[test]
fn library_is_named_after_its_directory() {
    assert_eq!(LibraryManager::with_overwrite("out/parts", false).lib_name(), "parts");
    assert_eq!(LibraryManager::with_overwrite("out/parts/", false).lib_name(), "parts");
    assert_eq!(LibraryManager::with_overwrite("parts/.", false).lib_name(), "parts");
    assert_eq!(LibraryManager::with_overwrite(".", false).lib_name(), "nlbn");
    assert_eq!(LibraryManager::with_overwrite("/", false).lib_name(), "nlbn");
    assert_eq!(LibraryManager::with_overwrite("a/..", false).lib_name(), "nlbn");
    assert_eq!(LibraryManager::with_overwrite("", false).lib_name(), "nlbn");
}

#[test]
fn file_names_agree_with_std() {
    for p in ["a", "a/b", "a/b/", "./a", "a/./", "..", "a/..", "/", "", ".", "a//b//", "...", "./", "a/b/."] {
        let expected = std::path::Path::new(p).file_name().map(|n| n.to_str().unwrap().to_string());
        assert_eq!(path_file_name(p), expected, "{p}");
    }
}

#[test]
fn joins_agree_with_std() {
    for (base, part) in [("a", "b"), ("a/", "b"), ("", "b"), ("a", "/b"), ("/", "b"), ("a/b", "c.wrl")] {
        let expected = std::path::Path::new(base).join(part).to_str().unwrap().to_string();
        assert_eq!(join(base, part), expected, "{base} {part}");
    }
}

#[test]
fn asset_paths_sit_in_the_library_directories() {
    let lib = LibraryManager::with_overwrite("out", false);
    assert_eq!(lib.get_footprint_path("R_0603"), "out/out.pretty/R_0603.kicad_mod");
    assert_eq!(lib.get_wrl_path("M"), "out/out.3dshapes/M.wrl");
    assert_eq!(lib.get_step_path("M"), "out/out.3dshapes/M.step");
    assert_eq!(lib.get_symbol_lib_path(false), "out/out.kicad_sym");
    assert_eq!(lib.get_symbol_lib_path(true), "out/out.lib");
    assert_eq!(lib.get_pretty_dir(), "out/out.pretty");
    assert_eq!(lib.get_shapes_dir(), "out/out.3dshapes");
    assert_eq!(lib.output_path(), "out");
}

#[test]
fn existing_files_are_kept_without_overwrite() {
    let lib = LibraryManager::with_overwrite("out", false);
    assert!(!lib.overwrite_enabled());
    assert!(!lib.should_write_file(true));
    assert!(lib.should_write_file(false));
    let o = lib.write_footprint_with_status("F", true);
    assert_eq!(o, WriteOutcome::Skipped("out/out.pretty/F.kicad_mod".to_string()));
    assert!(!o.was_written());
    assert_eq!(o.path(), "out/out.pretty/F.kicad_mod");
    let o = lib.write_wrl_model_with_status("M", false);
    assert!(o.was_written());
    assert_eq!(lib.write_step_model("M", true), "out/out.3dshapes/M.step");
    assert_eq!(lib.write_footprint("F", false), "out/out.pretty/F.kicad_mod");
    assert_eq!(lib.write_wrl_model("M", true), "out/out.3dshapes/M.wrl");
}

#[test]
fn overwrite_writes_every_file() {
    let lib = LibraryManager::with_overwrite("out", true);
    assert!(lib.should_write_file(true));
    assert!(lib.write_step_model_with_status("M", true).was_written());
    let w = lib.write_3d_model("M", &[1, 2, 3], true, true);
    assert!(w.wrl.was_written());
    assert_eq!(w.wrl_path, "out/out.3dshapes/M.wrl");
    assert_eq!(w.step_path, "out/out.3dshapes/M.step");
    assert_eq!(w.step.unwrap().into_path(), "out/out.3dshapes/M.step");
    let w = lib.write_3d_model("M", &[], true, true);
    assert!(w.step.is_none());
    assert_eq!(w.step_path, "out/out.3dshapes/M.step");
}

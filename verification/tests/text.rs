use nlbn::model_converter::{model_3d_name, model_3d_report, model_file_status, ModelFileResult};
use nlbn::pattern::{compile_regex, regex_escape, regex_find_texts, regex_matches};
use nlbn::text::{char_is_whitespace, str_chars};
use nlbn::model_converter::model_fetch_plan;
use nlbn::{Model3dExportOptions, WriteOutcome};

#[test]
fn whitespace_agrees_with_std() {
    for c in (0u32..=0x10FFFF).filter_map(char::from_u32) {
        assert_eq!(char_is_whitespace(c), c.is_whitespace(), "{:?}", c);
    }
}

#[test]
fn chars_round_trip() {
    let s = "a\u{e9}\u{2713}b";
    assert_eq!(str_chars(s), s.chars().collect::<Vec<char>>());
}

#[test]
fn escaping_protects_meta_characters() {
    assert_eq!(regex_escape("a.b(c)"), "a\\.b\\(c\\)");
    assert_eq!(regex_escape("plain"), "plain");
}

#[test]
fn regex_searches_go_through() {
    let re = compile_regex("C\\d+").unwrap();
    assert_eq!(regex_find_texts(&re, "x C12 C3y"), vec!["C12", "C3"]);
    assert!(regex_matches(&re, "aC1"));
    assert!(!regex_matches(&re, "C"));
    assert!(compile_regex("(").is_none());
}

#[test]
fn model_reports() {
    assert_eq!(model_3d_name("SOT-23", "C5"), "SOT-23_C5");
    assert_eq!(model_3d_report("M", true, true, false, false), "\u{2713} 3D model kept: M (WRL + STEP)");
    assert_eq!(model_3d_report("M", true, false, true, false), "\u{2713} 3D model converted: M (WRL only)");
    assert_eq!(model_3d_report("M", false, true, false, true), "\u{2713} 3D model converted: M (STEP only)");
    assert_eq!(model_3d_report("M", false, false, false, false), "\u{26a0} 3D model not available");
    assert_eq!(model_file_status(&ModelFileResult::NotFetched { present: true }), (true, false));
    assert_eq!(model_file_status(&ModelFileResult::Failed), (false, false));
    assert_eq!(
        model_file_status(&ModelFileResult::Stored(WriteOutcome::Written("p".to_string()))),
        (true, true)
    );
}

#[test]
fn model_files_follow_the_model_overwrite_option() {
    let keep = Model3dExportOptions { overwrite: false };
    assert_eq!(model_fetch_plan(&keep, true, true), (false, false));
    assert_eq!(model_fetch_plan(&keep, true, false), (false, true));
    let replace = Model3dExportOptions { overwrite: true };
    assert_eq!(model_fetch_plan(&replace, true, true), (true, true));
}

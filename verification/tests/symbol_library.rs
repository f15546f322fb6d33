use nlbn::library::LibraryManager;
use nlbn::symbol_library::{add_to_library, replace_component, symbol_data_is_v6};
use nlbn::AppError;

const HEADER: &str = "(kicad_symbol_lib\n  (version 20211014)\n  (generator nlbn)";

#[test]
fn adding_to_a_new_library_writes_the_header() {
    let data = "  (symbol \"R1\" (pin 1))";
    assert!(symbol_data_is_v6(data));
    let text = add_to_library(None, data);
    assert_eq!(text, format!("{HEADER}\n{data}\n)\n"));
    let old = add_to_library(None, "DEF R1 R 0 0 Y Y 1 F N\nENDDEF");
    assert_eq!(old, "EESchema-LIBRARY Version 2.4\n#encoding utf-8\nDEF R1 R 0 0 Y Y 1 F N\nENDDEF\n");
}

#[test]
fn adding_twice_keeps_both_symbols_under_one_closing() {
    let a = "  (symbol \"A\" (x))";
    let b = "  (symbol \"B\" (y))";
    let first = add_to_library(None, a);
    let second = add_to_library(Some(&first), b);
    assert_eq!(second, format!("{HEADER}\n{a}\n\n{b}\n)\n"));
}

#[test]
fn replacing_a_symbol_keeps_the_rest() {
    let text = "(kicad_symbol_lib\n  (symbol \"A\" (x (y)))\n  (symbol \"B\" (z))\n)\n";
    let replaced = replace_component(text, "A", "  (symbol \"A\" (new))").unwrap();
    assert_eq!(replaced, "(kicad_symbol_lib\n  (symbol \"A\" (new))\n  (symbol \"B\" (z))\n)\n");
    assert!(replace_component(text, "C", "x").is_none());
}

#[test]
fn replacing_an_old_format_symbol() {
    let text = "EESchema-LIBRARY Version 2.4\nDEF R1 R 0\nX\nENDDEF\nDEF R2 R 0\nENDDEF\n";
    let replaced = replace_component(text, "R1", "DEF R1 R 1\nENDDEF\n").unwrap();
    assert_eq!(replaced, "EESchema-LIBRARY Version 2.4\nDEF R1 R 1\nENDDEF\nDEF R2 R 0\nENDDEF\n");
}

#[test]
fn symbols_are_found_in_either_format() {
    let lib = LibraryManager::with_overwrite("out", false);
    assert!(lib.component_exists(Some("(symbol  \"R.1\" (x))"), "R.1"));
    assert!(!lib.component_exists(Some("(symbol \"Rx1\" (x))"), "R.1"));
    assert!(lib.component_exists(Some("DEF\tR1  R"), "R1"));
    assert!(!lib.component_exists(None, "R1"));
}

#[test]
fn existing_symbol_is_kept_without_overwrite() {
    let lib = LibraryManager::with_overwrite("out", false);
    let text = format!("{HEADER}\n  (symbol \"A\" (x))\n)\n");
    let r = lib.add_or_update_component(Some(&text), "A", "  (symbol \"A\" (new))", false).unwrap();
    assert!(r.is_none());
    let r = lib.add_or_update_component(Some(&text), "A", "  (symbol \"A\" (new))", true).unwrap();
    assert_eq!(r.unwrap(), format!("{HEADER}\n  (symbol \"A\" (new))\n)\n"));
    let r = lib.add_or_update_component(Some(&text), "B", "  (symbol \"B\" (y))", false).unwrap();
    assert_eq!(r.unwrap(), format!("{HEADER}\n  (symbol \"A\" (x))\n\n  (symbol \"B\" (y))\n)\n"));
    let r = lib.add_or_update_component(None, "B", "  (symbol \"B\" (y))", false).unwrap();
    assert_eq!(r.unwrap(), format!("{HEADER}\n  (symbol \"B\" (y))\n)\n"));
}

#[test]
fn explicit_update_replaces_the_symbol_block() {
    let lib = LibraryManager::with_overwrite("out", false);
    let text = "(kicad_symbol_lib\n  (generator nlbn)\n  (symbol \"R1\" (pin 1))\n  (symbol \"R2\")\n)\n";
    let r = lib.update_component(text, "R1", "(symbol \"R1\" (pin 2))").unwrap();
    assert_eq!(
        r,
        "(kicad_symbol_lib\n  (generator nlbn)\n  (symbol \"R1\" (pin 2))\n  (symbol \"R2\")\n)\n"
    );
    let text = "DEF R1 R 0\nENDDEF\nDEF R2 R 0\nENDDEF\n";
    assert_eq!(lib.update_component(text, "R2", "DEF R2 R 9\nENDDEF\n").unwrap(), "DEF R1 R 0\nENDDEF\nDEF R2 R 9\nENDDEF\n");
    match lib.update_component("nothing", "A", "NEW") {
        Err(AppError::ComponentNotFound(n)) => assert_eq!(n, "A"),
        other => panic!("unexpected {:?}", other),
    }
    assert_eq!(lib.add_component(None, "DEF A\nENDDEF"), "EESchema-LIBRARY Version 2.4\n#encoding utf-8\nDEF A\nENDDEF\n");
}

#[test]
fn added_symbols_stay_findable_and_balanced() {
    let lib = LibraryManager::with_overwrite("out", false);
    let a = "  (symbol \"A\" (pin (at 0 0)))";
    let b = "  (symbol \"B\" (pin (at 1 1)))";
    let first = add_to_library(None, a);
    let second = add_to_library(Some(&first), b);
    let balance = |s: &str| s.chars().filter(|&c| c == '(').count() as i64 - s.chars().filter(|&c| c == ')').count() as i64;
    assert_eq!(balance(&first), 0);
    assert_eq!(balance(&second), 0);
    assert_eq!(second.find("(symbol \"A\""), first.find("(symbol \"A\""));
    assert_eq!(second[first.len() - 1..].find(b), Some(0));
    assert!(lib.component_exists(Some(&second), "A"));
    assert!(lib.component_exists(Some(&second), "B"));
}

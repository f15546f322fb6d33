use nlbn::export_options::{resolve_lcsc_ids, validate_cli, parse_symbol_fill_color};
use nlbn::{AppError, Cli, ComponentConversionRequest, ConversionStep, RunRequest, SymbolFillColor};

fn test_cli() -> Cli {
    Cli {
        lcsc_id: Some("C123456".to_string()),
        batch: None,
        symbol: false,
        footprint: false,
        model_3d: false,
        full: true,
        output: "out".to_string(),
        overwrite: true,
        overwrite_symbol: false,
        overwrite_footprint: false,
        overwrite_model_3d: false,
        project_relative: true,
        symbol_fill_color: Some("#005C8FCC".to_string()),
        debug: false,
        continue_on_error: true,
        parallel: 8,
    }
}

#[test]
fn run_request_expands_full_conversion_flags() {
    let request = RunRequest::try_from(test_cli(), None).unwrap();

    assert_eq!(request.lcsc_ids, vec!["C123456"]);
    assert!(request.component.convert_symbol);
    assert!(request.component.convert_footprint);
    assert!(request.component.convert_model_3d);
    assert!(request.component.footprint.include_3d_model);
    assert!(request.component.footprint.project_relative_3d);
    assert!(request.component.footprint.overwrite);
    assert!(request.component.model_3d.overwrite);
    assert!(request.component.symbol.symbol_fill_color.is_some());
    assert_eq!(request.run.output, "out");
    assert!(request.run.continue_on_error);
    assert_eq!(request.run.parallel, 8);
}

#[test]
fn run_request_keeps_the_fill_color_channels() {
    let request = RunRequest::try_from(test_cli(), None).unwrap();
    assert_eq!(
        request.component.symbol.symbol_fill_color,
        Some(SymbolFillColor { red: 0x00, green: 0x5C, blue: 0x8F, alpha: 0xCC })
    );
    assert!(request.run.overwrite);
}

#[test]
fn missing_id_source_is_refused() {
    let mut cli = test_cli();
    cli.lcsc_id = None;
    assert!(matches!(validate_cli(&cli), Err(AppError::MissingIdSource)));
    assert!(matches!(RunRequest::try_from(cli, None), Err(AppError::MissingIdSource)));
}

#[test]
fn malformed_id_is_refused() {
    for bad in ["C", "X123", ""] {
        let mut cli = test_cli();
        cli.lcsc_id = Some(bad.to_string());
        match validate_cli(&cli) {
            Err(AppError::InvalidLcscId(id)) => assert_eq!(id, bad),
            other => panic!("unexpected {:?}", other),
        }
    }
    let mut cli = test_cli();
    cli.lcsc_id = Some("C1".to_string());
    assert!(validate_cli(&cli).is_ok());
}

#[test]
fn no_conversion_selected_is_refused() {
    let mut cli = test_cli();
    cli.full = false;
    assert!(matches!(validate_cli(&cli), Err(AppError::NoConversionSelected)));
    cli.footprint = true;
    assert!(validate_cli(&cli).is_ok());
}

#[test]
fn bad_fill_color_is_refused() {
    let mut cli = test_cli();
    cli.symbol_fill_color = Some("#12345".to_string());
    match RunRequest::try_from(cli, None) {
        Err(AppError::InvalidSymbolFillColor(v)) => assert_eq!(v, "#12345"),
        other => panic!("unexpected {:?}", other.map(|r| r.lcsc_ids)),
    }
}

#[test]
fn the_first_problem_is_reported() {
    let mut cli = test_cli();
    cli.lcsc_id = Some("bad".to_string());
    cli.full = false;
    cli.symbol_fill_color = Some("nope".to_string());
    assert!(matches!(validate_cli(&cli), Err(AppError::InvalidLcscId(_))));
}

#[test]
fn batch_text_yields_every_id() {
    let mut cli = test_cli();
    cli.lcsc_id = None;
    cli.batch = Some("ids.txt".to_string());
    let content = "C1, C22\nfoo C333x\nC\n".to_string();
    let request = RunRequest::try_from(cli, Some(content)).unwrap();
    assert_eq!(request.lcsc_ids, vec!["C1", "C22", "C333"]);
}

#[test]
fn batch_text_without_ids_is_refused() {
    let mut cli = test_cli();
    cli.lcsc_id = None;
    cli.batch = Some("ids.txt".to_string());
    let r = resolve_lcsc_ids(&cli, &Some("nothing here\nC\n".to_string()));
    assert!(matches!(r, Err(AppError::NoIdsInBatch)));
    let r = resolve_lcsc_ids(&cli, &None);
    assert!(matches!(r, Err(AppError::NoIdSource)));
}

#[test]
fn single_id_takes_precedence_over_batch() {
    let mut cli = test_cli();
    cli.batch = Some("ids.txt".to_string());
    let r = resolve_lcsc_ids(&cli, &Some("C9".to_string())).unwrap();
    assert_eq!(r, vec!["C123456"]);
}

#[test]
fn overwrite_flags_are_per_asset() {
    let mut cli = test_cli();
    cli.overwrite = false;
    cli.overwrite_footprint = true;
    let r = ComponentConversionRequest::from_cli(&cli).unwrap();
    assert!(!r.symbol.overwrite);
    assert!(r.footprint.overwrite);
    assert!(!r.model_3d.overwrite);
    assert!(r.overwrite_any());
    cli.full = false;
    cli.symbol = true;
    let r = ComponentConversionRequest::from_cli(&cli).unwrap();
    assert!(!r.overwrite_any());
    let assets = r.checkpoint_assets();
    assert!(assets.symbol && !assets.footprint && !assets.model_3d);
}

#[test]
fn steps_run_symbol_then_model_then_footprint() {
    let r = ComponentConversionRequest::from_cli(&test_cli()).unwrap();
    assert_eq!(
        r.conversion_steps(),
        vec![ConversionStep::Symbol, ConversionStep::Model3d, ConversionStep::Footprint]
    );
    let mut cli = test_cli();
    cli.full = false;
    cli.footprint = true;
    let r = ComponentConversionRequest::from_cli(&cli).unwrap();
    assert_eq!(r.conversion_steps(), vec![ConversionStep::Footprint]);
}

#[test]
fn fill_colors_parse_in_both_forms() {
    assert_eq!(
        SymbolFillColor::parse("#a0B1c2").unwrap(),
        SymbolFillColor { red: 0xA0, green: 0xB1, blue: 0xC2, alpha: 0xFF }
    );
    assert_eq!(
        SymbolFillColor::parse("#00000080").unwrap(),
        SymbolFillColor { red: 0, green: 0, blue: 0, alpha: 0x80 }
    );
    for bad in ["a0b1c2", "#a0b1c", "#a0b1c2d", "#g0b1c2", "#a0b1c2dd1", ""] {
        assert!(SymbolFillColor::parse(bad).is_err(), "{bad}");
    }
    assert_eq!(parse_symbol_fill_color(&None).unwrap(), None);
}

#[test]
fn error_messages_read_as_text() {
    assert_eq!(
        AppError::MissingIdSource.message(),
        "Either --lcsc-id or --batch must be specified"
    );
    assert_eq!(AppError::InvalidLcscId("X1".to_string()).message(), "Invalid LCSC ID: X1");
    assert_eq!(
        AppError::ComponentNotFound("R1".to_string()).message(),
        "Component R1 not found in library"
    );
    let e = AppError::Io {
        context: "read checkpoint".to_string(),
        path: "out/.checkpoint".to_string(),
        message: "denied".to_string(),
    };
    assert_eq!(e.message(), "Failed to read checkpoint out/.checkpoint: denied");
}

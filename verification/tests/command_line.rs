use brstm_speed_tool::cli::{
    brstm_extension_matches, classify_convert_arg, expect_file_path, has_brstm_extension,
    parse_convert_options, select_command, trim_str, Command, ConvertArg,
};

fn args(list: &[&str]) -> Vec<String> {
    list.iter().map(|s| s.to_string()).collect()
}

#[test]
fn trim_removes_unicode_white_space() {
    assert_eq!(trim_str("\u{3000}\t a b \n\u{a0}"), "a b");
    assert_eq!(trim_str(" \u{2009} "), "");
    assert_eq!(trim_str("x"), "x");
}

#[test]
fn expect_file_path_accepts_file() {
    assert_eq!(expect_file_path("  song.brstm ", "Input BRSTM"), Ok(()));
}

#[test]
fn expect_file_path_rejects_blank() {
    assert_eq!(
        expect_file_path(" \t", "Output WAV"),
        Err("Output WAV path is empty".to_string())
    );
}

#[test]
fn expect_file_path_rejects_flag() {
    let msg = expect_file_path(" --loop-preview", "Input BRSTM").unwrap_err();
    assert!(msg.starts_with("Input BRSTM was \" --loop-preview\", which looks like a flag, not a file.\n"));
    assert!(msg.contains("\nExamples:\nbrstm_speed_tool --loop-preview mysong.brstm\n"));
    assert!(msg.ends_with("brstm_speed_tool --export-wav --loop-preview out.wav"));
}

#[test]
fn no_arguments_prints_usage() {
    assert!(matches!(select_command(&args(&["prog"]), false), Ok(Command::Usage)));
}

#[test]
fn drag_and_drop_brstm() {
    match select_command(&args(&["prog", " song.BRSTM "]), true) {
        Ok(Command::DragAndDrop { input }) => assert_eq!(input, "song.BRSTM"),
        _ => panic!("expected drag and drop"),
    }
}

#[test]
fn single_non_brstm_argument_prints_usage() {
    assert!(matches!(select_command(&args(&["prog", "notes.txt"]), false), Ok(Command::Usage)));
}

#[test]
fn loop_info_argument_count() {
    assert_eq!(
        select_command(&args(&["prog", "--loop-info"]), false).err(),
        Some("Usage: brstm_speed_tool --loop-info <file.brstm>".to_string())
    );
    match select_command(&args(&["prog", "--loop-info", "a.brstm"]), false) {
        Ok(Command::LoopInfo { path }) => assert_eq!(path, "a.brstm"),
        _ => panic!("expected loop info"),
    }
}

#[test]
fn export_wav_selected() {
    match select_command(&args(&["prog", "--export-wav", "a.brstm", "a.wav"]), false) {
        Ok(Command::ExportWav { input, output }) => {
            assert_eq!(input, "a.brstm");
            assert_eq!(output, "a.wav");
        }
        _ => panic!("expected export"),
    }
    assert_eq!(
        select_command(&args(&["prog", "--export-wav", "a.brstm"]), false).err(),
        Some("Usage: brstm_speed_tool --export-wav <in.brstm> <out.wav>".to_string())
    );
}

#[test]
fn loop_preview_commands_selected() {
    assert!(matches!(
        select_command(&args(&["prog", "--loop-preview", "a.brstm"]), false),
        Ok(Command::LoopPreview { .. })
    ));
    assert_eq!(
        select_command(&args(&["prog", "--loop-preview", "a", "b"]), false).err(),
        Some("Usage: brstm_speed_tool --loop-preview <file.brstm>".to_string())
    );
    assert!(matches!(
        select_command(&args(&["prog", "--loop-preview-wav", "a.brstm", "b.wav"]), false),
        Ok(Command::LoopPreviewWav { .. })
    ));
    assert_eq!(
        select_command(&args(&["prog", "--loop-preview-wav", "a"]), false).err(),
        Some("Usage: brstm_speed_tool --loop-preview-wav <in.brstm> <out.wav>".to_string())
    );
}

#[test]
fn convert_selected() {
    match select_command(&args(&["prog", "in.brstm", "out.brstm", "1.2"]), false) {
        Ok(Command::Convert { input, output }) => {
            assert_eq!(input, "in.brstm");
            assert_eq!(output, "out.brstm");
        }
        _ => panic!("expected convert"),
    }
}

#[test]
fn flag_alone_is_not_drag_and_drop() {
    assert!(matches!(select_command(&args(&["prog", "-x.brstm"]), true), Ok(Command::Usage)));
}

#[test]
fn convert_options() {
    assert_eq!(classify_convert_arg("--simple-resample", true), Ok(ConvertArg::SimpleResample));
    assert_eq!(classify_convert_arg("1.15", false), Ok(ConvertArg::Speed));
    assert_eq!(
        classify_convert_arg("--fast", false),
        Err("unknown option: --fast (try --simple-resample)".to_string())
    );
    assert_eq!(
        classify_convert_arg("2.0", true),
        Err("unexpected extra argument: 2.0".to_string())
    );
}

#[test]
fn convert_option_list() {
    let o = parse_convert_options(&args(&["1.3", "--simple-resample"])).ok().unwrap();
    assert!(o.simple_resample);
    assert_eq!(o.speed, Some("1.3".to_string()));
    let none = parse_convert_options(&args(&[])).ok().unwrap();
    assert!(!none.simple_resample);
    assert_eq!(none.speed, None);
    let e = parse_convert_options(&args(&["abc", "--bogus", "2"])).err().unwrap();
    assert_eq!(e.message, "unknown option: --bogus (try --simple-resample)");
    assert_eq!(e.speed_before, Some("abc".to_string()));
    let e = parse_convert_options(&args(&["--simple-resample", "1", "2"])).err().unwrap();
    assert_eq!(e.message, "unexpected extra argument: 2");
    assert_eq!(e.speed_before, Some("1".to_string()));
    let e = parse_convert_options(&args(&["-x"])).err().unwrap();
    assert_eq!(e.speed_before, None);
}

#[test]
fn brstm_extension_ignores_ascii_case() {
    assert!(brstm_extension_matches("brstm"));
    assert!(brstm_extension_matches("BrStM"));
    assert!(!brstm_extension_matches("brstmx"));
    assert!(!brstm_extension_matches("brsTn"));
    assert!(!brstm_extension_matches(""));
}

#[test]
fn brstm_extension_of_paths() {
    assert!(has_brstm_extension("song.BRSTM"));
    assert!(has_brstm_extension("  music/loop.brstm \n"));
    assert!(has_brstm_extension("a.b.brstm"));
    assert!(!has_brstm_extension("song.wav"));
    assert!(!has_brstm_extension("song.brstm.wav"));
    assert!(!has_brstm_extension(".brstm"));
    assert!(!has_brstm_extension("brstm"));
    assert!(!has_brstm_extension("--loop-info"));
}

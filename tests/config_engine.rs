use patchops::config::{
    apply_preset, check_essential_status, insert_setting, find_preset, preset_changes, set_config_value, setting_change,
    update_config_values, ConfigError, Presets, PresetEntry, VSYNC_LINE,
};
use patchops::pattern::Pattern;

fn entry(key: &str, value: &str, comment: &str) -> (String, PresetEntry) {
    (key.to_string(), PresetEntry(value.to_string(), comment.to_string()))
}

fn table(name: &str, entries: Vec<(String, PresetEntry)>) -> Presets {
    Presets(vec![(name.to_string(), entries)])
}

fn rule(pattern: &str, replacement: &str) -> (Pattern, String) {
    (Pattern::new(pattern).unwrap(), replacement.to_string())
}

#[test]
fn preset_rewrites_only_its_line() {
    let contents = "// header\nMaxFPS = \"60\" // cap\nFOV = \"80\" // view\n";
    let presets = table("Uncapped", vec![entry("MaxFPS", "165", "uncapped")]);
    let applied = apply_preset(contents, "Uncapped", &presets).unwrap();
    assert_eq!(applied.contents, "// header\nMaxFPS = \"165\" // uncapped\nFOV = \"80\" // view\n");
    assert!(applied.stutter.is_empty());
}

#[test]
fn setting_matches_indented_key_and_spaces() {
    let out = set_config_value("  MaxFPS=\"60\"\nMaxFPSCap = \"1\"\n", "MaxFPS", "90", "set").unwrap();
    assert_eq!(out, "MaxFPS = \"90\" // set\nMaxFPSCap = \"1\"\n");
}

#[test]
fn setting_key_is_matched_literally() {
    let out = set_config_value("AxB = \"1\"\nA.B = \"2\"\n", "A.B", "3", "dot").unwrap();
    assert_eq!(out, "AxB = \"1\"\nA.B = \"3\" // dot\n");
}

#[test]
fn setting_change_builds_pattern_and_line() {
    let (p, line) = setting_change("Vsync", "0", "off").unwrap();
    assert_eq!(p.as_str(), "^\\s*Vsync\\s*=");
    assert_eq!(line, "Vsync = \"0\" // off");
}

#[test]
fn earliest_matching_rule_applies() {
    let changes = vec![rule("^Max", "first"), rule("FPS", "second")];
    let out = update_config_values("MaxFPS = 1\nDrawFPS = 0\nOther\n", &changes);
    assert_eq!(out, "first\nsecond\nOther\n");
}

#[test]
fn rewriting_twice_changes_nothing_more() {
    let changes = vec![
        rule("^\\s*MaxFPS\\s*=", "MaxFPS = \"165\" // a"),
        rule("^\\s*FOV\\s*=", "FOV = \"90\" // b"),
    ];
    let input = "MaxFPS = \"60\"\r\n  FOV = \"80\"\nkeep me\n";
    let once = update_config_values(input, &changes);
    let twice = update_config_values(&once, &changes);
    assert_eq!(once, "MaxFPS = \"165\" // a\nFOV = \"90\" // b\nkeep me\n");
    assert_eq!(once, twice);
}

#[test]
fn rewrite_normalises_line_endings() {
    let out = update_config_values("a\r\nb", &[]);
    assert_eq!(out, "a\nb\n");
    assert_eq!(update_config_values("", &[]), "");
    assert_eq!(update_config_values("\n\n", &[]), "\n\n");
}

#[test]
fn invalid_pattern_is_refused() {
    assert!(Pattern::new("(").is_none());
    assert!(Pattern::new("^a").is_some());
}

#[test]
fn unknown_preset_is_an_error() {
    let presets = table("Low", vec![entry("FOV", "80", "x")]);
    let err = apply_preset("FOV = \"1\"\n", "High", &presets).err().unwrap();
    assert_eq!(err, ConfigError::PresetNotFound("High".to_string()));
    assert_eq!(find_preset(&presets, "High"), None);
    assert_eq!(find_preset(&presets, "Low"), Some(0));
}

#[test]
fn triple_buffering_forces_vsync() {
    let contents = "BackbufferCount = \"2\"\nVsync = \"0\" // off\n";
    let presets = table("Smooth", vec![entry("BackbufferCount", "3", "triple")]);
    let applied = apply_preset(contents, "Smooth", &presets).unwrap();
    assert_eq!(
        applied.contents,
        format!("BackbufferCount = \"3\" // triple\n{}\n", VSYNC_LINE)
    );
}

#[test]
fn other_buffer_counts_leave_vsync() {
    let contents = "BackbufferCount = \"3\"\nVsync = \"0\" // off\n";
    let presets = table("Double", vec![entry("BackbufferCount", "2", "double")]);
    let applied = apply_preset(contents, "Double", &presets).unwrap();
    assert_eq!(applied.contents, "BackbufferCount = \"2\" // double\nVsync = \"0\" // off\n");
    assert!(!applied.contents.contains(VSYNC_LINE));
    let plan = preset_changes(&vec![entry("BackbufferCount", "2", "double")]).ok().unwrap();
    assert_eq!(plan.changes.len(), 1);
    let plan = preset_changes(&vec![entry("BackbufferCount", "3", "triple")]).ok().unwrap();
    assert_eq!(plan.changes.len(), 2);
    assert_eq!(plan.changes[1].1, VSYNC_LINE);
}

#[test]
fn stutter_key_becomes_a_toggle() {
    let entries = vec![
        entry("ReduceStutter", "1", "on"),
        entry("FOV", "90", "wide"),
        entry("ReduceStutter", "0", "off"),
    ];
    let plan = preset_changes(&entries).ok().unwrap();
    assert_eq!(plan.stutter, vec![true, false]);
    assert_eq!(plan.changes.len(), 1);
    assert_eq!(plan.changes[0].1, "FOV = \"90\" // wide");
    let presets = table("P", entries);
    let applied = apply_preset("ReduceStutter = \"0\"\nFOV = \"80\"\n", "P", &presets).unwrap();
    assert_eq!(applied.contents, "ReduceStutter = \"0\"\nFOV = \"90\" // wide\n");
}

#[test]
fn status_reads_present_keys() {
    let content = "MaxFPS = \"120\"\nFOV = \"95\"\nFullScreenMode = \"2\"\nWindowSize = \"1920x1080\"\n\
RefreshRate = \"144\"\nVsync = \"0\"\nDrawFPS = \"1\"\nRestrictGraphicsOptions = \"1\"\n\
SmoothFramerate = \"1\"\nVideoMemory = \"0.9\"\nStreamMinResident = \"0\"\nMaxFrameLatency = \"3\"\n\
SerializeRender = \"1\"\n";
    let s = check_essential_status(Some(content), true);
    assert_eq!((s.max_fps, s.fov, s.display_mode, s.latency), (120, 95, 2, 3));
    assert_eq!(s.resolution, "1920x1080");
    assert_eq!(s.refresh_rate, "144");
    assert!(!s.vsync && s.draw_fps && s.all_settings && s.smooth && s.reduce_cpu && s.skip_intro);
    assert!(s.vram);
    assert_eq!(s.vram_value, "0.9");
}

#[test]
fn status_missing_keys_take_defaults() {
    let s = check_essential_status(Some("FOV = \"70\"\nUnrelated = \"5\"\n"), false);
    assert_eq!(s.fov, 70);
    assert_eq!((s.max_fps, s.display_mode, s.latency), (165, 1, 1));
    assert_eq!(s.resolution, "2560x1440");
    assert_eq!(s.refresh_rate, "165");
    assert!(s.vsync && !s.draw_fps && !s.all_settings && !s.smooth && !s.reduce_cpu && !s.skip_intro);
    assert!(!s.vram);
    assert_eq!(s.vram_value, "1");
}

#[test]
fn status_unreadable_number_takes_default() {
    let s = check_essential_status(Some("MaxFPS = \"fast\"\nFOV = \"99999999999\"\n"), false);
    assert_eq!(s.max_fps, 165);
    assert_eq!(s.fov, 80);
}

#[test]
fn status_of_missing_file_takes_defaults() {
    let s = check_essential_status(None, true);
    assert_eq!((s.max_fps, s.fov, s.display_mode, s.latency), (165, 80, 1, 1));
    assert_eq!(s.resolution, "2560x1440");
    assert_eq!(s.refresh_rate, "165");
    assert_eq!(s.vram_value, "1");
    assert!(s.vsync && !s.draw_fps && !s.all_settings && !s.smooth && !s.reduce_cpu);
    assert!(!s.vram);
    assert!(s.skip_intro);
    assert!(!check_essential_status(None, false).skip_intro);
}

#[test]
fn vram_override_four_combinations() {
    let read = |vm: &str, sm: &str| {
        let c = format!("VideoMemory = \"{}\"\nStreamMinResident = \"{}\"\n", vm, sm);
        check_essential_status(Some(&c), false).vram
    };
    assert!(!read("1", "0"));
    assert!(read("1", "1"));
    assert!(read("0", "0"));
    assert!(read("0", "1"));
}

#[test]
fn preset_table_keeps_names_and_keys_unique() {
    let mut preset = Vec::new();
    insert_setting(&mut preset, "FOV".to_string(), PresetEntry("80".into(), "a".into()));
    insert_setting(&mut preset, "MaxFPS".to_string(), PresetEntry("60".into(), "b".into()));
    insert_setting(&mut preset, "FOV".to_string(), PresetEntry("90".into(), "c".into()));
    assert_eq!(preset.len(), 2);
    assert_eq!(preset[0].0, "FOV");
    assert_eq!(preset[0].1 .0, "90");
    let mut presets = Presets::new();
    presets.insert("Low".to_string(), preset.clone());
    presets.insert("High".to_string(), Vec::new());
    presets.insert("Low".to_string(), vec![entry("FOV", "70", "narrow")]);
    assert_eq!(presets.0.len(), 2);
    assert_eq!(find_preset(&presets, "Low"), Some(0));
    assert_eq!(presets.0[0].1.len(), 1);
    let applied = apply_preset("FOV = \"80\"\n", "Low", &presets).unwrap();
    assert_eq!(applied.contents, "FOV = \"70\" // narrow\n");
}

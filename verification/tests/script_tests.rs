use redumper_gui::script::{
    chinese_font_paths, detect_in_chars, detect_script, has_chinese, has_japanese, has_korean, japanese_font_paths,
    korean_font_paths, FontGroup, FontState, ScriptDetected, TargetOs,
};

#[test]
fn script_ranges() {
    assert!(has_japanese('\u{3042}'));
    assert!(has_japanese('\u{30AB}'));
    assert!(has_japanese('\u{FF76}'));
    assert!(!has_japanese('A'));
    assert!(has_chinese('\u{4E2D}'));
    assert!(has_chinese('\u{20000}'));
    assert!(!has_chinese('\u{3042}'));
    assert!(has_korean('\u{D55C}'));
    assert!(has_korean('\u{1100}'));
    assert!(!has_korean('\u{4E2D}'));
}

#[test]
fn detection_sets_flags() {
    let mut d = ScriptDetected::default();
    detect_script('a', &mut d);
    assert_eq!(d, ScriptDetected::default());
    detect_script('\u{4E2D}', &mut d);
    assert_eq!(d, ScriptDetected { japanese: false, chinese: true, korean: false });
    let text: Vec<char> = "\u{30B2}\u{30FC}\u{30E0} \u{D55C}".chars().collect();
    detect_in_chars(&text, &mut d);
    assert_eq!(d, ScriptDetected { japanese: true, chinese: true, korean: true });
}

#[test]
fn font_paths_per_os() {
    assert_eq!(japanese_font_paths(TargetOs::Windows)[0], "C:\\Windows\\Fonts\\YuGothM.ttc");
    assert_eq!(japanese_font_paths(TargetOs::MacOs).len(), 2);
    assert_eq!(chinese_font_paths(TargetOs::Other).len(), 5);
    assert_eq!(korean_font_paths(TargetOs::MacOs)[1], "/Library/Fonts/AppleGothic.ttf");
    assert_eq!(korean_font_paths(TargetOs::Other)[3], "/usr/share/fonts/adobe-source-han/SourceHanSans.ttc");
}

#[test]
fn load_plan_orders_loaded_then_needed() {
    let mut s = FontState::default();
    assert!(s.load_plan().is_empty());
    assert!(!s.all_loaded());
    s.detect_in_str("\u{D55C}\u{AE00}");
    assert_eq!(s.load_plan(), vec![(FontGroup::Korean, true)]);
    s.mark_loaded(FontGroup::Korean);
    assert!(s.load_plan().is_empty());
    s.detect_in_str("\u{3042}\u{4E2D}");
    assert_eq!(
        s.load_plan(),
        vec![(FontGroup::Korean, false), (FontGroup::Japanese, true), (FontGroup::Chinese, true)]
    );
    s.mark_loaded(FontGroup::Japanese);
    s.mark_loaded(FontGroup::Chinese);
    assert!(s.all_loaded());
    assert!(s.load_plan().is_empty());
}

//! Detection of Japanese, Chinese and Korean characters, which need extra fonts.
use vstd::prelude::*;

use crate::text::{chars_of, str_views};

verus! {

pub open spec fn is_japanese(c: char) -> bool {
    ||| ('\u{3040}' <= c && c <= '\u{309F}')
    ||| ('\u{30A0}' <= c && c <= '\u{30FF}')
    ||| ('\u{31F0}' <= c && c <= '\u{31FF}')
    ||| ('\u{FF65}' <= c && c <= '\u{FF9F}')
}

pub open spec fn is_chinese(c: char) -> bool {
    ||| ('\u{2E80}' <= c && c <= '\u{2EFF}')
    ||| ('\u{3400}' <= c && c <= '\u{4DBF}')
    ||| ('\u{4E00}' <= c && c <= '\u{9FFF}')
    ||| ('\u{F900}' <= c && c <= '\u{FAFF}')
    ||| ('\u{20000}' <= c && c <= '\u{2A6DF}')
}

pub open spec fn is_korean(c: char) -> bool {
    ||| ('\u{1100}' <= c && c <= '\u{11FF}')
    ||| ('\u{3130}' <= c && c <= '\u{318F}')
    ||| ('\u{AC00}' <= c && c <= '\u{D7AF}')
}

/// Hiragana, Katakana, Katakana extensions and halfwidth Katakana.
pub fn has_japanese(c: char) -> (b: bool)
    ensures
        b == is_japanese(c),
{
    ('\u{3040}' <= c && c <= '\u{309F}') || ('\u{30A0}' <= c && c <= '\u{30FF}') || ('\u{31F0}'
        <= c && c <= '\u{31FF}') || ('\u{FF65}' <= c && c <= '\u{FF9F}')
}

/// CJK radicals, unified ideographs (with extensions A and B) and compatibility ideographs.
pub fn has_chinese(c: char) -> (b: bool)
    ensures
        b == is_chinese(c),
{
    ('\u{2E80}' <= c && c <= '\u{2EFF}') || ('\u{3400}' <= c && c <= '\u{4DBF}') || ('\u{4E00}'
        <= c && c <= '\u{9FFF}') || ('\u{F900}' <= c && c <= '\u{FAFF}') || ('\u{20000}' <= c
        && c <= '\u{2A6DF}')
}

/// Hangul Jamo, Hangul compatibility Jamo and Hangul syllables.
pub fn has_korean(c: char) -> (b: bool)
    ensures
        b == is_korean(c),
{
    ('\u{1100}' <= c && c <= '\u{11FF}') || ('\u{3130}' <= c && c <= '\u{318F}') || ('\u{AC00}'
        <= c && c <= '\u{D7AF}')
}

/// Which scripts have been seen so far.
#[derive(Clone, Copy, PartialEq, Eq, Debug, Structural)]
pub struct ScriptDetected {
    pub japanese: bool,
    pub chinese: bool,
    pub korean: bool,
}

impl Default for ScriptDetected {
    fn default() -> (r: ScriptDetected)
        ensures
            !r.japanese && !r.chinese && !r.korean,
    {
        ScriptDetected { japanese: false, chinese: false, korean: false }
    }
}

/// The flags after seeing `c`: a character counts for the first script it belongs
/// to, in the order Japanese, Chinese, Korean; flags are only ever set.
pub open spec fn spec_detect(d: ScriptDetected, c: char) -> ScriptDetected {
    if is_japanese(c) {
        ScriptDetected { japanese: true, ..d }
    } else if is_chinese(c) {
        ScriptDetected { chinese: true, ..d }
    } else if is_korean(c) {
        ScriptDetected { korean: true, ..d }
    } else {
        d
    }
}

/// The flags after seeing every character of `s` in turn.
pub open spec fn spec_detect_all(d: ScriptDetected, s: Seq<char>) -> ScriptDetected
    decreases s.len(),
{
    if s.len() == 0 {
        d
    } else {
        spec_detect(spec_detect_all(d, s.drop_last()), s.last())
    }
}

/// Records the script of one character.
pub fn detect_script(c: char, detected: &mut ScriptDetected)
    ensures
        *final(detected) == spec_detect(*old(detected), c),
{
    if has_japanese(c) {
        detected.japanese = true;
    } else if has_chinese(c) {
        detected.chinese = true;
    } else if has_korean(c) {
        detected.korean = true;
    }
}

/// Records the scripts of every character of `text`.
pub fn detect_in_chars(text: &[char], detected: &mut ScriptDetected)
    ensures
        *final(detected) == spec_detect_all(*old(detected), text@),
{
    let mut i: usize = 0;
    assert(text@.take(0) == Seq::<char>::empty());
    while i < text.len()
        invariant
            i <= text.len(),
            *detected == spec_detect_all(*old(detected), text@.take(i as int)),
        decreases text.len() - i,
    {
        assert(text@.take(i + 1).drop_last() == text@.take(i as int));
        detect_script(text[i], detected);
        i += 1;
    }
    assert(text@.take(text.len() as int) == text@);
}

/// Seeing more text never clears a flag.
pub proof fn lemma_detect_all_monotone(d: ScriptDetected, s: Seq<char>)
    ensures
        d.japanese ==> spec_detect_all(d, s).japanese,
        d.chinese ==> spec_detect_all(d, s).chinese,
        d.korean ==> spec_detect_all(d, s).korean,
    decreases s.len(),
{
    if s.len() > 0 {
        lemma_detect_all_monotone(d, s.drop_last());
    }
}

/// The operating system, which decides where fonts are looked for.
#[derive(Clone, Copy, PartialEq, Eq, Debug, Structural)]
pub enum TargetOs {
    Windows,
    MacOs,
    Other,
}

/// A group of extra fonts.
#[derive(Clone, Copy, PartialEq, Eq, Debug, Structural)]
pub enum FontGroup {
    Japanese,
    Chinese,
    Korean,
}

pub open spec fn spec_japanese_font_paths(os: TargetOs) -> Seq<Seq<char>> {
    match os {
        TargetOs::Windows => seq![
            "C:\\Windows\\Fonts\\YuGothM.ttc"@,
            "C:\\Windows\\Fonts\\msgothic.ttc"@,
            "C:\\Windows\\Fonts\\meiryo.ttc"@,
        ],
        TargetOs::MacOs => seq![
            "/System/Library/Fonts/\u{30D2}\u{30E9}\u{30AE}\u{30CE}\u{89D2}\u{30B4}\u{30B7}\u{30C3}\u{30AF} W3.ttc"@,
            "/System/Library/Fonts/Hiragino Sans GB.ttc"@,
        ],
        TargetOs::Other => seq![
            "/usr/share/fonts/opentype/noto/NotoSansCJK-Regular.ttc"@,
            "/usr/share/fonts/truetype/noto/NotoSansCJK-Regular.ttc"@,
            "/usr/share/fonts/noto-cjk/NotoSansCJK-Regular.ttc"@,
            "/usr/share/fonts/google-noto-cjk/NotoSansCJK-Regular.ttc"@,
        ],
    }
}

pub open spec fn spec_chinese_font_paths(os: TargetOs) -> Seq<Seq<char>> {
    match os {
        TargetOs::Windows => seq![
            "C:\\Windows\\Fonts\\msyh.ttc"@,
            "C:\\Windows\\Fonts\\simsun.ttc"@,
            "C:\\Windows\\Fonts\\mingliub.ttc"@,
        ],
        TargetOs::MacOs => seq![
            "/System/Library/Fonts/PingFang.ttc"@,
            "/System/Library/Fonts/Hiragino Sans TC.ttc"@,
            "/System/Library/Fonts/STHeiti Light.ttc"@,
            "/Library/Fonts/Arial Unicode.ttf"@,
        ],
        TargetOs::Other => seq![
            "/usr/share/fonts/opentype/noto/NotoSansCJK-Regular.ttc"@,
            "/usr/share/fonts/truetype/noto/NotoSansCJK-Regular.ttc"@,
            "/usr/share/fonts/noto-cjk/NotoSansCJK-Regular.ttc"@,
            "/usr/share/fonts/truetype/wqy/wqy-microhei.ttc"@,
            "/usr/share/fonts/wenquanyi/wqy-microhei/wqy-microhei.ttc"@,
        ],
    }
}

pub open spec fn spec_korean_font_paths(os: TargetOs) -> Seq<Seq<char>> {
    match os {
        TargetOs::Windows => seq![
            "C:\\Windows\\Fonts\\malgun.ttf"@,
            "C:\\Windows\\Fonts\\gulim.ttc"@,
            "C:\\Windows\\Fonts\\batang.ttc"@,
        ],
        TargetOs::MacOs => seq![
            "/System/Library/Fonts/AppleSDGothicNeo.ttc"@,
            "/Library/Fonts/AppleGothic.ttf"@,
        ],
        TargetOs::Other => seq![
            "/usr/share/fonts/opentype/noto/NotoSansCJK-Regular.ttc"@,
            "/usr/share/fonts/truetype/noto/NotoSansCJK-Regular.ttc"@,
            "/usr/share/fonts/noto-cjk/NotoSansCJK-Regular.ttc"@,
            "/usr/share/fonts/adobe-source-han/SourceHanSans.ttc"@,
            "/usr/share/fonts/opentype/source-han-sans/SourceHanSans.ttc"@,
        ],
    }
}

/// Where Japanese fonts are looked for, in order of preference.
pub fn japanese_font_paths(os: TargetOs) -> (r: Vec<&'static str>)
    ensures
        str_views(r@) == spec_japanese_font_paths(os),
{
    let r = match os {
        TargetOs::Windows => vec![
            "C:\\Windows\\Fonts\\YuGothM.ttc",
            "C:\\Windows\\Fonts\\msgothic.ttc",
            "C:\\Windows\\Fonts\\meiryo.ttc",
        ],
        TargetOs::MacOs => vec![
            "/System/Library/Fonts/\u{30D2}\u{30E9}\u{30AE}\u{30CE}\u{89D2}\u{30B4}\u{30B7}\u{30C3}\u{30AF} W3.ttc",
            "/System/Library/Fonts/Hiragino Sans GB.ttc",
        ],
        TargetOs::Other => vec![
            "/usr/share/fonts/opentype/noto/NotoSansCJK-Regular.ttc",
            "/usr/share/fonts/truetype/noto/NotoSansCJK-Regular.ttc",
            "/usr/share/fonts/noto-cjk/NotoSansCJK-Regular.ttc",
            "/usr/share/fonts/google-noto-cjk/NotoSansCJK-Regular.ttc",
        ],
    };
    assert(str_views(r@) == spec_japanese_font_paths(os));
    r
}

/// Where Chinese fonts are looked for, in order of preference.
pub fn chinese_font_paths(os: TargetOs) -> (r: Vec<&'static str>)
    ensures
        str_views(r@) == spec_chinese_font_paths(os),
{
    let r = match os {
        TargetOs::Windows => vec![
            "C:\\Windows\\Fonts\\msyh.ttc",
            "C:\\Windows\\Fonts\\simsun.ttc",
            "C:\\Windows\\Fonts\\mingliub.ttc",
        ],
        TargetOs::MacOs => vec![
            "/System/Library/Fonts/PingFang.ttc",
            "/System/Library/Fonts/Hiragino Sans TC.ttc",
            "/System/Library/Fonts/STHeiti Light.ttc",
            "/Library/Fonts/Arial Unicode.ttf",
        ],
        TargetOs::Other => vec![
            "/usr/share/fonts/opentype/noto/NotoSansCJK-Regular.ttc",
            "/usr/share/fonts/truetype/noto/NotoSansCJK-Regular.ttc",
            "/usr/share/fonts/noto-cjk/NotoSansCJK-Regular.ttc",
            "/usr/share/fonts/truetype/wqy/wqy-microhei.ttc",
            "/usr/share/fonts/wenquanyi/wqy-microhei/wqy-microhei.ttc",
        ],
    };
    assert(str_views(r@) == spec_chinese_font_paths(os));
    r
}

/// Where Korean fonts are looked for, in order of preference.
pub fn korean_font_paths(os: TargetOs) -> (r: Vec<&'static str>)
    ensures
        str_views(r@) == spec_korean_font_paths(os),
{
    let r = match os {
        TargetOs::Windows => vec![
            "C:\\Windows\\Fonts\\malgun.ttf",
            "C:\\Windows\\Fonts\\gulim.ttc",
            "C:\\Windows\\Fonts\\batang.ttc",
        ],
        TargetOs::MacOs => vec![
            "/System/Library/Fonts/AppleSDGothicNeo.ttc",
            "/Library/Fonts/AppleGothic.ttf",
        ],
        TargetOs::Other => vec![
            "/usr/share/fonts/opentype/noto/NotoSansCJK-Regular.ttc",
            "/usr/share/fonts/truetype/noto/NotoSansCJK-Regular.ttc",
            "/usr/share/fonts/noto-cjk/NotoSansCJK-Regular.ttc",
            "/usr/share/fonts/adobe-source-han/SourceHanSans.ttc",
            "/usr/share/fonts/opentype/source-han-sans/SourceHanSans.ttc",
        ],
    };
    assert(str_views(r@) == spec_korean_font_paths(os));
    r
}

/// The groups of extra fonts already loaded, and the scripts seen.
pub struct FontState {
    pub japanese_loaded: bool,
    pub chinese_loaded: bool,
    pub korean_loaded: bool,
    pub detected: ScriptDetected,
}

impl Default for FontState {
    fn default() -> (r: FontState)
        ensures
            !r.japanese_loaded && !r.chinese_loaded && !r.korean_loaded,
            !r.detected.japanese && !r.detected.chinese && !r.detected.korean,
    {
        FontState {
            japanese_loaded: false,
            chinese_loaded: false,
            korean_loaded: false,
            detected: ScriptDetected::default(),
        }
    }
}

pub open spec fn group_loaded(s: FontState, g: FontGroup) -> bool {
    match g {
        FontGroup::Japanese => s.japanese_loaded,
        FontGroup::Chinese => s.chinese_loaded,
        FontGroup::Korean => s.korean_loaded,
    }
}

pub open spec fn group_detected(s: FontState, g: FontGroup) -> bool {
    match g {
        FontGroup::Japanese => s.detected.japanese,
        FontGroup::Chinese => s.detected.chinese,
        FontGroup::Korean => s.detected.korean,
    }
}

/// A group is needed when its script was seen and its fonts are not loaded yet.
pub open spec fn group_needed(s: FontState, g: FontGroup) -> bool {
    group_detected(s, g) && !group_loaded(s, g)
}

pub open spec fn groups_where(s: FontState, p: spec_fn(FontState, FontGroup) -> bool) -> Seq<
    FontGroup,
> {
    seq![FontGroup::Japanese, FontGroup::Chinese, FontGroup::Korean].filter(|g: FontGroup| p(s, g))
}

/// The font groups to read, in order, and whether each one is newly needed:
/// nothing when no group is needed; otherwise first the loaded groups again
/// (the font set is built anew), then the needed ones.
pub open spec fn spec_load_plan(s: FontState) -> Seq<(FontGroup, bool)> {
    if groups_where(s, |s: FontState, g: FontGroup| group_needed(s, g)).len() == 0 {
        Seq::empty()
    } else {
        groups_where(s, |s: FontState, g: FontGroup| group_loaded(s, g)).map_values(
            |g: FontGroup| (g, false),
        ) + groups_where(s, |s: FontState, g: FontGroup| group_needed(s, g)).map_values(
            |g: FontGroup| (g, true),
        )
    }
}

impl FontState {
    /// Records the scripts of the characters of `text` (such as the disc name field).
    pub fn detect_in_str(&mut self, text: &str)
        ensures
            final(self).detected == spec_detect_all(old(self).detected, text@),
            final(self).japanese_loaded == old(self).japanese_loaded,
            final(self).chinese_loaded == old(self).chinese_loaded,
            final(self).korean_loaded == old(self).korean_loaded,
    {
        let chars = chars_of(text);
        detect_in_chars(&chars, &mut self.detected);
    }

    /// Whether every group of extra fonts is loaded.
    pub fn all_loaded(&self) -> (b: bool)
        ensures
            b == (self.japanese_loaded && self.chinese_loaded && self.korean_loaded),
    {
        self.japanese_loaded && self.chinese_loaded && self.korean_loaded
    }

    /// Which font groups to read now, in order.
    pub fn load_plan(&self) -> (r: Vec<(FontGroup, bool)>)
        ensures
            r@ == spec_load_plan(*self),
    {
        let need_j = self.detected.japanese && !self.japanese_loaded;
        let need_c = self.detected.chinese && !self.chinese_loaded;
        let need_k = self.detected.korean && !self.korean_loaded;
        let mut r: Vec<(FontGroup, bool)> = Vec::new();
        let ghost all = seq![FontGroup::Japanese, FontGroup::Chinese, FontGroup::Korean];
        let ghost needed = groups_where(*self, |s: FontState, g: FontGroup| group_needed(s, g));
        proof {
            reveal_with_fuel(Seq::filter, 4);
            assert(all.drop_last() == seq![FontGroup::Japanese, FontGroup::Chinese]);
            assert(all.drop_last().drop_last() == seq![FontGroup::Japanese]);
            assert(all.drop_last().drop_last().drop_last() == Seq::<FontGroup>::empty());
        }
        if !need_j && !need_c && !need_k {
            assert(needed.len() == 0);
            return r;
        }
        if self.japanese_loaded {
            r.push((FontGroup::Japanese, false));
        }
        if self.chinese_loaded {
            r.push((FontGroup::Chinese, false));
        }
        if self.korean_loaded {
            r.push((FontGroup::Korean, false));
        }
        if need_j {
            r.push((FontGroup::Japanese, true));
        }
        if need_c {
            r.push((FontGroup::Chinese, true));
        }
        if need_k {
            r.push((FontGroup::Korean, true));
        }
        assert(r@ == spec_load_plan(*self));
        r
    }

    /// Records that the fonts of a group were loaded.
    pub fn mark_loaded(&mut self, g: FontGroup)
        ensures
            forall|h: FontGroup|
                group_loaded(*final(self), h) == (h == g || group_loaded(*old(self), h)),
            final(self).detected == old(self).detected,
    {
        match g {
            FontGroup::Japanese => self.japanese_loaded = true,
            FontGroup::Chinese => self.chinese_loaded = true,
            FontGroup::Korean => self.korean_loaded = true,
        }
    }
}

} // verus!

//! Disc profile and Redump system detection from redumper log lines.
use vstd::prelude::*;

use crate::text::{
    chars_of, contains, contains_str, ends_with, equals_str, has_suffix, is_ws,
    lemma_find_from_first, occurs_at, split_once, split_once_chars, starts_with, starts_with_str,
    string_views, trim, trim_end, trim_start, trimmed,
};

verus! {

/// The kind of disc being dumped.
#[derive(Clone, Copy, PartialEq, Eq, Debug, Structural)]
pub enum DiscProfile {
    CD,
    DVD,
    BD,
    HDDVD,
    XBOX,
    XBOX360,
    GC,
    WII,
}

/// The profile that a `profile:` line announces: the text after the first
/// `profile:`, trimmed, read by its prefix.
pub open spec fn spec_parse_profile(line: Seq<char>) -> Option<DiscProfile> {
    match split_once(line, "profile:"@) {
        None => None,
        Some((_, after)) => {
            let value = trim(after);
            if starts_with(value, "CD"@) {
                Some(DiscProfile::CD)
            } else if starts_with(value, "DVD"@) {
                Some(DiscProfile::DVD)
            } else if starts_with(value, "BD"@) {
                Some(DiscProfile::BD)
            } else if starts_with(value, "HD DVD"@) {
                Some(DiscProfile::HDDVD)
            } else {
                None
            }
        },
    }
}

/// The sub-type of disc that a later log line reveals, given the profile found so far.
pub open spec fn spec_refine_profile(line: Seq<char>, current: DiscProfile) -> Option<DiscProfile> {
    let t = trim(line);
    if starts_with(t, "book type: NINTENDO"@) {
        Some(DiscProfile::WII)
    } else if starts_with(t, "disc size: 80mm"@) && current == DiscProfile::WII {
        Some(DiscProfile::GC)
    } else if starts_with(t, "omnidrive: XGD detected"@) || starts_with(t, "kreon: XGD detected"@) {
        if contains(t, "version: 2"@) || contains(t, "version: 3"@) {
            Some(DiscProfile::XBOX360)
        } else {
            Some(DiscProfile::XBOX)
        }
    } else {
        None
    }
}

/// Reads the disc profile from a `profile:` log line.
pub fn parse_profile_chars(line: &[char]) -> (r: Option<DiscProfile>)
    ensures
        r == spec_parse_profile(line@),
{
    let pat = chars_of("profile:");
    match split_once_chars(line, &pat) {
        None => None,
        Some((_, after)) => {
            let value = trimmed(&after);
            if starts_with_str(&value, "CD") {
                Some(DiscProfile::CD)
            } else if starts_with_str(&value, "DVD") {
                Some(DiscProfile::DVD)
            } else if starts_with_str(&value, "BD") {
                Some(DiscProfile::BD)
            } else if starts_with_str(&value, "HD DVD") {
                Some(DiscProfile::HDDVD)
            } else {
                None
            }
        },
    }
}

/// Reads the disc profile from a `profile:` log line.
pub fn parse_profile(line: &str) -> (r: Option<DiscProfile>)
    ensures
        r == spec_parse_profile(line@),
{
    let c = chars_of(line);
    parse_profile_chars(&c)
}

pub fn refine_profile_chars(line: &[char], current: DiscProfile) -> (r: Option<DiscProfile>)
    ensures
        r == spec_refine_profile(line@, current),
{
    let t = trimmed(line);
    if starts_with_str(&t, "book type: NINTENDO") {
        Some(DiscProfile::WII)
    } else if starts_with_str(&t, "disc size: 80mm") && current == DiscProfile::WII {
        Some(DiscProfile::GC)
    } else if starts_with_str(&t, "omnidrive: XGD detected") || starts_with_str(
        &t,
        "kreon: XGD detected",
    ) {
        if contains_str(&t, "version: 2") || contains_str(&t, "version: 3") {
            Some(DiscProfile::XBOX360)
        } else {
            Some(DiscProfile::XBOX)
        }
    } else {
        None
    }
}

/// Refines a detected profile from a later log line (`None` when the line tells nothing new).
pub fn refine_profile(line: &str, current: DiscProfile) -> (r: Option<DiscProfile>)
    ensures
        r == spec_refine_profile(line@, current),
{
    let c = chars_of(line);
    refine_profile_chars(&c, current)
}

/// The Redump system, as the INFO phase of redumper reports it.
#[derive(Clone, Copy, PartialEq, Eq, Debug, Structural)]
pub enum System {
    PSX,
    PS2,
    PS3,
    PS4,
    PS5,
    MCD,
    DC,
    SS,
    XBOX,
    XBOX360,
    GC,
    WII,
    PC,
    DVDVIDEO,
    AUDIOCD,
    BDVIDEO,
    HDDVDVIDEO,
}

/// The system that a line header keyword names.
pub open spec fn system_for_keyword(k: Seq<char>) -> Option<System> {
    if k == "PSX"@ {
        Some(System::PSX)
    } else if k == "PS2"@ {
        Some(System::PS2)
    } else if k == "PS3"@ {
        Some(System::PS3)
    } else if k == "PS4"@ {
        Some(System::PS4)
    } else if k == "PS5"@ {
        Some(System::PS5)
    } else if k == "MCD"@ {
        Some(System::MCD)
    } else if k == "DC"@ {
        Some(System::DC)
    } else if k == "SS"@ {
        Some(System::SS)
    } else if k == "XBOX"@ {
        Some(System::XBOX)
    } else if k == "GC"@ {
        Some(System::GC)
    } else if k == "WII"@ {
        Some(System::WII)
    } else if k == "SecuROM"@ {
        Some(System::PC)
    } else if k == "DVD-VIDEO"@ {
        Some(System::DVDVIDEO)
    } else if k == "AUDIO-CD"@ {
        Some(System::AUDIOCD)
    } else if k == "BD-VIDEO"@ {
        Some(System::BDVIDEO)
    } else if k == "HDDVD-VIDEO"@ {
        Some(System::HDDVDVIDEO)
    } else {
        None
    }
}

/// The system a header line such as `PS2 [name.iso]:` names: the trimmed line
/// ends in `]:` and the text before its first ` [` is a known keyword.
pub open spec fn spec_system_from_line(line: Seq<char>) -> Option<System> {
    let t = trim(line);
    if !ends_with(t, "]:"@) {
        None
    } else {
        match split_once(t, " ["@) {
            None => None,
            Some((k, _)) => system_for_keyword(k),
        }
    }
}

/// The display name of a system.
pub open spec fn system_name(s: System) -> Seq<char> {
    match s {
        System::PSX => "PSX"@,
        System::PS2 => "PS2"@,
        System::PS3 => "PS3"@,
        System::PS4 => "PS4"@,
        System::PS5 => "PS5"@,
        System::MCD => "MCD"@,
        System::DC => "DC"@,
        System::SS => "SS"@,
        System::XBOX => "XBOX"@,
        System::GC => "GC"@,
        System::WII => "WII"@,
        System::XBOX360 => "XBOX360"@,
        System::PC => "PC"@,
        System::DVDVIDEO => "DVD-VIDEO"@,
        System::AUDIOCD => "AUDIO-CD"@,
        System::BDVIDEO => "BD-VIDEO"@,
        System::HDDVDVIDEO => "HDDVD-VIDEO"@,
    }
}

/// An Xbox system seen on a `system:` line that mentions `Xbox 360` becomes Xbox 360.
pub open spec fn spec_system_refine(s: System, line: Seq<char>) -> System {
    let t = trim(line);
    if s == System::XBOX && starts_with(t, "system:"@) && contains(t, "Xbox 360"@) {
        System::XBOX360
    } else {
        s
    }
}

fn keyword_system(k: &[char]) -> (r: Option<System>)
    ensures
        r == system_for_keyword(k@),
{
    if equals_str(k, "PSX") {
        Some(System::PSX)
    } else if equals_str(k, "PS2") {
        Some(System::PS2)
    } else if equals_str(k, "PS3") {
        Some(System::PS3)
    } else if equals_str(k, "PS4") {
        Some(System::PS4)
    } else if equals_str(k, "PS5") {
        Some(System::PS5)
    } else if equals_str(k, "MCD") {
        Some(System::MCD)
    } else if equals_str(k, "DC") {
        Some(System::DC)
    } else if equals_str(k, "SS") {
        Some(System::SS)
    } else if equals_str(k, "XBOX") {
        Some(System::XBOX)
    } else if equals_str(k, "GC") {
        Some(System::GC)
    } else if equals_str(k, "WII") {
        Some(System::WII)
    } else if equals_str(k, "SecuROM") {
        Some(System::PC)
    } else if equals_str(k, "DVD-VIDEO") {
        Some(System::DVDVIDEO)
    } else if equals_str(k, "AUDIO-CD") {
        Some(System::AUDIOCD)
    } else if equals_str(k, "BD-VIDEO") {
        Some(System::BDVIDEO)
    } else if equals_str(k, "HDDVD-VIDEO") {
        Some(System::HDDVDVIDEO)
    } else {
        None
    }
}

impl System {
    pub fn from_line_chars(line: &[char]) -> (r: Option<System>)
        ensures
            r == spec_system_from_line(line@),
    {
        let t = trimmed(line);
        let tail = chars_of("]:");
        if !has_suffix(&t, &tail) {
            return None;
        }
        let sep = chars_of(" [");
        match split_once_chars(&t, &sep) {
            None => None,
            Some((k, _)) => keyword_system(&k),
        }
    }

    /// Detects the system from a header line such as `PS2 [name.iso]:`.
    pub fn from_line(line: &str) -> (r: Option<System>)
        ensures
            r == spec_system_from_line(line@),
    {
        let c = chars_of(line);
        Self::from_line_chars(&c)
    }

    /// The name under which the system is shown.
    pub fn as_str(self) -> (r: &'static str)
        ensures
            r@ == system_name(self),
    {
        match self {
            System::PSX => "PSX",
            System::PS2 => "PS2",
            System::PS3 => "PS3",
            System::PS4 => "PS4",
            System::PS5 => "PS5",
            System::MCD => "MCD",
            System::DC => "DC",
            System::SS => "SS",
            System::XBOX => "XBOX",
            System::GC => "GC",
            System::WII => "WII",
            System::XBOX360 => "XBOX360",
            System::PC => "PC",
            System::DVDVIDEO => "DVD-VIDEO",
            System::AUDIOCD => "AUDIO-CD",
            System::BDVIDEO => "BD-VIDEO",
            System::HDDVDVIDEO => "HDDVD-VIDEO",
        }
    }

    pub fn refine_chars(self, line: &[char]) -> (r: System)
        ensures
            r == spec_system_refine(self, line@),
    {
        if self == System::XBOX {
            let t = trimmed(line);
            if starts_with_str(&t, "system:") && contains_str(&t, "Xbox 360") {
                return System::XBOX360;
            }
        }
        self
    }

    /// Refines Xbox to Xbox 360 from a `system: Xbox 360 (...)` line.
    pub fn refine(self, line: &str) -> (r: System)
        ensures
            r == spec_system_refine(self, line@),
    {
        let c = chars_of(line);
        self.refine_chars(&c)
    }
}

/// The profile a log yields when read from its first line: the first `profile:`
/// line sets it, later lines refine it, and reading stops at the first `***`
/// section header after that other than `*** DUMP`.
pub open spec fn profile_scan(lines: Seq<Seq<char>>, profile: Option<DiscProfile>) -> Option<DiscProfile>
    decreases lines.len(),
{
    if lines.len() == 0 {
        profile
    } else {
        let t = trim(lines[0]);
        match profile {
            None => profile_scan(lines.drop_first(), spec_parse_profile(t)),
            Some(p) => {
                let np = match spec_refine_profile(t, p) {
                    Some(r) => r,
                    None => p,
                };
                if starts_with(t, "***"@) && !starts_with(t, "*** DUMP"@) {
                    Some(np)
                } else {
                    profile_scan(lines.drop_first(), Some(np))
                }
            },
        }
    }
}

/// Reads the disc profile from the lines of a log file.
pub fn parse_profile_from_lines(lines: &[String]) -> (r: Option<DiscProfile>)
    ensures
        r == profile_scan(string_views(lines@), None),
{
    let mut profile: Option<DiscProfile> = None;
    let mut i: usize = 0;
    assert(string_views(lines@).skip(0) == string_views(lines@));
    while i < lines.len()
        invariant
            i <= lines.len(),
            profile_scan(string_views(lines@), None) == profile_scan(
                string_views(lines@).skip(i as int),
                profile,
            ),
        decreases lines.len() - i,
    {
        let ghost rest = string_views(lines@).skip(i as int);
        assert(rest[0] == lines@[i as int]@);
        assert(rest.drop_first() == string_views(lines@).skip(i + 1));
        let line = chars_of(lines[i].as_str());
        let t = trimmed(&line);
        match profile {
            None => {
                profile = parse_profile_chars(&t);
            },
            Some(p) => {
                let np = match refine_profile_chars(&t, p) {
                    Some(r) => r,
                    None => p,
                };
                profile = Some(np);
                if starts_with_str(&t, "***") && !starts_with_str(&t, "*** DUMP") {
                    return profile;
                }
            },
        }
        i += 1;
    }
    profile
}

/// Refining only ever names a sub-type of disc: Wii, GameCube, Xbox or Xbox 360.
pub proof fn lemma_refine_gives_subtype(line: Seq<char>, current: DiscProfile)
    ensures
        spec_refine_profile(line, current) matches Some(p) ==> p == DiscProfile::WII || p
            == DiscProfile::GC || p == DiscProfile::XBOX || p == DiscProfile::XBOX360,
{
}

/// A line reporting an Xbox Game Disc (`omnidrive: XGD detected` or `kreon: XGD
/// detected`, after leading whitespace) refines any profile to Xbox 360 when it
/// names version 2 or 3, and to the original Xbox otherwise, whichever drive reports it.
pub proof fn lemma_xgd_line_refines_by_version(line: Seq<char>, current: DiscProfile)
    requires
        starts_with(trim(line), "omnidrive: XGD detected"@) || starts_with(
            trim(line),
            "kreon: XGD detected"@,
        ),
    ensures
        (contains(trim(line), "version: 2"@) || contains(trim(line), "version: 3"@))
            ==> spec_refine_profile(line, current) == Some(DiscProfile::XBOX360),
        !(contains(trim(line), "version: 2"@) || contains(trim(line), "version: 3"@))
            ==> spec_refine_profile(line, current) == Some(DiscProfile::XBOX),
{
    reveal_strlit("omnidrive: XGD detected");
    reveal_strlit("kreon: XGD detected");
    reveal_strlit("book type: NINTENDO");
    reveal_strlit("disc size: 80mm");
    let t = trim(line);
    let c = t[0];
    if starts_with(t, "omnidrive: XGD detected"@) {
        assert(t.take(23)[0] == c);
        assert(c == 'o');
    } else {
        assert(t.take(19)[0] == c);
        assert(c == 'k');
    }
    assert(!starts_with(t, "book type: NINTENDO"@)) by {
        if starts_with(t, "book type: NINTENDO"@) {
            assert(t.take(19)[0] == c);
        }
    }
    assert(!starts_with(t, "disc size: 80mm"@)) by {
        if starts_with(t, "disc size: 80mm"@) {
            assert(t.take(15)[0] == c);
        }
    }
}

/// A `disc size: 80mm` line makes a Wii disc a GameCube disc, and refines no other profile.
pub proof fn lemma_small_disc_line_refines_wii(line: Seq<char>, current: DiscProfile)
    requires
        starts_with(trim(line), "disc size: 80mm"@),
    ensures
        spec_refine_profile(line, current) == if current == DiscProfile::WII {
            Some(DiscProfile::GC)
        } else {
            None
        },
{
    reveal_strlit("omnidrive: XGD detected");
    reveal_strlit("kreon: XGD detected");
    reveal_strlit("book type: NINTENDO");
    reveal_strlit("disc size: 80mm");
    let t = trim(line);
    assert(t.take(15)[0] == t[0]);
    assert(t[0] == 'd');
    assert(!starts_with(t, "book type: NINTENDO"@)) by {
        if starts_with(t, "book type: NINTENDO"@) {
            assert(t.take(19)[0] == t[0]);
        }
    }
    assert(!starts_with(t, "omnidrive: XGD detected"@)) by {
        if starts_with(t, "omnidrive: XGD detected"@) {
            assert(t.take(23)[0] == t[0]);
        }
    }
    assert(!starts_with(t, "kreon: XGD detected"@)) by {
        if starts_with(t, "kreon: XGD detected"@) {
            assert(t.take(19)[0] == t[0]);
        }
    }
}

/// Refining a system changes nothing but Xbox, and only into Xbox 360.
pub proof fn lemma_system_refine_only_xbox(s: System, line: Seq<char>)
    ensures
        spec_system_refine(s, line) == s || (s == System::XBOX && spec_system_refine(s, line)
            == System::XBOX360),
{
}

/// The name of every system that a header line can announce under its own name
/// (all but PC, announced as `SecuROM`, and Xbox 360, found by refining Xbox)
/// is the keyword that names it.
pub proof fn lemma_system_name_is_keyword(s: System)
    requires
        s != System::PC && s != System::XBOX360,
    ensures
        system_for_keyword(system_name(s)) == Some(s),
{
    reveal_strlit("AUDIO-CD");
    reveal_strlit("BD-VIDEO");
    reveal_strlit("DC");
    reveal_strlit("DVD-VIDEO");
    reveal_strlit("GC");
    reveal_strlit("HDDVD-VIDEO");
    reveal_strlit("MCD");
    reveal_strlit("PS2");
    reveal_strlit("PS3");
    reveal_strlit("PS4");
    reveal_strlit("PS5");
    reveal_strlit("PSX");
    reveal_strlit("SS");
    reveal_strlit("SecuROM");
    reveal_strlit("WII");
    reveal_strlit("XBOX");
    match s {
        System::PSX => {
            assert(system_for_keyword(system_name(System::PSX)) == Some(System::PSX));
        },
        System::PS2 => {
            assert("PS2"@[2] != "PSX"@[2]);
            assert(system_for_keyword(system_name(System::PS2)) == Some(System::PS2));
        },
        System::PS3 => {
            assert("PS3"@[2] != "PSX"@[2]);
            assert("PS3"@[2] != "PS2"@[2]);
            assert(system_for_keyword(system_name(System::PS3)) == Some(System::PS3));
        },
        System::PS4 => {
            assert("PS4"@[2] != "PSX"@[2]);
            assert("PS4"@[2] != "PS2"@[2]);
            assert("PS4"@[2] != "PS3"@[2]);
            assert(system_for_keyword(system_name(System::PS4)) == Some(System::PS4));
        },
        System::PS5 => {
            assert("PS5"@[2] != "PSX"@[2]);
            assert("PS5"@[2] != "PS2"@[2]);
            assert("PS5"@[2] != "PS3"@[2]);
            assert("PS5"@[2] != "PS4"@[2]);
            assert(system_for_keyword(system_name(System::PS5)) == Some(System::PS5));
        },
        System::MCD => {
            assert("MCD"@[0] != "PSX"@[0]);
            assert("MCD"@[0] != "PS2"@[0]);
            assert("MCD"@[0] != "PS3"@[0]);
            assert("MCD"@[0] != "PS4"@[0]);
            assert("MCD"@[0] != "PS5"@[0]);
            assert(system_for_keyword(system_name(System::MCD)) == Some(System::MCD));
        },
        System::DC => {
            assert("DC"@.len() != "PSX"@.len());
            assert("DC"@.len() != "PS2"@.len());
            assert("DC"@.len() != "PS3"@.len());
            assert("DC"@.len() != "PS4"@.len());
            assert("DC"@.len() != "PS5"@.len());
            assert("DC"@.len() != "MCD"@.len());
            assert(system_for_keyword(system_name(System::DC)) == Some(System::DC));
        },
        System::SS => {
            assert("SS"@[0] != "DC"@[0]);
            assert("SS"@.len() != "PSX"@.len());
            assert("SS"@.len() != "PS2"@.len());
            assert("SS"@.len() != "PS3"@.len());
            assert("SS"@.len() != "PS4"@.len());
            assert("SS"@.len() != "PS5"@.len());
            assert("SS"@.len() != "MCD"@.len());
            assert(system_for_keyword(system_name(System::SS)) == Some(System::SS));
        },
        System::XBOX => {
            assert("XBOX"@.len() != "PSX"@.len());
            assert("XBOX"@.len() != "PS2"@.len());
            assert("XBOX"@.len() != "PS3"@.len());
            assert("XBOX"@.len() != "PS4"@.len());
            assert("XBOX"@.len() != "PS5"@.len());
            assert("XBOX"@.len() != "MCD"@.len());
            assert("XBOX"@.len() != "DC"@.len());
            assert("XBOX"@.len() != "SS"@.len());
            assert(system_for_keyword(system_name(System::XBOX)) == Some(System::XBOX));
        },
        System::GC => {
            assert("GC"@[0] != "DC"@[0]);
            assert("GC"@[0] != "SS"@[0]);
            assert("GC"@.len() != "PSX"@.len());
            assert("GC"@.len() != "PS2"@.len());
            assert("GC"@.len() != "PS3"@.len());
            assert("GC"@.len() != "PS4"@.len());
            assert("GC"@.len() != "PS5"@.len());
            assert("GC"@.len() != "MCD"@.len());
            assert("GC"@.len() != "XBOX"@.len());
            assert(system_for_keyword(system_name(System::GC)) == Some(System::GC));
        },
        System::WII => {
            assert("WII"@[0] != "PSX"@[0]);
            assert("WII"@[0] != "PS2"@[0]);
            assert("WII"@[0] != "PS3"@[0]);
            assert("WII"@[0] != "PS4"@[0]);
            assert("WII"@[0] != "PS5"@[0]);
            assert("WII"@[0] != "MCD"@[0]);
            assert("WII"@.len() != "DC"@.len());
            assert("WII"@.len() != "SS"@.len());
            assert("WII"@.len() != "XBOX"@.len());
            assert("WII"@.len() != "GC"@.len());
            assert(system_for_keyword(system_name(System::WII)) == Some(System::WII));
        },
        System::DVDVIDEO => {
            assert("DVD-VIDEO"@.len() != "PSX"@.len());
            assert("DVD-VIDEO"@.len() != "PS2"@.len());
            assert("DVD-VIDEO"@.len() != "PS3"@.len());
            assert("DVD-VIDEO"@.len() != "PS4"@.len());
            assert("DVD-VIDEO"@.len() != "PS5"@.len());
            assert("DVD-VIDEO"@.len() != "MCD"@.len());
            assert("DVD-VIDEO"@.len() != "DC"@.len());
            assert("DVD-VIDEO"@.len() != "SS"@.len());
            assert("DVD-VIDEO"@.len() != "XBOX"@.len());
            assert("DVD-VIDEO"@.len() != "GC"@.len());
            assert("DVD-VIDEO"@.len() != "WII"@.len());
            assert("DVD-VIDEO"@.len() != "SecuROM"@.len());
            assert(system_for_keyword(system_name(System::DVDVIDEO)) == Some(System::DVDVIDEO));
        },
        System::AUDIOCD => {
            assert("AUDIO-CD"@.len() != "PSX"@.len());
            assert("AUDIO-CD"@.len() != "PS2"@.len());
            assert("AUDIO-CD"@.len() != "PS3"@.len());
            assert("AUDIO-CD"@.len() != "PS4"@.len());
            assert("AUDIO-CD"@.len() != "PS5"@.len());
            assert("AUDIO-CD"@.len() != "MCD"@.len());
            assert("AUDIO-CD"@.len() != "DC"@.len());
            assert("AUDIO-CD"@.len() != "SS"@.len());
            assert("AUDIO-CD"@.len() != "XBOX"@.len());
            assert("AUDIO-CD"@.len() != "GC"@.len());
            assert("AUDIO-CD"@.len() != "WII"@.len());
            assert("AUDIO-CD"@.len() != "SecuROM"@.len());
            assert("AUDIO-CD"@.len() != "DVD-VIDEO"@.len());
            assert(system_for_keyword(system_name(System::AUDIOCD)) == Some(System::AUDIOCD));
        },
        System::BDVIDEO => {
            assert("BD-VIDEO"@[0] != "AUDIO-CD"@[0]);
            assert("BD-VIDEO"@.len() != "PSX"@.len());
            assert("BD-VIDEO"@.len() != "PS2"@.len());
            assert("BD-VIDEO"@.len() != "PS3"@.len());
            assert("BD-VIDEO"@.len() != "PS4"@.len());
            assert("BD-VIDEO"@.len() != "PS5"@.len());
            assert("BD-VIDEO"@.len() != "MCD"@.len());
            assert("BD-VIDEO"@.len() != "DC"@.len());
            assert("BD-VIDEO"@.len() != "SS"@.len());
            assert("BD-VIDEO"@.len() != "XBOX"@.len());
            assert("BD-VIDEO"@.len() != "GC"@.len());
            assert("BD-VIDEO"@.len() != "WII"@.len());
            assert("BD-VIDEO"@.len() != "SecuROM"@.len());
            assert("BD-VIDEO"@.len() != "DVD-VIDEO"@.len());
            assert(system_for_keyword(system_name(System::BDVIDEO)) == Some(System::BDVIDEO));
        },
        System::HDDVDVIDEO => {
            assert("HDDVD-VIDEO"@.len() != "PSX"@.len());
            assert("HDDVD-VIDEO"@.len() != "PS2"@.len());
            assert("HDDVD-VIDEO"@.len() != "PS3"@.len());
            assert("HDDVD-VIDEO"@.len() != "PS4"@.len());
            assert("HDDVD-VIDEO"@.len() != "PS5"@.len());
            assert("HDDVD-VIDEO"@.len() != "MCD"@.len());
            assert("HDDVD-VIDEO"@.len() != "DC"@.len());
            assert("HDDVD-VIDEO"@.len() != "SS"@.len());
            assert("HDDVD-VIDEO"@.len() != "XBOX"@.len());
            assert("HDDVD-VIDEO"@.len() != "GC"@.len());
            assert("HDDVD-VIDEO"@.len() != "WII"@.len());
            assert("HDDVD-VIDEO"@.len() != "SecuROM"@.len());
            assert("HDDVD-VIDEO"@.len() != "DVD-VIDEO"@.len());
            assert("HDDVD-VIDEO"@.len() != "AUDIO-CD"@.len());
            assert("HDDVD-VIDEO"@.len() != "BD-VIDEO"@.len());
            assert(system_for_keyword(system_name(System::HDDVDVIDEO)) == Some(System::HDDVDVIDEO));
        },
        _ => {},
    }
}

/// The names of `PC` and `XBOX360` are no header keyword (PC is announced as
/// `SecuROM`, Xbox 360 is found by refining Xbox).
proof fn lemma_unannounced_names()
    ensures
        system_for_keyword(system_name(System::PC)) is None,
        system_for_keyword(system_name(System::XBOX360)) is None,
{
    reveal_strlit("AUDIO-CD");
    reveal_strlit("BD-VIDEO");
    reveal_strlit("DC");
    reveal_strlit("DVD-VIDEO");
    reveal_strlit("GC");
    reveal_strlit("HDDVD-VIDEO");
    reveal_strlit("MCD");
    reveal_strlit("PS2");
    reveal_strlit("PS3");
    reveal_strlit("PS4");
    reveal_strlit("PS5");
    reveal_strlit("PSX");
    reveal_strlit("SS");
    reveal_strlit("SecuROM");
    reveal_strlit("WII");
    reveal_strlit("XBOX");
    reveal_strlit("PC");
    reveal_strlit("XBOX360");
    assert("PC"@.len() != "PSX"@.len());
    assert("PC"@.len() != "PS2"@.len());
    assert("PC"@.len() != "PS3"@.len());
    assert("PC"@.len() != "PS4"@.len());
    assert("PC"@.len() != "PS5"@.len());
    assert("PC"@.len() != "MCD"@.len());
    assert("PC"@[0] != "DC"@[0]);
    assert("PC"@[0] != "SS"@[0]);
    assert("PC"@.len() != "XBOX"@.len());
    assert("PC"@[0] != "GC"@[0]);
    assert("PC"@.len() != "WII"@.len());
    assert("PC"@.len() != "SecuROM"@.len());
    assert("PC"@.len() != "DVD-VIDEO"@.len());
    assert("PC"@.len() != "AUDIO-CD"@.len());
    assert("PC"@.len() != "BD-VIDEO"@.len());
    assert("PC"@.len() != "HDDVD-VIDEO"@.len());
    assert("XBOX360"@.len() != "PSX"@.len());
    assert("XBOX360"@.len() != "PS2"@.len());
    assert("XBOX360"@.len() != "PS3"@.len());
    assert("XBOX360"@.len() != "PS4"@.len());
    assert("XBOX360"@.len() != "PS5"@.len());
    assert("XBOX360"@.len() != "MCD"@.len());
    assert("XBOX360"@.len() != "DC"@.len());
    assert("XBOX360"@.len() != "SS"@.len());
    assert("XBOX360"@.len() != "XBOX"@.len());
    assert("XBOX360"@.len() != "GC"@.len());
    assert("XBOX360"@.len() != "WII"@.len());
    assert("XBOX360"@[0] != "SecuROM"@[0]);
    assert("XBOX360"@.len() != "DVD-VIDEO"@.len());
    assert("XBOX360"@.len() != "AUDIO-CD"@.len());
    assert("XBOX360"@.len() != "BD-VIDEO"@.len());
    assert("XBOX360"@.len() != "HDDVD-VIDEO"@.len());
}

/// Every system has its own name.
pub proof fn lemma_system_name_injective(a: System, b: System)
    ensures
        system_name(a) == system_name(b) ==> a == b,
{
    if system_name(a) == system_name(b) {
        lemma_unannounced_names();
    reveal_strlit("AUDIO-CD");
    reveal_strlit("BD-VIDEO");
    reveal_strlit("DC");
    reveal_strlit("DVD-VIDEO");
    reveal_strlit("GC");
    reveal_strlit("HDDVD-VIDEO");
    reveal_strlit("MCD");
    reveal_strlit("PS2");
    reveal_strlit("PS3");
    reveal_strlit("PS4");
    reveal_strlit("PS5");
    reveal_strlit("PSX");
    reveal_strlit("SS");
    reveal_strlit("SecuROM");
    reveal_strlit("WII");
    reveal_strlit("XBOX");
    reveal_strlit("PC");
    reveal_strlit("XBOX360");
        assert("PC"@.len() != "XBOX360"@.len());
        if a != System::PC && a != System::XBOX360 {
            lemma_system_name_is_keyword(a);
        }
        if b != System::PC && b != System::XBOX360 {
            lemma_system_name_is_keyword(b);
        }
    }
}

/// No system name holds whitespace, and none is shorter than two characters.
proof fn lemma_system_name_plain(s: System)
    ensures
        system_name(s).len() >= 2,
        forall|i: int| 0 <= i < system_name(s).len() ==> !is_ws(#[trigger] system_name(s)[i]),
{
    reveal_strlit("AUDIO-CD");
    reveal_strlit("BD-VIDEO");
    reveal_strlit("DC");
    reveal_strlit("DVD-VIDEO");
    reveal_strlit("GC");
    reveal_strlit("HDDVD-VIDEO");
    reveal_strlit("MCD");
    reveal_strlit("PS2");
    reveal_strlit("PS3");
    reveal_strlit("PS4");
    reveal_strlit("PS5");
    reveal_strlit("PSX");
    reveal_strlit("SS");
    reveal_strlit("SecuROM");
    reveal_strlit("WII");
    reveal_strlit("XBOX");
    reveal_strlit("PC");
    reveal_strlit("XBOX360");
}

/// A header line written from a system's name, `NAME [file]:`, is read back as that
/// system, whatever the file name (for every system that a header can announce).
pub proof fn lemma_system_line_round_trip(s: System, file: Seq<char>)
    requires
        s != System::PC && s != System::XBOX360,
    ensures
        spec_system_from_line(system_name(s) + " ["@ + file + "]:"@) == Some(s),
{
    let n = system_name(s);
    reveal_strlit(" [");
    reveal_strlit("]:");
    let line = n + " ["@ + file + "]:"@;
    lemma_system_name_plain(s);
    lemma_system_name_is_keyword(s);
    assert(line[0] == n[0]);
    assert(trim_start(line) == line);
    assert(line.last() == ':');
    assert(trim_end(line) == line);
    assert(line.skip(line.len() - 2) == "]:"@);
    assert(line.subrange(n.len() as int, n.len() as int + 2) == " ["@);
    assert forall|k: int| 0 <= k < n.len() implies !occurs_at(line, " ["@, k) by {
        assert(line[k] == n[k]);
        if occurs_at(line, " ["@, k) {
            assert(line.subrange(k, k + 2)[0] == ' ');
        }
    }
    lemma_find_from_first(line, " ["@, 0, n.len() as int);
    assert(line.take(n.len() as int) == n);
}

} // verus!

//! Options entered in the toolbar: the disc name, the drive speed and the drive list.
use vstd::prelude::*;

use crate::text::{chars_of, parse_i32, parse_signed, string_of, trim, trimmed};

verus! {

/// Characters that a file name cannot hold on some system.
pub open spec fn is_illegal_name_char(c: char) -> bool {
    c == '/' || c == '\\' || c == ':' || c == '*' || c == '?' || c == '"' || c == '<' || c == '>'
        || c == '|'
}

/// The longest disc name, in characters.
pub const MAX_DISC_NAME_CHARS: usize = 100;

/// A disc name as entered, without illegal characters and cut to 100 characters.
pub open spec fn is_legal_name_char(c: char) -> bool {
    !is_illegal_name_char(c)
}

pub open spec fn spec_sanitize_disc_name(s: Seq<char>) -> Seq<char> {
    let f = s.filter(|c: char| is_legal_name_char(c));
    if f.len() > 100 {
        f.take(100)
    } else {
        f
    }
}

/// Drops illegal characters from an entered disc name and cuts it to 100 characters.
pub fn sanitize_disc_name(s: &str) -> (r: String)
    ensures
        r@ == spec_sanitize_disc_name(s@),
{
    let c = chars_of(s);
    let ghost pred = |c: char| is_legal_name_char(c);
    let mut kept: Vec<char> = Vec::new();
    let mut i: usize = 0;
    assert(c@.take(0) == Seq::<char>::empty());
    while i < c.len()
        invariant
            i <= c.len(),
            pred == (|c: char| is_legal_name_char(c)),
            kept@ == c@.take(i as int).filter(pred),
        decreases c.len() - i,
    {
        let x = c[i];
        proof {
            reveal_with_fuel(Seq::filter, 1);
            assert(c@.take(i + 1).drop_last() == c@.take(i as int));
        }
        if !(x == '/' || x == '\\' || x == ':' || x == '*' || x == '?' || x == '"' || x == '<' || x
            == '>' || x == '|') {
            kept.push(x);
        }
        proof {
            reveal_with_fuel(Seq::filter, 1);
            assert(c@.take(i + 1).last() == x);
            assert(pred(x) == is_legal_name_char(x));
            assert(c@.take(i + 1).filter(pred) == if pred(x) {
                c@.take(i as int).filter(pred).push(x)
            } else {
                c@.take(i as int).filter(pred)
            });
        }
        i += 1;
    }
    assert(c@.take(c.len() as int) == c@);
    assert(pred == (|c: char| is_legal_name_char(c)));
    if kept.len() > MAX_DISC_NAME_CHARS {
        kept.truncate(MAX_DISC_NAME_CHARS);
    }
    string_of(&kept)
}

/// `s` without its trailing `x` characters (what `trim_end_matches('x')` gives).
pub open spec fn trim_end_x(s: Seq<char>) -> Seq<char>
    decreases s.len(),
{
    if s.len() > 0 && s.last() == 'x' {
        trim_end_x(s.drop_last())
    } else {
        s
    }
}

/// The word `MAX` in any case.
pub open spec fn is_max_word(t: Seq<char>) -> bool {
    t.len() == 3 && (t[0] == 'm' || t[0] == 'M') && (t[1] == 'a' || t[1] == 'A') && (t[2] == 'x'
        || t[2] == 'X')
}

/// The drive speed that a typed speed text asks for: `MAX` is 100, a number is held
/// to `0..=72`, anything else leaves the speed unchanged (`None`). The text is
/// trimmed, loses trailing lowercase `x`s, is trimmed again, and is read upper-cased:
/// only `m`/`M`, `a`/`A`, `x`/`X` upper-case to the letters of `MAX`, and
/// upper-casing never makes or unmakes a number.
pub open spec fn spec_speed_from_text(text: Seq<char>) -> Option<i32> {
    let t = trim(trim_end_x(trim(text)));
    if is_max_word(t) {
        Some(100)
    } else {
        match parse_signed(t, i32::MIN as int, i32::MAX as int) {
            Some(v) => Some(
                if v < 0 {
                    0
                } else if v > 72 {
                    72
                } else {
                    v as i32
                },
            ),
            None => None,
        }
    }
}

/// Reads a typed drive speed (see `spec_speed_from_text`).
pub fn speed_from_text(text: &str) -> (r: Option<i32>)
    ensures
        r == spec_speed_from_text(text@),
{
    let c = chars_of(text);
    let t1 = trimmed(&c);
    let mut k = t1.len();
    assert(t1@.take(k as int) == t1@);
    while k > 0 && t1[k - 1] == 'x'
        invariant
            k <= t1.len(),
            trim_end_x(t1@) == trim_end_x(t1@.take(k as int)),
        decreases k,
    {
        assert(t1@.take(k as int).drop_last() == t1@.take(k - 1));
        k -= 1;
    }
    proof {
        assert(t1@.take(t1.len() as int) == t1@);
    }
    let t2 = crate::text::slice_chars(&t1, 0, k);
    assert(t2@ == t1@.take(k as int));
    let t = trimmed(&t2);
    if t.len() == 3 && (t[0] == 'm' || t[0] == 'M') && (t[1] == 'a' || t[1] == 'A') && (t[2]
        == 'x' || t[2] == 'X') {
        return Some(100);
    }
    match parse_i32(&t) {
        Some(v) => Some(
            if v < 0 {
                0
            } else if v > 72 {
                72
            } else {
                v
            },
        ),
        None => None,
    }
}

/// The speeds the speed slider steps through (100 stands for the maximum).
pub open spec fn speed_steps() -> Seq<i32> {
    seq![1, 2, 4, 6, 8, 12, 16, 20, 24, 32, 40, 48, 52, 100]
}

pub fn speed_step_values() -> (r: Vec<i32>)
    ensures
        r@ == speed_steps(),
{
    let r = vec![1, 2, 4, 6, 8, 12, 16, 20, 24, 32, 40, 48, 52, 100];
    assert(r@ == speed_steps());
    r
}

/// The first position at or after `i` where `s` holds `v`.
pub open spec fn first_index_of(s: Seq<i32>, v: i32, i: int) -> Option<int>
    decreases s.len() - i,
{
    if i < 0 || i >= s.len() {
        None
    } else if s[i] == v {
        Some(i)
    } else {
        first_index_of(s, v, i + 1)
    }
}

/// The last position before `k` where `s` holds a value at most `m`.
pub open spec fn last_index_at_most(s: Seq<i32>, m: i32, k: int) -> Option<int>
    decreases k,
{
    if k <= 0 || k > s.len() {
        None
    } else if s[k - 1] <= m {
        Some(k - 1)
    } else {
        last_index_at_most(s, m, k - 1)
    }
}

/// The slider step for a speed: the step of that speed, else the last step not
/// above it (counting speeds below 1 as 1), else the first.
pub open spec fn spec_speed_step_index(speed: i32) -> int {
    let s = speed_steps();
    match first_index_of(s, speed, 0) {
        Some(i) => i,
        None => match last_index_at_most(
            s,
            if speed < 1 {
                1
            } else {
                speed
            },
            s.len() as int,
        ) {
            Some(i) => i,
            None => 0,
        },
    }
}

/// The slider step for a speed (see `spec_speed_step_index`).
pub fn speed_step_index(speed: i32) -> (r: usize)
    ensures
        r as int == spec_speed_step_index(speed),
        r < speed_steps().len(),
{
    let steps = speed_step_values();
    let mut i: usize = 0;
    while i < steps.len()
        invariant
            steps@ == speed_steps(),
            i <= steps.len(),
            first_index_of(steps@, speed, 0) == first_index_of(steps@, speed, i as int),
        decreases steps.len() - i,
    {
        if steps[i] == speed {
            return i;
        }
        i += 1;
    }
    let m = if speed < 1 {
        1
    } else {
        speed
    };
    let mut k: usize = steps.len();
    while k > 0
        invariant
            steps@ == speed_steps(),
            k <= steps.len(),
            first_index_of(steps@, speed, 0) is None,
            m == if speed < 1 {
                1
            } else {
                speed
            },
            last_index_at_most(steps@, m, steps@.len() as int) == last_index_at_most(
                steps@,
                m,
                k as int,
            ),
        decreases k,
    {
        if steps[k - 1] <= m {
            return k - 1;
        }
        k -= 1;
    }
    0
}

/// The speed that decides how fast the disc spins during a dump: 16 for the
/// default (below 1), 72 for the maximum, else the speed.
pub fn effective_speed(speed: i32) -> (r: i32)
    ensures
        r == if speed < 1 {
            16
        } else if speed == 100 {
            72
        } else {
            speed
        },
{
    if speed < 1 {
        16
    } else if speed == 100 {
        72
    } else {
        speed
    }
}

/// Below this much free space on the output drive (1 GiB) a dump asks first.
pub const LOW_SPACE_BYTES: u64 = 1073741824;

/// The free megabytes (MiB) to warn about before a dump, when `available` bytes
/// are below `LOW_SPACE_BYTES`; `None` when there is enough room.
pub fn low_space_warning(available: u64) -> (r: Option<u64>)
    ensures
        available < LOW_SPACE_BYTES ==> r == Some(available / 1048576),
        available >= LOW_SPACE_BYTES ==> r is None,
{
    if available < LOW_SPACE_BYTES {
        Some(available / 1048576)
    } else {
        None
    }
}

/// The drive selection after the drive list was refreshed.
#[derive(Clone, Copy, PartialEq, Eq, Debug, Structural)]
pub struct DriveSelection {
    /// Index of the selected drive.
    pub selected: usize,
    /// What the previous selection is taken to be (`usize::MAX` forces a recheck).
    pub prev_selected: usize,
    /// Whether the disc name is cleared.
    pub clear_name: bool,
}

pub open spec fn drive_views(d: Seq<(String, String)>) -> Seq<(Seq<char>, Seq<char>)> {
    d.map_values(|x: (String, String)| (x.0@, x.1@))
}

/// The first position at or after `i` in `drives` whose path is `path`.
pub open spec fn position_from(drives: Seq<(Seq<char>, Seq<char>)>, path: Seq<char>, i: int) -> Option<
    int,
>
    decreases drives.len() - i,
{
    if i < 0 || i >= drives.len() {
        None
    } else if drives[i].0 == path {
        Some(i)
    } else {
        position_from(drives, path, i + 1)
    }
}

/// The first position in `drives` whose path is `path`.
pub open spec fn position_of(drives: Seq<(Seq<char>, Seq<char>)>, path: Seq<char>) -> Option<int> {
    position_from(drives, path, 0)
}

/// After a refresh the previously selected drive stays selected where it still
/// exists, and the disc name is cleared if its volume label changed; otherwise
/// the first drive is selected and the disc name is cleared.
pub open spec fn spec_reselect(
    prev: Option<(Seq<char>, Seq<char>)>,
    drives: Seq<(Seq<char>, Seq<char>)>,
) -> DriveSelection {
    match prev {
        Some(p) => match position_of(drives, p.0) {
            Some(i) => DriveSelection {
                selected: i as usize,
                prev_selected: i as usize,
                clear_name: drives[i].1 != p.1,
            },
            None => DriveSelection { selected: 0, prev_selected: usize::MAX, clear_name: true },
        },
        None => DriveSelection { selected: 0, prev_selected: usize::MAX, clear_name: true },
    }
}

/// Chooses the selection after a refresh of the drive list (`prev` is the drive
/// selected before, as path and volume label).
pub fn reselect_drive(prev: Option<&(String, String)>, drives: &[(String, String)]) -> (r:
    DriveSelection)
    ensures
        r == spec_reselect(
            match prev {
                Some(p) => Some((p.0@, p.1@)),
                None => None,
            },
            drive_views(drives@),
        ),
{
    let ghost dv = drive_views(drives@);
    match prev {
        None => DriveSelection { selected: 0, prev_selected: usize::MAX, clear_name: true },
        Some(p) => {
            let mut i: usize = 0;
            while i < drives.len()
                invariant
                    prev == Some(p),
                    i <= drives.len(),
                    dv == drive_views(drives@),
                    position_of(dv, p.0@) == position_from(dv, p.0@, i as int),
                decreases drives.len() - i,
            {
                assert(dv[i as int] == (drives@[i as int].0@, drives@[i as int].1@));
                if drives[i].0 == p.0 {
                    let same_label = drives[i].1 == p.1;


                    return DriveSelection { selected: i, prev_selected: i, clear_name: !same_label };
                }
                i += 1;
            }
            DriveSelection { selected: 0, prev_selected: usize::MAX, clear_name: true }
        },
    }
}

/// A sanitized disc name holds no illegal character and at most 100 characters,
/// and sanitizing it again changes nothing.
pub proof fn lemma_sanitize_clean_and_idempotent(s: Seq<char>)
    ensures
        spec_sanitize_disc_name(s).len() <= 100,
        forall|i: int|
            0 <= i < spec_sanitize_disc_name(s).len() ==> is_legal_name_char(
                #[trigger] spec_sanitize_disc_name(s)[i],
            ),
        spec_sanitize_disc_name(spec_sanitize_disc_name(s)) == spec_sanitize_disc_name(s),
{
    let pred = |c: char| is_legal_name_char(c);
    let f = s.filter(pred);
    let r = spec_sanitize_disc_name(s);
    broadcast use vstd::seq_lib::group_filter_ensures;

    assert forall|i: int| 0 <= i < r.len() implies is_legal_name_char(#[trigger] r[i]) by {
        assert(pred(f[i]));
    }
    lemma_filter_all_kept(r, pred);
}

/// Filtering a sequence whose elements all pass keeps it whole.
pub proof fn lemma_filter_all_kept(s: Seq<char>, pred: spec_fn(char) -> bool)
    requires
        forall|i: int| 0 <= i < s.len() ==> pred(#[trigger] s[i]),
    ensures
        s.filter(pred) == s,
    decreases s.len(),
{
    reveal_with_fuel(Seq::filter, 1);
    if s.len() > 0 {
        lemma_filter_all_kept(s.drop_last(), pred);
        assert(s.drop_last().push(s.last()) == s);
    }
}

/// A typed speed, when accepted, is the maximum (100) or lies in `0..=72`.
pub proof fn lemma_speed_from_text_range(text: Seq<char>)
    ensures
        spec_speed_from_text(text) matches Some(v) ==> v == 100 || 0 <= v <= 72,
{
}

} // verus!

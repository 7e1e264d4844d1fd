//! Sector map tracking from redumper progress lines.
use vstd::prelude::*;

use crate::text::{lemma_find_from_first};
use crate::text::{
    all_digits, chars_of, digits_value, find, find_chars, find_from, is_digit, is_ws, occurs_at,
    parse_isize, parse_signed, parse_u8, parse_unsigned, parse_usize, rfind_char, rfind_char_in,
    slice_chars, split_once, split_once_chars, trim, trim_end, trim_start, trimmed,
};

verus! {

/// Read status of one sector.
#[derive(Clone, Copy, PartialEq, Eq, Debug, Structural)]
pub enum SectorStatus {
    Unread,
    Good,
    Error,
}

/// The sector map: one status per sector, how far the dump has read, and the sector count.
pub struct SectorMap {
    pub states: Vec<SectorStatus>,
    pub sectors_read: usize,
    pub total_sectors: usize,
}

/// The abstract value of a `SectorMap`.
#[verifier::ext_equal]
pub struct SectorMapView {
    pub states: Seq<SectorStatus>,
    pub sectors_read: usize,
    pub total_sectors: usize,
}

impl View for SectorMap {
    type V = SectorMapView;

    open spec fn view(&self) -> SectorMapView {
        SectorMapView {
            states: self.states@,
            sectors_read: self.sectors_read,
            total_sectors: self.total_sectors,
        }
    }
}

/// `s` cut or padded with unread sectors to length `n` (what `Vec::resize` does).
pub open spec fn resized(s: Seq<SectorStatus>, n: nat) -> Seq<SectorStatus> {
    if n <= s.len() {
        s.take(n as int)
    } else {
        s + Seq::new((n - s.len()) as nat, |_j: int| SectorStatus::Unread)
    }
}

/// Grows the sector count, and the map with it, when `n` exceeds the current count.
pub open spec fn spec_set_total(m: SectorMapView, n: usize) -> SectorMapView {
    if n > m.total_sectors {
        SectorMapView { states: resized(m.states, n as nat), total_sectors: n, ..m }
    } else {
        m
    }
}

/// Every unread sector below `end` is marked read.
pub open spec fn mark_unread_ok(s: Seq<SectorStatus>, end: int) -> Seq<SectorStatus> {
    Seq::new(
        s.len(),
        |j: int|
            if j < end && s[j] == SectorStatus::Unread {
                SectorStatus::Good
            } else {
                s[j]
            },
    )
}

/// The sector map once a phase has completed: sectors below the sector count that
/// are still unread are read, and the read position is the sector count.
pub open spec fn spec_complete_phase(m: SectorMapView) -> SectorMapView {
    if m.total_sectors > 0 {
        let end = if m.total_sectors < m.states.len() {
            m.total_sectors as int
        } else {
            m.states.len() as int
        };
        SectorMapView {
            states: mark_unread_ok(m.states, end),
            sectors_read: m.total_sectors,
            ..m
        }
    } else {
        m
    }
}

impl SectorMap {
    pub fn new() -> (r: SectorMap)
        ensures
            r@.states.len() == 0,
            r@.sectors_read == 0,
            r@.total_sectors == 0,
    {
        SectorMap { states: Vec::new(), sectors_read: 0, total_sectors: 0 }
    }

    /// A map of `count` sectors that were all read without error.
    pub fn complete(count: usize) -> (r: SectorMap)
        ensures
            r@.states == Seq::new(count as nat, |_j: int| SectorStatus::Good),
            r@.sectors_read == count,
            r@.total_sectors == count,
    {
        let mut states: Vec<SectorStatus> = Vec::new();
        let mut i: usize = 0;
        while i < count
            invariant
                i <= count,
                states@ == Seq::new(i as nat, |_j: int| SectorStatus::Good),
            decreases count - i,
        {
            states.push(SectorStatus::Good);
            i += 1;
        }
        SectorMap { states, sectors_read: count, total_sectors: count }
    }

    /// Forgets all sectors.
    pub fn clear(&mut self)
        ensures
            final(self)@.states.len() == 0,
            final(self)@.sectors_read == 0,
            final(self)@.total_sectors == 0,
    {
        self.states.clear();
        self.sectors_read = 0;
        self.total_sectors = 0;
    }

    /// Marks the rest of the dump as read once a phase has completed.
    pub fn complete_phase(&mut self)
        ensures
            final(self)@ == spec_complete_phase(old(self)@),
    {
        let ts = self.total_sectors;
        if ts > 0 {
            let end = if ts < self.states.len() {
                ts
            } else {
                self.states.len()
            };
            let ghost s0 = self.states@;
            let ghost r0 = self.sectors_read;
            let mut j: usize = 0;
            while j < self.states.len()
                invariant
                    self.total_sectors == ts,
                    self.sectors_read == r0,
                    j <= self.states.len() == s0.len(),
                    end <= s0.len(),
                    forall|k: int| 0 <= k < j ==> self.states@[k] == mark_unread_ok(s0, end as int)[k],
                    forall|k: int| j <= k < s0.len() ==> self.states@[k] == s0[k],
                decreases s0.len() - j,
            {
                if j < end && self.states[j] == SectorStatus::Unread {
                    self.states[j] = SectorStatus::Good;
                }
                j += 1;
            }
            assert(self.states@ == mark_unread_ok(s0, end as int));
            self.sectors_read = ts;
        }
    }
}

/// Follows the progress lines of one redumper output stream.
pub struct ProgressTracker {
    pub started: bool,
    pub prev_index: usize,
    pub prev_errors: usize,
    pub dump: bool,
    pub refine: bool,
    pub info: bool,
    /// The stream's last character was a `\r` whose meaning waits on the next one:
    /// before a `\n` it ends a normal line, before anything else it ends a progress update.
    pub pending_cr: bool,
}

/// The sector count that a progress line's last LBA gives: one past it, never
/// negative, and zero where `lba_end + 1` wraps around.
pub open spec fn sector_count_for(lba_end: isize) -> usize {
    if lba_end == isize::MAX || lba_end + 1 < 0 {
        0
    } else {
        (lba_end + 1) as usize
    }
}

pub open spec fn min_int(a: int, b: int) -> int {
    if a < b {
        a
    } else {
        b
    }
}

pub open spec fn max_int(a: int, b: int) -> int {
    if a < b {
        b
    } else {
        a
    }
}

/// Sectors in `start..end` take `status` where they were unread or `status` is an error.
pub open spec fn mark_range(s: Seq<SectorStatus>, start: int, end: int, status: SectorStatus) -> Seq<
    SectorStatus,
> {
    Seq::new(
        s.len(),
        |j: int|
            if start <= j < end && (s[j] == SectorStatus::Unread || status == SectorStatus::Error) {
                status
            } else {
                s[j]
            },
    )
}

/// The tracker and sector map after a progress line reporting `current_lba`, `lba_end`
/// and `error_count`.
pub open spec fn spec_update(
    t: ProgressTracker,
    m: SectorMapView,
    current_lba: isize,
    lba_end: isize,
    error_count: usize,
) -> (ProgressTracker, SectorMapView) {
    let prev_errors = if !t.started {
        error_count
    } else {
        t.prev_errors
    };
    let m1 = spec_set_total(m, sector_count_for(lba_end));
    let index: int = if current_lba < 0 {
        0
    } else {
        current_lba as int
    };
    let increased = error_count > prev_errors;
    let decreased = error_count < prev_errors;
    let len = m1.states.len() as int;
    let m2 = if t.refine {
        if index < len {
            if decreased {
                SectorMapView { states: m1.states.update(index, SectorStatus::Good), ..m1 }
            } else if increased {
                SectorMapView { states: m1.states.update(index, SectorStatus::Error), ..m1 }
            } else {
                m1
            }
        } else {
            m1
        }
    } else {
        let start = min_int(min_int(t.prev_index as int, index), len);
        let end = min_int(max_int(t.prev_index as int, index), len);
        let status = if increased {
            SectorStatus::Error
        } else {
            SectorStatus::Good
        };
        SectorMapView {
            states: mark_range(m1.states, start, end, status),
            sectors_read: if end > m1.sectors_read {
                end as usize
            } else {
                m1.sectors_read
            },
            ..m1
        }
    };
    (ProgressTracker { started: true, prev_errors: error_count, prev_index: index as usize, ..t }, m2)
}

/// The tracker and map once the refine phase starts.
pub open spec fn spec_finish_dump_phase(t: ProgressTracker, m: SectorMapView) -> (
    ProgressTracker,
    SectorMapView,
) {
    let t2 = ProgressTracker { refine: true, prev_errors: 0, started: false, ..t };
    if !t.dump {
        (t2, m)
    } else {
        (t2, spec_complete_phase(m))
    }
}

/// `\n` is the line separator.
pub open spec fn last_line_start(buf: Seq<char>) -> int {
    match rfind_char(buf, '\n') {
        Some(p) => p + 1,
        None => 0,
    }
}

/// The text after the last line break.
pub open spec fn spec_last_line(buf: Seq<char>) -> Seq<char> {
    buf.skip(last_line_start(buf))
}

/// The most recent complete line of a buffer that ends with a line break.
pub open spec fn spec_last_completed_line(buf: Seq<char>) -> Seq<char> {
    spec_last_line(buf.drop_last())
}

/// Characters between error counters.
pub open spec fn is_error_sep(c: char) -> bool {
    c == ',' || c == '{' || c == '}'
}

/// The error counters that count towards the error total.
pub open spec fn is_error_key(k: Seq<char>) -> bool {
    k == "SCSI"@ || k == "SCSIs"@ || k == "C2"@ || k == "C2s"@ || k == "EDC"@ || k == "EDCs"@
}

/// What one `key: value` piece adds to the error total.
pub open spec fn error_contribution(piece: Seq<char>) -> usize {
    match split_once(piece, ":"@) {
        None => 0,
        Some((k, v)) => if is_error_key(trim(k)) {
            match parse_unsigned(trim(v), usize::MAX as int) {
                Some(n) => n as usize,
                None => 0,
            }
        } else {
            0
        },
    }
}

/// Addition that wraps around at `usize::MAX`: error counters are summed with wrapping arithmetic.
pub open spec fn wrap_add(a: usize, b: usize) -> usize {
    if a + b > usize::MAX {
        (a + b - usize::MAX - 1) as usize
    } else {
        (a + b) as usize
    }
}

/// Scans `s` left to right: the piece since the last separator, and the total of
/// the pieces before it.
pub open spec fn error_scan(s: Seq<char>) -> (Seq<char>, usize)
    decreases s.len(),
{
    if s.len() == 0 {
        (Seq::empty(), 0)
    } else {
        let (cur, sum) = error_scan(s.drop_last());
        let c = s.last();
        if is_error_sep(c) {
            (Seq::empty(), wrap_add(sum, error_contribution(cur)))
        } else {
            (cur.push(c), sum)
        }
    }
}

/// The error total of a section: the counters of its pieces, added up.
pub open spec fn error_total(section: Seq<char>) -> usize {
    wrap_add(error_scan(section).1, error_contribution(error_scan(section).0))
}

/// The text after the first `errors:` (empty without one).
pub open spec fn errors_section(line: Seq<char>) -> Seq<char> {
    match split_once(line, "errors:"@) {
        Some((_, s)) => s,
        None => Seq::empty(),
    }
}

/// The text before the first `,` (all of it without one).
pub open spec fn first_field(s: Seq<char>) -> Seq<char> {
    match find(s, ","@) {
        Some(i) => s.take(i),
        None => s,
    }
}

/// What a progress line such as `- [  0%] LBA:   1282/207655, errors: { SCSIs: 0, C2s: 0, Q: 0 }`
/// reports: the current LBA, the last LBA and the error total.
pub open spec fn spec_parse_lba_line(line: Seq<char>) -> Option<(isize, isize, usize)> {
    match split_once(line, "LBA:"@) {
        None => None,
        Some((_, a)) => match split_once(a, "/"@) {
            None => None,
            Some((lba_part, rest)) => match parse_signed(
                trim(lba_part),
                isize::MIN as int,
                isize::MAX as int,
            ) {
                None => None,
                Some(cur) => match parse_signed(
                    trim(first_field(rest)),
                    isize::MIN as int,
                    isize::MAX as int,
                ) {
                    None => None,
                    Some(end) => Some((cur as isize, end as isize, error_total(errors_section(line)))),
                },
            },
        },
    }
}

/// Whether the text between the first `[` and the first `%` of `line` can be cut out:
/// it cannot when that `%` comes before that `[`.
pub open spec fn hash_slice_ok(line: Seq<char>) -> bool {
    match (find(line, "["@), find(line, "%"@)) {
        (Some(b), Some(p)) => b + 1 <= p,
        _ => true,
    }
}

/// The percentage of a hash progress line such as `/ [ 89%] hashing`.
pub open spec fn spec_parse_hash_progress(line: Seq<char>) -> Option<u8> {
    match find(line, "["@) {
        None => None,
        Some(b) => match find(line, "%"@) {
            None => None,
            Some(p) => match parse_unsigned(trim(line.subrange(b + 1, p)), u8::MAX as int) {
                Some(v) => Some(v as u8),
                None => None,
            },
        },
    }
}

fn error_contribution_exec(piece: &[char]) -> (r: usize)
    ensures
        r == error_contribution(piece@),
{
    let colon = chars_of(":");
    match split_once_chars(piece, &colon) {
        None => 0,
        Some((k, v)) => {
            let kt = trimmed(&k);
            let is_key = crate::text::equals(&kt, &chars_of("SCSI")) || crate::text::equals(
                &kt,
                &chars_of("SCSIs"),
            ) || crate::text::equals(&kt, &chars_of("C2")) || crate::text::equals(
                &kt,
                &chars_of("C2s"),
            ) || crate::text::equals(&kt, &chars_of("EDC")) || crate::text::equals(
                &kt,
                &chars_of("EDCs"),
            );
            if is_key {
                let vt = trimmed(&v);
                match parse_usize(&vt) {
                    Some(n) => n,
                    None => 0,
                }
            } else {
                0
            }
        },
    }
}

fn error_total_exec(section: &[char]) -> (r: usize)
    ensures
        r == error_total(section@),
{
    let mut cur: Vec<char> = Vec::new();
    let mut sum: usize = 0;
    let mut i: usize = 0;
    assert(section@.take(0) == Seq::<char>::empty());
    while i < section.len()
        invariant
            i <= section.len(),
            (cur@, sum) == error_scan(section@.take(i as int)),
        decreases section.len() - i,
    {
        let c = section[i];
        assert(section@.take(i + 1).drop_last() == section@.take(i as int));
        if c == ',' || c == '{' || c == '}' {
            let v = error_contribution_exec(&cur);
            sum = sum.wrapping_add(v);
            cur = Vec::new();
        } else {
            cur.push(c);
        }
        i += 1;
    }
    assert(section@.take(section.len() as int) == section@);
    let v = error_contribution_exec(&cur);
    sum.wrapping_add(v)
}

impl ProgressTracker {
    pub fn new() -> (r: ProgressTracker)
        ensures
            !r.started && r.prev_index == 0 && r.prev_errors == 0,
            !r.dump && !r.refine && !r.info && !r.pending_cr,
    {
        ProgressTracker {
            started: false,
            prev_index: 0,
            prev_errors: 0,
            dump: false,
            refine: false,
            info: false,
            pending_cr: false,
        }
    }

    /// Grows the sector map and the sector count when `num_sectors` exceeds the count.
    pub fn set_total_sectors(&self, map: &mut SectorMap, num_sectors: usize)
        ensures
            final(map)@ == spec_set_total(old(map)@, num_sectors),
    {
        if num_sectors > map.total_sectors {
            map.total_sectors = num_sectors;
            let ghost s0 = map.states@;
            if num_sectors <= map.states.len() {
                map.states.truncate(num_sectors);
            } else {
                while map.states.len() < num_sectors
                    invariant
                        map.total_sectors == num_sectors,
                        map.sectors_read == old(map).sectors_read,
                        s0.len() <= map.states@.len() <= num_sectors,
                        map.states@ == s0 + Seq::new(
                            (map.states@.len() - s0.len()) as nat,
                            |_j: int| SectorStatus::Unread,
                        ),
                    decreases num_sectors - map.states.len(),
                {
                    map.states.push(SectorStatus::Unread);
                }
            }
        }
    }

    /// Applies one progress line to the sector map.
    pub fn update(&mut self, map: &mut SectorMap, current_lba: isize, lba_end: isize, error_count: usize)
        ensures
            (*final(self), final(map)@) == spec_update(
                *old(self),
                old(map)@,
                current_lba,
                lba_end,
                error_count,
            ),
    {
        if !self.started {
            self.started = true;
            self.prev_errors = error_count;
        }
        let num_sectors: usize = if lba_end == isize::MAX || lba_end + 1 < 0 {
            0
        } else {
            (lba_end + 1) as usize
        };
        self.set_total_sectors(map, num_sectors);
        let index: usize = if current_lba < 0 {
            0
        } else {
            current_lba as usize
        };
        let errors_increased = error_count > self.prev_errors;
        let errors_decreased = error_count < self.prev_errors;
        self.prev_errors = error_count;
        let len = map.states.len();
        if self.refine {
            if index < len {
                if errors_decreased {
                    map.states[index] = SectorStatus::Good;
                } else if errors_increased {
                    map.states[index] = SectorStatus::Error;
                }
            }
        } else {
            let lo = if self.prev_index < index {
                self.prev_index
            } else {
                index
            };
            let hi = if self.prev_index < index {
                index
            } else {
                self.prev_index
            };
            let start = if lo < len {
                lo
            } else {
                len
            };
            let end = if hi < len {
                hi
            } else {
                len
            };
            let status = if errors_increased {
                SectorStatus::Error
            } else {
                SectorStatus::Good
            };
            let ghost s0 = map.states@;
            let ghost m1 = map@;
            let mut j: usize = start;
            while j < end
                invariant
                    map.total_sectors == m1.total_sectors,
                    map.sectors_read == m1.sectors_read,
                    start <= j <= end <= len == map.states.len() == s0.len(),
                    forall|k: int|
                        0 <= k < j ==> map.states@[k] == mark_range(
                            s0,
                            start as int,
                            end as int,
                            status,
                        )[k],
                    forall|k: int| j <= k < len ==> map.states@[k] == s0[k],
                decreases end - j,
            {
                if map.states[j] == SectorStatus::Unread || status == SectorStatus::Error {
                    map.states[j] = status;
                }
                j += 1;
            }
            assert(map.states@ == mark_range(s0, start as int, end as int, status));
            if end > map.sectors_read {
                map.sectors_read = end;
            }
        }
        self.prev_index = index;
    }

    /// Called when the refine phase starts: the rest of a dump phase counts as read.
    pub fn finish_dump_phase(&mut self, map: &mut SectorMap)
        ensures
            (*final(self), final(map)@) == spec_finish_dump_phase(*old(self), old(map)@),
    {
        self.refine = true;
        self.prev_errors = 0;
        self.started = false;
        if !self.dump {
            return;
        }
        map.complete_phase();
    }

    /// Called at a section header once refining: the refine phase is complete.
    pub fn finish_refine_phase(&self, map: &mut SectorMap)
        ensures
            final(map)@ == spec_complete_phase(old(map)@),
    {
        map.complete_phase();
    }

    /// Reads a progress line such as `- [  0%] LBA:   1282/207655, errors: { SCSIs: 0, C2s: 0, Q: 0 }`.
    pub fn parse_lba_line(line: &str) -> (r: Option<(isize, isize, usize)>)
        ensures
            r == spec_parse_lba_line(line@),
    {
        let c = chars_of(line);
        Self::parse_lba_line_chars(&c)
    }

    pub fn parse_lba_line_chars(line: &[char]) -> (r: Option<(isize, isize, usize)>)
        ensures
            r == spec_parse_lba_line(line@),
    {
        let lba = chars_of("LBA:");
        let a = match split_once_chars(line, &lba) {
            Some((_, a)) => a,
            None => return None,
        };
        let slash = chars_of("/");
        let (lba_part, rest) = match split_once_chars(&a, &slash) {
            Some(p) => p,
            None => return None,
        };
        let cur = match parse_isize(&trimmed(&lba_part)) {
            Some(v) => v,
            None => return None,
        };
        let comma = chars_of(",");
        proof {
            reveal_strlit(",");
            crate::text::lemma_find_from_occurs(rest@, ","@, 0);
        }
        let field = match find_chars(&rest, &comma) {
            Some(i) => slice_chars(&rest, 0, i),
            None => rest,
        };
        let end = match parse_isize(&trimmed(&field)) {
            Some(v) => v,
            None => return None,
        };
        let errs = chars_of("errors:");
        let section = match split_once_chars(line, &errs) {
            Some((_, s)) => s,
            None => Vec::new(),
        };
        let total = error_total_exec(&section);
        Some((cur, end, total))
    }

    /// The text after the last line break.
    pub fn last_line(buf: &[char]) -> (r: Vec<char>)
        ensures
            r@ == spec_last_line(buf@),
    {
        proof {
            lemma_rfind_char_bound(buf@, '\n');
        }
        let n = buf.len();
        let start = match rfind_char_in(buf, '\n') {
            Some(p) => p + 1,
            None => 0,
        };
        slice_chars(buf, start, n)
    }

    /// Drops the text after the last line break.
    pub fn clear_line(buf: &mut Vec<char>)
        ensures
            final(buf)@ == old(buf)@.take(last_line_start(old(buf)@)),
    {
        proof {
            lemma_rfind_char_bound(buf@, '\n');
        }
        let n = buf.len();
        match rfind_char_in(buf, '\n') {
            Some(p) => {
                assert(p + 1 <= n);
                buf.truncate(p + 1)
            },
            None => buf.clear(),
        }
    }

    /// The most recent complete line of a buffer that ends with a line break.
    pub fn last_completed_line(buf: &[char]) -> (r: Vec<char>)
        requires
            buf@.len() > 0,
        ensures
            r@ == spec_last_completed_line(buf@),
    {
        let without = slice_chars(buf, 0, buf.len() - 1);
        assert(without@ == buf@.drop_last());
        Self::last_line(&without)
    }
}

/// A position that `rfind_char` returns lies in the sequence and holds the character.
pub proof fn lemma_rfind_char_bound(s: Seq<char>, c: char)
    ensures
        rfind_char(s, c) matches Some(p) ==> 0 <= p < s.len() && s[p] == c,
    decreases s.len(),
{
    if s.len() > 0 && s.last() != c {
        lemma_rfind_char_bound(s.drop_last(), c);
    }
}

/// Reads the percentage of a hash progress line such as `/ [ 89%] hashing`.
pub fn parse_hash_progress(line: &str) -> (r: Option<u8>)
    requires
        hash_slice_ok(line@),
    ensures
        r == spec_parse_hash_progress(line@),
{
    let c = chars_of(line);
    parse_hash_progress_chars(&c)
}

pub fn parse_hash_progress_chars(line: &[char]) -> (r: Option<u8>)
    requires
        hash_slice_ok(line@),
    ensures
        r == spec_parse_hash_progress(line@),
{
    proof {
        reveal_strlit("%");
        reveal_strlit("[");
        crate::text::lemma_find_from_occurs(line@, "%"@, 0);
        crate::text::lemma_find_from_occurs(line@, "["@, 0);
    }
    let open = chars_of("[");
    let pct = chars_of("%");
    let b = match find_chars(line, &open) {
        Some(b) => b,
        None => return None,
    };
    let p = match find_chars(line, &pct) {
        Some(p) => p,
        None => return None,
    };
    let inner = slice_chars(line, b + 1, p);
    parse_u8(&trimmed(&inner))
}

/// Whether `parse_hash_progress` accepts `line` (see `hash_slice_ok`).
pub fn hash_progress_slice_ok(line: &[char]) -> (r: bool)
    ensures
        r == hash_slice_ok(line@),
{
    proof {
        reveal_strlit("%");
        reveal_strlit("[");
        crate::text::lemma_find_from_occurs(line@, "%"@, 0);
        crate::text::lemma_find_from_occurs(line@, "["@, 0);
    }
    let open = chars_of("[");
    let pct = chars_of("%");
    let b = find_chars(line, &open);
    let p = find_chars(line, &pct);
    match (b, p) {
        (Some(b), Some(p)) => b < p,
        _ => true,
    }
}

/// A sector map is consistent when it holds one status per sector of the sector
/// count and has not read past that count.
pub open spec fn map_consistent(m: SectorMapView) -> bool {
    m.states.len() == m.total_sectors && m.sectors_read <= m.total_sectors
}

/// Every operation on a sector map keeps it consistent.
pub proof fn lemma_operations_keep_map_consistent(
    t: ProgressTracker,
    m: SectorMapView,
    current_lba: isize,
    lba_end: isize,
    error_count: usize,
    n: usize,
)
    requires
        map_consistent(m),
    ensures
        map_consistent(spec_set_total(m, n)),
        map_consistent(spec_update(t, m, current_lba, lba_end, error_count).1),
        map_consistent(spec_complete_phase(m)),
        map_consistent(spec_finish_dump_phase(t, m).1),
{
}

/// The sector count never shrinks, and neither does the read position.
pub proof fn lemma_counts_never_shrink(
    t: ProgressTracker,
    m: SectorMapView,
    current_lba: isize,
    lba_end: isize,
    error_count: usize,
)
    requires
        map_consistent(m),
    ensures
        spec_update(t, m, current_lba, lba_end, error_count).1.total_sectors >= m.total_sectors,
        spec_update(t, m, current_lba, lba_end, error_count).1.sectors_read >= m.sectors_read,
        spec_complete_phase(m).total_sectors == m.total_sectors,
        spec_complete_phase(m).sectors_read >= m.sectors_read,
{
}

/// Outside the refine phase a bad sector stays bad, and a read sector never becomes
/// unread again; completing a phase only turns unread sectors good.
pub proof fn lemma_dump_phase_keeps_errors(
    t: ProgressTracker,
    m: SectorMapView,
    current_lba: isize,
    lba_end: isize,
    error_count: usize,
    j: int,
)
    requires
        map_consistent(m),
        !t.refine,
        0 <= j < m.states.len(),
    ensures
        m.states[j] == SectorStatus::Error ==> spec_update(
            t,
            m,
            current_lba,
            lba_end,
            error_count,
        ).1.states[j] == SectorStatus::Error,
        m.states[j] != SectorStatus::Unread ==> spec_update(
            t,
            m,
            current_lba,
            lba_end,
            error_count,
        ).1.states[j] != SectorStatus::Unread,
        m.states[j] != SectorStatus::Unread ==> spec_complete_phase(m).states[j] == m.states[j],
{
}

/// Dropping the current line leaves the log empty or ending with a complete line.
pub proof fn lemma_clear_line_ends_at_line_break(buf: Seq<char>)
    ensures
        ({
            let r = buf.take(last_line_start(buf));
            r.len() == 0 || r.last() == '\n'
        }),
{
    lemma_rfind_char_bound(buf, '\n');
}

/// A character of a counter's name: an ASCII letter or digit.
pub open spec fn is_name_char(c: char) -> bool {
    ('A' <= c && c <= 'Z') || ('a' <= c && c <= 'z') || ('0' <= c && c <= '9')
}

/// Scanning text without separators only extends the current piece.
proof fn lemma_scan_without_separators(p: Seq<char>, q: Seq<char>)
    requires
        forall|k: int| 0 <= k < q.len() ==> !is_error_sep(#[trigger] q[k]),
    ensures
        error_scan(p + q) == (error_scan(p).0 + q, error_scan(p).1),
    decreases q.len(),
{
    if q.len() == 0 {
        assert(p + q =~= p);
        assert(error_scan(p).0 + q =~= error_scan(p).0);
    } else {
        lemma_scan_without_separators(p, q.drop_last());
        assert((p + q).drop_last() =~= p + q.drop_last());
        assert((p + q).last() == q[q.len() - 1]);
        assert((error_scan(p).0 + q.drop_last()).push(q[q.len() - 1]) =~= error_scan(p).0 + q);
    }
}

/// `s` padded with one space on each side trims back to `s`, when `s` is not empty
/// and neither begins nor ends with whitespace.
proof fn lemma_trim_padded(s: Seq<char>, left: bool, right: bool)
    requires
        s.len() > 0,
        !is_ws(s[0]),
        !is_ws(s.last()),
    ensures
        trim((if left { seq![' '] } else { Seq::empty() }) + s + (if right { seq![' '] } else { Seq::empty() }))
            == s,
{
    let l: Seq<char> = if left { seq![' '] } else { Seq::empty() };
    let r: Seq<char> = if right { seq![' '] } else { Seq::empty() };
    let x = l + s + r;
    if left {
        assert(x[0] == ' ');
        assert(x.drop_first() =~= s + r);
    } else {
        assert(x =~= s + r);
    }
    assert((s + r)[0] == s[0]);
    assert(trim_start(s + r) == s + r);
    if left {
        assert(is_ws(x[0]));
        assert(trim_start(x) == trim_start(x.drop_first()));
    }
    assert(trim_start(x) == s + r);
    if right {
        assert((s + r).last() == ' ');
        assert((s + r).drop_last() =~= s);
    } else {
        assert(s + r =~= s);
    }
    assert(trim_end(s) == s);
    if right {
        assert(is_ws((s + r).last()));
        assert(trim_end(s + r) == trim_end((s + r).drop_last()));
    }
    assert(trim_end(s + r) == s);
}

/// The error total of a section holding a single counter `{ name: n }`, with a name
/// made of letters and digits: the value n for the counters `SCSI`, `SCSIs`, `C2`,
/// `C2s`, `EDC` and `EDCs`, and nothing for any other counter (such as `Q`).
pub proof fn lemma_single_counter_total(key: Seq<char>, digits: Seq<char>)
    requires
        key.len() > 0,
        forall|k: int| 0 <= k < key.len() ==> is_name_char(#[trigger] key[k]),
        digits.len() > 0,
        all_digits(digits),
        digits_value(digits) <= usize::MAX,
    ensures
        error_total("{ "@ + key + ": "@ + digits + " }"@) == if key == "SCSI"@ || key == "SCSIs"@
            || key == "C2"@ || key == "C2s"@ || key == "EDC"@ || key == "EDCs"@ {
            digits_value(digits)
        } else {
            0
        },
{
    reveal_strlit("{ ");
    reveal_strlit(": ");
    reveal_strlit(" }");
    reveal_strlit(":");
    reveal_strlit("SCSI");
    reveal_strlit("SCSIs");
    reveal_strlit("C2");
    reveal_strlit("C2s");
    reveal_strlit("EDC");
    reveal_strlit("EDCs");
    let body = seq![' '] + key + seq![':'] + (seq![' '] + digits + seq![' ']);
    let s = seq!['{'] + body + seq!['}'];
    assert(s =~= "{ "@ + key + ": "@ + digits + " }"@);
    let kl = key.len() as int;
    let dl = digits.len() as int;
    let sp: Seq<char> = seq![' '];
    let colon: Seq<char> = seq![':'];
    assert(sp.len() == 1 && colon.len() == 1);
    assert(body.len() == kl + dl + 4);
    assert forall|k: int| 0 <= k < body.len() implies !is_error_sep(#[trigger] body[k]) by {
        if 1 <= k < 1 + kl {
            assert(body[k] == key[k - 1]);
            assert(is_name_char(key[k - 1]));
        } else if 3 + kl <= k < 3 + kl + dl {
            assert(body[k] == digits[k - 3 - kl]);
            assert(is_digit(digits[k - 3 - kl]));
        }
    }
    // The opening brace closes an empty piece.
    let open = seq!['{'];
    assert(open.drop_last() =~= Seq::<char>::empty());
    assert(find_from(Seq::<char>::empty(), ":"@, 0) is None);
    assert(error_contribution(Seq::<char>::empty()) == 0);
    assert(error_scan(Seq::<char>::empty()) == (Seq::<char>::empty(), 0usize));
    assert(open.last() == '{');
    assert(wrap_add(0, 0) == 0);
    assert(error_scan(open) == (Seq::<char>::empty(), 0usize));
    lemma_scan_without_separators(open, body);
    assert(Seq::<char>::empty() + body =~= body);
    assert(s.drop_last() =~= open + body);
    assert(s.last() == '}');
    // The piece between the braces is `key: n`.
    let j = 1 + kl;
    assert(occurs_at(body, ":"@, j)) by {
        assert(body.subrange(j, j + 1) =~= ":"@);
    }
    assert forall|k: int| 0 <= k < j implies !occurs_at(body, ":"@, k) by {
        if occurs_at(body, ":"@, k) {
            assert(body.subrange(k, k + 1)[0] == body[k]);
            if k >= 1 {
                assert(body[k] == key[k - 1]);
                assert(is_name_char(key[k - 1]));
            }
        }
    }
    lemma_find_from_first(body, ":"@, 0, j);
    let before = body.take(j);
    let after = body.skip(j + 1);
    assert(before =~= seq![' '] + key + Seq::<char>::empty());
    assert(after =~= seq![' '] + digits + seq![' ']);
    assert(is_name_char(key[0]));
    assert(is_name_char(key.last())) by {
        assert(key.last() == key[kl - 1]);
    }
    lemma_trim_padded(key, true, false);
    assert(is_digit(digits[0]));
    assert(is_digit(digits.last())) by {
        assert(digits.last() == digits[dl - 1]);
    }
    lemma_trim_padded(digits, true, true);
    assert(trim(before) == key);
    assert(trim(after) == digits);
    assert(parse_unsigned(digits, usize::MAX as int) == Some(digits_value(digits) as int));
}

/// Wrapping addition is associative and has zero as its unit.
proof fn lemma_wrap_add_laws(a: usize, b: usize, c: usize)
    ensures
        wrap_add(wrap_add(a, b), c) == wrap_add(a, wrap_add(b, c)),
        wrap_add(a, 0) == a,
{
}

/// Scanning after a prefix whose last piece was closed carries that prefix's total along.
proof fn lemma_scan_after_closed(p: Seq<char>, q: Seq<char>)
    requires
        error_scan(p).0.len() == 0,
    ensures
        error_scan(p + q) == (error_scan(q).0, wrap_add(error_scan(p).1, error_scan(q).1)),
    decreases q.len(),
{
    let total = error_scan(p).1;
    if q.len() == 0 {
        assert(p + q =~= p);
        assert(error_scan(q) == (Seq::<char>::empty(), 0usize));
        assert(error_scan(p).0 =~= Seq::<char>::empty());
        lemma_wrap_add_laws(total, 0, 0);
    } else {
        lemma_scan_after_closed(p, q.drop_last());
        assert((p + q).drop_last() =~= p + q.drop_last());
        assert((p + q).last() == q.last());
        let (cur, sum) = error_scan(q.drop_last());
        lemma_wrap_add_laws(total, sum, error_contribution(cur));
    }
}

/// Counters separated by a comma add up: the error total of `a,b` is the (wrapping)
/// sum of the error totals of `a` and of `b`.
pub proof fn lemma_error_total_split(a: Seq<char>, b: Seq<char>)
    ensures
        error_total(a + ","@ + b) == wrap_add(error_total(a), error_total(b)),
{
    reveal_strlit(",");
    let p = a + ","@;
    assert(p.drop_last() =~= a);
    assert(p.last() == ',');
    assert(error_scan(p) == (Seq::<char>::empty(), error_total(a)));
    lemma_scan_after_closed(p, b);
    assert(a + ","@ + b == p + b);
    lemma_wrap_add_laws(error_total(a), error_scan(b).1, error_contribution(error_scan(b).0));
}

/// The first progress line after the tracker (re)starts only sets the error
/// baseline: it updates the map as a line carrying the baseline's own count would,
/// and turns no sector bad.
pub proof fn lemma_first_line_sets_baseline(
    t: ProgressTracker,
    m: SectorMapView,
    current_lba: isize,
    lba_end: isize,
    error_count: usize,
)
    requires
        !t.started,
    ensures
        spec_update(t, m, current_lba, lba_end, error_count) == spec_update(
            ProgressTracker { started: true, prev_errors: error_count, ..t },
            m,
            current_lba,
            lba_end,
            error_count,
        ),
        ({
            let m2 = spec_update(t, m, current_lba, lba_end, error_count).1;
            forall|j: int|
                0 <= j < m2.states.len() && #[trigger] m2.states[j] == SectorStatus::Error ==> j
                    < m.states.len() && m.states[j] == SectorStatus::Error
        }),
{
    let m1 = spec_set_total(m, sector_count_for(lba_end));
    assert forall|j: int|
        0 <= j < m1.states.len() && #[trigger] m1.states[j] == SectorStatus::Error implies j
            < m.states.len() && m.states[j] == SectorStatus::Error by {
        if sector_count_for(lba_end) > m.total_sectors {
            if (sector_count_for(lba_end) as nat) <= m.states.len() {
            } else {
                if j >= m.states.len() {
                    assert(m1.states[j] == SectorStatus::Unread);
                }
            }
        }
    }
}

} // verus!

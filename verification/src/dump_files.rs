//! The files of a dump on disk: which exist, what they say, and the redumper command line.
use vstd::prelude::*;

use crate::progress::{resized, SectorMap, SectorStatus};
use crate::text::{
    chars_of, find, find_chars, first_word, first_word_chars, has_prefix, is_digit, joined, parse_unsigned,
    parse_usize, slice_chars, starts_with, starts_with_str, string_of, string_views, trim,
    trim_start, trimmed, trimmed_start,
};

verus! {

/// Options chosen for a dump.
pub struct DumpOptions {
    pub disc_name: String,
    pub retries: u32,
    pub speed: i32,
    pub auto_eject: bool,
    pub skeleton: bool,
    pub rings: bool,
}

/// The decimal digits of `d < 10`.
pub open spec fn digit_char(d: nat) -> char {
    ((d + 48) as u8) as char
}

/// `n` written in decimal, without leading zeros.
pub open spec fn decimal(n: nat) -> Seq<char>
    decreases n,
{
    if n < 10 {
        seq![digit_char(n)]
    } else {
        decimal(n / 10).push(digit_char(n % 10))
    }
}

/// `n` written in decimal.
pub fn decimal_chars(n: u32) -> (r: Vec<char>)
    ensures
        r@ == decimal(n as nat),
    decreases n,
{
    let d = (n % 10) as u8;
    let c = (d + 48) as char;
    if n < 10 {
        let mut v: Vec<char> = Vec::new();
        v.push(c);
        assert(v@ == seq![digit_char(n as nat)]);
        v
    } else {
        let mut v = decimal_chars(n / 10);
        v.push(c);
        v
    }
}

fn literal(s: &str) -> (r: String)
    ensures
        r@ == s@,
{
    let v = chars_of(s);
    string_of(&v)
}

/// `s` when `b` holds, else nothing.
pub open spec fn opt_arg(b: bool, s: Seq<char>) -> Seq<Seq<char>> {
    if b {
        seq![s]
    } else {
        Seq::empty()
    }
}

/// The redumper arguments for a dump (or, with `refine`, for refining an existing one).
pub open spec fn spec_build_args(
    disc_name: Seq<char>,
    retries: u32,
    speed: i32,
    auto_eject: bool,
    skeleton: bool,
    rings: bool,
    drive: Option<Seq<char>>,
    refine: bool,
) -> Seq<Seq<char>> {
    seq![if refine { "--continue=refine"@ } else { "disc"@ }, "--auto-detect"@]
        + opt_arg(refine, "--overwrite"@)
        + opt_arg(drive is Some, "--drive="@ + drive.unwrap_or(Seq::empty()))
        + opt_arg(disc_name.len() > 0, "--image-name="@ + disc_name)
        + seq!["--retries="@ + decimal(retries as nat)]
        + opt_arg(0 <= speed < 100, "--speed="@ + decimal(speed as nat))
        + opt_arg(auto_eject, "--auto-eject"@)
        + opt_arg(skeleton, "--skeleton"@)
        + opt_arg(rings, "--rings"@)
}

fn push_arg(args: &mut Vec<String>, b: bool, s: String)
    ensures
        string_views(final(args)@) == string_views(old(args)@) + opt_arg(b, s@),
{
    if b {
        args.push(s);
    }
}

impl DumpOptions {
    /// The redumper command line for these options, the selected drive, and
    /// whether an existing dump is refined.
    pub fn build_args(&self, drive: Option<&str>, refine: bool) -> (r: Vec<String>)
        ensures
            string_views(r@) == spec_build_args(
                self.disc_name@,
                self.retries,
                self.speed,
                self.auto_eject,
                self.skeleton,
                self.rings,
                match drive {
                    Some(d) => Some(d@),
                    None => None,
                },
                refine,
            ),
    {
        let mut args: Vec<String> = Vec::new();
        push_arg(&mut args, true, literal(if refine { "--continue=refine" } else { "disc" }));
        push_arg(&mut args, true, literal("--auto-detect"));
        push_arg(&mut args, refine, literal("--overwrite"));
        let dc = match drive {
            Some(d) => chars_of(d),
            None => Vec::new(),
        };
        push_arg(&mut args, drive.is_some(), joined("--drive=", &dc));
        let name = chars_of(self.disc_name.as_str());
        push_arg(&mut args, name.len() > 0, joined("--image-name=", &name));
        push_arg(&mut args, true, joined("--retries=", &decimal_chars(self.retries)));
        let speed_ok = self.speed >= 0 && self.speed < 100;
        let speed_digits = if speed_ok {
            decimal_chars(self.speed as u32)
        } else {
            Vec::new()
        };
        push_arg(&mut args, speed_ok, joined("--speed=", &speed_digits));
        push_arg(&mut args, self.auto_eject, literal("--auto-eject"));
        push_arg(&mut args, self.skeleton, literal("--skeleton"));
        push_arg(&mut args, self.rings, literal("--rings"));
        assert(string_views(args@) == spec_build_args(
            self.disc_name@,
            self.retries,
            self.speed,
            self.auto_eject,
            self.skeleton,
            self.rings,
            match drive {
                Some(d) => Some(d@),
                None => None,
            },
            refine,
        ));
        args
    }
}

/// Which files of a dump exist next to each other, and how long the state file is.
#[derive(Clone, Copy, PartialEq, Eq, Debug, Structural)]
pub struct DumpFiles {
    pub cue: bool,
    pub iso: bool,
    pub state: bool,
    pub log: bool,
    pub logs_zip: bool,
    pub scram: bool,
    pub sdram: bool,
    pub sbram: bool,
    pub state_len: Option<u64>,
}

/// Where sector 0 starts in a state file: CD dumps keep 588 samples per sector after
/// a lead-in, DVD and BD dumps one byte per sector after their own offsets.
pub const CD_LBA_OFFSET: u64 = 26548200;

pub const DVD_LBA_OFFSET: u64 = 0x30000;

pub const BD_LBA_OFFSET: u64 = 0x100000;

pub open spec fn spec_state_file_offset(f: DumpFiles) -> u64 {
    if f.scram {
        CD_LBA_OFFSET
    } else if f.sdram {
        DVD_LBA_OFFSET
    } else if f.sbram {
        BD_LBA_OFFSET
    } else {
        0
    }
}

/// Some of a dump exists: an image, a state file, a log or the archived logs.
pub open spec fn spec_dump_exists(name_empty: bool, f: DumpFiles) -> bool {
    !name_empty && (f.cue || f.iso || f.state || f.log || f.logs_zip)
}

/// A dump is complete: no state file is left, and an image or the archived logs exist.
pub open spec fn spec_dump_complete(name_empty: bool, f: DumpFiles) -> bool {
    !name_empty && !f.state && (f.cue || f.iso || f.logs_zip)
}

/// A dump can be refined: its state file and log exist, there is one data file
/// of a consistent kind, and the state file reaches past sector 0.
pub open spec fn spec_dump_refinable(name_empty: bool, f: DumpFiles) -> bool {
    &&& !name_empty
    &&& f.state
    &&& f.log
    &&& (f.scram as int + f.sdram as int + f.sbram as int) <= 1
    &&& !(f.scram && f.iso)
    &&& (f.scram || f.sdram || f.sbram || f.iso)
    &&& match f.state_len {
        Some(l) => l > spec_state_file_offset(f),
        None => false,
    }
}

impl DumpFiles {
    pub fn state_file_offset(&self) -> (r: u64)
        ensures
            r == spec_state_file_offset(*self),
    {
        if self.scram {
            CD_LBA_OFFSET
        } else if self.sdram {
            DVD_LBA_OFFSET
        } else if self.sbram {
            BD_LBA_OFFSET
        } else {
            0
        }
    }

    /// Whether a partial or complete dump exists under `disc_name`.
    pub fn check_dump_exists(&self, disc_name: &str) -> (b: bool)
        ensures
            b == spec_dump_exists(disc_name@.len() == 0, *self),
    {
        !disc_name.is_empty() && (self.cue || self.iso || self.state || self.log || self.logs_zip)
    }

    /// Whether a complete dump exists under `disc_name`.
    pub fn check_dump_complete(&self, disc_name: &str) -> (b: bool)
        ensures
            b == spec_dump_complete(disc_name@.len() == 0, *self),
    {
        !disc_name.is_empty() && !self.state && (self.cue || self.iso || self.logs_zip)
    }

    /// Whether the dump under `disc_name` can be refined.
    pub fn check_dump_refinable(&self, disc_name: &str) -> (b: bool)
        ensures
            b == spec_dump_refinable(disc_name@.len() == 0, *self),
    {
        if disc_name.is_empty() || !self.state || !self.log {
            return false;
        }
        let count: u8 = (if self.scram { 1u8 } else { 0u8 }) + (if self.sdram { 1u8 } else { 0u8 })
            + (if self.sbram { 1u8 } else { 0u8 });
        if count > 1 {
            return false;
        }
        if self.scram && self.iso {
            return false;
        }
        if !self.scram && !self.sdram && !self.sbram && !self.iso {
            return false;
        }
        let offset = self.state_file_offset();
        match self.state_len {
            Some(l) => l > offset,
            None => false,
        }
    }
}

/// What exists of the dump under the current disc name.
#[derive(Clone, Copy, PartialEq, Eq, Debug, Structural)]
pub struct DumpStatus {
    /// A partial or complete dump exists.
    pub exists: bool,
    /// An incomplete dump exists that can be refined.
    pub refinable: bool,
    /// A complete dump exists.
    pub complete: bool,
}

/// Where the sector map of an existing dump is read from.
#[derive(Clone, Copy, PartialEq, Eq, Debug, Structural)]
pub enum SectorSource {
    /// The state file of a refinable dump.
    StateFile,
    /// The log of a complete dump, every sector counted as read.
    Log,
    /// Nowhere: the map stays empty.
    Nothing,
}

/// Which of the dump controls can be used.
#[derive(Clone, Copy, PartialEq, Eq, Debug, Structural)]
pub struct Controls {
    pub can_start: bool,
    pub can_abort: bool,
    pub can_refine: bool,
    pub can_view: bool,
}

impl DumpFiles {
    /// The three checks on the files under `disc_name` at once.
    pub fn status(&self, disc_name: &str) -> (r: DumpStatus)
        ensures
            r.exists == spec_dump_exists(disc_name@.len() == 0, *self),
            r.refinable == spec_dump_refinable(disc_name@.len() == 0, *self),
            r.complete == spec_dump_complete(disc_name@.len() == 0, *self),
    {
        DumpStatus {
            exists: self.check_dump_exists(disc_name),
            refinable: self.check_dump_refinable(disc_name),
            complete: self.check_dump_complete(disc_name),
        }
    }
}

impl DumpStatus {
    /// A refinable dump shows what its state file holds; a complete one, all of
    /// its sectors as read.
    pub fn sector_source(&self) -> (r: SectorSource)
        ensures
            r == (if self.refinable {
                SectorSource::StateFile
            } else if self.complete {
                SectorSource::Log
            } else {
                SectorSource::Nothing
            }),
    {
        if self.refinable {
            SectorSource::StateFile
        } else if self.complete {
            SectorSource::Log
        } else {
            SectorSource::Nothing
        }
    }

    /// A dump can start on a drive under a new, non-empty name while nothing runs;
    /// a refinable dump can be refined on a drive while nothing runs; a running
    /// dump can be aborted; an existing dump can be viewed.
    pub fn controls(&self, is_running: bool, has_drives: bool, name_empty: bool) -> (r: Controls)
        ensures
            r.can_start == (!is_running && has_drives && !self.exists && !name_empty),
            r.can_abort == is_running,
            r.can_refine == (!is_running && has_drives && self.refinable),
            r.can_view == self.exists,
    {
        Controls {
            can_start: !is_running && has_drives && !self.exists && !name_empty,
            can_abort: is_running,
            can_refine: !is_running && has_drives && self.refinable,
            can_view: self.exists,
        }
    }
}

/// How bytes of a state file read: a sector with any error sample is bad, else
/// one with any unread sample is unread, else it is good.
pub open spec fn chunk_status(c: Seq<u8>) -> SectorStatus {
    if c.contains(1u8) {
        SectorStatus::Error
    } else if c.contains(0u8) {
        SectorStatus::Unread
    } else {
        SectorStatus::Good
    }
}

/// Samples per sector in the state file.
pub open spec fn samples_per_sector(offset: u64) -> nat {
    if offset == CD_LBA_OFFSET {
        588
    } else {
        1
    }
}

/// The statuses of `d` cut into chunks of `spp` bytes (the last chunk may be short).
pub open spec fn chunk_statuses(d: Seq<u8>, spp: nat) -> Seq<SectorStatus>
    decreases d.len(),
{
    if spp == 0 || d.len() == 0 {
        Seq::empty()
    } else if d.len() <= spp {
        seq![chunk_status(d)]
    } else {
        seq![chunk_status(d.take(spp as int))] + chunk_statuses(d.skip(spp as int), spp)
    }
}

/// The sector map a state file gives: `None` when it holds no whole sector; else
/// the statuses of its sectors, as many as the log's sector count when that is
/// larger, and the whole sectors it holds as read.
pub open spec fn spec_decode_state(data: Seq<u8>, offset: u64, log_count: Option<usize>) -> Option<
    (Seq<SectorStatus>, usize, usize),
> {
    let d = data.skip(offset as int);
    let spp = samples_per_sector(offset);
    let state_sectors = (d.len() as int) / (spp as int);
    if state_sectors == 0 {
        None
    } else {
        let base = match log_count {
            Some(c) => c as int,
            None => state_sectors,
        };
        let total = if base < state_sectors {
            state_sectors
        } else {
            base
        };
        Some((resized(chunk_statuses(d, spp), total as nat), state_sectors as usize, total as usize))
    }
}

fn chunk_status_exec(data: &[u8], from: usize, to: usize) -> (r: SectorStatus)
    requires
        from <= to <= data.len(),
    ensures
        r == chunk_status(data@.subrange(from as int, to as int)),
{
    let ghost c = data@.subrange(from as int, to as int);
    let mut has_error = false;
    let mut has_unread = false;
    let mut i = from;
    while i < to
        invariant
            from <= i <= to <= data.len(),
            c == data@.subrange(from as int, to as int),
            has_error == exists|j: int| from <= j < i && data@[j] == 1u8,
            has_unread == exists|j: int| from <= j < i && data@[j] == 0u8,
        decreases to - i,
    {
        if data[i] == 1 {
            has_error = true;
        } else if data[i] == 0 {
            has_unread = true;
        }
        i += 1;
    }
    if has_error {
        proof {
            let j = choose|j: int| from <= j < to && data@[j] == 1u8;
            assert(c[j - from] == 1u8);
        }
        SectorStatus::Error
    } else if has_unread {
        proof {
            let j = choose|j: int| from <= j < to && data@[j] == 0u8;
            assert(c[j - from] == 0u8);
        }
        SectorStatus::Unread
    } else {
        assert forall|k: int| 0 <= k < c.len() implies c[k] != 1u8 && c[k] != 0u8 by {
            assert(c[k] == data@[from + k]);
        }
        SectorStatus::Good
    }
}

/// Reads the sector map out of a state file.
pub fn decode_state_file(data: &[u8], offset: u64, log_count: Option<usize>) -> (r: Option<
    SectorMap,
>)
    requires
        offset <= data@.len(),
    ensures
        match spec_decode_state(data@, offset, log_count) {
            None => r is None,
            Some((states, read, total)) => r matches Some(m) && m@.states == states
                && m@.sectors_read == read && m@.total_sectors == total,
        },
{
    let n = data.len();
    let off = offset as usize;
    let spp: usize = if offset == CD_LBA_OFFSET { 588 } else { 1 };
    let len = n - off;
    let state_sectors = len / spp;
    if state_sectors == 0 {
        return None;
    }
    let total = match log_count {
        Some(c) => if c < state_sectors { state_sectors } else { c },
        None => state_sectors,
    };
    let ghost d = data@.skip(off as int);
    let ghost raw = chunk_statuses(d, spp as nat);
    let mut states: Vec<SectorStatus> = Vec::new();
    let mut start: usize = off;
    while start < n
        invariant
            off <= start <= n == data@.len(),
            d == data@.skip(off as int),
            spp == 1 || spp == 588,
            raw == chunk_statuses(d, spp as nat),
            raw == states@ + chunk_statuses(data@.skip(start as int), spp as nat),
        decreases n - start,
    {
        let ghost rest = data@.skip(start as int);
        let end = if n - start > spp { start + spp } else { n };
        let st = chunk_status_exec(data, start, end);
        if n - start > spp {
            assert(rest.take(spp as int) == data@.subrange(start as int, end as int));
            assert(rest.skip(spp as int) == data@.skip(end as int));
        } else {
            assert(rest == data@.subrange(start as int, end as int));
            assert(data@.skip(end as int).len() == 0);
        }
        states.push(st);
        start = end;
    }
    assert(data@.skip(n as int).len() == 0);
    assert(states@ == raw);
    let mut map = SectorMap { states, sectors_read: state_sectors, total_sectors: 0 };
    crate::progress::ProgressTracker::new().set_total_sectors(&mut map, total);
    Some(map)
}

/// The number that the first word of `s` spells, if any.
pub open spec fn word_number(s: Seq<char>) -> Option<usize> {
    match first_word(s) {
        None => None,
        Some(w) => match parse_unsigned(w, usize::MAX as int) {
            Some(v) => Some(v as usize),
            None => None,
        },
    }
}

/// Where the first non-digit at or after `i` is in `t` (its length when there is none).
pub open spec fn first_non_digit_from(t: Seq<char>, i: int) -> int
    decreases t.len() - i,
{
    if i < 0 || i >= t.len() {
        t.len() as int
    } else if !is_digit(t[i]) {
        i
    } else {
        first_non_digit_from(t, i + 1)
    }
}

/// The digits at the start of `s`.
pub open spec fn digit_run(s: Seq<char>) -> Seq<char> {
    s.take(first_non_digit_from(s, 0))
}

/// Where the reading of a dump log stands.
#[derive(Clone, Copy, PartialEq, Eq, Debug, Structural)]
pub struct LogScan {
    pub in_dump: bool,
    pub sector_count: Option<usize>,
    pub looking_for_toc_lba: bool,
    pub looking_for_next_session: bool,
    pub have_capacity: bool,
}

/// What one log line does to the reading: go on in a new state, or stop with a result.
#[derive(Clone, Copy, PartialEq, Eq, Debug, Structural)]
pub enum ScanStep {
    Next(LogScan),
    Finish(Option<usize>),
}

pub open spec fn is_track_a(t: Seq<char>) -> bool {
    starts_with(t, "track A "@) || starts_with(t, "track AA "@)
}

/// The LBA of an `index 01 { LBA: 185749, ... }` line, if it has one.
pub open spec fn index_lba(t: Seq<char>) -> Option<usize> {
    match find(t, "LBA:"@) {
        Some(i) => match parse_unsigned(digit_run(trim_start(t.skip(i + 4))), usize::MAX as int) {
            Some(v) => Some(v as usize),
            None => None,
        },
        None => None,
    }
}

/// One line of a dump log read for the disc's sector count. Reading starts at
/// `*** DUMP` and stops at the next section; an Xbox sector count decides at once,
/// a READ_CAPACITY count is taken unless the next line is the Xbox count, and a
/// CD's count is the LBA of the lead-out (`track A`/`track AA`, `index 01`) of its
/// last session.
pub open spec fn spec_scan_line(st: LogScan, line: Seq<char>) -> ScanStep {
    let t = trim(line);
    if !st.in_dump {
        ScanStep::Next(
            if starts_with(t, "*** DUMP"@) {
                LogScan { in_dump: true, ..st }
            } else {
                st
            },
        )
    } else if starts_with(t, "***"@) || starts_with(t, "==="@) {
        ScanStep::Finish(st.sector_count)
    } else if starts_with(t, "sectors count (XBOX): "@) {
        ScanStep::Finish(word_number(t.skip("sectors count (XBOX): "@.len() as int)))
    } else if st.have_capacity {
        ScanStep::Finish(st.sector_count)
    } else if starts_with(t, "sectors count (READ_CAPACITY): "@) {
        ScanStep::Next(
            LogScan {
                sector_count: word_number(t.skip("sectors count (READ_CAPACITY): "@.len() as int)),
                have_capacity: true,
                ..st
            },
        )
    } else if is_track_a(t) {
        ScanStep::Next(LogScan { looking_for_toc_lba: true, looking_for_next_session: false, ..st })
    } else if st.looking_for_toc_lba && starts_with(t, "index 01"@) {
        ScanStep::Next(
            LogScan {
                sector_count: match index_lba(t) {
                    Some(v) => Some(v),
                    None => st.sector_count,
                },
                looking_for_toc_lba: false,
                looking_for_next_session: true,
                ..st
            },
        )
    } else if st.looking_for_next_session {
        if starts_with(t, "session "@) {
            ScanStep::Next(LogScan { looking_for_next_session: false, ..st })
        } else if t.len() > 0 {
            ScanStep::Next(LogScan { looking_for_next_session: false, ..st })
        } else {
            ScanStep::Next(st)
        }
    } else {
        ScanStep::Next(st)
    }
}

/// The sector count read from `lines`; `read_error` tells that reading the
/// file failed after them, which ends the reading without a result.
pub open spec fn spec_scan_lines(st: LogScan, lines: Seq<Seq<char>>, read_error: bool) -> Option<
    usize,
>
    decreases lines.len(),
{
    if lines.len() == 0 {
        if read_error {
            None
        } else {
            st.sector_count
        }
    } else {
        match spec_scan_line(st, lines[0]) {
            ScanStep::Finish(r) => r,
            ScanStep::Next(s2) => spec_scan_lines(s2, lines.drop_first(), read_error),
        }
    }
}

pub open spec fn initial_scan() -> LogScan {
    LogScan {
        in_dump: false,
        sector_count: None,
        looking_for_toc_lba: false,
        looking_for_next_session: false,
        have_capacity: false,
    }
}

fn word_number_exec(s: &[char]) -> (r: Option<usize>)
    ensures
        r == word_number(s@),
{
    match first_word_chars(s) {
        None => None,
        Some(w) => parse_usize(&w),
    }
}

fn index_lba_exec(t: &[char]) -> (r: Option<usize>)
    ensures
        r == index_lba(t@),
{
    let pat = chars_of("LBA:");
    proof {
        reveal_strlit("LBA:");
        crate::text::lemma_find_from_occurs(t@, pat@, 0);
    }
    let n = t.len();
    match find_chars(t, &pat) {
        None => None,
        Some(i) => {
            let after = slice_chars(t, i + 4, n);
            assert(after@ == t@.skip(i + 4));
            let a = trimmed_start(&after);
            let mut j: usize = 0;
            while j < a.len() && '0' <= a[j] && a[j] <= '9'
                invariant
                    j <= a.len(),
                    first_non_digit_from(a@, 0) == first_non_digit_from(a@, j as int),
                decreases a.len() - j,
            {
                j += 1;
            }
            let run = slice_chars(&a, 0, j);
            parse_usize(&run)
        },
    }
}

/// Reads one line of a dump log (see `spec_scan_line`).
pub fn scan_line(st: LogScan, line: &[char]) -> (r: ScanStep)
    ensures
        r == spec_scan_line(st, line@),
{
    let t = trimmed(line);
    if !st.in_dump {
        if starts_with_str(&t, "*** DUMP") {
            return ScanStep::Next(LogScan { in_dump: true, ..st });
        }
        return ScanStep::Next(st);
    }
    if starts_with_str(&t, "***") || starts_with_str(&t, "===") {
        return ScanStep::Finish(st.sector_count);
    }
    let xbox = chars_of("sectors count (XBOX): ");
    if has_prefix(&t, &xbox) {
        let rest = slice_chars(&t, xbox.len(), t.len());
        assert(rest@ == t@.skip("sectors count (XBOX): "@.len() as int));
        return ScanStep::Finish(word_number_exec(&rest));
    }
    if st.have_capacity {
        return ScanStep::Finish(st.sector_count);
    }
    let cap = chars_of("sectors count (READ_CAPACITY): ");
    if has_prefix(&t, &cap) {
        let rest = slice_chars(&t, cap.len(), t.len());
        assert(rest@ == t@.skip("sectors count (READ_CAPACITY): "@.len() as int));
        return ScanStep::Next(
            LogScan { sector_count: word_number_exec(&rest), have_capacity: true, ..st },
        );
    }
    if starts_with_str(&t, "track A ") || starts_with_str(&t, "track AA ") {
        return ScanStep::Next(
            LogScan { looking_for_toc_lba: true, looking_for_next_session: false, ..st },
        );
    }
    if st.looking_for_toc_lba && starts_with_str(&t, "index 01") {
        let count = match index_lba_exec(&t) {
            Some(v) => Some(v),
            None => st.sector_count,
        };
        return ScanStep::Next(
            LogScan {
                sector_count: count,
                looking_for_toc_lba: false,
                looking_for_next_session: true,
                ..st
            },
        );
    }
    if st.looking_for_next_session {
        if starts_with_str(&t, "session ") || t.len() > 0 {
            return ScanStep::Next(LogScan { looking_for_next_session: false, ..st });
        }
    }
    ScanStep::Next(st)
}

/// The disc's sector count read from the lines of its dump log; `read_error`
/// tells that reading the file failed after these lines.
pub fn parse_sector_count(lines: &[String], read_error: bool) -> (r: Option<usize>)
    ensures
        r == spec_scan_lines(initial_scan(), string_views(lines@), read_error),
{
    let mut st = LogScan {
        in_dump: false,
        sector_count: None,
        looking_for_toc_lba: false,
        looking_for_next_session: false,
        have_capacity: false,
    };
    let mut i: usize = 0;
    assert(string_views(lines@).skip(0) == string_views(lines@));
    while i < lines.len()
        invariant
            i <= lines.len(),
            spec_scan_lines(initial_scan(), string_views(lines@), read_error) == spec_scan_lines(
                st,
                string_views(lines@).skip(i as int),
                read_error,
            ),
        decreases lines.len() - i,
    {
        let ghost rest = string_views(lines@).skip(i as int);
        assert(rest[0] == lines@[i as int]@);
        assert(rest.drop_first() == string_views(lines@).skip(i + 1));
        let line = chars_of(lines[i].as_str());
        match scan_line(st, &line) {
            ScanStep::Finish(r) => return r,
            ScanStep::Next(s2) => st = s2,
        }
        i += 1;
    }
    if read_error {
        None
    } else {
        st.sector_count
    }
}

/// A dump whose state file and log exist next to exactly one data file can be
/// refined exactly when its state file reaches past the first sector of that kind
/// of image: past the CD offset next to a `.scram`, the DVD offset next to an
/// `.sdram`, the BD offset next to an `.sbram`, and past nothing next to an `.iso`.
pub proof fn lemma_single_image_refinable(name_empty: bool, f: DumpFiles)
    requires
        !name_empty,
        f.state,
        f.log,
        (f.scram as int + f.sdram as int + f.sbram as int + f.iso as int) == 1,
    ensures
        f.scram ==> (spec_dump_refinable(name_empty, f) <==> (f.state_len matches Some(l) && l
            > CD_LBA_OFFSET)),
        f.sdram ==> (spec_dump_refinable(name_empty, f) <==> (f.state_len matches Some(l) && l
            > DVD_LBA_OFFSET)),
        f.sbram ==> (spec_dump_refinable(name_empty, f) <==> (f.state_len matches Some(l) && l
            > BD_LBA_OFFSET)),
        f.iso ==> (spec_dump_refinable(name_empty, f) <==> (f.state_len matches Some(l) && l > 0)),
{
}

/// A dump with more than one scrambled image, or with a `.scram` next to an `.iso`,
/// cannot be refined, and neither can one without a state file, a log or any data file.
pub proof fn lemma_inconsistent_dump_not_refinable(name_empty: bool, f: DumpFiles)
    requires
        (f.scram && f.sdram) || (f.scram && f.sbram) || (f.sdram && f.sbram) || (f.scram && f.iso)
            || !f.state || !f.log || !(f.scram || f.sdram || f.sbram || f.iso),
    ensures
        !spec_dump_refinable(name_empty, f),
{
}

/// A refinable dump and a complete dump both count as an existing dump, and no
/// dump is both refinable and complete.
pub proof fn lemma_dump_states_consistent(name_empty: bool, f: DumpFiles)
    ensures
        spec_dump_refinable(name_empty, f) ==> spec_dump_exists(name_empty, f),
        spec_dump_complete(name_empty, f) ==> spec_dump_exists(name_empty, f),
        !(spec_dump_refinable(name_empty, f) && spec_dump_complete(name_empty, f)),
{
}

/// For the status of any files, the start and refine controls are never offered
/// together, and a dump that can be started has no sectors to show.
pub proof fn lemma_start_excludes_refine(
    name: Seq<char>,
    f: DumpFiles,
    is_running: bool,
    has_drives: bool,
)
    ensures
        ({
            let st = DumpStatus {
                exists: spec_dump_exists(name.len() == 0, f),
                refinable: spec_dump_refinable(name.len() == 0, f),
                complete: spec_dump_complete(name.len() == 0, f),
            };
            let can_start = !is_running && has_drives && !st.exists && name.len() > 0;
            let can_refine = !is_running && has_drives && st.refinable;
            &&& !(can_start && can_refine)
            &&& can_start ==> !st.refinable && !st.complete
        }),
{
    lemma_dump_states_consistent(name.len() == 0, f);
}

/// The sector map read out of a state file is consistent, covers at least the
/// sectors the state file holds, and counts those as read.
pub proof fn lemma_decoded_state_consistent(data: Seq<u8>, offset: u64, log_count: Option<usize>)
    requires
        offset <= data.len() <= usize::MAX,
    ensures
        spec_decode_state(data, offset, log_count) matches Some((states, read, total)) ==> {
            &&& states.len() == total
            &&& read <= total
            &&& read > 0
            &&& (log_count matches Some(c) ==> total >= c)
        },
{
}

} // verus!

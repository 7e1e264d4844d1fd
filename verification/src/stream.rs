//! What redumper's output does to the dump's shared state, character by character.
//!
//! redumper writes its log to stdout and stderr. Complete lines end in `\n`
//! (`\r\n` on some systems); progress updates are written over the current line
//! and end in a lone `\r`. Each stream is followed by a `ProgressTracker` of its
//! own, while both update one `DumpState`.
use vstd::prelude::*;

use crate::profile::{
    parse_profile_chars, refine_profile_chars, spec_parse_profile, spec_refine_profile,
    spec_system_from_line, spec_system_refine, DiscProfile, System,
};
use crate::progress::{
    hash_progress_slice_ok, hash_slice_ok, last_line_start, lemma_clear_line_ends_at_line_break,
    lemma_operations_keep_map_consistent,
    lemma_rfind_char_bound, map_consistent, mark_unread_ok, parse_hash_progress_chars, spec_complete_phase,
    spec_finish_dump_phase, spec_last_completed_line, spec_last_line, spec_parse_hash_progress,
    spec_parse_lba_line, spec_update, ProgressTracker, SectorMap, SectorMapView, SectorStatus,
};
use crate::script::{detect_script, spec_detect, spec_detect_all, ScriptDetected};
use crate::text::{
    chars_of, find, find_chars, rfind_char, slice_chars, starts_with, starts_with_str, trim_start,
    trimmed_start,
};

verus! {

/// The state that the UI shows while a dump runs.
pub struct DumpState {
    pub log: Vec<char>,
    pub sectors: SectorMap,
    pub hash_progress: Option<u8>,
    pub disc_profile: Option<DiscProfile>,
    pub system: Option<System>,
    pub script_detected: ScriptDetected,
}

#[verifier::ext_equal]
pub struct DumpStateView {
    pub log: Seq<char>,
    pub sectors: SectorMapView,
    pub hash_progress: Option<u8>,
    pub disc_profile: Option<DiscProfile>,
    pub system: Option<System>,
    pub script_detected: ScriptDetected,
}

impl View for DumpState {
    type V = DumpStateView;

    open spec fn view(&self) -> DumpStateView {
        DumpStateView {
            log: self.log@,
            sectors: self.sectors@,
            hash_progress: self.hash_progress,
            disc_profile: self.disc_profile,
            system: self.system,
            script_detected: self.script_detected,
        }
    }
}

/// Output that cannot be processed: a hash progress line whose first `%` comes
/// before its first `[`.
#[derive(Clone, Copy, PartialEq, Eq, Debug, Structural)]
pub enum StreamFault {
    PercentBeforeBracket,
}

/// A lone `\r` ends a progress update: the current line is read as an LBA
/// progress line or else as a hash progress line, and then dropped from the log.
pub open spec fn spec_carriage_return(v: DumpStateView, t: ProgressTracker) -> Result<
    (DumpStateView, ProgressTracker, bool),
    StreamFault,
> {
    let last = spec_last_line(v.log);
    let cleared = v.log.take(last_line_start(v.log));
    match spec_parse_lba_line(last) {
        Some((lba, end, errs)) => {
            let (t2, m2) = spec_update(t, v.sectors, lba, end, errs);
            Ok((DumpStateView { log: cleared, sectors: m2, ..v }, t2, true))
        },
        None => if !hash_slice_ok(last) {
            Err(StreamFault::PercentBeforeBracket)
        } else {
            match spec_parse_hash_progress(last) {
                Some(p) => Ok((DumpStateView { log: cleared, hash_progress: Some(p), ..v }, t, true)),
                None => Ok((DumpStateView { log: cleared, ..v }, t, false)),
            }
        },
    }
}

/// The profile after a complete line: the first `profile:` line sets it, later lines refine it.
pub open spec fn profile_after_line(p: Option<DiscProfile>, line: Seq<char>) -> Option<DiscProfile> {
    match p {
        None => spec_parse_profile(line),
        Some(q) => match spec_refine_profile(line, q) {
            Some(r) => Some(r),
            None => Some(q),
        },
    }
}

/// A section header (`*** ...`) changes phase: it closes a refine phase, and
/// `DUMP`, `REFINE`, `INFO`, `HASH` and `SKELETON` each start their own.
pub open spec fn spec_section(v: DumpStateView, t: ProgressTracker, header: Seq<char>) -> (
    DumpStateView,
    ProgressTracker,
) {
    let m = if t.refine {
        spec_complete_phase(v.sectors)
    } else {
        v.sectors
    };
    let v1 = DumpStateView { sectors: m, ..v };
    if starts_with(header, "*** DUMP"@) {
        (v1, ProgressTracker { dump: true, ..t })
    } else if starts_with(header, "*** REFINE"@) {
        let (t2, m2) = spec_finish_dump_phase(t, m);
        (DumpStateView { sectors: m2, ..v }, t2)
    } else if starts_with(header, "*** INFO"@) {
        (v1, ProgressTracker { info: true, ..t })
    } else if starts_with(header, "*** HASH"@) || starts_with(header, "*** SKELETON"@) {
        (DumpStateView { hash_progress: Some(0), ..v1 }, t)
    } else {
        (DumpStateView { hash_progress: None, ..v1 }, t)
    }
}

/// Once the INFO phase has begun, a header line names the system (Xbox may later become Xbox 360).
pub open spec fn system_after_line(s: Option<System>, line: Seq<char>) -> Option<System> {
    match s {
        Some(System::XBOX) => Some(spec_system_refine(System::XBOX, line)),
        None => spec_system_from_line(line),
        Some(x) => Some(x),
    }
}

/// What a complete line (the log just received its `\n`) changes.
pub open spec fn spec_line_end(v: DumpStateView, t: ProgressTracker) -> (
    DumpStateView,
    ProgressTracker,
) {
    let line = spec_last_completed_line(v.log);
    let v1 = DumpStateView { disc_profile: profile_after_line(v.disc_profile, line), ..v };
    let header = trim_start(line);
    let (v2, t2) = if starts_with(header, "***"@) {
        spec_section(v1, t, header)
    } else {
        (v1, t)
    };
    if t2.info {
        (DumpStateView { system: system_after_line(v2.system, line), ..v2 }, t2)
    } else {
        (v2, t2)
    }
}

/// A character other than `\r` goes to the log (and to script detection); a `\n`
/// completes a line. A `\r` is held back until the next character says what it is.
pub open spec fn spec_put(v: DumpStateView, t: ProgressTracker, c: char) -> (
    DumpStateView,
    ProgressTracker,
    bool,
) {
    if c == '\r' {
        (v, ProgressTracker { pending_cr: true, ..t }, false)
    } else {
        let v1 = DumpStateView {
            log: v.log.push(c),
            script_detected: spec_detect(v.script_detected, c),
            ..v
        };
        if c == '\n' {
            let (v2, t2) = spec_line_end(v1, t);
            (v2, t2, true)
        } else {
            (v1, t, false)
        }
    }
}

/// One character of output, wherever it falls in the reads: a held-back `\r` before
/// a `\n` is part of a `\r\n` line end and is dropped; before any other character it
/// is a progress update, applied before that character. Returns the new state and
/// whether the UI should repaint.
pub open spec fn spec_step(v: DumpStateView, t: ProgressTracker, c: char) -> Result<
    (DumpStateView, ProgressTracker, bool),
    StreamFault,
> {
    if t.pending_cr {
        let t0 = ProgressTracker { pending_cr: false, ..t };
        if c == '\n' {
            Ok(spec_put(v, t0, c))
        } else {
            match spec_carriage_return(v, t0) {
                Err(f) => Err(f),
                Ok((v1, t1, r1)) => {
                    let (v2, t2, r2) = spec_put(v1, t1, c);
                    Ok((v2, t2, r1 || r2))
                },
            }
        }
    } else {
        Ok(spec_put(v, t, c))
    }
}

/// A step after an earlier result (faults stop everything after them).
pub open spec fn spec_then_step(
    prev: Result<(DumpStateView, ProgressTracker, bool), StreamFault>,
    c: char,
) -> Result<(DumpStateView, ProgressTracker, bool), StreamFault> {
    match prev {
        Err(f) => Err(f),
        Ok((v, t, r)) => match spec_step(v, t, c) {
            Err(f) => Err(f),
            Ok((v2, t2, r2)) => Ok((v2, t2, r || r2)),
        },
    }
}

/// The characters of `text`, one after another.
pub open spec fn spec_feed(v: DumpStateView, t: ProgressTracker, text: Seq<char>) -> Result<
    (DumpStateView, ProgressTracker, bool),
    StreamFault,
>
    decreases text.len(),
{
    if text.len() == 0 {
        Ok((v, t, false))
    } else {
        spec_then_step(spec_feed(v, t, text.drop_last()), text.last())
    }
}

/// More characters after an earlier result.
pub open spec fn spec_then_feed(
    prev: Result<(DumpStateView, ProgressTracker, bool), StreamFault>,
    text: Seq<char>,
) -> Result<(DumpStateView, ProgressTracker, bool), StreamFault> {
    match prev {
        Err(f) => Err(f),
        Ok((v, t, r)) => match spec_feed(v, t, text) {
            Err(f) => Err(f),
            Ok((v2, t2, r2)) => Ok((v2, t2, r || r2)),
        },
    }
}

/// The end of the stream decides a held-back `\r`: nothing follows, so it ends a
/// progress update.
pub open spec fn spec_finish_stream(v: DumpStateView, t: ProgressTracker) -> Result<
    (DumpStateView, ProgressTracker, bool),
    StreamFault,
> {
    if t.pending_cr {
        spec_carriage_return(v, ProgressTracker { pending_cr: false, ..t })
    } else {
        Ok((v, t, false))
    }
}

/// The number of bytes of `c` in UTF-8.
pub open spec fn utf8_width(c: char) -> nat {
    if (c as u32) < 0x80 {
        1
    } else if (c as u32) < 0x800 {
        2
    } else if (c as u32) < 0x10000 {
        3
    } else {
        4
    }
}

/// The number of bytes of `s` in UTF-8.
pub open spec fn byte_len(s: Seq<char>) -> nat
    decreases s.len(),
{
    if s.len() == 0 {
        0
    } else {
        byte_len(s.drop_last()) + utf8_width(s.last())
    }
}

/// The first character position from `k` on whose UTF-8 byte offset is at least `b`
/// (the length of `s` when there is none): the first character boundary at or after byte `b`.
pub open spec fn boundary_from(s: Seq<char>, b: int, k: int) -> int
    decreases s.len() - k,
{
    if k < 0 || k >= s.len() || byte_len(s.take(k)) >= b {
        k
    } else {
        boundary_from(s, b, k + 1)
    }
}

/// The log keeps at most this many bytes after a chunk.
pub open spec fn log_cap() -> nat {
    64000
}

/// The log after a chunk: when it is longer than the cap, it keeps its last `log_cap()`
/// bytes, starting at the first character boundary there, and drops the rest of the
/// line that those bytes begin in when a line break follows.
pub open spec fn spec_cap_log(log: Seq<char>) -> Seq<char> {
    if byte_len(log) <= log_cap() {
        log
    } else {
        let k = boundary_from(log, byte_len(log) - log_cap(), 0);
        let pos = match find(log.skip(k), "\n"@) {
            Some(p) => k + p + 1,
            None => k,
        };
        log.skip(pos)
    }
}

/// A chunk of output: its characters in turn, then the cap on the log.
pub open spec fn spec_process_chunk(v: DumpStateView, t: ProgressTracker, text: Seq<char>) -> Result<
    (DumpStateView, ProgressTracker, bool),
    StreamFault,
> {
    match spec_feed(v, t, text) {
        Err(f) => Err(f),
        Ok((v2, t2, rep)) => Ok((DumpStateView { log: spec_cap_log(v2.log), ..v2 }, t2, rep)),
    }
}

fn utf8_width_exec(c: char) -> (w: u128)
    ensures
        w == utf8_width(c),
{
    let u = c as u32;
    if u < 0x80 {
        1
    } else if u < 0x800 {
        2
    } else if u < 0x10000 {
        3
    } else {
        4
    }
}

proof fn lemma_byte_len_bound(s: Seq<char>)
    ensures
        byte_len(s) <= 4 * s.len(),
    decreases s.len(),
{
    if s.len() > 0 {
        lemma_byte_len_bound(s.drop_last());
    }
}

impl DumpState {
    pub fn new(script_detected: ScriptDetected) -> (r: DumpState)
        ensures
            r@.script_detected == script_detected,
            r@.log.len() == 0,
            r@.sectors.states.len() == 0,
            r@.sectors.sectors_read == 0,
            r@.sectors.total_sectors == 0,
            r@.hash_progress is None,
            r@.disc_profile is None,
            r@.system is None,
    {
        DumpState {
            log: Vec::new(),
            sectors: SectorMap::new(),
            hash_progress: None,
            disc_profile: None,
            system: None,
            script_detected,
        }
    }

    /// Forgets the sector map, the profile and the system (a new disc or dump was chosen).
    pub fn clear_sectors(&mut self)
        ensures
            final(self)@ == (DumpStateView {
                sectors: final(self)@.sectors,
                disc_profile: None,
                system: None,
                ..old(self)@
            }),
            final(self)@.sectors.states.len() == 0,
            final(self)@.sectors.sectors_read == 0,
            final(self)@.sectors.total_sectors == 0,
    {
        self.sectors.clear();
        self.disc_profile = None;
        self.system = None;
    }

    fn carriage_return(&mut self, tracker: &mut ProgressTracker) -> (r: Result<bool, StreamFault>)
        ensures
            match spec_carriage_return(old(self)@, *old(tracker)) {
                Err(f) => r == Err::<bool, StreamFault>(f),
                Ok((v, t, rep)) => r == Ok::<bool, StreamFault>(rep) && final(self)@ == v
                    && *final(tracker) == t,
            },
    {
        let last = ProgressTracker::last_line(&self.log);
        match ProgressTracker::parse_lba_line_chars(&last) {
            Some((lba, end, errs)) => {
                tracker.update(&mut self.sectors, lba, end, errs);
                ProgressTracker::clear_line(&mut self.log);
                Ok(true)
            },
            None => {
                if !hash_progress_slice_ok(&last) {
                    return Err(StreamFault::PercentBeforeBracket);
                }
                let h = parse_hash_progress_chars(&last);
                ProgressTracker::clear_line(&mut self.log);
                match h {
                    Some(p) => {
                        self.hash_progress = Some(p);
                        Ok(true)
                    },
                    None => Ok(false),
                }
            },
        }
    }

    fn section(&mut self, tracker: &mut ProgressTracker, header: &[char])
        ensures
            (final(self)@, *final(tracker)) == spec_section(old(self)@, *old(tracker), header@),
    {
        if tracker.refine {
            tracker.finish_refine_phase(&mut self.sectors);
        }
        if starts_with_str(header, "*** DUMP") {
            tracker.dump = true;
        } else if starts_with_str(header, "*** REFINE") {
            tracker.finish_dump_phase(&mut self.sectors);
        } else if starts_with_str(header, "*** INFO") {
            tracker.info = true;
        } else if starts_with_str(header, "*** HASH") || starts_with_str(header, "*** SKELETON") {
            self.hash_progress = Some(0);
        } else {
            self.hash_progress = None;
        }
    }

    fn line_end(&mut self, tracker: &mut ProgressTracker)
        requires
            old(self).log@.len() > 0,
        ensures
            (final(self)@, *final(tracker)) == spec_line_end(old(self)@, *old(tracker)),
    {
        let line = ProgressTracker::last_completed_line(&self.log);
        match self.disc_profile {
            None => {
                self.disc_profile = parse_profile_chars(&line);
            },
            Some(p) => {
                if let Some(r) = refine_profile_chars(&line, p) {
                    self.disc_profile = Some(r);
                }
            },
        }
        let header = trimmed_start(&line);
        if starts_with_str(&header, "***") {
            self.section(tracker, &header);
        }
        if tracker.info {
            match self.system {
                Some(System::XBOX) => {
                    self.system = Some(System::XBOX.refine_chars(&line));
                },
                None => {
                    self.system = System::from_line_chars(&line);
                },
                Some(_) => {},
            }
        }
    }

    fn put(&mut self, tracker: &mut ProgressTracker, c: char) -> (r: bool)
        ensures
            (final(self)@, *final(tracker), r) == spec_put(old(self)@, *old(tracker), c),
    {
        if c == '\r' {
            tracker.pending_cr = true;
            false
        } else {
            self.log.push(c);
            detect_script(c, &mut self.script_detected);
            if c == '\n' {
                self.line_end(tracker);
                true
            } else {
                false
            }
        }
    }

    fn step(&mut self, tracker: &mut ProgressTracker, c: char) -> (r: Result<bool, StreamFault>)
        ensures
            match spec_step(old(self)@, *old(tracker), c) {
                Err(f) => r == Err::<bool, StreamFault>(f),
                Ok((v, t, rep)) => r == Ok::<bool, StreamFault>(rep) && final(self)@ == v
                    && *final(tracker) == t,
            },
    {
        if tracker.pending_cr {
            tracker.pending_cr = false;
            if c == '\n' {
                return Ok(self.put(tracker, c));
            }
            match self.carriage_return(tracker) {
                Err(f) => Err(f),
                Ok(r1) => {
                    let r2 = self.put(tracker, c);
                    Ok(r1 || r2)
                },
            }
        } else {
            Ok(self.put(tracker, c))
        }
    }

    /// Applies the log cap (see `spec_cap_log`).
    pub fn cap_log(&mut self)
        ensures
            final(self)@ == (DumpStateView { log: spec_cap_log(old(self)@.log), ..old(self)@ }),
    {
        let n = self.log.len();
        let mut total: u128 = 0;
        let mut i: usize = 0;
        proof {
            lemma_byte_len_bound(self.log@);
            assert(self.log@.take(0) == Seq::<char>::empty());
        }
        while i < n
            invariant
                n == self.log.len(),
                i <= n,
                total == byte_len(self.log@.take(i as int)),
                byte_len(self.log@) <= 4 * n,
            decreases n - i,
        {
            assert(self.log@.take(i + 1).drop_last() == self.log@.take(i as int));
            proof {
                lemma_byte_len_bound(self.log@.take(i as int));
            }
            total = total + utf8_width_exec(self.log[i]);
            i += 1;
        }
        assert(self.log@.take(n as int) == self.log@);
        if total <= 64000 {
            return ;
        }
        let b: u128 = total - 64000;
        let mut k: usize = 0;
        let mut acc: u128 = 0;
        assert(self.log@.take(0) == Seq::<char>::empty());
        while k < n && acc < b
            invariant
                n == self.log.len(),
                k <= n,
                acc == byte_len(self.log@.take(k as int)),
                b < total == byte_len(self.log@),
                boundary_from(self.log@, b as int, 0) == boundary_from(self.log@, b as int, k as int),
            decreases n - k,
        {
            assert(self.log@.take(k + 1).drop_last() == self.log@.take(k as int));
            proof {
                lemma_byte_len_bound(self.log@.take(k as int));
            }
            acc = acc + utf8_width_exec(self.log[k]);
            k += 1;
        }
        assert(boundary_from(self.log@, b as int, k as int) == k);
        let tail = slice_chars(&self.log, k, n);
        assert(tail@ == self.log@.skip(k as int));
        let nl = chars_of("\n");
        proof {
            reveal_strlit("\n");
            crate::text::lemma_find_from_occurs(tail@, nl@, 0);
        }
        let pos = match find_chars(&tail, &nl) {
            Some(p) => k + p + 1,
            None => k,
        };
        let kept = slice_chars(&self.log, pos, n);
        assert(kept@ == self.log@.skip(pos as int));
        self.log = kept;
    }

    /// Processes one read of redumper output: every character in turn, then the
    /// cap on the log. A `\r` at the end of the read waits for the next read (or
    /// `finish_stream`). Returns whether the UI should repaint, or the fault that
    /// stops the processing.
    pub fn process_chunk(&mut self, tracker: &mut ProgressTracker, text: &[char]) -> (r: Result<
        bool,
        StreamFault,
    >)
        ensures
            match spec_process_chunk(old(self)@, *old(tracker), text@) {
                Err(f) => r == Err::<bool, StreamFault>(f),
                Ok((v, t, rep)) => r == Ok::<bool, StreamFault>(rep) && final(self)@ == v
                    && *final(tracker) == t,
            },
    {
        let mut repaint = false;
        let mut i: usize = 0;
        assert(text@.take(0) == Seq::<char>::empty());
        while i < text.len()
            invariant
                i <= text.len(),
                spec_feed(old(self)@, *old(tracker), text@.take(i as int)) == Ok::<
                    (DumpStateView, ProgressTracker, bool),
                    StreamFault,
                >((self@, *tracker, repaint)),
            decreases text.len() - i,
        {
            assert(text@.take(i + 1).drop_last() == text@.take(i as int));
            assert(text@.take(i + 1).last() == text@[i as int]);
            match self.step(tracker, text[i]) {
                Err(f) => {
                    proof {
                        lemma_feed_error_stays(old(self)@, *old(tracker), text@, i + 1);
                    }
                    return Err(f);
                },
                Ok(r) => {
                    repaint = repaint || r;
                },
            }
            i += 1;
        }
        assert(text@.take(text.len() as int) == text@);
        self.cap_log();
        Ok(repaint)
    }

    /// The end of a stream: decides a `\r` held back from its last read (see
    /// `spec_finish_stream`).
    pub fn finish_stream(&mut self, tracker: &mut ProgressTracker) -> (r: Result<bool, StreamFault>)
        ensures
            match spec_finish_stream(old(self)@, *old(tracker)) {
                Err(f) => r == Err::<bool, StreamFault>(f),
                Ok((v, t, rep)) => r == Ok::<bool, StreamFault>(rep) && final(self)@ == v
                    && *final(tracker) == t,
            },
    {
        if tracker.pending_cr {
            tracker.pending_cr = false;
            self.carriage_return(tracker)
        } else {
            Ok(false)
        }
    }
}

/// Once the characters so far have faulted, so has every longer prefix.
proof fn lemma_feed_error_stays(v: DumpStateView, t: ProgressTracker, text: Seq<char>, i: int)
    requires
        0 <= i <= text.len(),
        spec_feed(v, t, text.take(i)) is Err,
    ensures
        spec_feed(v, t, text) == spec_feed(v, t, text.take(i)),
    decreases text.len() - i,
{
    if i < text.len() {
        assert(text.take(i + 1).drop_last() == text.take(i));
        lemma_feed_error_stays(v, t, text, i + 1);
    } else {
        assert(text.take(i) == text);
    }
}

/// What output never undoes: a consistent sector map stays consistent, a detected
/// script stays detected, and a disc profile or system once found stays found.
pub open spec fn keeps_findings(v: DumpStateView, w: DumpStateView) -> bool {
    &&& map_consistent(v.sectors) ==> map_consistent(w.sectors)
    &&& v.script_detected.japanese ==> w.script_detected.japanese
    &&& v.script_detected.chinese ==> w.script_detected.chinese
    &&& v.script_detected.korean ==> w.script_detected.korean
    &&& v.disc_profile is Some ==> w.disc_profile is Some
    &&& v.system is Some ==> w.system is Some
}

proof fn lemma_put_keeps_findings(v: DumpStateView, t: ProgressTracker, c: char)
    ensures
        keeps_findings(v, spec_put(v, t, c).0),
{
    if map_consistent(v.sectors) {
        lemma_operations_keep_map_consistent(t, v.sectors, 0, 0, 0, 0);
        let m = spec_complete_phase(v.sectors);
        lemma_operations_keep_map_consistent(t, m, 0, 0, 0, 0);
    }
}

proof fn lemma_step_keeps_findings(v: DumpStateView, t: ProgressTracker, c: char)
    ensures
        spec_step(v, t, c) matches Ok((w, _, _)) ==> keeps_findings(v, w),
{
    let t0 = ProgressTracker { pending_cr: false, ..t };
    lemma_put_keeps_findings(v, t0, c);
    lemma_put_keeps_findings(v, t, c);
    if map_consistent(v.sectors) {
        let last = spec_last_line(v.log);
        if let Some((lba, end, errs)) = spec_parse_lba_line(last) {
            lemma_operations_keep_map_consistent(t0, v.sectors, lba, end, errs, 0);
        }
    }
    if let Ok((v1, t1, _)) = spec_carriage_return(v, t0) {
        lemma_put_keeps_findings(v1, t1, c);
    }
}

proof fn lemma_feed_keeps_findings(v: DumpStateView, t: ProgressTracker, text: Seq<char>)
    ensures
        spec_feed(v, t, text) matches Ok((w, _, _)) ==> keeps_findings(v, w),
    decreases text.len(),
{
    if text.len() > 0 {
        lemma_feed_keeps_findings(v, t, text.drop_last());
        if let Ok((v1, t1, _)) = spec_feed(v, t, text.drop_last()) {
            lemma_step_keeps_findings(v1, t1, text.last());
        }
    }
}

/// A chunk of output keeps the sector map consistent, and clears no detected
/// script, disc profile or system; so does the end of the stream.
pub proof fn lemma_chunk_keeps_findings(v: DumpStateView, t: ProgressTracker, text: Seq<char>)
    ensures
        spec_process_chunk(v, t, text) matches Ok((w, _, _)) ==> keeps_findings(v, w),
        spec_finish_stream(v, t) matches Ok((w, _, _)) ==> keeps_findings(v, w),
{
    lemma_feed_keeps_findings(v, t, text);
    if map_consistent(v.sectors) {
        let last = spec_last_line(v.log);
        if let Some((lba, end, errs)) = spec_parse_lba_line(last) {
            lemma_operations_keep_map_consistent(
                ProgressTracker { pending_cr: false, ..t },
                v.sectors,
                lba,
                end,
                errs,
                0,
            );
        }
    }
}

/// Feeding two pieces one after the other is feeding them joined.
pub proof fn lemma_feed_joined(v: DumpStateView, t: ProgressTracker, a: Seq<char>, b: Seq<char>)
    ensures
        spec_feed(v, t, a + b) == spec_then_feed(spec_feed(v, t, a), b),
    decreases b.len(),
{
    if b.len() == 0 {
        assert(a + b == a);
        match spec_feed(v, t, a) {
            Err(_) => {},
            Ok((v1, t1, r1)) => {
                assert(spec_feed(v1, t1, b) == Ok::<(DumpStateView, ProgressTracker, bool), StreamFault>((v1, t1, false)));
                assert(r1 || false == r1);
            },
        }
    } else {
        lemma_feed_joined(v, t, a, b.drop_last());
        assert((a + b).drop_last() == a + b.drop_last());
        assert((a + b).last() == b.last());
        match spec_feed(v, t, a) {
            Err(_) => {},
            Ok((v1, t1, r1)) => {
                match spec_feed(v1, t1, b.drop_last()) {
                    Err(_) => {},
                    Ok((v2, t2, r2)) => {
                        match spec_step(v2, t2, b.last()) {
                            Err(_) => {},
                            Ok((v3, t3, r3)) => {
                                assert((r1 || r2) || r3 == r1 || (r2 || r3));
                            },
                        }
                    },
                }
            },
        }
    }
}

/// The log cap changes nothing while the log is within it.
pub proof fn lemma_cap_keeps_short_log(log: Seq<char>)
    requires
        byte_len(log) <= log_cap(),
    ensures
        spec_cap_log(log) == log,
{
}

/// How the output is split into reads does not matter: while the log stays within
/// its cap, processing `a` and then `b` gives what processing `a + b` in one read
/// gives (repainting when either read asks for it), including a `\r\n` split
/// between the reads.
pub proof fn lemma_split_reads(v: DumpStateView, t: ProgressTracker, a: Seq<char>, b: Seq<char>)
    ensures
        spec_feed(v, t, a) matches Ok((u, _, _)) && byte_len(u.log) <= log_cap() ==> match spec_process_chunk(v, t, a) {
            Ok((v1, t1, r1)) => match spec_process_chunk(v1, t1, b) {
                Ok((v2, t2, r2)) => spec_process_chunk(v, t, a + b) == Ok::<
                    (DumpStateView, ProgressTracker, bool),
                    StreamFault,
                >((v2, t2, r1 || r2)),
                Err(f) => spec_process_chunk(v, t, a + b) == Err::<
                    (DumpStateView, ProgressTracker, bool),
                    StreamFault,
                >(f),
            },
            Err(_) => false,
        },
{
    lemma_feed_joined(v, t, a, b);
    if let Ok((u, tu, ru)) = spec_feed(v, t, a) {
        if byte_len(u.log) <= log_cap() {
            lemma_cap_keeps_short_log(u.log);
            assert(DumpStateView { log: spec_cap_log(u.log), ..u } == u);
        }
    }
}

proof fn lemma_put_plain(v: DumpStateView, t: ProgressTracker, c: char)
    requires
        c != '\r',
    ensures
        spec_put(v, t, c).0.log == v.log.push(c),
        !spec_put(v, t, c).1.pending_cr <== !t.pending_cr,
{
}

proof fn lemma_feed_plain(v: DumpStateView, t: ProgressTracker, text: Seq<char>)
    requires
        !t.pending_cr,
        forall|k: int| 0 <= k < text.len() ==> text[k] != '\r',
    ensures
        spec_feed(v, t, text) matches Ok((w, tw, _)) && w.log == v.log + text && !tw.pending_cr,
    decreases text.len(),
{
    if text.len() == 0 {
        assert(v.log + text == v.log);
    } else {
        lemma_feed_plain(v, t, text.drop_last());
        if let Ok((v1, t1, _)) = spec_feed(v, t, text.drop_last()) {
            lemma_put_plain(v1, t1, text.last());
            assert(v.log + text.drop_last() + seq![text.last()] == v.log + text);
        }
    }
}

/// Output without carriage returns (no progress updates) goes to the log as it is;
/// after the chunk the log is the end of the old log followed by that output.
pub proof fn lemma_plain_output_logged(v: DumpStateView, t: ProgressTracker, text: Seq<char>)
    requires
        !t.pending_cr,
        forall|k: int| 0 <= k < text.len() ==> text[k] != '\r',
    ensures
        spec_feed(v, t, text) matches Ok((w, _, _)) && w.log == v.log + text,
        spec_process_chunk(v, t, text) matches Ok((w, _, _)) ==> exists|p: int|
            0 <= p <= v.log.len() + text.len() && w.log == (v.log + text).skip(p),
{
    lemma_feed_plain(v, t, text);
    if let Ok((w, _, _)) = spec_feed(v, t, text) {
        lemma_cap_log_bounds(w.log);
    }
}

proof fn lemma_feed_no_breaks(v: DumpStateView, t: ProgressTracker, text: Seq<char>)
    requires
        !t.pending_cr,
        forall|k: int| 0 <= k < text.len() ==> text[k] != '\n' && text[k] != '\r',
    ensures
        spec_feed(v, t, text) == Ok::<(DumpStateView, ProgressTracker, bool), StreamFault>((
            DumpStateView {
                log: v.log + text,
                script_detected: spec_detect_all(v.script_detected, text),
                ..v
            },
            t,
            false,
        )),
    decreases text.len(),
{
    if text.len() == 0 {
        assert(v.log + text == v.log);
    } else {
        lemma_feed_no_breaks(v, t, text.drop_last());
        let c = text.last();
        assert(c == text[text.len() - 1]);
        assert(c != '\n' && c != '\r');
        assert((v.log + text.drop_last()).push(c) == v.log + text);
    }
}

proof fn lemma_rfind_char_append(s: Seq<char>, l: Seq<char>, c: char)
    requires
        forall|k: int| 0 <= k < l.len() ==> l[k] != c,
    ensures
        rfind_char(s + l, c) == rfind_char(s, c),
    decreases l.len(),
{
    if l.len() == 0 {
        assert(s + l == s);
    } else {
        assert(l.last() == l[l.len() - 1]);
        assert((s + l).drop_last() == s + l.drop_last());
        lemma_rfind_char_append(s, l.drop_last(), c);
    }
}

proof fn lemma_last_line_append(s: Seq<char>, l: Seq<char>)
    requires
        forall|k: int| 0 <= k < l.len() ==> l[k] != '\n',
    ensures
        spec_last_line(s + l) == spec_last_line(s) + l,
{
    lemma_rfind_char_append(s, l, '\n');
    lemma_rfind_char_bound(s, '\n');
    let p = last_line_start(s);
    assert(last_line_start(s + l) == p);
    assert((s + l).skip(p) == s.skip(p) + l);
}

/// A section header that starts with `*** INFO` is no `*** DUMP` or `*** REFINE` header.
proof fn lemma_info_header(h: Seq<char>)
    ensures
        starts_with(h, "*** INFO"@) ==> starts_with(h, "***"@) && !starts_with(h, "*** DUMP"@)
            && !starts_with(h, "*** REFINE"@),
{
    reveal_strlit("***");
    reveal_strlit("*** INFO");
    reveal_strlit("*** DUMP");
    reveal_strlit("*** REFINE");
    if starts_with(h, "*** INFO"@) {
        assert(h[4] == 'I') by {
            assert(h.take(8)[4] == h[4]);
        }
        assert(!starts_with(h, "*** DUMP"@)) by {
            if starts_with(h, "*** DUMP"@) {
                assert(h.take(8)[4] == h[4]);
            }
        }
        assert(!starts_with(h, "*** REFINE"@)) by {
            if starts_with(h, "*** REFINE"@) {
                assert(h.take(10)[4] == h[4]);
            }
        }
        assert(starts_with(h, "***"@)) by {
            assert(h.take(3) == h.take(8).take(3));
            assert("*** INFO"@.take(3) == "***"@);
        }
    }
}

/// A completed line sets the disc profile when none is known yet and otherwise
/// refines it (it never goes back to none); once a `*** INFO` header has been seen in
/// the stream, the line also sets the system when none is known, refines an Xbox,
/// and leaves any other system as it is. The completed line is what the log held
/// after its last line break, followed by the new text.
pub proof fn lemma_line_updates_profile_and_system(
    v: DumpStateView,
    t: ProgressTracker,
    line: Seq<char>,
)
    requires
        !t.pending_cr,
        forall|k: int| 0 <= k < line.len() ==> line[k] != '\n' && line[k] != '\r',
    ensures
        spec_feed(v, t, line.push('\n')) matches Ok((w, tw, rep)) && rep && {
            let full = spec_last_line(v.log) + line;
            &&& w.disc_profile == profile_after_line(v.disc_profile, full)
            &&& tw.info == (t.info || starts_with(trim_start(full), "*** INFO"@))
            &&& w.system == if tw.info {
                system_after_line(v.system, full)
            } else {
                v.system
            }
        },
{
    let text = line.push('\n');
    assert(text.drop_last() == line);
    lemma_feed_no_breaks(v, t, line);
    lemma_last_line_append(v.log, line);
    let v1 = DumpStateView {
        log: v.log + line,
        script_detected: spec_detect_all(v.script_detected, line),
        ..v
    };
    let v2 = DumpStateView {
        log: v1.log.push('\n'),
        script_detected: spec_detect(v1.script_detected, '\n'),
        ..v1
    };
    assert(v2.log.drop_last() == v.log + line);
    let full = spec_last_line(v.log) + line;
    assert(spec_last_completed_line(v2.log) == full);
    lemma_info_header(trim_start(full));
}

/// Completing a phase twice is completing it once.
proof fn lemma_complete_phase_twice(m: SectorMapView)
    ensures
        spec_complete_phase(spec_complete_phase(m)) == spec_complete_phase(m),
{
    let c = spec_complete_phase(m);
    if m.total_sectors > 0 {
        let end = if m.total_sectors < m.states.len() {
            m.total_sectors as int
        } else {
            m.states.len() as int
        };
        assert(mark_unread_ok(c.states, end) =~= c.states);
    }
}

/// Once the stream is in the refine phase, a completed section header line
/// (`*** ...` after leading whitespace) finishes that phase: every unread sector
/// below the sector count is read good, the read position becomes the sector
/// count, no other sector changes, and the stream stays in the refine phase.
pub proof fn lemma_header_completes_refine(v: DumpStateView, t: ProgressTracker, line: Seq<char>)
    requires
        !t.pending_cr,
        t.refine,
        forall|k: int| 0 <= k < line.len() ==> line[k] != '\n' && line[k] != '\r',
        starts_with(trim_start(spec_last_line(v.log) + line), "***"@),
    ensures
        spec_feed(v, t, line.push('\n')) matches Ok((w, tw, _)) && {
            &&& tw.refine
            &&& w.sectors == spec_complete_phase(v.sectors)
            &&& w.sectors.total_sectors == v.sectors.total_sectors
            &&& w.sectors.states.len() == v.sectors.states.len()
            &&& forall|j: int|
                0 <= j < v.sectors.states.len() ==> #[trigger] w.sectors.states[j] == if j
                    < v.sectors.total_sectors && v.sectors.states[j] == SectorStatus::Unread {
                    SectorStatus::Good
                } else {
                    v.sectors.states[j]
                }
            &&& v.sectors.total_sectors > 0 ==> w.sectors.sectors_read == v.sectors.total_sectors
        },
{
    let text = line.push('\n');
    assert(text.drop_last() == line);
    lemma_feed_no_breaks(v, t, line);
    lemma_last_line_append(v.log, line);
    let v1 = DumpStateView {
        log: v.log + line,
        script_detected: spec_detect_all(v.script_detected, line),
        ..v
    };
    let v2 = DumpStateView {
        log: v1.log.push('\n'),
        script_detected: spec_detect(v1.script_detected, '\n'),
        ..v1
    };
    assert(v2.log.drop_last() == v.log + line);
    let full = spec_last_line(v.log) + line;
    assert(spec_last_completed_line(v2.log) == full);
    lemma_complete_phase_twice(v.sectors);
}

/// Outside the refine phase, a completed section header line other than `*** REFINE`
/// leaves the sector map as it was.
pub proof fn lemma_header_outside_refine_keeps_map(
    v: DumpStateView,
    t: ProgressTracker,
    line: Seq<char>,
)
    requires
        !t.pending_cr,
        !t.refine,
        forall|k: int| 0 <= k < line.len() ==> line[k] != '\n' && line[k] != '\r',
        starts_with(trim_start(spec_last_line(v.log) + line), "***"@),
        !starts_with(trim_start(spec_last_line(v.log) + line), "*** REFINE"@),
    ensures
        spec_feed(v, t, line.push('\n')) matches Ok((w, tw, _)) && w.sectors == v.sectors
            && !tw.refine,
{
    let text = line.push('\n');
    assert(text.drop_last() == line);
    lemma_feed_no_breaks(v, t, line);
    lemma_last_line_append(v.log, line);
    let v1 = DumpStateView {
        log: v.log + line,
        script_detected: spec_detect_all(v.script_detected, line),
        ..v
    };
    let v2 = DumpStateView {
        log: v1.log.push('\n'),
        script_detected: spec_detect(v1.script_detected, '\n'),
        ..v1
    };
    assert(v2.log.drop_last() == v.log + line);
    let full = spec_last_line(v.log) + line;
    assert(spec_last_completed_line(v2.log) == full);
}

/// The line that `line` followed by `\n` completes after the state `(u, tu)`: the text
/// after the log's last line break, then `line`; but when a lone `\r` was held back
/// and `line` is not empty, that `\r` first erased the progress text, and the line is
/// `line` alone.
pub open spec fn completed_line(u: DumpStateView, tu: ProgressTracker, line: Seq<char>) -> Seq<
    char,
> {
    if tu.pending_cr && line.len() > 0 {
        line
    } else {
        spec_last_line(u.log) + line
    }
}

proof fn lemma_cleared_log_has_no_partial_line(log: Seq<char>)
    ensures
        spec_last_line(log.take(last_line_start(log))).len() == 0,
{
    lemma_clear_line_ends_at_line_break(log);
    lemma_rfind_char_bound(log, '\n');
    let r = log.take(last_line_start(log));
    if r.len() > 0 {
        assert(rfind_char(r, '\n') == Some(r.len() - 1));
    }
}

proof fn lemma_feed_one(v: DumpStateView, t: ProgressTracker, c: char)
    ensures
        spec_feed(v, t, seq![c]) == spec_then_step(
            Ok::<(DumpStateView, ProgressTracker, bool), StreamFault>((v, t, false)),
            c,
        ),
{
    assert(seq![c].drop_last() == Seq::<char>::empty());
    assert(seq![c].last() == c);
    assert(spec_feed(v, t, Seq::<char>::empty()) == Ok::<
        (DumpStateView, ProgressTracker, bool),
        StreamFault,
    >((v, t, false)));
    assert(spec_feed(v, t, seq![c]) == spec_then_step(spec_feed(v, t, seq![c].drop_last()), c));
}

/// The line completed after a held-back lone `\r` and non-empty text: the `\r`
/// erases the progress text first.
proof fn lemma_line_after_pending_cr(u: DumpStateView, tu: ProgressTracker, line: Seq<char>)
    requires
        tu.pending_cr,
        line.len() > 0,
        forall|k: int| 0 <= k < line.len() ==> line[k] != '\n' && line[k] != '\r',
    ensures
        spec_feed(u, tu, line.push('\n')) matches Ok((w, tw, _)) ==> {
            &&& w.disc_profile == profile_after_line(u.disc_profile, line)
            &&& tw.info == (tu.info || starts_with(trim_start(line), "*** INFO"@))
            &&& w.system == if tw.info {
                system_after_line(u.system, line)
            } else {
                u.system
            }
        },
{
    let tu0 = ProgressTracker { pending_cr: false, ..tu };
    let c = line[0];
    let rest = line.drop_first();
    let nl = line.push('\n');
    let one = seq![c];
    assert(nl == one + rest.push('\n'));
    assert(one + rest == line);
    lemma_feed_joined(u, tu, one, rest.push('\n'));
    lemma_feed_one(u, tu, c);
    assert(c != '\n' && c != '\r');
    assert forall|k: int| 0 <= k < rest.len() implies rest[k] != '\n' && rest[k] != '\r' by {
        assert(rest[k] == line[k + 1]);
    }
    match spec_carriage_return(u, tu0) {
        Err(_) => {},
        Ok((u1, t1, r1)) => {
            let (u2, t2, r2) = spec_put(u1, t1, c);
            assert(spec_step(u, tu, c) == Ok::<(DumpStateView, ProgressTracker, bool), StreamFault>((u2, t2, r1 || r2)));
            assert(spec_feed(u, tu, one) == Ok::<(DumpStateView, ProgressTracker, bool), StreamFault>((u2, t2, false || (r1 || r2))));
            lemma_cleared_log_has_no_partial_line(u.log);
            assert(u2.log == u1.log + one);
            lemma_last_line_append(u1.log, one);
            assert(spec_last_line(u1.log) + one == one);
            lemma_line_updates_profile_and_system(u2, t2, rest);
        },
    }
}

/// A completed line inside any read: after the text `a` of a read (from any state),
/// the text `line` and a `\n` complete the line `completed_line(..)`. That line sets
/// the disc profile when none is known and otherwise refines it (never back to
/// none); once the stream has seen a `*** INFO` header, it sets a missing system,
/// refines an Xbox and leaves any other system as it is. What follows in the same
/// read comes after (see `lemma_feed_joined`).
pub proof fn lemma_line_completed_in_read(
    v: DumpStateView,
    t: ProgressTracker,
    a: Seq<char>,
    line: Seq<char>,
)
    requires
        forall|k: int| 0 <= k < line.len() ==> line[k] != '\n' && line[k] != '\r',
    ensures
        spec_feed(v, t, a) matches Ok((u, tu, _)) ==> (spec_feed(v, t, a + line.push('\n'))
            matches Ok((w, tw, _)) ==> {
            let full = completed_line(u, tu, line);
            &&& w.disc_profile == profile_after_line(u.disc_profile, full)
            &&& tw.info == (tu.info || starts_with(trim_start(full), "*** INFO"@))
            &&& w.system == if tw.info {
                system_after_line(u.system, full)
            } else {
                u.system
            }
        }),
{
    lemma_feed_joined(v, t, a, line.push('\n'));
    if let Ok((u, tu, _)) = spec_feed(v, t, a) {
        if !tu.pending_cr {
            lemma_line_updates_profile_and_system(u, tu, line);
        } else if line.len() == 0 {
            let tu0 = ProgressTracker { pending_cr: false, ..tu };
            let nl = line.push('\n');
            assert(nl == seq!['\n']);
            lemma_feed_one(u, tu, '\n');
            lemma_feed_one(u, tu0, '\n');
            assert(spec_step(u, tu, '\n') == spec_step(u, tu0, '\n'));
            assert(spec_feed(u, tu, nl) == spec_feed(u, tu0, nl));
            lemma_line_updates_profile_and_system(u, tu0, line);
        } else {
            lemma_line_after_pending_cr(u, tu, line);
        }
    }
}

/// The bytes of a sequence are the bytes of its two parts.
pub proof fn lemma_byte_len_split(s: Seq<char>, k: int)
    requires
        0 <= k <= s.len(),
    ensures
        byte_len(s) == byte_len(s.take(k)) + byte_len(s.skip(k)),
    decreases s.len(),
{
    if k == s.len() {
        assert(s.take(k) == s);
        assert(s.skip(k).len() == 0);
    } else {
        lemma_byte_len_split(s.drop_last(), k);
        assert(s.drop_last().take(k) == s.take(k));
        assert(s.skip(k).drop_last() == s.drop_last().skip(k));
        assert(s.skip(k).last() == s.last());
    }
}

/// The first character boundary at or after byte `b` (searched from position `k`)
/// lies in the sequence and is at or after byte `b`.
pub proof fn lemma_boundary(s: Seq<char>, b: int, k: int)
    requires
        0 <= k <= s.len(),
        b <= byte_len(s),
    ensures
        k <= boundary_from(s, b, k) <= s.len(),
        byte_len(s.take(boundary_from(s, b, k))) >= b,
    decreases s.len() - k,
{
    if k >= s.len() {
        assert(s.take(k) == s);
    } else if byte_len(s.take(k)) < b {
        lemma_boundary(s, b, k + 1);
    }
}

/// After a chunk the log holds at most `log_cap()` bytes, and what it holds is the
/// end of what it held: capping only drops old text from the front.
pub proof fn lemma_cap_log_bounds(log: Seq<char>)
    ensures
        byte_len(spec_cap_log(log)) <= log_cap(),
        exists|p: int| 0 <= p <= log.len() && spec_cap_log(log) == log.skip(p),
{
    if byte_len(log) <= log_cap() {
        assert(log == log.skip(0));
    } else {
        let b = byte_len(log) - log_cap();
        lemma_boundary(log, b, 0);
        let k = boundary_from(log, b, 0);
        crate::text::lemma_find_from_occurs(log.skip(k), "\n"@, 0);
        reveal_strlit("\n");
        let pos = match find(log.skip(k), "\n"@) {
            Some(p) => k + p + 1,
            None => k,
        };
        lemma_byte_len_split(log, k);
        lemma_byte_len_split(log.skip(k), pos - k);
        assert(log.skip(k).skip(pos - k) == log.skip(pos));
    }
}

} // verus!

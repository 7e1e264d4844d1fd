//! Optical drive lists: reading what the system tools report, and ordering drives.
use vstd::prelude::*;

use crate::options::drive_views;
use crate::text::{
    chars_of, contains, contains_str, eq_ignore_ascii_case, equals, equals_ignore_ascii_case,
    first_word, first_word_chars, has_prefix, is_digit, joined, slice_chars, starts_with, starts_with_str,
    string_of, string_views, to_ascii_lower, trim, trimmed,
};

verus! {

/// Strict lexicographic order of character sequences. It agrees with the byte order
/// of their UTF-8 encodings, which is how `str` compares.
pub open spec fn lex_lt(a: Seq<char>, b: Seq<char>) -> bool
    decreases a.len(),
{
    if a.len() == 0 {
        b.len() > 0
    } else if b.len() == 0 {
        false
    } else if a[0] != b[0] {
        a[0] < b[0]
    } else {
        lex_lt(a.drop_first(), b.drop_first())
    }
}

pub proof fn lemma_lex_irreflexive(a: Seq<char>)
    ensures
        !lex_lt(a, a),
    decreases a.len(),
{
    if a.len() > 0 {
        lemma_lex_irreflexive(a.drop_first());
    }
}

pub proof fn lemma_lex_total(a: Seq<char>, b: Seq<char>)
    ensures
        a != b ==> lex_lt(a, b) || lex_lt(b, a),
        !(lex_lt(a, b) && lex_lt(b, a)),
    decreases a.len(),
{
    if a.len() > 0 && b.len() > 0 && a[0] == b[0] {
        lemma_lex_total(a.drop_first(), b.drop_first());
        if a.drop_first() == b.drop_first() {
            assert(a == seq![a[0]] + a.drop_first());
            assert(b == seq![b[0]] + b.drop_first());
        }
    }
    if a.len() == 0 && b.len() == 0 {
        assert(a == b);
    }
}

pub proof fn lemma_lex_transitive(a: Seq<char>, b: Seq<char>, c: Seq<char>)
    ensures
        lex_lt(a, b) && lex_lt(b, c) ==> lex_lt(a, c),
    decreases a.len(),
{
    if a.len() > 0 && b.len() > 0 && c.len() > 0 && a[0] == b[0] && b[0] == c[0] {
        lemma_lex_transitive(a.drop_first(), b.drop_first(), c.drop_first());
    }
}

/// Compares two strings (see `lex_lt`).
pub fn less_than(a: &[char], b: &[char]) -> (r: bool)
    ensures
        r == lex_lt(a@, b@),
{
    let mut k: usize = 0;
    assert(a@.skip(0) == a@ && b@.skip(0) == b@);
    loop
        invariant
            k <= a.len(),
            k <= b.len(),
            lex_lt(a@, b@) == lex_lt(a@.skip(k as int), b@.skip(k as int)),
        decreases a.len() - k,
    {
        if k == a.len() {
            return k < b.len();
        }
        if k == b.len() {
            return false;
        }
        if a[k] != b[k] {
            return a[k] < b[k];
        }
        assert(a@.skip(k as int).drop_first() == a@.skip(k + 1));
        assert(b@.skip(k as int).drop_first() == b@.skip(k + 1));
        k += 1;
    }
}

pub open spec fn sorted_by_path(s: Seq<(Seq<char>, Seq<char>)>) -> bool {
    forall|a: int, b: int| 0 <= a < b < s.len() ==> !lex_lt(#[trigger] s[b].0, #[trigger] s[a].0)
}

/// `r` holds the entries of `s` in the order `perm` gives: `perm` is a rearrangement
/// of the positions of `s`, `r` is sorted by path, and entries with equal paths keep
/// their relative order.
pub open spec fn stable_sort_of(
    r: Seq<(Seq<char>, Seq<char>)>,
    s: Seq<(Seq<char>, Seq<char>)>,
    perm: Seq<int>,
) -> bool {
    &&& r.len() == s.len()
    &&& perm.len() == s.len()
    &&& forall|k: int| 0 <= k < perm.len() ==> 0 <= #[trigger] perm[k] < s.len()
    &&& forall|a: int, b: int| 0 <= a < b < perm.len() ==> #[trigger] perm[a] != #[trigger] perm[b]
    &&& forall|k: int| 0 <= k < r.len() ==> #[trigger] r[k] == s[perm[k]]
    &&& sorted_by_path(r)
    &&& forall|a: int, b: int|
        0 <= a < b < r.len() && (#[trigger] r[a]).0 == (#[trigger] r[b]).0 ==> perm[a] < perm[b]
}

/// Sorts drives by device path, keeping entries with equal paths in their order.
pub fn sort_drives(drives: &Vec<(String, String)>) -> (r: Vec<(String, String)>)
    ensures
        exists|perm: Seq<int>| stable_sort_of(drive_views(r@), drive_views(drives@), perm),
{
    let ghost s = drive_views(drives@);
    let n = drives.len();
    let mut result: Vec<(String, String)> = Vec::new();
    let ghost mut perm: Seq<int> = Seq::empty();
    let mut i: usize = 0;
    while i < n
        invariant
            n == s.len() == drives@.len(),
            s == drive_views(drives@),
            i <= n,
            result@.len() == i,
            perm.len() == i,
            forall|k: int| 0 <= k < perm.len() ==> 0 <= #[trigger] perm[k] < i,
            forall|a: int, b: int| 0 <= a < b < perm.len() ==> #[trigger] perm[a] != #[trigger] perm[b],
            forall|k: int| 0 <= k < i ==> #[trigger] drive_views(result@)[k] == s[perm[k]],
            sorted_by_path(drive_views(result@)),
            forall|a: int, b: int|
                0 <= a < b < i && (#[trigger] drive_views(result@)[a]).0 == (
                #[trigger] drive_views(result@)[b]).0 ==> perm[a] < perm[b],
        decreases n - i,
    {
        let ghost rv = drive_views(result@);
        let item = (drives[i].0.clone(), drives[i].1.clone());
        assert((item.0@, item.1@) == s[i as int]);
        let key = chars_of(item.0.as_str());
        let mut pos: usize = 0;
        while pos < result.len()
            invariant
                rv == drive_views(result@),
                key@ == s[i as int].0,
                pos <= result.len(),
                forall|q: int| 0 <= q < pos ==> !lex_lt(key@, #[trigger] rv[q].0),
            ensures
                rv == drive_views(result@),
                pos <= result.len(),
                forall|q: int| 0 <= q < pos ==> !lex_lt(key@, #[trigger] rv[q].0),
                pos < result.len() ==> lex_lt(key@, rv[pos as int].0),
            decreases result.len() - pos,
        {
            let other = chars_of(result[pos].0.as_str());
            assert(other@ == rv[pos as int].0);
            if less_than(&key, &other) {
                break;
            }
            pos += 1;
        }
        proof {
            assert forall|q: int| pos <= q < rv.len() implies lex_lt(key@, #[trigger] rv[q].0) by {
                assert(lex_lt(key@, rv[pos as int].0));
                if q > pos {
                    assert(!lex_lt(rv[q].0, rv[pos as int].0));
                    lemma_lex_total(rv[q].0, rv[pos as int].0);
                    lemma_lex_transitive(key@, rv[pos as int].0, rv[q].0);
                }
            }
        }
        result.insert(pos, item);
        let ghost nperm = perm.insert(pos as int, i as int);
        let ghost nr = drive_views(result@);
        proof {
            assert(nr == rv.insert(pos as int, s[i as int]));
            assert forall|k: int| 0 <= k < nperm.len() implies 0 <= #[trigger] nperm[k] < i + 1 by {
                if k < pos {
                    assert(nperm[k] == perm[k]);
                } else if k > pos {
                    assert(nperm[k] == perm[k - 1]);
                }
            }
            assert forall|a: int, b: int| 0 <= a < b < nperm.len() implies #[trigger] nperm[a]
                != #[trigger] nperm[b] by {
                if a < pos && b < pos {
                } else if a < pos && b == pos {
                } else if a < pos && b > pos {
                    assert(nperm[b] == perm[b - 1]);
                } else if a == pos {
                    assert(nperm[b] == perm[b - 1]);
                } else {
                    assert(nperm[a] == perm[a - 1]);
                    assert(nperm[b] == perm[b - 1]);
                }
            }
            assert forall|k: int| 0 <= k < i + 1 implies #[trigger] nr[k] == s[nperm[k]] by {
                if k < pos {
                    assert(nr[k] == rv[k]);
                } else if k > pos {
                    assert(nr[k] == rv[k - 1]);
                    assert(nperm[k] == perm[k - 1]);
                }
            }
            assert forall|a: int, b: int| 0 <= a < b < nr.len() implies !lex_lt(
                #[trigger] nr[b].0,
                #[trigger] nr[a].0,
            ) by {
                if b < pos {
                } else if b == pos {
                    assert(!lex_lt(key@, rv[a].0));
                } else if a < pos {
                    assert(nr[b] == rv[b - 1]);
                } else if a == pos {
                    assert(nr[b] == rv[b - 1]);
                    assert(lex_lt(key@, rv[b - 1].0));
                    lemma_lex_total(key@, rv[b - 1].0);
                } else {
                    assert(nr[a] == rv[a - 1]);
                    assert(nr[b] == rv[b - 1]);
                }
            }
            assert forall|a: int, b: int|
                0 <= a < b < i + 1 && (#[trigger] nr[a]).0 == (#[trigger] nr[b]).0 implies nperm[a]
                < nperm[b] by {
                if b < pos {
                } else if b == pos {
                    assert(nperm[a] == perm[a]);
                } else if a < pos {
                    assert(nr[b] == rv[b - 1]);
                    assert(nperm[b] == perm[b - 1]);
                } else if a == pos {
                    assert(nr[b] == rv[b - 1]);
                    assert(lex_lt(key@, rv[b - 1].0));
                    lemma_lex_irreflexive(key@);
                } else {
                    assert(nr[a] == rv[a - 1]);
                    assert(nr[b] == rv[b - 1]);
                    assert(nperm[a] == perm[a - 1]);
                    assert(nperm[b] == perm[b - 1]);
                }
            }
        }
        proof {
            perm = nperm;
        }
        i += 1;
    }
    assert(stable_sort_of(drive_views(result@), s, perm));
    result
}

/// `s` with ASCII letters made lowercase.
pub open spec fn ascii_lowercase(s: Seq<char>) -> Seq<char> {
    s.map_values(|c: char| to_ascii_lower(c))
}

/// `s` without its trailing `:` characters.
pub open spec fn trim_end_colons(s: Seq<char>) -> Seq<char>
    decreases s.len(),
{
    if s.len() > 0 && s.last() == ':' {
        trim_end_colons(s.drop_last())
    } else {
        s
    }
}

/// The disk node a line of `diskutil list` names: its first word, a `/dev/` path,
/// without `/dev/` and trailing colons; lines about virtual or synthesized disks name none.
pub open spec fn node_of_list_line(line: Seq<char>) -> Option<Seq<char>> {
    match first_word(line) {
        None => None,
        Some(w) => if !starts_with(w, "/dev/"@) {
            None
        } else if contains(ascii_lowercase(line), "virtual"@) || contains(
            ascii_lowercase(line),
            "synthesized"@,
        ) {
            None
        } else {
            Some(trim_end_colons(w.skip(5)))
        },
    }
}

/// The disk nodes of the lines of `diskutil list` output, in order.
pub open spec fn list_nodes(lines: Seq<Seq<char>>) -> Seq<Seq<char>>
    decreases lines.len(),
{
    if lines.len() == 0 {
        Seq::empty()
    } else {
        let rest = list_nodes(lines.drop_last());
        match node_of_list_line(lines.last()) {
            Some(n) => rest.push(n),
            None => rest,
        }
    }
}

fn lowercase_chars(s: &[char]) -> (r: Vec<char>)
    ensures
        r@ == ascii_lowercase(s@),
{
    let mut r: Vec<char> = Vec::new();
    let mut i: usize = 0;
    while i < s.len()
        invariant
            i <= s.len(),
            r@.len() == i,
            forall|k: int| 0 <= k < i ==> r@[k] == to_ascii_lower(s@[k]),
        decreases s.len() - i,
    {
        r.push(crate::text::ascii_lower(s[i]));
        i += 1;
    }
    assert(r@ == ascii_lowercase(s@));
    r
}

fn node_of_line(line: &[char]) -> (r: Option<Vec<char>>)
    ensures
        match node_of_list_line(line@) {
            None => r is None,
            Some(n) => r matches Some(x) && x@ == n,
        },
{
    let w = match first_word_chars(line) {
        None => return None,
        Some(w) => w,
    };
    let dev = chars_of("/dev/");
    if !has_prefix(&w, &dev) {
        return None;
    }
    let lower = lowercase_chars(line);
    if contains_str(&lower, "virtual") || contains_str(&lower, "synthesized") {
        return None;
    }
    proof {
        reveal_strlit("/dev/");
    }
    let mut k = w.len();
    assert(w@.skip(5).take(k - 5) == w@.skip(5));
    while k > 5 && w[k - 1] == ':'
        invariant
            5 <= k <= w.len(),
            trim_end_colons(w@.skip(5)) == trim_end_colons(w@.skip(5).take(k - 5)),
        decreases k,
    {
        assert(w@.skip(5).take(k - 5).drop_last() == w@.skip(5).take(k - 6));
        k -= 1;
    }
    let node = slice_chars(&w, 5, k);
    assert(node@ == w@.skip(5).take(k - 5));
    Some(node)
}

/// The disk nodes named by the lines of `diskutil list` output.
pub fn diskutil_list_nodes(lines: &[String]) -> (r: Vec<String>)
    ensures
        string_views(r@) == list_nodes(string_views(lines@)),
{
    let ghost lv = string_views(lines@);
    let mut r: Vec<String> = Vec::new();
    let mut i: usize = 0;
    assert(lv.take(0) == Seq::<Seq<char>>::empty());
    while i < lines.len()
        invariant
            i <= lines.len(),
            lv == string_views(lines@),
            string_views(r@) == list_nodes(lv.take(i as int)),
        decreases lines.len() - i,
    {
        assert(lv.take(i + 1).drop_last() == lv.take(i as int));
        assert(lv.take(i + 1).last() == lines@[i as int]@);
        let line = chars_of(lines[i].as_str());
        match node_of_line(&line) {
            Some(n) => r.push(string_of(&n)),
            None => {},
        }
        i += 1;
    }
    assert(lv.take(lines.len() as int) == lv);
    r
}

/// What `diskutil info` says of a disk.
pub struct DiskInfo {
    pub optical: bool,
    pub ejectable: bool,
    pub removable: bool,
    pub volume_name: String,
}

/// The abstract value of a `DiskInfo`.
pub struct DiskInfoView {
    pub optical: bool,
    pub ejectable: bool,
    pub removable: bool,
    pub volume_name: Seq<char>,
}

impl View for DiskInfo {
    type V = DiskInfoView;

    open spec fn view(&self) -> DiskInfoView {
        DiskInfoView {
            optical: self.optical,
            ejectable: self.ejectable,
            removable: self.removable,
            volume_name: self.volume_name@,
        }
    }
}

/// One line of `diskutil info` output read into what is known so far.
pub open spec fn info_line(d: DiskInfoView, line: Seq<char>) -> DiskInfoView {
    let t = trim(line);
    if starts_with(t, "Optical Drive Type:"@) || starts_with(t, "Optical Media Type:"@) {
        DiskInfoView { optical: true, ..d }
    } else if starts_with(t, "Ejectable:"@) {
        DiskInfoView {
            ejectable: eq_ignore_ascii_case(trim(t.skip("Ejectable:"@.len() as int)), "Yes"@),
            ..d
        }
    } else if starts_with(t, "Removable Media:"@) {
        DiskInfoView {
            removable: eq_ignore_ascii_case(
                trim(t.skip("Removable Media:"@.len() as int)),
                "Removable"@,
            ),
            ..d
        }
    } else if starts_with(t, "Volume Name:"@) {
        let v = trim(t.skip("Volume Name:"@.len() as int));
        if v.len() > 0 && v != "Not applicable"@ {
            DiskInfoView { volume_name: v, ..d }
        } else {
            d
        }
    } else {
        d
    }
}

/// The lines of `diskutil info` output read in order.
pub open spec fn info_lines(d: DiskInfoView, lines: Seq<Seq<char>>) -> DiskInfoView
    decreases lines.len(),
{
    if lines.len() == 0 {
        d
    } else {
        info_line(info_lines(d, lines.drop_last()), lines.last())
    }
}

pub open spec fn empty_info() -> DiskInfoView {
    DiskInfoView { optical: false, ejectable: false, removable: false, volume_name: Seq::empty() }
}

fn rest_after(t: &[char], p: &str) -> (r: Vec<char>)
    requires
        starts_with(t@, p@),
    ensures
        r@ == trim(t@.skip(p@.len() as int)),
{
    let pc = chars_of(p);
    let rest = slice_chars(t, pc.len(), t.len());
    assert(rest@ == t@.skip(p@.len() as int));
    trimmed(&rest)
}

impl DiskInfo {
    /// Reads the lines of `diskutil info` output.
    pub fn parse(lines: &[String]) -> (r: DiskInfo)
        ensures
            r@ == info_lines(empty_info(), string_views(lines@)),
    {
        let ghost lv = string_views(lines@);
        let mut d = DiskInfo {
            optical: false,
            ejectable: false,
            removable: false,
            volume_name: String::new(),
        };
        let mut i: usize = 0;
        assert(lv.take(0) == Seq::<Seq<char>>::empty());
        while i < lines.len()
            invariant
                i <= lines.len(),
                lv == string_views(lines@),
                d@ == info_lines(empty_info(), lv.take(i as int)),
            decreases lines.len() - i,
        {
            assert(lv.take(i + 1).drop_last() == lv.take(i as int));
            assert(lv.take(i + 1).last() == lines@[i as int]@);
            let line = chars_of(lines[i].as_str());
            let t = trimmed(&line);
            if starts_with_str(&t, "Optical Drive Type:") || starts_with_str(&t, "Optical Media Type:") {
                d.optical = true;
            } else if starts_with_str(&t, "Ejectable:") {
                let v = rest_after(&t, "Ejectable:");
                d.ejectable = equals_ignore_ascii_case(&v, &chars_of("Yes"));
            } else if starts_with_str(&t, "Removable Media:") {
                let v = rest_after(&t, "Removable Media:");
                d.removable = equals_ignore_ascii_case(&v, &chars_of("Removable"));
            } else if starts_with_str(&t, "Volume Name:") {
                let v = rest_after(&t, "Volume Name:");
                if v.len() > 0 && !equals(&v, &chars_of("Not applicable")) {
                    d.volume_name = string_of(&v);
                }
            }
            i += 1;
        }
        assert(lv.take(lines.len() as int) == lv);
        d
    }
}

/// The drives among the disks `diskutil` reported (node and what `diskutil info` said):
/// the optical ones, or, when there are none, the ejectable removable ones.
pub open spec fn spec_choose_drives(disks: Seq<(Seq<char>, DiskInfoView)>) -> Seq<(Seq<char>, Seq<char>)> {
    let optical = disks.filter(|d: (Seq<char>, DiskInfoView)| d.1.optical);
    let fallback = disks.filter(
        |d: (Seq<char>, DiskInfoView)| !d.1.optical && d.1.ejectable && d.1.removable,
    );
    let chosen = if optical.len() > 0 {
        optical
    } else {
        fallback
    };
    chosen.map_values(|d: (Seq<char>, DiskInfoView)| (d.0, d.1.volume_name))
}

pub open spec fn disk_views(disks: Seq<(String, DiskInfo)>) -> Seq<(Seq<char>, DiskInfoView)> {
    disks.map_values(|d: (String, DiskInfo)| (d.0@, d.1@))
}

/// Chooses the drives among the disks `diskutil` reported (see `spec_choose_drives`), unsorted.
pub fn choose_drives(disks: &[(String, DiskInfo)]) -> (r: Vec<(String, String)>)
    ensures
        drive_views(r@) == spec_choose_drives(disk_views(disks@)),
{
    let ghost dv = disk_views(disks@);
    let ghost po = |d: (Seq<char>, DiskInfoView)| d.1.optical;
    let ghost pf = |d: (Seq<char>, DiskInfoView)| !d.1.optical && d.1.ejectable && d.1.removable;
    let ghost proj = |d: (Seq<char>, DiskInfoView)| (d.0, d.1.volume_name);
    let mut drives: Vec<(String, String)> = Vec::new();
    let mut fallback: Vec<(String, String)> = Vec::new();
    let mut i: usize = 0;
    assert(dv.take(0) == Seq::<(Seq<char>, DiskInfoView)>::empty());
    while i < disks.len()
        invariant
            i <= disks.len(),
            dv == disk_views(disks@),
            po == (|d: (Seq<char>, DiskInfoView)| d.1.optical),
            pf == (|d: (Seq<char>, DiskInfoView)| !d.1.optical && d.1.ejectable && d.1.removable),
            proj == (|d: (Seq<char>, DiskInfoView)| (d.0, d.1.volume_name)),
            drive_views(drives@) == dv.take(i as int).filter(po).map_values(proj),
            drive_views(fallback@) == dv.take(i as int).filter(pf).map_values(proj),
        decreases disks.len() - i,
    {
        let ghost x = dv[i as int];
        proof {
            reveal_with_fuel(Seq::filter, 1);
            assert(dv.take(i + 1).drop_last() == dv.take(i as int));
            assert(dv.take(i + 1).last() == x);
        }
        let entry = (disks[i].0.clone(), disks[i].1.volume_name.clone());
        assert((entry.0@, entry.1@) == proj(x));
        proof {
            let a = dv.take(i as int).filter(po);
            let b = dv.take(i as int).filter(pf);
            assert(a.push(x).map_values(proj) == a.map_values(proj).push(proj(x)));
            assert(b.push(x).map_values(proj) == b.map_values(proj).push(proj(x)));
        }
        if disks[i].1.optical {
            drives.push(entry);
            assert(dv.take(i + 1).filter(po) == dv.take(i as int).filter(po).push(x));
            assert(dv.take(i + 1).filter(pf) == dv.take(i as int).filter(pf));
        } else if disks[i].1.ejectable && disks[i].1.removable {
            fallback.push(entry);
            assert(dv.take(i + 1).filter(po) == dv.take(i as int).filter(po));
            assert(dv.take(i + 1).filter(pf) == dv.take(i as int).filter(pf).push(x));
        } else {
            assert(dv.take(i + 1).filter(po) == dv.take(i as int).filter(po));
            assert(dv.take(i + 1).filter(pf) == dv.take(i as int).filter(pf));
        }
        i += 1;
    }
    assert(dv.take(disks.len() as int) == dv);
    if drives.len() == 0 {
        fallback
    } else {
        drives
    }
}

/// What a SCSI device's `type` file says of an optical drive (type 5).
pub fn is_cdrom_type(contents: &str) -> (b: bool)
    ensures
        b == (trim(contents@) == "5"@),
{
    let c = chars_of(contents);
    let t = trimmed(&c);
    equals(&t, &chars_of("5"))
}

/// A device name `prefix` followed only by ASCII digits (possibly none).
pub open spec fn dev_name_with(name: Seq<char>, prefix: Seq<char>) -> bool {
    starts_with(name, prefix) && forall|i: int|
        prefix.len() <= i < name.len() ==> is_digit(#[trigger] name[i])
}

/// Whether `/dev/<name>` is a generic SCSI device (`sgN`) or an optical block device (`srN`).
pub fn dev_name_kind(name: &str) -> (r: (bool, bool))
    ensures
        r.0 == dev_name_with(name@, "sg"@),
        r.1 == dev_name_with(name@, "sr"@),
{
    proof {
        reveal_strlit("sg");
        reveal_strlit("sr");
    }
    let c = chars_of(name);
    let sg = starts_with_str(&c, "sg");
    let sr = starts_with_str(&c, "sr");
    if !sg && !sr {
        return (false, false);
    }
    let mut i: usize = 2;
    while i < c.len()
        invariant
            2 <= i <= c.len(),
            c@ == name@,
            sg == starts_with(name@, "sg"@),
            sr == starts_with(name@, "sr"@),
            sg || sr,
            "sg"@.len() == 2 && "sr"@.len() == 2,
            forall|k: int| 2 <= k < i ==> is_digit(#[trigger] c@[k]),
        decreases c.len() - i,
    {
        if !('0' <= c[i] && c[i] <= '9') {
            return (false, false);
        }
        i += 1;
    }
    (sg, sr)
}

/// Whether drive letter number `i` (0 for `A`) is set in a logical drive mask.
pub open spec fn mask_has(mask: u32, i: nat) -> bool {
    mask & (1u32 << (i as u32)) != 0
}

/// The drive letters among the first `n` whose bits are set in `mask`, in order.
pub open spec fn mask_letters(mask: u32, n: nat) -> Seq<char>
    decreases n,
{
    if n == 0 {
        Seq::empty()
    } else {
        mask_letters(mask, (n - 1) as nat) + if mask_has(mask, (n - 1) as nat) {
            seq![((65 + n - 1) as u8) as char]
        } else {
            Seq::empty()
        }
    }
}

/// The drive letters `A` to `Z` present in a logical drive mask.
pub fn drive_letters(mask: u32) -> (r: Vec<char>)
    ensures
        r@ == mask_letters(mask, 26),
{
    let mut r: Vec<char> = Vec::new();
    let mut i: u32 = 0;
    while i < 26
        invariant
            i <= 26,
            r@ == mask_letters(mask, i as nat),
        decreases 26 - i,
    {
        if mask & (1u32 << i) != 0 {
            r.push(((65 + i) as u8) as char);
        }
        i += 1;
    }
    r
}

/// The length of a volume label in a zero-terminated buffer: up to the first zero
/// byte, and zero when there is none.
pub fn volume_label_len(buf: &[u8]) -> (r: usize)
    ensures
        r <= buf@.len(),
        (exists|i: int| 0 <= i < buf@.len() && buf@[i] == 0) ==> buf@[r as int] == 0 && forall|
            j: int,
        | 0 <= j < r ==> buf@[j] != 0,
        !(exists|i: int| 0 <= i < buf@.len() && buf@[i] == 0) ==> r == 0,
{
    let mut i: usize = 0;
    while i < buf.len()
        invariant
            i <= buf.len(),
            forall|j: int| 0 <= j < i ==> buf@[j] != 0,
        decreases buf.len() - i,
    {
        if buf[i] == 0 {
            return i;
        }
        i += 1;
    }
    0
}

/// The device path of a name under `/dev`.
pub open spec fn dev_path(name: Seq<char>) -> Seq<char> {
    "/dev/"@ + name
}

/// The drive that an optical SCSI device found in sysfs stands for, from the first
/// entry of its `scsi_generic` directory and the first entry of its `block` directory:
/// the generic SCSI device when there is one, with no volume label to ask for;
/// else the block device, whose volume label `lsblk` is then asked for (the `bool`);
/// `None` when it has neither.
pub fn sysfs_drive(scsi_generic: Option<&str>, block: Option<&str>) -> (r: Option<(String, bool)>)
    ensures
        match scsi_generic {
            Some(sg) => r matches Some((p, ask)) && p@ == dev_path(sg@) && !ask,
            None => match block {
                Some(b) => r matches Some((p, ask)) && p@ == dev_path(b@) && ask,
                None => r is None,
            },
        },
{
    match scsi_generic {
        Some(sg) => Some((joined("/dev/", &chars_of(sg)), false)),
        None => match block {
            Some(b) => Some((joined("/dev/", &chars_of(b)), true)),
            None => None,
        },
    }
}

/// The drive that an entry of `/dev` stands for when sysfs lists none: a generic
/// SCSI device `sgN`, with no volume label to ask for, or an optical block device
/// `srN`, whose volume label `lsblk` is then asked for (the `bool`); `None` for any
/// other name.
pub fn dev_scan_drive(name: &str) -> (r: Option<(String, bool)>)
    ensures
        (dev_name_with(name@, "sg"@) || dev_name_with(name@, "sr"@)) ==> (r matches Some((p, ask))
            && p@ == dev_path(name@) && ask == dev_name_with(name@, "sr"@)),
        !(dev_name_with(name@, "sg"@) || dev_name_with(name@, "sr"@)) ==> r is None,
{
    let (is_sg, is_sr) = dev_name_kind(name);
    if is_sg || is_sr {
        Some((joined("/dev/", &chars_of(name)), is_sr))
    } else {
        None
    }
}

/// The volume label in what `lsblk -d -n -o LABEL` printed for a device: the
/// output without its surrounding whitespace (empty when there is no label).
pub fn lsblk_label(output: &str) -> (r: String)
    ensures
        r@ == trim(output@),
{
    string_of(&trimmed(&chars_of(output)))
}

} // verus!

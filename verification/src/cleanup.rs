//! Which files of a finished dump are deleted, compressed or archived.
use vstd::prelude::*;

use crate::text::{
    chars_of, ends_with, eq_ignore_ascii_case, equals_ignore_ascii_case_str, equals_str, has_prefix,
    has_suffix, rfind, rfind_char, rfind_char_in, rfind_chars, slice_chars, starts_with,
    starts_with_str, str_views,
};

verus! {

/// Spillover tracks up to this size (150 sectors) are compressed.
pub const SPILLOVER_MAX_BYTES: u64 = 352800;

/// The suffixes of temporary files to delete: the cache always, the scrambled CD
/// image once a cue sheet exists, the scrambled DVD and BD images once an ISO exists.
pub open spec fn spec_delete_suffixes(has_cue: bool, has_iso: bool) -> Seq<Seq<char>> {
    seq![".cache"@] + (if has_cue {
        seq![".scram"@]
    } else {
        Seq::empty()
    }) + (if has_iso {
        seq![".sdram"@, ".sbram"@]
    } else {
        Seq::empty()
    })
}

/// The suffixes (after the image name) of temporary files to delete.
pub fn delete_suffixes(has_cue: bool, has_iso: bool) -> (r: Vec<&'static str>)
    ensures
        str_views(r@) == spec_delete_suffixes(has_cue, has_iso),
{
    let mut r: Vec<&'static str> = Vec::new();
    r.push(".cache");
    if has_cue {
        r.push(".scram");
    }
    if has_iso {
        r.push(".sdram");
        r.push(".sbram");
    }
    assert(str_views(r@) == spec_delete_suffixes(has_cue, has_iso));
    r
}

/// The extensions of files compressed with zstd.
pub fn zstd_extensions() -> (r: Vec<&'static str>)
    ensures
        str_views(r@) == seq!["state"@, "skeleton"@, "subcode"@],
{
    let r = vec!["state", "skeleton", "subcode"];
    assert(str_views(r@) == seq!["state"@, "skeleton"@, "subcode"@]);
    r
}

/// The track a file named `... (Track N).bin` holds.
pub open spec fn track_of(name: Seq<char>) -> Option<Seq<char>> {
    if !ends_with(name, ").bin"@) {
        None
    } else {
        match rfind(name, "(Track "@) {
            None => None,
            Some(i) => {
                let rest = name.skip(i + 7);
                if ends_with(rest, ").bin"@) {
                    Some(rest.take(rest.len() - 5))
                } else {
                    None
                }
            },
        }
    }
}

/// A lead-in or lead-out track (`0`, `00`, `A`, `AA`, or a sub-track of one).
pub open spec fn is_spillover(track: Seq<char>) -> bool {
    ||| track == "0"@
    ||| track == "00"@
    ||| track == "A"@
    ||| track == "AA"@
    ||| starts_with(track, "0."@)
    ||| starts_with(track, "A."@)
    ||| starts_with(track, "00."@)
    ||| starts_with(track, "AA."@)
}

pub open spec fn spec_spillover_track(name: Seq<char>) -> bool {
    match track_of(name) {
        Some(t) => is_spillover(t),
        None => false,
    }
}

/// Whether the file named `name` holds a spillover track (which is compressed when small).
pub fn is_spillover_track(name: &str) -> (b: bool)
    ensures
        b == spec_spillover_track(name@),
{
    let n = chars_of(name);
    let bin = chars_of(").bin");
    if !has_suffix(&n, &bin) {
        return false;
    }
    let pat = chars_of("(Track ");
    proof {
        reveal_strlit("(Track ");
        reveal_strlit(").bin");
        crate::text::lemma_rfind_from_occurs(n@, pat@, n@.len() - pat@.len());
    }
    let len = n.len();
    let i = match rfind_chars(&n, &pat) {
        Some(i) => i,
        None => return false,
    };
    let rest = slice_chars(&n, i + 7, len);
    assert(rest@ == n@.skip(i + 7));
    if !has_suffix(&rest, &bin) {
        return false;
    }
    let t = slice_chars(&rest, 0, rest.len() - 5);
    assert(t@ == rest@.take(rest@.len() - 5));
    equals_str(&t, "0") || equals_str(&t, "00") || equals_str(&t, "A") || equals_str(&t, "AA") || starts_with_str(
        &t,
        "0.",
    ) || starts_with_str(&t, "A.") || starts_with_str(&t, "00.") || starts_with_str(&t, "AA.")
}

/// The extension of a file name (what `Path::extension` gives): the text after the
/// last `.`, unless there is no `.` or the only one starts the name.
pub open spec fn extension(name: Seq<char>) -> Option<Seq<char>> {
    match rfind_char(name, '.') {
        None => None,
        Some(i) => if i == 0 {
            None
        } else {
            Some(name.skip(i + 1))
        },
    }
}

/// The extension, compared without ASCII case, is one of `exts`.
pub open spec fn extension_in(name: Seq<char>, exts: Seq<Seq<char>>) -> bool {
    match extension(name) {
        None => false,
        Some(e) => exists|k: int| 0 <= k < exts.len() && eq_ignore_ascii_case(e, #[trigger] exts[k]),
    }
}

/// Whether a file of the dump goes into the logs archive: it belongs to the dump,
/// is not an image (`bin`, `cue`, `iso`) and is not the archive itself.
/// Extensions are compared without case; for these extensions that is the same
/// as comparing their Unicode lowercase forms.
pub open spec fn spec_zip_includes(name: Seq<char>, image_name: Seq<char>, is_archive: bool) -> bool {
    starts_with(name, image_name) && !extension_in(name, seq!["bin"@, "cue"@, "iso"@]) && !is_archive
}

fn extension_exec(name: &[char]) -> (r: Option<Vec<char>>)
    ensures
        match extension(name@) {
            None => r is None,
            Some(e) => r matches Some(x) && x@ == e,
        },
{
    proof {
        crate::progress::lemma_rfind_char_bound(name@, '.');
    }
    let n = name.len();
    match rfind_char_in(name, '.') {
        None => None,
        Some(i) => if i == 0 {
            None
        } else {
            Some(slice_chars(name, i + 1, n))
        },
    }
}

/// Whether the file `name` goes into the logs archive of `image_name`.
pub fn zip_includes(name: &str, image_name: &str, is_archive: bool) -> (b: bool)
    ensures
        b == spec_zip_includes(name@, image_name@, is_archive),
{
    let n = chars_of(name);
    let im = chars_of(image_name);
    if !has_prefix(&n, &im) || is_archive {
        return false;
    }
    let keep = match extension_exec(&n) {
        None => false,
        Some(e) => equals_ignore_ascii_case_str(&e, "bin") || equals_ignore_ascii_case_str(&e, "cue") || equals_ignore_ascii_case_str(&e, "iso"),
    };
    proof {
        let exts = seq!["bin"@, "cue"@, "iso"@];
        if let Some(e) = extension(n@) {
            if eq_ignore_ascii_case(e, "bin"@) {
                assert(eq_ignore_ascii_case(e, exts[0]));
            }
            if eq_ignore_ascii_case(e, "cue"@) {
                assert(eq_ignore_ascii_case(e, exts[1]));
            }
            if eq_ignore_ascii_case(e, "iso"@) {
                assert(eq_ignore_ascii_case(e, exts[2]));
            }
        }
    }
    !keep
}

/// Whether an archived file is kept next to the archive: logs stay, the rest is deleted.
pub fn keep_after_zip(name: &str) -> (b: bool)
    ensures
        b == extension_in(name@, seq!["log"@]),
{
    let n = chars_of(name);
    let keep = match extension_exec(&n) {
        None => false,
        Some(e) => equals_ignore_ascii_case_str(&e, "log"),
    };
    proof {
        if let Some(e) = extension(n@) {
            if eq_ignore_ascii_case(e, "log"@) {
                assert(eq_ignore_ascii_case(e, seq!["log"@][0]));
            }
        }
    }
    keep
}

} // verus!

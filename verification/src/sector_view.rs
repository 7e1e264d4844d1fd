//! What the sector map panel shows: one box per group of sectors, and the counts.
use vstd::prelude::*;

use crate::progress::SectorStatus;

verus! {

/// The color role of one box of the sector map.
#[derive(Clone, Copy, PartialEq, Eq, Debug, Structural)]
pub enum BoxColor {
    /// Some sector of the box is bad.
    Bad,
    /// No sector is bad and some is unread.
    Unread,
    /// Every sector was read without error.
    Good,
    /// The box marks the hashing progress.
    Hash,
}

/// The color of the box covering sectors `lo..hi`.
pub open spec fn box_of(s: Seq<SectorStatus>, lo: int, hi: int) -> BoxColor {
    if exists|j: int| lo <= j < hi && s[j] == SectorStatus::Error {
        BoxColor::Bad
    } else if exists|j: int| lo <= j < hi && s[j] == SectorStatus::Unread {
        BoxColor::Unread
    } else {
        BoxColor::Good
    }
}

/// Box `i` covers `sectors_per_box` sectors from `i * sectors_per_box`, cut at the end of the map.
pub open spec fn box_end(len: int, i: int, spb: int) -> int {
    if (i + 1) * spb < len {
        (i + 1) * spb
    } else {
        len
    }
}

pub open spec fn box_colors(s: Seq<SectorStatus>, spb: nat, num_boxes: nat) -> Seq<BoxColor> {
    Seq::new(num_boxes, |i: int| box_of(s, i * spb, box_end(s.len() as int, i, spb as int)))
}

/// The boxes marking hashing progress at `pct` percent: from `pct` percent of the
/// boxes on, one percent of them (at least one box, at most the rest).
pub open spec fn hash_range(n: nat, pct: nat) -> (int, int) {
    let hb = (pct * n) / 100;
    let per: int = if n / 100 > 1 {
        (n / 100) as int
    } else {
        1
    };
    let cnt: int = if per < n - hb {
        per
    } else {
        n - hb
    };
    (hb as int, hb + cnt)
}

pub open spec fn with_hash(c: Seq<BoxColor>, pct: Option<u8>) -> Seq<BoxColor> {
    match pct {
        None => c,
        Some(p) => {
            let (lo, hi) = hash_range(c.len(), p as nat);
            Seq::new(c.len(), |i: int| if lo <= i < hi { BoxColor::Hash } else { c[i] })
        },
    }
}

pub open spec fn count_color(c: Seq<BoxColor>, k: BoxColor) -> nat
    decreases c.len(),
{
    if c.len() == 0 {
        0
    } else {
        count_color(c.drop_last(), k) + if c.last() == k {
            1nat
        } else {
            0nat
        }
    }
}

pub open spec fn count_status(s: Seq<SectorStatus>, k: SectorStatus) -> nat
    decreases s.len(),
{
    if s.len() == 0 {
        0
    } else {
        count_status(s.drop_last(), k) + if s.last() == k {
            1nat
        } else {
            0nat
        }
    }
}

proof fn lemma_count_status_bound(s: Seq<SectorStatus>, k: SectorStatus)
    ensures
        count_status(s, k) <= s.len(),
    decreases s.len(),
{
    if s.len() > 0 {
        lemma_count_status_bound(s.drop_last(), k);
    }
}

proof fn lemma_count_color_bound(c: Seq<BoxColor>, k: BoxColor)
    ensures
        count_color(c, k) <= c.len(),
    decreases c.len(),
{
    if c.len() > 0 {
        lemma_count_color_bound(c.drop_last(), k);
    }
}

fn box_of_exec(s: &[SectorStatus], lo: usize, hi: usize) -> (r: BoxColor)
    requires
        lo <= hi <= s.len(),
    ensures
        r == box_of(s@, lo as int, hi as int),
{
    let mut has_error = false;
    let mut has_unread = false;
    let mut j = lo;
    while j < hi
        invariant
            lo <= j <= hi <= s.len(),
            has_error == exists|k: int| lo <= k < j && s@[k] == SectorStatus::Error,
            has_unread == exists|k: int| lo <= k < j && s@[k] == SectorStatus::Unread,
        decreases hi - j,
    {
        if s[j] == SectorStatus::Error {
            has_error = true;
        } else if s[j] == SectorStatus::Unread {
            has_unread = true;
        }
        j += 1;
    }
    if has_error {
        BoxColor::Bad
    } else if has_unread {
        BoxColor::Unread
    } else {
        BoxColor::Good
    }
}

/// The colors of the sector map boxes, and how many boxes hold a bad sector.
pub fn update_box_colors(
    sectors: &[SectorStatus],
    sectors_per_box: usize,
    num_boxes: usize,
    hash_pct: Option<u8>,
) -> (r: (Vec<BoxColor>, usize))
    requires
        num_boxes * sectors_per_box <= usize::MAX,
        num_boxes == 0 || (num_boxes - 1) * sectors_per_box <= sectors@.len(),
        hash_pct matches Some(p) ==> p * num_boxes <= usize::MAX && (p * num_boxes) / 100
            <= num_boxes,
    ensures
        r.0@ == with_hash(
            box_colors(sectors@, sectors_per_box as nat, num_boxes as nat),
            hash_pct,
        ),
        r.1 == count_color(
            box_colors(sectors@, sectors_per_box as nat, num_boxes as nat),
            BoxColor::Bad,
        ),
{
    let ghost all = box_colors(sectors@, sectors_per_box as nat, num_boxes as nat);
    let n = sectors.len();
    let mut colors: Vec<BoxColor> = Vec::new();
    let mut error_count: usize = 0;
    let mut i: usize = 0;
    let mut start: usize = 0;
    assert(all.take(0) == Seq::<BoxColor>::empty());
    while i < num_boxes
        invariant
            n == sectors@.len(),
            num_boxes * sectors_per_box <= usize::MAX,
            num_boxes == 0 || (num_boxes - 1) * sectors_per_box <= n,
            all == box_colors(sectors@, sectors_per_box as nat, num_boxes as nat),
            i <= num_boxes,
            start == i * sectors_per_box,
            colors@ == all.take(i as int),
            error_count == count_color(all.take(i as int), BoxColor::Bad),
            error_count <= i,
        decreases num_boxes - i,
    {
        proof {
            assert((i + 1) * sectors_per_box == i * sectors_per_box + sectors_per_box)
                by (nonlinear_arith);
            assert((i + 1) * sectors_per_box <= num_boxes * sectors_per_box) by (nonlinear_arith)
                requires
                    i + 1 <= num_boxes,
            ;
            assert(i * sectors_per_box <= (num_boxes - 1) * sectors_per_box) by (nonlinear_arith)
                requires
                    i <= num_boxes - 1,
            ;
        }
        let next = start + sectors_per_box;
        let end = if next < n {
            next
        } else {
            n
        };
        let c = box_of_exec(sectors, start, end);
        assert(c == all[i as int]);
        assert(all.take(i + 1).drop_last() == all.take(i as int));
        colors.push(c);
        if c == BoxColor::Bad {
            error_count += 1;
        }
        i += 1;
        start = next;
    }
    assert(all.take(num_boxes as int) == all);
    if let Some(pct) = hash_pct {
        let hash_box = (pct as usize * num_boxes) / 100;
        let per = if num_boxes / 100 > 1 {
            num_boxes / 100
        } else {
            1
        };
        let count = if per < num_boxes - hash_box {
            per
        } else {
            num_boxes - hash_box
        };
        let ghost base = colors@;
        let mut j = hash_box;
        while j < hash_box + count
            invariant
                colors@.len() == base.len() == num_boxes,
                hash_box <= j <= hash_box + count <= num_boxes,
                forall|k: int|
                    0 <= k < num_boxes ==> colors@[k] == if hash_box <= k < j {
                        BoxColor::Hash
                    } else {
                        base[k]
                    },
            decreases hash_box + count - j,
        {
            colors[j] = BoxColor::Hash;
            j += 1;
        }
        assert(colors@ == with_hash(all, hash_pct));
    }
    (colors, error_count)
}

/// `2` to the power `k`.
pub open spec fn pow2(k: nat) -> nat
    decreases k,
{
    if k == 0 {
        1
    } else {
        2 * pow2((k - 1) as nat)
    }
}

/// `spb` is the smallest power of two with which `max_boxes` boxes cover `n` sectors.
pub open spec fn is_box_size(spb: nat, n: nat, max_boxes: nat) -> bool {
    exists|k: nat|
        #![trigger pow2(k)]
        spb == pow2(k) && spb * max_boxes >= n && (k == 0 || pow2((k - 1) as nat) * max_boxes < n)
}

proof fn lemma_pow2_positive(k: nat)
    ensures
        pow2(k) >= 1,
    decreases k,
{
    if k > 0 {
        lemma_pow2_positive((k - 1) as nat);
    }
}

/// How many sectors each box covers, and how many boxes there are, for `num_sectors`
/// sectors on room for `max_boxes` boxes.
fn fit_boxes(num_sectors: usize, max_boxes: usize) -> (r: Option<(usize, usize)>)
    requires
        max_boxes >= 1,
        num_sectors <= isize::MAX,
    ensures
        num_sectors == 0 ==> r is None,
        num_sectors > 0 ==> (r matches Some((spb, boxes)) && {
            &&& is_box_size(spb as nat, num_sectors as nat, max_boxes as nat)
            &&& (boxes - 1) * spb < num_sectors <= boxes * spb
            &&& boxes * spb <= usize::MAX
            &&& 1 <= boxes <= max_boxes
        }),
{
    if num_sectors == 0 {
        return None;
    }
    let need = (num_sectors - 1) / max_boxes + 1;
    proof {
        let n = num_sectors as int;
        let m = max_boxes as int;
        assert((n - 1) / m * m <= n - 1) by (nonlinear_arith)
            requires
                m >= 1,
                n >= 1,
        ;
        assert(n - 1 < ((n - 1) / m + 1) * m) by (nonlinear_arith)
            requires
                m >= 1,
                n >= 1,
        ;
        assert((n - 1) / m <= n - 1) by (nonlinear_arith)
            requires
                m >= 1,
                n >= 1,
        ;
    }
    let mut spb: usize = 1;
    let ghost mut k: nat = 0;
    while spb < need
        invariant
            1 <= need <= num_sectors <= isize::MAX,
            max_boxes >= 1,
            need as int == (num_sectors as int - 1) / (max_boxes as int) + 1,
            spb as nat == pow2(k),
            spb >= 1,
            k == 0 || pow2((k - 1) as nat) < need,
            spb <= 2 * need,
        decreases 2 * need - spb,
    {
        spb = spb * 2;
        proof {
            k = k + 1;
        }
    }
    proof {
        let n = num_sectors as int;
        let m = max_boxes as int;
        let p = spb as int;
        // `spb * max_boxes >= n` exactly when `spb >= need`.
        assert(p * m >= n) by (nonlinear_arith)
            requires
                p >= (n - 1) / m + 1,
                m >= 1,
                n >= 1,
                n - 1 < ((n - 1) / m + 1) * m,
        ;
        if k > 0 {
            let q = pow2((k - 1) as nat) as int;
            assert(q * m < n) by (nonlinear_arith)
                requires
                    q < (n - 1) / m + 1,
                    q >= 0,
                    m >= 1,
                    n >= 1,
                    (n - 1) / m * m <= n - 1,
            ;
        }
        assert(is_box_size(spb as nat, num_sectors as nat, max_boxes as nat));
    }
    let boxes = (num_sectors - 1) / spb + 1;
    proof {
        let n = num_sectors as int;
        let m = max_boxes as int;
        let p = spb as int;
        let b = boxes as int;
        assert((n - 1) / p * p <= n - 1 && n - 1 < ((n - 1) / p + 1) * p) by (nonlinear_arith)
            requires
                p >= 1,
                n >= 1,
        ;
        assert((b - 1) * p < n <= b * p) by (nonlinear_arith)
            requires
                b == (n - 1) / p + 1,
                (n - 1) / p * p <= n - 1,
                n - 1 < ((n - 1) / p + 1) * p,
        ;
        assert(b <= m) by (nonlinear_arith)
            requires
                b == (n - 1) / p + 1,
                (n - 1) / p * p <= n - 1,
                p * m >= n,
                p >= 1,
                m >= 1,
        ;
        assert(b * p <= usize::MAX) by (nonlinear_arith)
            requires
                (b - 1) * p < n,
                n <= isize::MAX,
                p <= 2 * n,
                isize::MAX * 2 < usize::MAX,
        ;
    }
    Some((spb, boxes))
}

/// A count of rows or columns with no room still holds one box.
pub open spec fn at_least_one(n: usize) -> nat {
    if n < 1 {
        1
    } else {
        n as nat
    }
}

/// The layout of the sector map for `num_sectors` sectors on a grid with room for
/// `max_cols` by `max_rows` boxes (at least one of each): each box covers the
/// smallest power of two of sectors that fits them all in, and there are just
/// enough boxes for every sector; `None` with no sectors.
pub fn sector_layout(num_sectors: usize, max_cols: usize, max_rows: usize) -> (r: Option<
    (usize, usize),
>)
    requires
        num_sectors <= isize::MAX,
        at_least_one(max_cols) * at_least_one(max_rows) <= usize::MAX,
    ensures
        num_sectors == 0 ==> r is None,
        num_sectors > 0 ==> (r matches Some((spb, boxes)) && {
            let max_boxes = at_least_one(max_cols) * at_least_one(max_rows);
            &&& is_box_size(spb as nat, num_sectors as nat, max_boxes)
            &&& (boxes - 1) * spb < num_sectors <= boxes * spb
            &&& boxes * spb <= usize::MAX
            &&& 1 <= boxes <= max_boxes
        }),
{
    let cols: usize = if max_cols < 1 {
        1
    } else {
        max_cols
    };
    let rows: usize = if max_rows < 1 {
        1
    } else {
        max_rows
    };
    assert(cols * rows >= 1) by (nonlinear_arith)
        requires
            cols >= 1,
            rows >= 1,
    ;
    fit_boxes(num_sectors, cols * rows)
}

/// The number of good, bad and unread sectors.
pub fn sector_counts(sectors: &[SectorStatus]) -> (r: (usize, usize, usize))
    ensures
        r.0 == count_status(sectors@, SectorStatus::Good),
        r.1 == count_status(sectors@, SectorStatus::Error),
        r.2 == count_status(sectors@, SectorStatus::Unread),
{
    let mut good: usize = 0;
    let mut bad: usize = 0;
    let mut unread: usize = 0;
    let mut i: usize = 0;
    let n = sectors.len();
    assert(sectors@.take(0) == Seq::<SectorStatus>::empty());
    while i < n
        invariant
            n == sectors@.len(),
            i <= n,
            good == count_status(sectors@.take(i as int), SectorStatus::Good),
            bad == count_status(sectors@.take(i as int), SectorStatus::Error),
            unread == count_status(sectors@.take(i as int), SectorStatus::Unread),
            good + bad + unread == i,
        decreases n - i,
    {
        assert(sectors@.take(i + 1).drop_last() == sectors@.take(i as int));
        match sectors[i] {
            SectorStatus::Good => good += 1,
            SectorStatus::Error => bad += 1,
            SectorStatus::Unread => unread += 1,
        }
        i += 1;
    }
    assert(sectors@.take(n as int) == sectors@);
    (good, bad, unread)
}

} // verus!

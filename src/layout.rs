//! The frame layout: a margin taken off the viewport, then a vertical split of
//! what is left into bands sized by percentages.

use vstd::prelude::*;

verus! {

/// A rectangle of terminal cells.
#[derive(Debug, Clone, Copy, PartialEq, Eq, Structural)]
pub struct Area {
    pub x: u16,
    pub y: u16,
    pub width: u16,
    pub height: u16,
}

/// The part of `a` inside a margin of `m` cells on every side; an area too
/// small for the margin leaves nothing.
pub open spec fn inner_spec(a: Area, m: u16) -> Area {
    if a.width < 2 * m || a.height < 2 * m {
        Area { x: 0, y: 0, width: 0, height: 0 }
    } else {
        Area {
            x: (a.x + m) as u16,
            y: (a.y + m) as u16,
            width: (a.width - 2 * m) as u16,
            height: (a.height - 2 * m) as u16,
        }
    }
}

/// The sum of a sequence of sizes.
pub open spec fn total(s: Seq<nat>) -> nat
    decreases s.len(),
{
    if s.len() == 0 {
        0
    } else {
        total(s.drop_last()) + s.last()
    }
}

/// A percentage of `height`, rounded down, with the percentage clamped to 100.
pub open spec fn share(height: nat, percent: u16) -> nat {
    height * (if percent > 100 { 100nat } else { percent as nat }) / 100
}

/// The heights of the first `k` bands when `height` rows are split by
/// `percents`: each band takes its share of the whole, or what is left if that
/// is less, and the last band takes everything that is left.
pub open spec fn heights_upto(height: nat, percents: Seq<u16>, k: nat) -> Seq<nat>
    decreases k,
{
    if k == 0 {
        seq![]
    } else {
        let before = heights_upto(height, percents, (k - 1) as nat);
        let left = (height - total(before)) as nat;
        let h = if k == percents.len() {
            left
        } else if share(height, percents[k - 1]) < left {
            share(height, percents[k - 1])
        } else {
            left
        };
        before.push(h)
    }
}

/// The height of band `i`.
pub open spec fn band_height(height: nat, percents: Seq<u16>, i: nat) -> nat {
    heights_upto(height, percents, i + 1)[i as int]
}

/// How far below the top of the split band `i` starts.
pub open spec fn band_offset(height: nat, percents: Seq<u16>, i: nat) -> nat {
    total(heights_upto(height, percents, i))
}

/// Shrinks `a` by a margin of `m` cells on every side.
pub fn inner(a: Area, m: u16) -> (r: Area)
    requires
        a.x + m <= u16::MAX,
        a.y + m <= u16::MAX,
    ensures
        r == inner_spec(a, m),
{
    let twice: u32 = 2 * (m as u32);
    if (a.width as u32) < twice || (a.height as u32) < twice {
        Area { x: 0, y: 0, width: 0, height: 0 }
    } else {
        Area {
            x: a.x + m,
            y: a.y + m,
            width: ((a.width as u32) - twice) as u16,
            height: ((a.height as u32) - twice) as u16,
        }
    }
}

/// Splits `a` top to bottom into one band per percentage, each as wide as `a`.
pub fn split_vertical(a: Area, percents: &Vec<u16>) -> (r: Vec<Area>)
    requires
        a.y + a.height <= u16::MAX,
    ensures
        r@.len() == percents@.len(),
        forall|i: int|
            0 <= i < r@.len() ==> {
                &&& (#[trigger] r@[i]).x == a.x
                &&& r@[i].width == a.width
                &&& r@[i].y == a.y + band_offset(a.height as nat, percents@, i as nat)
                &&& r@[i].height == band_height(a.height as nat, percents@, i as nat)
            },
{
    let ghost h = a.height as nat;
    let ghost ps = percents@;
    let n = percents.len();
    let mut bands: Vec<Area> = Vec::new();
    let mut used: u16 = 0;
    let mut i: usize = 0;
    while i < n
        invariant
            n == ps.len(),
            ps == percents@,
            h == a.height,
            a.y + a.height <= u16::MAX,
            i <= n,
            bands@.len() == i,
            used == total(heights_upto(h, ps, i as nat)),
            used <= a.height,
            forall|j: int|
                0 <= j < i ==> {
                    &&& (#[trigger] bands@[j]).x == a.x
                    &&& bands@[j].width == a.width
                    &&& bands@[j].y == a.y + band_offset(h, ps, j as nat)
                    &&& bands@[j].height == band_height(h, ps, j as nat)
                },
        decreases n - i,
    {
        let left: u16 = a.height - used;
        let p: u16 = if percents[i] > 100 {
            100
        } else {
            percents[i]
        };
        proof {
            assert((a.height as nat) * (p as nat) <= 65535 * 100) by (nonlinear_arith)
                requires
                    a.height <= 65535,
                    p <= 100,
            ;
        }
        let part: u32 = (a.height as u32) * (p as u32) / 100;
        let size: u16 = if i + 1 == n {
            left
        } else if part < left as u32 {
            part as u16
        } else {
            left
        };
        let ghost before = heights_upto(h, ps, i as nat);
        proof {
            lemma_bands_fit(h, ps, i as nat);
            assert(part == share(h, percents@[i as int]));
            let next = heights_upto(h, ps, (i + 1) as nat);
            assert(next == before.push(size as nat));
            assert(next.drop_last() =~= before);
            assert(total(next) == used + size);
            assert(next[i as int] == size);
        }
        bands.push(Area { x: a.x, y: a.y + used, width: a.width, height: size });
        used = used + size;
        i = i + 1;
    }
    bands
}

/// The bands of a split tile the area exactly: the first starts at the top,
/// each starts where the one before it ends, and together they are as high as
/// the area, for every height (none or one row included) and every percentages.
pub proof fn lemma_bands_partition(height: nat, percents: Seq<u16>)
    requires
        percents.len() > 0,
    ensures
        band_offset(height, percents, 0) == 0,
        forall|i: nat|
            i < percents.len() ==> band_offset(height, percents, i + 1) == band_offset(
                height,
                percents,
                i,
            ) + #[trigger] band_height(height, percents, i),
        band_offset(height, percents, percents.len()) == height,
{
    assert forall|i: nat| i < percents.len() implies band_offset(height, percents, i + 1)
        == band_offset(height, percents, i) + #[trigger] band_height(height, percents, i) by {
        lemma_bands_fit(height, percents, i);
        let next = heights_upto(height, percents, i + 1);
        assert(next.drop_last() =~= heights_upto(height, percents, i));
    }
    lemma_bands_fit(height, percents, percents.len());
    let n = percents.len();
    let all = heights_upto(height, percents, n);
    assert(all.drop_last() =~= heights_upto(height, percents, (n - 1) as nat));
}

/// There are `k` of the first `k` bands, and they never take more than the height.
proof fn lemma_bands_fit(height: nat, percents: Seq<u16>, k: nat)
    ensures
        heights_upto(height, percents, k).len() == k,
        total(heights_upto(height, percents, k)) <= height,
    decreases k,
{
    if k > 0 {
        lemma_bands_fit(height, percents, (k - 1) as nat);
        let next = heights_upto(height, percents, k);
        assert(next.drop_last() =~= heights_upto(height, percents, (k - 1) as nat));
    }
}

} // verus!

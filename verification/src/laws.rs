//! Geometric guarantees of the partition engine.
//!
//! [`fits`] characterizes the generation calls whose gaps and extents leave
//! every split room to place both halves inside the region being split: at
//! each level the extent along the split axis is at least two pixels, and
//! the inner gap of whichever half is pushed away from the region's origin
//! is smaller than that half's extent. On such calls the engine emits cells
//! that stay inside the canvas with positive extents and never overlap, and
//! with all inner gaps zero the cells tile the canvas exactly. (On
//! degenerate calls — a one-pixel extent split in two, or a gap swallowing
//! a whole half — the engine still emits one-pixel cells, but they may
//! protrude or overlap; such calls are excluded here.)
//!
//! Independently of any fit, the cells' areas always account for the whole
//! canvas minus what the gaps and clamps carve out ([`lemma_split_area`]):
//! the union of the cells plus the configured gaps reconstructs the canvas.

use vstd::arithmetic::div_mod::lemma_div_pos_is_pos;
use vstd::prelude::*;

use crate::engine::lemma_split_len;
use crate::engine::prime_extent;
use crate::engine::split_args;
use crate::engine::split_rects;
use crate::engine::sub_extent;
use crate::engine::SplitArgs;
use crate::rect::area;
use crate::rect::rect_in_region;
use crate::rect::rects_disjoint;
use crate::rect::region_contains_point;
use crate::rect::total_area;
use crate::rect::Region;
use crate::BSPLayout;
use crate::PERC_SCALE;

verus! {

/// Every split this generation call performs has room for both halves: the
/// extent along the split axis is at least two pixels, and the gap carved
/// off the spatially-second half stays below that half's extent.
pub open spec fn fits(c: BSPLayout, horiz: bool, w: int, h: int, n: nat) -> bool
    decreases n,
{
    if n <= 1 {
        true
    } else {
        let total = if horiz {
            h
        } else {
            w
        };
        let a = split_args(c, horiz, 0, total, n);
        &&& total >= 2
        &&& if !c.reversed {
            a.sec_sub < a.sec
        } else {
            a.prime_sub < a.prime
        }
        &&& if horiz {
            fits(c, false, w, a.prime_len, a.n_prime) && fits(c, false, w, a.sec_len, a.n_sec)
        } else {
            fits(c, true, a.prime_len, h, a.n_prime) && fits(c, true, a.sec_len, h, a.n_sec)
        }
    }
}

/// With at least two pixels to divide, the clamps keep both halves of a
/// split strictly positive.
pub proof fn lemma_prime_extent_range(total: int, perc: int)
    requires
        total >= 2,
        perc >= 0,
    ensures
        1 <= prime_extent(total, perc) <= total - 1,
{
    assert(total * perc >= 0) by (nonlinear_arith)
        requires
            total >= 0,
            perc >= 0,
    ;
    lemma_div_pos_is_pos(total * perc, PERC_SCALE as int);
}

/// What a half keeps after its gap is carved off: at least one pixel, and
/// never more than the half itself had.
pub proof fn lemma_sub_extent_range(extent: int, gap: int)
    requires
        1 <= extent,
        0 <= gap,
    ensures
        1 <= sub_extent(extent, gap) <= extent,
{
}

/// The split origins and extents do not depend on where the region sits:
/// shifting the main-axis origin shifts both halves' origins with it.
pub proof fn lemma_split_args_shift(c: BSPLayout, horiz: bool, om: int, total: int, n: nat)
    ensures
        split_args(c, horiz, om, total, n) == (SplitArgs {
            prime_origin: om + split_args(c, horiz, 0, total, n).prime_origin,
            sec_origin: om + split_args(c, horiz, 0, total, n).sec_origin,
            ..split_args(c, horiz, 0, total, n)
        }),
{
}

/// Every cell of a fitting generation call lies inside the region being
/// split and spans at least one pixel in each direction.
pub proof fn lemma_split_in_region(
    c: BSPLayout,
    horiz: bool,
    ox: int,
    oy: int,
    w: int,
    h: int,
    n: nat,
)
    requires
        1 <= n,
        1 <= w,
        1 <= h,
        fits(c, horiz, w, h, n),
    ensures
        forall|i: int|
            0 <= i < split_rects(c, horiz, ox, oy, w, h, n).len() ==> {
                let r = #[trigger] split_rects(c, horiz, ox, oy, w, h, n)[i];
                rect_in_region(r, (Region { x: ox, y: oy, width: w, height: h })) && 1 <= r.width
                    && 1 <= r.height
            },
    decreases n,
{
    if n <= 1 {
    } else {
        let total = if horiz {
            h
        } else {
            w
        };
        let perc = if horiz {
            c.hsplit_perc as int
        } else {
            c.vsplit_perc as int
        };
        let om = if horiz {
            oy
        } else {
            ox
        };
        let a = split_args(c, horiz, om, total, n);
        lemma_split_args_shift(c, horiz, om, total, n);
        lemma_prime_extent_range(total, perc);
        lemma_sub_extent_range(a.prime, a.prime_sub);
        lemma_sub_extent_range(a.sec, a.sec_sub);
        let whole = split_rects(c, horiz, ox, oy, w, h, n);
        let region = Region { x: ox, y: oy, width: w, height: h };
        if horiz {
            let p = split_rects(c, false, ox, a.prime_origin, w, a.prime_len, a.n_prime);
            let s = split_rects(c, false, ox, a.sec_origin, w, a.sec_len, a.n_sec);
            lemma_split_len(c, false, ox, a.prime_origin, w, a.prime_len, a.n_prime);
            lemma_split_in_region(c, false, ox, a.prime_origin, w, a.prime_len, a.n_prime);
            lemma_split_in_region(c, false, ox, a.sec_origin, w, a.sec_len, a.n_sec);
            assert(whole == p + s);
            assert(oy <= a.prime_origin && a.prime_origin + a.prime_len <= oy + h);
            assert(oy <= a.sec_origin && a.sec_origin + a.sec_len <= oy + h);
            assert forall|i: int| 0 <= i < whole.len() implies {
                let r = #[trigger] whole[i];
                rect_in_region(r, region) && 1 <= r.width && 1 <= r.height
            } by {
                if i < p.len() {
                    assert(whole[i] == p[i]);
                } else {
                    assert(whole[i] == s[i - p.len()]);
                }
            }
        } else {
            let p = split_rects(c, true, a.prime_origin, oy, a.prime_len, h, a.n_prime);
            let s = split_rects(c, true, a.sec_origin, oy, a.sec_len, h, a.n_sec);
            lemma_split_len(c, true, a.prime_origin, oy, a.prime_len, h, a.n_prime);
            lemma_split_in_region(c, true, a.prime_origin, oy, a.prime_len, h, a.n_prime);
            lemma_split_in_region(c, true, a.sec_origin, oy, a.sec_len, h, a.n_sec);
            assert(whole == p + s);
            assert(ox <= a.prime_origin && a.prime_origin + a.prime_len <= ox + w);
            assert(ox <= a.sec_origin && a.sec_origin + a.sec_len <= ox + w);
            assert forall|i: int| 0 <= i < whole.len() implies {
                let r = #[trigger] whole[i];
                rect_in_region(r, region) && 1 <= r.width && 1 <= r.height
            } by {
                if i < p.len() {
                    assert(whole[i] == p[i]);
                } else {
                    assert(whole[i] == s[i - p.len()]);
                }
            }
        }
    }
}

/// No two cells of a fitting generation call overlap.
pub proof fn lemma_split_disjoint(
    c: BSPLayout,
    horiz: bool,
    ox: int,
    oy: int,
    w: int,
    h: int,
    n: nat,
)
    requires
        1 <= n,
        1 <= w,
        1 <= h,
        fits(c, horiz, w, h, n),
    ensures
        forall|i: int, j: int|
            #![trigger split_rects(c, horiz, ox, oy, w, h, n)[i], split_rects(c, horiz, ox, oy, w, h, n)[j]]
            0 <= i < j < split_rects(c, horiz, ox, oy, w, h, n).len() ==> rects_disjoint(
                split_rects(c, horiz, ox, oy, w, h, n)[i],
                split_rects(c, horiz, ox, oy, w, h, n)[j],
            ),
    decreases n,
{
    if n <= 1 {
    } else {
        let total = if horiz {
            h
        } else {
            w
        };
        let perc = if horiz {
            c.hsplit_perc as int
        } else {
            c.vsplit_perc as int
        };
        let om = if horiz {
            oy
        } else {
            ox
        };
        let a = split_args(c, horiz, om, total, n);
        lemma_split_args_shift(c, horiz, om, total, n);
        lemma_prime_extent_range(total, perc);
        lemma_sub_extent_range(a.prime, a.prime_sub);
        lemma_sub_extent_range(a.sec, a.sec_sub);
        let whole = split_rects(c, horiz, ox, oy, w, h, n);
        if horiz {
            let p = split_rects(c, false, ox, a.prime_origin, w, a.prime_len, a.n_prime);
            let s = split_rects(c, false, ox, a.sec_origin, w, a.sec_len, a.n_sec);
            lemma_split_len(c, false, ox, a.prime_origin, w, a.prime_len, a.n_prime);
            lemma_split_in_region(c, false, ox, a.prime_origin, w, a.prime_len, a.n_prime);
            lemma_split_in_region(c, false, ox, a.sec_origin, w, a.sec_len, a.n_sec);
            lemma_split_disjoint(c, false, ox, a.prime_origin, w, a.prime_len, a.n_prime);
            lemma_split_disjoint(c, false, ox, a.sec_origin, w, a.sec_len, a.n_sec);
            assert(whole == p + s);
            // The two halves' regions are separated along the y axis.
            assert(if !c.reversed {
                a.prime_origin + a.prime_len <= a.sec_origin
            } else {
                a.sec_origin + a.sec_len <= a.prime_origin
            });
            assert forall|i: int, j: int|
                #![trigger whole[i], whole[j]]
                0 <= i < j < whole.len() implies rects_disjoint(whole[i], whole[j]) by {
                if j < p.len() {
                    assert(whole[i] == p[i] && whole[j] == p[j]);
                } else if i >= p.len() {
                    assert(whole[i] == s[i - p.len()] && whole[j] == s[j - p.len()]);
                } else {
                    assert(whole[i] == p[i] && whole[j] == s[j - p.len()]);
                }
            }
        } else {
            let p = split_rects(c, true, a.prime_origin, oy, a.prime_len, h, a.n_prime);
            let s = split_rects(c, true, a.sec_origin, oy, a.sec_len, h, a.n_sec);
            lemma_split_len(c, true, a.prime_origin, oy, a.prime_len, h, a.n_prime);
            lemma_split_in_region(c, true, a.prime_origin, oy, a.prime_len, h, a.n_prime);
            lemma_split_in_region(c, true, a.sec_origin, oy, a.sec_len, h, a.n_sec);
            lemma_split_disjoint(c, true, a.prime_origin, oy, a.prime_len, h, a.n_prime);
            lemma_split_disjoint(c, true, a.sec_origin, oy, a.sec_len, h, a.n_sec);
            assert(whole == p + s);
            // The two halves' regions are separated along the x axis.
            assert(if !c.reversed {
                a.prime_origin + a.prime_len <= a.sec_origin
            } else {
                a.sec_origin + a.sec_len <= a.prime_origin
            });
            assert forall|i: int, j: int|
                #![trigger whole[i], whole[j]]
                0 <= i < j < whole.len() implies rects_disjoint(whole[i], whole[j]) by {
                if j < p.len() {
                    assert(whole[i] == p[i] && whole[j] == p[j]);
                } else if i >= p.len() {
                    assert(whole[i] == s[i - p.len()] && whole[j] == s[j - p.len()]);
                } else {
                    assert(whole[i] == p[i] && whole[j] == s[j - p.len()]);
                }
            }
        }
    }
}

/// With every inner gap zero, the cells of a fitting generation call cover
/// the whole region: each pixel of the region lies in some cell. Together
/// with `lemma_split_disjoint` the cells then tile the region exactly.
pub proof fn lemma_split_covers(
    c: BSPLayout,
    horiz: bool,
    ox: int,
    oy: int,
    w: int,
    h: int,
    n: nat,
    px: int,
    py: int,
)
    requires
        1 <= n,
        1 <= w,
        1 <= h,
        fits(c, horiz, w, h, n),
        c.ig_left == 0,
        c.ig_right == 0,
        c.ig_top == 0,
        c.ig_bottom == 0,
        region_contains_point((Region { x: ox, y: oy, width: w, height: h }), px, py),
    ensures
        exists|i: int|
            0 <= i < split_rects(c, horiz, ox, oy, w, h, n).len() && region_contains_point(
                #[trigger] split_rects(c, horiz, ox, oy, w, h, n)[i],
                px,
                py,
            ),
    decreases n,
{
    let whole = split_rects(c, horiz, ox, oy, w, h, n);
    if n <= 1 {
        assert(region_contains_point(whole[0], px, py));
    } else {
        let total = if horiz {
            h
        } else {
            w
        };
        let perc = if horiz {
            c.hsplit_perc as int
        } else {
            c.vsplit_perc as int
        };
        let om = if horiz {
            oy
        } else {
            ox
        };
        let a = split_args(c, horiz, om, total, n);
        lemma_split_args_shift(c, horiz, om, total, n);
        lemma_prime_extent_range(total, perc);
        // With zero gaps each half keeps its full extent and the two halves
        // partition the main axis between them.
        assert(a.prime_len == a.prime && a.sec_len == a.sec);
        let pm = if horiz {
            py
        } else {
            px
        };
        let in_prime = a.prime_origin <= pm < a.prime_origin + a.prime_len;
        if horiz {
            let p = split_rects(c, false, ox, a.prime_origin, w, a.prime_len, a.n_prime);
            let s = split_rects(c, false, ox, a.sec_origin, w, a.sec_len, a.n_sec);
            lemma_split_len(c, false, ox, a.prime_origin, w, a.prime_len, a.n_prime);
            lemma_split_len(c, false, ox, a.sec_origin, w, a.sec_len, a.n_sec);
            assert(whole == p + s);
            if in_prime {
                lemma_split_covers(c, false, ox, a.prime_origin, w, a.prime_len, a.n_prime, px, py);
                let i = choose|i: int|
                    0 <= i < p.len() && region_contains_point(#[trigger] p[i], px, py);
                assert(whole[i] == p[i]);
            } else {
                lemma_split_covers(c, false, ox, a.sec_origin, w, a.sec_len, a.n_sec, px, py);
                let i = choose|i: int|
                    0 <= i < s.len() && region_contains_point(#[trigger] s[i], px, py);
                assert(whole[i + p.len()] == s[i]);
            }
        } else {
            let p = split_rects(c, true, a.prime_origin, oy, a.prime_len, h, a.n_prime);
            let s = split_rects(c, true, a.sec_origin, oy, a.sec_len, h, a.n_sec);
            lemma_split_len(c, true, a.prime_origin, oy, a.prime_len, h, a.n_prime);
            lemma_split_len(c, true, a.sec_origin, oy, a.sec_len, h, a.n_sec);
            assert(whole == p + s);
            if in_prime {
                lemma_split_covers(c, true, a.prime_origin, oy, a.prime_len, h, a.n_prime, px, py);
                let i = choose|i: int|
                    0 <= i < p.len() && region_contains_point(#[trigger] p[i], px, py);
                assert(whole[i] == p[i]);
            } else {
                lemma_split_covers(c, true, a.sec_origin, oy, a.sec_len, h, a.n_sec, px, py);
                let i = choose|i: int|
                    0 <= i < s.len() && region_contains_point(#[trigger] s[i], px, py);
                assert(whole[i + p.len()] == s[i]);
            }
        }
    }
}

/// The area, in pixels, that the inner gaps and the one-pixel clamps carve
/// out of a region as it is recursively split: at each level, the main-axis
/// extent each half loses, times the extent across the split axis, plus
/// what the halves' own splits carve out in turn.
pub open spec fn carved_area(c: BSPLayout, horiz: bool, w: int, h: int, n: nat) -> int
    decreases n,
{
    if n <= 1 {
        0
    } else {
        let total = if horiz {
            h
        } else {
            w
        };
        let cross = if horiz {
            w
        } else {
            h
        };
        let a = split_args(c, horiz, 0, total, n);
        ((a.prime - a.prime_len) + (a.sec - a.sec_len)) * cross + (if horiz {
            carved_area(c, false, w, a.prime_len, a.n_prime) + carved_area(
                c,
                false,
                w,
                a.sec_len,
                a.n_sec,
            )
        } else {
            carved_area(c, true, a.prime_len, h, a.n_prime) + carved_area(
                c,
                true,
                a.sec_len,
                h,
                a.n_sec,
            )
        })
    }
}

/// Summed area distributes over concatenation.
pub proof fn lemma_total_area_concat(a: Seq<Region>, b: Seq<Region>)
    ensures
        total_area(a + b) == total_area(a) + total_area(b),
    decreases b.len(),
{
    if b.len() == 0 {
        assert(a + b =~= a);
    } else {
        lemma_total_area_concat(a, b.drop_last());
        assert((a + b).drop_last() =~= a + b.drop_last());
    }
}

/// Law: the cells of a generation call account for the whole region but
/// for what the gaps carve out: their areas sum to the region's area minus
/// [`carved_area`]. With zero inner gaps nothing is carved and the cells'
/// areas reconstruct the region's area exactly.
pub proof fn lemma_split_area(
    c: BSPLayout,
    horiz: bool,
    ox: int,
    oy: int,
    w: int,
    h: int,
    n: nat,
)
    requires
        1 <= n,
    ensures
        total_area(split_rects(c, horiz, ox, oy, w, h, n)) == w * h - carved_area(
            c,
            horiz,
            w,
            h,
            n,
        ),
    decreases n,
{
    if n <= 1 {
        let r = split_rects(c, horiz, ox, oy, w, h, n);
        assert(r.drop_last() =~= Seq::<Region>::empty());
        assert(total_area(Seq::<Region>::empty()) == 0);
        assert(total_area(r) == w * h);
    } else {
        let total = if horiz {
            h
        } else {
            w
        };
        let om = if horiz {
            oy
        } else {
            ox
        };
        let a = split_args(c, horiz, om, total, n);
        lemma_split_args_shift(c, horiz, om, total, n);
        let pl = a.prime_len;
        let sl = a.sec_len;
        let pr = a.prime;
        let se = a.sec;
        if horiz {
            let p = split_rects(c, false, ox, a.prime_origin, w, pl, a.n_prime);
            let s = split_rects(c, false, ox, a.sec_origin, w, sl, a.n_sec);
            let gp = carved_area(c, false, w, pl, a.n_prime);
            let gs = carved_area(c, false, w, sl, a.n_sec);
            lemma_split_area(c, false, ox, a.prime_origin, w, pl, a.n_prime);
            lemma_split_area(c, false, ox, a.sec_origin, w, sl, a.n_sec);
            lemma_total_area_concat(p, s);
            assert(carved_area(c, true, w, h, n) == ((pr - pl) + (se - sl)) * w + gp + gs);
            assert((w * pl - gp) + (w * sl - gs) == w * h - (((pr - pl) + (se - sl)) * w + gp
                + gs)) by (nonlinear_arith)
                requires
                    pr + se == h,
            ;
        } else {
            let p = split_rects(c, true, a.prime_origin, oy, pl, h, a.n_prime);
            let s = split_rects(c, true, a.sec_origin, oy, sl, h, a.n_sec);
            let gp = carved_area(c, true, pl, h, a.n_prime);
            let gs = carved_area(c, true, sl, h, a.n_sec);
            lemma_split_area(c, true, a.prime_origin, oy, pl, h, a.n_prime);
            lemma_split_area(c, true, a.sec_origin, oy, sl, h, a.n_sec);
            lemma_total_area_concat(p, s);
            assert(carved_area(c, false, w, h, n) == ((pr - pl) + (se - sl)) * h + gp + gs);
            assert((pl * h - gp) + (sl * h - gs) == w * h - (((pr - pl) + (se - sl)) * h + gp
                + gs)) by (nonlinear_arith)
                requires
                    pr + se == w,
            ;
        }
    }
}

/// A generation call for a single view emits one cell that equals the
/// region being split exactly.
pub proof fn lemma_single_view(c: BSPLayout, horiz: bool, ox: int, oy: int, w: int, h: int)
    ensures
        split_rects(c, horiz, ox, oy, w, h, 1) == seq![
            (Region { x: ox, y: oy, width: w, height: h }),
        ],
{
}

} // verus!

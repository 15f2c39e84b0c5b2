//! The partition engine: recursive binary space partitioning.
//!
//! A generation call divides a region into `view_count` cells. Each split
//! hands the configured share of the extent along the split axis to the
//! primary half and the rest to the secondary half, which also absorbs the
//! odd view when the count is odd. Splits alternate axis per level.
//!
//! [`split_rects`] is the mathematical description of the algorithm; the
//! executable engine is proved to produce exactly that sequence.

use vstd::arithmetic::power2::lemma2_to64;
use vstd::arithmetic::power2::pow2;
use vstd::prelude::*;

use crate::rect::rects_of;
use crate::rect::GeneratedLayout;
use crate::rect::Rectangle;
use crate::rect::Region;
use crate::BSPLayout;
use crate::BSPLayoutError;
use crate::PERC_SCALE;

verus! {

/// The extent along the split axis handed to the primary half: the floor of
/// `total * perc / PERC_SCALE`, clamped so that both halves keep a strictly
/// positive extent whenever `total >= 2`.
pub open spec fn prime_extent(total: int, perc: int) -> int {
    let raw = total * perc / (PERC_SCALE as int);
    let lifted = if raw == 0 {
        1
    } else {
        raw
    };
    if lifted >= total {
        total - 1
    } else {
        lifted
    }
}

/// The extent a half keeps for its own recursive split after its inner gap
/// is carved off: never below one pixel, however large the gap.
pub open spec fn sub_extent(extent: int, gap: int) -> int {
    if gap < extent {
        extent - gap
    } else {
        1
    }
}

/// Everything one level of splitting derives from the configuration, the
/// origin and total extent along the split axis, and the view count: the two
/// halves' extents, the gaps carved off each half, each half's main-axis
/// origin and remaining extent, and how the views are shared out.
pub ghost struct SplitArgs {
    /// Extent along the split axis handed to the primary half
    pub prime: int,
    /// Extent along the split axis handed to the secondary half
    pub sec: int,
    /// Inner gap carved off the primary half
    pub prime_sub: int,
    /// Inner gap carved off the secondary half
    pub sec_sub: int,
    /// Main-axis origin of the primary half's cell region
    pub prime_origin: int,
    /// Main-axis origin of the secondary half's cell region
    pub sec_origin: int,
    /// Extent left to the primary half after its gap
    pub prime_len: int,
    /// Extent left to the secondary half after its gap
    pub sec_len: int,
    /// Views given to the primary half
    pub n_prime: nat,
    /// Views given to the secondary half, which absorbs the odd leftover
    pub n_sec: nat,
}

/// How one split divides `total` (along the split axis, starting at
/// `origin_main`) and `n` views between the primary and secondary halves.
/// When not reversed the primary half is spatially first; when reversed the
/// halves swap places and gap roles.
pub open spec fn split_args(
    c: BSPLayout,
    horiz: bool,
    origin_main: int,
    total: int,
    n: nat,
) -> SplitArgs {
    let perc = if horiz {
        c.hsplit_perc as int
    } else {
        c.vsplit_perc as int
    };
    let prime = prime_extent(total, perc);
    let sec = total - prime;
    let prime_sub = if horiz {
        if !c.reversed {
            c.ig_bottom as int
        } else {
            c.ig_top as int
        }
    } else {
        if !c.reversed {
            c.ig_right as int
        } else {
            c.ig_left as int
        }
    };
    let sec_sub = if horiz {
        if !c.reversed {
            c.ig_top as int
        } else {
            c.ig_bottom as int
        }
    } else {
        if !c.reversed {
            c.ig_left as int
        } else {
            c.ig_right as int
        }
    };
    SplitArgs {
        prime,
        sec,
        prime_sub,
        sec_sub,
        prime_origin: if !c.reversed {
            origin_main
        } else {
            origin_main + sec + prime_sub
        },
        sec_origin: if !c.reversed {
            origin_main + prime + sec_sub
        } else {
            origin_main
        },
        prime_len: sub_extent(prime, prime_sub),
        sec_len: sub_extent(sec, sec_sub),
        n_prime: n / 2,
        n_sec: (n - n / 2) as nat,
    }
}

/// The ordered cell sequence produced by recursively splitting the region
/// at `(ox, oy)` of size `w` by `h` into `n` cells, starting on the
/// horizontal axis when `horiz` is set. This is the reference description
/// of the partition engine.
pub open spec fn split_rects(
    c: BSPLayout,
    horiz: bool,
    ox: int,
    oy: int,
    w: int,
    h: int,
    n: nat,
) -> Seq<Region>
    decreases n,
{
    if n <= 1 {
        seq![Region { x: ox, y: oy, width: w, height: h }]
    } else if horiz {
        let a = split_args(c, true, oy, h, n);
        split_rects(c, false, ox, a.prime_origin, w, a.prime_len, a.n_prime) + split_rects(
            c,
            false,
            ox,
            a.sec_origin,
            w,
            a.sec_len,
            a.n_sec,
        )
    } else {
        let a = split_args(c, false, ox, w, n);
        split_rects(c, true, a.prime_origin, oy, a.prime_len, h, a.n_prime) + split_rects(
            c,
            true,
            a.sec_origin,
            oy,
            a.sec_len,
            h,
            a.n_sec,
        )
    }
}

/// The larger of the two inner gaps that vertical splits apply.
pub open spec fn x_gap(c: BSPLayout) -> int {
    if c.ig_left >= c.ig_right {
        c.ig_left as int
    } else {
        c.ig_right as int
    }
}

/// The larger of the two inner gaps that horizontal splits apply.
pub open spec fn y_gap(c: BSPLayout) -> int {
    if c.ig_top >= c.ig_bottom {
        c.ig_top as int
    } else {
        c.ig_bottom as int
    }
}

/// How far, along one axis, the right or bottom edge of any intermediate
/// region can drift past the edge of the region a split starts from: each
/// of the `log2`-many levels can push a one-pixel sliver at most `gap + 1`
/// pixels out.
pub open spec fn coord_budget(n: nat, gap: int) -> int
    decreases n,
{
    if n <= 1 {
        0
    } else {
        gap + 1 + coord_budget((n - n / 2) as nat, gap)
    }
}

pub proof fn lemma_budget_nonneg(n: nat, gap: int)
    requires
        gap >= 0,
    ensures
        coord_budget(n, gap) >= 0,
    decreases n,
{
    if n > 1 {
        lemma_budget_nonneg((n - n / 2) as nat, gap);
    }
}

pub proof fn lemma_budget_mono(m: nat, n: nat, gap: int)
    requires
        m <= n,
        gap >= 0,
    ensures
        coord_budget(m, gap) <= coord_budget(n, gap),
    decreases n,
{
    if n <= 1 {
    } else if m <= 1 {
        lemma_budget_nonneg(n, gap);
    } else {
        lemma_budget_mono((m - m / 2) as nat, (n - n / 2) as nat, gap);
    }
}

proof fn lemma_budget_pow2(k: nat, n: nat, gap: int)
    requires
        gap >= 0,
        n <= pow2(k),
    ensures
        coord_budget(n, gap) <= k * (gap + 1),
    decreases k,
{
    if n <= 1 {
        assert(0 <= k * (gap + 1)) by (nonlinear_arith)
            requires
                k >= 0,
                gap >= 0,
        ;
    } else {
        assert(k >= 1) by {
            if k == 0 {
                assert(pow2(0) == 1) by {
                    lemma2_to64();
                }
            }
        }
        assert(pow2(k) == 2 * pow2((k - 1) as nat)) by {
            vstd::arithmetic::power2::lemma_pow2_unfold(k);
        }
        lemma_budget_pow2((k - 1) as nat, (n - n / 2) as nat, gap);
        assert((k - 1) * (gap + 1) + (gap + 1) == k * (gap + 1)) by (nonlinear_arith);
    }
}

/// Every view count a `u32` can hold needs at most 32 split levels.
pub proof fn lemma_budget_u32(n: nat, gap: int)
    requires
        gap >= 0,
        n <= u32::MAX,
    ensures
        coord_budget(n, gap) <= 32 * (gap + 1),
{
    lemma2_to64();
    lemma_budget_pow2(32, n, gap);
}

/// Every cell sequence the engine describes holds exactly `n` cells.
pub proof fn lemma_split_len(c: BSPLayout, horiz: bool, ox: int, oy: int, w: int, h: int, n: nat)
    requires
        1 <= n,
    ensures
        split_rects(c, horiz, ox, oy, w, h, n).len() == n,
    decreases n,
{
    if n <= 1 {
    } else if horiz {
        let a = split_args(c, true, oy, h, n);
        lemma_split_len(c, false, ox, a.prime_origin, w, a.prime_len, a.n_prime);
        lemma_split_len(c, false, ox, a.sec_origin, w, a.sec_len, a.n_sec);
    } else {
        let a = split_args(c, false, ox, w, n);
        lemma_split_len(c, true, a.prime_origin, oy, a.prime_len, h, a.n_prime);
        lemma_split_len(c, true, a.sec_origin, oy, a.sec_len, h, a.n_sec);
    }
}

/// The run-time value of [`coord_budget`], so that a host can check the
/// bounds that `generate_layout` asks of its arguments.
pub fn split_budget(view_count: u32, gap: u32) -> (b: u64)
    ensures
        b == coord_budget(view_count as nat, gap as int),
        b <= 32 * (gap as int) + 32,
{
    proof {
        lemma_budget_u32(view_count as nat, gap as int);
        lemma_budget_nonneg(view_count as nat, gap as int);
    }
    let mut n = view_count;
    let mut b: u64 = 0;
    while n >= 2
        invariant
            b + coord_budget(n as nat, gap as int) == coord_budget(view_count as nat, gap as int),
            coord_budget(n as nat, gap as int) >= 0,
            coord_budget(view_count as nat, gap as int) <= 32 * (gap as int) + 32,
        decreases n,
    {
        proof {
            lemma_budget_nonneg((n - n / 2) as nat, gap as int);
        }
        b = b + gap as u64 + 1;
        n = n - n / 2;
    }
    b
}

impl BSPLayout {
    /// Divide the region at `(origin_x, origin_y)` of size `canvas_width`
    /// by `canvas_height` into `view_count` cells, starting on the
    /// horizontal axis when `horiz` is set and alternating axis each level.
    /// Returns exactly the cell sequence [`split_rects`] describes.
    fn split(
        &self,
        horiz: bool,
        origin_x: i32,
        origin_y: i32,
        canvas_width: u32,
        canvas_height: u32,
        view_count: u32,
    ) -> (out: Vec<Rectangle>)
        requires
            1 <= view_count,
            1 <= canvas_width,
            1 <= canvas_height,
            0 <= origin_x,
            0 <= origin_y,
            origin_x + canvas_width + coord_budget(view_count as nat, x_gap(*self)) <= i32::MAX,
            origin_y + canvas_height + coord_budget(view_count as nat, y_gap(*self)) <= i32::MAX,
        ensures
            rects_of(out@) == split_rects(
                *self,
                horiz,
                origin_x as int,
                origin_y as int,
                canvas_width as int,
                canvas_height as int,
                view_count as nat,
            ),
        decreases view_count,
    {
        let ghost target = split_rects(
            *self,
            horiz,
            origin_x as int,
            origin_y as int,
            canvas_width as int,
            canvas_height as int,
            view_count as nat,
        );
        if view_count == 1 {
            let mut out: Vec<Rectangle> = Vec::new();
            out.push(
                Rectangle { x: origin_x, y: origin_y, width: canvas_width, height: canvas_height },
            );
            proof {
                assert(rects_of(out@) =~= target);
            }
            return out;
        }
        let half = view_count / 2;
        let rest = view_count - half;

        let total: u32 = if horiz {
            canvas_height
        } else {
            canvas_width
        };
        let perc: u32 = if horiz {
            self.hsplit_perc
        } else {
            self.vsplit_perc
        };
        proof {
            assert((total as int) * (perc as int) <= 0xffff_ffff * 0xffff_ffff)
                by (nonlinear_arith)
                requires
                    0 <= total <= 0xffff_ffffu32,
                    0 <= perc <= 0xffff_ffffu32,
            ;
        }
        let raw: u64 = (total as u64) * (perc as u64) / (PERC_SCALE as u64);
        let lifted: u64 = if raw == 0 {
            1
        } else {
            raw
        };
        let prime: u32 = if lifted >= total as u64 {
            total - 1
        } else {
            lifted as u32
        };
        let sec: u32 = total - prime;
        proof {
            assert(prime == prime_extent(total as int, perc as int));
        }

        let prime_sub: u32 = if horiz {
            if !self.reversed {
                self.ig_bottom
            } else {
                self.ig_top
            }
        } else {
            if !self.reversed {
                self.ig_right
            } else {
                self.ig_left
            }
        };
        let sec_sub: u32 = if horiz {
            if !self.reversed {
                self.ig_top
            } else {
                self.ig_bottom
            }
        } else {
            if !self.reversed {
                self.ig_left
            } else {
                self.ig_right
            }
        };
        let origin_main: i32 = if horiz {
            origin_y
        } else {
            origin_x
        };

        let ghost gap_bound = if horiz {
            y_gap(*self)
        } else {
            x_gap(*self)
        };
        proof {
            lemma_budget_nonneg(rest as nat, gap_bound);
            lemma_budget_nonneg(view_count as nat, x_gap(*self));
            lemma_budget_nonneg(view_count as nat, y_gap(*self));
            lemma_budget_mono(half as nat, rest as nat, gap_bound);
            lemma_budget_mono(half as nat, rest as nat, x_gap(*self));
            lemma_budget_mono(half as nat, rest as nat, y_gap(*self));
            lemma_budget_mono(rest as nat, view_count as nat, x_gap(*self));
            lemma_budget_mono(rest as nat, view_count as nat, y_gap(*self));
            assert(coord_budget(view_count as nat, gap_bound) == gap_bound + 1 + coord_budget(
                rest as nat,
                gap_bound,
            ));
        }

        let prime_main: i32 = if !self.reversed {
            origin_main
        } else {
            origin_main + sec as i32 + prime_sub as i32
        };
        let sec_main: i32 = if !self.reversed {
            origin_main + prime as i32 + sec_sub as i32
        } else {
            origin_main
        };
        let prime_len: u32 = if prime_sub < prime {
            prime - prime_sub
        } else {
            1
        };
        let sec_len: u32 = if sec_sub < sec {
            sec - sec_sub
        } else {
            1
        };

        let mut out: Vec<Rectangle>;
        let mut sec_out: Vec<Rectangle>;
        if horiz {
            out = self.split(false, origin_x, prime_main, canvas_width, prime_len, half);
            sec_out = self.split(false, origin_x, sec_main, canvas_width, sec_len, rest);
        } else {
            out = self.split(true, prime_main, origin_y, prime_len, canvas_height, half);
            sec_out = self.split(true, sec_main, origin_y, sec_len, canvas_height, rest);
        }
        let ghost prime_view = out@;
        let ghost sec_view = sec_out@;
        out.append(&mut sec_out);
        proof {
            assert(out@ == prime_view + sec_view);
            assert(rects_of(out@) =~= rects_of(prime_view) + rects_of(sec_view));
            assert(rects_of(out@) == target);
        }
        out
    }

    /// Create the geometry for the layout: validate the split shares, carve
    /// the outer gaps off the usable area, and partition what remains into
    /// `view_count` cells starting on the configured axis.
    ///
    /// # Errors
    ///
    /// Returns `BSPLayoutError::LayoutError` when either split share lies
    /// outside the open unit interval, or when the outer gaps leave no
    /// interior canvas; in either case no cells are produced and the
    /// configuration is untouched.
    pub fn generate_layout(
        &mut self,
        view_count: u32,
        usable_width: u32,
        usable_height: u32,
        _tags: u32,
        _output: &str,
    ) -> (r: Result<GeneratedLayout, BSPLayoutError>)
        requires
            1 <= view_count,
            usable_width + coord_budget(view_count as nat, x_gap(*old(self))) <= i32::MAX,
            usable_height + coord_budget(view_count as nat, y_gap(*old(self))) <= i32::MAX,
        ensures
            *final(self) == *old(self),
            match r {
                Ok(l) => old(self).percs_valid() && old(self).og_left + old(self).og_right
                    < usable_width && old(self).og_top + old(self).og_bottom < usable_height
                    && l.layout_name@ == "bsp-layout"@ && l.views@.len() == view_count && rects_of(
                    l.views@,
                ) == split_rects(
                    *old(self),
                    old(self).start_hsplit,
                    old(self).og_left as int,
                    old(self).og_top as int,
                    usable_width - old(self).og_left - old(self).og_right,
                    usable_height - old(self).og_top - old(self).og_bottom,
                    view_count as nat,
                ),
                Err(e) => e matches BSPLayoutError::LayoutError(_) && !(old(self).percs_valid()
                    && old(self).og_left + old(self).og_right < usable_width && old(self).og_top
                    + old(self).og_bottom < usable_height),
            },
    {
        if self.vsplit_perc == 0 || self.vsplit_perc >= PERC_SCALE || self.hsplit_perc == 0
            || self.hsplit_perc >= PERC_SCALE {
            return Err(
                BSPLayoutError::LayoutError(
                    "Split percents must be > 0.0 and less than 1.0".to_owned(),
                ),
            );
        }
        proof {
            lemma_budget_nonneg(view_count as nat, x_gap(*self));
            lemma_budget_nonneg(view_count as nat, y_gap(*self));
        }
        if (self.og_left as u64) + (self.og_right as u64) >= usable_width as u64 || (self.og_top
            as u64) + (self.og_bottom as u64) >= usable_height as u64 {
            return Err(
                BSPLayoutError::LayoutError(
                    "Outer gaps leave no usable canvas area".to_owned(),
                ),
            );
        }
        let interior_width = usable_width - self.og_left - self.og_right;
        let interior_height = usable_height - self.og_top - self.og_bottom;
        let views = self.split(
            self.start_hsplit,
            self.og_left as i32,
            self.og_top as i32,
            interior_width,
            interior_height,
            view_count,
        );
        proof {
            lemma_split_len(
                *self,
                self.start_hsplit,
                self.og_left as int,
                self.og_top as int,
                interior_width as int,
                interior_height as int,
                view_count as nat,
            );
        }
        Ok(GeneratedLayout { layout_name: "bsp-layout".to_owned(), views })
    }
}

} // verus!

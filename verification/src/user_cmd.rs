//! The command interpreter: typed runtime commands and their effect on a
//! [`BSPLayout`] configuration.
//!
//! A command bundles any number of sub-effects. The `apply_*` spec
//! functions give the exact meaning of each group of sub-effects; the
//! `handle_*` methods carry them out. A whole command either applies in
//! full or — when both start-axis flags are set — fails and leaves the
//! configuration untouched.

use vstd::prelude::*;

use crate::parse::parse_cmdline;
use crate::parse::parse_user_cmd;
use crate::BSPLayout;
use crate::BSPLayoutError;
use crate::PERC_SCALE;

verus! {

/// A parsed runtime command. Gap values are pixels; split values and
/// deltas are in ten-thousandths. A `None` or `false` field asks for no
/// change.
#[derive(Clone, Copy)]
pub struct UserCmd {
    /// Set every inner gap to this many pixels
    pub default_inner_gap: Option<u32>,
    /// Set the left inner gap, overriding `default_inner_gap`
    pub ig_left: Option<u32>,
    /// Set the right inner gap, overriding `default_inner_gap`
    pub ig_right: Option<u32>,
    /// Set the bottom inner gap, overriding `default_inner_gap`
    pub ig_bottom: Option<u32>,
    /// Set the top inner gap, overriding `default_inner_gap`
    pub ig_top: Option<u32>,
    /// Set every outer gap to this many pixels
    pub default_outer_gap: Option<u32>,
    /// Set the left outer gap, overriding `default_outer_gap`
    pub og_left: Option<u32>,
    /// Set the right outer gap, overriding `default_outer_gap`
    pub og_right: Option<u32>,
    /// Set the bottom outer gap, overriding `default_outer_gap`
    pub og_bottom: Option<u32>,
    /// Set the top outer gap, overriding `default_outer_gap`
    pub og_top: Option<u32>,
    /// Set both split shares, overridden by the per-axis settings
    pub default_split_perc: Option<u32>,
    /// Set the share for horizontal splits
    pub hsplit_perc: Option<u32>,
    /// Set the share for vertical splits
    pub vsplit_perc: Option<u32>,
    /// Make the first split of a generation call horizontal
    pub start_hsplit: bool,
    /// Make the first split of a generation call vertical
    pub start_vsplit: bool,
    /// Increase the horizontal split share by this delta
    pub inc_hsplit: Option<u32>,
    /// Increase the vertical split share by this delta
    pub inc_vsplit: Option<u32>,
    /// Decrease the vertical split share by this delta
    pub dec_vsplit: Option<u32>,
    /// Decrease the horizontal split share by this delta
    pub dec_hsplit: Option<u32>,
    /// Toggle the reversal mode
    pub reverse: bool,
}

/// The command that asks for no change at all.
pub open spec fn empty_user_cmd() -> UserCmd {
    UserCmd {
        default_inner_gap: None,
        ig_left: None,
        ig_right: None,
        ig_bottom: None,
        ig_top: None,
        default_outer_gap: None,
        og_left: None,
        og_right: None,
        og_bottom: None,
        og_top: None,
        default_split_perc: None,
        hsplit_perc: None,
        vsplit_perc: None,
        start_hsplit: false,
        start_vsplit: false,
        inc_hsplit: None,
        inc_vsplit: None,
        dec_vsplit: None,
        dec_hsplit: None,
        reverse: false,
    }
}

/// A split share increased by a delta, clamped to stay below one whole.
pub open spec fn clamp_inc(cur: u32, delta: u32) -> u32 {
    if cur + delta < PERC_SCALE {
        (cur + delta) as u32
    } else {
        (PERC_SCALE - 1) as u32
    }
}

/// A split share decreased by a delta, clamped to stay above zero.
pub open spec fn clamp_dec(cur: u32, delta: u32) -> u32 {
    if cur - delta > 0 {
        (cur - delta) as u32
    } else {
        1u32
    }
}

/// Both start-axis flags at once contradict each other; any other
/// combination is applicable.
pub open spec fn start_split_ok(cmd: UserCmd) -> bool {
    !(cmd.start_hsplit && cmd.start_vsplit)
}

/// The effect of the start-axis flags, when they do not contradict.
pub open spec fn apply_start_split(cmd: UserCmd, c: BSPLayout) -> BSPLayout {
    if cmd.start_hsplit && !cmd.start_vsplit {
        BSPLayout { start_hsplit: true, ..c }
    } else if cmd.start_vsplit && !cmd.start_hsplit {
        BSPLayout { start_hsplit: false, ..c }
    } else {
        c
    }
}

/// The effect of the reversal toggle.
pub open spec fn apply_reverse(cmd: UserCmd, c: BSPLayout) -> BSPLayout {
    if cmd.reverse {
        BSPLayout { reversed: !c.reversed, ..c }
    } else {
        c
    }
}

/// The effect of the split-share settings: the default first, then the
/// per-axis overrides.
pub open spec fn apply_set_split(cmd: UserCmd, c: BSPLayout) -> BSPLayout {
    let c0 = match cmd.default_split_perc {
        Some(p) => BSPLayout { hsplit_perc: p, vsplit_perc: p, ..c },
        None => c,
    };
    let c1 = match cmd.vsplit_perc {
        Some(p) => BSPLayout { vsplit_perc: p, ..c0 },
        None => c0,
    };
    match cmd.hsplit_perc {
        Some(p) => BSPLayout { hsplit_perc: p, ..c1 },
        None => c1,
    }
}

/// The effect of the outer-gap settings: the default first, then the
/// per-edge overrides.
pub open spec fn apply_outer_gaps(cmd: UserCmd, c: BSPLayout) -> BSPLayout {
    let c0 = match cmd.default_outer_gap {
        Some(g) => BSPLayout { og_top: g, og_bottom: g, og_right: g, og_left: g, ..c },
        None => c,
    };
    let c1 = match cmd.og_top {
        Some(g) => BSPLayout { og_top: g, ..c0 },
        None => c0,
    };
    let c2 = match cmd.og_bottom {
        Some(g) => BSPLayout { og_bottom: g, ..c1 },
        None => c1,
    };
    let c3 = match cmd.og_right {
        Some(g) => BSPLayout { og_right: g, ..c2 },
        None => c2,
    };
    match cmd.og_left {
        Some(g) => BSPLayout { og_left: g, ..c3 },
        None => c3,
    }
}

/// The effect of the inner-gap settings: the default first, then the
/// per-edge overrides.
pub open spec fn apply_inner_gaps(cmd: UserCmd, c: BSPLayout) -> BSPLayout {
    let c0 = match cmd.default_inner_gap {
        Some(g) => BSPLayout { ig_top: g, ig_bottom: g, ig_right: g, ig_left: g, ..c },
        None => c,
    };
    let c1 = match cmd.ig_top {
        Some(g) => BSPLayout { ig_top: g, ..c0 },
        None => c0,
    };
    let c2 = match cmd.ig_bottom {
        Some(g) => BSPLayout { ig_bottom: g, ..c1 },
        None => c1,
    };
    let c3 = match cmd.ig_right {
        Some(g) => BSPLayout { ig_right: g, ..c2 },
        None => c2,
    };
    match cmd.ig_left {
        Some(g) => BSPLayout { ig_left: g, ..c3 },
        None => c3,
    }
}

/// The effect of the split-share increments and decrements, each clamped
/// into the open unit interval.
pub open spec fn apply_ch_split(cmd: UserCmd, c: BSPLayout) -> BSPLayout {
    let c0 = match cmd.inc_hsplit {
        Some(p) => BSPLayout { hsplit_perc: clamp_inc(c.hsplit_perc, p), ..c },
        None => c,
    };
    let c1 = match cmd.inc_vsplit {
        Some(p) => BSPLayout { vsplit_perc: clamp_inc(c0.vsplit_perc, p), ..c0 },
        None => c0,
    };
    let c2 = match cmd.dec_hsplit {
        Some(p) => BSPLayout { hsplit_perc: clamp_dec(c1.hsplit_perc, p), ..c1 },
        None => c1,
    };
    match cmd.dec_vsplit {
        Some(p) => BSPLayout { vsplit_perc: clamp_dec(c2.vsplit_perc, p), ..c2 },
        None => c2,
    }
}

/// The full effect of an applicable command on a configuration, sub-effect
/// groups in their fixed order.
pub open spec fn apply_cmd(cmd: UserCmd, c: BSPLayout) -> BSPLayout {
    apply_ch_split(
        cmd,
        apply_inner_gaps(
            cmd,
            apply_outer_gaps(cmd, apply_set_split(cmd, apply_reverse(cmd, apply_start_split(cmd, c)))),
        ),
    )
}

impl UserCmd {
    /// The command that asks for no change at all.
    pub fn empty() -> (c: UserCmd)
        ensures
            c == empty_user_cmd(),
    {
        UserCmd {
            default_inner_gap: None,
            ig_left: None,
            ig_right: None,
            ig_bottom: None,
            ig_top: None,
            default_outer_gap: None,
            og_left: None,
            og_right: None,
            og_bottom: None,
            og_top: None,
            default_split_perc: None,
            hsplit_perc: None,
            vsplit_perc: None,
            start_hsplit: false,
            start_vsplit: false,
            inc_hsplit: None,
            inc_vsplit: None,
            dec_vsplit: None,
            dec_hsplit: None,
            reverse: false,
        }
    }

    /// Apply the outer-gap sub-effects to `layout`.
    pub fn handle_outer_gaps(&self, layout: &mut BSPLayout)
        ensures
            *final(layout) == apply_outer_gaps(*self, *old(layout)),
    {
        if let Some(g) = self.default_outer_gap {
            layout.og_top = g;
            layout.og_bottom = g;
            layout.og_right = g;
            layout.og_left = g;
        }
        if let Some(g) = self.og_top {
            layout.og_top = g;
        }
        if let Some(g) = self.og_bottom {
            layout.og_bottom = g;
        }
        if let Some(g) = self.og_right {
            layout.og_right = g;
        }
        if let Some(g) = self.og_left {
            layout.og_left = g;
        }
    }

    /// Apply the inner-gap sub-effects to `layout`.
    pub fn handle_inner_gaps(&self, layout: &mut BSPLayout)
        ensures
            *final(layout) == apply_inner_gaps(*self, *old(layout)),
    {
        if let Some(g) = self.default_inner_gap {
            layout.ig_top = g;
            layout.ig_bottom = g;
            layout.ig_right = g;
            layout.ig_left = g;
        }
        if let Some(g) = self.ig_top {
            layout.ig_top = g;
        }
        if let Some(g) = self.ig_bottom {
            layout.ig_bottom = g;
        }
        if let Some(g) = self.ig_right {
            layout.ig_right = g;
        }
        if let Some(g) = self.ig_left {
            layout.ig_left = g;
        }
    }

    /// Apply the split-share increments and decrements to `layout`. Each
    /// increment clamps so the share stays below one whole; each decrement
    /// clamps so it stays above zero.
    pub fn handle_ch_split(&self, layout: &mut BSPLayout)
        ensures
            *final(layout) == apply_ch_split(*self, *old(layout)),
    {
        if let Some(p) = self.inc_hsplit {
            if (layout.hsplit_perc as u64) + (p as u64) < PERC_SCALE as u64 {
                layout.hsplit_perc = layout.hsplit_perc + p;
            } else {
                layout.hsplit_perc = PERC_SCALE - 1;
            }
        }
        if let Some(p) = self.inc_vsplit {
            if (layout.vsplit_perc as u64) + (p as u64) < PERC_SCALE as u64 {
                layout.vsplit_perc = layout.vsplit_perc + p;
            } else {
                layout.vsplit_perc = PERC_SCALE - 1;
            }
        }
        if let Some(p) = self.dec_hsplit {
            if layout.hsplit_perc > p {
                layout.hsplit_perc = layout.hsplit_perc - p;
            } else {
                layout.hsplit_perc = 1;
            }
        }
        if let Some(p) = self.dec_vsplit {
            if layout.vsplit_perc > p {
                layout.vsplit_perc = layout.vsplit_perc - p;
            } else {
                layout.vsplit_perc = 1;
            }
        }
    }

    /// Apply the start-axis flags to `layout`.
    ///
    /// # Errors
    ///
    /// Both flags in one command contradict each other: the command fails
    /// with `BSPLayoutError::CmdError` and `layout` is left untouched.
    pub fn handle_start_split(&self, layout: &mut BSPLayout) -> (r: Result<(), BSPLayoutError>)
        ensures
            match r {
                Ok(()) => start_split_ok(*self) && *final(layout) == apply_start_split(
                    *self,
                    *old(layout),
                ),
                Err(e) => !start_split_ok(*self) && *final(layout) == *old(layout) && e matches
                    BSPLayoutError::CmdError(_),
            },
    {
        if self.start_hsplit && self.start_vsplit {
            return Err(
                BSPLayoutError::CmdError(
                    "start-hsplit and start-vsplit are mutually exclusive. Please select only one".to_owned(),
                ),
            );
        } else if self.start_hsplit && !self.start_vsplit {
            layout.start_hsplit = true;
        } else if self.start_vsplit && !self.start_hsplit {
            layout.start_hsplit = false;
        }
        Ok(())
    }

    /// Apply the split-share settings to `layout`.
    pub fn handle_set_split(&self, layout: &mut BSPLayout)
        ensures
            *final(layout) == apply_set_split(*self, *old(layout)),
    {
        if let Some(p) = self.default_split_perc {
            layout.hsplit_perc = p;
            layout.vsplit_perc = p;
        }
        if let Some(p) = self.vsplit_perc {
            layout.vsplit_perc = p;
        }
        if let Some(p) = self.hsplit_perc {
            layout.hsplit_perc = p;
        }
    }

    /// Apply the reversal toggle to `layout`.
    pub fn handle_reverse(&self, layout: &mut BSPLayout)
        ensures
            *final(layout) == apply_reverse(*self, *old(layout)),
    {
        if self.reverse {
            layout.reversed = !layout.reversed;
        }
    }
}

/// What a command line does to a configuration: the new configuration, or
/// nothing when the line does not parse or sets both start-axis flags.
pub open spec fn user_cmd_outcome(c: BSPLayout, s: Seq<char>) -> Option<BSPLayout> {
    match parse_cmdline(s) {
        Some(cmd) => if start_split_ok(cmd) {
            Some(apply_cmd(cmd, c))
        } else {
            None
        },
        None => None,
    }
}

impl BSPLayout {
    /// Interpret one command line and apply it to this configuration: parse
    /// it as [`parse_cmdline`] describes, then apply every sub-effect in
    /// the fixed order [`apply_cmd`] gives.
    ///
    /// # Errors
    ///
    /// Returns `BSPLayoutError::CmdError` exactly when the line does not
    /// parse — an unknown keyword, a malformed or out-of-range value, a
    /// repeated sub-effect — or when it sets both start-axis flags. On an
    /// error the configuration keeps its previous value in full: no
    /// sub-effect of a failed command is applied.
    pub fn user_cmd(&mut self, cmd: String, _tags: Option<u32>, _output: &str) -> (r: Result<
        (),
        BSPLayoutError,
    >)
        ensures
            match r {
                Ok(()) => user_cmd_outcome(*old(self), cmd@) == Some(*final(self)),
                Err(e) => user_cmd_outcome(*old(self), cmd@) is None && *final(self) == *old(self)
                    && e matches BSPLayoutError::CmdError(_),
            },
    {
        let parsed = match parse_user_cmd(cmd.as_str()) {
            Some(p) => p,
            None => {
                return Err(
                    BSPLayoutError::CmdError(
                        "Unrecognized or malformed layout command".to_owned(),
                    ),
                );
            },
        };
        match parsed.handle_start_split(self) {
            Err(e) => return Err(e),
            Ok(()) => {},
        }
        parsed.handle_reverse(self);
        parsed.handle_set_split(self);
        parsed.handle_outer_gaps(self);
        parsed.handle_inner_gaps(self);
        parsed.handle_ch_split(self);
        Ok(())
    }
}

/// Law: a command that only sets fields — no increment, no decrement, no
/// reversal toggle — is idempotent: applying it a second time leaves the
/// configuration exactly as one application did.
#[verifier::rlimit(50)]
pub proof fn lemma_set_cmd_idempotent(cmd: UserCmd, c: BSPLayout)
    requires
        cmd.inc_hsplit is None,
        cmd.inc_vsplit is None,
        cmd.dec_hsplit is None,
        cmd.dec_vsplit is None,
        !cmd.reverse,
    ensures
        apply_cmd(cmd, apply_cmd(cmd, c)) == apply_cmd(cmd, c),
{
}

/// Every split-share setting the command carries lies strictly inside the
/// open unit interval.
pub open spec fn cmd_set_percs_valid(cmd: UserCmd) -> bool {
    &&& (cmd.default_split_perc is Some ==> 0 < cmd.default_split_perc->0 < PERC_SCALE)
    &&& (cmd.hsplit_perc is Some ==> 0 < cmd.hsplit_perc->0 < PERC_SCALE)
    &&& (cmd.vsplit_perc is Some ==> 0 < cmd.vsplit_perc->0 < PERC_SCALE)
}

/// Law: a command whose split-share settings lie inside the open unit
/// interval keeps the configuration's split shares valid: settings are
/// valid by assumption, and increments and decrements clamp back into the
/// interval.
pub proof fn lemma_apply_preserves_valid_percs(cmd: UserCmd, c: BSPLayout)
    requires
        c.percs_valid(),
        cmd_set_percs_valid(cmd),
    ensures
        apply_cmd(cmd, c).percs_valid(),
{
}

/// Law: a command line that applies keeps valid split shares valid: the
/// grammar admits only in-range settings, and increments and decrements
/// clamp. Layout generation therefore keeps succeeding on a configuration
/// steered by commands alone.
pub proof fn lemma_user_cmd_keeps_valid_percs(c: BSPLayout, s: Seq<char>)
    requires
        c.percs_valid(),
        user_cmd_outcome(c, s) is Some,
    ensures
        user_cmd_outcome(c, s)->0.percs_valid(),
{
    crate::parse::lemma_parsed_set_percs_valid(
        crate::parse::split_on(s, ' '),
        empty_user_cmd(),
    );
    lemma_apply_preserves_valid_percs(parse_cmdline(s)->0, c);
}

} // verus!

//! The colorization policy: whether styling should be emitted at all.
//!
//! The policy has three tiers, evaluated in order: an explicit override (set
//! at runtime, wins when present), then the `NO_COLOR` environment variable
//! (its mere presence forces styling off), then a capability probe (whether
//! standard output is attached to a terminal). The hosting application reads
//! `NO_COLOR` once and hands its presence in when it builds the policy value;
//! it is also expected to hold one policy value for the whole process and to
//! guard it with its own synchronization when several threads share it.

use vstd::prelude::*;

verus! {

/// The colorization policy state.
#[derive(Clone, Copy, Debug)]
pub struct Control {
    pub overridden: Option<bool>,
    pub no_color: bool,
    pub stdout_tty: bool,
}

/// Relies on `atty::is(atty::Stream::Stdout)`: reports whether standard
/// output is attached to a terminal device. The answer depends on the
/// process's environment, so nothing is assumed about it.
#[verifier::external_body]
fn stdout_is_tty() -> bool {
    atty::is(atty::Stream::Stdout)
}

impl Control {
    /// The explicit override, if one is set.
    pub open spec fn spec_override(self) -> Option<bool> {
        self.overridden
    }

    /// Whether the `NO_COLOR` variable was present when the policy was built.
    pub open spec fn spec_no_color(self) -> bool {
        self.no_color
    }

    /// Whether the capability probe found a terminal on standard output.
    pub open spec fn spec_tty(self) -> bool {
        self.stdout_tty
    }

    /// The three-tier decision: the override wins when set; otherwise the
    /// presence of `NO_COLOR` forces styling off; otherwise the capability
    /// probe decides.
    pub open spec fn spec_should_colorize(self) -> bool {
        match self.overridden {
            Some(on) => on,
            None => !self.no_color && self.stdout_tty,
        }
    }

    /// Builds the policy from its three inputs, with no probe performed.
    pub fn from_parts(overridden: Option<bool>, no_color: bool, stdout_tty: bool) -> (c: Control)
        ensures
            c.spec_override() == overridden,
            c.spec_no_color() == no_color,
            c.spec_tty() == stdout_tty,
    {
        Control { overridden, no_color, stdout_tty }
    }

    /// Builds the policy with no override set, probing standard output once
    /// for terminal capability. The caller reports whether the `NO_COLOR`
    /// environment variable is present.
    pub fn from_env(no_color: bool) -> (c: Control)
        ensures
            c.spec_override() is None,
            c.spec_no_color() == no_color,
    {
        Control { overridden: None, no_color, stdout_tty: stdout_is_tty() }
    }

    /// Whether styling should be emitted, per the three-tier decision.
    pub fn should_colorize(&self) -> (r: bool)
        ensures
            r == self.spec_should_colorize(),
    {
        match self.overridden {
            Some(on) => on,
            None => !self.no_color && self.stdout_tty,
        }
    }

    /// Sets the explicit override; until unset it alone decides.
    pub fn set_override(&mut self, on: bool)
        ensures
            final(self).spec_override() == Some(on),
            final(self).spec_no_color() == old(self).spec_no_color(),
            final(self).spec_tty() == old(self).spec_tty(),
            final(self).spec_should_colorize() == on,
    {
        self.overridden = Some(on);
    }

    /// Removes the explicit override; the environment variable and the probe
    /// decide again.
    pub fn unset_override(&mut self)
        ensures
            final(self).spec_override() is None,
            final(self).spec_no_color() == old(self).spec_no_color(),
            final(self).spec_tty() == old(self).spec_tty(),
            final(self).spec_should_colorize() == (!old(self).spec_no_color() && old(
                self,
            ).spec_tty()),
    {
        self.overridden = None;
    }
}

} // verus!

//! Compliance boundaries on personality traits.

use vstd::prelude::*;
use crate::personality::profile::RiskTolerance;
use crate::text::position_of;

verus! {

/// Constraints that limit what a personality profile may contain.
#[derive(Debug, Clone)]
pub struct PersonalityBoundary {
    /// Maximum allowed risk tolerance; profiles exceeding it are rejected.
    pub max_risk_tolerance: Option<RiskTolerance>,
    /// Allowed communication tones (empty = all allowed).
    pub allowed_tones: Vec<String>,
    /// Forbidden custom traits (by key name).
    pub forbidden_custom_traits: Vec<String>,
    /// Whether task-level personality overrides are permitted.
    pub allow_task_overlays: bool,
    /// Whether custom personalities may be loaded from plugins.
    pub allow_plugin_personalities: bool,
    /// Maximum verbosity level permitted.
    pub max_verbosity: Option<u8>,
}

impl Default for PersonalityBoundary {
    /// A boundary that permits everything.
    fn default() -> (r: Self)
        ensures
            r.max_risk_tolerance is None,
            r.allowed_tones@.len() == 0,
            r.forbidden_custom_traits@.len() == 0,
            r.allow_task_overlays,
            r.allow_plugin_personalities,
            r.max_verbosity is None,
    {
        PersonalityBoundary {
            max_risk_tolerance: None,
            allowed_tones: Vec::new(),
            forbidden_custom_traits: Vec::new(),
            allow_task_overlays: true,
            allow_plugin_personalities: true,
            max_verbosity: None,
        }
    }
}

/// Whether `tone` is among the allowed tones, every tone being allowed when
/// the list is empty.
pub open spec fn tone_allowed(allowed: Seq<String>, tone: Seq<char>) -> bool {
    allowed.len() == 0 || exists|i: int| 0 <= i < allowed.len() && #[trigger] allowed[i]@ == tone
}

impl PersonalityBoundary {
    /// Whether a risk tolerance is at or below the maximum (always, when
    /// there is none).
    pub fn risk_within_bounds(&self, risk: RiskTolerance) -> (r: bool)
        ensures
            r == (self.max_risk_tolerance matches Some(max) ==> risk.rank() <= max.rank()),
            self.max_risk_tolerance matches Some(max) ==> (r <==> !crate::personality::profile::riskier(risk, max)),
            self.max_risk_tolerance is None ==> r,
    {
        proof {
            if self.max_risk_tolerance is Some {
                crate::personality::profile::lemma_risk_levels_rise(risk, self.max_risk_tolerance->Some_0);
            }
        }
        match self.max_risk_tolerance {
            None => true,
            Some(max) => risk.level() <= max.level(),
        }
    }

    /// Whether a tone is allowed; with no allowed tones listed, every tone is.
    pub fn tone_within_bounds(&self, tone: &str) -> (r: bool)
        ensures
            r == tone_allowed(self.allowed_tones@, tone@),
    {
        if self.allowed_tones.len() == 0 {
            return true;
        }
        match position_of(self.allowed_tones.as_slice(), tone) {
            Some(_) => true,
            None => false,
        }
    }

    /// Whether a verbosity level is at or below the maximum (always, when
    /// there is none).
    pub fn verbosity_within_bounds(&self, verbosity: u8) -> (r: bool)
        ensures
            r == (self.max_verbosity matches Some(max) ==> verbosity <= max),
    {
        match self.max_verbosity {
            None => true,
            Some(max) => verbosity <= max,
        }
    }
}

} // verus!

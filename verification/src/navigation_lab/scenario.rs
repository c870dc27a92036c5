//! The five synthetic scenarios the laboratory runs, and the verdict a run's
//! validation reaches.

use vstd::prelude::*;

use super::text::{chars_of, same_chars};

verus! {

/// A synthetic mission scenario.
#[derive(Clone, Copy, Debug, PartialEq, Eq, Structural)]
pub enum Scenario {
    Inspection,
    Blocked,
    StaleSensor,
    LinkLoss,
    Unknown,
}

/// The name a scenario is requested and reported by.
pub open spec fn scenario_name(s: Scenario) -> Seq<char> {
    match s {
        Scenario::Inspection => "inspection"@,
        Scenario::Blocked => "blocked"@,
        Scenario::StaleSensor => "stale"@,
        Scenario::LinkLoss => "link"@,
        Scenario::Unknown => "unknown"@,
    }
}

/// The scenario with name `t`, if any.
pub open spec fn scenario_named(t: Seq<char>) -> Option<Scenario> {
    if t == "inspection"@ {
        Some(Scenario::Inspection)
    } else if t == "blocked"@ {
        Some(Scenario::Blocked)
    } else if t == "stale"@ {
        Some(Scenario::StaleSensor)
    } else if t == "link"@ {
        Some(Scenario::LinkLoss)
    } else if t == "unknown"@ {
        Some(Scenario::Unknown)
    } else {
        None
    }
}

impl Scenario {
    /// The scenario named exactly `s`.
    pub fn parse(s: &str) -> (out: Option<Scenario>)
        ensures
            out == scenario_named(s@),
    {
        let cs = chars_of(s);
        Self::parse_chars(cs.as_slice())
    }

    /// The scenario named exactly by the characters `s`.
    pub fn parse_chars(s: &[char]) -> (out: Option<Scenario>)
        ensures
            out == scenario_named(s@),
    {
        if same_chars(s, "inspection") {
            Some(Scenario::Inspection)
        } else if same_chars(s, "blocked") {
            Some(Scenario::Blocked)
        } else if same_chars(s, "stale") {
            Some(Scenario::StaleSensor)
        } else if same_chars(s, "link") {
            Some(Scenario::LinkLoss)
        } else if same_chars(s, "unknown") {
            Some(Scenario::Unknown)
        } else {
            None
        }
    }

    /// The scenario's name.
    pub fn name(self) -> (n: &'static str)
        ensures
            n@ == scenario_name(self),
    {
        match self {
            Scenario::Inspection => "inspection",
            Scenario::Blocked => "blocked",
            Scenario::StaleSensor => "stale",
            Scenario::LinkLoss => "link",
            Scenario::Unknown => "unknown",
        }
    }
}

/// Parsing a scenario's name gives the scenario back, so every scenario can
/// be requested by the name it is reported under.
pub proof fn law_scenario_name_round_trips(s: Scenario)
    ensures
        scenario_named(scenario_name(s)) == Some(s),
{
    reveal_strlit("inspection");
    reveal_strlit("blocked");
    reveal_strlit("stale");
    reveal_strlit("link");
    reveal_strlit("unknown");
    assert("inspection"@.len() == 10 && "blocked"@.len() == 7 && "stale"@.len() == 5);
    assert("link"@.len() == 4 && "unknown"@.len() == 7);
    assert("blocked"@[0] != "unknown"@[0]);
}

/// What validating one simulated run found.
#[derive(Clone, Copy, Debug, PartialEq, Eq, Structural)]
pub struct Validation {
    pub collisions: usize,
    pub geofence: usize,
    pub dynamics: usize,
    pub expected: bool,
}

impl Validation {
    /// A run passes when nothing collided, left the geofence or broke the
    /// dynamic limits, and it ended the way its scenario demands.
    pub fn passed(&self) -> (ok: bool)
        ensures
            ok == (self.collisions == 0 && self.geofence == 0 && self.dynamics == 0
                && self.expected),
    {
        self.collisions == 0 && self.geofence == 0 && self.dynamics == 0 && self.expected
    }
}

} // verus!

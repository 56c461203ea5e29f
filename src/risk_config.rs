//! Per-issue-code risk weights and severity overrides.
use crate::text::str_eq;
use vstd::prelude::*;

verus! {

/// Risk weights by issue code and severity overrides by issue code. Keys are looked up
/// first match first, as a map would hold them.
#[derive(Debug, Clone)]
pub struct RiskConfig {
    pub issue_weights: Vec<(String, u32)>,
    pub severity_overrides: Vec<(String, String)>,
}

pub struct RiskConfigV {
    pub weights: Seq<(Seq<char>, u32)>,
    pub overrides: Seq<(Seq<char>, Seq<char>)>,
}

impl View for RiskConfig {
    type V = RiskConfigV;

    open spec fn view(&self) -> RiskConfigV {
        RiskConfigV {
            weights: self.issue_weights@.map_values(|p: (String, u32)| (p.0@, p.1)),
            overrides: self.severity_overrides@.map_values(|p: (String, String)| (p.0@, p.1@)),
        }
    }
}

/// The weight stored for `code`, 0 where there is none.
pub open spec fn weight_of(w: Seq<(Seq<char>, u32)>, code: Seq<char>) -> u32
    decreases w.len(),
{
    if w.len() == 0 {
        0
    } else if w[0].0 == code {
        w[0].1
    } else {
        weight_of(w.drop_first(), code)
    }
}

pub open spec fn override_of(o: Seq<(Seq<char>, Seq<char>)>, code: Seq<char>) -> Option<Seq<char>>
    decreases o.len(),
{
    if o.len() == 0 {
        None
    } else if o[0].0 == code {
        Some(o[0].1)
    } else {
        override_of(o.drop_first(), code)
    }
}

/// Index of the first entry under `code` at or after `i`, or -1.
pub open spec fn override_index_from(o: Seq<(Seq<char>, u32)>, code: Seq<char>, i: int) -> int
    decreases o.len() - i,
{
    if i < 0 || i >= o.len() {
        -1
    } else if o[i].0 == code {
        i
    } else {
        override_index_from(o, code, i + 1)
    }
}

pub open spec fn override_index(o: Seq<(Seq<char>, u32)>, code: Seq<char>) -> int {
    override_index_from(o, code, 0)
}

/// The built-in weights.
pub open spec fn default_weights() -> Seq<(Seq<char>, u32)> {
    seq![
        ("DOCKER_INACTIVE"@, 10u32),
        ("PORT_8000_BOUND"@, 100u32),
        ("SIM_PORT_8000_CONFLICT"@, 20u32),
        ("SIM_DOCKER_COMPOSE"@, 15u32),
    ]
}

fn weight_entry(code: &str, w: u32) -> (r: (String, u32))
    ensures
        r.0@ == code@,
        r.1 == w,
{
    (String::from_str(code), w)
}

/// The configuration used where none can be read.
pub fn default_config() -> (r: RiskConfig)
    ensures
        r@.weights == default_weights(),
        r@.overrides.len() == 0,
{
    let mut w: Vec<(String, u32)> = Vec::new();
    w.push(weight_entry("DOCKER_INACTIVE", 10));
    w.push(weight_entry("PORT_8000_BOUND", 100));
    w.push(weight_entry("SIM_PORT_8000_CONFLICT", 20));
    w.push(weight_entry("SIM_DOCKER_COMPOSE", 15));
    let r = RiskConfig { issue_weights: w, severity_overrides: Vec::new() };
    assert(r@.weights =~= default_weights());
    assert(r@.overrides =~= Seq::<(Seq<char>, Seq<char>)>::empty());
    r
}

impl RiskConfig {
    /// The configuration to use given what could be read: the built-in defaults where
    /// nothing could be read or parsed, or where the weights read are empty.
    pub fn from_loaded(loaded: Option<RiskConfig>) -> (r: RiskConfig)
        ensures
            match loaded {
                Some(c) => if c.issue_weights.len() > 0 {
                    r@ == c@
                } else {
                    r@.weights == default_weights() && r@.overrides.len() == 0
                },
                None => r@.weights == default_weights() && r@.overrides.len() == 0,
            },
    {
        match loaded {
            Some(c) => if c.issue_weights.len() > 0 {
                c
            } else {
                default_config()
            },
            None => default_config(),
        }
    }

    pub fn weight_for(&self, code: &str) -> (r: u32)
        ensures
            r == weight_of(self@.weights, code@),
    {
        let ghost w = self@.weights;
        assert(w.skip(0) =~= w);
        let mut i: usize = 0;
        while i < self.issue_weights.len()
            invariant
                w == self@.weights,
                i <= self.issue_weights.len(),
                weight_of(w, code@) == weight_of(w.skip(i as int), code@),
            decreases self.issue_weights.len() - i,
        {
            assert(w.skip(i as int)[0] == w[i as int]);
            assert(w.skip(i as int).drop_first() =~= w.skip(i + 1));
            if str_eq(self.issue_weights[i].0.as_str(), code) {
                return self.issue_weights[i].1;
            }
            i += 1;
        }
        0
    }

    pub fn severity_override(&self, code: &str) -> (r: Option<String>)
        ensures
            override_of(self@.overrides, code@) == (match r {
                Some(s) => Some(s@),
                None => None::<Seq<char>>,
            }),
    {
        let ghost o = self@.overrides;
        assert(o.skip(0) =~= o);
        let mut i: usize = 0;
        while i < self.severity_overrides.len()
            invariant
                o == self@.overrides,
                i <= self.severity_overrides.len(),
                override_of(o, code@) == override_of(o.skip(i as int), code@),
            decreases self.severity_overrides.len() - i,
        {
            assert(o.skip(i as int)[0] == o[i as int]);
            assert(o.skip(i as int).drop_first() =~= o.skip(i + 1));
            if str_eq(self.severity_overrides[i].0.as_str(), code) {
                return Some(self.severity_overrides[i].1.clone());
            }
            i += 1;
        }
        None
    }
}

} // verus!

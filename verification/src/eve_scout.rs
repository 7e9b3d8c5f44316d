//! Normalization of the stateless public-signature feed.
//!
//! The payload is already a flat list of bidirectional wormhole records with
//! explicit signatures; no age-based life computation applies, so every
//! record is treated as stable on both counts. Normalization only computes
//! the `(count, latest update)` marker, rejecting a payload whose update
//! times cannot be parsed.

use vstd::prelude::*;

use crate::feedtime::eve_scout_time_of;
use crate::feedtime::parse_eve_scout_time;

verus! {

/// One record as the feed reports it.
#[derive(Debug, Clone)]
pub struct EveScoutWormhole {
    pub out_system_id: u32,
    pub out_signature: String,
    pub in_system_id: u32,
    pub in_signature: String,
    pub remaining_hours: u32,
    pub wh_type: String,
    pub updated_at: String,
}

/// The mathematical value of a record.
pub struct EveScoutWormholeView {
    pub out_system_id: u32,
    pub out_signature: Seq<char>,
    pub in_system_id: u32,
    pub in_signature: Seq<char>,
    pub remaining_hours: u32,
    pub wh_type: Seq<char>,
    pub updated_at: Seq<char>,
}

impl DeepView for EveScoutWormhole {
    type V = EveScoutWormholeView;

    open spec fn deep_view(&self) -> EveScoutWormholeView {
        EveScoutWormholeView {
            out_system_id: self.out_system_id,
            out_signature: self.out_signature@,
            in_system_id: self.in_system_id,
            in_signature: self.in_signature@,
            remaining_hours: self.remaining_hours,
            wh_type: self.wh_type@,
            updated_at: self.updated_at@,
        }
    }
}

/// One normalized refresh of the feed.
#[derive(Debug, Clone)]
pub struct EveScoutRefresh {
    pub wormholes: Vec<EveScoutWormhole>,
    pub signature_count: usize,
    pub signature_time: i64,
}

impl PartialEq for EveScoutRefresh {
    fn eq(&self, other: &EveScoutRefresh) -> (r: bool)
        ensures
            r == (self.signature_time == other.signature_time && self.signature_count
                == other.signature_count),
    {
        self.signature_time == other.signature_time && self.signature_count
            == other.signature_count
    }
}

impl vstd::std_specs::cmp::PartialEqSpecImpl for EveScoutRefresh {
    open spec fn obeys_eq_spec() -> bool {
        true
    }

    open spec fn eq_spec(&self, other: &EveScoutRefresh) -> bool {
        self.signature_time == other.signature_time && self.signature_count
            == other.signature_count
    }
}

/// Whether every record's update time is well-formed.
pub open spec fn scout_times_ok(ws: Seq<EveScoutWormholeView>) -> bool {
    forall|i: int| 0 <= i < ws.len() ==> eve_scout_time_of(#[trigger] ws[i].updated_at) is Some
}

/// The latest update time among the records, or the Unix epoch when there
/// are none; meaningful only when every update time is well-formed.
pub open spec fn scout_max_time(ws: Seq<EveScoutWormholeView>) -> i64
    decreases ws.len(),
{
    if ws.len() == 0 {
        0
    } else {
        let rest = scout_max_time(ws.drop_last());
        match eve_scout_time_of(ws.last().updated_at) {
            Option::Some(t) => if t > rest {
                t
            } else {
                rest
            },
            Option::None => rest,
        }
    }
}

/// Normalization of one feed payload: the records are kept as they are, and
/// the refresh marker is the record count plus the latest update time.
pub fn eve_scout_refresh_from_wormholes(wormholes: Vec<EveScoutWormhole>) -> (r: Result<
    EveScoutRefresh,
    String,
>)
    ensures
        ({
            let wv = wormholes.deep_view();
            if scout_times_ok(wv) {
                r matches Ok(out) && out.wormholes == wormholes && out.signature_count == wv.len()
                    && out.signature_time == scout_max_time(wv)
            } else {
                r matches Err(e) && e@ == "EvE-Scout failed to parse wormhole updated_at"@
            }
        }),
{
    let n = wormholes.len();
    let mut latest: i64 = 0;
    let mut i: usize = 0;
    proof {
        assert(wormholes.deep_view().take(0) =~= Seq::<EveScoutWormholeView>::empty());
    }
    while i < n
        invariant
            0 <= i <= n,
            n == wormholes.len(),
            latest == scout_max_time(wormholes.deep_view().take(i as int)),
            forall|k: int|
                0 <= k < i ==> eve_scout_time_of(
                    #[trigger] wormholes.deep_view()[k].updated_at,
                ) is Some,
        decreases n - i,
    {
        let ghost wv = wormholes.deep_view();
        proof {
            assert(wv.take(i + 1).drop_last() =~= wv.take(i as int));
            assert(wv.take(i + 1).last() == wv[i as int]);
        }
        match parse_eve_scout_time(wormholes[i].updated_at.as_str()) {
            Option::None => {
                proof {
                    assert(wv[i as int].updated_at == wormholes@[i as int].updated_at@);
                    assert(!scout_times_ok(wv));
                }
                return Err(String::from_str("EvE-Scout failed to parse wormhole updated_at"));
            },
            Option::Some(t) => {
                if t > latest {
                    latest = t;
                }
            },
        }
        i = i + 1;
    }
    proof {
        assert(wormholes.deep_view().take(n as int) =~= wormholes.deep_view());
    }
    let signature_count = n;
    Ok(EveScoutRefresh { wormholes, signature_count, signature_time: latest })
}

} // verus!

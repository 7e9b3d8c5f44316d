//! Normalization of the stateful wormhole feed.
//!
//! One payload carries a map of signature records (each with a referenced
//! system, an optional signature label, a creation time and a modification
//! time) and a map of wormhole records referencing two signatures plus a type
//! code and status fields. Normalization classifies every wormhole record
//! into a canonical `TripwireWormhole`, dropping records that are too old,
//! label-less on both ends, or gates already covered by the static topology,
//! and computes the `(count, latest modification)` marker echoed back to the
//! feed on the next poll.

use vstd::prelude::*;

use crate::feedtime::parse_tripwire_time;
use crate::feedtime::tripwire_time_of;
use crate::text::parse_u32;
use crate::text::parsed_u32;
use crate::text::str_eq;
use crate::text::to_upper;
use crate::text::upper_of;

verus! {

/// Whether a wormhole is freshly formed or nearing the end of its lifetime.
#[derive(Debug, Clone, Copy, PartialEq, Eq, Structural)]
pub enum WormholeLife {
    Stable,
    EOL,
}

/// How much more traversal a wormhole can sustain before collapsing.
#[derive(Debug, Clone, Copy, PartialEq, Eq, Structural)]
pub enum WormholeMass {
    Stable,
    Destab,
    VOC,
}

/// A signature's referenced destination: either a known system or only a
/// class of space, when the far side has not been identified.
#[derive(Debug, Clone, Copy, PartialEq, Eq, Structural)]
pub enum SystemOrClass {
    SpecificSystem(u32),
    Nullsec,
    Lowsec,
    Highsec,
    Class1,
    Class2,
    Class3,
    Class4,
    Class5,
    Class6,
    Class13,
    Pochven,
    Unknown,
}

/// How the feed encodes a destination: absent means unknown, the ten small
/// codes stand for classes of space, anything else is a system id.
pub open spec fn system_or_class_of(item: Option<u32>) -> SystemOrClass {
    match item {
        Option::None => SystemOrClass::Unknown,
        Option::Some(0u32) => SystemOrClass::Nullsec,
        Option::Some(1u32) => SystemOrClass::Lowsec,
        Option::Some(2u32) => SystemOrClass::Highsec,
        Option::Some(3u32) => SystemOrClass::Class1,
        Option::Some(4u32) => SystemOrClass::Class2,
        Option::Some(5u32) => SystemOrClass::Class3,
        Option::Some(6u32) => SystemOrClass::Class4,
        Option::Some(7u32) => SystemOrClass::Class5,
        Option::Some(8u32) => SystemOrClass::Class6,
        Option::Some(9u32) => SystemOrClass::Class13,
        Option::Some(10u32) => SystemOrClass::Pochven,
        Option::Some(v) => SystemOrClass::SpecificSystem(v),
    }
}

impl Default for SystemOrClass {
    fn default() -> (r: Self)
        ensures
            r == SystemOrClass::Unknown,
    {
        SystemOrClass::Unknown
    }
}

impl From<Option<u32>> for SystemOrClass {
    fn from(item: Option<u32>) -> (r: Self) {
        match item {
            Option::None => SystemOrClass::Unknown,
            Option::Some(0u32) => SystemOrClass::Nullsec,
            Option::Some(1u32) => SystemOrClass::Lowsec,
            Option::Some(2u32) => SystemOrClass::Highsec,
            Option::Some(3u32) => SystemOrClass::Class1,
            Option::Some(4u32) => SystemOrClass::Class2,
            Option::Some(5u32) => SystemOrClass::Class3,
            Option::Some(6u32) => SystemOrClass::Class4,
            Option::Some(7u32) => SystemOrClass::Class5,
            Option::Some(8u32) => SystemOrClass::Class6,
            Option::Some(9u32) => SystemOrClass::Class13,
            Option::Some(10u32) => SystemOrClass::Pochven,
            Option::Some(v) => SystemOrClass::SpecificSystem(v),
        }
    }
}

impl vstd::std_specs::convert::FromSpecImpl<Option<u32>> for SystemOrClass {
    open spec fn obeys_from_spec() -> bool {
        true
    }

    open spec fn from_spec(item: Option<u32>) -> SystemOrClass {
        system_or_class_of(item)
    }
}

/// One wormhole record as the feed reports it.
#[derive(Debug, Clone)]
pub struct TripwireWormholeRaw {
    pub initial_id: String,
    pub secondary_id: String,
    pub wormhole_type: Option<String>,
    pub life: String,
    pub mass: String,
}

/// The mathematical value of a raw wormhole record.
pub struct WormholeRawView {
    pub initial_id: Seq<char>,
    pub secondary_id: Seq<char>,
    pub wormhole_type: Option<Seq<char>>,
    pub life: Seq<char>,
    pub mass: Seq<char>,
}

impl DeepView for TripwireWormholeRaw {
    type V = WormholeRawView;

    open spec fn deep_view(&self) -> WormholeRawView {
        WormholeRawView {
            initial_id: self.initial_id@,
            secondary_id: self.secondary_id@,
            wormhole_type: self.wormhole_type.deep_view(),
            life: self.life@,
            mass: self.mass@,
        }
    }
}

/// One signature record as the feed reports it.
#[derive(Debug, Clone)]
pub struct TripwireSignatureRaw {
    pub system_id: Option<String>,
    pub signature_id: Option<String>,
    pub life_time: String,
    pub modified_time: String,
}

/// The mathematical value of a raw signature record.
pub struct SignatureRawView {
    pub system_id: Option<Seq<char>>,
    pub signature_id: Option<Seq<char>>,
    pub life_time: Seq<char>,
    pub modified_time: Seq<char>,
}

impl DeepView for TripwireSignatureRaw {
    type V = SignatureRawView;

    open spec fn deep_view(&self) -> SignatureRawView {
        SignatureRawView {
            system_id: self.system_id.deep_view(),
            signature_id: self.signature_id.deep_view(),
            life_time: self.life_time@,
            modified_time: self.modified_time@,
        }
    }
}

/// One feed payload: both maps are optional, and an absent signature map is
/// the feed's "no changes since your marker" reply.
#[derive(Debug, Clone)]
pub struct TripwireRaw {
    pub signatures: Option<Vec<(String, TripwireSignatureRaw)>>,
    pub wormholes: Option<Vec<(String, TripwireWormholeRaw)>>,
}

/// A canonical wormhole: one accepted record, prior to its expansion into
/// the two directed edges of the graph.
#[derive(Debug, Clone)]
pub struct TripwireWormhole {
    pub from_system: u32,
    pub to_system: SystemOrClass,
    pub from_signature: Option<String>,
    pub to_signature: Option<String>,
    pub wormhole_type: Option<String>,
    pub life_time: i64,
    pub life: WormholeLife,
    pub mass: WormholeMass,
}

/// The mathematical value of a canonical wormhole.
pub struct TripwireWormholeView {
    pub from_system: u32,
    pub to_system: SystemOrClass,
    pub from_signature: Option<Seq<char>>,
    pub to_signature: Option<Seq<char>>,
    pub wormhole_type: Option<Seq<char>>,
    pub life_time: i64,
    pub life: WormholeLife,
    pub mass: WormholeMass,
}

impl DeepView for TripwireWormhole {
    type V = TripwireWormholeView;

    open spec fn deep_view(&self) -> TripwireWormholeView {
        TripwireWormholeView {
            from_system: self.from_system,
            to_system: self.to_system,
            from_signature: self.from_signature.deep_view(),
            to_signature: self.to_signature.deep_view(),
            wormhole_type: self.wormhole_type.deep_view(),
            life_time: self.life_time,
            life: self.life,
            mass: self.mass,
        }
    }
}

/// One normalized refresh: the canonical wormholes plus the `(count, latest
/// modification time)` marker echoed back to the feed on the next poll.
#[derive(Debug, Clone)]
pub struct TripwireRefresh {
    pub wormholes: Vec<TripwireWormhole>,
    pub signature_count: usize,
    pub signature_time: i64,
}

impl PartialEq for TripwireRefresh {
    fn eq(&self, other: &TripwireRefresh) -> (r: bool)
        ensures
            r == (self.signature_time == other.signature_time && self.signature_count
                == other.signature_count),
    {
        self.signature_time == other.signature_time && self.signature_count
            == other.signature_count
    }
}

impl vstd::std_specs::cmp::PartialEqSpecImpl for TripwireRefresh {
    open spec fn obeys_eq_spec() -> bool {
        true
    }

    open spec fn eq_spec(&self, other: &TripwireRefresh) -> bool {
        self.signature_time == other.signature_time && self.signature_count
            == other.signature_count
    }
}

/// A signature after field-level parsing.
#[derive(Debug, Clone)]
pub struct ParsedSignature {
    pub system: SystemOrClass,
    pub label: Option<String>,
    pub life_time: i64,
    pub modified_time: i64,
}

/// The mathematical value of a parsed signature.
pub struct ParsedSignatureView {
    pub system: SystemOrClass,
    pub label: Option<Seq<char>>,
    pub life_time: i64,
    pub modified_time: i64,
}

impl DeepView for ParsedSignature {
    type V = ParsedSignatureView;

    open spec fn deep_view(&self) -> ParsedSignatureView {
        ParsedSignatureView {
            system: self.system,
            label: self.label.deep_view(),
            life_time: self.life_time,
            modified_time: self.modified_time,
        }
    }
}

/// A signature label, normalized: the feed's placeholder `???` means no
/// label, and any reported label is folded to upper case.
pub open spec fn sig_label(raw: Option<Seq<char>>) -> Option<Seq<char>> {
    match raw {
        Option::None => Option::None,
        Option::Some(s) => if s == "???"@ {
            Option::None
        } else {
            Option::Some(upper_of(s))
        },
    }
}

/// A wormhole type code, normalized: the feed's placeholders `????` and the
/// empty string mean no code.
pub open spec fn type_label(raw: Option<Seq<char>>) -> Option<Seq<char>> {
    match raw {
        Option::None => Option::None,
        Option::Some(s) => if s == "????"@ || s == ""@ {
            Option::None
        } else {
            Option::Some(s)
        },
    }
}

/// Life classification: a wormhole reported `stable` is end-of-life once its
/// age reaches twenty hours; one reported `critical` always is. Any other
/// report is malformed.
pub open spec fn life_of(status: Seq<char>, age: int) -> Option<WormholeLife> {
    if status == "stable"@ {
        if age < 72000 {
            Option::Some(WormholeLife::Stable)
        } else {
            Option::Some(WormholeLife::EOL)
        }
    } else if status == "critical"@ {
        Option::Some(WormholeLife::EOL)
    } else {
        Option::None
    }
}

/// Mass classification: a direct mapping of the three reported values. Any
/// other report is malformed.
pub open spec fn mass_of(status: Seq<char>) -> Option<WormholeMass> {
    if status == "stable"@ {
        Option::Some(WormholeMass::Stable)
    } else if status == "destab"@ {
        Option::Some(WormholeMass::Destab)
    } else if status == "critical"@ {
        Option::Some(WormholeMass::VOC)
    } else {
        Option::None
    }
}

/// Field-level parsing of one signature record.
pub open spec fn parse_signature(v: SignatureRawView) -> Result<ParsedSignatureView, Seq<char>> {
    let system = match v.system_id {
        Option::None => Result::<SystemOrClass, Seq<char>>::Ok(system_or_class_of(Option::None)),
        Option::Some(s) => match parsed_u32(s) {
            Option::None => Result::Err("Tripwire systemID format wrong"@),
            Option::Some(n) => Result::Ok(system_or_class_of(Option::Some(n))),
        },
    };
    match system {
        Result::Err(m) => Result::Err(m),
        Result::Ok(system) => match tripwire_time_of(v.life_time) {
            Option::None => Result::Err("Tripwire lifeTime format wrong"@),
            Option::Some(life_time) => match tripwire_time_of(v.modified_time) {
                Option::None => Result::Err("Tripwire modifiedTime format wrong"@),
                Option::Some(modified_time) => Result::Ok(
                    ParsedSignatureView {
                        system,
                        label: sig_label(v.signature_id),
                        life_time,
                        modified_time,
                    },
                ),
            },
        },
    }
}

/// Field-level parsing of every signature record, in payload order, stopping
/// at the first malformed one.
pub open spec fn parse_signatures(sigs: Seq<(Seq<char>, SignatureRawView)>) -> Result<
    Seq<(Seq<char>, ParsedSignatureView)>,
    Seq<char>,
>
    decreases sigs.len(),
{
    if sigs.len() == 0 {
        Result::Ok(Seq::empty())
    } else {
        match parse_signature(sigs[0].1) {
            Result::Err(m) => Result::Err(m),
            Result::Ok(p) => match parse_signatures(sigs.drop_first()) {
                Result::Err(m) => Result::Err(m),
                Result::Ok(rest) => Result::Ok(seq![(sigs[0].0, p)] + rest),
            },
        }
    }
}

/// The latest modification time among the parsed signatures, or `i64::MIN`
/// when there are none.
pub open spec fn max_modified(sigs: Seq<(Seq<char>, ParsedSignatureView)>) -> i64
    decreases sigs.len(),
{
    if sigs.len() == 0 {
        i64::MIN
    } else {
        let rest = max_modified(sigs.drop_last());
        if sigs.last().1.modified_time > rest {
            sigs.last().1.modified_time
        } else {
            rest
        }
    }
}

/// The first signature stored under `key`, if any.
pub open spec fn lookup_signature(
    sigs: Seq<(Seq<char>, ParsedSignatureView)>,
    key: Seq<char>,
) -> Option<ParsedSignatureView>
    decreases sigs.len(),
{
    if sigs.len() == 0 {
        Option::None
    } else if sigs[0].0 == key {
        Option::Some(sigs[0].1)
    } else {
        lookup_signature(sigs.drop_first(), key)
    }
}

/// Classification of one wormhole record: `Err` for malformed data, `Ok(None)`
/// for a record dropped by a domain rule, `Ok(Some(_))` for an accepted one.
///
/// Drop rules, in order: the initial signature must reference a specific
/// system; records older than twenty-four hours are gone; records with no
/// label on either end are artifacts of a pilot's death, not real links; and
/// gates (by type code or by the reserved `GAT` label) are already covered by
/// the static topology.
pub open spec fn classify_wormhole(
    sigs: Seq<(Seq<char>, ParsedSignatureView)>,
    id: Seq<char>,
    w: WormholeRawView,
    now: i64,
) -> Result<Option<TripwireWormholeView>, Seq<char>> {
    match lookup_signature(sigs, w.initial_id) {
        Option::None => Result::Err("Tripwire initial signature details missing from "@ + id),
        Option::Some(from) => match lookup_signature(sigs, w.secondary_id) {
            Option::None => Result::Err(
                "Tripwire secondary signature details missing from "@ + id,
            ),
            Option::Some(to) => if !(from.system is SpecificSystem) {
                Result::Ok(Option::None)
            } else {
                let life_time = if from.life_time > to.life_time {
                    from.life_time
                } else {
                    to.life_time
                };
                let age = now - life_time;
                match life_of(w.life, age) {
                    Option::None => Result::Err(
                        "Tripwire wormhole life is not stable or critical for "@ + id,
                    ),
                    Option::Some(life) => match mass_of(w.mass) {
                        Option::None => Result::Err(
                            "Tripwire wormhole mass is not stable, destab or critical for "@ + id,
                        ),
                        Option::Some(mass) => if age > 86400 {
                            Result::Ok(Option::None)
                        } else if from.label is None && to.label is None {
                            Result::Ok(Option::None)
                        } else if type_label(w.wormhole_type) == Option::Some("GATE"@)
                            || from.label == Option::Some("GAT"@) || to.label == Option::Some(
                            "GAT"@,
                        ) {
                            Result::Ok(Option::None)
                        } else {
                            Result::Ok(
                                Option::Some(
                                    TripwireWormholeView {
                                        from_system: from.system->0,
                                        to_system: to.system,
                                        from_signature: from.label,
                                        to_signature: to.label,
                                        wormhole_type: type_label(w.wormhole_type),
                                        life_time,
                                        life,
                                        mass,
                                    },
                                ),
                            )
                        },
                    },
                }
            },
        },
    }
}

/// Classification of every wormhole record, in payload order, keeping the
/// accepted ones and stopping at the first malformed one.
pub open spec fn process_wormholes(
    sigs: Seq<(Seq<char>, ParsedSignatureView)>,
    whs: Seq<(Seq<char>, WormholeRawView)>,
    now: i64,
) -> Result<Seq<TripwireWormholeView>, Seq<char>>
    decreases whs.len(),
{
    if whs.len() == 0 {
        Result::Ok(Seq::empty())
    } else {
        match classify_wormhole(sigs, whs[0].0, whs[0].1, now) {
            Result::Err(m) => Result::Err(m),
            Result::Ok(head) => match process_wormholes(sigs, whs.drop_first(), now) {
                Result::Err(m) => Result::Err(m),
                Result::Ok(rest) => match head {
                    Option::None => Result::Ok(rest),
                    Option::Some(w) => Result::Ok(seq![w] + rest),
                },
            },
        }
    }
}

/// What a successful normalization of a payload with signatures yields:
/// the accepted wormholes, the signature count, and the latest modification
/// time as the new marker.
pub open spec fn refresh_matches(
    out: TripwireRefresh,
    sigs: Seq<(Seq<char>, SignatureRawView)>,
    whs: Seq<(Seq<char>, WormholeRawView)>,
    now: i64,
) -> bool {
    match parse_signatures(sigs) {
        Result::Err(_) => false,
        Result::Ok(ps) => {
            &&& process_wormholes(ps, whs, now) == Result::<_, Seq<char>>::Ok(
                out.wormholes.deep_view(),
            )
            &&& out.signature_count == sigs.len()
            &&& out.signature_time == max_modified(ps)
        },
    }
}

/// The error that normalization reports for a payload with signatures, if
/// any: the first malformed signature field, then an absent wormhole map,
/// then the first malformed wormhole record.
pub open spec fn refresh_error(
    sigs: Seq<(Seq<char>, SignatureRawView)>,
    whs: Option<Seq<(Seq<char>, WormholeRawView)>>,
    now: i64,
) -> Option<Seq<char>> {
    match parse_signatures(sigs) {
        Result::Err(m) => Option::Some(m),
        Result::Ok(ps) => match whs {
            Option::None => Option::Some("Tripwire wormholes not present"@),
            Option::Some(whs) => match process_wormholes(ps, whs, now) {
                Result::Err(m) => Option::Some(m),
                Result::Ok(_) => Option::None,
            },
        },
    }
}

/// The life rule: a record is classified end-of-life exactly when its
/// reported status is `critical`, or its reported status is `stable` and its
/// age has reached twenty hours. Any other status never classifies.
pub proof fn lemma_life_classification(status: Seq<char>, age: int)
    ensures
        life_of(status, age) == Option::Some(WormholeLife::EOL) <==> (status == "critical"@ || (
        status == "stable"@ && age >= 72000)),
{
    reveal_strlit("stable");
    reveal_strlit("critical");
    assert("stable"@.len() == 6);
    assert("critical"@.len() == 8);
    assert("stable"@ != "critical"@);
}

/// An accepted record classified from a whole payload carries the life rule
/// with it: its life state is end-of-life exactly when its reported status
/// said so under the rule above, with the age taken from the record's own
/// creation time.
pub proof fn lemma_classified_life_rule(
    sigs: Seq<(Seq<char>, ParsedSignatureView)>,
    id: Seq<char>,
    w: WormholeRawView,
    now: i64,
)
    ensures
        match classify_wormhole(sigs, id, w, now) {
            Result::Ok(Option::Some(o)) => o.life == WormholeLife::EOL <==> (w.life == "critical"@
                || (w.life == "stable"@ && now - o.life_time >= 72000)),
            _ => true,
        },
{
    reveal_strlit("stable");
    reveal_strlit("critical");
    assert("stable"@.len() == 6);
    assert("critical"@.len() == 8);
    assert("stable"@ != "critical"@);
}

/// Records older than twenty-four hours never appear in the output set: on
/// a successful refresh, every produced record's creation time is at most a
/// day before the classification time.
pub proof fn lemma_expired_records_dropped(
    sigs: Seq<(Seq<char>, ParsedSignatureView)>,
    whs: Seq<(Seq<char>, WormholeRawView)>,
    now: i64,
)
    ensures
        process_wormholes(sigs, whs, now) matches Ok(ws) ==> forall|i: int|
            0 <= i < ws.len() ==> now - (#[trigger] ws[i]).life_time <= 86400,
    decreases whs.len(),
{
    if whs.len() > 0 {
        lemma_expired_records_dropped(sigs, whs.drop_first(), now);
        if process_wormholes(sigs, whs, now) is Ok {
            let ws = process_wormholes(sigs, whs, now)->Ok_0;
            let rest = process_wormholes(sigs, whs.drop_first(), now)->Ok_0;
            match classify_wormhole(sigs, whs[0].0, whs[0].1, now) {
                Result::Ok(Option::Some(w)) => {
                    assert(ws == seq![w] + rest);
                    assert(now - w.life_time <= 86400);
                    assert forall|i: int| 0 <= i < ws.len() implies now - (#[trigger] ws[i]).life_time
                        <= 86400 by {
                        if i == 0 {
                            assert(ws[0] == w);
                        } else {
                            assert(ws[i] == rest[i - 1]);
                        }
                    }
                },
                Result::Ok(Option::None) => {
                    assert(ws == rest);
                },
                Result::Err(_) => {
                },
            }
        }
    }
}

/// The first signature stored under `key`, if any.
fn find_signature<'a>(parsed: &'a Vec<(String, ParsedSignature)>, key: &str) -> (r: Option<
    &'a ParsedSignature,
>)
    ensures
        r.deep_view() == lookup_signature(parsed.deep_view(), key@),
{
    let n = parsed.len();
    let mut i: usize = 0;
    proof {
        assert(parsed.deep_view().skip(0) =~= parsed.deep_view());
    }
    while i < n
        invariant
            0 <= i <= n,
            n == parsed.len(),
            lookup_signature(parsed.deep_view(), key@) == lookup_signature(
                parsed.deep_view().skip(i as int),
                key@,
            ),
        decreases n - i,
    {
        proof {
            let pv = parsed.deep_view();
            assert(pv.skip(i as int)[0] == pv[i as int]);
            assert(pv.skip(i as int).drop_first() =~= pv.skip(i + 1));
        }
        let pair = &parsed[i];
        if str_eq(pair.0.as_str(), key) {
            return Some(&pair.1);
        }
        i = i + 1;
    }
    proof {
        assert(parsed.deep_view().skip(n as int) =~= Seq::empty());
    }
    None
}

/// Field-level parsing of one signature record.
fn parse_one_signature(v: &TripwireSignatureRaw) -> (r: Result<ParsedSignature, String>)
    ensures
        ({
            let s = parse_signature(v.deep_view());
            match r {
                Result::Ok(p) => s == Result::<ParsedSignatureView, Seq<char>>::Ok(p.deep_view()),
                Result::Err(e) => s == Result::<ParsedSignatureView, Seq<char>>::Err(e@),
            }
        }),
{
    let system = match &v.system_id {
        Option::None => SystemOrClass::from(Option::<u32>::None),
        Option::Some(s) => match parse_u32(s.as_str()) {
            Option::None => {
                return Err(String::from_str("Tripwire systemID format wrong"));
            },
            Option::Some(n) => SystemOrClass::from(Option::Some(n)),
        },
    };
    let life_time = match parse_tripwire_time(v.life_time.as_str()) {
        Option::None => {
            return Err(String::from_str("Tripwire lifeTime format wrong"));
        },
        Option::Some(t) => t,
    };
    let modified_time = match parse_tripwire_time(v.modified_time.as_str()) {
        Option::None => {
            return Err(String::from_str("Tripwire modifiedTime format wrong"));
        },
        Option::Some(t) => t,
    };
    let label = match &v.signature_id {
        Option::None => Option::None,
        Option::Some(s) => if str_eq(s.as_str(), "???") {
            Option::None
        } else {
            Option::Some(to_upper(s.as_str()))
        },
    };
    Ok(ParsedSignature { system, label, life_time, modified_time })
}

/// Classification of one wormhole record against the parsed signatures.
fn classify_one(
    parsed: &Vec<(String, ParsedSignature)>,
    id: &String,
    w: &TripwireWormholeRaw,
    now: i64,
) -> (r: Result<Option<TripwireWormhole>, String>)
    ensures
        ({
            let s = classify_wormhole(parsed.deep_view(), id@, w.deep_view(), now);
            match r {
                Result::Err(e) => s == Result::<Option<TripwireWormholeView>, Seq<char>>::Err(e@),
                Result::Ok(Option::None) => s == Result::<
                    Option<TripwireWormholeView>,
                    Seq<char>,
                >::Ok(Option::None),
                Result::Ok(Option::Some(wh)) => s == Result::<
                    Option<TripwireWormholeView>,
                    Seq<char>,
                >::Ok(Option::Some(wh.deep_view())),
            }
        }),
{
    let from = match find_signature(parsed, w.initial_id.as_str()) {
        Option::Some(s) => s,
        Option::None => {
            return Err(
                String::from_str("Tripwire initial signature details missing from ").concat(
                    id.as_str(),
                ),
            );
        },
    };
    let to = match find_signature(parsed, w.secondary_id.as_str()) {
        Option::Some(s) => s,
        Option::None => {
            return Err(
                String::from_str("Tripwire secondary signature details missing from ").concat(
                    id.as_str(),
                ),
            );
        },
    };
    let from_system = match from.system {
        SystemOrClass::SpecificSystem(v) => v,
        _ => {
            return Ok(None);
        },
    };
    let life_time: i64 = if from.life_time > to.life_time {
        from.life_time
    } else {
        to.life_time
    };
    let age: i128 = now as i128 - life_time as i128;
    let life = if str_eq(w.life.as_str(), "stable") {
        if age < 72000 {
            WormholeLife::Stable
        } else {
            WormholeLife::EOL
        }
    } else if str_eq(w.life.as_str(), "critical") {
        WormholeLife::EOL
    } else {
        return Err(
            String::from_str("Tripwire wormhole life is not stable or critical for ").concat(
                id.as_str(),
            ),
        );
    };
    let mass = if str_eq(w.mass.as_str(), "stable") {
        WormholeMass::Stable
    } else if str_eq(w.mass.as_str(), "destab") {
        WormholeMass::Destab
    } else if str_eq(w.mass.as_str(), "critical") {
        WormholeMass::VOC
    } else {
        return Err(
            String::from_str("Tripwire wormhole mass is not stable, destab or critical for ")
                .concat(id.as_str()),
        );
    };
    if age > 86400 {
        return Ok(None);
    }
    let from_signature = match &from.label {
        Option::Some(s) => Option::Some(s.clone()),
        Option::None => Option::None,
    };
    let to_signature = match &to.label {
        Option::Some(s) => Option::Some(s.clone()),
        Option::None => Option::None,
    };
    if from_signature.is_none() && to_signature.is_none() {
        return Ok(None);
    }
    let wormhole_type: Option<String> = match &w.wormhole_type {
        Option::None => Option::None,
        Option::Some(t) => if str_eq(t.as_str(), "????") || str_eq(t.as_str(), "") {
            Option::None
        } else {
            Option::Some(t.clone())
        },
    };
    let is_gate_type = match &wormhole_type {
        Option::Some(t) => str_eq(t.as_str(), "GATE"),
        Option::None => false,
    };
    let from_is_gat = match &from_signature {
        Option::Some(l) => str_eq(l.as_str(), "GAT"),
        Option::None => false,
    };
    let to_is_gat = match &to_signature {
        Option::Some(l) => str_eq(l.as_str(), "GAT"),
        Option::None => false,
    };
    if is_gate_type || from_is_gat || to_is_gat {
        return Ok(None);
    }
    Ok(
        Some(
            TripwireWormhole {
                from_system,
                to_system: to.system,
                from_signature,
                to_signature,
                wormhole_type,
                life_time,
                life,
                mass,
            },
        ),
    )
}

/// Normalization of one feed payload.
///
/// An absent signature map is the feed's "no changes" reply: the previous
/// marker is kept (with no wormholes of its own, so the caller's cache can
/// recognize the refresh as a repeat), and on the very first refresh it is an
/// error instead. Otherwise every signature is parsed, every wormhole record
/// classified, and the new marker computed.
pub fn tripwire_refresh_from_raw(
    raw: &TripwireRaw,
    previous: Option<&TripwireRefresh>,
    now: i64,
) -> (r: Result<TripwireRefresh, String>)
    ensures
        ({
            match raw.signatures {
                Option::None => match previous {
                    Option::Some(p) => r matches Ok(out) && out.wormholes@.len() == 0
                        && out.signature_count == p.signature_count && out.signature_time
                        == p.signature_time,
                    Option::None => r matches Err(e) && e@
                        == "Tripwire signatures not present in initial refresh"@,
                },
                Option::Some(sigs) => {
                    let sv = sigs.deep_view();
                    match raw.wormholes {
                        Option::None => match refresh_error(sv, Option::None, now) {
                            Option::Some(m) => r matches Err(e) && e@ == m,
                            Option::None => false,
                        },
                        Option::Some(whs) => match refresh_error(
                            sv,
                            Option::Some(whs.deep_view()),
                            now,
                        ) {
                            Option::Some(m) => r matches Err(e) && e@ == m,
                            Option::None => r matches Ok(out) && refresh_matches(
                                out,
                                sv,
                                whs.deep_view(),
                                now,
                            ),
                        },
                    }
                },
            }
        }),
{
    let sigs = match &raw.signatures {
        Option::None => {
            return match previous {
                Option::Some(p) => Ok(
                    TripwireRefresh {
                        wormholes: Vec::new(),
                        signature_count: p.signature_count,
                        signature_time: p.signature_time,
                    },
                ),
                Option::None => Err(
                    String::from_str("Tripwire signatures not present in initial refresh"),
                ),
            };
        },
        Option::Some(s) => s,
    };
    let mut parsed: Vec<(String, ParsedSignature)> = Vec::new();
    let mut sig_time: i64 = i64::MIN;
    let n = sigs.len();
    let mut i: usize = 0;
    proof {
        let sv = sigs.deep_view();
        assert(sv.skip(0) =~= sv);
        assert(parsed.deep_view() =~= Seq::<(Seq<char>, ParsedSignatureView)>::empty());
        let t = parse_signatures(sv);
        if t is Ok {
            assert(parsed.deep_view() + t->Ok_0 =~= t->Ok_0);
        }
    }
    while i < n
        invariant
            0 <= i <= n,
            n == sigs.len(),
            raw.signatures == Option::Some(*sigs),
            parse_signatures(sigs.deep_view()) == (match parse_signatures(
                sigs.deep_view().skip(i as int),
            ) {
                Result::Ok(rest) => Result::<_, Seq<char>>::Ok(parsed.deep_view() + rest),
                Result::Err(m) => Result::Err(m),
            }),
            sig_time == max_modified(parsed.deep_view()),
        decreases n - i,
    {
        proof {
            let sv = sigs.deep_view();
            assert(sv.skip(i as int)[0] == sv[i as int]);
            assert(sv.skip(i as int).drop_first() =~= sv.skip(i + 1));
        }
        let pair = &sigs[i];
        let ghost pdv_old = parsed.deep_view();
        match parse_one_signature(&pair.1) {
            Err(e) => {
                proof {
                    let sv = sigs.deep_view();
                    assert(sv[i as int].1 == pair.1.deep_view());
                    assert(parse_signatures(sv.skip(i as int)) == Result::<
                        Seq<(Seq<char>, ParsedSignatureView)>,
                        Seq<char>,
                    >::Err(e@));
                }
                return Err(e);
            },
            Ok(p) => {
                let modified = p.modified_time;
                parsed.push((pair.0.clone(), p));
                proof {
                    assert(parsed.deep_view() =~= pdv_old.push(
                        (pair.0@, p.deep_view()),
                    ));
                    assert(parsed.deep_view().drop_last() =~= pdv_old);
                }
                if modified > sig_time {
                    sig_time = modified;
                }
                proof {
                    let sv = sigs.deep_view();
                    let ghost tail = parse_signatures(sv.skip(i + 1));
                    if tail is Ok {
                        let rest = tail->Ok_0;
                        assert(pdv_old + (seq![(sv[i as int].0, p.deep_view())] + rest)
                            =~= parsed.deep_view() + rest);
                    }
                }
            },
        }
        i = i + 1;
    }
    proof {
        assert(sigs.deep_view().skip(n as int) =~= Seq::<(Seq<char>, SignatureRawView)>::empty());
        assert(parsed.deep_view() + Seq::<(Seq<char>, ParsedSignatureView)>::empty()
            =~= parsed.deep_view());
    }
    let whs = match &raw.wormholes {
        Option::None => {
            return Err(String::from_str("Tripwire wormholes not present"));
        },
        Option::Some(w) => w,
    };
    let mut data: Vec<TripwireWormhole> = Vec::new();
    let m = whs.len();
    let mut j: usize = 0;
    proof {
        let wv = whs.deep_view();
        assert(wv.skip(0) =~= wv);
        assert(data.deep_view() =~= Seq::<TripwireWormholeView>::empty());
        let t = process_wormholes(parsed.deep_view(), wv, now);
        if t is Ok {
            assert(data.deep_view() + t->Ok_0 =~= t->Ok_0);
        }
    }
    while j < m
        invariant
            0 <= j <= m,
            m == whs.len(),
            raw.signatures == Option::Some(*sigs),
            raw.wormholes == Option::Some(*whs),
            parse_signatures(sigs.deep_view()) == Result::<_, Seq<char>>::Ok(parsed.deep_view()),
            process_wormholes(parsed.deep_view(), whs.deep_view(), now) == (match process_wormholes(
                parsed.deep_view(),
                whs.deep_view().skip(j as int),
                now,
            ) {
                Result::Ok(rest) => Result::<_, Seq<char>>::Ok(data.deep_view() + rest),
                Result::Err(e) => Result::Err(e),
            }),
        decreases m - j,
    {
        proof {
            let wv = whs.deep_view();
            assert(wv.skip(j as int)[0] == wv[j as int]);
            assert(wv.skip(j as int).drop_first() =~= wv.skip(j + 1));
        }
        let pair = &whs[j];
        let ghost ddv_old = data.deep_view();
        match classify_one(&parsed, &pair.0, &pair.1, now) {
            Err(e) => {
                proof {
                    let wv = whs.deep_view();
                    assert(wv[j as int].0 == pair.0@);
                    assert(wv[j as int].1 == pair.1.deep_view());
                    assert(process_wormholes(parsed.deep_view(), wv.skip(j as int), now)
                        == Result::<Seq<TripwireWormholeView>, Seq<char>>::Err(e@));
                }
                return Err(e);
            },
            Ok(Option::None) => {
                proof {
                    let wv = whs.deep_view();
                    let ghost tail = process_wormholes(parsed.deep_view(), wv.skip(j + 1), now);
                    if tail is Ok {
                        assert(ddv_old + tail->Ok_0 =~= data.deep_view() + tail->Ok_0);
                    }
                }
            },
            Ok(Option::Some(wh)) => {
                data.push(wh);
                proof {
                    assert(data.deep_view() =~= ddv_old.push(wh.deep_view()));
                    let wv = whs.deep_view();
                    let ghost tail = process_wormholes(parsed.deep_view(), wv.skip(j + 1), now);
                    if tail is Ok {
                        let rest = tail->Ok_0;
                        assert(ddv_old + (seq![wh.deep_view()] + rest) =~= data.deep_view()
                            + rest);
                    }
                }
            },
        }
        j = j + 1;
    }
    proof {
        assert(whs.deep_view().skip(m as int) =~= Seq::<(Seq<char>, WormholeRawView)>::empty());
        assert(data.deep_view() + Seq::<TripwireWormholeView>::empty() =~= data.deep_view());
    }
    Ok(TripwireRefresh { wormholes: data, signature_count: n, signature_time: sig_time })
}

} // verus!

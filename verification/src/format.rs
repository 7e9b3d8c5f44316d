//! Rendering of durations and routes as text.
//!
//! `hhmmss` renders a signed duration as `[-]HH:MM:SS`; `route_pastable`
//! renders a route as the compact string a traveller pastes into chat: the
//! first three characters of each wormhole signature, interleaved with the
//! names of the systems where gate travel ends, joined by `>`.

use vstd::prelude::*;

use crate::graph::Connection;
use crate::graph::ConnectionView;
use crate::graph::WormholeAttributesView;
use crate::system::System;
use crate::system::SystemView;
use crate::text::dec_str;
use crate::text::u64_to_dec;

verus! {

/// A number padded with a leading zero to at least two digits.
pub open spec fn pad2(n: nat) -> Seq<char> {
    if n < 10 {
        "0"@ + dec_str(n)
    } else {
        dec_str(n)
    }
}

fn pad2_text(n: u64) -> (r: String)
    ensures
        r@ == pad2(n as nat),
{
    if n < 10 {
        String::from_str("0").concat(u64_to_dec(n).as_str())
    } else {
        u64_to_dec(n)
    }
}

/// A signed duration in seconds as `[-]HH:MM:SS`, hours unbounded.
pub open spec fn hhmmss_spec(d: i64) -> Seq<char> {
    let s = if d < 0 {
        -(d as int)
    } else {
        d as int
    };
    let sign = if d < 0 {
        "-"@
    } else {
        ""@
    };
    sign + pad2((s / 3600) as nat) + ":"@ + pad2(((s % 3600) / 60) as nat) + ":"@ + pad2(
        (s % 60) as nat,
    )
}

pub fn hhmmss(d: i64) -> (r: String)
    ensures
        r@ == hhmmss_spec(d),
{
    let neg = d < 0;
    let s: u64 = if neg {
        (-(d as i128)) as u64
    } else {
        d as u64
    };
    let h = s / 3600;
    let m = (s % 3600) / 60;
    let sec = s % 60;
    let mut out = String::from_str(
        if neg {
            "-"
        } else {
            ""
        },
    );
    out.append(pad2_text(h).as_str());
    out.append(":");
    out.append(pad2_text(m).as_str());
    out.append(":");
    out.append(pad2_text(sec).as_str());
    out
}

/// The signature label a wormhole is shown under: the reported label, or the
/// feed's placeholder when none is known.
pub open spec fn sig_text(w: WormholeAttributesView) -> Seq<char> {
    match w.signature {
        Option::Some(s) => s,
        Option::None => "???"@,
    }
}

/// The first three characters of the signature label, or all of it when it
/// is shorter.
pub open spec fn sig_prefix(w: WormholeAttributesView) -> Seq<char> {
    if sig_text(w).len() <= 3 {
        sig_text(w)
    } else {
        sig_text(w).take(3)
    }
}

/// The pastable segments contributed by route entry `k`: when the entry is a
/// wormhole jump, the name of the system where the preceding gate travel
/// ended (if any), then the signature prefix.
pub open spec fn entry_segments(rv: Seq<(SystemView, ConnectionView)>, k: int) -> Seq<Seq<char>> {
    match rv[k].1 {
        ConnectionView::Wormhole(w) => {
            let lead: Seq<Seq<char>> = if k > 0 && rv[k - 1].1 is Gate {
                seq![rv[k - 1].0.name]
            } else {
                Seq::empty()
            };
            lead.push(sig_prefix(w))
        },
        ConnectionView::Gate => Seq::empty(),
    }
}

/// The pastable segments of the first `k` route entries.
pub open spec fn segments_upto(rv: Seq<(SystemView, ConnectionView)>, k: int) -> Seq<Seq<char>>
    decreases k,
{
    if k <= 0 {
        Seq::empty()
    } else {
        segments_upto(rv, k - 1) + entry_segments(rv, k - 1)
    }
}

/// All pastable segments of a route: the per-entry segments, then the final
/// system's name when the route ends with gate travel.
pub open spec fn segments(rv: Seq<(SystemView, ConnectionView)>) -> Seq<Seq<char>> {
    segments_upto(rv, rv.len() as int) + (if rv.len() > 0 && rv.last().1 is Gate {
        seq![rv.last().0.name]
    } else {
        Seq::empty()
    })
}

/// Text segments joined by the route separator.
pub open spec fn joined(parts: Seq<Seq<char>>) -> Seq<char>
    decreases parts.len(),
{
    if parts.len() == 0 {
        Seq::empty()
    } else if parts.len() == 1 {
        parts[0]
    } else {
        joined(parts.drop_last()) + " > "@ + parts.last()
    }
}

/// What the pastable rendering of a route is.
pub open spec fn pastable_spec(rv: Seq<(SystemView, ConnectionView)>) -> Seq<char> {
    "> "@ + joined(segments(rv)) + "   ("@ + dec_str(rv.len()) + " jumps)"@
}

fn append_segment(out: &mut String, started: &mut bool, seg: &str, Ghost(parts): Ghost<
    Seq<Seq<char>>,
>)
    requires
        old(out)@ == joined(parts),
        *old(started) == (parts.len() > 0),
    ensures
        final(out)@ == joined(parts.push(seg@)),
        *final(started) == (parts.push(seg@).len() > 0),
{
    proof {
        assert(parts.push(seg@).drop_last() =~= parts);
        assert(parts.push(seg@).last() == seg@);
    }
    if *started {
        out.append(" > ");
    }
    out.append(seg);
    *started = true;
}

/// The compact pastable rendering of a route.
pub fn route_pastable(route: &Vec<(System, Connection)>) -> (r: String)
    ensures
        r@ == pastable_spec(route.deep_view()),
{
    let ghost rv = route.deep_view();
    let mut body = String::new();
    let mut started = false;
    let ghost mut parts: Seq<Seq<char>> = Seq::empty();
    let n = route.len();
    let mut k: usize = 0;
    proof {
        assert(joined(parts) =~= Seq::<char>::empty());
    }
    while k < n
        invariant
            0 <= k <= n,
            n == route.len(),
            rv == route.deep_view(),
            parts == segments_upto(rv, k as int),
            body@ == joined(parts),
            started == (parts.len() > 0),
        decreases n - k,
    {
        let entry = &route[k];
        match &entry.1 {
            Connection::Wormhole(w) => {
                if k > 0 {
                    let prev = &route[k - 1];
                    if matches!(&prev.1, Connection::Gate) {
                        append_segment(&mut body, &mut started, prev.0.name.as_str(), Ghost(parts));
                        proof {
                            parts = parts.push(rv[k - 1].0.name);
                        }
                    }
                }
                let sig: &str = match &w.signature {
                    Option::Some(s) => s.as_str(),
                    Option::None => "???",
                };
                let sig_len = sig.unicode_len();
                let pref: &str = if sig_len <= 3 {
                    sig
                } else {
                    sig.substring_char(0, 3)
                };
                proof {
                    assert(entry.1.deep_view() == rv[k as int].1);
                    assert(pref@ == sig_prefix(rv[k as int].1->Wormhole_0));
                }
                append_segment(&mut body, &mut started, pref, Ghost(parts));
                proof {
                    parts = parts.push(pref@);
                    assert(parts =~= segments_upto(rv, k + 1));
                }
            },
            Connection::Gate => {
                proof {
                    assert(entry.1.deep_view() == rv[k as int].1);
                    assert(entry_segments(rv, k as int) =~= Seq::<Seq<char>>::empty());
                    assert(parts + entry_segments(rv, k as int) =~= parts);
                }
            },
        }
        k = k + 1;
    }
    if n > 0 {
        let last = &route[n - 1];
        if matches!(&last.1, Connection::Gate) {
            append_segment(&mut body, &mut started, last.0.name.as_str(), Ghost(parts));
            proof {
                parts = parts.push(rv[(n - 1) as int].0.name);
                assert(parts =~= segments(rv));
            }
        } else {
            proof {
                assert(parts + Seq::<Seq<char>>::empty() =~= parts);
                assert(parts =~= segments(rv));
            }
        }
    } else {
        proof {
            assert(parts =~= segments(rv));
        }
    }
    let count = u64_to_dec(route.len() as u64);
    String::from_str("> ").concat(body.as_str()).concat("   (").concat(count.as_str()).concat(
        " jumps)",
    )
}

} // verus!

//! Network interfaces: counters decoded from the network counters file,
//! and transfer rates over paired snapshots.

mod network_stat;

pub use network_stat::{NetworkSpeed, NetworkStat};

use vstd::prelude::*;

use crate::error::ProbeError;
use crate::rate::speed_of;
use crate::scan::{
    after_line, lemma_skip_toks_ge, lemma_span_spaces, lemma_span_until, lemma_tok_advance,
    span_spaces, span_until, spec_next_u64, spec_skip_toks, tok_end, Cursor,
};
use crate::text::{ascii_view, bytes_to_string};

verus! {

/// One network interface with its cumulative counters.
#[derive(Debug, Clone, PartialEq, Eq)]
pub struct Network {
    pub interface: String,
    pub stat: NetworkStat,
}

/// The mathematical content of a `Network`: the interface name as text
/// and the counters.
pub struct NetworkV {
    pub interface: Seq<char>,
    pub stat: NetworkStat,
}

impl View for Network {
    type V = NetworkV;

    open spec fn view(&self) -> NetworkV {
        NetworkV { interface: self.interface@, stat: self.stat }
    }
}

/// The views of a sequence of interfaces.
pub open spec fn net_views(s: Seq<Network>) -> Seq<NetworkV> {
    s.map_values(|n: Network| n@)
}

/// What decoding the interface lines yields, reading from position `i`:
/// per line, the name up to the colon, the first counter (received
/// bytes), seven skipped fields, the ninth counter (transmitted bytes),
/// and the rest of the line.  A line without a colon ends the listing.
pub open spec fn spec_net_entries(s: Seq<u8>, i: int) -> Result<Seq<NetworkV>, ProbeError>
    decreases s.len() - i when 0 <= i <= s.len() via spec_net_entries_decreases
{
    let start = span_spaces(s, i);
    let j = span_until(s, start, 58);
    if j >= s.len() {
        Ok(Seq::empty())
    } else {
        let name = s.subrange(start, j);
        let p1 = j + 1;
        match spec_next_u64(s, p1) {
            Err(e) => Err(e),
            Ok(rx) => match spec_skip_toks(s, tok_end(s, p1), 7) {
                None => Err(ProbeError::UnexpectedEof),
                Some(p2) => match spec_next_u64(s, p2) {
                    Err(e) => Err(e),
                    Ok(tx) => {
                        if tok_end(s, p2) == s.len() {
                            Err(ProbeError::UnexpectedEof)
                        } else {
                            match spec_net_entries(s, after_line(s, tok_end(s, p2))) {
                                Err(e) => Err(e),
                                Ok(rest) => Ok(
                                    seq![
                                        NetworkV {
                                            interface: ascii_view(name),
                                            stat: NetworkStat {
                                                receive_bytes: rx,
                                                transmit_bytes: tx,
                                            },
                                        },
                                    ] + rest,
                                ),
                            }
                        }
                    },
                },
            },
        }
    }
}

#[via_fn]
proof fn spec_net_entries_decreases(s: Seq<u8>, i: int) {
    lemma_span_spaces(s, i);
    lemma_span_until(s, span_spaces(s, i), 58);
    let j = span_until(s, span_spaces(s, i), 58);
    if j < s.len() {
        lemma_tok_advance(s, j + 1);
        lemma_skip_toks_ge(s, tok_end(s, j + 1), 7);
        let p2o = spec_skip_toks(s, tok_end(s, j + 1), 7);
        if p2o is Some {
            let p2 = p2o->0;
            lemma_tok_advance(s, p2);
            lemma_span_until(s, tok_end(s, p2), 10);
        }
    }
}

/// Entries already decoded, followed by whatever the rest yields.
pub open spec fn prepend_nets(vs: Seq<NetworkV>, r: Result<Seq<NetworkV>, ProbeError>) -> Result<
    Seq<NetworkV>,
    ProbeError,
> {
    match r {
        Ok(rest) => Ok(vs + rest),
        Err(e) => Err(e),
    }
}

/// What decoding the whole network counters file yields: two header lines,
/// then one entry per interface line.
pub open spec fn spec_get_networks(s: Seq<u8>) -> Result<Seq<NetworkV>, ProbeError> {
    if s.len() == 0 {
        Err(ProbeError::UnexpectedEof)
    } else if after_line(s, 0) == s.len() {
        Err(ProbeError::UnexpectedEof)
    } else {
        spec_net_entries(s, after_line(s, after_line(s, 0)))
    }
}

/// Decode the interface listing from the contents of the network counters
/// file.
pub fn get_networks(data: Vec<u8>) -> (r: Result<Vec<Network>, ProbeError>)
    ensures
        match spec_get_networks(data@) {
            Ok(vs) => r matches Ok(v) && net_views(v@) == vs,
            Err(e) => r == Err::<Vec<Network>, ProbeError>(e),
        },
{
    let ghost s = data@;
    let ghost g = spec_get_networks(data@);
    let mut cur = Cursor::new(data);
    if !cur.skip_line() {
        return Err(ProbeError::UnexpectedEof);
    }
    if !cur.skip_line() {
        return Err(ProbeError::UnexpectedEof);
    }
    let mut nets: Vec<Network> = Vec::new();
    let mut done = false;
    proof {
        assert(net_views(nets@) =~= Seq::<NetworkV>::empty());
    }
    while !done
        invariant
            cur.wf(),
            cur.bytes() == s,
            s == data@,
            g == spec_get_networks(s),
            !done ==> g == prepend_nets(net_views(nets@), spec_net_entries(s, cur.at())),
            done ==> g == Ok::<Seq<NetworkV>, ProbeError>(net_views(nets@)),
        decreases s.len() - cur.at() + (if done { 0int } else { 1int }),
    {
        let ghost p = cur.at();
        proof {
            lemma_span_spaces(s, p);
            lemma_span_until(s, span_spaces(s, p), 58);
        }
        match cur.next_until_byte(58) {
            None => {
                proof {
                    assert(net_views(nets@) + Seq::<NetworkV>::empty() =~= net_views(nets@));
                }
                done = true;
            },
            Some(name) => {
                let ghost p1 = cur.at();
                let rx = match cur.next_u64() {
                    Err(e) => {
                        return Err(e);
                    },
                    Ok(v) => v,
                };
                proof {
                    lemma_tok_advance(s, p1);
                }
                let ghost a1 = cur.at();
                match cur.skip_toks(7) {
                    Err(e) => {
                        return Err(e);
                    },
                    Ok(()) => {},
                }
                proof {
                    lemma_skip_toks_ge(s, a1, 7);
                }
                let ghost a2 = cur.at();
                let tx = match cur.next_u64() {
                    Err(e) => {
                        return Err(e);
                    },
                    Ok(v) => v,
                };
                proof {
                    lemma_tok_advance(s, a2);
                }
                let ghost a3 = cur.at();
                if !cur.skip_line() {
                    return Err(ProbeError::UnexpectedEof);
                }
                proof {
                    lemma_span_until(s, a3, 10);
                }
                let entry = Network {
                    interface: bytes_to_string(&name),
                    stat: NetworkStat { receive_bytes: rx, transmit_bytes: tx },
                };
                proof {
                    let rest = spec_net_entries(s, cur.at());
                    match rest {
                        Ok(tail) => {
                            assert(net_views(nets@) + (seq![entry@] + tail) =~= (net_views(nets@)
                                + seq![entry@]) + tail);
                        },
                        Err(_) => {},
                    }
                    assert(net_views(nets@.push(entry)) =~= net_views(nets@) + seq![entry@]);
                }
                nets.push(entry);
            },
        }
    }
    Ok(nets)
}

/// The first entry whose interface name is `name`.
pub open spec fn spec_find_net(pre: Seq<NetworkV>, name: Seq<char>) -> Option<int>
    decreases pre.len(),
{
    if pre.len() == 0 {
        None
    } else if pre[0].interface == name {
        Some(0int)
    } else {
        match spec_find_net(pre.drop_first(), name) {
            Some(i) => Some(i + 1),
            None => None,
        }
    }
}

proof fn lemma_find_net(pre: Seq<NetworkV>, name: Seq<char>)
    ensures
        match spec_find_net(pre, name) {
            Some(i) => 0 <= i < pre.len() && pre[i].interface == name && forall|j: int|
                0 <= j < i ==> (#[trigger] pre[j]).interface != name,
            None => forall|j: int|
                0 <= j < pre.len() ==> (#[trigger] pre[j]).interface != name,
        },
    decreases pre.len(),
{
    if pre.len() > 0 && pre[0].interface != name {
        lemma_find_net(pre.drop_first(), name);
        assert(forall|j: int|
            1 <= j < pre.len() ==> #[trigger] pre[j] == pre.drop_first()[j - 1]);
    }
}

fn find_network(pre: &Vec<Network>, name: &String) -> (r: Option<usize>)
    ensures
        r matches Some(k) ==> spec_find_net(net_views(pre@), name@) == Some(k as int),
        r is None ==> spec_find_net(net_views(pre@), name@) is None,
{
    proof {
        lemma_find_net(net_views(pre@), name@);
    }
    let mut k: usize = 0;
    while k < pre.len()
        invariant
            0 <= k <= pre@.len(),
            forall|j: int| 0 <= j < k ==> (#[trigger] net_views(pre@)[j]).interface != name@,
        decreases pre@.len() - k,
    {
        proof {
            assert(net_views(pre@)[k as int] == pre@[k as int]@);
        }
        if pre[k].interface == *name {
            proof {
                lemma_find_net(net_views(pre@), name@);
                assert(net_views(pre@)[k as int].interface == name@);
            }
            return Some(k);
        }
        k = k + 1;
    }
    proof {
        lemma_find_net(net_views(pre@), name@);
    }
    None
}

/// The interfaces of the later snapshot matched by name against the
/// earlier one, each with its transfer rates; an interface present in only
/// one snapshot is dropped.
pub open spec fn spec_net_pairs(
    pre: Seq<NetworkV>,
    post: Seq<NetworkV>,
    elapsed_ms: u64,
) -> Seq<(NetworkV, NetworkSpeed)>
    decreases post.len(),
{
    if post.len() == 0 {
        Seq::empty()
    } else {
        let rest = spec_net_pairs(pre, post.drop_first(), elapsed_ms);
        match spec_find_net(pre, post[0].interface) {
            None => rest,
            Some(i) => seq![
                (
                    post[0],
                    NetworkSpeed {
                        receive: speed_of(
                            pre[i].stat.receive_bytes,
                            post[0].stat.receive_bytes,
                            elapsed_ms,
                        ) as u64,
                        transmit: speed_of(
                            pre[i].stat.transmit_bytes,
                            post[0].stat.transmit_bytes,
                            elapsed_ms,
                        ) as u64,
                    },
                ),
            ] + rest,
        }
    }
}

/// The views of a sequence of paired interfaces and rates.
pub open spec fn net_pair_views(s: Seq<(Network, NetworkSpeed)>) -> Seq<(NetworkV, NetworkSpeed)> {
    s.map_values(|p: (Network, NetworkSpeed)| (p.0@, p.1))
}

/// Match the interfaces of two snapshots taken `elapsed_ms` milliseconds
/// apart and compute each matched interface's transfer rates.
pub fn compute_networks_speed(
    pre: &Vec<Network>,
    post: Vec<Network>,
    elapsed_ms: u64,
) -> (r: Vec<(Network, NetworkSpeed)>)
    requires
        elapsed_ms >= 1,
    ensures
        net_pair_views(r@) == spec_net_pairs(net_views(pre@), net_views(post@), elapsed_ms),
{
    let ghost g = spec_net_pairs(net_views(pre@), net_views(post@), elapsed_ms);
    let mut rest = post;
    let mut out: Vec<(Network, NetworkSpeed)> = Vec::new();
    proof {
        assert(net_pair_views(out@) =~= Seq::<(NetworkV, NetworkSpeed)>::empty());
        assert(Seq::<(NetworkV, NetworkSpeed)>::empty() + g =~= g);
    }
    while rest.len() > 0
        invariant
            elapsed_ms >= 1,
            g == spec_net_pairs(net_views(pre@), net_views(post@), elapsed_ms),
            g == net_pair_views(out@) + spec_net_pairs(
                net_views(pre@),
                net_views(rest@),
                elapsed_ms,
            ),
        decreases rest@.len(),
    {
        let ghost pre_rest = rest@;
        let n = rest.remove(0);
        proof {
            assert(net_views(pre_rest)[0] == pre_rest[0]@);
            assert(net_views(pre_rest)[0] == n@);
            assert(net_views(pre_rest).drop_first() =~= net_views(rest@));
            assert(spec_net_pairs(net_views(pre@), net_views(pre_rest), elapsed_ms)
                == spec_net_pairs(net_views(pre@), net_views(pre_rest), elapsed_ms));
        }
        match find_network(pre, &n.interface) {
            None => {
                proof {
                    lemma_find_net(net_views(pre@), n.interface@);
                }
            },
            Some(i) => {
                proof {
                    lemma_find_net(net_views(pre@), n.interface@);
                }
                let p = &pre[i];
                let speed = p.stat.compute_speed(&n.stat, elapsed_ms);
                proof {
                    crate::rate::lemma_rate_bounds(
                        p.stat.receive_bytes,
                        n.stat.receive_bytes,
                        elapsed_ms,
                    );
                    crate::rate::lemma_rate_bounds(
                        p.stat.transmit_bytes,
                        n.stat.transmit_bytes,
                        elapsed_ms,
                    );
                    assert(net_views(pre@)[i as int] == pre@[i as int]@);
                    assert(speed == NetworkSpeed {
                        receive: speed_of(
                            net_views(pre@)[i as int].stat.receive_bytes,
                            n@.stat.receive_bytes,
                            elapsed_ms,
                        ) as u64,
                        transmit: speed_of(
                            net_views(pre@)[i as int].stat.transmit_bytes,
                            n@.stat.transmit_bytes,
                            elapsed_ms,
                        ) as u64,
                    });
                    let entry = (n@, speed);
                    let tail = spec_net_pairs(net_views(pre@), net_views(rest@), elapsed_ms);
                    assert(net_views(pre_rest).drop_first() == net_views(rest@));
                    assert(spec_find_net(net_views(pre@), n@.interface) is Some);
                    assert(spec_find_net(net_views(pre@), n@.interface)->0 == i as int);
                    assert(net_views(pre_rest)[0].interface == n@.interface);
                    assert(spec_net_pairs(net_views(pre@), net_views(pre_rest), elapsed_ms)
                        == seq![entry] + tail);
                    assert(net_pair_views(out@) + (seq![entry] + tail) =~= (net_pair_views(out@)
                        + seq![entry]) + tail);
                    assert(net_pair_views(out@.push((n, speed))) =~= net_pair_views(out@) + seq![
                        entry,
                    ]);
                }
                out.push((n, speed));
            },
        }
    }
    proof {
        assert(net_pair_views(out@) + Seq::<(NetworkV, NetworkSpeed)>::empty() =~= net_pair_views(
            out@,
        ));
    }
    out
}

} // verus!

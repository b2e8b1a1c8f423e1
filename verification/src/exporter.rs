//! The pure decision core of the metrics exporter: which page a request
//! asks for, which probe target a query string names, how a target splits
//! into host and interface, and the speed in Mbps that a link state is
//! exposed as. Serving HTTP and talking to switches happens outside the
//! library; this module only decides.

use crate::codec::{bytes_eq, bytes_range_to_vec};
use crate::prosafe_switch::Link;
use vstd::prelude::*;
use vstd::slice::slice_subrange;

verus! {

/// Parsed command-line options of the exporter.
pub struct Opt {
    pub listen_address: String,
    pub target: Option<String>,
    pub verbose: bool,
}

/// The exporter's configuration: where to listen, an optional static probe
/// target, and whether to narrate requests.
pub struct Exporter {
    pub listen_address: String,
    pub target: Option<String>,
    pub verbose: bool,
}

/// Prepares the exporter from parsed options, keeping each option as given.
pub fn run(opt: Opt) -> (e: Exporter)
    ensures
        e.listen_address == opt.listen_address,
        e.target == opt.target,
        e.verbose == opt.verbose,
{
    Exporter { listen_address: opt.listen_address, target: opt.target, verbose: opt.verbose }
}

/// What the exporter does with one HTTP request.
#[derive(Clone, Copy, Debug, PartialEq, Eq, Structural)]
pub enum Route {
    /// Probe the target named in the request's own query string.
    ProbeDynamic,
    /// Probe the statically configured target, labelled by instance.
    ProbeStatic,
    /// Serve the landing page.
    Landing,
}

/// The request path that asks for a probe of a query-string target.
pub open spec fn probe_path() -> Seq<u8> {
    seq![0x2fu8, 0x70u8, 0x72u8, 0x6fu8, 0x62u8, 0x65u8]
}

/// The request path that asks for the metrics of the static target.
pub open spec fn metrics_path() -> Seq<u8> {
    seq![0x2fu8, 0x6du8, 0x65u8, 0x74u8, 0x72u8, 0x69u8, 0x63u8, 0x73u8]
}

/// Routing: the probe path always probes dynamically; the metrics path
/// probes the static target when one is configured; every other path (and
/// the metrics path without a static target) gets the landing page.
pub open spec fn route_of(path: Seq<u8>, has_static: bool) -> Route {
    if path == probe_path() {
        Route::ProbeDynamic
    } else if has_static && path == metrics_path() {
        Route::ProbeStatic
    } else {
        Route::Landing
    }
}

impl Exporter {
    /// Decides what to do with a request for `path` (the path bytes of the
    /// request URI, without the query string).
    pub fn route(&self, path: &[u8]) -> (r: Route)
        ensures
            r == route_of(path@, self.target is Some),
    {
        let probe: [u8; 6] = [0x2fu8, 0x70u8, 0x72u8, 0x6fu8, 0x62u8, 0x65u8];
        let metrics: [u8; 8] = [0x2fu8, 0x6du8, 0x65u8, 0x74u8, 0x72u8, 0x69u8, 0x63u8, 0x73u8];
        proof {
            assert(probe@ =~= probe_path());
            assert(metrics@ =~= metrics_path());
        }
        if bytes_eq(path, probe.as_slice()) {
            Route::ProbeDynamic
        } else if self.target.is_some() && bytes_eq(path, metrics.as_slice()) {
            Route::ProbeStatic
        } else {
            Route::Landing
        }
    }
}

/// The query-string key that names a probe target.
pub open spec fn target_key() -> Seq<u8> {
    seq![0x74u8, 0x61u8, 0x72u8, 0x67u8, 0x65u8, 0x74u8]
}

/// A usable target holds a colon between host and interface name.
pub open spec fn has_colon(v: Seq<u8>) -> bool {
    exists|i: int| 0 <= i < v.len() && v[i] == 0x3au8
}

/// The views of a list of decoded key/value pairs.
pub open spec fn pair_views(s: Seq<(Vec<u8>, Vec<u8>)>) -> Seq<(Seq<u8>, Seq<u8>)> {
    Seq::new(s.len(), |i: int| (s[i].0@, s[i].1@))
}

/// The probe target a query string selects: the value of the last `target`
/// key that holds a colon, if any.
pub open spec fn selected_target(pairs: Seq<(Seq<u8>, Seq<u8>)>) -> Option<Seq<u8>>
    decreases pairs.len(),
{
    if pairs.len() == 0 {
        None
    } else {
        let last = pairs[pairs.len() - 1];
        if last.0 == target_key() && has_colon(last.1) {
            Some(last.1)
        } else {
            selected_target(pairs.drop_last())
        }
    }
}

/// True when the byte string holds a colon.
pub fn contains_colon(v: &[u8]) -> (r: bool)
    ensures
        r <==> has_colon(v@),
{
    let mut i: usize = 0;
    while i < v.len()
        invariant
            i <= v@.len(),
            forall|j: int| 0 <= j < i ==> v@[j] != 0x3au8,
        decreases v@.len() - i,
    {
        if v[i] == 0x3au8 {
            return true;
        }
        i = i + 1;
    }
    false
}

impl Exporter {
    /// Picks the probe target out of decoded query-string pairs, as the
    /// query's last usable `target` value.
    pub fn select_target(pairs: &Vec<(Vec<u8>, Vec<u8>)>) -> (r: Option<Vec<u8>>)
        ensures
            r is Some <==> selected_target(pair_views(pairs@)) is Some,
            r is Some ==> selected_target(pair_views(pairs@)) == Some(r->0@),
    {
        let ghost pv = pair_views(pairs@);
        let target: [u8; 6] = [0x74u8, 0x61u8, 0x72u8, 0x67u8, 0x65u8, 0x74u8];
        proof {
            assert(target@ =~= target_key());
        }
        let mut j: usize = pairs.len();
        proof {
            assert(pv.take(pairs@.len() as int) =~= pv);
        }
        while j > 0
            invariant
                j <= pairs@.len(),
                pv == pair_views(pairs@),
                target@ == target_key(),
                selected_target(pv) == selected_target(pv.take(j as int)),
            decreases j,
        {
            j = j - 1;
            let ghost pre = pv.take(j as int + 1);
            proof {
                assert(pre.drop_last() =~= pv.take(j as int));
                assert(pre[pre.len() - 1] == pv[j as int]);
            }
            if bytes_eq(pairs[j].0.as_slice(), target.as_slice()) && contains_colon(
                pairs[j].1.as_slice(),
            ) {
                let v = bytes_range_to_vec(pairs[j].1.as_slice(), 0, pairs[j].1.len());
                proof {
                    assert(v@ =~= pv[j as int].1);
                    assert(selected_target(pre) == Some(pv[j as int].1));
                }
                return Some(v);
            }
        }
        proof {
            assert(pv.take(0) =~= Seq::<(Seq<u8>, Seq<u8>)>::empty());
        }
        None
    }
}

/// Where the first `b` stands in `s`, or `s.len()` when there is none.
pub open spec fn first_index_of(s: Seq<u8>, b: u8) -> int
    decreases s.len(),
{
    if s.len() == 0 {
        0
    } else if s[0] == b {
        0
    } else {
        1 + first_index_of(s.skip(1), b)
    }
}

/// `first_index_of` points at the first occurrence: it is in bounds exactly
/// when the byte occurs, it hits the byte, and nothing before it does.
pub proof fn lemma_first_index_of(s: Seq<u8>, b: u8)
    ensures
        0 <= first_index_of(s, b) <= s.len(),
        first_index_of(s, b) < s.len() ==> s[first_index_of(s, b)] == b,
        forall|j: int| 0 <= j < first_index_of(s, b) ==> s[j] != b,
    decreases s.len(),
{
    if s.len() == 0 {
    } else if s[0] == b {
    } else {
        let t = s.skip(1);
        lemma_first_index_of(t, b);
        let f = first_index_of(s, b);
        assert forall|j: int| 0 <= j < f implies s[j] != b by {
            if j > 0 {
                assert(t[j - 1] == s[j]);
            }
        }
        if f < s.len() {
            assert(t[f - 1] == s[f]);
        }
    }
}

/// Finds the first `b` in `v`, or `v.len()` when there is none.
pub fn find_first(v: &[u8], b: u8) -> (r: usize)
    ensures
        r == first_index_of(v@, b),
{
    proof {
        lemma_first_index_of(v@, b);
    }
    let mut i: usize = 0;
    while i < v.len()
        invariant
            i <= v@.len(),
            forall|j: int| 0 <= j < i ==> v@[j] != b,
        decreases v@.len() - i,
    {
        if v[i] == b {
            proof {
                lemma_first_index_of(v@, b);
                let f = first_index_of(v@, b);
                if f < i {
                    assert(v@[f] != b);
                }
                if f > i {
                    assert(v@[i as int] != b);
                }
            }
            return i;
        }
        i = i + 1;
    }
    proof {
        lemma_first_index_of(v@, b);
        let f = first_index_of(v@, b);
        if f < v@.len() {
            assert(v@[f] != b);
        }
    }
    v.len()
}

/// The host part of a target: everything before the first colon.
pub open spec fn split_host(t: Seq<u8>) -> Seq<u8> {
    t.subrange(0, first_index_of(t, 0x3au8))
}

/// The interface part of a target: everything between the first colon and
/// the next one (or the end).
pub open spec fn split_if_name(t: Seq<u8>) -> Seq<u8> {
    let rest = t.skip(first_index_of(t, 0x3au8) + 1);
    rest.subrange(0, first_index_of(rest, 0x3au8))
}

/// Splits a `host:interface` target at its first colon; a second colon and
/// anything after it are dropped.
pub fn split_target(t: &[u8]) -> (r: (Vec<u8>, Vec<u8>))
    requires
        has_colon(t@),
    ensures
        r.0@ == split_host(t@),
        r.1@ == split_if_name(t@),
{
    let n = t.len();
    let fc = find_first(t, 0x3au8);
    proof {
        lemma_first_index_of(t@, 0x3au8);
        if fc == t@.len() {
            let i = choose|i: int| 0 <= i < t@.len() && t@[i] == 0x3au8;
            assert(t@[i] == 0x3au8);
            assert(t@[i] != 0x3au8);
            assert(false);
        }
        assert(fc < t@.len());
        assert(fc < n);
    }
    let host = bytes_range_to_vec(t, 0, fc);
    let rest = slice_subrange(t, fc + 1, n);
    proof {
        assert(rest@ =~= t@.skip(fc as int + 1));
    }
    let sc = find_first(rest, 0x3au8);
    proof {
        lemma_first_index_of(rest@, 0x3au8);
    }
    let if_name = bytes_range_to_vec(rest, 0, sc);
    (host, if_name)
}

/// The speed in Mbps that each link state is exposed as; no link and an
/// unknown code both count as zero.
pub open spec fn mbps_of(link: Link) -> u32 {
    match link {
        Link::NoLink => 0u32,
        Link::Speed10Mbps => 10u32,
        Link::Speed100Mbps => 100u32,
        Link::Speed1Gbps => 1000u32,
        Link::Speed10Gbps => 10000u32,
        Link::Unknown => 0u32,
    }
}

/// Returns the Mbps figure a link state is exposed as.
pub fn link_mbps(link: Link) -> (r: u32)
    ensures
        r == mbps_of(link),
{
    match link {
        Link::NoLink => 0u32,
        Link::Speed10Mbps => 10u32,
        Link::Speed100Mbps => 100u32,
        Link::Speed1Gbps => 1000u32,
        Link::Speed10Gbps => 10000u32,
        Link::Unknown => 0u32,
    }
}

} // verus!

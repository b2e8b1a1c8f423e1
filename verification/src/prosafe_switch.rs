//! The NSDP-style query protocol: commands, the fixed-layout request
//! datagram, and the decoder for the switch's tagged-record reply.

use crate::codec::{
    be16_bytes, be16_of, be32_bytes, be64_of, bytes_range_to_vec, push_be_u16, push_be_u32,
    push_bytes, read_be_u16, read_be_u64, QueryError,
};
use vstd::prelude::*;

verus! {

broadcast use vstd::array::group_array_axioms;

/// The statistics a query can ask the switch for. `End` is the terminator
/// opcode that closes every request and every reply record stream.
#[derive(Clone, Copy, Debug, PartialEq, Eq, Structural)]
pub enum Cmd {
    PortStat,
    SpeedStat,
    End,
}

impl Cmd {
    /// The 32-bit opcode of this command on the wire.
    pub open spec fn opcode_spec(self) -> u32 {
        match self {
            Cmd::PortStat => 0x10000000u32,
            Cmd::SpeedStat => 0x0c000000u32,
            Cmd::End => 0xffff0000u32,
        }
    }

    /// Returns the 32-bit opcode of this command.
    pub fn opcode(self) -> (r: u32)
        ensures
            r == self.opcode_spec(),
    {
        match self {
            Cmd::PortStat => 0x10000000u32,
            Cmd::SpeedStat => 0x0c000000u32,
            Cmd::End => 0xffff0000u32,
        }
    }
}

/// Relies on rand::random for the request sequence number; nothing is
/// assumed of the value drawn.
pub assume_specification<T>[ rand::random::<T> ]() -> (r: T)
    where
        rand::distributions::Standard: rand::distributions::Distribution<T>,
;

/// The magic tag of every request: ASCII "NSDP" then four zero bytes.
pub open spec fn nsdp_magic() -> Seq<u8> {
    seq![0x4eu8, 0x53u8, 0x44u8, 0x50u8, 0u8, 0u8, 0u8, 0u8]
}

/// A discovery request, one field per wire field, in wire order.
pub struct QueryRequest {
    pub ctype: u16,
    pub padding1: [u8; 6],
    pub src_mac: [u8; 6],
    pub dst_mac: [u8; 6],
    pub padding2: [u8; 2],
    pub seq: u16,
    pub fix: [u8; 8],
    pub cmd: [u32; 2],
}

/// The big-endian serialization of a request: every field in wire order.
pub open spec fn encoded_query(q: QueryRequest) -> Seq<u8> {
    be16_bytes(q.ctype) + q.padding1@ + q.src_mac@ + q.dst_mac@ + q.padding2@ + be16_bytes(q.seq)
        + q.fix@ + be32_bytes(q.cmd@[0]) + be32_bytes(q.cmd@[1])
}

impl QueryRequest {
    /// Builds a request for `cmd` with a fresh random sequence number, the
    /// protocol-type constant, the NSDP magic, and the terminator opcode
    /// paired after the command opcode.
    pub fn new(cmd: Cmd, src_mac: [u8; 6], dst_mac: [u8; 6]) -> (r: Self)
        ensures
            r.ctype == 0x0101u16,
            r.padding1@ == Seq::new(6, |i: int| 0u8),
            r.src_mac@ == src_mac@,
            r.dst_mac@ == dst_mac@,
            r.padding2@ == Seq::new(2, |i: int| 0u8),
            r.fix@ == nsdp_magic(),
            r.cmd@ == seq![cmd.opcode_spec(), Cmd::End.opcode_spec()],
    {
        let r = QueryRequest {
            ctype: 0x0101u16,
            padding1: [0u8, 0u8, 0u8, 0u8, 0u8, 0u8],
            src_mac,
            dst_mac,
            padding2: [0u8, 0u8],
            seq: rand::random::<u16>(),
            fix: [0x4eu8, 0x53u8, 0x44u8, 0x50u8, 0u8, 0u8, 0u8, 0u8],
            cmd: [cmd.opcode(), Cmd::End.opcode()],
        };
        proof {
            assert(r.padding1@ =~= Seq::new(6, |i: int| 0u8));
            assert(r.padding2@ =~= Seq::new(2, |i: int| 0u8));
            assert(r.fix@ =~= nsdp_magic());
            assert(r.cmd@ =~= seq![cmd.opcode_spec(), Cmd::End.opcode_spec()]);
        }
        r
    }

    /// Serializes the request. The result always has the fixed request
    /// length, with the command opcode at bytes 32..36 and the terminator
    /// opcode at bytes 36..40.
    pub fn encode(&self) -> (r: Vec<u8>)
        ensures
            r@ == encoded_query(*self),
            r@.len() == 40,
            r@.subrange(32, 36) == be32_bytes(self.cmd@[0]),
            r@.subrange(36, 40) == be32_bytes(self.cmd@[1]),
    {
        let mut v: Vec<u8> = Vec::new();
        push_be_u16(&mut v, self.ctype);
        push_bytes(&mut v, self.padding1.as_slice());
        push_bytes(&mut v, self.src_mac.as_slice());
        push_bytes(&mut v, self.dst_mac.as_slice());
        push_bytes(&mut v, self.padding2.as_slice());
        push_be_u16(&mut v, self.seq);
        push_bytes(&mut v, self.fix.as_slice());
        push_be_u32(&mut v, self.cmd[0]);
        push_be_u32(&mut v, self.cmd[1]);
        proof {
            assert(v@ =~= encoded_query(*self));
            assert(v@.subrange(32, 36) =~= be32_bytes(self.cmd@[0]));
            assert(v@.subrange(36, 40) =~= be32_bytes(self.cmd@[1]));
        }
        v
    }
}

/// A well-formed reply starts with the 2-byte magic `0x01 0x02` and is at
/// least as long as the fixed header: magic, two 16-bit fields, then a
/// 26-byte reserved region, 32 bytes in all.
pub open spec fn header_ok(s: Seq<u8>) -> bool {
    s.len() >= 32 && s[0] == 0x01u8 && s[1] == 0x02u8
}

/// The record stream that a byte sequence holds: each record is a 16-bit
/// tag, a 16-bit length and that many payload bytes. A `0xffff` tag ends
/// the stream (its payload is still consumed, later bytes are ignored), as
/// does running out of bytes between records. `None` means a record was cut
/// short: a declared length or a tag/length pair ran past the end.
pub open spec fn records_of(s: Seq<u8>) -> Option<Seq<Seq<u8>>>
    decreases s.len(),
{
    if s.len() == 0 {
        Some(Seq::<Seq<u8>>::empty())
    } else if s.len() < 4 {
        None
    } else {
        let tag = be16_of(s[0], s[1]);
        let len = be16_of(s[2], s[3]) as int;
        if s.len() < 4 + len {
            None
        } else if tag == 0xffffu16 {
            Some(Seq::<Seq<u8>>::empty())
        } else {
            match records_of(s.skip(4 + len)) {
                Option::None => Option::<Seq<Seq<u8>>>::None,
                Option::Some(rest) => Some(seq![s.subrange(4, 4 + len)] + rest),
            }
        }
    }
}

/// What decoding a whole reply yields: the non-terminator record payloads in
/// encounter order, or the error that the malformed reply is rejected with.
pub open spec fn response_records(s: Seq<u8>) -> Result<Seq<Seq<u8>>, QueryError> {
    if !header_ok(s) {
        Err(QueryError::MalformedHeader)
    } else {
        match records_of(s.skip(32)) {
            Option::None => Err(QueryError::TruncatedRecord),
            Option::Some(r) => Ok(r),
        }
    }
}

/// Decoder for the switch's reply datagram.
pub struct QueryResponse;

impl QueryResponse {
    /// Checks the fixed 32-byte reply header and returns its two 16-bit fields
    /// (captured but not used by any later decoding step).
    pub fn decode_header(dat: &[u8]) -> (r: Result<(u16, u16), QueryError>)
        ensures
            r is Ok <==> header_ok(dat@),
            r is Ok ==> r->Ok_0.0 == be16_of(dat@[2], dat@[3]) && r->Ok_0.1 == be16_of(
                dat@[4],
                dat@[5],
            ),
            r is Err ==> r->Err_0 == QueryError::MalformedHeader,
    {
        if dat.len() < 32 {
            return Err(QueryError::MalformedHeader);
        }
        if dat[0] != 0x01u8 || dat[1] != 0x02u8 {
            return Err(QueryError::MalformedHeader);
        }
        let a = read_be_u16(dat, 2);
        let b = read_be_u16(dat, 4);
        Ok((a, b))
    }

    /// Decodes a whole reply into its record payloads: header first, then
    /// records until the terminator tag or the end of the buffer.
    pub fn decode(dat: &[u8]) -> (r: Result<Vec<Vec<u8>>, QueryError>)
        ensures
            r is Ok <==> response_records(dat@) is Ok,
            r is Ok ==> r->Ok_0.deep_view() == response_records(dat@)->Ok_0,
            r is Err ==> r->Err_0 == response_records(dat@)->Err_0,
    {
        match Self::decode_header(dat) {
            Err(e) => {
                return Err(e);
            },
            Ok(_) => {},
        }
        let ghost whole = records_of(dat@.skip(32));
        let mut ret: Vec<Vec<u8>> = Vec::new();
        let mut i: usize = 32;
        loop
            invariant
                32 <= i <= dat@.len(),
                header_ok(dat@),
                whole == records_of(dat@.skip(32)),
                whole == match records_of(dat@.skip(i as int)) {
                    Option::None => Option::<Seq<Seq<u8>>>::None,
                    Option::Some(rest) => Option::Some(ret.deep_view() + rest),
                },
            ensures
                whole == Option::Some(ret.deep_view()),
            decreases dat@.len() - i,
        {
            let ghost s = dat@.skip(i as int);
            if i == dat.len() {
                proof {
                    assert(s =~= Seq::<u8>::empty());
                    assert(ret.deep_view() + Seq::<Seq<u8>>::empty() =~~= ret.deep_view());
                }
                break;
            }
            if dat.len() - i < 4 {
                proof {
                    assert(records_of(s) is None);
                }
                return Err(QueryError::TruncatedRecord);
            }
            let tag = read_be_u16(dat, i);
            let len = read_be_u16(dat, i + 2) as usize;
            proof {
                assert(s[0] == dat@[i as int]);
                assert(s[1] == dat@[i as int + 1]);
                assert(s[2] == dat@[i as int + 2]);
                assert(s[3] == dat@[i as int + 3]);
            }
            if len > dat.len() - (i + 4) {
                proof {
                    assert(s.len() < 4 + len);
                    assert(records_of(s) is None);
                }
                return Err(QueryError::TruncatedRecord);
            }
            if tag == 0xffffu16 {
                proof {
                    assert(records_of(s) == Option::Some(Seq::<Seq<u8>>::empty()));
                    assert(ret.deep_view() + Seq::<Seq<u8>>::empty() =~~= ret.deep_view());
                }
                break;
            }
            let payload = bytes_range_to_vec(dat, i + 4, i + 4 + len);
            proof {
                assert(payload@ =~= s.subrange(4, 4 + len as int));
                assert(s.skip(4 + len as int) =~= dat@.skip(i as int + 4 + len as int));
            }
            let ghost old_ret = ret.deep_view();
            ret.push(payload);
            proof {
                assert(ret.deep_view() =~~= old_ret + seq![payload@]);
                let next = records_of(dat@.skip(i as int + 4 + len as int));
                if next is Some {
                    assert(records_of(s) == Option::Some(
                        seq![s.subrange(4, 4 + len as int)] + next->0,
                    ));
                    assert(old_ret + (seq![payload@] + next->0) =~~= ret.deep_view() + next->0);
                } else {
                    assert(records_of(s) is None);
                }
            }
            i = i + 4 + len;
        }
        Ok(ret)
    }
}

/// Per-port traffic counters from one port-statistics record.
#[derive(Clone, Copy, Debug, PartialEq, Eq, Structural)]
pub struct PortStat {
    pub port_no: u8,
    pub recv_bytes: u64,
    pub send_bytes: u64,
    pub error_pkts: u64,
}

/// All per-port traffic counters of one reply, in record order.
#[derive(Debug, PartialEq)]
pub struct PortStats {
    pub stats: Vec<PortStat>,
}

/// The negotiated link speed a switch reports for a port.
#[derive(Clone, Copy, Debug, PartialEq, Eq, Structural)]
pub enum Link {
    NoLink,
    Speed10Mbps,
    Speed100Mbps,
    Speed1Gbps,
    Speed10Gbps,
    Unknown,
}

/// Port index and link speed from one speed-statistics record.
#[derive(Clone, Copy, Debug, PartialEq, Eq, Structural)]
pub struct SpeedStat {
    pub port_no: u8,
    pub link: Link,
}

/// All per-port link speeds of one reply, in record order.
#[derive(Debug, PartialEq)]
pub struct SpeedStats {
    pub stats: Vec<SpeedStat>,
}

/// The link speed a raw link code stands for; every code maps to a variant.
pub open spec fn link_of(code: u8) -> Link {
    if code == 0 {
        Link::NoLink
    } else if code == 1 || code == 2 {
        Link::Speed10Mbps
    } else if code == 3 || code == 4 {
        Link::Speed100Mbps
    } else if code == 5 {
        Link::Speed1Gbps
    } else if code == 6 {
        Link::Speed10Gbps
    } else {
        Link::Unknown
    }
}

impl Link {
    /// Maps a raw link code to its speed, totally: `0` to `None`, `1` and
    /// `2` to 10 Mbps, `3` and `4` to 100 Mbps, `5` to 1 Gbps, `6` to
    /// 10 Gbps, and every other code to `Unknown`.
    pub fn from_code(code: u8) -> (r: Link)
        ensures
            r == link_of(code),
    {
        match code {
            0u8 => Link::NoLink,
            1u8 => Link::Speed10Mbps,
            2u8 => Link::Speed10Mbps,
            3u8 => Link::Speed100Mbps,
            4u8 => Link::Speed100Mbps,
            5u8 => Link::Speed1Gbps,
            6u8 => Link::Speed10Gbps,
            _ => Link::Unknown,
        }
    }
}

/// A port-statistics payload must be exactly one port byte plus six 64-bit
/// counters.
pub open spec fn port_payload_ok(p: Seq<u8>) -> bool {
    p.len() == 49
}

/// The counters a well-formed port-statistics payload holds: the port byte,
/// then counters 0, 1 and 5 of the six (receive, transmit, error); the
/// other three are vendor-internal and dropped.
pub open spec fn port_stat_at(p: Seq<u8>) -> PortStat
    recommends
        port_payload_ok(p),
{
    PortStat {
        port_no: p[0],
        recv_bytes: be64_of(p.subrange(1, 9)),
        send_bytes: be64_of(p.subrange(9, 17)),
        error_pkts: be64_of(p.subrange(41, 49)),
    }
}

/// Interprets a record list as port statistics: every record must be a
/// well-formed port-statistics payload, else the whole reply is rejected.
pub open spec fn port_stats_of(recs: Seq<Seq<u8>>) -> Result<Seq<PortStat>, QueryError> {
    if forall|k: int| 0 <= k < recs.len() ==> port_payload_ok(#[trigger] recs[k]) {
        Ok(Seq::new(recs.len(), |k: int| port_stat_at(recs[k])))
    } else {
        Err(QueryError::MalformedPayload)
    }
}

/// Port statistics of a whole reply: header, record stream, then every
/// record interpreted as port counters.
pub open spec fn decode_port_stats(s: Seq<u8>) -> Result<Seq<PortStat>, QueryError> {
    match response_records(s) {
        Err(e) => Err(e),
        Ok(recs) => port_stats_of(recs),
    }
}

impl PortStat {
    /// Interprets one record payload as port counters. Succeeds exactly on
    /// payloads of the required 49 bytes; anything shorter or longer is a
    /// malformed payload.
    pub fn from_payload(p: &[u8]) -> (r: Result<PortStat, QueryError>)
        ensures
            r is Ok <==> port_payload_ok(p@),
            r is Ok ==> r->Ok_0 == port_stat_at(p@),
            r is Err ==> r->Err_0 == QueryError::MalformedPayload,
    {
        if p.len() != 49 {
            return Err(QueryError::MalformedPayload);
        }
        Ok(
            PortStat {
                port_no: p[0],
                recv_bytes: read_be_u64(p, 1),
                send_bytes: read_be_u64(p, 9),
                error_pkts: read_be_u64(p, 41),
            },
        )
    }
}

impl PortStats {
    /// Decodes a reply into port statistics: all records or none.
    pub fn decode(dat: &[u8]) -> (r: Result<PortStats, QueryError>)
        ensures
            r is Ok <==> decode_port_stats(dat@) is Ok,
            r is Ok ==> r->Ok_0.stats@ == decode_port_stats(dat@)->Ok_0,
            r is Err ==> r->Err_0 == decode_port_stats(dat@)->Err_0,
    {
        let payloads = match QueryResponse::decode(dat) {
            Err(e) => {
                return Err(e);
            },
            Ok(p) => p,
        };
        let ghost recs = response_records(dat@)->Ok_0;
        proof {
            assert(payloads.deep_view() == recs);
        }
        let mut stats: Vec<PortStat> = Vec::new();
        let mut j: usize = 0;
        while j < payloads.len()
            invariant
                j <= payloads@.len(),
                response_records(dat@) == Ok::<Seq<Seq<u8>>, QueryError>(recs),
                payloads.deep_view() == recs,
                recs.len() == payloads@.len(),
                stats@.len() == j,
                forall|k: int| 0 <= k < j ==> port_payload_ok(#[trigger] recs[k]),
                forall|k: int| 0 <= k < j ==> stats@[k] == port_stat_at(recs[k]),
            decreases payloads@.len() - j,
        {
            proof {
                assert(recs[j as int] =~= payloads@[j as int]@);
            }
            let st = match PortStat::from_payload(payloads[j].as_slice()) {
                Err(e) => {
                    proof {
                        assert(!port_payload_ok(recs[j as int]));
                    }
                    return Err(e);
                },
                Ok(st) => st,
            };
            stats.push(st);
            j = j + 1;
        }
        proof {
            assert(stats@ =~= Seq::new(recs.len(), |k: int| port_stat_at(recs[k])));
        }
        Ok(PortStats { stats })
    }
}

/// A speed-statistics payload must be exactly a port byte, a link code and
/// one reserved byte.
pub open spec fn speed_payload_ok(p: Seq<u8>) -> bool {
    p.len() == 3
}

/// The port index and link speed a well-formed speed payload holds.
pub open spec fn speed_stat_at(p: Seq<u8>) -> SpeedStat
    recommends
        speed_payload_ok(p),
{
    SpeedStat { port_no: p[0], link: link_of(p[1]) }
}

/// Interprets a record list as speed statistics: every record must be a
/// well-formed speed payload, else the whole reply is rejected.
pub open spec fn speed_stats_of(recs: Seq<Seq<u8>>) -> Result<Seq<SpeedStat>, QueryError> {
    if forall|k: int| 0 <= k < recs.len() ==> speed_payload_ok(#[trigger] recs[k]) {
        Ok(Seq::new(recs.len(), |k: int| speed_stat_at(recs[k])))
    } else {
        Err(QueryError::MalformedPayload)
    }
}

/// Speed statistics of a whole reply: header, record stream, then every
/// record interpreted as a port's link speed.
pub open spec fn decode_speed_stats(s: Seq<u8>) -> Result<Seq<SpeedStat>, QueryError> {
    match response_records(s) {
        Err(e) => Err(e),
        Ok(recs) => speed_stats_of(recs),
    }
}

impl SpeedStat {
    /// Interprets one record payload as a port's link speed. Succeeds
    /// exactly on payloads of the required 3 bytes; anything shorter or
    /// longer is a malformed payload.
    pub fn from_payload(p: &[u8]) -> (r: Result<SpeedStat, QueryError>)
        ensures
            r is Ok <==> speed_payload_ok(p@),
            r is Ok ==> r->Ok_0 == speed_stat_at(p@),
            r is Err ==> r->Err_0 == QueryError::MalformedPayload,
    {
        if p.len() != 3 {
            return Err(QueryError::MalformedPayload);
        }
        Ok(SpeedStat { port_no: p[0], link: Link::from_code(p[1]) })
    }
}

impl SpeedStats {
    /// Decodes a reply into speed statistics: all records or none.
    pub fn decode(dat: &[u8]) -> (r: Result<SpeedStats, QueryError>)
        ensures
            r is Ok <==> decode_speed_stats(dat@) is Ok,
            r is Ok ==> r->Ok_0.stats@ == decode_speed_stats(dat@)->Ok_0,
            r is Err ==> r->Err_0 == decode_speed_stats(dat@)->Err_0,
    {
        let payloads = match QueryResponse::decode(dat) {
            Err(e) => {
                return Err(e);
            },
            Ok(p) => p,
        };
        let ghost recs = response_records(dat@)->Ok_0;
        proof {
            assert(payloads.deep_view() == recs);
        }
        let mut stats: Vec<SpeedStat> = Vec::new();
        let mut j: usize = 0;
        while j < payloads.len()
            invariant
                j <= payloads@.len(),
                response_records(dat@) == Ok::<Seq<Seq<u8>>, QueryError>(recs),
                payloads.deep_view() == recs,
                recs.len() == payloads@.len(),
                stats@.len() == j,
                forall|k: int| 0 <= k < j ==> speed_payload_ok(#[trigger] recs[k]),
                forall|k: int| 0 <= k < j ==> stats@[k] == speed_stat_at(recs[k]),
            decreases payloads@.len() - j,
        {
            proof {
                assert(recs[j as int] =~= payloads@[j as int]@);
            }
            let st = match SpeedStat::from_payload(payloads[j].as_slice()) {
                Err(e) => {
                    proof {
                        assert(!speed_payload_ok(recs[j as int]));
                    }
                    return Err(e);
                },
                Ok(st) => st,
            };
            stats.push(st);
            j = j + 1;
        }
        proof {
            assert(stats@ =~= Seq::new(recs.len(), |k: int| speed_stat_at(recs[k])));
        }
        Ok(SpeedStats { stats })
    }
}

/// True when `s` is a complete record stream closed by a terminator record:
/// zero or more tagged records, the last one carrying the `0xffff` tag, with
/// nothing after the terminator's own payload.
pub open spec fn terminated_stream(s: Seq<u8>) -> bool
    decreases s.len(),
{
    s.len() >= 4 && {
        let tag = be16_of(s[0], s[1]);
        let len = be16_of(s[2], s[3]) as int;
        &&& s.len() >= 4 + len
        &&& if tag == 0xffffu16 {
            s.len() == 4 + len
        } else {
            terminated_stream(s.skip(4 + len))
        }
    }
}

/// Decoding stops at the terminator record: whatever bytes trail a
/// terminated stream, they change nothing about the records decoded.
pub proof fn lemma_terminator_ignores_trailing(s: Seq<u8>, junk: Seq<u8>)
    requires
        terminated_stream(s),
    ensures
        records_of(s + junk) == records_of(s),
    decreases s.len(),
{
    let t = s + junk;
    let tag = be16_of(s[0], s[1]);
    let len = be16_of(s[2], s[3]) as int;
    assert(t[0] == s[0] && t[1] == s[1] && t[2] == s[2] && t[3] == s[3]);
    if tag == 0xffffu16 {
        assert(records_of(s) == Some(Seq::<Seq<u8>>::empty()));
        assert(records_of(t) == Some(Seq::<Seq<u8>>::empty()));
    } else {
        assert(t.subrange(4, 4 + len) =~= s.subrange(4, 4 + len));
        assert(t.skip(4 + len) =~= s.skip(4 + len) + junk);
        lemma_terminator_ignores_trailing(s.skip(4 + len), junk);
    }
}

/// A named switch to query: where to send, through which local interface,
/// and how long to wait for the reply.
pub struct ProSafeSwitch {
    pub hostname: String,
    pub if_name: String,
    pub timeout_millis: u64,
}

impl ProSafeSwitch {
    /// A client for the switch at `hostname`, queried through the local
    /// interface `if_name`, with the default one-second reply timeout.
    pub fn new(hostname: &str, if_name: &str) -> (r: Self)
        ensures
            r.hostname@ == hostname@,
            r.if_name@ == if_name@,
            r.timeout_millis == 1000u64,
    {
        ProSafeSwitch {
            hostname: hostname.to_owned(),
            if_name: if_name.to_owned(),
            timeout_millis: 1000,
        }
    }
}

} // verus!

//! The original decoder and encoder checks: a captured port-statistics
//! reply, a captured speed-statistics reply, and the fixed request layout.

use prosafe_exporter::{Cmd, Link, PortStat, PortStats, QueryRequest, SpeedStat, SpeedStats};

#[test]
fn test_query_encode() {
    let req = QueryRequest::new(Cmd::PortStat, [0u8; 6], [0u8; 6]);
    let dat = req.encode();
    let expected: Vec<u8> = vec![
        0x01, 0x01, 0x00, 0x00, 0x00, 0x00, 0x00, 0x00, 0x00, 0x00, 0x00, 0x00,
        0x00, 0x00, 0x00, 0x00, 0x00, 0x00, 0x00, 0x00, 0x00, 0x00, 0x0a, 0x0a,
        0x4e, 0x53, 0x44, 0x50, 0x00, 0x00, 0x00, 0x00, 0x10, 0x00, 0x00, 0x00,
        0xff, 0xff, 0x00, 0x00,
    ];
    assert_eq!(dat[0..22], expected[0..22]);
    assert_eq!(dat[24..], expected[24..]);
}

#[test]
fn test_port_stat_decode() {
    let dat: Vec<u8> = vec![
        0x01, 0x02, 0x00, 0x00, 0x00, 0x00, 0x00, 0x00, 0x0c, 0xc4, 0x7a, 0x3a,
        0x39, 0xa8, 0x08, 0xbd, 0x43, 0x6a, 0x15, 0x96, 0x00, 0x00, 0x00, 0x80,
        0x4e, 0x53, 0x44, 0x50, 0x00, 0x00, 0x00, 0x00, 0x10, 0x00, 0x00, 0x31,
        0x01, 0x00, 0x00, 0x00, 0x1c, 0x7e, 0x67, 0x37, 0x92, 0x00, 0x00, 0x00,
        0x21, 0xfc, 0x85, 0xe1, 0xc4, 0x00, 0x00, 0x00, 0x00, 0x00, 0x00, 0x00,
        0x00, 0x00, 0x00, 0x00, 0x00, 0x00, 0x00, 0x00, 0x00, 0x00, 0x00, 0x00,
        0x00, 0x00, 0x00, 0x00, 0x00, 0x00, 0x00, 0x00, 0x00, 0x00, 0x00, 0x00,
        0x00, 0x10, 0x00, 0x00, 0x31, 0x02, 0x00, 0x00, 0x00, 0x53, 0xff, 0x78,
        0xf7, 0x46, 0x00, 0x00, 0x00, 0x35, 0x81, 0xed, 0x74, 0xc7, 0x00, 0x00,
        0x00, 0x00, 0x00, 0x00, 0x00, 0x00, 0x00, 0x00, 0x00, 0x00, 0x00, 0x00,
        0x00, 0x00, 0x00, 0x00, 0x00, 0x00, 0x00, 0x00, 0x00, 0x00, 0x00, 0x00,
        0x00, 0x00, 0x00, 0x0d, 0xce, 0x56, 0x10, 0x00, 0x00, 0x31, 0x03, 0x00,
        0x00, 0x00, 0x00, 0x00, 0x00, 0x00, 0x00, 0x00, 0x00, 0x00, 0x00, 0x00,
        0x00, 0x00, 0x00, 0x00, 0x00, 0x00, 0x00, 0x00, 0x00, 0x00, 0x00, 0x00,
        0x00, 0x00, 0x00, 0x00, 0x00, 0x00, 0x00, 0x00, 0x00, 0x00, 0x00, 0x00,
        0x00, 0x00, 0x00, 0x00, 0x00, 0x00, 0x00, 0x00, 0x00, 0x00, 0x00, 0x10,
        0x00, 0x00, 0x31, 0x04, 0x00, 0x00, 0x00, 0x00, 0x00, 0x00, 0x00, 0x00,
        0x00, 0x00, 0x00, 0x00, 0x00, 0x00, 0x00, 0x00, 0x00, 0x00, 0x00, 0x00,
        0x00, 0x00, 0x00, 0x00, 0x00, 0x00, 0x00, 0x00, 0x00, 0x00, 0x00, 0x00,
        0x00, 0x00, 0x00, 0x00, 0x00, 0x00, 0x00, 0x00, 0x00, 0x00, 0x00, 0x00,
        0x00, 0x00, 0x00, 0x00, 0x10, 0x00, 0x00, 0x31, 0x05, 0x00, 0x00, 0x00,
        0x00, 0x00, 0x00, 0x00, 0x00, 0x00, 0x00, 0x00, 0x00, 0x00, 0x00, 0x00,
        0x00, 0x00, 0x00, 0x00, 0x00, 0x00, 0x00, 0x00, 0x00, 0x00, 0x00, 0x00,
        0x00, 0x00, 0x00, 0x00, 0x00, 0x00, 0x00, 0x00, 0x00, 0x00, 0x00, 0x00,
        0x00, 0x00, 0x00, 0x00, 0x00, 0x00, 0x00, 0x00, 0x00, 0x10, 0x00, 0x00,
        0x31, 0x06, 0x00, 0x00, 0x01, 0x77, 0xe8, 0x65, 0x87, 0x69, 0x00, 0x00,
        0x01, 0xca, 0xe4, 0xc2, 0x62, 0xb9, 0x00, 0x00, 0x00, 0x00, 0x00, 0x00,
        0x00, 0x00, 0x00, 0x00, 0x00, 0x00, 0x00, 0x00, 0x00, 0x00, 0x00, 0x00,
        0x00, 0x00, 0x00, 0x00, 0x00, 0x00, 0x00, 0x00, 0x00, 0x00, 0x00, 0x00,
        0x00, 0x00, 0x10, 0x00, 0x00, 0x31, 0x07, 0x00, 0x00, 0x00, 0x00, 0x00,
        0x00, 0x00, 0x00, 0x00, 0x00, 0x00, 0x00, 0x00, 0x00, 0x00, 0x00, 0x00,
        0x00, 0x00, 0x00, 0x00, 0x00, 0x00, 0x00, 0x00, 0x00, 0x00, 0x00, 0x00,
        0x00, 0x00, 0x00, 0x00, 0x00, 0x00, 0x00, 0x00, 0x00, 0x00, 0x00, 0x00,
        0x00, 0x00, 0x00, 0x00, 0x00, 0x00, 0x00, 0x10, 0x00, 0x00, 0x31, 0x08,
        0x00, 0x00, 0x00, 0x00, 0x27, 0xf5, 0xc6, 0xf7, 0x00, 0x00, 0x00, 0x00,
        0x45, 0x0e, 0x67, 0xbd, 0x00, 0x00, 0x00, 0x00, 0x00, 0x00, 0x00, 0x00,
        0x00, 0x00, 0x00, 0x00, 0x00, 0x00, 0x00, 0x00, 0x00, 0x00, 0x00, 0x00,
        0x00, 0x00, 0x00, 0x00, 0x00, 0x00, 0x00, 0x00, 0x00, 0x00, 0x00, 0x00,
        0xff, 0xff, 0x00, 0x00,
    ];
    let stat = PortStats::decode(&dat).unwrap();

    let expected = PortStats {
        stats: vec![
            PortStat {
                port_no: 1,
                recv_bytes: 122379777938,
                send_bytes: 145970553284,
                error_pkts: 0,
            },
            PortStat {
                port_no: 2,
                recv_bytes: 360768403270,
                send_bytes: 229813089479,
                error_pkts: 904790,
            },
            PortStat {
                port_no: 3,
                recv_bytes: 0,
                send_bytes: 0,
                error_pkts: 0,
            },
            PortStat {
                port_no: 4,
                recv_bytes: 0,
                send_bytes: 0,
                error_pkts: 0,
            },
            PortStat {
                port_no: 5,
                recv_bytes: 0,
                send_bytes: 0,
                error_pkts: 0,
            },
            PortStat {
                port_no: 6,
                recv_bytes: 1614511703913,
                send_bytes: 1970932966073,
                error_pkts: 0,
            },
            PortStat {
                port_no: 7,
                recv_bytes: 0,
                send_bytes: 0,
                error_pkts: 0,
            },
            PortStat {
                port_no: 8,
                recv_bytes: 670418679,
                send_bytes: 1158571965,
                error_pkts: 0,
            },
        ],
    };
    assert_eq!(stat, expected);
}

#[test]
fn test_speed_stat_decode() {
    let dat: Vec<u8> = vec![
        0x01, 0x02, 0x00, 0x00, 0x00, 0x00, 0x00, 0x00, 0x0c, 0xc4, 0x7a, 0x3a,
        0x39, 0xa8, 0x28, 0xc6, 0x8e, 0x6c, 0x2e, 0xbc, 0x00, 0x00, 0x05, 0xab,
        0x4e, 0x53, 0x44, 0x50, 0x00, 0x00, 0x00, 0x00, 0x0c, 0x00, 0x00, 0x03,
        0x01, 0x00, 0x01, 0x0c, 0x00, 0x00, 0x03, 0x02, 0x01, 0x01, 0x0c, 0x00,
        0x00, 0x03, 0x03, 0x02, 0x01, 0x0c, 0x00, 0x00, 0x03, 0x04, 0x03, 0x01,
        0x0c, 0x00, 0x00, 0x03, 0x05, 0x04, 0x01, 0x0c, 0x00, 0x00, 0x03, 0x06,
        0x05, 0x01, 0x0c, 0x00, 0x00, 0x03, 0x07, 0x06, 0x01, 0x0c, 0x00, 0x00,
        0x03, 0x08, 0x07, 0x01, 0xff, 0xff, 0x00, 0x00,
    ];
    let stat = SpeedStats::decode(&dat).unwrap();

    let expected = SpeedStats {
        stats: vec![
            SpeedStat {
                port_no: 1,
                link: Link::NoLink,
            },
            SpeedStat {
                port_no: 2,
                link: Link::Speed10Mbps,
            },
            SpeedStat {
                port_no: 3,
                link: Link::Speed10Mbps,
            },
            SpeedStat {
                port_no: 4,
                link: Link::Speed100Mbps,
            },
            SpeedStat {
                port_no: 5,
                link: Link::Speed100Mbps,
            },
            SpeedStat {
                port_no: 6,
                link: Link::Speed1Gbps,
            },
            SpeedStat {
                port_no: 7,
                link: Link::Speed10Gbps,
            },
            SpeedStat {
                port_no: 8,
                link: Link::Unknown,
            },
        ],
    };
    assert_eq!(stat, expected);
}

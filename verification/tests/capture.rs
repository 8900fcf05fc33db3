//! The pcap reader and the summary statistics on synthetic captures.

use packet_storm::pcap::{Capture, Ipv4Address, PcapError, Protocol};
use packet_storm::stats::{sort_by_count, tally, top_tiers, PacketInfo};

fn pcap_header() -> Vec<u8> {
    let mut d = Vec::new();
    d.extend_from_slice(&0xA1B2C3D4u32.to_le_bytes());
    d.extend_from_slice(&2u16.to_le_bytes());
    d.extend_from_slice(&4u16.to_le_bytes());
    d.extend_from_slice(&[0; 8]);
    d.extend_from_slice(&0xFFFFu32.to_le_bytes());
    d.extend_from_slice(&1u32.to_le_bytes());
    d
}

fn pcap_record(protocol: u8, dest: [u8; 4], payload_len: u16) -> Vec<u8> {
    let total_length = 20 + payload_len;
    let captured = 14u32 + total_length as u32;
    let mut d = Vec::new();
    d.extend_from_slice(&[0; 8]);
    d.extend_from_slice(&captured.to_le_bytes());
    d.extend_from_slice(&captured.to_le_bytes());
    d.extend_from_slice(&[0x02; 6]);
    d.extend_from_slice(&[0x04; 6]);
    d.extend_from_slice(&0x0800u16.to_be_bytes());
    d.push(0x45);
    d.push(0);
    d.extend_from_slice(&total_length.to_be_bytes());
    d.extend_from_slice(&[0; 4]);
    d.push(64);
    d.push(protocol);
    d.extend_from_slice(&[0; 2]);
    d.extend_from_slice(&[192, 168, 0, 0]);
    d.extend_from_slice(&dest);
    d.extend_from_slice(&vec![0xAB; payload_len as usize]);
    d
}

#[test]
fn capture_accepts_a_good_header() {
    let data = pcap_header();
    let capture = Capture::new(&data).expect("good header should be accepted");
    let mut records = capture.records();
    assert!(matches!(records.next(), Ok(None)));
}

#[test]
fn capture_rejects_each_bad_header_field() {
    assert_eq!(Capture::new(&[0; 10]).unwrap_err(), PcapError::TruncatedCapture);

    let mut bad_magic = pcap_header();
    bad_magic[0] = 0;
    assert_eq!(Capture::new(&bad_magic).unwrap_err(), PcapError::BadMagic);

    let mut bad_version = pcap_header();
    bad_version[4] = 3;
    assert_eq!(Capture::new(&bad_version).unwrap_err(), PcapError::BadVersion);

    let mut bad_snap = pcap_header();
    bad_snap[16] = 0xFE;
    assert_eq!(Capture::new(&bad_snap).unwrap_err(), PcapError::BadSnapLen);

    let mut bad_link = pcap_header();
    bad_link[20] = 9;
    assert_eq!(Capture::new(&bad_link).unwrap_err(), PcapError::BadLinkType);
}

#[test]
fn records_walk_frames_and_parse_packets() {
    let mut data = pcap_header();
    data.extend_from_slice(&pcap_record(0x06, [10, 0, 0, 1], 100));
    data.extend_from_slice(&pcap_record(0x11, [10, 0, 0, 2], 42));
    let capture = Capture::new(&data).expect("header should be accepted");
    let mut records = capture.records();

    let first = records.next().expect("no error").expect("a first frame");
    assert_eq!(first.len(), 14 + 120);
    let packet = first.ip().expect("an IPv4 packet");
    assert_eq!(packet.protocol, Protocol::TCP);
    assert_eq!(packet.source, Ipv4Address { bits: 0xC0A80000 });
    assert_eq!(packet.dest, Ipv4Address { bits: 0x0A000001 });
    assert_eq!(packet.data.len(), 100);

    let second = records.next().expect("no error").expect("a second frame");
    let packet = second.ip().expect("an IPv4 packet");
    assert_eq!(packet.protocol, Protocol::UDP);
    assert_eq!(packet.dest.octets(), (10, 0, 0, 2));
    assert_eq!(packet.data.len(), 42);

    assert!(matches!(records.next(), Ok(None)));
}

#[test]
fn records_report_a_truncated_record() {
    let mut data = pcap_header();
    let mut record = pcap_record(0x06, [10, 0, 0, 1], 100);
    record.truncate(record.len() - 1);
    data.extend_from_slice(&record);
    let capture = Capture::new(&data).expect("header should be accepted");
    let mut records = capture.records();
    assert_eq!(records.next().unwrap_err(), PcapError::TruncatedCapture);
}

#[test]
fn records_report_mismatched_lengths() {
    let mut data = pcap_header();
    let mut record = pcap_record(0x06, [10, 0, 0, 1], 10);
    record[12] = record[12].wrapping_add(1);
    data.extend_from_slice(&record);
    let capture = Capture::new(&data).expect("header should be accepted");
    let mut records = capture.records();
    assert_eq!(records.next().unwrap_err(), PcapError::TruncatedPacket);
}

#[test]
fn ip_rejects_wrong_ethertype_version_options_and_protocol() {
    let base = pcap_header();

    let mut data = base.clone();
    let mut record = pcap_record(0x06, [10, 0, 0, 1], 5);
    record[16 + 12] = 0x86;
    record[16 + 13] = 0xDD;
    data.extend_from_slice(&record);
    let capture = Capture::new(&data).expect("header ok");
    let frame = capture.records().next().expect("no error").expect("a frame");
    assert_eq!(frame.ip().unwrap_err(), PcapError::NotIp { found: 0x86DD });

    let mut data = base.clone();
    let mut record = pcap_record(0x06, [10, 0, 0, 1], 5);
    record[16 + 14] = 0x65;
    data.extend_from_slice(&record);
    let capture = Capture::new(&data).expect("header ok");
    let frame = capture.records().next().expect("no error").expect("a frame");
    assert_eq!(frame.ip().unwrap_err(), PcapError::NotIpv4 { version: 6 });

    let mut data = base.clone();
    let mut record = pcap_record(0x06, [10, 0, 0, 1], 5);
    record[16 + 14] = 0x46;
    data.extend_from_slice(&record);
    let capture = Capture::new(&data).expect("header ok");
    let frame = capture.records().next().expect("no error").expect("a frame");
    assert_eq!(frame.ip().unwrap_err(), PcapError::HasOptions { ihl: 6 });

    let mut data = base.clone();
    let record = pcap_record(0x2F, [10, 0, 0, 1], 5);
    data.extend_from_slice(&record);
    let capture = Capture::new(&data).expect("header ok");
    let frame = capture.records().next().expect("no error").expect("a frame");
    assert_eq!(frame.ip().unwrap_err(), PcapError::UnknownProtocol { byte: 0x2F });
}

#[test]
fn protocol_from_byte_knows_exactly_tcp_and_udp() {
    assert_eq!(Protocol::from_byte(0x06).expect("tcp"), Protocol::TCP);
    assert_eq!(Protocol::from_byte(0x11).expect("udp"), Protocol::UDP);
    assert_eq!(
        Protocol::from_byte(0x2F).unwrap_err(),
        PcapError::UnknownProtocol { byte: 0x2F }
    );
}

fn info(bytes: usize, protocol: Protocol, dest: u32) -> PacketInfo {
    PacketInfo { transport_bytes: bytes, protocol, dest: Ipv4Address { bits: dest } }
}

#[test]
fn tally_counts_packets_bytes_and_destinations() {
    let packets = vec![
        info(100, Protocol::TCP, 0x0A000001),
        info(200, Protocol::UDP, 0x0A000002),
        info(50, Protocol::TCP, 0x0A000001),
        info(25, Protocol::UDP, 0x0A000001),
    ];
    let stats = tally(&packets);
    assert_eq!(stats.packets, 4);
    assert_eq!(stats.udp, 2);
    assert_eq!(stats.total_transport_bytes, 375);
    assert_eq!(stats.dest_counts.len(), 2);
    let mut counted = stats.dest_counts.clone();
    counted.sort_by_key(|e| e.0.bits);
    assert_eq!(counted[0], (Ipv4Address { bits: 0x0A000001 }, 3));
    assert_eq!(counted[1], (Ipv4Address { bits: 0x0A000002 }, 1));
}

#[test]
fn sort_by_count_orders_most_frequent_first() {
    let entries = vec![
        (Ipv4Address { bits: 1 }, 2usize),
        (Ipv4Address { bits: 2 }, 9usize),
        (Ipv4Address { bits: 3 }, 5usize),
        (Ipv4Address { bits: 4 }, 9usize),
    ];
    let sorted = sort_by_count(entries);
    let counts: Vec<usize> = sorted.iter().map(|e| e.1).collect();
    assert_eq!(counts, vec![9, 9, 5, 2]);
}

#[test]
fn top_tiers_takes_the_first_three_count_values() {
    let sorted = vec![
        (Ipv4Address { bits: 1 }, 16usize),
        (Ipv4Address { bits: 2 }, 16usize),
        (Ipv4Address { bits: 3 }, 15usize),
        (Ipv4Address { bits: 4 }, 14usize),
        (Ipv4Address { bits: 5 }, 14usize),
        (Ipv4Address { bits: 6 }, 13usize),
    ];
    assert_eq!(top_tiers(&sorted), 5);

    let short = vec![
        (Ipv4Address { bits: 1 }, 3usize),
        (Ipv4Address { bits: 2 }, 2usize),
    ];
    assert_eq!(top_tiers(&short), 2);

    assert_eq!(top_tiers(&Vec::new()), 0);
}

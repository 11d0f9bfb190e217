use netlink_packet_xfrm::address::{Address, AddressBuffer, IpAddress, XFRM_ADDRESS_LEN};
use netlink_packet_xfrm::async_event_id::{AsyncEventId, XFRM_ASYNC_EVENT_ID_LEN};
use netlink_packet_xfrm::constants::{AF_INET, AF_INET6, XFRM_INF};
use netlink_packet_xfrm::id::{Id, IdBuffer, XFRM_ID_LEN};
use netlink_packet_xfrm::lifetime::{
    Lifetime, LifetimeConfig, XFRM_LIFETIME_CONFIG_LEN, XFRM_LIFETIME_LEN,
};
use netlink_packet_xfrm::nlas::address_filter::{AddressFilter, XFRM_ADDRESS_FILTER_LEN};
use netlink_packet_xfrm::nlas::encap_tmpl::{EncapTmpl, XFRM_ENCAP_TMPL_LEN};
use netlink_packet_xfrm::nlas::mark::{Mark, MarkBuffer, XFRM_MARK_LEN};
use netlink_packet_xfrm::nlas::replay::{Replay, XFRM_REPLAY_LEN};
use netlink_packet_xfrm::nlas::user_kmaddress::{UserKmAddress, XFRM_USER_KMADDRESS_LEN};
use netlink_packet_xfrm::nlas::user_migrate::{UserMigrate, XFRM_USER_MIGRATE_LEN};
use netlink_packet_xfrm::nlas::user_offload::{UserOffloadDev, XFRM_USER_OFFLOAD_DEV_LEN};
use netlink_packet_xfrm::nlas::user_template::{UserTemplate, XFRM_USER_TEMPLATE_LEN};
use netlink_packet_xfrm::policy::spdinfo::nlas::spd_info::{
    SpdHInfo, SpdHThresh, SpdInfo, XFRM_SPD_HINFO_LEN, XFRM_SPD_HTHRESH_LEN, XFRM_SPD_INFO_LEN,
};
use netlink_packet_xfrm::selector::{Selector, XFRM_SELECTOR_LEN};
use netlink_packet_xfrm::state::sadinfo::nlas::sad_info::{SadHInfo, XFRM_SAD_HINFO_LEN};
use netlink_packet_xfrm::stats::{Stats, XFRM_STATS_LEN};
use netlink_packet_xfrm::user_acquire::{UserAcquire, XFRM_USER_ACQUIRE_LEN};
use netlink_packet_xfrm::user_expire::{UserExpire, XFRM_USER_EXPIRE_LEN};
use netlink_packet_xfrm::user_mapping::{UserMapping, XFRM_USER_MAPPING_LEN};
use netlink_packet_xfrm::user_polexpire::{UserPolicyExpire, XFRM_USER_POLICY_EXPIRE_LEN};
use netlink_packet_xfrm::user_policy_default::{
    UserPolicyDefault, XFRM_USER_POLICY_DEFAULT_LEN,
};
use netlink_packet_xfrm::user_policy_id::{UserPolicyId, XFRM_USER_POLICY_ID_LEN};
use netlink_packet_xfrm::user_policy_info::{UserPolicyInfo, XFRM_USER_POLICY_INFO_LEN};
use netlink_packet_xfrm::user_policy_type::{UserPolicyType, XFRM_USER_POLICY_TYPE_LEN};
use netlink_packet_xfrm::user_report::{UserReport, XFRM_USER_REPORT_LEN};
use netlink_packet_xfrm::user_sa_id::{UserSaId, XFRM_USER_SA_ID_LEN};
use netlink_packet_xfrm::user_sa_info::{UserSaInfo, XFRM_USER_SA_INFO_LEN};
use netlink_packet_xfrm::user_spi_info::{UserSpiInfo, XFRM_USER_SPI_INFO_LEN};
use netlink_packet_xfrm::wire::ParseError;

fn addr(first: u8) -> Address {
    let mut a = [0u8; 16];
    for (i, b) in a.iter_mut().enumerate() {
        *b = first.wrapping_add(i as u8);
    }
    Address { addr: a }
}

fn selector() -> Selector {
    Selector {
        daddr: addr(1),
        saddr: addr(100),
        dport: 443,
        dport_mask: 0xffff,
        sport: 0x1234,
        sport_mask: 0xff00,
        family: AF_INET6,
        prefixlen_d: 64,
        prefixlen_s: 48,
        proto: 6,
        ifindex: -7,
        user: 1000,
    }
}

fn sa_info() -> UserSaInfo {
    UserSaInfo {
        selector: selector(),
        id: Id { daddr: addr(30), spi: 0xdeadbeef, proto: 50 },
        saddr: addr(60),
        lifetime_cfg: LifetimeConfig::default(),
        lifetime_cur: Lifetime { bytes: 1, packets: 2, add_time: 3, use_time: 4 },
        stats: Stats { replay_window: 5, replay: 6, integrity_failed: 7 },
        seq: 8,
        reqid: 9,
        family: AF_INET,
        mode: 1,
        replay_window: 32,
        flags: 3,
    }
}

fn policy_info() -> UserPolicyInfo {
    UserPolicyInfo {
        selector: selector(),
        lifetime_cfg: LifetimeConfig::default(),
        lifetime_cur: Lifetime { bytes: 10, packets: 20, add_time: 30, use_time: 40 },
        priority: 100,
        index: 7,
        direction: 1,
        action: 0,
        flags: 2,
        share: 0,
    }
}

#[test]
fn structure_sizes_match_the_kernel_layouts() {
    assert_eq!(Address::default().buffer_len(), XFRM_ADDRESS_LEN);
    assert_eq!(XFRM_ADDRESS_LEN, 16);
    assert_eq!(Id::default().buffer_len(), XFRM_ID_LEN);
    assert_eq!(XFRM_ID_LEN, 24);
    assert_eq!(Selector::default().buffer_len(), 56);
    assert_eq!(XFRM_SELECTOR_LEN, 56);
    assert_eq!(LifetimeConfig::default().buffer_len(), XFRM_LIFETIME_CONFIG_LEN);
    assert_eq!(XFRM_LIFETIME_CONFIG_LEN, 64);
    assert_eq!(Lifetime::default().buffer_len(), XFRM_LIFETIME_LEN);
    assert_eq!(XFRM_LIFETIME_LEN, 32);
    assert_eq!(Stats::default().buffer_len(), XFRM_STATS_LEN);
    assert_eq!(XFRM_STATS_LEN, 12);
    assert_eq!(UserSaId::default().buffer_len(), XFRM_USER_SA_ID_LEN);
    assert_eq!(XFRM_USER_SA_ID_LEN, 24);
    assert_eq!(UserSaInfo::default().buffer_len(), 224);
    assert_eq!(XFRM_USER_SA_INFO_LEN, 224);
    assert_eq!(UserSpiInfo::default().buffer_len(), 232);
    assert_eq!(XFRM_USER_SPI_INFO_LEN, 232);
    assert_eq!(UserExpire::default().buffer_len(), 232);
    assert_eq!(XFRM_USER_EXPIRE_LEN, 232);
    assert_eq!(UserPolicyInfo::default().buffer_len(), 168);
    assert_eq!(XFRM_USER_POLICY_INFO_LEN, 168);
    assert_eq!(UserPolicyExpire::default().buffer_len(), 176);
    assert_eq!(XFRM_USER_POLICY_EXPIRE_LEN, 176);
    assert_eq!(UserPolicyId::default().buffer_len(), 64);
    assert_eq!(XFRM_USER_POLICY_ID_LEN, 64);
    assert_eq!(UserPolicyDefault::default().buffer_len(), 3);
    assert_eq!(XFRM_USER_POLICY_DEFAULT_LEN, 3);
    assert_eq!(UserPolicyType::default().buffer_len(), 6);
    assert_eq!(XFRM_USER_POLICY_TYPE_LEN, 6);
    assert_eq!(UserReport::default().buffer_len(), 60);
    assert_eq!(XFRM_USER_REPORT_LEN, 60);
    assert_eq!(UserAcquire::default().buffer_len(), 280);
    assert_eq!(XFRM_USER_ACQUIRE_LEN, 280);
    assert_eq!(UserMapping::default().buffer_len(), 64);
    assert_eq!(XFRM_USER_MAPPING_LEN, 64);
    assert_eq!(AsyncEventId::default().buffer_len(), 48);
    assert_eq!(XFRM_ASYNC_EVENT_ID_LEN, 48);
    assert_eq!(AddressFilter::default().buffer_len(), 36);
    assert_eq!(XFRM_ADDRESS_FILTER_LEN, 36);
    assert_eq!(EncapTmpl::default().buffer_len(), 24);
    assert_eq!(XFRM_ENCAP_TMPL_LEN, 24);
    assert_eq!(Mark::default().buffer_len(), 8);
    assert_eq!(XFRM_MARK_LEN, 8);
    assert_eq!(Replay::default().buffer_len(), 12);
    assert_eq!(XFRM_REPLAY_LEN, 12);
    assert_eq!(UserKmAddress::default().buffer_len(), 40);
    assert_eq!(XFRM_USER_KMADDRESS_LEN, 40);
    assert_eq!(UserMigrate::default().buffer_len(), 76);
    assert_eq!(XFRM_USER_MIGRATE_LEN, 76);
    assert_eq!(UserOffloadDev::default().buffer_len(), 8);
    assert_eq!(XFRM_USER_OFFLOAD_DEV_LEN, 8);
    assert_eq!(UserTemplate::default().buffer_len(), 64);
    assert_eq!(XFRM_USER_TEMPLATE_LEN, 64);
    assert_eq!(SpdInfo::default().buffer_len(), 24);
    assert_eq!(XFRM_SPD_INFO_LEN, 24);
    assert_eq!(SpdHInfo::default().buffer_len(), 8);
    assert_eq!(XFRM_SPD_HINFO_LEN, 8);
    assert_eq!(SpdHThresh::default().buffer_len(), 2);
    assert_eq!(XFRM_SPD_HTHRESH_LEN, 2);
    assert_eq!(SadHInfo::default().buffer_len(), 8);
    assert_eq!(XFRM_SAD_HINFO_LEN, 8);
}

#[test]
fn mark_parses_little_endian_fields() {
    let bytes = [0x01, 0x02, 0x03, 0x04, 0xff, 0x00, 0x00, 0x00, 0xaa];
    let mark = Mark::parse(&bytes).unwrap();
    assert_eq!(mark, Mark { value: 0x0403_0201, mask: 0xff });
}

#[test]
fn mark_emits_its_image_and_leaves_the_rest() {
    let mark = Mark { value: 0x0403_0201, mask: 0xff };
    let mut buf = vec![0xee; 10];
    mark.emit(&mut buf);
    assert_eq!(buf, vec![0x01, 0x02, 0x03, 0x04, 0xff, 0x00, 0x00, 0x00, 0xee, 0xee]);
    assert_eq!(MarkBuffer::from(&mark).as_bytes(), &buf[..8]);
}

#[test]
fn short_input_is_refused_with_both_lengths() {
    assert_eq!(
        Mark::parse(&[1, 2, 3]),
        Err(ParseError::BufferTooSmall { received: 3, expected: 8 })
    );
    assert_eq!(
        UserSaInfo::parse(&[0u8; 223]),
        Err(ParseError::BufferTooSmall { received: 223, expected: 224 })
    );
    assert_eq!(
        Address::parse(&[]),
        Err(ParseError::BufferTooSmall { received: 0, expected: 16 })
    );
}

#[test]
fn id_spi_is_big_endian_and_padding_is_zero() {
    let id = Id { daddr: addr(0), spi: 0x1234_5678, proto: 50 };
    let mut buf = vec![0xff; XFRM_ID_LEN];
    id.emit(&mut buf);
    assert_eq!(&buf[16..24], &[0x12, 0x34, 0x56, 0x78, 50, 0, 0, 0]);
    assert_eq!(IdBuffer::from(&id).as_bytes(), &buf[..]);
    let mut noisy = buf.clone();
    noisy[21] = 9;
    noisy[23] = 9;
    assert_eq!(Id::parse(&noisy).unwrap(), id);
}

#[test]
fn selector_ports_are_big_endian_and_ifindex_signed() {
    let sel = selector();
    let mut buf = vec![0; XFRM_SELECTOR_LEN];
    sel.emit(&mut buf);
    assert_eq!(&buf[32..34], &[0x01, 0xbb]);
    assert_eq!(&buf[36..38], &[0x12, 0x34]);
    assert_eq!(&buf[40..42], &[10, 0]);
    assert_eq!(&buf[48..52], &[0xf9, 0xff, 0xff, 0xff]);
    assert_eq!(&buf[52..56], &[0xe8, 0x03, 0, 0]);
    assert_eq!(Selector::parse(&buf).unwrap(), sel);
}

#[test]
fn lifetime_config_default_is_unlimited() {
    let cfg = LifetimeConfig::default();
    assert_eq!(cfg.soft_byte_limit, XFRM_INF);
    assert_eq!(cfg.hard_byte_limit, XFRM_INF);
    assert_eq!(cfg.soft_packet_limit, XFRM_INF);
    assert_eq!(cfg.hard_packet_limit, XFRM_INF);
    assert_eq!(cfg.soft_add_expires_seconds, 0);
    assert_eq!(cfg.hard_use_expires_seconds, 0);
    let mut buf = vec![0; 64];
    cfg.emit(&mut buf);
    assert_eq!(&buf[..8], &[0xff; 8]);
    assert_eq!(&buf[32..], &[0; 32]);
}

#[test]
fn lifetime_u64_fields_roundtrip() {
    let lt = Lifetime { bytes: 0x0102_0304_0506_0708, packets: u64::MAX, add_time: 0, use_time: 1 };
    let mut buf = vec![0; XFRM_LIFETIME_LEN];
    lt.emit(&mut buf);
    assert_eq!(&buf[..8], &[8, 7, 6, 5, 4, 3, 2, 1]);
    assert_eq!(Lifetime::parse(&buf).unwrap(), lt);
}

#[test]
fn every_fixed_structure_roundtrips() {
    fn check<T: PartialEq + std::fmt::Debug>(
        v: T,
        len: usize,
        emit: impl Fn(&T, &mut [u8]),
        parse: impl Fn(&[u8]) -> Result<T, ParseError>,
    ) {
        let mut buf = vec![0x5a; len + 3];
        emit(&v, &mut buf);
        assert_eq!(&buf[len..], &[0x5a, 0x5a, 0x5a]);
        assert_eq!(parse(&buf).unwrap(), v);
        assert_eq!(parse(&buf[..len]).unwrap(), v);
    }
    check(addr(7), 16, Address::emit, Address::parse);
    check(selector(), 56, Selector::emit, Selector::parse);
    check(sa_info(), 224, UserSaInfo::emit, UserSaInfo::parse);
    check(policy_info(), 168, UserPolicyInfo::emit, UserPolicyInfo::parse);
    check(
        UserSpiInfo { info: sa_info(), min: 1, max: 2 },
        232,
        UserSpiInfo::emit,
        UserSpiInfo::parse,
    );
    check(UserExpire { state: sa_info(), hard: 1 }, 232, UserExpire::emit, UserExpire::parse);
    check(
        UserPolicyExpire { pol: policy_info(), hard: 1 },
        176,
        UserPolicyExpire::emit,
        UserPolicyExpire::parse,
    );
    check(
        UserPolicyId { selector: selector(), index: 3, direction: 2 },
        64,
        UserPolicyId::emit,
        UserPolicyId::parse,
    );
    check(
        UserPolicyDefault { input: 1, forward: 2, output: 3 },
        3,
        UserPolicyDefault::emit,
        UserPolicyDefault::parse,
    );
    check(
        UserPolicyType { ptype: 1, reserved1: 0x0203, reserved2: 4 },
        6,
        UserPolicyType::emit,
        UserPolicyType::parse,
    );
    check(UserReport { proto: 50, selector: selector() }, 60, UserReport::emit, UserReport::parse);
    check(
        UserAcquire {
            id: Id { daddr: addr(3), spi: 1, proto: 51 },
            saddr: addr(9),
            selector: selector(),
            policy: policy_info(),
            aalgos: 1,
            ealgos: 2,
            calgos: 3,
            seq: 4,
        },
        280,
        UserAcquire::emit,
        UserAcquire::parse,
    );
    check(
        UserMapping {
            id: UserSaId { daddr: addr(2), spi: 9, family: AF_INET, proto: 50 },
            reqid: 5,
            old_saddr: addr(4),
            new_saddr: addr(8),
            old_sport: 4500,
            new_sport: 500,
        },
        64,
        UserMapping::emit,
        UserMapping::parse,
    );
    check(
        AsyncEventId {
            sa_id: UserSaId { daddr: addr(2), spi: 9, family: AF_INET6, proto: 50 },
            saddr: addr(5),
            flags: 1,
            reqid: 2,
        },
        48,
        AsyncEventId::emit,
        AsyncEventId::parse,
    );
    check(
        AddressFilter { saddr: addr(1), daddr: addr(2), family: AF_INET, splen: 24, dplen: 16 },
        36,
        AddressFilter::emit,
        AddressFilter::parse,
    );
    check(
        EncapTmpl { encap_type: 2, encap_sport: 4500, encap_dport: 4501, encap_oa: addr(3) },
        24,
        EncapTmpl::emit,
        EncapTmpl::parse,
    );
    check(Replay { oseq: 1, seq: 2, bitmap: 3 }, 12, Replay::emit, Replay::parse);
    check(
        UserKmAddress { local: addr(1), remote: addr(2), reserved: 3, family: AF_INET },
        40,
        UserKmAddress::emit,
        UserKmAddress::parse,
    );
    check(
        UserMigrate {
            old_daddr: addr(1),
            old_saddr: addr(2),
            new_daddr: addr(3),
            new_saddr: addr(4),
            proto: 50,
            mode: 1,
            reserved: 7,
            reqid: 8,
            old_family: AF_INET,
            new_family: AF_INET6,
        },
        76,
        UserMigrate::emit,
        UserMigrate::parse,
    );
    check(UserOffloadDev { ifindex: -2, flags: 3 }, 8, UserOffloadDev::emit, UserOffloadDev::parse);
    check(
        UserTemplate {
            id: Id { daddr: addr(3), spi: 0x100, proto: 50 },
            family: AF_INET,
            saddr: addr(4),
            reqid: 1,
            mode: 1,
            share: 0,
            optional: 1,
            aalgos: 7,
            ealgos: 8,
            calgos: 9,
        },
        64,
        UserTemplate::emit,
        UserTemplate::parse,
    );
    check(
        SpdInfo { incnt: 1, outcnt: 2, fwdcnt: 3, inscnt: 4, outscnt: 5, fwdscnt: 6 },
        24,
        SpdInfo::emit,
        SpdInfo::parse,
    );
    check(SpdHInfo { spdhcnt: 1, spdhmcnt: 2 }, 8, SpdHInfo::emit, SpdHInfo::parse);
    check(SpdHThresh { lbits: 32, rbits: 128 }, 2, SpdHThresh::emit, SpdHThresh::parse);
    check(SadHInfo { sadhcnt: 1, sadhmcnt: 2 }, 8, SadHInfo::emit, SadHInfo::parse);
    check(
        Stats { replay_window: 1, replay: 2, integrity_failed: 3 },
        12,
        Stats::emit,
        Stats::parse,
    );
}

#[test]
fn user_policy_type_layout_has_padding_between_fields() {
    let t = UserPolicyType { ptype: 1, reserved1: 0x0203, reserved2: 4 };
    let mut buf = vec![0xff; 6];
    t.emit(&mut buf);
    assert_eq!(buf, vec![1, 0, 0x03, 0x02, 4, 0]);
}

#[test]
fn encap_tmpl_ports_are_big_endian() {
    let t = EncapTmpl { encap_type: 2, encap_sport: 4500, encap_dport: 0x0102, encap_oa: addr(0) };
    let mut buf = vec![0; 24];
    t.emit(&mut buf);
    assert_eq!(&buf[..8], &[2, 0, 0x11, 0x94, 0x01, 0x02, 0, 0]);
}

#[test]
fn address_from_ip_fills_four_or_sixteen_bytes() {
    let v4 = Address::from_ip(&IpAddress::V4([192, 168, 1, 2]));
    assert_eq!(&v4.addr[..4], &[192, 168, 1, 2]);
    assert_eq!(&v4.addr[4..], &[0; 12]);
    assert_eq!(v4.to_ipv4(), [192, 168, 1, 2]);
    let octets = [0x20, 0x01, 0x0d, 0xb8, 0, 0, 0, 0, 0, 0, 0, 0, 0, 0, 0, 1];
    let v6 = Address::from_ip(&IpAddress::V6(octets));
    assert_eq!(v6.addr, octets);
    assert_eq!(v6.to_ipv6(), octets);
    assert_eq!(Address::from_ipv4(&[1, 2, 3, 4]).addr[..4], [1, 2, 3, 4]);
    assert_eq!(Address::from_ipv6(&octets).addr, octets);
    assert_eq!(AddressBuffer::from(&v6).as_bytes(), &octets[..]);
}

#[test]
fn unspecified_addresses_are_all_zero() {
    assert!(IpAddress::V4([0; 4]).is_unspecified());
    assert!(IpAddress::V6([0; 16]).is_unspecified());
    assert!(!IpAddress::V4([0, 0, 0, 1]).is_unspecified());
    assert!(IpAddress::V4([1, 2, 3, 4]).is_ipv4());
    assert!(IpAddress::V6([0; 16]).is_ipv6());
}

#[test]
fn emitting_a_parsed_value_restores_the_bytes_but_the_padding() {
    let mut bytes: Vec<u8> = (0..224u32).map(|i| (i * 7 + 3) as u8).collect();
    let info = UserSaInfo::parse(&bytes).unwrap();
    let mut out = vec![0xcc; 224];
    info.emit(&mut out);
    // the selector's three padding bytes sit at 45..48, the id's at 77..80,
    // and the structure's own seven at 217..224
    for i in (45..48).chain(77..80).chain(217..224) {
        bytes[i] = 0;
    }
    assert_eq!(out, bytes);

    let raw: Vec<u8> = (0..8u8).collect();
    let mark = Mark::parse(&raw).unwrap();
    let mut out = vec![0; 8];
    mark.emit(&mut out);
    assert_eq!(out, raw);
}

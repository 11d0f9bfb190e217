use netlink_packet_xfrm::address::{Address, IpAddress};
use netlink_packet_xfrm::constants::{AF_INET, AF_INET6, IPPROTO_COMP};
use netlink_packet_xfrm::nlas::address_filter::AddressFilter;
use netlink_packet_xfrm::nlas::user_template::UserTemplate;
use netlink_packet_xfrm::selector::Selector;
use netlink_packet_xfrm::user_sa_id::UserSaId;
use netlink_packet_xfrm::user_sa_info::UserSaInfo;
use netlink_packet_xfrm::user_spi_info::UserSpiInfo;

const V6: [u8; 16] = [0xfe, 0x80, 0, 0, 0, 0, 0, 0, 0, 0, 0, 0, 0, 0, 0, 1];

#[test]
fn user_template_defaults_allow_every_algorithm() {
    let t = UserTemplate::default();
    assert_eq!(t.aalgos, u32::MAX);
    assert_eq!(t.ealgos, u32::MAX);
    assert_eq!(t.calgos, u32::MAX);
    assert_eq!(t.family, 0);
    assert_eq!(t.optional, 0);
    assert_eq!(t.id.spi, 0);
}

#[test]
fn user_template_setters() {
    let mut t = UserTemplate::default();
    t.source(&IpAddress::V4([10, 0, 0, 1]));
    assert_eq!(t.family, AF_INET);
    assert_eq!(t.saddr, Address::from_ipv4(&[10, 0, 0, 1]));
    t.destination(&IpAddress::V6(V6));
    assert_eq!(t.family, AF_INET6);
    assert_eq!(t.id.daddr.addr, V6);
    t.protocol(50);
    t.mode(1);
    t.spi(0x1000);
    t.reqid(42);
    t.optional(true);
    assert_eq!(t.id.proto, 50);
    assert_eq!(t.mode, 1);
    assert_eq!(t.id.spi, 0x1000);
    assert_eq!(t.reqid, 42);
    assert_eq!(t.optional, 1);
    t.optional(false);
    assert_eq!(t.optional, 0);
    assert_eq!(t.aalgos, u32::MAX);
}

#[test]
fn selector_prefixes_and_family() {
    let mut s = Selector::default();
    s.source_prefix(&IpAddress::V4([192, 168, 0, 0]), 16);
    assert_eq!(s.prefixlen_s, 16);
    assert_eq!(s.family, AF_INET);
    assert_eq!(&s.saddr.addr[..4], &[192, 168, 0, 0]);
    s.destination_prefix(&IpAddress::V6([0; 16]), 64);
    assert_eq!(s.prefixlen_d, 0);
    assert_eq!(s.family, AF_INET6);
    s.destination_prefix(&IpAddress::V6(V6), 64);
    assert_eq!(s.prefixlen_d, 64);
    s.source_prefix(&IpAddress::V4([0; 4]), 8);
    assert_eq!(s.prefixlen_s, 0);
    assert_eq!(s.family, AF_INET);
}

#[test]
fn address_filter_prefixes_and_family() {
    let mut f = AddressFilter::default();
    f.source_prefix(&IpAddress::V6(V6), 10);
    f.destination_prefix(&IpAddress::V6([0; 16]), 10);
    assert_eq!(f.splen, 10);
    assert_eq!(f.dplen, 0);
    assert_eq!(f.family, AF_INET6);
    assert_eq!(f.saddr.addr, V6);
}

#[test]
fn sa_id_and_sa_info_addresses() {
    let mut id = UserSaId::default();
    id.destination(&IpAddress::V4([1, 2, 3, 4]));
    assert_eq!(id.family, AF_INET);
    assert_eq!(&id.daddr.addr[..4], &[1, 2, 3, 4]);
    let mut info = UserSaInfo::default();
    info.source(&IpAddress::V6(V6));
    info.destination(&IpAddress::V6(V6));
    assert_eq!(info.family, AF_INET6);
    assert_eq!(info.saddr.addr, V6);
    assert_eq!(info.id.daddr.addr, V6);
}

#[test]
fn spi_info_default_range_is_iproute2s() {
    let s = UserSpiInfo::default();
    assert_eq!(s.min, 0x100);
    assert_eq!(s.max, 0x0fff_ffff);
    assert_eq!(s.info, UserSaInfo::default());
}

#[test]
fn comp_spis_are_capped_to_sixteen_bits() {
    let mut s = UserSpiInfo::default();
    s.protocol(IPPROTO_COMP);
    assert_eq!(s.info.id.proto, IPPROTO_COMP);
    assert_eq!(s.max, 0xffff);
    s.spi_range(0x200, 0x12345);
    assert_eq!(s.min, 0x200);
    assert_eq!(s.max, 0xffff);
    s.spi_range(0x200, 0x300);
    assert_eq!(s.max, 0x300);

    let mut e = UserSpiInfo::default();
    e.protocol(50);
    assert_eq!(e.max, 0x0fff_ffff);
    e.spi_range(1, 0x12345);
    assert_eq!(e.max, 0x12345);
}

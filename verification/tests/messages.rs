use netlink_packet_xfrm::monitor::acquire::message::AcquireMessage;
use netlink_packet_xfrm::monitor::expire::message::ExpireMessage;
use netlink_packet_xfrm::monitor::get_async_event::message::GetAsyncEventMessage;
use netlink_packet_xfrm::monitor::mapping::message::MappingMessage;
use netlink_packet_xfrm::monitor::migrate::message::MigrateMessage;
use netlink_packet_xfrm::monitor::new_async_event::message::NewAsyncEventMessage;
use netlink_packet_xfrm::monitor::polexpire::message::PolicyExpireMessage;
use netlink_packet_xfrm::monitor::report::message::ReportMessage;
use netlink_packet_xfrm::nla::Nla;
use netlink_packet_xfrm::policy::default::message::DefaultMessage;
use netlink_packet_xfrm::policy::flush::message::FlushMessage as PolicyFlushMessage;
use netlink_packet_xfrm::policy::modify::message::ModifyMessage as PolicyModifyMessage;
use netlink_packet_xfrm::policy::spdinfo::message::{GetSpdInfoMessage, NewSpdInfoMessage};
use netlink_packet_xfrm::state::allocspi::message::AllocSpiMessage;
use netlink_packet_xfrm::state::delget::message::{DelGetMessage, GetDumpMessage};
use netlink_packet_xfrm::state::flush::message::FlushMessage as StateFlushMessage;
use netlink_packet_xfrm::state::modify::message::ModifyMessage as StateModifyMessage;
use netlink_packet_xfrm::state::sadinfo::message::{GetSadInfoMessage, NewSadInfoMessage};
use netlink_packet_xfrm::user_acquire::UserAcquire;
use netlink_packet_xfrm::user_policy_default::UserPolicyDefault;
use netlink_packet_xfrm::user_sa_id::UserSaId;
use netlink_packet_xfrm::user_spi_info::UserSpiInfo;
use netlink_packet_xfrm::wire::ParseError;

fn attrs() -> Vec<Nla> {
    vec![Nla { kind: 5, value: vec![1, 2, 3, 4, 5] }, Nla { kind: 9, value: vec![7] }]
}

#[test]
fn acquire_message_is_header_then_attributes() {
    let mut acquire = UserAcquire::default();
    acquire.seq = 77;
    acquire.id.spi = 0x0102_0304;
    let msg = AcquireMessage { acquire, nlas: attrs() };
    assert_eq!(msg.buffer_len(), 280 + 12 + 8);
    let mut buf = vec![0; msg.buffer_len()];
    msg.emit(&mut buf);
    assert_eq!(&buf[276..280], &[77, 0, 0, 0]);
    assert_eq!(&buf[280..284], &[9, 0, 5, 0]);
    assert_eq!(AcquireMessage::parse(&buf).unwrap(), msg);
}

#[test]
fn bad_attributes_fail_the_message() {
    let mut buf = vec![0; 280 + 4];
    buf[280] = 2;
    assert_eq!(AcquireMessage::parse(&buf), Err(ParseError::InvalidAttribute));
    let ok = AcquireMessage::parse(&buf[..280]).unwrap();
    assert!(ok.nlas.is_empty());
}

#[test]
fn header_only_messages_roundtrip() {
    let expire = ExpireMessage::default();
    let mut buf = vec![1; 232];
    expire.emit(&mut buf);
    assert_eq!(ExpireMessage::parse(&buf).unwrap(), expire);
    assert_eq!(expire.buffer_len(), 232);

    let get = GetAsyncEventMessage::default();
    let mut buf = vec![1; get.buffer_len()];
    get.emit(&mut buf);
    assert_eq!(GetAsyncEventMessage::parse(&buf).unwrap(), get);

    let map = MappingMessage::default();
    let mut buf = vec![1; map.buffer_len()];
    map.emit(&mut buf);
    assert_eq!(MappingMessage::parse(&buf).unwrap(), map);

    let d = DefaultMessage { user_policy: UserPolicyDefault { input: 1, forward: 0, output: 1 } };
    let mut buf = vec![0; 3];
    d.emit(&mut buf);
    assert_eq!(buf, vec![1, 0, 1]);
    assert_eq!(DefaultMessage::parse(&buf).unwrap(), d);
}

#[test]
fn header_and_attribute_messages_roundtrip() {
    let m = MigrateMessage { user_policy_id: Default::default(), nlas: attrs() };
    let mut buf = vec![0; m.buffer_len()];
    m.emit(&mut buf);
    assert_eq!(MigrateMessage::parse(&buf).unwrap(), m);

    let m = NewAsyncEventMessage { id: Default::default(), nlas: attrs() };
    let mut buf = vec![0; m.buffer_len()];
    m.emit(&mut buf);
    assert_eq!(NewAsyncEventMessage::parse(&buf).unwrap(), m);

    let m = PolicyExpireMessage { expire: Default::default(), nlas: attrs() };
    let mut buf = vec![0; m.buffer_len()];
    m.emit(&mut buf);
    assert_eq!(PolicyExpireMessage::parse(&buf).unwrap(), m);

    let m = ReportMessage { report: Default::default(), nlas: attrs() };
    let mut buf = vec![0; m.buffer_len()];
    m.emit(&mut buf);
    assert_eq!(ReportMessage::parse(&buf).unwrap(), m);

    let m = PolicyModifyMessage { user_policy_info: Default::default(), nlas: attrs() };
    let mut buf = vec![0; m.buffer_len()];
    m.emit(&mut buf);
    assert_eq!(PolicyModifyMessage::parse(&buf).unwrap(), m);

    let m = AllocSpiMessage { spi_info: UserSpiInfo::default(), nlas: attrs() };
    let mut buf = vec![0; m.buffer_len()];
    m.emit(&mut buf);
    assert_eq!(AllocSpiMessage::parse(&buf).unwrap(), m);

    let m = DelGetMessage { user_sa_id: UserSaId::default(), nlas: attrs() };
    let mut buf = vec![0; m.buffer_len()];
    m.emit(&mut buf);
    assert_eq!(DelGetMessage::parse(&buf).unwrap(), m);

    let m = StateModifyMessage { user_sa_info: Default::default(), nlas: attrs() };
    let mut buf = vec![0; m.buffer_len()];
    m.emit(&mut buf);
    assert_eq!(StateModifyMessage::parse(&buf).unwrap(), m);
}

#[test]
fn attribute_only_messages_roundtrip() {
    let m = PolicyFlushMessage { nlas: attrs() };
    let mut buf = vec![0; m.buffer_len()];
    m.emit(&mut buf);
    assert_eq!(PolicyFlushMessage::parse(&buf).unwrap(), m);
    assert_eq!(PolicyFlushMessage::parse(&[]).unwrap(), PolicyFlushMessage::default());

    let m = GetDumpMessage { nlas: attrs() };
    let mut buf = vec![0; m.buffer_len()];
    m.emit(&mut buf);
    assert_eq!(GetDumpMessage::parse(&buf).unwrap(), m);
    assert_eq!(GetDumpMessage::parse(&[1, 0]), Err(ParseError::InvalidAttribute));
}

#[test]
fn flags_messages_are_little_endian() {
    let m = NewSpdInfoMessage { flags: 0x0102_0304, nlas: attrs() };
    let mut buf = vec![0; m.buffer_len()];
    m.emit(&mut buf);
    assert_eq!(&buf[..4], &[4, 3, 2, 1]);
    assert_eq!(NewSpdInfoMessage::parse(&buf).unwrap(), m);

    let m = NewSadInfoMessage { flags: 7, nlas: vec![] };
    let mut buf = vec![0; m.buffer_len()];
    m.emit(&mut buf);
    assert_eq!(buf, vec![7, 0, 0, 0]);
    assert_eq!(NewSadInfoMessage::parse(&buf).unwrap(), m);

    let g = GetSpdInfoMessage { flags: 0xffff_fffe };
    let mut buf = vec![0; 5];
    g.emit(&mut buf);
    assert_eq!(buf, vec![0xfe, 0xff, 0xff, 0xff, 0]);
    assert_eq!(GetSpdInfoMessage::parse(&buf).unwrap(), g);
    assert_eq!(g.buffer_len(), 4);

    let g = GetSadInfoMessage { flags: 1 };
    let mut buf = vec![0; 4];
    g.emit(&mut buf);
    assert_eq!(GetSadInfoMessage::parse(&buf).unwrap(), g);
}

#[test]
fn state_flush_message_is_one_byte() {
    let m = StateFlushMessage { protocol: 50 };
    assert_eq!(m.buffer_len(), 1);
    let mut buf = vec![0, 9];
    m.emit(&mut buf);
    assert_eq!(buf, vec![50, 9]);
    assert_eq!(StateFlushMessage::parse(&buf).unwrap(), m);
    assert_eq!(
        StateFlushMessage::parse(&[]),
        Err(ParseError::BufferTooSmall { received: 0, expected: 1 })
    );
}

use netlink_packet_xfrm::nla::{emit_nlas, nlas_buffer_len, parse_nlas, Nla};
use netlink_packet_xfrm::wire::ParseError;

#[test]
fn attributes_are_padded_to_four_bytes() {
    let nlas = vec![
        Nla { kind: 5, value: vec![1, 2, 3] },
        Nla { kind: 0x8001, value: vec![] },
        Nla { kind: 7, value: vec![9, 9, 9, 9] },
    ];
    assert_eq!(nlas_buffer_len(&nlas), 8 + 4 + 8);
    let mut buf = vec![0xee; 22];
    emit_nlas(&nlas, &mut buf);
    assert_eq!(
        buf,
        vec![
            7, 0, 5, 0, 1, 2, 3, 0, //
            4, 0, 0x01, 0x80, //
            8, 0, 7, 0, 9, 9, 9, 9, //
            0xee, 0xee,
        ]
    );
    assert_eq!(parse_nlas(&buf[..20]).unwrap(), nlas);
}

#[test]
fn last_attribute_may_lack_its_padding() {
    let bytes = [5, 0, 3, 0, 42];
    assert_eq!(parse_nlas(&bytes).unwrap(), vec![Nla { kind: 3, value: vec![42] }]);
    assert_eq!(parse_nlas(&[]).unwrap(), Vec::<Nla>::new());
}

#[test]
fn malformed_attributes_are_refused() {
    assert_eq!(parse_nlas(&[4, 0, 1]), Err(ParseError::InvalidAttribute));
    assert_eq!(parse_nlas(&[3, 0, 1, 0]), Err(ParseError::InvalidAttribute));
    assert_eq!(parse_nlas(&[9, 0, 1, 0, 1, 2, 3, 4]), Err(ParseError::InvalidAttribute));
    assert_eq!(parse_nlas(&[4, 0, 1, 0, 2]), Err(ParseError::InvalidAttribute));
}

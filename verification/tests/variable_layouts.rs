use netlink_packet_xfrm::constants::{XFRMA_SEC_CTX, XFRM_SC_ALG_SELINUX, XFRM_SC_DOI_LSM};
use netlink_packet_xfrm::nlas::alg::{Alg, AlgBuffer, XFRM_ALG_HEADER_LEN};
use netlink_packet_xfrm::nlas::replay_esn::{ReplayEsn, ReplayEsnBuffer, XFRM_REPLAY_ESN_LEN};
use netlink_packet_xfrm::nlas::security_ctx::{
    SecurityCtx, SecurityCtxBuffer, XFRM_SEC_CTX_HEADER_LEN,
};
use netlink_packet_xfrm::wire::ParseError;

fn name(s: &str) -> [u8; 64] {
    let mut n = [0u8; 64];
    n[..s.len()].copy_from_slice(s.as_bytes());
    n
}

#[test]
fn alg_key_is_everything_after_the_header() {
    let mut bytes = name("cbc(aes)").to_vec();
    bytes.extend_from_slice(&[128, 0, 0, 0]);
    bytes.extend_from_slice(&[9; 16]);
    let alg = Alg::parse(&bytes).unwrap();
    assert_eq!(alg.alg_name, name("cbc(aes)"));
    assert_eq!(alg.alg_key_len, 128);
    assert_eq!(alg.alg_key, vec![9; 16]);
    assert_eq!(alg.buffer_len(), XFRM_ALG_HEADER_LEN + 16);
}

#[test]
fn alg_emit_writes_header_and_key() {
    let alg = Alg { alg_name: name("hmac(sha256)"), alg_key_len: 256, alg_key: vec![1, 2, 3] };
    let mut buf = vec![0; alg.buffer_len()];
    alg.emit(&mut buf);
    assert_eq!(&buf[..12], b"hmac(sha256)");
    assert_eq!(&buf[64..68], &[0, 1, 0, 0]);
    assert_eq!(&buf[68..], &[1, 2, 3]);
    assert_eq!(AlgBuffer::from(&alg).as_bytes(), &buf[..68]);
    assert_eq!(Alg::parse(&buf).unwrap(), alg);
}

#[test]
fn alg_with_empty_key_and_short_input() {
    let alg = Alg { alg_name: [0; 64], alg_key_len: 0, alg_key: vec![] };
    let mut buf = vec![0xaa; 68];
    alg.emit(&mut buf);
    assert_eq!(buf, vec![0; 68]);
    assert_eq!(Alg::parse(&buf).unwrap(), alg);
    assert_eq!(
        Alg::parse(&buf[..67]),
        Err(ParseError::BufferTooSmall { received: 67, expected: 68 })
    );
}

#[test]
fn replay_esn_bitmap_is_read_word_by_word() {
    let mut bytes = vec![2, 0, 0, 0, 10, 0, 0, 0, 11, 0, 0, 0, 0, 0, 0, 0, 1, 0, 0, 0, 64, 0, 0, 0];
    bytes.extend_from_slice(&[0xff, 0, 0, 0, 0, 0, 0, 0x80]);
    let esn = ReplayEsn::parse(&bytes).unwrap();
    assert_eq!(
        esn,
        ReplayEsn {
            bmp_len: 2,
            oseq: 10,
            seq: 11,
            oseq_hi: 0,
            seq_hi: 1,
            replay_window: 64,
            bmp: vec![0xff, 0x8000_0000],
        }
    );
    assert_eq!(esn.buffer_len(), XFRM_REPLAY_ESN_LEN + 8);
    let mut out = vec![0; esn.buffer_len() + 2];
    esn.emit(&mut out);
    assert_eq!(&out[..32], &bytes[..]);
    assert_eq!(&out[32..], &[0, 0]);
    assert_eq!(ReplayEsnBuffer::from(&esn).as_bytes(), &bytes[..24]);
}

#[test]
fn replay_esn_refuses_a_partial_word() {
    let bytes = vec![0u8; 24 + 5];
    assert_eq!(ReplayEsn::parse(&bytes), Err(ParseError::InvalidReplayBitmap));
    assert_eq!(
        ReplayEsn::parse(&bytes[..20]),
        Err(ParseError::BufferTooSmall { received: 20, expected: 24 })
    );
    assert_eq!(ReplayEsn::parse(&bytes[..24]).unwrap().bmp, Vec::<u32>::new());
}

#[test]
fn security_ctx_default_and_context() {
    let mut ctx = SecurityCtx::default();
    assert_eq!(ctx.len, XFRM_SEC_CTX_HEADER_LEN as u16);
    assert_eq!(ctx.exttype, XFRMA_SEC_CTX);
    assert_eq!(ctx.ctx_alg, XFRM_SC_ALG_SELINUX);
    assert_eq!(ctx.ctx_doi, XFRM_SC_DOI_LSM);
    assert_eq!(ctx.ctx_len, 0);
    assert!(ctx.ctx_str.is_empty());
    ctx.context(b"system_u:object_r:ipsec_spd_t:s0");
    assert_eq!(ctx.ctx_len, 32);
    assert_eq!(ctx.len, 40);
    assert_eq!(ctx.ctx_str, b"system_u:object_r:ipsec_spd_t:s0".to_vec());
    let mut buf = vec![0; ctx.buffer_len()];
    ctx.emit(&mut buf);
    assert_eq!(&buf[..8], &[40, 0, 8, 0, 1, 1, 32, 0]);
    assert_eq!(SecurityCtxBuffer::from(&ctx).as_bytes(), &buf[..8]);
    assert_eq!(SecurityCtx::parse(&buf).unwrap(), ctx);
}

#[test]
fn security_ctx_is_truncated_to_256_bytes() {
    let mut ctx = SecurityCtx::default();
    ctx.context(&[b'a'; 300]);
    assert_eq!(ctx.ctx_str.len(), 256);
    assert_eq!(ctx.ctx_len, 256);
    assert_eq!(ctx.len, 264);
    ctx.context(&[b'b'; 256]);
    assert_eq!(ctx.ctx_len, 256);
    assert_eq!(ctx.ctx_str, vec![b'b'; 256]);
    assert_eq!(
        SecurityCtx::parse(&[0; 7]),
        Err(ParseError::BufferTooSmall { received: 7, expected: 8 })
    );
}

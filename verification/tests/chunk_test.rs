use bytes::{Bytes, BytesMut};
use sctp_chunk::chunk::chunk_cookie_echo::ChunkCookieEcho;
use sctp_chunk::chunk::chunk_header::{ChunkHeader, MAX_VALUE_LENGTH};
use sctp_chunk::chunk::chunk_kind::ChunkKind;
use sctp_chunk::chunk::chunk_shutdown_complete::ChunkShutdownComplete;
use sctp_chunk::chunk::chunk_type::{CT_COOKIE_ECHO, CT_SHUTDOWN_COMPLETE};
use sctp_chunk::chunk::Chunk;
use sctp_chunk::error::Error;

#[test]
fn cookie_echo_marshal() {
    let chunk = ChunkCookieEcho { cookie: Bytes::from_static(&[0xDE, 0xAD, 0xBE, 0xEF]) };
    let raw = chunk.marshal().unwrap();
    assert_eq!(&raw[..], &[10u8, 0, 0, 8, 0xDE, 0xAD, 0xBE, 0xEF][..]);
    let back = ChunkCookieEcho::unmarshal(&raw).unwrap();
    assert_eq!(back.cookie, chunk.cookie);
}

#[test]
fn cookie_echo_header_and_length() {
    let chunk = ChunkCookieEcho { cookie: Bytes::from_static(&[1, 2, 3, 4, 5]) };
    assert_eq!(chunk.value_length(), 5);
    assert_eq!(chunk.header(), ChunkHeader { typ: CT_COOKIE_ECHO, flags: 0, value_length: 5 });
    assert_eq!(chunk.check(), Ok(()));
    let raw = chunk.marshal().unwrap();
    assert_eq!(raw.len(), 4 + chunk.value_length());
    assert_eq!(&raw[4..], &chunk.cookie[..]);
}

#[test]
fn cookie_echo_empty_cookie_round_trip() {
    let chunk = ChunkCookieEcho { cookie: Bytes::new() };
    let raw = chunk.marshal().unwrap();
    assert_eq!(&raw[..], &[10u8, 0, 0, 4][..]);
    let back = ChunkCookieEcho::unmarshal(&raw).unwrap();
    assert!(back.cookie.is_empty());
    assert_eq!(back.value_length(), 0);
}

#[test]
fn cookie_echo_marshal_to_appends() {
    let chunk = ChunkCookieEcho { cookie: Bytes::from_static(&[7, 8]) };
    let mut buf = BytesMut::new();
    buf.extend_from_slice(&[0xFF]);
    let n = chunk.marshal_to(&mut buf).unwrap();
    assert_eq!(n, 7);
    assert_eq!(n, buf.len());
    assert_eq!(&buf[..], &[0xFFu8, 10, 0, 0, 6, 7, 8][..]);
}

#[test]
fn cookie_echo_unmarshal_takes_declared_bytes_only() {
    let raw = Bytes::from_static(&[10, 0, 0, 6, 1, 2, 0, 0, 14, 0, 0, 4]);
    let chunk = ChunkCookieEcho::unmarshal(&raw).unwrap();
    assert_eq!(&chunk.cookie[..], &[1u8, 2][..]);
}

#[test]
fn cookie_echo_unmarshal_keeps_no_flags() {
    let raw = Bytes::from_static(&[10, 0x80, 0, 5, 9]);
    let chunk = ChunkCookieEcho::unmarshal(&raw).unwrap();
    assert_eq!(&chunk.cookie[..], &[9u8][..]);
    assert_eq!(chunk.header().flags, 0);
}

#[test]
fn cookie_echo_wrong_type() {
    let raw = Bytes::from_static(&[14, 0, 0, 4]);
    assert!(matches!(ChunkCookieEcho::unmarshal(&raw), Err(Error::ErrChunkTypeNotCookieEcho)));
    let raw = Bytes::from_static(&[14, 0, 0, 200]);
    assert!(matches!(ChunkCookieEcho::unmarshal(&raw), Err(Error::ErrChunkTypeNotCookieEcho)));
}

#[test]
fn cookie_echo_truncated_value() {
    let raw = Bytes::from_static(&[10, 0, 0, 8, 0xDE, 0xAD]);
    assert!(matches!(ChunkCookieEcho::unmarshal(&raw), Err(Error::ErrChunkHeaderNotEnoughSpace)));
    let raw = Bytes::from_static(&[10, 0, 0, 5]);
    assert!(matches!(ChunkCookieEcho::unmarshal(&raw), Err(Error::ErrChunkHeaderNotEnoughSpace)));
}

#[test]
fn cookie_echo_invalid_length() {
    let raw = Bytes::from_static(&[10, 0, 0, 3, 1, 2, 3, 4]);
    assert!(matches!(ChunkCookieEcho::unmarshal(&raw), Err(Error::ErrChunkHeaderInvalidLength)));
}

#[test]
fn cookie_echo_longest_cookie() {
    let chunk = ChunkCookieEcho { cookie: Bytes::from(vec![0x5Au8; MAX_VALUE_LENGTH]) };
    let raw = chunk.marshal().unwrap();
    assert_eq!(raw.len(), 65535);
    assert_eq!(&raw[..4], &[10u8, 0, 0xFF, 0xFF][..]);
    let back = ChunkCookieEcho::unmarshal(&raw).unwrap();
    assert_eq!(back.cookie, chunk.cookie);
}

#[test]
fn cookie_echo_cookie_too_long() {
    let chunk = ChunkCookieEcho { cookie: Bytes::from(vec![0u8; MAX_VALUE_LENGTH + 1]) };
    assert!(matches!(chunk.marshal(), Err(Error::ErrChunkLengthOverflow)));
    let mut buf = BytesMut::new();
    buf.extend_from_slice(&[1]);
    assert_eq!(chunk.marshal_to(&mut buf), Err(Error::ErrChunkLengthOverflow));
    assert_eq!(&buf[..], &[1u8][..]);
}

#[test]
fn cookie_echo_default_and_clone() {
    let empty = ChunkCookieEcho::default();
    assert!(empty.cookie.is_empty());
    let chunk = ChunkCookieEcho { cookie: Bytes::from_static(&[4, 5, 6]) };
    let copy = chunk.clone();
    assert_eq!(copy.cookie, chunk.cookie);
    assert_eq!(&copy.cookie[..], &[4u8, 5, 6][..]);
}

#[test]
fn shutdown_complete_marshal() {
    let chunk = ChunkShutdownComplete { flags: 0 };
    assert_eq!(chunk.value_length(), 0);
    let raw = chunk.marshal().unwrap();
    assert_eq!(&raw[..], &[14u8, 0, 0, 4][..]);
    let back = ChunkShutdownComplete::unmarshal(&raw).unwrap();
    assert_eq!(back.flags, 0);
    assert_eq!(back.value_length(), 0);
    assert_eq!(back.check(), Ok(()));
}

#[test]
fn shutdown_complete_header() {
    let chunk = ChunkShutdownComplete::default();
    assert_eq!(chunk.flags, 0);
    assert_eq!(&chunk.marshal().unwrap()[..], &[14u8, 0, 0, 4][..]);
    assert_eq!(
        chunk.header(),
        ChunkHeader { typ: CT_SHUTDOWN_COMPLETE, flags: 0, value_length: 0 }
    );
    assert_eq!(chunk.clone().header(), chunk.header());
}

#[test]
fn shutdown_complete_marshal_to_appends() {
    let chunk = ChunkShutdownComplete { flags: 0 };
    let mut buf = BytesMut::new();
    buf.extend_from_slice(&[1, 2, 3, 4]);
    assert_eq!(chunk.marshal_to(&mut buf), Ok(8));
    assert_eq!(&buf[..], &[1u8, 2, 3, 4, 14, 0, 0, 4][..]);
}

#[test]
fn shutdown_complete_wrong_type() {
    let raw = Bytes::from_static(&[10, 0, 0, 8, 0xDE, 0xAD, 0xBE, 0xEF]);
    assert!(matches!(
        ChunkShutdownComplete::unmarshal(&raw),
        Err(Error::ErrChunkTypeNotShutdownComplete)
    ));
}

#[test]
fn shutdown_complete_needs_only_the_header() {
    let raw = Bytes::from_static(&[14, 1, 0, 8]);
    let chunk = ChunkShutdownComplete::unmarshal(&raw).unwrap();
    assert_eq!(chunk.flags, 1);
    assert_eq!(chunk.value_length(), 0);
    let raw = Bytes::from_static(&[14, 0, 0, 4, 9, 9]);
    let chunk = ChunkShutdownComplete::unmarshal(&raw).unwrap();
    assert_eq!(chunk.flags, 0);
}

#[test]
fn shutdown_complete_keeps_flags() {
    let raw = Bytes::from_static(&[14, 1, 0, 4]);
    let chunk = ChunkShutdownComplete::unmarshal(&raw).unwrap();
    assert_eq!(chunk.flags, 1);
    assert_eq!(chunk.header(), ChunkHeader { typ: CT_SHUTDOWN_COMPLETE, flags: 1, value_length: 0 });
    assert_eq!(chunk.marshal().unwrap(), raw);
    assert_eq!(chunk.clone().flags, 1);
}

#[test]
fn shutdown_complete_every_flags_byte_round_trips() {
    for flags in 0u8..=255 {
        let chunk = ChunkShutdownComplete { flags };
        let raw = chunk.marshal().unwrap();
        assert_eq!(&raw[..], &[14u8, flags, 0, 4][..]);
        assert_eq!(ChunkShutdownComplete::unmarshal(&raw).unwrap().flags, flags);
    }
}

#[test]
fn dispatch_keeps_shutdown_complete_flags() {
    let raw = Bytes::from_static(&[14, 0x81, 0, 4]);
    match ChunkKind::unmarshal(&raw).unwrap() {
        ChunkKind::ShutdownComplete(c) => assert_eq!(c.flags, 0x81),
        ChunkKind::CookieEcho(_) => panic!("decoded as the wrong kind"),
    }
}

#[test]
fn three_bytes_are_too_few_for_any_decoder() {
    for first in [10u8, 14] {
        let raw = Bytes::from(vec![first, 0, 0]);
        assert!(matches!(ChunkCookieEcho::unmarshal(&raw), Err(Error::ErrChunkHeaderTooSmall)));
        assert!(matches!(
            ChunkShutdownComplete::unmarshal(&raw),
            Err(Error::ErrChunkHeaderTooSmall)
        ));
        assert!(matches!(ChunkKind::unmarshal(&raw), Err(Error::ErrChunkHeaderTooSmall)));
    }
}

#[test]
fn dispatch_by_tag() {
    let raw = Bytes::from_static(&[10, 0, 0, 6, 0xCA, 0xFE]);
    match ChunkKind::unmarshal(&raw).unwrap() {
        ChunkKind::CookieEcho(c) => assert_eq!(&c.cookie[..], &[0xCAu8, 0xFE][..]),
        ChunkKind::ShutdownComplete(_) => panic!("decoded as the wrong kind"),
    }
    let raw = Bytes::from_static(&[14, 0, 0, 4]);
    assert!(matches!(ChunkKind::unmarshal(&raw), Ok(ChunkKind::ShutdownComplete(_))));
}

#[test]
fn dispatch_unknown_tag() {
    let raw = Bytes::from_static(&[99, 0, 0, 4]);
    assert!(matches!(ChunkKind::unmarshal(&raw), Err(Error::ErrUnmarshalUnknownChunkType)));
    let raw = Bytes::from_static(&[99]);
    assert!(matches!(ChunkKind::unmarshal(&raw), Err(Error::ErrUnmarshalUnknownChunkType)));
    let raw = Bytes::new();
    assert!(matches!(ChunkKind::unmarshal(&raw), Err(Error::ErrChunkHeaderTooSmall)));
}

#[test]
fn dispatch_passes_decoder_errors_on() {
    let raw = Bytes::from_static(&[10, 0, 0, 9, 1]);
    assert!(matches!(ChunkKind::unmarshal(&raw), Err(Error::ErrChunkHeaderNotEnoughSpace)));
    let raw = Bytes::from_static(&[14, 0, 0, 2]);
    assert!(matches!(ChunkKind::unmarshal(&raw), Err(Error::ErrChunkHeaderInvalidLength)));
}

#[test]
fn kind_delegates_to_its_chunk() {
    let kind = ChunkKind::CookieEcho(ChunkCookieEcho { cookie: Bytes::from_static(&[1, 2, 3]) });
    assert_eq!(kind.value_length(), 3);
    assert_eq!(kind.header(), ChunkHeader { typ: 10, flags: 0, value_length: 3 });
    assert_eq!(kind.check(), Ok(()));
    assert_eq!(&kind.marshal().unwrap()[..], &[10u8, 0, 0, 7, 1, 2, 3][..]);
    let copy = kind.clone();
    assert_eq!(&copy.marshal().unwrap()[..], &[10u8, 0, 0, 7, 1, 2, 3][..]);

    let kind = ChunkKind::ShutdownComplete(ChunkShutdownComplete { flags: 0 });
    assert_eq!(kind.value_length(), 0);
    assert_eq!(kind.header(), ChunkHeader { typ: 14, flags: 0, value_length: 0 });
    let mut buf = BytesMut::new();
    assert_eq!(kind.marshal_to(&mut buf), Ok(4));
    assert_eq!(&buf[..], &[14u8, 0, 0, 4][..]);
}

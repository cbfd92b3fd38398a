//! The frame-length codec, the buffer, and what follows a session's answer.

use noise_io::buffer::{
    copy_bytes, Buffer, MAX_NOISE_PKG_LEN, MAX_WRITE_BUF_LEN, TOTAL_BUFFER_LEN, WRITE_CRYPTO_LEN,
};
use noise_io::codec::{decode_len, encode_len, read_frame_len, write_frame_len, LenRead, LenWrite};
use noise_io::state::{ReadEvent, ReadState, WriteEvent, WriteState};

#[test]
fn constants() {
    assert_eq!(MAX_NOISE_PKG_LEN, 65535);
    assert_eq!(MAX_WRITE_BUF_LEN, 16384);
    assert_eq!(TOTAL_BUFFER_LEN, 2 * 65535 + 3 * 16384);
    assert_eq!(WRITE_CRYPTO_LEN, 32768);
}

#[test]
fn decode_len_is_big_endian() {
    assert_eq!(decode_len(&[0, 0]), 0);
    assert_eq!(decode_len(&[0, 1]), 1);
    assert_eq!(decode_len(&[1, 0]), 256);
    assert_eq!(decode_len(&[0x12, 0x34]), 0x1234);
    assert_eq!(decode_len(&[0xff, 0xff]), 65535);
    for n in [0u16, 1, 255, 256, 4660, 65535] {
        assert_eq!(decode_len(&n.to_be_bytes()), n);
    }
}

#[test]
fn encode_len_is_big_endian() {
    assert_eq!(encode_len(0), [0, 0]);
    assert_eq!(encode_len(18), [0, 18]);
    assert_eq!(encode_len(256), [1, 0]);
    assert_eq!(encode_len(16400), [0x40, 0x10]);
    assert_eq!(encode_len(65535), [0xff, 0xff]);
    for n in [0u16, 1, 255, 256, 4660, 65535] {
        assert_eq!(encode_len(n), n.to_be_bytes());
        assert_eq!(decode_len(&encode_len(n)), n);
    }
}

#[test]
fn read_frame_len_in_one_piece() {
    let mut buf = [0u8; 2];
    let mut off = 0;
    let r = read_frame_len::<u8>(ReadEvent::Data(&[0x01, 0x02]), &mut buf, &mut off);
    assert_eq!(r, LenRead::Ready(Some(258)));
    assert_eq!(buf, [1, 2]);
    assert_eq!(off, 2);
}

#[test]
fn read_frame_len_in_two_pieces() {
    let mut buf = [0u8; 2];
    let mut off = 0;
    assert_eq!(read_frame_len::<u8>(ReadEvent::Data(&[0xab]), &mut buf, &mut off), LenRead::More);
    assert_eq!((buf, off), ([0xab, 0], 1));
    assert_eq!(read_frame_len::<u8>(ReadEvent::Pending, &mut buf, &mut off), LenRead::Pending);
    assert_eq!((buf, off), ([0xab, 0], 1));
    assert_eq!(
        read_frame_len::<u8>(ReadEvent::Data(&[0xcd]), &mut buf, &mut off),
        LenRead::Ready(Some(0xabcd))
    );
    assert_eq!((buf, off), ([0xab, 0xcd], 2));
}

#[test]
fn read_frame_len_at_the_end() {
    let mut buf = [0u8; 2];
    let mut off = 0;
    assert_eq!(read_frame_len::<u8>(ReadEvent::Data(&[]), &mut buf, &mut off), LenRead::Ready(None));
    assert_eq!((buf, off), ([0, 0], 0));
    let mut buf = [9u8, 0];
    let mut off = 1;
    assert_eq!(read_frame_len::<u8>(ReadEvent::Data(&[]), &mut buf, &mut off), LenRead::Truncated);
    assert_eq!((buf, off), ([9, 0], 1));
}

#[test]
fn read_frame_len_passes_failure_on() {
    let mut buf = [7u8, 0];
    let mut off = 1;
    assert_eq!(read_frame_len(ReadEvent::Failed("reset"), &mut buf, &mut off), LenRead::Failed("reset"));
    assert_eq!((buf, off), ([7, 0], 1));
}

#[test]
fn read_frame_len_of_zero() {
    let mut buf = [0u8; 2];
    let mut off = 0;
    assert_eq!(
        read_frame_len::<u8>(ReadEvent::Data(&[0, 0]), &mut buf, &mut off),
        LenRead::Ready(Some(0))
    );
}

#[test]
fn write_frame_len_steps() {
    let mut off = 0;
    assert_eq!(write_frame_len::<u8>(WriteEvent::Pending, &mut off), LenWrite::Pending);
    assert_eq!(off, 0);
    assert_eq!(write_frame_len::<u8>(WriteEvent::Wrote(1), &mut off), LenWrite::More);
    assert_eq!(off, 1);
    assert_eq!(write_frame_len(WriteEvent::Failed("pipe"), &mut off), LenWrite::Failed("pipe"));
    assert_eq!(off, 1);
    assert_eq!(write_frame_len::<u8>(WriteEvent::Wrote(1), &mut off), LenWrite::Ready(true));
    assert_eq!(off, 2);
    let mut off = 0;
    assert_eq!(write_frame_len::<u8>(WriteEvent::Wrote(2), &mut off), LenWrite::Ready(true));
    assert_eq!(off, 2);
}

#[test]
fn write_frame_len_at_the_end() {
    let mut off = 0;
    assert_eq!(write_frame_len::<u8>(WriteEvent::Wrote(0), &mut off), LenWrite::Ready(false));
    assert_eq!(off, 0);
    let mut off = 1;
    assert_eq!(write_frame_len::<u8>(WriteEvent::Wrote(0), &mut off), LenWrite::Ready(false));
    assert_eq!(off, 1);
}

#[test]
fn buffer_regions() {
    let mut buffer = Buffer::new();
    assert_eq!(buffer.as_slice().len(), TOTAL_BUFFER_LEN);
    assert!(buffer.as_slice().iter().all(|b| *b == 0));
    {
        let b = buffer.borrow_mut();
        assert_eq!(b.read.len(), 65535);
        assert_eq!(b.read_crypto.len(), 65535);
        assert_eq!(b.write.len(), 16384);
        assert_eq!(b.write_crypto.len(), 32768);
        b.read[0] = 1;
        b.read[65534] = 2;
        b.read_crypto[0] = 3;
        b.read_crypto[65534] = 4;
        b.write[0] = 5;
        b.write[16383] = 6;
        b.write_crypto[0] = 7;
        b.write_crypto[32767] = 8;
    }
    let all = buffer.as_slice();
    assert_eq!(all[0], 1);
    assert_eq!(all[65534], 2);
    assert_eq!(all[65535], 3);
    assert_eq!(all[131069], 4);
    assert_eq!(all[131070], 5);
    assert_eq!(all[147453], 6);
    assert_eq!(all[147454], 7);
    assert_eq!(all[180221], 8);
    assert_eq!(all.iter().filter(|b| **b != 0).count(), 8);
}

#[test]
fn copy_bytes_overwrites_a_range() {
    let mut dst = [0u8, 1, 2, 3, 4, 5, 6, 7];
    copy_bytes(&mut dst, 2, &[10, 11, 12, 13, 14], 1, 3);
    assert_eq!(dst, [0, 1, 11, 12, 13, 5, 6, 7]);
    copy_bytes(&mut dst, 8, &[9], 1, 0);
    assert_eq!(dst, [0, 1, 11, 12, 13, 5, 6, 7]);
    copy_bytes(&mut dst, 0, &[20, 21, 22, 23, 24, 25, 26, 27], 0, 8);
    assert_eq!(dst, [20, 21, 22, 23, 24, 25, 26, 27]);
}

#[test]
fn read_state_after_the_session_answered() {
    assert_eq!(ReadState::opened(&Ok(984)), ReadState::CopyData { len: 984, off: 0 });
    assert_eq!(ReadState::opened(&Ok(0)), ReadState::CopyData { len: 0, off: 0 });
    assert_eq!(ReadState::opened(&Err(snow::Error::Decrypt)), ReadState::DecErr);
    assert_eq!(ReadState::opened(&Err(snow::Error::Input)), ReadState::DecErr);
}

#[test]
fn write_state_after_the_session_answered() {
    assert_eq!(
        WriteState::sealed(&Ok(16400)),
        WriteState::WriteLen { len: 16400, buf: [0x40, 0x10], off: 0 }
    );
    assert_eq!(WriteState::sealed(&Ok(0)), WriteState::WriteLen { len: 0, buf: [0, 0], off: 0 });
    assert_eq!(
        WriteState::sealed(&Ok(65535)),
        WriteState::WriteLen { len: 65535, buf: [0xff, 0xff], off: 0 }
    );
    assert_eq!(WriteState::sealed(&Err(snow::Error::Input)), WriteState::EncErr);
}

#[test]
fn terminal_states() {
    assert!(ReadState::Eof(Ok(())).terminal());
    assert!(ReadState::Eof(Err(())).terminal());
    assert!(ReadState::DecErr.terminal());
    assert!(!ReadState::Init.terminal());
    assert!(!ReadState::ReadLen { buf: [0, 0], off: 0 }.terminal());
    assert!(!ReadState::ReadData { len: 5, off: 1 }.terminal());
    assert!(!ReadState::CopyData { len: 5, off: 1 }.terminal());
    assert!(WriteState::Eof.terminal());
    assert!(WriteState::EncErr.terminal());
    assert!(!WriteState::Init.terminal());
    assert!(!WriteState::BufferData { off: 3 }.terminal());
    assert!(!WriteState::WriteLen { len: 3, buf: [0, 3], off: 0 }.terminal());
    assert!(!WriteState::WriteData { len: 3, off: 0 }.terminal());
}

use rover::media::{
    parse_header, parse_payload, Demux, DemuxState, FrameHeader, FramingError, StreamPacket,
};

fn header_block(kind: u16, length: u32) -> Vec<u8> {
    let mut block = vec![0u8; 23];
    block[..4].copy_from_slice(&[0x4D, 0x4F, 0x5F, 0x56]);
    block[4..6].copy_from_slice(&kind.to_le_bytes());
    block[15..19].copy_from_slice(&length.to_le_bytes());
    block
}

fn video_payload(video_type: u8, timestamp: u32, data: &[u8], trailing: usize) -> Vec<u8> {
    let mut p = vec![0u8; 13];
    p[..4].copy_from_slice(&timestamp.to_le_bytes());
    p[4..8].copy_from_slice(&[0xA1, 0xA2, 0xA3, 0xA4]);
    p[8] = video_type;
    p[9..13].copy_from_slice(&(data.len() as u32).to_le_bytes());
    p.extend_from_slice(data);
    p.extend(std::iter::repeat(0xEE).take(trailing));
    p
}

fn audio_payload(timestamp: u32, data: &[u8], trailing: usize) -> Vec<u8> {
    let mut p = vec![0x55u8; 17];
    p[..4].copy_from_slice(&timestamp.to_le_bytes());
    p[13..17].copy_from_slice(&(data.len() as u32).to_le_bytes());
    p.extend_from_slice(data);
    p.extend(std::iter::repeat(0xEE).take(trailing));
    p
}

/// Runs a fresh demultiplexer over a whole stream.
fn run(stream: &[u8]) -> (Demux, Vec<StreamPacket>, Option<FramingError>) {
    let mut demux = Demux::new();
    let (packets, used, error) = demux.drain(stream);
    if error.is_none() {
        assert!(stream.len() - used < demux.wanted());
    }
    (demux, packets, error)
}

#[test]
fn one_video_frame_then_another() {
    let first = video_payload(1, 0xDEAD_BEEF, &[9, 8, 7, 6, 5], 0);
    let second = video_payload(2, 77, &[1, 2, 3], 4);
    let mut stream = header_block(1, first.len() as u32);
    stream.extend_from_slice(&first);
    let (demux, packets, err) = run(&stream);
    assert_eq!(err, None);
    assert_eq!(demux.state, DemuxState::Seek);
    assert_eq!(
        packets,
        vec![StreamPacket::Video { video_type: 1, timestamp: 0xDEAD_BEEF, data: vec![9, 8, 7, 6, 5] }]
    );

    stream.extend_from_slice(&header_block(1, second.len() as u32));
    stream.extend_from_slice(&second);
    let (demux, packets, err) = run(&stream);
    assert_eq!(err, None);
    assert_eq!(demux.state, DemuxState::Seek);
    assert_eq!(packets.len(), 2);
    assert_eq!(
        packets[1],
        StreamPacket::Video { video_type: 2, timestamp: 77, data: vec![1, 2, 3] }
    );
}

#[test]
fn block_without_marker_is_dropped() {
    let mut garbage = header_block(1, 40);
    garbage[3] = 0x4F;
    let payload = audio_payload(5, &[10, 20, 30], 0);
    let mut stream = garbage.clone();
    stream.extend_from_slice(&[0u8; 23]);
    stream.extend_from_slice(&header_block(2, payload.len() as u32));
    stream.extend_from_slice(&payload);

    let mut demux = Demux::new();
    assert_eq!(demux.feed(&garbage), Ok(None));
    assert_eq!(demux.state, DemuxState::Seek);
    assert_eq!(demux.wanted(), 23);

    let (demux, packets, err) = run(&stream);
    assert_eq!(err, None);
    assert_eq!(demux.state, DemuxState::Seek);
    assert_eq!(
        packets,
        vec![StreamPacket::Audio { offset: 0, index: 0, timestamp: 5, data: vec![10, 20, 30] }]
    );
}

#[test]
fn each_marker_byte_counts() {
    for i in 0..4 {
        let mut block = header_block(1, 40);
        block[i] ^= 1;
        assert_eq!(parse_header(&block), None);
    }
    assert_eq!(parse_header(&header_block(1, 40)), Some(FrameHeader { kind: 1, length: 40 }));
    assert_eq!(parse_header(&header_block(1, 40)[..22]), None);
}

#[test]
fn long_payload_grows_the_scratch_buffer() {
    let data: Vec<u8> = (0..300_000u32).map(|i| (i % 251) as u8).collect();
    let payload = video_payload(1, 1, &data, 0);
    let mut demux = Demux::new();
    assert_eq!(demux.scratch_len(), 204800);
    assert_eq!(demux.feed(&header_block(1, payload.len() as u32)), Ok(None));
    assert_eq!(demux.wanted(), 300_013);
    assert_eq!(demux.scratch_len(), 300_013);
    match demux.feed(&payload) {
        Ok(Some(StreamPacket::Video { video_type, timestamp, data: got })) => {
            assert_eq!(video_type, 1);
            assert_eq!(timestamp, 1);
            assert_eq!(got, data);
        }
        other => panic!("{:?}", other),
    }
    assert_eq!(demux.state, DemuxState::Seek);

    let small = audio_payload(2, &[1], 0);
    assert_eq!(demux.feed(&header_block(2, small.len() as u32)), Ok(None));
    assert_eq!(demux.scratch_len(), 300_013);
}

#[test]
fn short_payload_keeps_the_scratch_buffer() {
    let mut demux = Demux::new();
    assert_eq!(demux.feed(&header_block(1, 204800)), Ok(None));
    assert_eq!(demux.scratch_len(), 204800);
    assert_eq!(demux.state, DemuxState::Payload(FrameHeader { kind: 1, length: 204800 }));
    let mut demux = Demux::new();
    assert_eq!(demux.feed(&header_block(1, 204801)), Ok(None));
    assert_eq!(demux.scratch_len(), 204801);
}

#[test]
fn audio_data_is_the_declared_range() {
    let payload = audio_payload(0x0102_0304, &[0xAA, 0xBB, 0xCC, 0xDD], 6);
    assert_eq!(
        parse_payload(2, &payload),
        Ok(StreamPacket::Audio {
            offset: 0,
            index: 0,
            timestamp: 0x0102_0304,
            data: payload[17..21].to_vec(),
        })
    );
    let empty = audio_payload(9, &[], 0);
    assert_eq!(
        parse_payload(2, &empty),
        Ok(StreamPacket::Audio { offset: 0, index: 0, timestamp: 9, data: vec![] })
    );
}

#[test]
fn video_fields_come_from_their_offsets() {
    let payload = video_payload(2, 0x0A0B_0C0D, &[1, 2, 3], 2);
    assert_eq!(&payload[..4], &[0x0D, 0x0C, 0x0B, 0x0A]);
    assert_eq!(
        parse_payload(1, &payload),
        Ok(StreamPacket::Video { video_type: 2, timestamp: 0x0A0B_0C0D, data: vec![1, 2, 3] })
    );
}

#[test]
fn unknown_kind_is_an_error() {
    let payload = video_payload(1, 1, &[1], 0);
    assert_eq!(parse_payload(0, &payload), Err(FramingError::UnknownKind));
    assert_eq!(parse_payload(3, &payload), Err(FramingError::UnknownKind));
    let mut demux = Demux::new();
    assert_eq!(demux.feed(&header_block(7, payload.len() as u32)), Ok(None));
    assert_eq!(demux.feed(&payload), Err(FramingError::UnknownKind));
}

#[test]
fn inconsistent_lengths_are_errors() {
    let mut payload = video_payload(1, 1, &[1, 2, 3], 0);
    payload.pop();
    assert_eq!(parse_payload(1, &payload), Err(FramingError::Truncated));
    assert_eq!(parse_payload(1, &[0u8; 12]), Err(FramingError::Truncated));
    assert_eq!(parse_payload(2, &[0u8; 16]), Err(FramingError::Truncated));
    let mut audio = audio_payload(1, &[1, 2, 3], 0);
    audio[16] = 0xFF;
    assert_eq!(parse_payload(2, &audio), Err(FramingError::Truncated));

    let mut demux = Demux::new();
    assert_eq!(demux.feed(&[0u8; 22]), Err(FramingError::Truncated));
    assert_eq!(demux.state, DemuxState::Seek);
    assert_eq!(demux.feed(&header_block(1, 20)), Ok(None));
    assert_eq!(demux.feed(&[0u8; 19]), Err(FramingError::Truncated));
    assert_eq!(demux.wanted(), 20);
}

#[test]
fn drain_stops_before_an_incomplete_block() {
    let payload = audio_payload(3, &[1, 2, 3, 4], 0);
    let mut stream = header_block(2, payload.len() as u32);
    stream.extend_from_slice(&payload);
    let whole = stream.len();
    stream.extend_from_slice(&header_block(1, 100));
    stream.extend_from_slice(&[0u8; 50]);

    let mut demux = Demux::new();
    let (packets, used, error) = demux.drain(&stream);
    assert_eq!(error, None);
    assert_eq!(used, whole + 23);
    assert_eq!(packets.len(), 1);
    assert_eq!(demux.state, DemuxState::Payload(FrameHeader { kind: 1, length: 100 }));

    let mut demux = Demux::new();
    assert_eq!(demux.drain(&[]), (vec![], 0, None));
    assert_eq!(demux.drain(&stream[..22]), (vec![], 0, None));
    assert_eq!(demux.state, DemuxState::Seek);
}

#[test]
fn drain_stops_at_a_frame_in_error() {
    let good = video_payload(1, 4, &[5, 6], 0);
    let mut stream = header_block(1, good.len() as u32);
    stream.extend_from_slice(&good);
    let before_bad = stream.len();
    stream.extend_from_slice(&header_block(9, 4));
    stream.extend_from_slice(&[1, 2, 3, 4]);
    stream.extend_from_slice(&header_block(1, good.len() as u32));
    stream.extend_from_slice(&good);

    let mut demux = Demux::new();
    let (packets, used, error) = demux.drain(&stream);
    assert_eq!(error, Some(FramingError::UnknownKind));
    assert_eq!(used, before_bad + 23);
    assert_eq!(
        packets,
        vec![StreamPacket::Video { video_type: 1, timestamp: 4, data: vec![5, 6] }]
    );
    assert_eq!(demux.state, DemuxState::Payload(FrameHeader { kind: 9, length: 4 }));

    let mut empty_payload = header_block(1, 0);
    empty_payload.extend_from_slice(&header_block(1, 0));
    let mut demux = Demux::new();
    assert_eq!(demux.drain(&empty_payload), (vec![], 23, Some(FramingError::Truncated)));
}

#[test]
fn drain_and_feed_agree() {
    let a = video_payload(1, 10, &[1, 2, 3], 1);
    let b = audio_payload(11, &[4, 5], 0);
    let mut stream = vec![0xAB; 23];
    stream.extend_from_slice(&header_block(1, a.len() as u32));
    stream.extend_from_slice(&a);
    stream.extend_from_slice(&header_block(2, b.len() as u32));
    stream.extend_from_slice(&b);

    let mut by_feed = Demux::new();
    let mut fed = Vec::new();
    let mut at = 0;
    while at < stream.len() {
        let n = by_feed.wanted();
        if let Some(p) = by_feed.feed(&stream[at..at + n]).unwrap() {
            fed.push(p);
        }
        at += n;
    }
    let mut by_drain = Demux::new();
    let (drained, used, error) = by_drain.drain(&stream);
    assert_eq!(error, None);
    assert_eq!(used, stream.len());
    assert_eq!(drained, fed);
    assert_eq!(by_drain, by_feed);
    assert_eq!(drained.len(), 2);
}

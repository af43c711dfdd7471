use ts_audio_bridge::codec::{decoded_frame, Codec, CHANNELS, USUAL_FRAME_SIZE};
use ts_audio_bridge::queue::SourceQueue;
use ts_audio_bridge::registry::{DecodeOutcome, MixRegistry, PacketError, SourceId};

fn sid(client: u16) -> SourceId {
    SourceId { connection: 0, client }
}

fn frame(value: i16, len: usize) -> Vec<i16> {
    vec![value; len]
}

#[test]
fn only_opus_is_supported() {
    assert!(Codec::OpusVoice.is_supported());
    assert!(Codec::OpusMusic.is_supported());
    assert!(!Codec::SpeexNarrowband.is_supported());
    assert!(!Codec::SpeexWideband.is_supported());
    assert!(!Codec::SpeexUltrawideband.is_supported());
    assert!(!Codec::CeltMono.is_supported());
}

#[test]
fn queue_is_fifo_across_frames() {
    let mut q = SourceQueue::new();
    assert!(q.is_empty());
    q.push(&vec![1, 2, 3]);
    q.push(&vec![4, 5]);
    assert_eq!(q.len(), 5);
    assert_eq!(q.pull(4), vec![1, 2, 3, 4]);
    assert_eq!(q.pull(4), vec![5]);
    assert!(q.is_empty());
    assert_eq!(q.pull(4), Vec::<i16>::new());
}

#[test]
fn unsupported_codec_leaves_registry_unchanged() {
    let mut reg = MixRegistry::new();
    reg.handle_decoded(sid(1), Codec::OpusVoice, DecodeOutcome::Decoded(frame(7, 4)))
        .unwrap();
    assert!(!reg.needs_decode(sid(1), Codec::CeltMono));
    let r = reg.handle_decoded(sid(1), Codec::CeltMono, DecodeOutcome::Decoded(frame(9, 8)));
    assert_eq!(r, Err(PacketError::UnsupportedCodec));
    let r = reg.handle_decoded(sid(2), Codec::SpeexWideband, DecodeOutcome::Decoded(frame(9, 8)));
    assert_eq!(r, Err(PacketError::UnsupportedCodec));
    assert_eq!(reg.len(), 1);
    let mut buf = vec![0i128; 8];
    reg.fill_output_buffer(&mut buf);
    assert_eq!(buf, vec![7, 7, 7, 7, 0, 0, 0, 0]);
}

#[test]
fn idle_fill_is_silence_of_configured_length() {
    let mut reg = MixRegistry::new();
    let mut buf = vec![5i128; USUAL_FRAME_SIZE * CHANNELS];
    reg.fill_output_buffer(&mut buf);
    assert_eq!(buf.len(), 1920);
    assert!(buf.iter().all(|&s| s == 0));
    assert!(reg.is_empty());
    reg.fill_output_buffer(&mut buf);
    assert!(buf.iter().all(|&s| s == 0));
}

#[test]
fn two_sources_sum_in_either_order() {
    // 0.1 and 0.2 of full scale in 16-bit fixed point.
    let a: i16 = 3277;
    let b: i16 = 6554;
    let n = USUAL_FRAME_SIZE * CHANNELS;
    let mut ab = MixRegistry::new();
    ab.handle_decoded(sid(1), Codec::OpusVoice, DecodeOutcome::Decoded(frame(a, n))).unwrap();
    ab.handle_decoded(sid(2), Codec::OpusMusic, DecodeOutcome::Decoded(frame(b, n))).unwrap();
    let mut ba = MixRegistry::new();
    ba.handle_decoded(sid(2), Codec::OpusMusic, DecodeOutcome::Decoded(frame(b, n))).unwrap();
    ba.handle_decoded(sid(1), Codec::OpusVoice, DecodeOutcome::Decoded(frame(a, n))).unwrap();
    let mut out_ab = vec![0i128; n];
    let mut out_ba = vec![0i128; n];
    ab.fill_output_buffer(&mut out_ab);
    ba.fill_output_buffer(&mut out_ba);
    assert!(out_ab.iter().all(|&s| s == 9831));
    assert_eq!(out_ab, out_ba);
    assert!(ab.is_empty());
}

#[test]
fn mix_does_not_limit() {
    let mut reg = MixRegistry::new();
    reg.handle_decoded(sid(1), Codec::OpusVoice, DecodeOutcome::Decoded(frame(32767, 2))).unwrap();
    reg.handle_decoded(sid(2), Codec::OpusVoice, DecodeOutcome::Decoded(frame(32767, 2))).unwrap();
    reg.handle_decoded(sid(3), Codec::OpusVoice, DecodeOutcome::Decoded(frame(-32768, 1))).unwrap();
    let mut buf = vec![0i128; 2];
    reg.fill_output_buffer(&mut buf);
    assert_eq!(buf, vec![32766, 65534]);
}

#[test]
fn backlog_spans_periods_in_order() {
    let mut reg = MixRegistry::new();
    reg.handle_decoded(sid(1), Codec::OpusVoice, DecodeOutcome::Decoded(vec![1, 2, 3])).unwrap();
    reg.handle_decoded(sid(1), Codec::OpusVoice, DecodeOutcome::Decoded(vec![4, 5, 6])).unwrap();
    let mut buf = vec![0i128; 4];
    reg.fill_output_buffer(&mut buf);
    assert_eq!(buf, vec![1, 2, 3, 4]);
    assert!(!reg.is_empty());
    reg.fill_output_buffer(&mut buf);
    assert_eq!(buf, vec![5, 6, 0, 0]);
    assert!(reg.is_empty());
}

#[test]
fn decoder_init_failure_disables_source_for_good() {
    let mut reg = MixRegistry::new();
    assert!(reg.needs_decode(sid(4), Codec::OpusVoice));
    let r = reg.handle_decoded(sid(4), Codec::OpusVoice, DecodeOutcome::InitFailed);
    assert_eq!(r, Err(PacketError::DecoderInitFailed));
    assert!(!reg.needs_decode(sid(4), Codec::OpusVoice));
    let r = reg.handle_decoded(sid(4), Codec::OpusVoice, DecodeOutcome::Decoded(frame(1, 2)));
    assert_eq!(r, Err(PacketError::SourceDisabled));
    assert!(reg.is_empty());
    // Other sources are not disturbed.
    reg.handle_decoded(sid(5), Codec::OpusVoice, DecodeOutcome::Decoded(frame(3, 2))).unwrap();
    let mut buf = vec![0i128; 2];
    reg.fill_output_buffer(&mut buf);
    assert_eq!(buf, vec![3, 3]);
}

#[test]
fn malformed_packet_keeps_source_and_backlog() {
    let mut reg = MixRegistry::new();
    reg.handle_decoded(sid(1), Codec::OpusVoice, DecodeOutcome::Decoded(vec![8, 9])).unwrap();
    let r = reg.handle_decoded(sid(1), Codec::OpusVoice, DecodeOutcome::Malformed);
    assert_eq!(r, Err(PacketError::MalformedPacket));
    assert!(reg.needs_decode(sid(1), Codec::OpusVoice));
    let r = reg.handle_decoded(sid(2), Codec::OpusVoice, DecodeOutcome::Malformed);
    assert_eq!(r, Err(PacketError::MalformedPacket));
    assert_eq!(reg.len(), 1);
    let mut buf = vec![0i128; 2];
    reg.fill_output_buffer(&mut buf);
    assert_eq!(buf, vec![8, 9]);
}

#[test]
fn every_new_source_gets_an_entry() {
    let mut reg = MixRegistry::new();
    let count: usize = 1500;
    for c in 0..count {
        reg.handle_decoded(sid(c as u16), Codec::OpusVoice, DecodeOutcome::Decoded(vec![32767]))
            .unwrap();
    }
    assert_eq!(reg.len(), count);
    // A known source appends to its backlog without a new entry.
    reg.handle_decoded(sid(0), Codec::OpusVoice, DecodeOutcome::Decoded(vec![1])).unwrap();
    assert_eq!(reg.len(), count);
    let mut buf = vec![0i128; 2];
    reg.fill_output_buffer(&mut buf);
    assert_eq!(buf, vec![32767 * count as i128, 1]);
}

#[test]
fn decoded_frame_keeps_interleaved_samples() {
    let scratch: Vec<i16> = (0..20).collect();
    assert_eq!(decoded_frame(&scratch, 3), vec![0, 1, 2, 3, 4, 5]);
    assert_eq!(decoded_frame(&scratch, 0), Vec::<i16>::new());
    assert_eq!(decoded_frame(&scratch, 50).len(), 20);
}

#[test]
fn bounded_push_drops_oldest() {
    let mut q = SourceQueue::new();
    q.push_bounded(&vec![1, 2, 3], Some(4));
    q.push_bounded(&vec![4, 5, 6], Some(4));
    assert_eq!(q.len(), 4);
    assert_eq!(q.pull(10), vec![3, 4, 5, 6]);
    q.push_bounded(&vec![7, 8], None);
    assert_eq!(q.pull(10), vec![7, 8]);
}

#[test]
fn capped_registry_keeps_newest_samples() {
    let n = USUAL_FRAME_SIZE * CHANNELS;
    let mut reg = MixRegistry::with_backlog_cap(n);
    let mut older = vec![1i16; n];
    older[n - 1] = 2;
    reg.handle_decoded(sid(1), Codec::OpusVoice, DecodeOutcome::Decoded(older)).unwrap();
    reg.handle_decoded(sid(1), Codec::OpusVoice, DecodeOutcome::Decoded(vec![5, 6])).unwrap();
    let mut buf = vec![0i128; n + 1];
    reg.fill_output_buffer(&mut buf);
    // The two oldest samples were dropped; the newest n remain.
    assert!(buf[..n - 3].iter().all(|&s| s == 1));
    assert_eq!(&buf[n - 3..], &[2, 5, 6, 0]);
    assert!(reg.is_empty());
}

#[test]
fn queue_push_after_partial_pull_keeps_order() {
    let mut q = SourceQueue::new();
    q.push(&vec![1, 2, 3, 4]);
    assert_eq!(q.pull(3), vec![1, 2, 3]);
    assert_eq!(q.len(), 1);
    q.push(&vec![5, 6]);
    assert_eq!(q.len(), 3);
    assert_eq!(q.pull(2), vec![4, 5]);
    q.push_bounded(&vec![7, 8], Some(2));
    assert_eq!(q.pull(10), vec![7, 8]);
    assert!(q.is_empty());
}

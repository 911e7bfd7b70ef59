use tinyvox::audio::{
    advance_position, decode_pcm16_le, encode_pcm16_le, is_retryable_status, is_speech, queued_samples,
    retry_step, wav_bytes, whole_sample_bytes, AttemptOutcome, RetryStep, MAX_ATTEMPTS,
};

#[test]
fn odd_pcm_byte_is_ignored() {
    let pcm = vec![0, 0, 123];
    let samples = decode_pcm16_le(&pcm[..whole_sample_bytes(pcm.len())]);
    assert_eq!(samples.len(), 1);
    assert_eq!(decode_pcm16_le(&pcm).len(), 1);
}

#[test]
fn pcm16_decodes_little_endian_signed_samples() {
    let mut pcm = Vec::new();
    pcm.extend_from_slice(&0i16.to_le_bytes());
    pcm.extend_from_slice(&16_384i16.to_le_bytes());
    pcm.extend_from_slice(&(-16_384i16).to_le_bytes());
    pcm.extend_from_slice(&i16::MIN.to_le_bytes());
    assert_eq!(decode_pcm16_le(&pcm), vec![0, 16_384, -16_384, i16::MIN]);
}

#[test]
fn pcm16_round_trips() {
    let samples = vec![0i16, 1, -1, i16::MAX, i16::MIN, 300, -300];
    let pcm = encode_pcm16_le(&samples);
    assert_eq!(pcm.len(), 14);
    assert_eq!(&pcm[..4], &[0, 0, 1, 0]);
    assert_eq!(decode_pcm16_le(&pcm), samples);
}

#[test]
fn playback_position_stops_at_the_end() {
    let mut position = 0usize;
    advance_position(&mut position, 2);
    assert_eq!(position, 1);
    advance_position(&mut position, 2);
    advance_position(&mut position, 2);
    assert_eq!(position, 2);
    assert_eq!(queued_samples(10, 4), 6);
    assert_eq!(queued_samples(3, 4), 0);
}

#[test]
fn wav_header_describes_mono_16_bit_pcm() {
    let wav = wav_bytes(&[1, 2, 3, 4], 16_000);
    assert_eq!(wav.len(), 48);
    assert_eq!(&wav[0..4], b"RIFF");
    assert_eq!(u32::from_le_bytes([wav[4], wav[5], wav[6], wav[7]]), 40);
    assert_eq!(&wav[8..16], b"WAVEfmt ");
    assert_eq!(u32::from_le_bytes([wav[16], wav[17], wav[18], wav[19]]), 16);
    assert_eq!(u16::from_le_bytes([wav[20], wav[21]]), 1);
    assert_eq!(u16::from_le_bytes([wav[22], wav[23]]), 1);
    assert_eq!(u32::from_le_bytes([wav[24], wav[25], wav[26], wav[27]]), 16_000);
    assert_eq!(u32::from_le_bytes([wav[28], wav[29], wav[30], wav[31]]), 32_000);
    assert_eq!(u16::from_le_bytes([wav[32], wav[33]]), 2);
    assert_eq!(u16::from_le_bytes([wav[34], wav[35]]), 16);
    assert_eq!(&wav[36..40], b"data");
    assert_eq!(u32::from_le_bytes([wav[40], wav[41], wav[42], wav[43]]), 4);
    assert_eq!(&wav[44..], &[1, 2, 3, 4]);
}

#[test]
fn retryable_statuses() {
    assert!(is_retryable_status(408));
    assert!(is_retryable_status(429));
    assert!(is_retryable_status(500));
    assert!(is_retryable_status(503));
    assert!(is_retryable_status(599));
    assert!(!is_retryable_status(400));
    assert!(!is_retryable_status(404));
    assert!(!is_retryable_status(600));
}

#[test]
fn retries_back_off_and_stop_after_three_attempts() {
    assert_eq!(retry_step(0, AttemptOutcome::Success), RetryStep::Accept);
    assert_eq!(retry_step(0, AttemptOutcome::Status(503)), RetryStep::RetryAfterMs(100));
    assert_eq!(retry_step(1, AttemptOutcome::TransportError), RetryStep::RetryAfterMs(200));
    assert_eq!(retry_step(2, AttemptOutcome::Status(503)), RetryStep::FailWithStatus);
    assert_eq!(retry_step(2, AttemptOutcome::TransportError), RetryStep::FailTransport);
    assert_eq!(retry_step(0, AttemptOutcome::Status(401)), RetryStep::FailWithStatus);
    for outcome in [AttemptOutcome::Status(500), AttemptOutcome::TransportError] {
        assert!(!matches!(retry_step(MAX_ATTEMPTS - 1, outcome), RetryStep::RetryAfterMs(_)));
    }
}

fn chunk_of(sample: i16, count: usize) -> Vec<u8> {
    let mut pcm = Vec::new();
    for _ in 0..count {
        pcm.extend_from_slice(&sample.to_le_bytes());
    }
    pcm
}

#[test]
fn loudness_of_fifteen_thousandths_is_speech() {
    // 492 / 32767 is just above 0.015, 491 / 32767 just below.
    assert!(is_speech(&chunk_of(492, 160)));
    assert!(is_speech(&chunk_of(-492, 160)));
    assert!(!is_speech(&chunk_of(491, 160)));
    assert!(is_speech(&chunk_of(i16::MIN, 3)));
    let mut mixed = chunk_of(0, 3);
    mixed.extend(chunk_of(1000, 1));
    // sqrt(1000^2 / 4) / 32767 = 0.01526
    assert!(is_speech(&mixed));
}

#[test]
fn empty_chunk_is_silence() {
    assert!(!is_speech(&[]));
    assert!(!is_speech(&[0x7f]));
    assert!(!is_speech(&chunk_of(0, 100)));
}

use vstd::prelude::*;

verus! {

// ---------------------------------------------------------------------------
// Playback queue
// ---------------------------------------------------------------------------

/// Moves the playback position one sample on, unless it is already at the
/// end of the queue.
pub fn advance_position(position: &mut usize, queue_len: usize)
    ensures
        *final(position) == if *old(position) < queue_len {
            *old(position) + 1
        } else {
            *old(position) as int
        },
{
    if *position < queue_len {
        *position = *position + 1;
    }
}

/// The number of queued samples not played yet.
pub fn queued_samples(queue_len: usize, position: usize) -> (n: usize)
    ensures
        n == if position <= queue_len {
            queue_len - position
        } else {
            0
        },
{
    queue_len.saturating_sub(position)
}

/// The number of bytes of `len` that form whole 16-bit samples: a dangling
/// last byte is dropped.
pub fn whole_sample_bytes(len: usize) -> (n: usize)
    ensures
        n == len - len % 2,
{
    len - len % 2
}

// ---------------------------------------------------------------------------
// 16-bit little-endian PCM
// ---------------------------------------------------------------------------

/// The signed 16-bit value of two little-endian bytes.
pub open spec fn le_i16(lo: u8, hi: u8) -> i16 {
    let v: int = lo as int + 256 * hi as int;
    if v >= 32768 {
        (v - 65536) as i16
    } else {
        v as i16
    }
}

/// The low byte of the little-endian encoding of `s`.
pub open spec fn i16_lo(s: i16) -> u8 {
    (if s < 0 {
        s + 65536
    } else {
        s as int
    } % 256) as u8
}

/// The high byte of the little-endian encoding of `s`.
pub open spec fn i16_hi(s: i16) -> u8 {
    (if s < 0 {
        s + 65536
    } else {
        s as int
    } / 256) as u8
}

/// The samples of 16-bit little-endian PCM data as `decode_pcm16_le` gives
/// them.
pub open spec fn decoded_pcm16_le(pcm: Seq<u8>) -> Seq<i16> {
    Seq::new(pcm.len() / 2, |i: int| le_i16(pcm[2 * i], pcm[2 * i + 1]))
}

/// The sum of the squares of `samples`.
pub open spec fn sum_of_squares(samples: Seq<i16>) -> nat
    decreases samples.len(),
{
    if samples.len() == 0 {
        0
    } else {
        sum_of_squares(samples.drop_last()) + (samples.last() * samples.last()) as nat
    }
}

/// A chunk of samples is speech when its root-mean-square loudness, each
/// sample taken as a fraction of `i16::MAX`, is at least 0.015: squared and
/// cleared of fractions, `40000 * sum >= 9 * 32767 * 32767 * n`. An empty
/// chunk is silence.
pub open spec fn is_speech_spec(samples: Seq<i16>) -> bool {
    samples.len() > 0 && 40000 * sum_of_squares(samples) >= 9 * 32767 * 32767 * samples.len()
}

/// Whether a chunk of 16-bit little-endian PCM is speech.
pub fn is_speech(pcm: &[u8]) -> (b: bool)
    ensures
        b == is_speech_spec(decoded_pcm16_le(pcm@)),
{
    let samples = decode_pcm16_le(pcm);
    proof {
        assert(samples@ =~= decoded_pcm16_le(pcm@));
    }
    let n: usize = samples.len();
    if n == 0 {
        return false;
    }
    let mut sum: u128 = 0;
    let mut i: usize = 0;
    while i < n
        invariant
            n == samples@.len(),
            i <= n,
            sum == sum_of_squares(samples@.take(i as int)),
            sum <= i * 1073741824,
        decreases n - i,
    {
        let s: i16 = samples[i];
        let a: i32 = s as i32;
        proof {
            assert(samples@.take(i + 1).drop_last() =~= samples@.take(i as int));
            assert(0 <= a * a <= 1073741824) by (nonlinear_arith)
                requires
                    -32768 <= a <= 32767,
            ;
            assert(sum + a * a <= (i + 1) * 1073741824) by (nonlinear_arith)
                requires
                    sum <= i * 1073741824,
                    a * a <= 1073741824,
            ;
            assert(i + 1 <= usize::MAX);
            assert((i + 1) * 1073741824 <= usize::MAX * 1073741824) by (nonlinear_arith)
                requires
                    i + 1 <= usize::MAX,
            ;
        }
        let sq: u128 = (a * a) as u128;
        sum = sum + sq;
        i = i + 1;
    }
    proof {
        assert(samples@.take(n as int) =~= samples@);
    }
    let n128: u128 = n as u128;
    proof {
        assert(n128 <= 0xffff_ffff_ffff_ffff);
        assert(40000 * sum <= 40000 * (n128 * 1073741824)) by (nonlinear_arith)
            requires
                sum <= n128 * 1073741824,
        ;
        assert(40000 * (n128 * 1073741824) <= 40000 * (0xffff_ffff_ffff_ffffu128 * 1073741824))
            by (nonlinear_arith)
            requires
                n128 <= 0xffff_ffff_ffff_ffffu128,
        ;
        assert(9 * 32767 * 32767 * n128 <= 9 * 32767 * 32767 * 0xffff_ffff_ffff_ffffu128)
            by (nonlinear_arith)
            requires
                n128 <= 0xffff_ffff_ffff_ffffu128,
        ;
    }
    40000 * sum >= 9 * 32767 * 32767 * n128
}

/// The samples of 16-bit little-endian PCM data (`i16::from_le_bytes` on
/// each pair of bytes); a dangling last byte is ignored.
pub fn decode_pcm16_le(pcm: &[u8]) -> (samples: Vec<i16>)
    ensures
        samples@.len() == pcm@.len() / 2,
        forall|i: int|
            0 <= i < samples@.len() ==> #[trigger] samples@[i] == le_i16(
                pcm@[2 * i],
                pcm@[2 * i + 1],
            ),
{
    let mut samples: Vec<i16> = Vec::new();
    let n: usize = pcm.len() / 2;
    let mut i: usize = 0;
    while i < n
        invariant
            n == pcm@.len() / 2,
            i <= n,
            samples@.len() == i,
            forall|j: int|
                0 <= j < i ==> #[trigger] samples@[j] == le_i16(pcm@[2 * j], pcm@[2 * j + 1]),
        decreases n - i,
    {
        proof {
            let len: usize = pcm.len();
            assert(2 * i + 1 < len) by (nonlinear_arith)
                requires
                    i < n,
                    n == len / 2,
            ;
        }
        let lo: u8 = pcm[2 * i];
        let hi: u8 = pcm[2 * i + 1];
        let v: u32 = lo as u32 + 256 * hi as u32;
        let s: i16 = if v >= 32768 {
            (v as i32 - 65536) as i16
        } else {
            v as i16
        };
        samples.push(s);
        i = i + 1;
    }
    samples
}

/// The 16-bit little-endian encoding of `samples` (`i16::to_le_bytes` on
/// each sample).
pub fn encode_pcm16_le(samples: &[i16]) -> (pcm: Vec<u8>)
    requires
        samples@.len() * 2 <= usize::MAX,
    ensures
        pcm@.len() == 2 * samples@.len(),
        forall|i: int|
            0 <= i < samples@.len() ==> pcm@[2 * i] == i16_lo(#[trigger] samples@[i]) && pcm@[2 * i
                + 1] == i16_hi(samples@[i]),
{
    let mut pcm: Vec<u8> = Vec::new();
    let mut i: usize = 0;
    while i < samples.len()
        invariant
            samples@.len() * 2 <= usize::MAX,
            i <= samples@.len(),
            pcm@.len() == 2 * i,
            forall|j: int|
                0 <= j < i ==> pcm@[2 * j] == i16_lo(#[trigger] samples@[j]) && pcm@[2 * j + 1]
                    == i16_hi(samples@[j]),
        decreases samples@.len() - i,
    {
        let s: i16 = samples[i];
        let u: u32 = if s < 0 {
            (s as i32 + 65536) as u32
        } else {
            s as u32
        };
        pcm.push((u % 256) as u8);
        pcm.push((u / 256) as u8);
        i = i + 1;
    }
    pcm
}

/// Decoding the encoding of a sample gives the sample back.
pub proof fn lemma_pcm16_round_trip(s: i16)
    ensures
        le_i16(i16_lo(s), i16_hi(s)) == s,
{
}

// ---------------------------------------------------------------------------
// WAV container
// ---------------------------------------------------------------------------

/// The two little-endian bytes of `v`.
pub open spec fn le16(v: u16) -> Seq<u8> {
    seq![(v % 256) as u8, (v / 256) as u8]
}

/// The four little-endian bytes of `v`.
pub open spec fn le32(v: u32) -> Seq<u8> {
    seq![(v % 256) as u8, ((v / 256) % 256) as u8, ((v / 65536) % 256) as u8, (v / 16777216) as u8]
}

/// The 44-byte header of a mono 16-bit PCM WAV file holding `data_size`
/// bytes of samples at `sample_rate` samples per second.
pub open spec fn wav_header(data_size: u32, sample_rate: u32) -> Seq<u8> {
    "RIFF"@.map_values(|c: char| c as u8) + le32((36 + data_size) as u32) + "WAVE"@.map_values(
        |c: char| c as u8,
    ) + "fmt "@.map_values(|c: char| c as u8) + le32(16) + le16(1) + le16(1) + le32(sample_rate)
        + le32((sample_rate * 2) as u32) + le16(2) + le16(16) + "data"@.map_values(
        |c: char| c as u8,
    ) + le32(data_size)
}

fn push_le16(out: &mut Vec<u8>, v: u16)
    ensures
        final(out)@ == old(out)@ + le16(v),
{
    out.push((v % 256) as u8);
    out.push((v / 256) as u8);
    proof {
        assert(final(out)@ =~= old(out)@ + le16(v));
    }
}

fn push_le32(out: &mut Vec<u8>, v: u32)
    ensures
        final(out)@ == old(out)@ + le32(v),
{
    out.push((v % 256) as u8);
    out.push(((v / 256) % 256) as u8);
    out.push(((v / 65536) % 256) as u8);
    out.push((v / 16777216) as u8);
    proof {
        assert(final(out)@ =~= old(out)@ + le32(v));
    }
}

fn push_tag(out: &mut Vec<u8>, a: u8, b: u8, c: u8, d: u8)
    ensures
        final(out)@ == old(out)@ + seq![a, b, c, d],
{
    out.push(a);
    out.push(b);
    out.push(c);
    out.push(d);
    proof {
        assert(final(out)@ =~= old(out)@ + seq![a, b, c, d]);
    }
}

/// A mono 16-bit PCM WAV file holding the given sample bytes.
pub fn wav_bytes(pcm: &[u8], sample_rate: u32) -> (wav: Vec<u8>)
    requires
        pcm@.len() + 36 <= u32::MAX,
        sample_rate * 2 <= u32::MAX,
    ensures
        wav@ == wav_header(pcm@.len() as u32, sample_rate) + pcm@,
{
    let data_size: u32 = pcm.len() as u32;
    let mut wav: Vec<u8> = Vec::new();
    push_tag(&mut wav, 0x52, 0x49, 0x46, 0x46);
    push_le32(&mut wav, 36 + data_size);
    push_tag(&mut wav, 0x57, 0x41, 0x56, 0x45);
    push_tag(&mut wav, 0x66, 0x6D, 0x74, 0x20);
    push_le32(&mut wav, 16);
    push_le16(&mut wav, 1);
    push_le16(&mut wav, 1);
    push_le32(&mut wav, sample_rate);
    push_le32(&mut wav, sample_rate * 2);
    push_le16(&mut wav, 2);
    push_le16(&mut wav, 16);
    push_tag(&mut wav, 0x64, 0x61, 0x74, 0x61);
    push_le32(&mut wav, data_size);
    let ghost header = wav@;
    let mut i: usize = 0;
    while i < pcm.len()
        invariant
            i <= pcm@.len(),
            wav@ == header + pcm@.take(i as int),
        decreases pcm@.len() - i,
    {
        wav.push(pcm[i]);
        i = i + 1;
        proof {
            assert(pcm@.take(i as int) == pcm@.take(i - 1).push(pcm@[i - 1]));
        }
    }
    proof {
        assert(pcm@.take(pcm@.len() as int) == pcm@);
        reveal_strlit("RIFF");
        reveal_strlit("WAVE");
        reveal_strlit("fmt ");
        reveal_strlit("data");
        assert("RIFF"@.map_values(|c: char| c as u8) =~= seq![0x52u8, 0x49, 0x46, 0x46]);
        assert("WAVE"@.map_values(|c: char| c as u8) =~= seq![0x57u8, 0x41, 0x56, 0x45]);
        assert("fmt "@.map_values(|c: char| c as u8) =~= seq![0x66u8, 0x6D, 0x74, 0x20]);
        assert("data"@.map_values(|c: char| c as u8) =~= seq![0x64u8, 0x61, 0x74, 0x61]);
        assert(header =~= wav_header(data_size, sample_rate));
    }
    wav
}

// ---------------------------------------------------------------------------
// Retrying a transcription request
// ---------------------------------------------------------------------------

/// HTTP statuses worth retrying: request timeout, too many requests, and
/// server errors.
pub open spec fn is_retryable_spec(status: u16) -> bool {
    status == 408 || status == 429 || (500 <= status <= 599)
}

/// Tests whether a failed HTTP status is worth retrying.
pub fn is_retryable_status(status: u16) -> (b: bool)
    ensures
        b == is_retryable_spec(status),
{
    status == 408 || status == 429 || (500 <= status && status <= 599)
}

/// The number of attempts a transcription request gets.
pub const MAX_ATTEMPTS: u32 = 3;

/// How one attempt of a request ended.
#[derive(Debug, Clone, Copy, PartialEq, Eq, Structural)]
pub enum AttemptOutcome {
    /// The server answered with a success status.
    Success,
    /// The server answered with another status.
    Status(u16),
    /// The request did not reach an answer.
    TransportError,
}

/// What to do after an attempt.
#[derive(Debug, Clone, Copy, PartialEq, Eq, Structural)]
pub enum RetryStep {
    /// Read the successful answer.
    Accept,
    /// Give up and report the server's status and body.
    FailWithStatus,
    /// Give up and report the transport error.
    FailTransport,
    /// Wait this many milliseconds and try again.
    RetryAfterMs(u64),
}

/// The step after attempt number `attempt` (counted from 0) ended with
/// `outcome`: success is accepted; a status that is not retryable, or any
/// failure of the last attempt, is reported; otherwise the request is tried
/// again after 100, 200, 400, ... milliseconds.
pub open spec fn retry_step_spec(attempt: u32, outcome: AttemptOutcome) -> RetryStep {
    match outcome {
        AttemptOutcome::Success => RetryStep::Accept,
        AttemptOutcome::Status(s) => if !is_retryable_spec(s) || attempt + 1 >= MAX_ATTEMPTS {
            RetryStep::FailWithStatus
        } else {
            RetryStep::RetryAfterMs((100 * vstd::arithmetic::power2::pow2(attempt as nat)) as u64)
        },
        AttemptOutcome::TransportError => if attempt + 1 >= MAX_ATTEMPTS {
            RetryStep::FailTransport
        } else {
            RetryStep::RetryAfterMs((100 * vstd::arithmetic::power2::pow2(attempt as nat)) as u64)
        },
    }
}

/// Decides what follows an attempt of a transcription request.
pub fn retry_step(attempt: u32, outcome: AttemptOutcome) -> (step: RetryStep)
    requires
        attempt < MAX_ATTEMPTS,
    ensures
        step == retry_step_spec(attempt, outcome),
{
    let backoff: u64 = if attempt == 0 {
        100
    } else if attempt == 1 {
        200
    } else {
        400
    };
    proof {
        vstd::arithmetic::power2::lemma2_to64();
    }
    match outcome {
        AttemptOutcome::Success => RetryStep::Accept,
        AttemptOutcome::Status(s) => {
            if !is_retryable_status(s) || attempt + 1 >= MAX_ATTEMPTS {
                RetryStep::FailWithStatus
            } else {
                RetryStep::RetryAfterMs(backoff)
            }
        },
        AttemptOutcome::TransportError => {
            if attempt + 1 >= MAX_ATTEMPTS {
                RetryStep::FailTransport
            } else {
                RetryStep::RetryAfterMs(backoff)
            }
        },
    }
}

/// No request is tried more than three times: the third attempt always ends
/// the request.
pub proof fn lemma_last_attempt_never_retries(outcome: AttemptOutcome)
    ensures
        !(retry_step_spec((MAX_ATTEMPTS - 1) as u32, outcome) is RetryAfterMs),
{
}

} // verus!

//! Synthesised speech audio and its WAV (RIFF, 16-bit PCM) form.
use vstd::prelude::*;
use crate::json::{decimal, push_decimal};
use crate::text::push_str;

verus! {

/// Audio returned by every speech provider: 16-bit PCM samples and their format.
#[derive(Debug, Clone)]
pub struct AudioOutput {
    pub pcm_i16: Vec<i16>,
    pub sample_rate: u32,
    pub channels: u16,
    pub bits_per_sample: u16,
}

/// Little-endian bytes of a 16-bit value.
pub open spec fn le16(x: int) -> Seq<u8> {
    seq![(x % 256) as u8, (x / 256) as u8]
}

/// Little-endian bytes of a 32-bit value.
pub open spec fn le32(x: int) -> Seq<u8> {
    seq![
        (x % 256) as u8,
        ((x / 256) % 256) as u8,
        ((x / 65536) % 256) as u8,
        (x / 16777216) as u8,
    ]
}

/// The unsigned 16-bit pattern of a sample (two's complement).
pub open spec fn sample_bits(s: i16) -> int {
    if s < 0 {
        s + 65536
    } else {
        s as int
    }
}

/// Little-endian bytes of every sample, in order.
pub open spec fn samples_le(s: Seq<i16>) -> Seq<u8>
    decreases s.len(),
{
    if s.len() == 0 {
        Seq::empty()
    } else {
        samples_le(s.drop_last()) + le16(sample_bits(s.last()))
    }
}

/// The ASCII bytes of a four-character chunk tag.
pub open spec fn tag(a: char, b: char, c: char, d: char) -> Seq<u8> {
    seq![a as u8, b as u8, c as u8, d as u8]
}

/// `channels.max(1)`, as `to_wav` writes it.
pub open spec fn wav_channels(a: AudioOutput) -> int {
    if a.channels == 0 {
        1
    } else {
        a.channels as int
    }
}

/// `bits_per_sample.max(8)`, as `to_wav` writes it.
pub open spec fn wav_bits(a: AudioOutput) -> int {
    if a.bits_per_sample < 8 {
        8
    } else {
        a.bits_per_sample as int
    }
}

/// Size in bytes that the header announces for the sample data.
pub open spec fn wav_data_size(a: AudioOutput) -> int {
    a.pcm_i16@.len() * (wav_bits(a) / 8)
}

/// The fields of `to_wav` fit their widths (otherwise the arithmetic overflows).
pub open spec fn wav_fits(a: AudioOutput) -> bool {
    &&& 36 + wav_data_size(a) <= u32::MAX
    &&& a.sample_rate * wav_channels(a) * (wav_bits(a) / 8) <= u32::MAX
    &&& wav_channels(a) * (wav_bits(a) / 8) <= u16::MAX
}

/// The bytes of the WAV file that `to_wav` writes.
pub open spec fn spec_wav(a: AudioOutput) -> Seq<u8> {
    let ch = wav_channels(a);
    let bits = wav_bits(a);
    let ds = wav_data_size(a);
    tag('R', 'I', 'F', 'F') + le32(36 + ds) + tag('W', 'A', 'V', 'E') + tag('f', 'm', 't', ' ')
        + le32(16) + le16(1) + le16(ch) + le32(a.sample_rate as int) + le32(
        a.sample_rate * ch * (bits / 8),
    ) + le16(ch * (bits / 8)) + le16(bits) + tag('d', 'a', 't', 'a') + le32(ds) + samples_le(
        a.pcm_i16@,
    )
}

/// Little-endian 16-bit value at `i`.
pub open spec fn read16(b: Seq<u8>, i: int) -> int {
    b[i] + 256 * b[i + 1]
}

/// Little-endian 32-bit value at `i`.
pub open spec fn read32(b: Seq<u8>, i: int) -> int {
    b[i] + 256 * b[i + 1] + 65536 * b[i + 2] + 16777216 * b[i + 3]
}

/// The sample whose bits are `u` (two's complement).
pub open spec fn sample_of(u: int) -> i16 {
    if u >= 32768 {
        (u - 65536) as i16
    } else {
        u as i16
    }
}

/// The samples of a data chunk: consecutive little-endian pairs, a last odd byte dropped.
pub open spec fn decode_samples(d: Seq<u8>) -> Seq<i16> {
    Seq::new(d.len() / 2, |i: int| sample_of(read16(d, 2 * i)))
}

/// What the chunk scan has found so far.
pub struct WavScan {
    pub sample_rate: u32,
    pub channels: u16,
    pub bits: u16,
    pub data_start: int,
    pub data_end: int,
}

/// The chunk scan of `parse_wav`, from position `pos` on.
pub open spec fn scan(b: Seq<u8>, pos: int, st: WavScan) -> WavScan
    decreases b.len() - pos,
{
    if 0 <= pos && pos + 8 <= b.len() {
        let size = read32(b, pos + 4);
        let body = pos + 8;
        let id = b.subrange(pos, pos + 4);
        let next = if id == tag('f', 'm', 't', ' ') && body + 16 <= b.len() {
            WavScan {
                sample_rate: read32(b, body + 4) as u32,
                channels: read16(b, body + 2) as u16,
                bits: read16(b, body + 14) as u16,
                ..st
            }
        } else if id == tag('d', 'a', 't', 'a') {
            WavScan {
                data_start: body,
                data_end: if body + size <= b.len() {
                    body + size
                } else {
                    b.len() as int
                },
                ..st
            }
        } else {
            st
        };
        let next_pos = body + size + size % 2;
        if next_pos <= b.len() {
            scan(b, next_pos, next)
        } else {
            next
        }
    } else {
        st
    }
}

/// The scan state before the first chunk.
pub open spec fn scan_start() -> WavScan {
    WavScan { sample_rate: 16000, channels: 1, bits: 16, data_start: 0, data_end: 0 }
}

/// The file starts with a RIFF/WAVE header.
pub open spec fn is_wav(b: Seq<u8>) -> bool {
    b.len() >= 44 && b.subrange(0, 4) == tag('R', 'I', 'F', 'F') && b.subrange(8, 12) == tag(
        'W',
        'A',
        'V',
        'E',
    )
}

/// The result of scanning a WAV file's chunks.
pub open spec fn wav_scan(b: Seq<u8>) -> WavScan {
    scan(b, 12, scan_start())
}

impl AudioOutput {
    /// No audio: no samples, 16 kHz mono 16-bit.
    pub fn empty() -> (r: AudioOutput)
        ensures
            r.pcm_i16@.len() == 0,
            r.sample_rate == 16000,
            r.channels == 1,
            r.bits_per_sample == 16,
    {
        AudioOutput { pcm_i16: Vec::new(), sample_rate: 16000, channels: 1, bits_per_sample: 16 }
    }

    /// No samples.
    pub fn is_empty(&self) -> (r: bool)
        ensures
            r == (self.pcm_i16@.len() == 0),
    {
        self.pcm_i16.len() == 0
    }

    /// Whether the WAV header's fields can hold this audio's sizes (the
    /// condition under which `to_wav` can be called).
    pub fn fits_wav(&self) -> (r: bool)
        ensures
            r == wav_fits(*self),
    {
        let ch: u128 = if self.channels == 0 {
            1
        } else {
            self.channels as u128
        };
        let bits: u128 = if self.bits_per_sample < 8 {
            8
        } else {
            self.bits_per_sample as u128
        };
        let bytes: u128 = bits / 8;
        let n: u128 = self.pcm_i16.len() as u128;
        let rate: u128 = self.sample_rate as u128;
        assert(n * bytes <= 0xffff_ffff_ffff_ffffu128 * 8191) by (nonlinear_arith)
            requires
                n <= 0xffff_ffff_ffff_ffffu128,
                bytes <= 8191,
        ;
        assert(rate * ch <= 0xffff_ffffu128 * 0xffff) by (nonlinear_arith)
            requires
                rate <= 0xffff_ffffu128,
                ch <= 0xffff,
        ;
        assert(rate * ch * bytes <= 0xffff_ffffu128 * 0xffff * 8191) by (nonlinear_arith)
            requires
                rate * ch <= 0xffff_ffffu128 * 0xffff,
                bytes <= 8191,
        ;
        assert(ch * bytes <= 0xffff * 8191) by (nonlinear_arith)
            requires
                ch <= 0xffff,
                bytes <= 8191,
        ;
        n * bytes + 36 <= 0xffff_ffff && rate * ch * bytes <= 0xffff_ffff && ch * bytes <= 0xffff
    }

    /// The audio as a 16-bit PCM WAV file.
    pub fn to_wav(&self) -> (r: Vec<u8>)
        requires
            wav_fits(*self),
        ensures
            r@ == spec_wav(*self),
    {
        let channels: u16 = if self.channels == 0 {
            1
        } else {
            self.channels
        };
        let bits: u16 = if self.bits_per_sample < 8 {
            8
        } else {
            self.bits_per_sample
        };
        let bytes_per_sample: u32 = (bits / 8) as u32;
        proof {
            assert(self.pcm_i16@.len() * bytes_per_sample <= u32::MAX) by (nonlinear_arith)
                requires
                    36 + self.pcm_i16@.len() * bytes_per_sample <= u32::MAX,
            ;
            assert(self.pcm_i16@.len() <= u32::MAX) by (nonlinear_arith)
                requires
                    self.pcm_i16@.len() * bytes_per_sample <= u32::MAX,
                    bytes_per_sample >= 1,
            ;
            assert(self.sample_rate * channels <= u32::MAX) by (nonlinear_arith)
                requires
                    self.sample_rate * channels * bytes_per_sample <= u32::MAX,
                    bytes_per_sample >= 1,
            ;
        }
        let data_size: u32 = self.pcm_i16.len() as u32 * bytes_per_sample;
        let byte_rate: u32 = self.sample_rate * channels as u32 * bytes_per_sample;
        let block_align: u16 = channels * (bits / 8);
        let mut out: Vec<u8> = Vec::new();
        push_tag(&mut out, 'R', 'I', 'F', 'F');
        push_le32(&mut out, 36 + data_size);
        push_tag(&mut out, 'W', 'A', 'V', 'E');
        push_tag(&mut out, 'f', 'm', 't', ' ');
        push_le32(&mut out, 16);
        push_le16(&mut out, 1);
        push_le16(&mut out, channels);
        push_le32(&mut out, self.sample_rate);
        push_le32(&mut out, byte_rate);
        push_le16(&mut out, block_align);
        push_le16(&mut out, bits);
        push_tag(&mut out, 'd', 'a', 't', 'a');
        push_le32(&mut out, data_size);
        let ghost head = out@;
        let mut i: usize = 0;
        while i < self.pcm_i16.len()
            invariant
                i <= self.pcm_i16@.len(),
                out@ == head + samples_le(self.pcm_i16@.take(i as int)),
            decreases self.pcm_i16@.len() - i,
        {
            let s = self.pcm_i16[i];
            let u: u16 = if s < 0 {
                ((s as i32) + 65536) as u16
            } else {
                s as u16
            };
            push_le16(&mut out, u);
            proof {
                let t = self.pcm_i16@.take(i + 1);
                assert(t.drop_last() == self.pcm_i16@.take(i as int));
                assert(t.last() == s);
            }
            i = i + 1;
        }
        assert(self.pcm_i16@.take(self.pcm_i16@.len() as int) == self.pcm_i16@);
        out
    }
}


/// What `parse_wav` returns: an error message, or the decoded audio.
pub open spec fn spec_parse_wav(b: Seq<u8>) -> Result<(Seq<i16>, u32, u16, u16), Seq<char>> {
    if !is_wav(b) {
        Err("not a wav"@)
    } else {
        let st = wav_scan(b);
        if st.bits != 16 {
            Err("unsupported bits: "@ + decimal(st.bits as nat))
        } else {
            Ok((decode_samples(b.subrange(st.data_start, st.data_end)), st.sample_rate, st.channels, st.bits))
        }
    }
}

/// The view of a parse outcome: samples and format, or the error message.
pub open spec fn parse_outcome(r: Result<AudioOutput, String>) -> Result<(Seq<i16>, u32, u16, u16), Seq<char>> {
    match r {
        Ok(a) => Ok((a.pcm_i16@, a.sample_rate, a.channels, a.bits_per_sample)),
        Err(e) => Err(e@),
    }
}

fn tag_at(b: &[u8], p: usize, t0: char, t1: char, t2: char, t3: char) -> (r: bool)
    requires
        p + 4 <= b@.len(),
        (t0 as u32) < 128,
        (t1 as u32) < 128,
        (t2 as u32) < 128,
        (t3 as u32) < 128,
    ensures
        r == (b@.subrange(p as int, p + 4) == tag(t0, t1, t2, t3)),
{
    let r = b[p] == t0 as u8 && b[p + 1] == t1 as u8 && b[p + 2] == t2 as u8 && b[p + 3] == t3 as u8;
    proof {
        if r {
            assert(b@.subrange(p as int, p + 4) =~= tag(t0, t1, t2, t3));
        } else {
            if b@.subrange(p as int, p + 4) == tag(t0, t1, t2, t3) {
                assert(b@.subrange(p as int, p + 4)[0] == b@[p as int]);
                assert(b@.subrange(p as int, p + 4)[1] == b@[p + 1]);
                assert(b@.subrange(p as int, p + 4)[2] == b@[p + 2]);
                assert(b@.subrange(p as int, p + 4)[3] == b@[p + 3]);
            }
        }
    }
    r
}

fn get16(b: &[u8], i: usize) -> (r: u16)
    requires
        i + 2 <= b@.len(),
    ensures
        r == read16(b@, i as int),
{
    b[i] as u16 + 256 * (b[i + 1] as u16)
}

fn get32(b: &[u8], i: usize) -> (r: u32)
    requires
        i + 4 <= b@.len(),
    ensures
        r == read32(b@, i as int),
{
    b[i] as u32 + 256 * (b[i + 1] as u32) + 65536 * (b[i + 2] as u32) + 16777216 * (b[i + 3] as u32)
}

/// Parses a 16-bit PCM WAV file.
pub fn parse_wav(bytes: &[u8]) -> (r: Result<AudioOutput, String>)
    requires
        bytes@.len() <= isize::MAX,
    ensures
        parse_outcome(r) == spec_parse_wav(bytes@),
{
    let b = bytes;
    let len = b.len();
    if len < 44 || !tag_at(b, 0, 'R', 'I', 'F', 'F') || !tag_at(b, 8, 'W', 'A', 'V', 'E') {
        return Err(String::from_str("not a wav"));
    }
    let ghost target = wav_scan(b@);
    let mut pos: u64 = 12;
    let mut sample_rate: u32 = 16000;
    let mut channels: u16 = 1;
    let mut bits: u16 = 16;
    let mut data_start: usize = 0;
    let mut data_end: usize = 0;
    while pos + 8 <= len as u64
        invariant
            len == b@.len(),
            len <= isize::MAX,
            12 <= pos,
            pos <= len + 0x1_0000_0008,
            data_start <= data_end <= len,
            ({
                let cur = WavScan { sample_rate, channels, bits, data_start: data_start as int, data_end: data_end as int };
                &&& pos <= len ==> scan(b@, pos as int, cur) == target
                &&& pos > len ==> cur == target
            }),
        decreases len + 0x1_0000_0008 - pos,
    {
        let p = pos as usize;
        let size = get32(b, p + 4);
        let body: usize = p + 8;
        let ghost cur = WavScan { sample_rate, channels, bits, data_start: data_start as int, data_end: data_end as int };
        if tag_at(b, p, 'f', 'm', 't', ' ') && body + 16 <= len {
            channels = get16(b, body + 2);
            sample_rate = get32(b, body + 4);
            bits = get16(b, body + 14);
        } else if tag_at(b, p, 'd', 'a', 't', 'a') {
            let end: u64 = if (body as u64) + (size as u64) <= len as u64 {
                (body as u64) + (size as u64)
            } else {
                len as u64
            };
            data_start = body;
            data_end = end as usize;
        }
        let odd: u64 = (size % 2) as u64;
        pos = (body as u64) + (size as u64) + odd;
        proof {
            let next = WavScan { sample_rate, channels, bits, data_start: data_start as int, data_end: data_end as int };
            assert(scan(b@, p as int, cur) == (if pos <= len { scan(b@, pos as int, next) } else { next }));
        }
    }
    if bits != 16 {
        let mut msg = String::from_str("unsupported bits: ");
        push_decimal(&mut msg, bits as u64);
        return Err(msg);
    }
    let ghost data = b@.subrange(data_start as int, data_end as int);
    let n: usize = (data_end - data_start) / 2;
    let mut pcm: Vec<i16> = Vec::new();
    let mut k: usize = 0;
    while k < n
        invariant
            n == data.len() / 2,
            data == b@.subrange(data_start as int, data_end as int),
            data_start <= data_end <= b@.len(),
            k <= n,
            pcm@ == decode_samples(data).take(k as int),
        decreases n - k,
    {
        let i = data_start + 2 * k;
        let u: u16 = get16(b, i);
        assert(read16(b@, i as int) == read16(data, 2 * k));
        let v: i16 = if u >= 32768 {
            ((u - 32768) as i16) - 32767 - 1
        } else {
            u as i16
        };
        pcm.push(v);
        proof {
            assert(decode_samples(data).take(k + 1) =~= decode_samples(data).take(k as int).push(v));
        }
        k = k + 1;
    }
    assert(decode_samples(data).take(n as int) =~= decode_samples(data));
    Ok(AudioOutput { pcm_i16: pcm, sample_rate, channels, bits_per_sample: bits })
}


proof fn lemma_read_le16(x: int)
    requires
        0 <= x < 65536,
    ensures
        read16(le16(x), 0) == x,
{
}

proof fn lemma_read_le32(x: int)
    requires
        0 <= x <= u32::MAX,
    ensures
        read32(le32(x), 0) == x,
{
}

proof fn lemma_samples_le_shape(s: Seq<i16>)
    ensures
        samples_le(s).len() == 2 * s.len(),
        forall|i: int|
            0 <= i < s.len() ==> #[trigger] read16(samples_le(s), 2 * i) == sample_bits(s[i]),
    decreases s.len(),
{
    if s.len() > 0 {
        let t = s.drop_last();
        lemma_samples_le_shape(t);
        let last = le16(sample_bits(s.last()));
        lemma_read_le16(sample_bits(s.last()));
        assert forall|i: int| 0 <= i < s.len() implies #[trigger] read16(samples_le(s), 2 * i)
            == sample_bits(s[i]) by {
            if i < s.len() - 1 {
                assert(read16(samples_le(t), 2 * i) == sample_bits(t[i]));
            }
        }
    }
}

proof fn lemma_decode_samples_le(s: Seq<i16>)
    ensures
        decode_samples(samples_le(s)) == s,
{
    lemma_samples_le_shape(s);
    let d = decode_samples(samples_le(s));
    assert forall|i: int| 0 <= i < s.len() implies d[i] == s[i] by {
        assert(read16(samples_le(s), 2 * i) == sample_bits(s[i]));
    }
    assert(d =~= s);
}

/// The header of a WAV file, written out byte by byte.
spec fn flat_header(ds: int, ch: int, sr: int, br: int, ba: int, bits: int) -> Seq<u8> {
    let a = le32(36 + ds);
    let c = le16(ch);
    let d = le32(sr);
    let e = le32(br);
    let f = le16(ba);
    let g = le16(bits);
    let h = le32(ds);
    seq![
        'R' as u8, 'I' as u8, 'F' as u8, 'F' as u8, a[0], a[1], a[2], a[3],
        'W' as u8, 'A' as u8, 'V' as u8, 'E' as u8, 'f' as u8, 'm' as u8, 't' as u8, ' ' as u8,
        16u8, 0u8, 0u8, 0u8, 1u8, 0u8, c[0], c[1],
        d[0], d[1], d[2], d[3], e[0], e[1], e[2], e[3],
        f[0], f[1], g[0], g[1], 'd' as u8, 'a' as u8, 't' as u8, 'a' as u8,
        h[0], h[1], h[2], h[3],
    ]
}

#[verifier::rlimit(100)]
proof fn lemma_header_flat(a: AudioOutput)
    ensures
        ({
            let ch = wav_channels(a);
            let bits = wav_bits(a);
            let ds = wav_data_size(a);
            spec_wav(a) == flat_header(
                ds,
                ch,
                a.sample_rate as int,
                a.sample_rate * ch * (bits / 8),
                ch * (bits / 8),
                bits,
            ) + samples_le(a.pcm_i16@)
        }),
{
    let ch = wav_channels(a);
    let bits = wav_bits(a);
    let ds = wav_data_size(a);
    let h = tag('R', 'I', 'F', 'F') + le32(36 + ds) + tag('W', 'A', 'V', 'E') + tag(
        'f',
        'm',
        't',
        ' ',
    ) + le32(16) + le16(1) + le16(ch) + le32(a.sample_rate as int) + le32(
        a.sample_rate * ch * (bits / 8),
    ) + le16(ch * (bits / 8)) + le16(bits) + tag('d', 'a', 't', 'a') + le32(ds);
    let fh = flat_header(
        ds,
        ch,
        a.sample_rate as int,
        a.sample_rate * ch * (bits / 8),
        ch * (bits / 8),
        bits,
    );
    assert(le32(16) =~= seq![16u8, 0u8, 0u8, 0u8]);
    assert(le16(1) =~= seq![1u8, 0u8]);
    assert(h =~= fh);
}

proof fn lemma_scan_fmt(w: Seq<u8>, sr: u32, ch: u16, bits: u16)
    requires
        w.len() >= 44,
        w.subrange(12, 16) == tag('f', 'm', 't', ' '),
        read32(w, 16) == 16,
        read32(w, 24) == sr,
        read16(w, 22) == ch,
        read16(w, 34) == bits,
    ensures
        scan(w, 12, scan_start()) == scan(
            w,
            36,
            (WavScan { sample_rate: sr, channels: ch, bits, ..scan_start() }),
        ),
{
}

proof fn lemma_scan_data(w: Seq<u8>, st: WavScan, ds: int)
    requires
        ds >= 0,
        ds % 2 == 0,
        w.len() == 44 + ds,
        w.subrange(36, 40) == tag('d', 'a', 't', 'a'),
        read32(w, 40) == ds,
    ensures
        scan(w, 36, st) == (WavScan { data_start: 44, data_end: 44 + ds, ..st }),
{
    let st2 = WavScan { data_start: 44, data_end: 44 + ds, ..st };
    assert(scan(w, 44 + ds, st2) == st2);
}

proof fn lemma_header_fields(fh: Seq<u8>, samples: Seq<u8>, ds: int, ch: int, sr: int, br: int, ba: int)
    requires
        fh == flat_header(ds, ch, sr, br, ba, 16),
        0 <= ch < 65536,
        0 <= sr <= u32::MAX,
        0 <= ds <= u32::MAX,
        samples.len() == ds,
    ensures
        ({
            let w = fh + samples;
            &&& w.len() == 44 + ds
            &&& w.subrange(0, 4) == tag('R', 'I', 'F', 'F')
            &&& w.subrange(8, 12) == tag('W', 'A', 'V', 'E')
            &&& w.subrange(12, 16) == tag('f', 'm', 't', ' ')
            &&& read32(w, 16) == 16
            &&& read32(w, 24) == sr
            &&& read16(w, 22) == ch
            &&& read16(w, 34) == 16
            &&& w.subrange(36, 40) == tag('d', 'a', 't', 'a')
            &&& read32(w, 40) == ds
            &&& w.subrange(44, 44 + ds) == samples
        }),
{
    let w = fh + samples;
    assert(fh.len() == 44);
    assert(w.subrange(0, 4) =~= tag('R', 'I', 'F', 'F'));
    assert(w.subrange(8, 12) =~= tag('W', 'A', 'V', 'E'));
    assert(w.subrange(12, 16) =~= tag('f', 'm', 't', ' '));
    assert(w.subrange(36, 40) =~= tag('d', 'a', 't', 'a'));
    assert(w.subrange(44, 44 + ds) =~= samples);
    lemma_read_le32(sr);
    lemma_read_le32(ds);
    lemma_read_le16(ch);
    assert(read32(w, 24) == read32(le32(sr), 0));
    assert(read32(w, 40) == read32(le32(ds), 0));
    assert(read16(w, 22) == read16(le16(ch), 0));
}

proof fn lemma_parse_flat(pcm: Seq<i16>, sr: u32, ch: u16, ds: int, br: int, ba: int)
    requires
        ch >= 1,
        ds == 2 * pcm.len(),
        ds <= u32::MAX,
    ensures
        spec_parse_wav(flat_header(ds, ch as int, sr as int, br, ba, 16) + samples_le(pcm))
            == Ok::<(Seq<i16>, u32, u16, u16), Seq<char>>((pcm, sr, ch, 16u16)),
{
    let samples = samples_le(pcm);
    lemma_samples_le_shape(pcm);
    let fh = flat_header(ds, ch as int, sr as int, br, ba, 16);
    lemma_header_fields(fh, samples, ds, ch as int, sr as int, br, ba);
    let w = fh + samples;
    assert(is_wav(w));
    lemma_scan_fmt(w, sr, ch, 16);
    let st1 = WavScan { sample_rate: sr, channels: ch, bits: 16, ..scan_start() };
    lemma_scan_data(w, st1, ds);
    lemma_decode_samples_le(pcm);
}

/// Reading back a written WAV file gives the audio that was written, for
/// 16-bit audio with at least one channel whose header fields fit their widths.
pub proof fn lemma_wav_roundtrip(a: AudioOutput)
    requires
        a.bits_per_sample == 16,
        a.channels >= 1,
        wav_fits(a),
    ensures
        spec_parse_wav(spec_wav(a)) == Ok::<(Seq<i16>, u32, u16, u16), Seq<char>>(
            (a.pcm_i16@, a.sample_rate, a.channels, 16u16),
        ),
{
    lemma_header_flat(a);
    let ch = wav_channels(a);
    let bits = wav_bits(a);
    assert(ch == a.channels);
    assert(bits == 16);
    assert(bits / 8 == 2);
    assert(wav_data_size(a) == 2 * a.pcm_i16@.len());
    lemma_parse_flat(
        a.pcm_i16@,
        a.sample_rate,
        a.channels,
        wav_data_size(a),
        a.sample_rate * ch * (bits / 8),
        ch * (bits / 8),
    );
}

fn push_tag(out: &mut Vec<u8>, a: char, b: char, c: char, d: char)
    requires
        (a as u32) < 128,
        (b as u32) < 128,
        (c as u32) < 128,
        (d as u32) < 128,
    ensures
        final(out)@ == old(out)@ + tag(a, b, c, d),
{
    out.push(a as u8);
    out.push(b as u8);
    out.push(c as u8);
    out.push(d as u8);
    assert(final(out)@ =~= old(out)@ + tag(a, b, c, d));
}

fn push_le16(out: &mut Vec<u8>, x: u16)
    ensures
        final(out)@ == old(out)@ + le16(x as int),
{
    out.push((x % 256) as u8);
    out.push((x / 256) as u8);
    assert(final(out)@ =~= old(out)@ + le16(x as int));
}

fn push_le32(out: &mut Vec<u8>, x: u32)
    ensures
        final(out)@ == old(out)@ + le32(x as int),
{
    out.push((x % 256) as u8);
    out.push(((x / 256) % 256) as u8);
    out.push(((x / 65536) % 256) as u8);
    out.push((x / 16777216) as u8);
    assert(final(out)@ =~= old(out)@ + le32(x as int));
}

} // verus!

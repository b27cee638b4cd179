//! Writing raw ADPCM data to a RIFF WAVE file.

use byteorder::{LittleEndian, WriteBytesExt};
use vstd::prelude::*;

verus! {

/// Why no wave file can be built.
#[derive(Clone, Copy, Debug, PartialEq, Eq, Structural)]
pub enum Error {
    /// A wave file holds less than 2^32 bytes, of which 82 are not sound
    /// data, and counts its samples in 32 bits.
    TooLargeError(usize),
}

/// The two bytes of `value`, least significant byte first.
pub open spec fn le_bytes_u16(value: u16) -> Seq<u8> {
    seq![(value % 0x100) as u8, (value / 0x100) as u8]
}

/// The four bytes of `value`, least significant byte first.
pub open spec fn le_bytes_u32(value: u32) -> Seq<u8> {
    seq![
        (value % 0x100) as u8,
        (value / 0x100 % 0x100) as u8,
        (value / 0x1_0000 % 0x100) as u8,
        (value / 0x100_0000) as u8,
    ]
}

/// The two bytes of `value` in two's complement, least significant byte
/// first.
pub open spec fn le_bytes_i16(value: i16) -> Seq<u8> {
    le_bytes_u16(
        (if value < 0 {
            value + 0x1_0000
        } else {
            value as int
        }) as u16,
    )
}

/// The standard ADPCM coefficients.
pub open spec fn coefficients() -> Seq<(i16, i16)> {
    seq![(256i16, 0i16), (512, (-256) as i16), (0, 0), (192, 64), (240, 0), (460, (-208) as i16), (392, (-232) as i16)]
}

/// The bytes of the first `n` pairs of `pairs`.
pub open spec fn pair_bytes(pairs: Seq<(i16, i16)>, n: int) -> Seq<u8>
    recommends
        n <= pairs.len(),
    decreases n,
{
    if n <= 0 {
        Seq::empty()
    } else {
        pair_bytes(pairs, n - 1) + le_bytes_i16(pairs[n - 1].0) + le_bytes_i16(pairs[n - 1].1)
    }
}

/// `byteorder::WriteBytesExt::write_u16` in little-endian order on a vector:
/// appends the two bytes of `value`. A vector takes every write.
#[verifier::external_body]
fn write_u16_le(buf: &mut Vec<u8>, value: u16)
    ensures
        final(buf)@ == old(buf)@ + le_bytes_u16(value),
{
    buf.write_u16::<LittleEndian>(value).unwrap()
}

/// `byteorder::WriteBytesExt::write_u32` in little-endian order on a vector:
/// appends the four bytes of `value`. A vector takes every write.
#[verifier::external_body]
fn write_u32_le(buf: &mut Vec<u8>, value: u32)
    ensures
        final(buf)@ == old(buf)@ + le_bytes_u32(value),
{
    buf.write_u32::<LittleEndian>(value).unwrap()
}

/// `byteorder::WriteBytesExt::write_i16` in little-endian order on a vector:
/// appends the two bytes of `value` in two's complement. A vector takes every
/// write.
#[verifier::external_body]
fn write_i16_le(buf: &mut Vec<u8>, value: i16)
    ensures
        final(buf)@ == old(buf)@ + le_bytes_i16(value),
{
    buf.write_i16::<LittleEndian>(value).unwrap()
}

/// All wave chunks implement this trait.
pub trait WaveChunk {
    /// Whether the chunk has values that a wave file can hold.
    spec fn writable(&self) -> bool;

    /// The bytes of the chunk.
    spec fn chunk(&self) -> Seq<u8>;

    /// Serializes the chunk to the bytes that are its part of a wave file.
    fn to_chunk(&self) -> (bytes: Vec<u8>)
        requires
            self.writable(),
        ensures
            bytes@ == self.chunk(),
    ;
}

/// The header of the format `WAVE_FORMAT_ADPCM`, as far as it is not the same
/// for all sounds of a wave bank.
#[derive(Clone, Copy, Debug, PartialEq, Eq, Structural)]
pub struct WaveFormat {
    /// `nChannels`: number of channels
    pub channels: u16,
    /// `nSamplesPerSec`: sample rate
    pub sample_rate: u32,
    /// `nBlockAlign`: block alignment in bytes
    pub block_align: u16,
}

impl WaveFormat {
    /// The bytes of a block that hold samples: seven bytes for each channel
    /// do not.
    pub open spec fn sample_bytes(self) -> int {
        self.block_align - 7 * self.channels
    }

    /// `nSamplesPerBlock`: a sample takes four bits, and the header of a
    /// block holds two more samples.
    pub open spec fn block_samples(self) -> int {
        self.sample_bytes() * 8 / (4 * self.channels) + 2
    }

    /// `nAvgBytesPerSec`
    pub open spec fn bytes_per_sec(self) -> int {
        (self.sample_rate as int / self.block_samples()) * self.block_align
    }

    /// Whether there is a channel, a block has room for its header, and the
    /// two computed fields fit the header of the format.
    pub open spec fn valid(self) -> bool {
        &&& self.channels > 0
        &&& self.sample_bytes() >= 0
        &&& self.block_samples() <= u16::MAX
        &&& self.bytes_per_sec() <= u32::MAX
    }

    /// The number of samples in `length` bytes of sound data.
    pub open spec fn length_samples(self, length: int) -> int {
        (length / (self.block_align as int)) * (self.sample_bytes() * 8) / 4 / (self.channels as int)
    }

    /// Whether the header of the format can hold the fields that are
    /// computed from these.
    pub fn is_valid(&self) -> (valid: bool)
        ensures
            valid == self.valid(),
    {
        if self.channels == 0 || 7 * (self.channels as u32) > self.block_align as u32 {
            return false;
        }
        let sample_bytes: u32 = self.block_align as u32 - 7 * (self.channels as u32);
        let block_samples: u32 = sample_bytes * 8 / (4 * (self.channels as u32)) + 2;
        if block_samples > u16::MAX as u32 {
            return false;
        }
        let blocks = (self.sample_rate / block_samples) as u64;
        let block_align = self.block_align as u64;
        assert(blocks * block_align <= 0xffff_ffff * 0xffff) by (nonlinear_arith)
            requires
                0 <= blocks <= 0xffff_ffff,
                0 <= block_align <= 0xffff,
        ;
        blocks * block_align <= u32::MAX as u64
    }

    /// Calculates `nSamplesPerBlock`.
    pub fn samples_per_block(&self) -> (samples: u16)
        requires
            self.valid(),
        ensures
            samples == self.block_samples(),
            samples >= 2,
    {
        let sample_bytes: u32 = self.block_align as u32 - 7 * (self.channels as u32);
        (sample_bytes * 8 / (4 * (self.channels as u32)) + 2) as u16
    }

    /// Calculates `nAvgBytesPerSec`.
    pub fn avg_bytes_per_sec(&self) -> (bytes: u32)
        requires
            self.valid(),
        ensures
            bytes == self.bytes_per_sec(),
    {
        ((self.sample_rate / (self.samples_per_block() as u32)) as u64 * (self.block_align as u64)) as u32
    }
}

impl WaveChunk for WaveFormat {
    open spec fn writable(&self) -> bool {
        self.valid()
    }

    open spec fn chunk(&self) -> Seq<u8> {
        seq![0x66u8, 0x6d, 0x74, 0x20] + le_bytes_u32(50) + le_bytes_u16(2) + le_bytes_u16(self.channels)
            + le_bytes_u32(self.sample_rate) + le_bytes_u32(self.bytes_per_sec() as u32)
            + le_bytes_u16(self.block_align) + le_bytes_u16(4) + le_bytes_u16(32)
            + le_bytes_u16(self.block_samples() as u16) + le_bytes_u16(7) + pair_bytes(coefficients(), 7)
    }

    fn to_chunk(&self) -> (bytes: Vec<u8>) {
        let coeffs: [(i16, i16); 7] = [(256, 0), (512, -256), (0, 0), (192, 64), (240, 0), (460, -208), (392, -232)];
        assert(coeffs@ =~= coefficients());
        let mut buf: Vec<u8> = vec![0x66u8, 0x6d, 0x74, 0x20];
        write_u32_le(&mut buf, 2 + 2 + 4 + 4 + 2 + 2 + 2 + 2 + 2 + 4 * 7);
        write_u16_le(&mut buf, 2);
        write_u16_le(&mut buf, self.channels);
        write_u32_le(&mut buf, self.sample_rate);
        write_u32_le(&mut buf, self.avg_bytes_per_sec());
        write_u16_le(&mut buf, self.block_align);
        write_u16_le(&mut buf, 4);
        write_u16_le(&mut buf, 32);
        write_u16_le(&mut buf, self.samples_per_block());
        write_u16_le(&mut buf, 7);
        let ghost head = buf@;
        let mut i: usize = 0;
        while i < 7
            invariant
                i <= 7,
                coeffs@ == coefficients(),
                buf@ == head + pair_bytes(coefficients(), i as int),
            decreases 7 - i,
        {
            write_i16_le(&mut buf, coeffs[i].0);
            write_i16_le(&mut buf, coeffs[i].1);
            i = i + 1;
            assert(buf@ =~= head + pair_bytes(coefficients(), i as int));
        }
        assert(buf@ =~= self.chunk());
        buf
    }
}

/// The fact chunk of a wave file.
pub struct WaveFact {
    /// The length of the sound data in samples.
    pub length_samples: u32,
}

impl WaveChunk for WaveFact {
    open spec fn writable(&self) -> bool {
        true
    }

    open spec fn chunk(&self) -> Seq<u8> {
        seq![0x66u8, 0x61, 0x63, 0x74] + le_bytes_u32(4) + le_bytes_u32(self.length_samples)
    }

    fn to_chunk(&self) -> (bytes: Vec<u8>) {
        let mut buf: Vec<u8> = vec![0x66u8, 0x61, 0x63, 0x74];
        write_u32_le(&mut buf, 4);
        write_u32_le(&mut buf, self.length_samples);
        buf
    }
}

/// The header chunk of a RIFF file.
pub struct RIFFHeader {
    /// The size of the file without the first eight bytes.
    pub file_size: u32,
}

impl WaveChunk for RIFFHeader {
    open spec fn writable(&self) -> bool {
        true
    }

    open spec fn chunk(&self) -> Seq<u8> {
        seq![0x52u8, 0x49, 0x46, 0x46] + le_bytes_u32(self.file_size) + seq![0x57u8, 0x41, 0x56, 0x45]
    }

    fn to_chunk(&self) -> (bytes: Vec<u8>) {
        let mut buf: Vec<u8> = vec![0x52u8, 0x49, 0x46, 0x46];
        write_u32_le(&mut buf, self.file_size);
        let mut form: Vec<u8> = vec![0x57u8, 0x41, 0x56, 0x45];
        buf.append(&mut form);
        buf
    }
}

/// What [`build_wav`] returns: the file, or the error for sound data that
/// does not fit one.
///
/// The file is the header chunk, the chunk of the format, the fact chunk and
/// the data chunk, which is the word `data`, the length of the sound data and
/// the sound data.
pub open spec fn wav_file(format: WaveFormat, data: Seq<u8>) -> Result<Seq<u8>, Error> {
    if data.len() + 82 > u32::MAX || format.length_samples(data.len() as int) > u32::MAX {
        Err(Error::TooLargeError(data.len() as usize))
    } else {
        Ok(
            (RIFFHeader { file_size: (data.len() + 82) as u32 }).chunk() + format.chunk() + (WaveFact {
                length_samples: format.length_samples(data.len() as int) as u32,
            }).chunk() + seq![0x64u8, 0x61, 0x74, 0x61] + le_bytes_u32(data.len() as u32) + data,
        )
    }
}

/// Builds a wave file from a format and raw ADPCM data.
pub fn build_wav(format: WaveFormat, data: &[u8]) -> (file: Result<Vec<u8>, Error>)
    requires
        format.valid(),
    ensures
        match wav_file(format, data@) {
            Ok(bytes) => file is Ok && file->Ok_0@ == bytes,
            Err(error) => file is Err && file->Err_0 == error,
        },
{
    if data.len() > 0xffff_ffff - 82 {
        return Err(Error::TooLargeError(data.len()));
    }
    let length = data.len() as u32;
    let riff_header = RIFFHeader { file_size: length + 82 };
    let blocks = (length / (format.block_align as u32)) as u64;
    let sample_bytes = (format.block_align - 7 * format.channels) as u64;
    assert(blocks * (sample_bytes * 8) <= 0xffff_ffff * (0xffff * 8)) by (nonlinear_arith)
        requires
            0 <= blocks <= 0xffff_ffff,
            0 <= sample_bytes <= 0xffff,
    ;
    let length_samples = blocks * (sample_bytes * 8) / 4 / (format.channels as u64);
    if length_samples > u32::MAX as u64 {
        return Err(Error::TooLargeError(data.len()));
    }
    let fact = WaveFact { length_samples: length_samples as u32 };
    let mut buf = riff_header.to_chunk();
    let mut format_chunk = format.to_chunk();
    buf.append(&mut format_chunk);
    let mut fact_chunk = fact.to_chunk();
    buf.append(&mut fact_chunk);
    let mut word: Vec<u8> = vec![0x64u8, 0x61, 0x74, 0x61];
    buf.append(&mut word);
    write_u32_le(&mut buf, length);
    buf.extend_from_slice(data);
    Ok(buf)
}

} // verus!

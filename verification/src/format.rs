//! Format descriptors: which container a file uses, how its samples are
//! encoded, and in which byte order.
//!
//! The codec packs the three choices into one number as independent
//! bit-fields: the encoding in the low sixteen bits, the container in the
//! twelve bits above them, the byte order in the two bits above those.
//! Here each choice is a closed enumeration, and [`Format::encode`] and
//! [`Format::decode`] go between the enumerations and the packed number.

use vstd::prelude::*;

verus! {

/// The bits of a packed descriptor that hold the sample encoding.
pub const SUBMASK: i32 = 0x0000FFFF;

/// The bits of a packed descriptor that hold the container.
pub const TYPEMASK: i32 = 0x0FFF0000;

/// The bits of a packed descriptor that hold the byte order.
pub const ENDMASK: i32 = 0x30000000;

/// The container formats the codec knows.
#[derive(Clone, Copy, Debug, PartialEq, Eq, Structural)]
pub enum Container {
    /// Microsoft WAV (little endian by default).
    Wav,
    /// Apple/SGI AIFF (big endian).
    Aiff,
    /// Sun/NeXT AU (big endian).
    Au,
    /// Headerless PCM data.
    Raw,
    /// Ensoniq PARIS.
    Paf,
    /// Amiga IFF / SVX8 / SV16.
    Svx,
    /// Sphere NIST.
    Nist,
    /// Creative VOC.
    Voc,
    /// Berkeley/IRCAM/CARL.
    Ircam,
    /// Sonic Foundry 64 bit RIFF/WAV.
    W64,
    /// Matlab V4.2 / GNU Octave 2.0.
    Mat4,
    /// Matlab V5.0 / GNU Octave 2.1.
    Mat5,
    /// Portable Voice Format.
    Pvf,
    /// Fasttracker 2 Extended Instrument.
    Xi,
    /// HMM Tool Kit.
    Htk,
    /// Midi Sample Dump Standard.
    Sds,
    /// Audio Visual Research.
    Avr,
    /// WAV with WAVEFORMATEX.
    Wavex,
    /// Sound Designer 2.
    Sd2,
    /// FLAC lossless.
    Flac,
    /// Core Audio File.
    Caf,
    /// Psion WVE.
    Wve,
    /// Xiph OGG container.
    Ogg,
    /// Akai MPC 2000 sampler.
    Mpc2k,
    /// RF64 WAV.
    Rf64,
}

/// The sample encodings the codec knows.
#[derive(Clone, Copy, Debug, PartialEq, Eq, Structural)]
pub enum Encoding {
    /// Signed 8 bit PCM.
    PcmS8,
    /// Signed 16 bit PCM.
    Pcm16,
    /// Signed 24 bit PCM.
    Pcm24,
    /// Signed 32 bit PCM.
    Pcm32,
    /// Unsigned 8 bit PCM (WAV and RAW only).
    PcmU8,
    /// 32 bit float.
    Float,
    /// 64 bit float.
    Double,
    /// U-Law.
    Ulaw,
    /// A-Law.
    Alaw,
    /// IMA ADPCM.
    ImaAdpcm,
    /// Microsoft ADPCM.
    MsAdpcm,
    /// GSM 6.10.
    Gsm610,
    /// OKI / Dialogix ADPCM.
    VoxAdpcm,
    /// 32kbs G721 ADPCM.
    G721x32,
    /// 24kbs G723 ADPCM.
    G723x24,
    /// 40kbs G723 ADPCM.
    G723x40,
    /// 12 bit Delta Width Variable Word.
    Dwvw12,
    /// 16 bit Delta Width Variable Word.
    Dwvw16,
    /// 24 bit Delta Width Variable Word.
    Dwvw24,
    /// N bit Delta Width Variable Word.
    DwvwN,
    /// 8 bit differential PCM (XI only).
    Dpcm8,
    /// 16 bit differential PCM (XI only).
    Dpcm16,
    /// Xiph Vorbis.
    Vorbis,
}

/// The byte order of the samples in the file.
#[derive(Clone, Copy, Debug, PartialEq, Eq, Structural)]
pub enum Endian {
    /// Whatever the container uses by default.
    File,
    /// Little endian, whatever the container prefers.
    Little,
    /// Big endian, whatever the container prefers.
    Big,
    /// The byte order of the machine.
    Cpu,
}

impl Container {
    /// The container's bit-field, in place.
    pub open spec fn spec_code(self) -> int {
        match self {
            Container::Wav => 0x010000,
            Container::Aiff => 0x020000,
            Container::Au => 0x030000,
            Container::Raw => 0x040000,
            Container::Paf => 0x050000,
            Container::Svx => 0x060000,
            Container::Nist => 0x070000,
            Container::Voc => 0x080000,
            Container::Ircam => 0x0A0000,
            Container::W64 => 0x0B0000,
            Container::Mat4 => 0x0C0000,
            Container::Mat5 => 0x0D0000,
            Container::Pvf => 0x0E0000,
            Container::Xi => 0x0F0000,
            Container::Htk => 0x100000,
            Container::Sds => 0x110000,
            Container::Avr => 0x120000,
            Container::Wavex => 0x130000,
            Container::Sd2 => 0x160000,
            Container::Flac => 0x170000,
            Container::Caf => 0x180000,
            Container::Wve => 0x190000,
            Container::Ogg => 0x200000,
            Container::Mpc2k => 0x210000,
            Container::Rf64 => 0x220000,
        }
    }

    /// The container's bit-field, in place.
    pub fn code(self) -> (c: i32)
        ensures
            c == self.spec_code(),
    {
        match self {
            Container::Wav => 0x010000,
            Container::Aiff => 0x020000,
            Container::Au => 0x030000,
            Container::Raw => 0x040000,
            Container::Paf => 0x050000,
            Container::Svx => 0x060000,
            Container::Nist => 0x070000,
            Container::Voc => 0x080000,
            Container::Ircam => 0x0A0000,
            Container::W64 => 0x0B0000,
            Container::Mat4 => 0x0C0000,
            Container::Mat5 => 0x0D0000,
            Container::Pvf => 0x0E0000,
            Container::Xi => 0x0F0000,
            Container::Htk => 0x100000,
            Container::Sds => 0x110000,
            Container::Avr => 0x120000,
            Container::Wavex => 0x130000,
            Container::Sd2 => 0x160000,
            Container::Flac => 0x170000,
            Container::Caf => 0x180000,
            Container::Wve => 0x190000,
            Container::Ogg => 0x200000,
            Container::Mpc2k => 0x210000,
            Container::Rf64 => 0x220000,
        }
    }

    /// The container whose bit-field is `code`, if there is one.
    pub fn from_code(code: i32) -> (found: Option<Container>)
        ensures
            match found {
                Some(k) => k.spec_code() == code,
                None => forall|k: Container| k.spec_code() != code,
            },
    {
        match code {
            0x010000 => Some(Container::Wav),
            0x020000 => Some(Container::Aiff),
            0x030000 => Some(Container::Au),
            0x040000 => Some(Container::Raw),
            0x050000 => Some(Container::Paf),
            0x060000 => Some(Container::Svx),
            0x070000 => Some(Container::Nist),
            0x080000 => Some(Container::Voc),
            0x0A0000 => Some(Container::Ircam),
            0x0B0000 => Some(Container::W64),
            0x0C0000 => Some(Container::Mat4),
            0x0D0000 => Some(Container::Mat5),
            0x0E0000 => Some(Container::Pvf),
            0x0F0000 => Some(Container::Xi),
            0x100000 => Some(Container::Htk),
            0x110000 => Some(Container::Sds),
            0x120000 => Some(Container::Avr),
            0x130000 => Some(Container::Wavex),
            0x160000 => Some(Container::Sd2),
            0x170000 => Some(Container::Flac),
            0x180000 => Some(Container::Caf),
            0x190000 => Some(Container::Wve),
            0x200000 => Some(Container::Ogg),
            0x210000 => Some(Container::Mpc2k),
            0x220000 => Some(Container::Rf64),
            _ => None,
        }
    }

    /// A container's bit-field lies inside [`TYPEMASK`] and is not empty.
    pub proof fn lemma_code_in_field(self)
        ensures
            self.spec_code() % 0x10000 == 0,
            0x10000 <= self.spec_code() <= 0x220000,
    {
    }
}

impl Encoding {
    /// The encoding's bit-field.
    pub open spec fn spec_code(self) -> int {
        match self {
            Encoding::PcmS8 => 0x0001,
            Encoding::Pcm16 => 0x0002,
            Encoding::Pcm24 => 0x0003,
            Encoding::Pcm32 => 0x0004,
            Encoding::PcmU8 => 0x0005,
            Encoding::Float => 0x0006,
            Encoding::Double => 0x0007,
            Encoding::Ulaw => 0x0010,
            Encoding::Alaw => 0x0011,
            Encoding::ImaAdpcm => 0x0012,
            Encoding::MsAdpcm => 0x0013,
            Encoding::Gsm610 => 0x0020,
            Encoding::VoxAdpcm => 0x0021,
            Encoding::G721x32 => 0x0030,
            Encoding::G723x24 => 0x0031,
            Encoding::G723x40 => 0x0032,
            Encoding::Dwvw12 => 0x0040,
            Encoding::Dwvw16 => 0x0041,
            Encoding::Dwvw24 => 0x0042,
            Encoding::DwvwN => 0x0043,
            Encoding::Dpcm8 => 0x0050,
            Encoding::Dpcm16 => 0x0051,
            Encoding::Vorbis => 0x0060,
        }
    }

    /// The encoding's bit-field.
    pub fn code(self) -> (c: i32)
        ensures
            c == self.spec_code(),
    {
        match self {
            Encoding::PcmS8 => 0x0001,
            Encoding::Pcm16 => 0x0002,
            Encoding::Pcm24 => 0x0003,
            Encoding::Pcm32 => 0x0004,
            Encoding::PcmU8 => 0x0005,
            Encoding::Float => 0x0006,
            Encoding::Double => 0x0007,
            Encoding::Ulaw => 0x0010,
            Encoding::Alaw => 0x0011,
            Encoding::ImaAdpcm => 0x0012,
            Encoding::MsAdpcm => 0x0013,
            Encoding::Gsm610 => 0x0020,
            Encoding::VoxAdpcm => 0x0021,
            Encoding::G721x32 => 0x0030,
            Encoding::G723x24 => 0x0031,
            Encoding::G723x40 => 0x0032,
            Encoding::Dwvw12 => 0x0040,
            Encoding::Dwvw16 => 0x0041,
            Encoding::Dwvw24 => 0x0042,
            Encoding::DwvwN => 0x0043,
            Encoding::Dpcm8 => 0x0050,
            Encoding::Dpcm16 => 0x0051,
            Encoding::Vorbis => 0x0060,
        }
    }

    /// The encoding whose bit-field is `code`, if there is one.
    pub fn from_code(code: i32) -> (found: Option<Encoding>)
        ensures
            match found {
                Some(e) => e.spec_code() == code,
                None => forall|e: Encoding| e.spec_code() != code,
            },
    {
        match code {
            0x0001 => Some(Encoding::PcmS8),
            0x0002 => Some(Encoding::Pcm16),
            0x0003 => Some(Encoding::Pcm24),
            0x0004 => Some(Encoding::Pcm32),
            0x0005 => Some(Encoding::PcmU8),
            0x0006 => Some(Encoding::Float),
            0x0007 => Some(Encoding::Double),
            0x0010 => Some(Encoding::Ulaw),
            0x0011 => Some(Encoding::Alaw),
            0x0012 => Some(Encoding::ImaAdpcm),
            0x0013 => Some(Encoding::MsAdpcm),
            0x0020 => Some(Encoding::Gsm610),
            0x0021 => Some(Encoding::VoxAdpcm),
            0x0030 => Some(Encoding::G721x32),
            0x0031 => Some(Encoding::G723x24),
            0x0032 => Some(Encoding::G723x40),
            0x0040 => Some(Encoding::Dwvw12),
            0x0041 => Some(Encoding::Dwvw16),
            0x0042 => Some(Encoding::Dwvw24),
            0x0043 => Some(Encoding::DwvwN),
            0x0050 => Some(Encoding::Dpcm8),
            0x0051 => Some(Encoding::Dpcm16),
            0x0060 => Some(Encoding::Vorbis),
            _ => None,
        }
    }

    /// An encoding's bit-field lies inside [`SUBMASK`] and is not empty.
    pub proof fn lemma_code_in_field(self)
        ensures
            1 <= self.spec_code() <= 0x60,
    {
    }
}

impl Endian {
    /// The byte order's bit-field, in place.
    pub open spec fn spec_code(self) -> int {
        match self {
            Endian::File => 0x00000000,
            Endian::Little => 0x10000000,
            Endian::Big => 0x20000000,
            Endian::Cpu => 0x30000000,
        }
    }

    /// The byte order's bit-field, in place.
    pub fn code(self) -> (c: i32)
        ensures
            c == self.spec_code(),
    {
        match self {
            Endian::File => 0x00000000,
            Endian::Little => 0x10000000,
            Endian::Big => 0x20000000,
            Endian::Cpu => 0x30000000,
        }
    }

    /// The byte order whose bit-field is `code`, if there is one.
    pub fn from_code(code: i32) -> (found: Option<Endian>)
        ensures
            match found {
                Some(e) => e.spec_code() == code,
                None => forall|e: Endian| e.spec_code() != code,
            },
    {
        match code {
            0x00000000 => Some(Endian::File),
            0x10000000 => Some(Endian::Little),
            0x20000000 => Some(Endian::Big),
            0x30000000 => Some(Endian::Cpu),
            _ => None,
        }
    }

    /// A byte order's bit-field lies inside [`ENDMASK`].
    pub proof fn lemma_code_in_field(self)
        ensures
            self.spec_code() % 0x10000000 == 0,
            0 <= self.spec_code() <= 0x30000000,
    {
    }
}

/// A fully specified format: container, sample encoding and byte order.
#[derive(Clone, Copy, Debug, PartialEq, Eq, Structural)]
pub struct Format {
    pub container: Container,
    pub encoding: Encoding,
    pub endian: Endian,
}

/// The encoding field of a packed descriptor.
pub open spec fn sub_field(code: int) -> int {
    code % 0x10000
}

/// The container field of a packed descriptor, in place.
pub open spec fn type_field(code: int) -> int {
    (code / 0x10000) % 0x1000 * 0x10000
}

/// The byte order field of a packed descriptor, in place.
pub open spec fn end_field(code: int) -> int {
    (code / 0x10000000) * 0x10000000
}

impl Format {
    /// The packed descriptor: the three bit-fields put together.
    pub open spec fn spec_encode(self) -> int {
        self.container.spec_code() + self.encoding.spec_code() + self.endian.spec_code()
    }

    /// The format that a file gets when the caller asks for nothing else:
    /// 16 bit PCM in a WAV container, in the container's byte order.
    pub open spec fn spec_standard() -> Format {
        Format { container: Container::Wav, encoding: Encoding::Pcm16, endian: Endian::File }
    }

    /// The format that a file gets when the caller asks for nothing else.
    pub fn standard() -> (f: Format)
        ensures
            f == Format::spec_standard(),
    {
        Format { container: Container::Wav, encoding: Encoding::Pcm16, endian: Endian::File }
    }

    /// Packs the format into the number the codec takes.
    pub fn encode(self) -> (code: i32)
        ensures
            code == self.spec_encode(),
            0 < code < 0x40000000,
    {
        proof {
            self.container.lemma_code_in_field();
            self.encoding.lemma_code_in_field();
            self.endian.lemma_code_in_field();
        }
        self.container.code() + self.encoding.code() + self.endian.code()
    }

    /// Unpacks a number of the codec. It yields a format exactly when the
    /// number is the packed form of one: all three fields hold a known
    /// choice and no bit outside them is set.
    pub fn decode(code: i32) -> (found: Option<Format>)
        ensures
            match found {
                Some(f) => f.spec_encode() == code,
                None => forall|f: Format| f.spec_encode() != code,
            },
    {
        if code < 0 || code >= 0x40000000 {
            proof {
                assert forall|f: Format| f.spec_encode() != code by {
                    f.lemma_fields();
                }
            }
            return None;
        }
        let sub: i32 = code % 0x10000;
        let typ: i32 = (code / 0x10000) % 0x1000 * 0x10000;
        let end: i32 = (code / 0x10000000) * 0x10000000;
        assert(sub + typ + end == code);
        let container = Container::from_code(typ);
        let encoding = Encoding::from_code(sub);
        let endian = Endian::from_code(end);
        match (container, encoding, endian) {
            (Some(container), Some(encoding), Some(endian)) => {
                Some(Format { container, encoding, endian })
            },
            _ => {
                proof {
                    assert forall|f: Format| f.spec_encode() != code by {
                        f.lemma_fields();
                    }
                }
                None
            },
        }
    }

    /// The three fields of a packed descriptor do not overlap: each can be
    /// read back from the packed number, whatever the other two hold.
    pub proof fn lemma_fields(self)
        ensures
            0 < self.spec_encode() < 0x40000000,
            sub_field(self.spec_encode()) == self.encoding.spec_code(),
            type_field(self.spec_encode()) == self.container.spec_code(),
            end_field(self.spec_encode()) == self.endian.spec_code(),
    {
        self.container.lemma_code_in_field();
        self.encoding.lemma_code_in_field();
        self.endian.lemma_code_in_field();
        let c = self.container.spec_code();
        let e = self.encoding.spec_code();
        let n = self.endian.spec_code();
        let ci = c / 0x10000;
        let ni = n / 0x10000000;
        assert(c == ci * 0x10000);
        assert(n == ni * 0x10000000);
        assert(self.spec_encode() == ni * 0x10000000 + ci * 0x10000 + e);
    }

    /// Unpacking undoes packing: two formats with the same packed number
    /// are the same format.
    pub proof fn lemma_encode_injective(self, other: Format)
        requires
            self.spec_encode() == other.spec_encode(),
        ensures
            self == other,
    {
        self.lemma_fields();
        other.lemma_fields();
    }

    /// The masks cut a packed descriptor into its three fields.
    pub proof fn lemma_masks(code: i32)
        requires
            0 <= code < 0x40000000,
        ensures
            (code & SUBMASK) == sub_field(code as int),
            (code & TYPEMASK) == type_field(code as int),
            (code & ENDMASK) == end_field(code as int),
    {
        let c: u32 = code as u32;
        assert(c & 0x0000FFFFu32 == c % 0x10000u32) by (bit_vector);
        assert(c & 0x0FFF0000u32 == (c / 0x10000u32) % 0x1000u32 * 0x10000u32) by (bit_vector);
        assert(c < 0x40000000u32 ==> c & 0x30000000u32 == (c / 0x10000000u32) * 0x10000000u32)
            by (bit_vector);
        assert((code & 0x0000FFFFi32) == (c & 0x0000FFFFu32)) by (bit_vector)
            requires
                0 <= code,
                c == code as u32,
        ;
        assert((code & 0x0FFF0000i32) == (c & 0x0FFF0000u32)) by (bit_vector)
            requires
                0 <= code,
                c == code as u32,
        ;
        assert((code & 0x30000000i32) == (c & 0x30000000u32)) by (bit_vector)
            requires
                0 <= code,
                c == code as u32,
        ;
    }
}

} // verus!

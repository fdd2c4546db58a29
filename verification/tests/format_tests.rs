use audiotar::format::{Container, Encoding, Endian, Format, ENDMASK, SUBMASK, TYPEMASK};
use audiotar::info::SfInfo;
use audiotar::mode::SFM;

#[test]
fn standard_format_is_wav_pcm16() {
    let f = Format::standard();
    assert_eq!(f.container, Container::Wav);
    assert_eq!(f.encoding, Encoding::Pcm16);
    assert_eq!(f.endian, Endian::File);
    assert_eq!(f.encode(), 0x010002);
}

#[test]
fn encode_puts_the_fields_side_by_side() {
    let f = Format { container: Container::Flac, encoding: Encoding::Pcm24, endian: Endian::Big };
    assert_eq!(f.encode(), 0x20170003);
    let g = Format { container: Container::Ogg, encoding: Encoding::Vorbis, endian: Endian::File };
    assert_eq!(g.encode(), 0x00200060);
    let h = Format { container: Container::Rf64, encoding: Encoding::Double, endian: Endian::Cpu };
    assert_eq!(h.encode(), 0x30220007);
}

#[test]
fn masks_cut_out_the_fields() {
    let f = Format { container: Container::Aiff, encoding: Encoding::Ulaw, endian: Endian::Little };
    let code: i32 = f.encode();
    assert_eq!(code & SUBMASK, Encoding::Ulaw.code());
    assert_eq!(code & TYPEMASK, Container::Aiff.code());
    assert_eq!(code & ENDMASK, Endian::Little.code());
}

#[test]
fn decode_undoes_encode_for_every_format() {
    let containers = [
        Container::Wav, Container::Aiff, Container::Au, Container::Raw, Container::Paf,
        Container::Svx, Container::Nist, Container::Voc, Container::Ircam, Container::W64,
        Container::Mat4, Container::Mat5, Container::Pvf, Container::Xi, Container::Htk,
        Container::Sds, Container::Avr, Container::Wavex, Container::Sd2, Container::Flac,
        Container::Caf, Container::Wve, Container::Ogg, Container::Mpc2k, Container::Rf64,
    ];
    let encodings = [
        Encoding::PcmS8, Encoding::Pcm16, Encoding::Pcm24, Encoding::Pcm32, Encoding::PcmU8,
        Encoding::Float, Encoding::Double, Encoding::Ulaw, Encoding::Alaw, Encoding::ImaAdpcm,
        Encoding::MsAdpcm, Encoding::Gsm610, Encoding::VoxAdpcm, Encoding::G721x32,
        Encoding::G723x24, Encoding::G723x40, Encoding::Dwvw12, Encoding::Dwvw16,
        Encoding::Dwvw24, Encoding::DwvwN, Encoding::Dpcm8, Encoding::Dpcm16, Encoding::Vorbis,
    ];
    let endians = [Endian::File, Endian::Little, Endian::Big, Endian::Cpu];
    for container in containers {
        for encoding in encodings {
            for endian in endians {
                let f = Format { container, encoding, endian };
                assert_eq!(Format::decode(f.encode()), Some(f));
            }
        }
    }
}

#[test]
fn decode_refuses_what_is_no_format() {
    assert_eq!(Format::decode(0), None);
    assert_eq!(Format::decode(-1), None);
    assert_eq!(Format::decode(0x010000), None);
    assert_eq!(Format::decode(0x000002), None);
    assert_eq!(Format::decode(0x010008), None);
    assert_eq!(Format::decode(0x090002), None);
    assert_eq!(Format::decode(0x40010002), None);
    assert_eq!(Format::decode(0x01010002), None);
    assert_eq!(Format::decode(i32::MIN), None);
    assert_eq!(Format::decode(i32::MAX), None);
}

#[test]
fn codes_are_found_again() {
    assert_eq!(Container::from_code(0x170000), Some(Container::Flac));
    assert_eq!(Container::from_code(0x140000), None);
    assert_eq!(Encoding::from_code(0x0006), Some(Encoding::Float));
    assert_eq!(Encoding::from_code(0x0008), None);
    assert_eq!(Endian::from_code(0x20000000), Some(Endian::Big));
    assert_eq!(Endian::from_code(0x40000000), None);
}

#[test]
fn mode_codes() {
    assert_eq!(SFM::READ.code(), 0x10);
    assert_eq!(SFM::WRITE.code(), 0x20);
    assert_eq!(SFM::RDWR.code(), 0x30);
}

#[test]
fn request_for_reading_is_blank() {
    let info = SfInfo::request(SFM::READ);
    assert_eq!(info, SfInfo { frames: 0, samplerate: 0, channels: 0, format: 0, sections: 0, seekable: 0 });
    assert_eq!(info, SfInfo::default());
    assert_eq!(info.described(), None);
}

#[test]
fn request_for_writing_has_the_defaults() {
    let expected = SfInfo {
        frames: 0,
        samplerate: 44100,
        channels: 1,
        format: 0x010002,
        sections: 1,
        seekable: 1,
    };
    assert_eq!(SfInfo::request(SFM::WRITE), expected);
    assert_eq!(SfInfo::request(SFM::RDWR), expected);
    assert_eq!(expected.described(), Some(Format::standard()));
}

#[test]
fn writing_takes_what_the_caller_names() {
    let f = Format { container: Container::Flac, encoding: Encoding::Pcm24, endian: Endian::File };
    let info = SfInfo::writing(Some(48000), Some(2), Some(f));
    assert_eq!(info.samplerate, 48000);
    assert_eq!(info.channels, 2);
    assert_eq!(info.format, 0x170003);
    assert_eq!(info.described(), Some(f));
    let partly = SfInfo::writing(Some(8000), None, None);
    assert_eq!(partly.samplerate, 8000);
    assert_eq!(partly.channels, 1);
    assert_eq!(partly.format, 0x010002);
}

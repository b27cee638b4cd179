use brd::xact3::adpcm::{build_wav, RIFFHeader, WaveChunk, WaveFact, WaveFormat};

#[test]
fn test_riff_header_to_chunk() {
    assert_eq!(
        RIFFHeader { file_size: 12345 }.to_chunk(),
        b"RIFF\x39\x30\x00\x00WAVE"
    );
}

#[test]
fn test_wave_fact_to_chunk() {
    assert_eq!(
        WaveFact {
            length_samples: 12345
        }
        .to_chunk(),
        b"fact\x04\x00\x00\x00\x39\x30\x00\x00"
    );
}

#[test]
fn test_wave_format_to_chunk() {
    assert_eq!(
        WaveFormat {
            channels: 2,
            sample_rate: 44100,
            block_align: 140,
        }
        .to_chunk(),
        vec![
            0x66, 0x6d, 0x74, 0x20, 0x32, 0x00, 0x00, 0x00, 0x02, 0x00, 0x02, 0x00, 0x44, 0xac,
            0x00, 0x00, 0x20, 0xbc, 0x00, 0x00, 0x8c, 0x00, 0x04, 0x00, 0x20, 0x00, 0x80, 0x00,
            0x07, 0x00, 0x00, 0x01, 0x00, 0x00, 0x00, 0x02, 0x00, 0xff, 0x00, 0x00, 0x00, 0x00,
            0xc0, 0x00, 0x40, 0x00, 0xf0, 0x00, 0x00, 0x00, 0xcc, 0x01, 0x30, 0xff, 0x88, 0x01,
            0x18, 0xff
        ]
    );
}

#[test]
fn test_build_wav() {
    let built_wav = build_wav(
        WaveFormat {
            channels: 2,
            sample_rate: 44100,
            block_align: 140,
        },
        b"data",
    );
    assert_eq!(
        built_wav.unwrap(),
        vec![
            0x52, 0x49, 0x46, 0x46, 0x56, 0x00, 0x00, 0x00, 0x57, 0x41, 0x56, 0x45, 0x66, 0x6d,
            0x74, 0x20, 0x32, 0x00, 0x00, 0x00, 0x02, 0x00, 0x02, 0x00, 0x44, 0xac, 0x00, 0x00,
            0x20, 0xbc, 0x00, 0x00, 0x8c, 0x00, 0x04, 0x00, 0x20, 0x00, 0x80, 0x00, 0x07, 0x00,
            0x00, 0x01, 0x00, 0x00, 0x00, 0x02, 0x00, 0xff, 0x00, 0x00, 0x00, 0x00, 0xc0, 0x00,
            0x40, 0x00, 0xf0, 0x00, 0x00, 0x00, 0xcc, 0x01, 0x30, 0xff, 0x88, 0x01, 0x18, 0xff,
            0x66, 0x61, 0x63, 0x74, 0x04, 0x00, 0x00, 0x00, 0x00, 0x00, 0x00, 0x00, 0x64, 0x61,
            0x74, 0x61, 0x04, 0x00, 0x00, 0x00, 0x64, 0x61, 0x74, 0x61
        ]
    );
}

#[test]
fn wave_format_computes_its_block_fields() {
    let format = WaveFormat {
        channels: 2,
        sample_rate: 44100,
        block_align: 140,
    };
    assert!(format.is_valid());
    assert_eq!(format.samples_per_block(), 128);
    assert_eq!(format.avg_bytes_per_sec(), 48160);
    let mono = WaveFormat {
        channels: 1,
        sample_rate: 22050,
        block_align: 70,
    };
    assert_eq!(mono.samples_per_block(), 128);
    assert_eq!(mono.avg_bytes_per_sec(), 172 * 70);
}

#[test]
fn wave_format_is_valid_checks_each_condition() {
    let valid = |channels, sample_rate, block_align| {
        WaveFormat {
            channels,
            sample_rate,
            block_align,
        }
        .is_valid()
    };
    assert!(!valid(0, 44100, 140));
    assert!(!valid(2, 44100, 13));
    assert!(valid(2, 44100, 14));
    assert!(!valid(1, u32::MAX, 7));
    // 131058 samples in a block
    assert!(!valid(1, 44100, 65535));
    // 65534 samples in a block
    assert!(valid(1, 44100, 32773));
    // 4294967295 / 2 * 7 bytes
    assert!(valid(1, 1_227_133_513, 7));
    assert!(!valid(1, 1_227_133_514, 7));
}

#[test]
fn build_wav_counts_the_samples_of_whole_blocks() {
    let format = WaveFormat {
        channels: 2,
        sample_rate: 44100,
        block_align: 140,
    };
    let data = vec![0x5a; 2 * 140 + 17];
    let file = build_wav(format, &data).unwrap();
    assert_eq!(file.len(), data.len() + 90);
    assert_eq!(file[4..8], (data.len() as u32 + 82).to_le_bytes());
    // two blocks of 126 bytes of samples: 2 * 126 * 8 / 4 / 2
    assert_eq!(file[78..82], 252u32.to_le_bytes());
    assert_eq!(file[86..90], (data.len() as u32).to_le_bytes());
    assert_eq!(file[90..], data[..]);
}

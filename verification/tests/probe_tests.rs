use ssmgr::probe::{first_playable, length_from_probe, metadata_from_probe};

/// A PCM WAV file: 16 bits, `channels` channels at `rate` Hz, `frames` frames of silence.
fn wav(rate: u32, channels: u16, frames: u32) -> Vec<u8> {
    let block = 2 * channels as u32;
    let data_len = frames * block;
    let mut b = Vec::new();
    b.extend_from_slice(b"RIFF");
    b.extend_from_slice(&(36 + data_len).to_le_bytes());
    b.extend_from_slice(b"WAVE");
    b.extend_from_slice(b"fmt ");
    b.extend_from_slice(&16u32.to_le_bytes());
    b.extend_from_slice(&1u16.to_le_bytes());
    b.extend_from_slice(&channels.to_le_bytes());
    b.extend_from_slice(&rate.to_le_bytes());
    b.extend_from_slice(&(rate * block).to_le_bytes());
    b.extend_from_slice(&(block as u16).to_le_bytes());
    b.extend_from_slice(&16u16.to_le_bytes());
    b.extend_from_slice(b"data");
    b.extend_from_slice(&data_len.to_le_bytes());
    b.extend(std::iter::repeat(0u8).take(data_len as usize));
    b
}

/// What symphonia's default probe reports of `bytes`, in the form the library takes.
fn probe(bytes: Vec<u8>) -> Option<(Tracks, Option<Vec<(String, Option<String>)>>)> {
    let source = symphonia::core::io::MediaSourceStream::new(Box::new(std::io::Cursor::new(bytes)), Default::default());
    let mut probed = symphonia::default::get_probe()
        .format(&Default::default(), source, &Default::default(), &Default::default())
        .ok()?;
    let tracks = probed
        .format
        .tracks()
        .iter()
        .map(|t| {
            let c = &t.codec_params;
            (
                c.codec != symphonia::core::codecs::CODEC_TYPE_NULL,
                c.sample_rate,
                c.channels.map(|x| x.count()),
                c.bits_per_sample,
                c.n_frames,
            )
        })
        .collect();
    let tags = probed.format.metadata().current().map(|m| {
        m.tags()
            .iter()
            .map(|t| {
                let v = match &t.value {
                    symphonia::core::meta::Value::String(s) => Some(s.clone()),
                    _ => None,
                };
                (t.key.clone(), v)
            })
            .collect()
    });
    Some((tracks, tags))
}

type Tracks = Vec<(bool, Option<u32>, Option<usize>, Option<u32>, Option<u64>)>;

#[test]
fn metadata_of_a_wav_file() {
    let (tracks, tags) = probe(wav(8000, 2, 4)).expect("a WAV container");
    assert_eq!(first_playable(&tracks), Some(0));
    let m = metadata_from_probe("/s/tone.wav", &tracks, tags).expect("a playable track");
    assert_eq!(m.format, "WAV");
    assert_eq!(m.sample_rate, 8000);
    assert_eq!(m.channels, 2);
    assert_eq!(m.bit_depth, Some(16));
    assert!(m.tags.is_empty());
    assert_eq!(length_from_probe(&tracks), Some((4, 8000)));
}

#[test]
fn metadata_from_the_first_playable_track() {
    let tracks = vec![
        (false, Some(1), Some(1), Some(8), Some(10)),
        (true, Some(48000), Some(70000), Some(24), None),
        (true, Some(22050), Some(1), Some(16), Some(5)),
    ];
    let tags = Some(vec![
        ("TITLE".to_string(), Some("a".to_string())),
        ("COVER".to_string(), None),
        ("TITLE".to_string(), Some("b".to_string())),
    ]);
    let m = metadata_from_probe("x/loop.flac", &tracks, tags).expect("a playable track");
    assert_eq!(m.format, "FLAC");
    assert_eq!(m.sample_rate, 48000);
    assert_eq!(m.channels, 70000usize as u16);
    assert_eq!(m.bit_depth, Some(24));
    assert_eq!(m.tags, vec![("TITLE".to_string(), "b".to_string())]);
    assert_eq!(length_from_probe(&tracks), None);
    assert_eq!(first_playable(&tracks), Some(1));

    let missing = vec![(true, None, None, None, Some(3))];
    let m = metadata_from_probe("noext", &missing, None).expect("a playable track");
    assert_eq!(m.format, "");
    assert_eq!(m.sample_rate, 0);
    assert_eq!(m.channels, 0);
    assert_eq!(m.bit_depth, None);
    assert!(m.tags.is_empty());
    assert_eq!(length_from_probe(&missing), None);
    assert_eq!(length_from_probe(&vec![(true, Some(100), None, None, Some(300))]), Some((300, 100)));

    let silent = vec![(false, Some(1), None, None, Some(1))];
    assert!(metadata_from_probe("a.wav", &silent, None).is_none());
    assert_eq!(length_from_probe(&silent), None);
    assert_eq!(first_playable(&silent), None);
    assert!(metadata_from_probe("a.wav", &Vec::new(), None).is_none());
}

use transcription_core::{pcm_from_wav, urlencoded, wav_from_pcm, MeetingDetectionState};

#[test]
fn wav_header_fields() {
    let wav = wav_from_pcm(&[1, -1]).unwrap();
    assert_eq!(wav.len(), 48);
    assert_eq!(&wav[0..4], b"RIFF");
    assert_eq!(&wav[4..8], &40u32.to_le_bytes());
    assert_eq!(&wav[8..16], b"WAVEfmt ");
    assert_eq!(&wav[16..20], &16u32.to_le_bytes());
    assert_eq!(&wav[20..22], &1u16.to_le_bytes());
    assert_eq!(&wav[22..24], &1u16.to_le_bytes());
    assert_eq!(&wav[24..28], &16000u32.to_le_bytes());
    assert_eq!(&wav[28..32], &32000u32.to_le_bytes());
    assert_eq!(&wav[32..34], &2u16.to_le_bytes());
    assert_eq!(&wav[34..36], &16u16.to_le_bytes());
    assert_eq!(&wav[36..40], b"data");
    assert_eq!(&wav[40..44], &4u32.to_le_bytes());
    assert_eq!(&wav[44..48], &[1, 0, 0xff, 0xff]);
}

#[test]
fn wav_round_trip_gives_back_samples() {
    let samples: Vec<i16> = vec![0, 1, -1, i16::MAX, i16::MIN, 12345, -32767];
    let wav = wav_from_pcm(&samples).unwrap();
    assert_eq!(pcm_from_wav(&wav).unwrap(), samples);
}

#[test]
fn wav_round_trip_within_one_quantization_step() {
    let inputs: Vec<f32> = vec![-1.0, -0.5, 0.0, 0.25, 0.999, 1.0];
    let pcm: Vec<i16> = inputs
        .iter()
        .map(|&x| (x.clamp(-1.0, 1.0) * i16::MAX as f32) as i16)
        .collect();
    let decoded = pcm_from_wav(&wav_from_pcm(&pcm).unwrap()).unwrap();
    for (x, s) in inputs.iter().zip(decoded.iter()) {
        let back = *s as f32 / i16::MAX as f32;
        assert!((back - x).abs() <= 1.0 / i16::MAX as f32);
    }
}

#[test]
fn wav_reader_refuses_other_bytes() {
    assert!(pcm_from_wav(&[0u8; 10]).is_none());
    let mut wav = wav_from_pcm(&[5, 6]).unwrap();
    wav[0] = b'X';
    assert!(pcm_from_wav(&wav).is_none());
    let mut odd = wav_from_pcm(&[5]).unwrap();
    odd.push(0);
    assert!(pcm_from_wav(&odd).is_none());
}

#[test]
fn meeting_detection_switch() {
    let mut state = MeetingDetectionState::new();
    assert!(state.is_enabled());
    state.set_enabled(false);
    assert!(!state.is_enabled());
    state.set_enabled(true);
    assert!(state.is_enabled());
}

#[test]
fn app_names_are_encoded() {
    assert_eq!(urlencoded("Microsoft Teams"), "Microsoft%20Teams");
    assert_eq!(urlencoded("Zoom"), "Zoom");
}

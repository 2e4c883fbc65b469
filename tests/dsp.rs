use audio_core::pcm::encode_pcm16_le;
use audio_core::pipeline::{DspPipeline, FrameAssembler, FRAME_SAMPLES};
use audio_core::resampler::StreamingResampler;
use audio_core::ring::SampleRing;
use audio_core::suppression::{
    frame_is_loud, generate_silence_frame, FrameAction, SilenceMode, SilenceSuppressionConfig,
    SilenceSuppressor, VoiceState,
};

fn run_batches(native: u32, batches: &[Vec<i16>]) -> Vec<i16> {
    let mut r = StreamingResampler::new(native, 16000);
    let mut out = Vec::new();
    for b in batches {
        out.extend(r.resample(b));
    }
    out
}

#[test]
fn ring_overflow_keeps_first_capacity_samples() {
    let mut ring = SampleRing::new(100);
    let input: Vec<i16> = (0..150).map(|i| i as i16).collect();
    let pushed = ring.push(&input);
    assert_eq!(pushed, 100);
    for i in 0..100 {
        assert_eq!(ring.try_pop(), Some(i as i16));
    }
    assert_eq!(ring.try_pop(), None);
}

#[test]
fn ring_pushes_within_capacity_pop_in_order() {
    let mut ring = SampleRing::new(16);
    assert_eq!(ring.push(&[1, 2, 3]), 3);
    assert_eq!(ring.push(&[4, 5]), 2);
    assert_eq!(ring.try_pop(), Some(1));
    assert_eq!(ring.push(&[6]), 1);
    let rest = ring.drain_batch(10);
    assert_eq!(rest, vec![2, 3, 4, 5, 6]);
    assert_eq!(ring.try_pop(), None);
}

#[test]
fn ring_short_push_when_nearly_full() {
    let mut ring = SampleRing::new(4);
    assert_eq!(ring.push(&[1, 2, 3]), 3);
    assert_eq!(ring.push(&[7, 8, 9]), 1);
    assert_eq!(ring.drain_batch(2), vec![1, 2]);
    assert_eq!(ring.drain_batch(5), vec![3, 7]);
    assert_eq!(ring.push(&[]), 0);
}

#[test]
fn resample_constant_44100_to_16000() {
    let batches: Vec<Vec<i16>> = (0..10).map(|_| vec![1234i16; 4096]).collect();
    let out = run_batches(44100, &batches);
    let expected = 40960.0f64 * 16000.0 / 44100.0;
    assert!((out.len() as f64 - expected).abs() <= 1.0);
    assert_eq!(out.len(), 14861);
    assert!(out.iter().all(|&s| s == 1234));
}

#[test]
fn resample_same_rate_is_identity() {
    let mut r = StreamingResampler::new(16000, 16000);
    let a: Vec<i16> = vec![5, -7, 32767, -32768, 0];
    assert_eq!(r.resample(&a), a);
    assert_eq!(r.resample(&[9]), vec![9]);
}

#[test]
fn resample_batch_boundaries_do_not_matter() {
    let signal: Vec<i16> = (0..3000).map(|i| ((i * 37) % 2000 - 1000) as i16).collect();
    let whole = run_batches(48000, &[signal.clone()]);
    let split = run_batches(
        48000,
        &[signal[..1].to_vec(), signal[1..777].to_vec(), Vec::new(), signal[777..].to_vec()],
    );
    assert_eq!(whole, split);
    let mut bits = Vec::new();
    for c in signal.chunks(7) {
        bits.push(c.to_vec());
    }
    assert_eq!(run_batches(48000, &bits), whole);
    assert_eq!(whole.len(), 1000);
}

#[test]
fn resample_upsampling_interpolates() {
    let mut r = StreamingResampler::new(8000, 16000);
    assert_eq!(r.resample(&[0, 100]), vec![0, 50, 100]);
    assert_eq!(r.resample(&[-100]), vec![0, -100]);
}

#[test]
fn resample_downsampling_picks_positions() {
    let mut r = StreamingResampler::new(48000, 16000);
    assert_eq!(r.resample(&[10, 20, 30, 40, 50, 60, 70]), vec![10, 40, 70]);
    assert_eq!(r.native_rate(), 48000);
    assert_eq!(r.target_rate(), 16000);
}

#[test]
fn suppressor_hangover_holds_send() {
    let cfg = SilenceSuppressionConfig {
        rms_threshold: 100,
        hangover_frames: 3,
        silence_mode: SilenceMode::Suppress,
    };
    let mut s = SilenceSuppressor::new(cfg);
    let loud = vec![1000i16; 8];
    let quiet = vec![0i16; 8];
    let mut kinds = Vec::new();
    let pattern = [false, true, false, true, false, false, false, false, true, false];
    for &l in &pattern {
        let frame = if l { &loud } else { &quiet };
        kinds.push(match s.process(frame) {
            FrameAction::Send(a) => {
                assert_eq!(&a, frame);
                'S'
            }
            FrameAction::SendSilence => 'Z',
            FrameAction::Suppress => '-',
        });
    }
    let got: String = kinds.into_iter().collect();
    assert_eq!(got, "-SSSSSS-SS");
    assert_eq!(s.current_state(), VoiceState::Hangover(2));
}

#[test]
fn suppressor_send_silence_mode() {
    let mut s = SilenceSuppressor::new(SilenceSuppressionConfig::for_microphone());
    assert!(matches!(s.process(&[0i16; 4]), FrameAction::SendSilence));
    assert!(matches!(s.process(&[5000i16; 4]), FrameAction::Send(_)));
    assert_eq!(s.current_state(), VoiceState::Voice);
}

#[test]
fn profiles_classify_low_level_differently() {
    let frame = vec![100i16; 320];
    let mic = SilenceSuppressionConfig::for_microphone();
    let sys = SilenceSuppressionConfig::for_system_audio();
    assert!(frame_is_loud(&frame, sys.rms_threshold));
    assert!(!frame_is_loud(&frame, mic.rms_threshold));
    assert_eq!(mic.silence_mode, sys.silence_mode);
}

#[test]
fn energy_threshold_is_strict() {
    assert!(!frame_is_loud(&[3, -3], 3));
    assert!(frame_is_loud(&[3, -4], 3));
    assert!(!frame_is_loud(&[], 0));
}

#[test]
fn silence_frame_is_zeros() {
    let f = generate_silence_frame(FRAME_SAMPLES);
    assert_eq!(f.len(), FRAME_SAMPLES);
    assert!(f.iter().all(|&x| x == 0));
}

#[test]
fn pcm_little_endian_bytes() {
    assert_eq!(encode_pcm16_le(&[1, -1, 256, -32768]), vec![1, 0, 255, 255, 0, 1, 0, 128]);
}

#[test]
fn assembler_keeps_partial_frame() {
    let mut a = FrameAssembler::new();
    let samples: Vec<i16> = (0..(FRAME_SAMPLES + 10)).map(|i| i as i16).collect();
    a.push_samples(&samples[..100]);
    assert!(a.pop_frame().is_none());
    a.push_samples(&samples[100..]);
    let f = a.pop_frame().unwrap();
    assert_eq!(f, samples[..FRAME_SAMPLES].to_vec());
    assert_eq!(a.pending_len(), 10);
    assert!(a.pop_frame().is_none());
}

#[test]
fn pipeline_delivers_whole_frames_only() {
    let mut p = DspPipeline::new(16000, SilenceSuppressionConfig::for_microphone(), false);
    let raw: Vec<i16> = (0..700).map(|i| (i % 100) as i16).collect();
    let frames = p.process_batch(&raw[..500]);
    assert_eq!(frames.len(), 1);
    assert_eq!(frames[0], raw[..320].to_vec());
    assert_eq!(p.pending_len(), 180);
    let frames = p.process_batch(&raw[500..]);
    assert_eq!(frames.len(), 1);
    assert_eq!(frames[0], raw[320..640].to_vec());
    assert_eq!(p.pending_len(), 60);
}

#[test]
fn pipeline_with_suppression_routes_frames() {
    let mut p = DspPipeline::new(16000, SilenceSuppressionConfig::for_microphone(), true);
    let quiet = vec![0i16; FRAME_SAMPLES];
    let frames = p.process_batch(&quiet);
    assert_eq!(frames, vec![vec![0i16; FRAME_SAMPLES]]);
    let loud = vec![3000i16; FRAME_SAMPLES * 2];
    let frames = p.process_batch(&loud);
    assert_eq!(frames.len(), 2);
    assert!(frames.iter().all(|f| f.len() == FRAME_SAMPLES && f[0] == 3000));
}

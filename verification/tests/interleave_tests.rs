use scrybe_core::pipeline::interleave::StereoInterleaver;
use scrybe_core::types::FrameSource;

fn push_mono(iv: &mut StereoInterleaver<f32>, samples: &[f32], source: FrameSource, ts: u64) {
    iv.push(source, 48_000, 1, ts, samples.to_vec()).unwrap();
}

/// Averages interleaved multi-channel samples down to mono, as the
/// capture side does before handing frames to the interleaver.
fn downmix(samples: &[f32], channels: usize) -> Vec<f32> {
    let inv = 1.0_f32 / channels as f32;
    samples
        .chunks_exact(channels)
        .map(|chunk| chunk.iter().sum::<f32>() * inv)
        .collect()
}

#[test]
fn test_interleaver_aligned_frames_emit_interleaved_lr_pairs() {
    let mut iv = StereoInterleaver::<f32>::new(48_000, 200);
    let mic_samples: Vec<f32> = (0..480).map(|i| i as f32 * 0.001).collect();
    let sys_samples: Vec<f32> = (0..480).map(|i| -(i as f32) * 0.001).collect();
    push_mono(&mut iv, &mic_samples, FrameSource::Mic, 0);
    push_mono(&mut iv, &sys_samples, FrameSource::System, 0);
    let out = iv.drain();
    assert_eq!(out.len(), 960);
    for i in 0..480 {
        assert!((out[i * 2] - mic_samples[i]).abs() < 1e-9);
        assert!((out[i * 2 + 1] - sys_samples[i]).abs() < 1e-9);
    }
}

#[test]
fn test_interleaver_below_min_drain_samples_returns_empty() {
    let mut iv = StereoInterleaver::<f32>::new(48_000, 200);
    push_mono(&mut iv, &[0.5_f32; 100], FrameSource::Mic, 0);
    push_mono(&mut iv, &[0.5_f32; 100], FrameSource::System, 0);
    assert!(iv.drain().is_empty());
    assert_eq!(iv.mic_len(), 100);
    assert_eq!(iv.sys_len(), 100);
}

#[test]
fn test_interleaver_one_side_lag_within_tolerance_waits() {
    let mut iv = StereoInterleaver::<f32>::new(48_000, 200);
    push_mono(&mut iv, &[1.0_f32; 480], FrameSource::Mic, 0);
    let out = iv.drain();
    assert!(out.is_empty());
    assert_eq!(iv.mic_len(), 480);
}

#[test]
fn test_interleaver_one_side_lag_over_tolerance_zero_fills() {
    let mut iv = StereoInterleaver::<f32>::new(48_000, 5);
    push_mono(&mut iv, &[0.7_f32; 480], FrameSource::Mic, 0);
    let out = iv.drain();
    assert_eq!(out.len(), 960);
    for i in 0..480 {
        assert!((out[i * 2] - 0.7).abs() < 1e-9);
        assert!(out[i * 2 + 1].abs() < 1e-9);
    }
    assert_eq!(iv.mic_len(), 0);
    assert_eq!(iv.sys_len(), 0);
}

#[test]
fn test_interleaver_finish_zero_fills_shorter_side() {
    let mut iv = StereoInterleaver::<f32>::new(48_000, 200);
    push_mono(&mut iv, &[0.3_f32; 1000], FrameSource::Mic, 0);
    push_mono(&mut iv, &[0.4_f32; 600], FrameSource::System, 0);
    let out = iv.finish();
    assert_eq!(out.len(), 2000);
    for i in 0..600 {
        assert!((out[i * 2] - 0.3).abs() < 1e-9);
        assert!((out[i * 2 + 1] - 0.4).abs() < 1e-9);
    }
    for i in 600..1000 {
        assert!((out[i * 2] - 0.3).abs() < 1e-9);
        assert!(out[i * 2 + 1].abs() < 1e-9);
    }
}

#[test]
fn test_interleaver_finish_with_empty_rings_returns_empty() {
    let mut iv = StereoInterleaver::<f32>::new(48_000, 200);
    assert!(iv.finish().is_empty());
}

#[test]
fn test_interleaver_rejects_mixed_source_frames() {
    let mut iv = StereoInterleaver::<f32>::new(48_000, 200);
    let err = iv
        .push(FrameSource::Mixed, 48_000, 1, 0, vec![0.0_f32; 100])
        .unwrap_err();
    let msg = err.to_string();
    assert!(msg.contains("Mixed"), "expected Mixed rejection, got {msg}");
}

#[test]
fn test_interleaver_rejects_sample_rate_mismatch() {
    let mut iv = StereoInterleaver::<f32>::new(48_000, 200);
    let err = iv
        .push(FrameSource::Mic, 44_100, 1, 0, vec![0.0_f32; 100])
        .unwrap_err();
    assert!(err.to_string().contains("44100"));
}

#[test]
fn test_interleaver_rejects_zero_channel_frames() {
    let mut iv = StereoInterleaver::<f32>::new(48_000, 200);
    let err = iv
        .push(FrameSource::Mic, 48_000, 0, 0, Vec::new())
        .unwrap_err();
    assert!(err.to_string().contains("zero channels"));
}

#[test]
fn test_interleaver_downmixes_stereo_per_source_frames_to_mono() {
    let mut iv = StereoInterleaver::<f32>::new(48_000, 200);
    let stereo_samples: Vec<f32> = (0..480).flat_map(|_| [1.0_f32, 0.0_f32]).collect();
    let sys_samples: Vec<f32> = (0..480).flat_map(|_| [-0.5_f32, -0.5_f32]).collect();
    iv.push(FrameSource::Mic, 48_000, 2, 0, downmix(&stereo_samples, 2))
        .unwrap();
    iv.push(FrameSource::System, 48_000, 2, 0, downmix(&sys_samples, 2))
        .unwrap();
    let out = iv.drain();
    assert_eq!(out.len(), 960, "expected 480 stereo pairs after downmix");
    for pair in out.chunks_exact(2) {
        assert!((pair[0] - 0.5).abs() < 1e-6, "L channel should carry mic downmix 0.5, got {}", pair[0]);
        assert!((pair[1] + 0.5).abs() < 1e-6, "R channel should carry system downmix -0.5, got {}", pair[1]);
    }
}

#[test]
fn test_interleaver_drain_empty_when_no_frames_pushed() {
    let mut iv = StereoInterleaver::<f32>::new(48_000, 200);
    assert!(iv.drain().is_empty());
}

#[test]
fn test_interleaver_drops_mic_head_samples_when_mic_starts_before_sys() {
    let mut iv = StereoInterleaver::<f32>::new(48_000, 200);
    let mic_samples: Vec<f32> = (0..600).map(|i| i as f32 * 0.001).collect();
    let sys_samples: Vec<f32> = (0..600).map(|i| -(i as f32) * 0.001).collect();
    push_mono(&mut iv, &mic_samples, FrameSource::Mic, 0);
    push_mono(&mut iv, &sys_samples, FrameSource::System, 1_000_000);
    let out = iv.drain();
    assert_eq!(out.len(), 552 * 2);
    let first_l = out[0];
    let expected_l = mic_samples[48];
    assert!((first_l - expected_l).abs() < 1e-6, "L[0] should be mic[48]={expected_l}, got {first_l}");
    let first_r = out[1];
    let expected_r = sys_samples[0];
    assert!((first_r - expected_r).abs() < 1e-6, "R[0] should be sys[0]={expected_r}, got {first_r}");
}

#[test]
fn test_interleaver_drops_sys_head_samples_when_sys_starts_before_mic() {
    let mut iv = StereoInterleaver::<f32>::new(48_000, 200);
    let mic_samples: Vec<f32> = (0..600).map(|i| i as f32 * 0.001).collect();
    let sys_samples: Vec<f32> = (0..600).map(|i| -(i as f32) * 0.001).collect();
    push_mono(&mut iv, &sys_samples, FrameSource::System, 0);
    push_mono(&mut iv, &mic_samples, FrameSource::Mic, 1_000_000);
    let out = iv.drain();
    assert_eq!(out.len(), 552 * 2);
    let first_l = out[0];
    let expected_l = mic_samples[0];
    assert!((first_l - expected_l).abs() < 1e-6, "L[0] should be mic[0]={expected_l}, got {first_l}");
    let first_r = out[1];
    let expected_r = sys_samples[48];
    assert!((first_r - expected_r).abs() < 1e-6, "R[0] should be sys[48]={expected_r}, got {first_r}");
}

#[test]
fn test_interleaver_bridges_intra_source_gap_with_zero_padding() {
    let mut iv = StereoInterleaver::<f32>::new(48_000, 200);
    push_mono(&mut iv, &[1.0_f32; 480], FrameSource::Mic, 0);
    push_mono(&mut iv, &[1.0_f32; 480], FrameSource::Mic, 20_000_000);
    assert_eq!(
        iv.mic_len(),
        480 + 480 + 480,
        "expected 1440 samples (480 frame + 480 zeros + 480 frame), got {}",
        iv.mic_len()
    );
    let mid_zeros: Vec<f32> = iv.mic_samples().iter().skip(480).take(480).copied().collect();
    assert!(mid_zeros.iter().all(|&s| s == 0.0));
}

#[test]
fn test_interleaver_skips_overlapping_prefix_when_frame_predates_ring_tail() {
    let mut iv = StereoInterleaver::<f32>::new(48_000, 200);
    push_mono(&mut iv, &[0.1_f32; 480], FrameSource::Mic, 0);
    push_mono(&mut iv, &[0.9_f32; 480], FrameSource::Mic, 5_000_000);
    assert_eq!(iv.mic_len(), 480 + 240);
    let last_240: Vec<f32> = iv.mic_samples().iter().skip(480).copied().collect();
    assert!(last_240.iter().all(|&s| (s - 0.9).abs() < 1e-9));
}

#[test]
fn test_interleaver_steady_state_pairing_matches_wall_clock() {
    let mut iv = StereoInterleaver::<f32>::new(48_000, 200);
    push_mono(&mut iv, &[0.5_f32; 480], FrameSource::Mic, 0);
    push_mono(&mut iv, &[-0.5_f32; 480], FrameSource::System, 0);
    let _ = iv.drain();
    assert_eq!(iv.mic_head_ns(), Some(10_000_000));
    assert_eq!(iv.sys_head_ns(), Some(10_000_000));
    push_mono(&mut iv, &[0.5_f32; 480], FrameSource::Mic, 10_000_000);
    push_mono(&mut iv, &[-0.5_f32; 480], FrameSource::System, 10_000_000);
    let out2 = iv.drain();
    assert_eq!(out2.len(), 960);
    assert_eq!(iv.mic_head_ns(), Some(20_000_000));
    assert_eq!(iv.sys_head_ns(), Some(20_000_000));
}

#[test]
fn test_interleaver_zero_fill_anchors_missing_head_to_partner() {
    let mut iv = StereoInterleaver::<f32>::new(48_000, 5);
    push_mono(&mut iv, &[0.7_f32; 480], FrameSource::Mic, 0);
    let _ = iv.drain();
    assert_eq!(iv.sys_head_ns(), Some(10_000_000));
    assert_eq!(iv.mic_head_ns(), Some(10_000_000));
}

#[test]
fn interleaver_gap_padding_is_capped_at_max_lag() {
    // 5 ms tolerance = 240 samples; a 100 ms gap pads only 240 zeros.
    let mut iv = StereoInterleaver::<i16>::new(48_000, 5);
    iv.push(FrameSource::System, 48_000, 1, 0, vec![7_i16; 480]).unwrap();
    iv.push(FrameSource::System, 48_000, 1, 110_000_000, vec![9_i16; 10]).unwrap();
    let ring = iv.sys_samples();
    assert_eq!(ring.len(), 480 + 240 + 10);
    assert!(ring[480..720].iter().all(|&s| s == 0));
    assert!(ring[720..].iter().all(|&s| s == 9));
}

#[test]
fn interleaver_finish_pairs_every_sample_and_empties_both_sides() {
    let mut iv = StereoInterleaver::<i16>::new(16_000, 200);
    iv.push(FrameSource::Mic, 16_000, 1, 0, vec![1, 2, 3]).unwrap();
    iv.push(FrameSource::System, 16_000, 1, 0, vec![4]).unwrap();
    let out = iv.finish();
    assert_eq!(out, vec![1, 4, 2, 0, 3, 0]);
    assert_eq!(iv.mic_len(), 0);
    assert_eq!(iv.sys_len(), 0);
}

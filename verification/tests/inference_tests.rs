use vad_rs::detector::DetectorConfig;
use vad_rs::inference::energy::EnergyModel;
use vad_rs::inference::onnx::silero_frame_config;
use vad_rs::inference::ten_vad::{
    overwrite_prefix, pitch_lag_range, slide_window, triangular_filterbank, FilterWeight,
};
use vad_rs::inference::{config_for_model, ModelKind};

#[test]
fn energy_model_geometry() {
    let m = EnergyModel::new();
    assert_eq!(m.sample_rate(), 16000);
    assert_eq!(m.frame_size(), 512);
}

#[test]
fn model_names() {
    assert_eq!(ModelKind::from_name("energy"), Some(ModelKind::Energy));
    assert_eq!(ModelKind::from_name("silero"), Some(ModelKind::Silero));
    assert_eq!(ModelKind::from_name("ten_vad"), Some(ModelKind::TenVad));
    assert_eq!(ModelKind::from_name("Silero"), None);
    assert_eq!(ModelKind::from_name(""), None);
    assert_eq!(ModelKind::from_name("energy "), None);
    assert_eq!(ModelKind::from_name("ten-vad"), None);
}

#[test]
fn silero_runs_natively_at_8k_and_16k() {
    assert_eq!(silero_frame_config(8000), (8000, 256));
    assert_eq!(silero_frame_config(16000), (16000, 512));
    assert_eq!(silero_frame_config(48000), (16000, 512));
}

#[test]
fn model_rates_and_frames() {
    assert_eq!(ModelKind::Energy.sample_rate(8000), 16000);
    assert_eq!(ModelKind::Energy.frame_size(8000), 512);
    assert_eq!(ModelKind::Silero.sample_rate(8000), 8000);
    assert_eq!(ModelKind::Silero.frame_size(8000), 256);
    assert_eq!(ModelKind::TenVad.sample_rate(8000), 16000);
    assert_eq!(ModelKind::TenVad.frame_size(8000), 256);
}

#[test]
fn config_for_each_model() {
    assert_eq!(
        config_for_model(ModelKind::TenVad, 8000, 250, 100, 300),
        DetectorConfig::new(256, 16000, 250, 100, 300)
    );
    assert_eq!(
        config_for_model(ModelKind::Silero, 8000, 250, 100, 300).frame_duration_ms,
        32
    );
}

#[test]
fn filterbank_is_triangular() {
    // Two bands over eight bins with edges 1, 3, 4, 7.
    let fb = triangular_filterbank(&[1, 3, 4, 7], 2, 8);
    let z = FilterWeight { numerator: 0, denominator: 1 };
    let w = |n, d| FilterWeight { numerator: n, denominator: d };
    assert_eq!(fb[0], vec![z, w(0, 2), w(1, 2), w(1, 1), z, z, z, z]);
    assert_eq!(fb[1], vec![z, z, z, w(0, 1), w(3, 3), w(2, 3), w(1, 3), z]);
}

#[test]
fn filterbank_with_repeated_edges() {
    let fb = triangular_filterbank(&[2, 2, 2], 1, 4);
    let z = FilterWeight { numerator: 0, denominator: 1 };
    assert_eq!(fb[0], vec![z, z, z, z]);
}

#[test]
fn sliding_window_keeps_length() {
    let mut buf = vec![1, 2, 3, 4, 5];
    slide_window(&mut buf, &[8, 9]);
    assert_eq!(buf, vec![3, 4, 5, 8, 9]);
    slide_window(&mut buf, &[]);
    assert_eq!(buf, vec![3, 4, 5, 8, 9]);
    slide_window(&mut buf, &[0, 0, 0, 0, 0]);
    assert_eq!(buf, vec![0, 0, 0, 0, 0]);
}

#[test]
fn overwrite_prefix_stops_at_shorter() {
    let mut dst = vec![1, 1, 1, 1];
    overwrite_prefix(&mut dst, &[7, 8]);
    assert_eq!(dst, vec![7, 8, 1, 1]);
    overwrite_prefix(&mut dst, &[5, 5, 5, 5, 5, 5]);
    assert_eq!(dst, vec![5, 5, 5, 5]);
}

#[test]
fn pitch_lags() {
    assert_eq!(pitch_lag_range(768), (32, 266));
    assert_eq!(pitch_lag_range(100), (32, 50));
}

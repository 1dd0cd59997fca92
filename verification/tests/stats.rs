use brush::stats::{
    bytes_format, memory_stat_rows, panel_sections, unit_divisor, unit_exponent, PanelSection,
    StatsMessage, StatsPanel,
};

/// A byte count shown as the panel shows it, with the floating-point pieces
/// computed as the program computes them.
fn shown(bytes: u64) -> String {
    let size = bytes as f64;
    let log_floor = size.log(1000.0).floor() as usize;
    let divisor = unit_divisor(unit_exponent(log_floor));
    let scaled = format!("{:.2}", size / divisor as f64);
    bytes_format(bytes, log_floor, &scaled)
}

fn rows(v: Vec<(String, String)>) -> Vec<(String, String)> {
    v
}

fn pair(a: &str, b: &str) -> (String, String) {
    (a.to_string(), b.to_string())
}

#[test]
fn bytes_format_small_counts() {
    assert_eq!(shown(0), "0 B");
    assert_eq!(shown(7), "7 B");
    assert_eq!(shown(999), "999 B");
    assert_eq!(bytes_format(999, 5, "ignored"), "999 B");
}

#[test]
fn bytes_format_scaled_counts() {
    assert_eq!(shown(1000), "1.00 KB");
    assert_eq!(shown(1005), "1.00 KB");
    assert_eq!(shown(1500), "1.50 KB");
    assert_eq!(shown(1_234_567), "1.23 MB");
    assert_eq!(shown(999_999), "1000.00 KB");
    assert_eq!(shown(5_000_000_000), "5.00 GB");
    assert_eq!(shown(2_500_000_000_000), "2.50 TB");
    assert_eq!(shown(3_000_000_000_000_000), "3.00 PB");
    assert_eq!(shown(u64::MAX), "18.45 EB");
}

#[test]
fn bytes_format_uses_given_pieces() {
    assert_eq!(bytes_format(1_000_000, 0, "1000.00"), "1000.00 KB");
    assert_eq!(bytes_format(1_000_000, 2, "1.00"), "1.00 MB");
    assert_eq!(bytes_format(1_000_000, 8, "x"), "x YB");
}

#[test]
fn unit_exponents_and_divisors() {
    assert_eq!(unit_exponent(0), 1);
    assert_eq!(unit_exponent(3), 3);
    assert_eq!(unit_divisor(0), 1);
    assert_eq!(unit_divisor(1), 1000);
    assert_eq!(unit_divisor(6), 1_000_000_000_000_000_000);
}

#[test]
fn stats_panel_follows_messages() {
    let mut panel = StatsPanel::default();
    assert_eq!(panel.heading(), "Model Stats");
    panel.on_message(StatsMessage::TrainStep { iter: 42, total_elapsed_secs: 65 });
    panel.on_message(StatsMessage::Dataset { train_views: 100, eval_views: Some(12) });
    panel.on_message(StatsMessage::EvalResult { summary: "25.00 PSNR, 0.900 SSIM".to_string() });
    assert_eq!(panel.last_train_step, (65, 42));
    assert_eq!(panel.train_eval_views, (100, 12));
    assert_eq!(panel.last_eval.as_deref(), Some("25.00 PSNR, 0.900 SSIM"));
    assert_eq!(
        rows(panel.training_stat_rows()),
        vec![
            pair("Train step", "42"),
            pair("Last eval", "25.00 PSNR, 0.900 SSIM"),
            pair("Training time", "1m 5s"),
            pair("Dataset views", "100"),
            pair("Dataset eval views", "12"),
        ]
    );
    panel.on_message(StatsMessage::StartLoading);
    assert_eq!(panel.last_eval, None);
    panel.on_message(StatsMessage::DoneTraining);
    assert!(panel.training_complete);
    assert_eq!(panel.heading(), "Final Model Stats");
    panel.on_message(StatsMessage::SplatsUpdated);
    panel.on_message(StatsMessage::Other);
    assert!(panel.training_complete);
}

#[test]
fn stats_panel_new_process_resets() {
    let mut panel = StatsPanel::default();
    panel.on_message(StatsMessage::TrainStep { iter: 3, total_elapsed_secs: 9 });
    panel.on_message(StatsMessage::Dataset { train_views: 5, eval_views: None });
    panel.on_message(StatsMessage::DoneTraining);
    panel.frames = 4;
    panel.on_message(StatsMessage::NewProcess);
    assert_eq!(panel.last_eval, None);
    assert_eq!(panel.frames, 0);
    assert_eq!(panel.last_train_step, (0, 0));
    assert_eq!(panel.train_eval_views, (0, 0));
    assert!(!panel.training_complete);
    assert_eq!(
        rows(panel.training_stat_rows()),
        vec![
            pair("Train step", "0"),
            pair("Last eval", "--"),
            pair("Training time", "0s"),
            pair("Dataset views", "0"),
            pair("Dataset eval views", "0"),
        ]
    );
}

#[test]
fn stats_panel_dataset_without_eval_split() {
    let mut panel = StatsPanel::default();
    panel.on_message(StatsMessage::Dataset { train_views: 7, eval_views: None });
    assert_eq!(panel.train_eval_views, (7, 0));
}

#[test]
fn stats_panel_model_rows() {
    let mut panel = StatsPanel::default();
    assert_eq!(
        rows(panel.model_stat_rows(1234, 3)),
        vec![pair("Splats", "1234"), pair("SH Degree", "3")]
    );
    panel.frames = 2;
    assert_eq!(
        rows(panel.model_stat_rows(0, 0)),
        vec![pair("Splats", "0"), pair("SH Degree", "0"), pair("Frames", "2")]
    );
}

#[test]
fn stats_training_time_uses_humantime() {
    let mut panel = StatsPanel::default();
    panel.on_message(StatsMessage::TrainStep { iter: 1, total_elapsed_secs: 3723 });
    let r = panel.training_stat_rows();
    assert_eq!(r[2], pair("Training time", "1h 2m 3s"));
}

#[test]
fn stats_memory_rows() {
    assert_eq!(
        memory_stat_rows(shown(512), shown(2_048_000), 17),
        vec![
            pair("Bytes in use", "512 B"),
            pair("Bytes reserved", "2.05 MB"),
            pair("Active allocations", "17"),
        ]
    );
}

fn training_time(secs: u64) -> String {
    let mut panel = StatsPanel::default();
    panel.on_message(StatsMessage::TrainStep { iter: 1, total_elapsed_secs: secs });
    panel.training_stat_rows()[2].1.clone()
}

#[test]
fn training_time_parts() {
    assert_eq!(training_time(0), "0s");
    assert_eq!(training_time(59), "59s");
    assert_eq!(training_time(3600), "1h");
    assert_eq!(training_time(90_061), "1day 1h 1m 1s");
    assert_eq!(training_time(2 * 86_400 + 5), "2days 5s");
    assert_eq!(training_time(63_115_200), "2years");
    assert_eq!(training_time(31_557_600 + 2 * 2_630_016), "1year 2months");
}

#[test]
fn gpu_rows() {
    assert_eq!(
        brush::stats::gpu_info_rows("RTX", "DiscreteGpu", "nvidia", "550.1"),
        vec![pair("Name", "RTX"), pair("Type", "DiscreteGpu"), pair("Driver", "nvidia, 550.1")]
    );
}

#[test]
fn panel_sections_follow_training_and_device() {
    assert_eq!(panel_sections(false, false, false, true), vec![PanelSection::ModelStats]);
    assert_eq!(panel_sections(true, false, false, true), vec![PanelSection::ModelStats, PanelSection::TrainingStats]);
    assert_eq!(
        panel_sections(true, true, false, true),
        vec![PanelSection::ModelStats, PanelSection::TrainingStats, PanelSection::GpuMemory, PanelSection::GpuInfo]
    );
    assert_eq!(panel_sections(false, true, true, true), vec![PanelSection::ModelStats, PanelSection::GpuMemory]);
    assert_eq!(panel_sections(false, true, false, false), vec![PanelSection::ModelStats, PanelSection::GpuMemory]);
}

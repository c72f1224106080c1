use bladerf_adsb::radio::{
    default_fpga_path, fpga_image_path, rx_module_config, status_code, status_with,
    transfer_count, BladeRFConfig, FpgaSize, GainMode, iq,
};

#[test]
fn gain_modes_are_read_from_their_names() {
    assert_eq!(GainMode::from_name("default"), GainMode::Default);
    assert_eq!(GainMode::from_name("manual"), GainMode::Manual);
    assert_eq!(GainMode::from_name("fast"), GainMode::FastAttackAgc);
    assert_eq!(GainMode::from_name("slow"), GainMode::SlowAttackAgc);
    assert_eq!(GainMode::from_name("hybrid"), GainMode::HybridAgc);
    assert_eq!(GainMode::from_name("other"), GainMode::Default);
    assert!(GainMode::Manual.is_manual());
    assert!(!GainMode::HybridAgc.is_manual());
}

#[test]
fn default_images_follow_fpga_size() {
    assert_eq!(default_fpga_path(FpgaSize::Unknown), None);
    assert_eq!(default_fpga_path(FpgaSize::Kle40).unwrap(), "/usr/share/Nuand/bladeRF/adsbx40.rbf");
    assert_eq!(default_fpga_path(FpgaSize::Kle115).unwrap(), "/usr/share/Nuand/bladeRF/adsbx115.rbf");
    assert_eq!(default_fpga_path(FpgaSize::A4).unwrap(), "/usr/share/Nuand/bladeRF/adsbxA4.rbf");
    assert_eq!(default_fpga_path(FpgaSize::A5).unwrap(), "/usr/share/Nuand/bladeRF/adsbxA5.rbf");
    assert_eq!(default_fpga_path(FpgaSize::A9).unwrap(), "/usr/share/Nuand/bladeRF/adsbxA9.rbf");
}

#[test]
fn configured_image_path_wins() {
    assert_eq!(fpga_image_path("/tmp/x.rbf", FpgaSize::Unknown).unwrap(), "/tmp/x.rbf");
    assert_eq!(fpga_image_path("", FpgaSize::A9).unwrap(), "/usr/share/Nuand/bladeRF/adsbxA9.rbf");
    assert_eq!(fpga_image_path("", FpgaSize::Unknown), None);
}

#[test]
fn status_codes_split_on_sign() {
    assert_eq!(status_code(0), Ok(0));
    assert_eq!(status_code(5), Ok(5));
    assert_eq!(status_code(-7), Err(-7));
    assert_eq!(status_with(0, 42u32), Ok(42));
    assert_eq!(status_with(-1, 42u32), Err(-1));
}

#[test]
fn transfers_default_to_four() {
    assert_eq!(transfer_count(None), 4);
    assert_eq!(transfer_count(Some(1)), 1);
}

#[test]
fn receive_config_carries_tunables() {
    let rx = rx_module_config(1086000000, 14000000, 16000000, GainMode::Manual);
    assert_eq!(rx.frequency, 1086000000);
    assert_eq!(rx.bandwidth, 14000000);
    assert_eq!(rx.sample_rate, 16000000);
    assert_eq!(rx.lna_gain, GainMode::Manual);
    assert_eq!(rx.vga1, 10);
    assert_eq!(rx.vga2, 6);
    let both = BladeRFConfig { tx: rx.clone(), rx };
    assert_eq!(both.tx.frequency, both.rx.frequency);
    let s = iq { i: -3, q: 4 };
    assert_eq!((s.i, s.q), (-3, 4));
}

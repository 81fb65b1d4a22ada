use maolan_player::buffer::{
    max_oss_period_frames, oss_period_options, period_options, small_oss_period_frames,
    DEFAULT_PERIOD_LADDER,
    FALLBACK_PERIOD_FRAMES,
};
use maolan_player::device::{default_period_frames, DeviceDescriptor, Host, Platform};

fn host(platform: Platform) -> Host {
    Host {
        platform,
        sound_unit: None,
        descriptors: Vec::new(),
        pcm_listing: String::new(),
    }
}

#[test]
fn oss_options_grow_by_powers_of_two_up_to_device_max() {
    assert_eq!(oss_period_options(32, 2, 32), Some(vec![1, 2, 4]));
    assert_eq!(max_oss_period_frames(64, 2, 32), Some(8));
}

#[test]
fn oss_options_are_capped_at_64k_fragment() {
    // 2 ch * 2 bytes = 4 bytes/frame; cap 65536 bytes -> 16384 frames.
    assert_eq!(max_oss_period_frames(1 << 20, 2, 16), Some(16_384));
}

#[test]
fn period_options_fall_back_to_default_ladder() {
    assert_eq!(period_options(0, 2, 32), DEFAULT_PERIOD_LADDER.to_vec());
    assert_eq!(period_options(4096, 0, 32), DEFAULT_PERIOD_LADDER.to_vec());
    assert_eq!(
        period_options(4096, 2, 32),
        oss_period_options(4096, 2, 32).unwrap()
    );
}

#[test]
fn non_freebsd_platforms_use_fixed_defaults() {
    for platform in [
        Platform::Linux,
        Platform::Windows,
        Platform::MacOs,
        Platform::OtherUnix,
    ] {
        assert!(default_period_frames(&host(platform), "anything", 32) >= FALLBACK_PERIOD_FRAMES);
    }
    assert_eq!(default_period_frames(&host(Platform::Linux), "x", 32), 65_536);
    assert_eq!(default_period_frames(&host(Platform::MacOs), "x", 32), 1024);
}

#[test]
fn oss_options_need_a_buffer_channels_and_a_known_sample_size() {
    assert_eq!(oss_period_options(0, 2, 32), None);
    assert_eq!(oss_period_options(4096, 0, 32), None);
    assert_eq!(oss_period_options(4096, 2, 20), None);
    assert_eq!(oss_period_options(4096, usize::MAX, 32), None);
    assert_eq!(oss_period_options(4096, 1, 8).map(|o| o.len()), Some(13));
}

#[test]
fn odd_frames_start_at_the_next_power_of_two() {
    // 3 channels of 24 bits: 9 bytes a frame, 16 bytes the first fragment.
    assert_eq!(oss_period_options(64, 3, 24), Some(vec![1, 3, 7]));
    // A buffer below one frame still gives one option.
    assert_eq!(oss_period_options(4, 2, 32), Some(vec![1]));
}

#[test]
fn oss_periods_never_shrink() {
    let options = oss_period_options(1 << 16, 6, 24).unwrap();
    for pair in options.windows(2) {
        assert!(pair[0] <= pair[1]);
    }
}

#[test]
fn freebsd_default_is_the_largest_small_period_of_the_device() {
    let mut freebsd = host(Platform::FreeBsd);
    freebsd.descriptors = vec![
        DeviceDescriptor {
            id: String::from("/dev/dsp0"),
            label: String::from("Line"),
            supports_output: true,
            max_buffer_bytes: 64,
            max_channels: 2,
        },
        DeviceDescriptor {
            id: String::from("/dev/dsp1"),
            label: String::from("Mono"),
            supports_output: false,
            max_buffer_bytes: 64,
            max_channels: 0,
        },
        DeviceDescriptor {
            id: String::from("/dev/dsp2"),
            label: String::from("Large"),
            supports_output: true,
            max_buffer_bytes: 65536,
            max_channels: 2,
        },
    ];
    assert_eq!(default_period_frames(&freebsd, "/dev/dsp0", 32), 8);
    // No channels count as one.
    assert_eq!(default_period_frames(&freebsd, "/dev/dsp1", 32), 16);
    // Larger periods are offered, but not taken by default.
    assert_eq!(default_period_frames(&freebsd, "/dev/dsp2", 32), 1024);
    assert_eq!(max_oss_period_frames(65536, 2, 32), Some(8192));
    // Three channels of 24 bits: 9 bytes a frame.
    assert_eq!(small_oss_period_frames(65536, 3, 24), Some(910));
    assert_eq!(default_period_frames(&freebsd, "/dev/dsp9", 32), 1024);
    assert_eq!(default_period_frames(&freebsd, "/dev/dsp0", -1), 1024);
}

use maolan_player::device::{
    backend_for_device, default_oss_device_id, discover_devices, format_dsp_device,
    parse_alsa_playback_devices, resolve_default_oss_device, sound_unit, tidy_by_texts,
    tidy_devices, Backend, Device, DeviceDescriptor, Host, Platform,
};
use maolan_player::path::SongPath;
use maolan_player::settings::{
    config_dir_at, default_ring_buffer_multiplier, default_title_format, device_override, Level,
    Settings, StoredSettings,
};
use maolan_player::setup::{
    build_setup, device_is_plausible, host_is_plausible, period_options_for, AudioSetup,
};

fn host(platform: Platform) -> Host {
    Host {
        platform,
        sound_unit: None,
        descriptors: Vec::new(),
        pcm_listing: String::new(),
    }
}

fn level(db: f32) -> Level {
    Level { bits: db.to_bits() }
}

fn device(id: &str, label: &str) -> Device {
    Device {
        id: String::from(id),
        label: String::from(label),
        max_buffer_bytes: 0,
        max_channels: 0,
    }
}

fn descriptor(id: &str, label: &str, supports_output: bool) -> DeviceDescriptor {
    DeviceDescriptor {
        id: String::from(id),
        label: String::from(label),
        supports_output,
        max_buffer_bytes: 4096,
        max_channels: 2,
    }
}

fn ids(devices: &[Device]) -> Vec<&str> {
    devices.iter().map(|d| d.id.as_str()).collect()
}

#[test]
fn dsp_unit_formats_device_node() {
    assert_eq!(format_dsp_device(0), "/dev/dsp0");
    assert_eq!(format_dsp_device(5), "/dev/dsp5");
    assert_eq!(format_dsp_device(u32::MAX), "/dev/dsp4294967295");
}

#[test]
fn default_oss_device_uses_sysctl_unit_with_fallback() {
    assert_eq!(resolve_default_oss_device(|| Some(5)), "/dev/dsp5");
    assert_eq!(resolve_default_oss_device(|| None), "/dev/dsp");
    for unit in [None, Some(0), Some(12)] {
        let resolved = default_oss_device_id(unit);
        assert!(resolved.starts_with("/dev/dsp"), "unexpected {resolved}");
    }
}

#[test]
fn sound_unit_needs_success_and_a_number() {
    assert_eq!(sound_unit(0, 3), Some(3));
    assert_eq!(sound_unit(0, -1), None);
    assert_eq!(sound_unit(-1, 3), None);
}

#[test]
fn backend_mapping_round_trips() {
    for platform in [Platform::FreeBsd, Platform::Linux, Platform::MacOs, Platform::OtherUnix] {
        assert_eq!(backend_for_device(platform, "jack"), Backend::Jack);
        assert_eq!(backend_for_device(platform, "JACK"), Backend::Jack);
        assert_eq!(
            backend_for_device(platform, "/dev/dsp0"),
            Backend::default_on(platform),
            "non-jack ids use the platform default backend"
        );
        for backend in Backend::all(platform) {
            let id = backend.default_device_id(None);
            assert!(!id.is_empty());
            if backend.is_jack() {
                assert_eq!(backend_for_device(platform, &id), Backend::Jack);
            } else {
                assert_eq!(backend_for_device(platform, &id), backend);
            }
        }
    }
    assert_eq!(backend_for_device(Platform::Windows, "jack"), Backend::Wasapi);
    assert_eq!(Backend::all(Platform::Windows), vec![Backend::Wasapi]);
    assert_eq!(Backend::Oss.default_device_id(Some(2)), "/dev/dsp2");
    assert_eq!(Backend::Alsa.label(), "ALSA");
    assert_eq!(Backend::Oss.label(), "OSS");
    assert_eq!(Backend::Jack.label(), "JACK");
    assert_eq!(Backend::Wasapi.label(), "WASAPI");
    assert_eq!(Backend::CoreAudio.label(), "CoreAudio");
}

#[test]
fn jack_device_list_is_single_pseudo_device() {
    let devices = discover_devices(Backend::Jack, &host(Platform::Linux));
    assert_eq!(devices.len(), 1);
    assert_eq!(devices[0].id, "jack");
    assert_eq!(devices[0].label, "JACK");
}

#[test]
fn parses_alsa_playback_entries() {
    let contents = "00-00: ALC892 Analog : ALC892 Analog : playback 1 : capture 1\n\
                    00-03: HDMI 0 : HDMI 0 : playback 1\n\
                    bad-line\n";
    let devices = parse_alsa_playback_devices(contents);
    assert_eq!(devices.len(), 2);
    assert_eq!(devices[0].id, "hw:00,00");
    assert_eq!(devices[0].label, "ALC892 Analog (hw:00,00)");
    assert!(devices.iter().all(|d| d.id.starts_with("hw:")));
    assert!(devices.iter().any(|d| d.label.contains("HDMI")));
}

#[test]
fn alsa_lines_that_are_no_playback_device_are_skipped() {
    let contents = "00-01: Mic : Mic : capture 1\n\
                    a-00: X : X : playback 1\n\
                    00: X : playback 1\n\
                    00-99999999999: X : playback 1\n\
                    01-+2-7:: playback 1\r\n";
    let devices = parse_alsa_playback_devices(contents);
    assert_eq!(ids(&devices), vec!["hw:01,+2"]);
    assert_eq!(devices[0].label, "hw:01,+2");
    assert!(parse_alsa_playback_devices("").is_empty());
}

#[test]
fn devices_are_sorted_by_label_and_told_apart_by_id() {
    let listed = vec![
        device("c", "zeta"),
        device("a", "Beta"),
        device("b", "ALPHA"),
        device("a", "beta"),
        device("c", "Zz"),
    ];
    let tidy = tidy_devices(listed.clone());
    assert_eq!(ids(&tidy), vec!["b", "a", "c"]);
    // Of neighbours with the same id the first one stays.
    assert_eq!(tidy[1].label, "Beta");
    assert_eq!(tidy[2].label, "zeta");
    assert!(listed[1] == listed[3]);
    assert!(listed[1] != listed[2]);
    let texts = vec!["5", "4", "3", "2", "1"]
        .into_iter()
        .map(String::from)
        .collect();
    assert_eq!(ids(&tidy_by_texts(listed, &texts)), vec!["c", "a", "b", "a", "c"]);
}

#[test]
fn freebsd_devices_are_those_that_play() {
    let mut freebsd = host(Platform::FreeBsd);
    freebsd.descriptors = vec![
        descriptor("/dev/dsp1", "b", true),
        descriptor("/dev/dsp2", "a", true),
        descriptor("/dev/dsp3", "0", false),
    ];
    let devices = discover_devices(Backend::Oss, &freebsd);
    assert_eq!(ids(&devices), vec!["/dev/dsp2", "/dev/dsp1"]);
    assert_eq!(devices[0].max_buffer_bytes, 4096);
    freebsd.descriptors.clear();
    freebsd.sound_unit = Some(4);
    let devices = discover_devices(Backend::Oss, &freebsd);
    assert_eq!(ids(&devices), vec!["/dev/dsp4"]);
    assert_eq!(devices[0].label, "/dev/dsp4");
}

#[test]
fn other_platforms_offer_the_default_device() {
    assert_eq!(
        ids(&discover_devices(Backend::Wasapi, &host(Platform::Windows))),
        vec!["default"]
    );
    let mut linux = host(Platform::Linux);
    assert_eq!(ids(&discover_devices(Backend::Alsa, &linux)), vec!["default"]);
    linux.pcm_listing = String::from("00-03: HDMI 0 : HDMI 0 : playback 1\n");
    assert_eq!(ids(&discover_devices(Backend::Alsa, &linux)), vec!["hw:00,03"]);
}

fn kept(settings: &Settings) -> Settings {
    let (_, stored) = settings.save(Some(SongPath::new("/home/me"))).expect("save");
    Settings::load(Some(stored), &host(Platform::Linux))
}

#[test]
fn settings_save_load_round_trip() {
    let settings = Settings {
        device_id: String::from("/dev/dsp0"),
        period_frames: 4096,
        n_periods: 2,
        ring_buffer_multiplier: 8,
        volume_db: level(-6.0),
        title_format: default_title_format(),
        loop_playlist: false,
    };
    let (file, stored) = settings
        .save(Some(SongPath::new("/home/me")))
        .expect("save settings");
    assert_eq!(file.display(), "/home/me/.config/maolan/player/config.toml");
    assert_eq!(
        config_dir_at(Some(SongPath::new("/home/me"))).unwrap().display(),
        "/home/me/.config/maolan/player"
    );
    assert_eq!(stored.device_id.as_deref(), Some("/dev/dsp0"));
    assert_eq!(kept(&settings), settings);
    assert_eq!(
        settings.save(None).err(),
        Some(String::from("No home directory."))
    );
    assert!(Settings::store_path_at(None).is_none());
}

#[test]
fn levels_are_the_same_as_floats_are() {
    let samples = [0.0f32, -0.0, 1.0, -1.0, f32::INFINITY, f32::NEG_INFINITY, f32::NAN, -f32::NAN];
    for a in samples {
        for b in samples {
            assert_eq!(level(a) == level(b), a == b, "{a} {b}");
            let mut settings = Settings::default_on(&host(Platform::Linux));
            settings.volume_db = level(a);
            let mut other = settings.clone();
            other.volume_db = level(b);
            assert_eq!(settings == other, a == b, "{a} {b}");
        }
    }
}

#[test]
fn load_returns_defaults_for_missing_or_invalid_file() {
    let linux = host(Platform::Linux);
    let defaults = Settings::default_on(&linux);
    assert_eq!(Settings::load(None, &linux), defaults);
    assert_eq!(defaults.device_id, "default");
    assert_eq!(defaults.period_frames, 65_536);
    assert_eq!(defaults.n_periods, 2);
    assert_eq!(defaults.ring_buffer_multiplier, default_ring_buffer_multiplier());
    assert_eq!(defaults.volume_db, level(0.0));
    assert_eq!(defaults.title_format, "{artist} - {song}");
    assert!(!defaults.loop_playlist);
}

#[test]
fn missing_settings_take_their_defaults() {
    let stored = StoredSettings {
        device_id: Some(String::from("jack")),
        period_frames: None,
        n_periods: None,
        ring_buffer_multiplier: Some(3),
        volume_db: None,
        title_format: None,
        loop_playlist: Some(true),
    };
    let settings = Settings::load(Some(stored), &host(Platform::MacOs));
    assert_eq!(settings.device_id, "jack");
    assert_eq!(settings.period_frames, 1024);
    assert_eq!(settings.ring_buffer_multiplier, 3);
    assert_eq!(settings.title_format, default_title_format());
    assert!(settings.loop_playlist);
}

#[test]
fn device_override_replaces_only_device() {
    let settings = Settings {
        device_id: String::from("/dev/dsp0"),
        period_frames: 2048,
        n_periods: 2,
        ring_buffer_multiplier: 8,
        volume_db: level(0.0),
        title_format: default_title_format(),
        loop_playlist: false,
    };
    let overridden = settings.with_device_override("jack");
    assert_eq!(overridden.device_id, "jack");
    assert_eq!(overridden.period_frames, 2048);
    assert_eq!(overridden.n_periods, 2);
    assert_eq!(
        overridden.open_action(),
        (String::from("jack"), 2048, 2)
    );
    assert!(overridden != settings);
}

#[test]
fn the_command_line_wins_over_the_environment() {
    let some = |text: &str| Some(String::from(text));
    assert_eq!(device_override(some("a"), some("b")), some("a"));
    assert_eq!(device_override(None, some("b")), some("b"));
    assert_eq!(device_override(None, None), None);
}

fn freebsd_with_two() -> Host {
    let mut freebsd = host(Platform::FreeBsd);
    freebsd.descriptors = vec![
        descriptor("/dev/dsp0", "a", true),
        DeviceDescriptor {
            max_buffer_bytes: 64,
            ..descriptor("/dev/dsp1", "b", true)
        },
    ];
    freebsd
}

fn opened(device_id: &str, period_frames: usize) -> AudioSetup {
    let freebsd = freebsd_with_two();
    let mut settings = Settings::default_on(&freebsd).with_device_override(device_id);
    settings.period_frames = period_frames;
    build_setup(&settings, &freebsd)
}

#[test]
fn settings_screen_opens_with_the_settings() {
    let setup = opened("/dev/dsp1", 4);
    assert_eq!(setup.backends, vec![Backend::Oss, Backend::Jack]);
    assert_eq!(setup.selected_backend, Backend::Oss);
    assert_eq!(ids(&setup.output_devices), vec!["/dev/dsp0", "/dev/dsp1"]);
    assert_eq!(setup.selected_output_device.as_ref().unwrap().id, "/dev/dsp1");
    assert_eq!(setup.period_frames, vec![1, 2, 4, 8]);
    assert_eq!(setup.selected_period_frames, Some(4));
    // A device that is gone, and a period that is not offered.
    let other = opened("/dev/dsp9", 7);
    assert_eq!(other.selected_output_device.as_ref().unwrap().id, "/dev/dsp0");
    assert_eq!(other.selected_period_frames, Some(512));
    // JACK has no buffer to tell of.
    let jack = opened("Jack", 128);
    assert_eq!(jack.selected_backend, Backend::Jack);
    assert_eq!(jack.selected_period_frames, Some(128));
    assert_eq!(jack.period_frames, period_options_for(None));
}

#[test]
fn devices_with_absurdly_many_channels_are_told() {
    let mut freebsd = freebsd_with_two();
    assert!(host_is_plausible(&freebsd));
    freebsd.descriptors[1].max_channels = usize::MAX / 4;
    assert!(!host_is_plausible(&freebsd));
    let mut wide = device("/dev/dsp0", "wide");
    assert!(device_is_plausible(&wide));
    wide.max_channels = usize::MAX;
    assert!(!device_is_plausible(&wide));
}

#[test]
fn settings_screen_follows_choices() {
    let mut setup = opened("/dev/dsp0", 256);
    setup.select_device(device("/dev/dsp7", "big"));
    assert_eq!(setup.selected_period_frames, Some(256));
    let small = opened("/dev/dsp1", 8).selected_output_device.unwrap();
    setup.select_device(small);
    // The period is not offered any more: the largest one is.
    assert_eq!(setup.selected_period_frames, Some(8));
    setup.select_backend(Backend::Jack, &freebsd_with_two());
    assert_eq!(setup.selected_backend, Backend::Jack);
    assert_eq!(ids(&setup.output_devices), vec!["jack"]);
    assert_eq!(setup.selected_period_frames, Some(65_536));
    assert_eq!(setup.chosen_device_id(None), "jack");
    assert_eq!(setup.chosen_period_frames(), 65_536);
    setup.selected_output_device = None;
    setup.selected_period_frames = None;
    assert_eq!(setup.chosen_device_id(None), "jack");
    assert_eq!(setup.chosen_period_frames(), 1024);
}

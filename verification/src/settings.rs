//! Audio settings and where they are kept.
use vstd::prelude::*;
use vstd::string::*;
use vstd::utf8::encode_utf8;

use crate::device::{
    default_device_name, default_fragment_exists, default_period, default_period_frames, Backend,
    Host,
};
use crate::path::{joined, SongPath};
use crate::title::text_view;

verus! {

/// The sample size that devices are opened with.
pub const DEFAULT_BITS: i32 = 32;

/// The number of periods that devices are opened with.
pub const DEFAULT_N_PERIODS: usize = 2;

/// A level in dB, by the bits of the 32-bit float that stands for it. The
/// player carries levels and does not compute with them.
#[derive(Debug, Clone, Copy)]
pub struct Level {
    pub bits: u32,
}

/// The bit of the sign of a float.
pub const SIGN_BIT: u32 = 0x8000_0000;

/// The bits of infinity. Those of a float that is no number are larger, but
/// for the sign.
pub const INFINITY_BITS: u32 = 0x7f80_0000;

impl Level {
    /// 0 dB.
    pub open spec fn unity_level() -> Level {
        Level { bits: 0 }
    }

    /// 0 dB.
    pub fn unity() -> (r: Level)
        ensures
            r == Level::unity_level(),
    {
        Level { bits: 0 }
    }

    /// The bits without the sign.
    pub open spec fn size_bits(self) -> int {
        if self.bits >= SIGN_BIT {
            self.bits - SIGN_BIT
        } else {
            self.bits as int
        }
    }

    fn magnitude(self) -> (r: u32)
        ensures
            r == self.size_bits(),
    {
        if self.bits >= SIGN_BIT {
            self.bits - SIGN_BIT
        } else {
            self.bits
        }
    }
}

/// Levels are the same as floats are: zeros of either sign are the same, and
/// what is no number is not the same as anything.
pub open spec fn same_level(a: Level, b: Level) -> bool {
    &&& a.size_bits() <= INFINITY_BITS
    &&& b.size_bits() <= INFINITY_BITS
    &&& a.bits == b.bits || a.size_bits() == 0 && b.size_bits() == 0
}

impl PartialEq for Level {
    fn eq(&self, other: &Self) -> (r: bool) {
        let a: u32 = self.magnitude();
        let b: u32 = other.magnitude();
        a <= INFINITY_BITS && b <= INFINITY_BITS && (self.bits == other.bits || a == 0 && b == 0)
    }
}

impl vstd::std_specs::cmp::PartialEqSpecImpl for Level {
    open spec fn obeys_eq_spec() -> bool {
        true
    }

    open spec fn eq_spec(&self, other: &Self) -> bool {
        same_level(*self, *other)
    }
}

/// The audio settings that are kept between sessions.
#[derive(Debug)]
pub struct Settings {
    pub device_id: String,
    pub period_frames: usize,
    pub n_periods: usize,
    /// The capacity of the streaming rings in periods; 0 leaves it to the
    /// engine.
    pub ring_buffer_multiplier: usize,
    /// The level of the master output.
    pub volume_db: Level,
    /// How song titles are shown.
    pub title_format: String,
    /// Whether the first song follows the last one.
    pub loop_playlist: bool,
}

#[verifier::ext_equal]
pub struct SettingsModel {
    pub device_id: Seq<char>,
    pub period_frames: usize,
    pub n_periods: usize,
    pub ring_buffer_multiplier: usize,
    pub volume_db: Level,
    pub title_format: Seq<char>,
    pub loop_playlist: bool,
}

impl View for Settings {
    type V = SettingsModel;

    open spec fn view(&self) -> SettingsModel {
        SettingsModel {
            device_id: self.device_id@,
            period_frames: self.period_frames,
            n_periods: self.n_periods,
            ring_buffer_multiplier: self.ring_buffer_multiplier,
            volume_db: self.volume_db,
            title_format: self.title_format@,
            loop_playlist: self.loop_playlist,
        }
    }
}

impl Clone for Settings {
    fn clone(&self) -> (r: Self)
        ensures
            r@ == self@,
    {
        Settings {
            device_id: self.device_id.clone(),
            period_frames: self.period_frames,
            n_periods: self.n_periods,
            ring_buffer_multiplier: self.ring_buffer_multiplier,
            volume_db: self.volume_db,
            title_format: self.title_format.clone(),
            loop_playlist: self.loop_playlist,
        }
    }
}

impl PartialEq for Settings {
    fn eq(&self, other: &Self) -> (r: bool) {
        self.device_id == other.device_id && self.period_frames == other.period_frames
            && self.n_periods == other.n_periods && self.ring_buffer_multiplier
            == other.ring_buffer_multiplier && self.volume_db == other.volume_db
            && self.title_format == other.title_format && self.loop_playlist == other.loop_playlist
    }
}

impl vstd::std_specs::cmp::PartialEqSpecImpl for Settings {
    open spec fn obeys_eq_spec() -> bool {
        true
    }

    open spec fn eq_spec(&self, other: &Self) -> bool {
        &&& same_level(self.volume_db, other.volume_db)
        &&& self@ == SettingsModel { volume_db: self.volume_db, ..other@ }
    }
}

pub fn default_ring_buffer_multiplier() -> (r: usize)
    ensures
        r == 8,
{
    8
}

pub fn default_title_format() -> (r: String)
    ensures
        r@ == "{artist} - {song}"@,
{
    "{artist} - {song}".to_owned()
}

/// The settings of a host where none are kept.
pub open spec fn default_settings(host: Host) -> SettingsModel {
    let device_id = default_device_name(host.platform.own_backend(), host.sound_unit);
    SettingsModel {
        device_id,
        period_frames: default_period(host, device_id, DEFAULT_BITS),
        n_periods: DEFAULT_N_PERIODS,
        ring_buffer_multiplier: 8,
        volume_db: Level::unity_level(),
        title_format: "{artist} - {song}"@,
        loop_playlist: false,
    }
}

/// The default device of the host has a smallest fragment, where its buffer
/// decides.
pub open spec fn defaults_exist(host: Host) -> bool {
    default_fragment_exists(
        host,
        default_device_name(host.platform.own_backend(), host.sound_unit),
        DEFAULT_BITS,
    )
}

/// Settings as they are kept: what is missing takes its default.
#[derive(Debug)]
pub struct StoredSettings {
    pub device_id: Option<String>,
    pub period_frames: Option<usize>,
    pub n_periods: Option<usize>,
    pub ring_buffer_multiplier: Option<usize>,
    pub volume_db: Option<Level>,
    pub title_format: Option<String>,
    pub loop_playlist: Option<bool>,
}

#[verifier::ext_equal]
pub struct StoredModel {
    pub device_id: Option<Seq<char>>,
    pub period_frames: Option<usize>,
    pub n_periods: Option<usize>,
    pub ring_buffer_multiplier: Option<usize>,
    pub volume_db: Option<Level>,
    pub title_format: Option<Seq<char>>,
    pub loop_playlist: Option<bool>,
}

impl View for StoredSettings {
    type V = StoredModel;

    open spec fn view(&self) -> StoredModel {
        StoredModel {
            device_id: text_view(self.device_id),
            period_frames: self.period_frames,
            n_periods: self.n_periods,
            ring_buffer_multiplier: self.ring_buffer_multiplier,
            volume_db: self.volume_db,
            title_format: text_view(self.title_format),
            loop_playlist: self.loop_playlist,
        }
    }
}

pub open spec fn or_default<T>(value: Option<T>, default: T) -> T {
    match value {
        Some(value) => value,
        None => default,
    }
}

impl StoredModel {
    /// The settings with the defaults in place of what is missing.
    pub open spec fn filled(self, defaults: SettingsModel) -> SettingsModel {
        SettingsModel {
            device_id: or_default(self.device_id, defaults.device_id),
            period_frames: or_default(self.period_frames, defaults.period_frames),
            n_periods: or_default(self.n_periods, defaults.n_periods),
            ring_buffer_multiplier: or_default(
                self.ring_buffer_multiplier,
                defaults.ring_buffer_multiplier,
            ),
            volume_db: or_default(self.volume_db, defaults.volume_db),
            title_format: or_default(self.title_format, defaults.title_format),
            loop_playlist: or_default(self.loop_playlist, defaults.loop_playlist),
        }
    }
}

impl SettingsModel {
    /// What is kept of settings: all of them.
    pub open spec fn stored(self) -> StoredModel {
        StoredModel {
            device_id: Some(self.device_id),
            period_frames: Some(self.period_frames),
            n_periods: Some(self.n_periods),
            ring_buffer_multiplier: Some(self.ring_buffer_multiplier),
            volume_db: Some(self.volume_db),
            title_format: Some(self.title_format),
            loop_playlist: Some(self.loop_playlist),
        }
    }
}

/// The settings of a file that was read: what it holds, and the defaults
/// where it is missing or not to be understood.
pub open spec fn loaded_settings(stored: Option<StoredModel>, host: Host) -> SettingsModel {
    match stored {
        Some(stored) => stored.filled(default_settings(host)),
        None => default_settings(host),
    }
}

pub open spec fn stored_view(stored: Option<StoredSettings>) -> Option<StoredModel> {
    match stored {
        Some(stored) => Some(stored@),
        None => None,
    }
}

/// The directory of the player's files below the home directory.
pub open spec fn config_path(home: Seq<u8>) -> Seq<u8> {
    joined(joined(joined(home, encode_utf8(".config"@)), encode_utf8("maolan"@)), encode_utf8("player"@))
}

/// A file of the player, where there is a home directory.
pub open spec fn file_path(home: Option<Seq<u8>>, name: Seq<char>) -> Option<Seq<u8>> {
    match home {
        Some(home) => Some(joined(config_path(home), encode_utf8(name))),
        None => None,
    }
}

pub open spec fn path_view(path: Option<SongPath>) -> Option<Seq<u8>> {
    match path {
        Some(path) => Some(path@),
        None => None,
    }
}

/// The directory of the player's files.
pub fn config_dir_at(home: Option<SongPath>) -> (r: Option<SongPath>)
    ensures
        match path_view(home) {
            Some(home) => path_view(r) == Some(config_path(home)),
            None => r is None,
        },
{
    match home {
        Some(home) => Some(home.join(".config").join("maolan").join("player")),
        None => None,
    }
}

/// A file in the directory of the player's files.
pub fn config_file(home: Option<SongPath>, name: &str) -> (r: Option<SongPath>)
    ensures
        path_view(r) == file_path(path_view(home), name@),
{
    match config_dir_at(home) {
        Some(dir) => Some(dir.join(name)),
        None => None,
    }
}

/// The place where a file is to be written; an error where there is no home
/// directory.
pub fn file_to_write(home: Option<SongPath>, name: &str) -> (r: Result<SongPath, String>)
    ensures
        match r {
            Ok(path) => file_path(path_view(home), name@) == Some(path@),
            Err(text) => home is None && text@ == "No home directory."@,
        },
{
    match config_file(home, name) {
        Some(path) => Ok(path),
        None => Err("No home directory.".to_owned()),
    }
}

impl Settings {
    /// The settings of a host where none are kept.
    pub fn default_on(host: &Host) -> (r: Settings)
        requires
            defaults_exist(*host),
        ensures
            r@ == default_settings(*host),
    {
        let backend = Backend::default_on(host.platform);
        let device_id = backend.default_device_id(host.sound_unit);
        Settings {
            period_frames: default_period_frames(host, device_id.as_str(), DEFAULT_BITS),
            device_id,
            n_periods: DEFAULT_N_PERIODS,
            ring_buffer_multiplier: default_ring_buffer_multiplier(),
            volume_db: Level::unity(),
            title_format: default_title_format(),
            loop_playlist: false,
        }
    }

    /// The file that settings are kept in.
    pub fn store_path_at(home: Option<SongPath>) -> (r: Option<SongPath>)
        ensures
            path_view(r) == file_path(path_view(home), "config.toml"@),
    {
        config_file(home, "config.toml")
    }

    /// The settings of the file that was read, if it could be.
    pub fn load(stored: Option<StoredSettings>, host: &Host) -> (r: Settings)
        requires
            defaults_exist(*host),
        ensures
            r@ == loaded_settings(stored_view(stored), *host),
    {
        let defaults = Settings::default_on(host);
        match stored {
            Some(stored) => Settings {
                device_id: match stored.device_id {
                    Some(id) => id,
                    None => defaults.device_id,
                },
                period_frames: match stored.period_frames {
                    Some(frames) => frames,
                    None => defaults.period_frames,
                },
                n_periods: match stored.n_periods {
                    Some(n) => n,
                    None => defaults.n_periods,
                },
                ring_buffer_multiplier: match stored.ring_buffer_multiplier {
                    Some(n) => n,
                    None => defaults.ring_buffer_multiplier,
                },
                volume_db: match stored.volume_db {
                    Some(level) => level,
                    None => defaults.volume_db,
                },
                title_format: match stored.title_format {
                    Some(format) => format,
                    None => defaults.title_format,
                },
                loop_playlist: match stored.loop_playlist {
                    Some(on) => on,
                    None => defaults.loop_playlist,
                },
            },
            None => defaults,
        }
    }

    /// What is to be kept, and the file to keep it in.
    pub fn save(&self, home: Option<SongPath>) -> (r: Result<(SongPath, StoredSettings), String>)
        ensures
            match r {
                Ok((path, stored)) => file_path(path_view(home), "config.toml"@) == Some(path@)
                    && stored@ == self@.stored(),
                Err(text) => home is None && text@ == "No home directory."@,
            },
    {
        match file_to_write(home, "config.toml") {
            Ok(path) => Ok(
                (
                    path,
                    StoredSettings {
                        device_id: Some(self.device_id.clone()),
                        period_frames: Some(self.period_frames),
                        n_periods: Some(self.n_periods),
                        ring_buffer_multiplier: Some(self.ring_buffer_multiplier),
                        volume_db: Some(self.volume_db),
                        title_format: Some(self.title_format.clone()),
                        loop_playlist: Some(self.loop_playlist),
                    },
                ),
            ),
            Err(text) => Err(text),
        }
    }

    /// The settings with another device.
    pub fn with_device_override(&self, device_id: &str) -> (r: Settings)
        ensures
            r@ == (SettingsModel { device_id: device_id@, ..self@ }),
    {
        let mut settings = self.clone();
        settings.device_id = device_id.to_owned();
        settings
    }

    /// The device, the period and the number of periods to open.
    pub fn open_action(&self) -> (r: (String, usize, usize))
        ensures
            r.0@ == self@.device_id,
            r.1 == self.period_frames,
            r.2 == self.n_periods,
    {
        (self.device_id.clone(), self.period_frames, self.n_periods)
    }
}

/// The device that was asked for: that of the command line wins over that of
/// the environment.
pub open spec fn asked_device(
    argument: Option<Seq<char>>,
    variable: Option<Seq<char>>,
) -> Option<Seq<char>> {
    match argument {
        Some(device) => Some(device),
        None => variable,
    }
}

pub fn device_override(argument: Option<String>, variable: Option<String>) -> (r: Option<String>)
    ensures
        text_view(r) == asked_device(text_view(argument), text_view(variable)),
{
    match argument {
        Some(device) => Some(device),
        None => variable,
    }
}

/// Settings are read back as they were kept. Where nothing was kept, or it is
/// not to be understood, they are the defaults.
pub proof fn law_settings_round_trip(settings: SettingsModel, host: Host)
    ensures
        loaded_settings(Some(settings.stored()), host) == settings,
        loaded_settings(None, host) == default_settings(host),
{
}

/// Settings with a level that is a number are the same as those that are read
/// back of them.
pub proof fn law_settings_stay_the_same(kept: Settings, read: Settings, host: Host)
    requires
        kept.volume_db.size_bits() <= INFINITY_BITS,
        read@ == loaded_settings(Some(kept@.stored()), host),
    ensures
        vstd::std_specs::cmp::PartialEqSpec::eq_spec(&kept, &read),
{
}

} // verus!

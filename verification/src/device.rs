//! Audio backends and output devices.
use vstd::prelude::*;
use vstd::string::*;

use crate::buffer::{
    fragment_exists, last_within, law_small_period_is_offered, oss_ladder,
    small_oss_period_frames, FALLBACK_PERIOD_FRAMES, LARGEST_PERIOD_FRAMES,
};
use crate::files::picked;
use crate::order::{
    indices, is_stable_order, keys_view, law_stable_order_exists, law_stable_order_is_unique,
    stable_order, KeyView, SortKey,
};
use crate::reorder::{lowercase, texts_view, to_lowercase};
use crate::text::{
    chars_of, contains_part, decimal, decimal_chars, eq_ignore_case, find_char, find_from,
    has_part, parse_chars, parse_number, pieces_view, push_chars, same_ignoring_case, same_text,
    split_chars, split_on, strip_chars, sub_chars, text_of, trimmed, CharClass,
};

verus! {

/// The operating systems that the player tells apart.
#[derive(Debug, Clone, Copy, PartialEq, Eq)]
pub enum Platform {
    FreeBsd,
    Linux,
    Windows,
    MacOs,
    OtherUnix,
}

/// An audio backend.
#[derive(Debug, Clone, Copy, PartialEq, Eq)]
pub enum Backend {
    Oss,
    Alsa,
    Wasapi,
    CoreAudio,
    Jack,
}

impl Platform {
    /// The backend that devices use unless they are JACK.
    pub open spec fn own_backend(self) -> Backend {
        match self {
            Platform::FreeBsd => Backend::Oss,
            Platform::Linux => Backend::Alsa,
            Platform::Windows => Backend::Wasapi,
            Platform::MacOs => Backend::CoreAudio,
            Platform::OtherUnix => Backend::Jack,
        }
    }

    /// JACK runs on Unix systems.
    pub open spec fn has_jack(self) -> bool {
        self != Platform::Windows
    }

    /// The backends of a platform.
    pub open spec fn backends(self) -> Seq<Backend> {
        match self {
            Platform::FreeBsd => seq![Backend::Oss, Backend::Jack],
            Platform::Linux => seq![Backend::Alsa, Backend::Jack],
            Platform::Windows => seq![Backend::Wasapi],
            Platform::MacOs => seq![Backend::CoreAudio, Backend::Jack],
            Platform::OtherUnix => seq![Backend::Jack],
        }
    }
}

/// The name of an OSS device: `/dev/dsp` and the number of the unit.
pub open spec fn dsp_name(unit: nat) -> Seq<char> {
    "/dev/dsp"@ + decimal(unit)
}

/// The OSS device of the default unit; `/dev/dsp` where that is not known.
pub open spec fn oss_device_name(unit: Option<u32>) -> Seq<char> {
    match unit {
        Some(unit) => dsp_name(unit as nat),
        None => "/dev/dsp"@,
    }
}

/// The device that a backend uses where no device is chosen.
pub open spec fn default_device_name(backend: Backend, unit: Option<u32>) -> Seq<char> {
    match backend {
        Backend::Oss => oss_device_name(unit),
        Backend::Jack => "jack"@,
        _ => "default"@,
    }
}

impl Backend {
    /// The backends of a platform, its own one first.
    pub fn all(platform: Platform) -> (r: Vec<Backend>)
        ensures
            r@ == platform.backends(),
    {
        let mut r: Vec<Backend> = Vec::new();
        match platform {
            Platform::FreeBsd => {
                r.push(Backend::Oss);
                r.push(Backend::Jack);
            },
            Platform::Linux => {
                r.push(Backend::Alsa);
                r.push(Backend::Jack);
            },
            Platform::Windows => {
                r.push(Backend::Wasapi);
            },
            Platform::MacOs => {
                r.push(Backend::CoreAudio);
                r.push(Backend::Jack);
            },
            Platform::OtherUnix => {
                r.push(Backend::Jack);
            },
        }
        assert(r@ =~= platform.backends());
        r
    }

    /// The backend of a platform.
    pub fn default_on(platform: Platform) -> (r: Backend)
        ensures
            r == platform.own_backend(),
    {
        match platform {
            Platform::FreeBsd => Backend::Oss,
            Platform::Linux => Backend::Alsa,
            Platform::Windows => Backend::Wasapi,
            Platform::MacOs => Backend::CoreAudio,
            Platform::OtherUnix => Backend::Jack,
        }
    }

    pub fn is_jack(self) -> (r: bool)
        ensures
            r == (self == Backend::Jack),
    {
        match self {
            Backend::Jack => true,
            _ => false,
        }
    }

    /// The device that the backend uses where no device is chosen. `unit` is
    /// the default sound unit of the system, if it has one.
    pub fn default_device_id(self, unit: Option<u32>) -> (r: String)
        ensures
            r@ == default_device_name(self, unit),
    {
        match self {
            Backend::Oss => default_oss_device_id(unit),
            Backend::Alsa => "default".to_owned(),
            Backend::Wasapi => "default".to_owned(),
            Backend::CoreAudio => "default".to_owned(),
            Backend::Jack => "jack".to_owned(),
        }
    }

    /// The name of the backend as it is shown.
    pub open spec fn shown_name(self) -> Seq<char> {
        match self {
            Backend::Oss => "OSS"@,
            Backend::Alsa => "ALSA"@,
            Backend::Wasapi => "WASAPI"@,
            Backend::CoreAudio => "CoreAudio"@,
            Backend::Jack => "JACK"@,
        }
    }

    pub fn label(self) -> (r: String)
        ensures
            r@ == self.shown_name(),
    {
        match self {
            Backend::Oss => "OSS".to_owned(),
            Backend::Alsa => "ALSA".to_owned(),
            Backend::Wasapi => "WASAPI".to_owned(),
            Backend::CoreAudio => "CoreAudio".to_owned(),
            Backend::Jack => "JACK".to_owned(),
        }
    }
}

/// The device node of an OSS unit.
pub fn format_dsp_device(unit: u32) -> (r: String)
    ensures
        r@ == dsp_name(unit as nat),
{
    let mut r = "/dev/dsp".to_owned();
    let digits = decimal_chars(unit as u64);
    push_chars(&mut r, &digits);
    r
}

/// The OSS device of the default unit; `/dev/dsp` where that is not known.
pub fn default_oss_device_id(unit: Option<u32>) -> (r: String)
    ensures
        r@ == oss_device_name(unit),
{
    match unit {
        Some(unit) => format_dsp_device(unit),
        None => "/dev/dsp".to_owned(),
    }
}

/// The OSS device of the unit that `read_unit` finds.
pub fn resolve_default_oss_device(read_unit: impl Fn() -> Option<u32>) -> (r: String)
    requires
        read_unit.requires(()),
    ensures
        exists|unit: Option<u32>|
            read_unit.ensures((), unit) && r@ == #[trigger] oss_device_name(unit),
{
    let unit = read_unit();
    default_oss_device_id(unit)
}

/// The default sound unit, from the status and the value of the system call
/// that reads it.
pub open spec fn unit_read(status: i32, value: i32) -> Option<u32> {
    if status == 0 && value >= 0 {
        Some(value as u32)
    } else {
        None
    }
}

pub fn sound_unit(status: i32, value: i32) -> (r: Option<u32>)
    ensures
        r == unit_read(status, value),
{
    if status == 0 && value >= 0 {
        Some(value as u32)
    } else {
        None
    }
}

/// The backend of a device: JACK for `jack` in upper or lower case, where
/// the platform has it; else the platform's own.
pub open spec fn device_backend(platform: Platform, device_id: Seq<char>) -> Backend {
    if platform.has_jack() && same_ignoring_case(device_id, "jack"@) {
        Backend::Jack
    } else {
        platform.own_backend()
    }
}

pub fn backend_for_device(platform: Platform, device_id: &str) -> (r: Backend)
    ensures
        r == device_backend(platform, device_id@),
{
    let unix: bool = match platform {
        Platform::Windows => false,
        _ => true,
    };
    let cs = chars_of(device_id);
    if unix && eq_ignore_case(&cs, "jack") {
        return Backend::Jack;
    }
    Backend::default_on(platform)
}

// Devices.

/// An output device that can be chosen.
#[derive(Debug)]
pub struct Device {
    pub id: String,
    pub label: String,
    /// The size of the kernel buffer; 0 where it is not known.
    pub max_buffer_bytes: usize,
    pub max_channels: usize,
}

#[verifier::ext_equal]
pub struct DeviceModel {
    pub id: Seq<char>,
    pub label: Seq<char>,
    pub max_buffer_bytes: usize,
    pub max_channels: usize,
}

impl View for Device {
    type V = DeviceModel;

    open spec fn view(&self) -> DeviceModel {
        DeviceModel {
            id: self.id@,
            label: self.label@,
            max_buffer_bytes: self.max_buffer_bytes,
            max_channels: self.max_channels,
        }
    }
}

pub open spec fn devices_view(devices: Seq<Device>) -> Seq<DeviceModel> {
    devices.map_values(|d: Device| d@)
}

impl Clone for Device {
    fn clone(&self) -> (r: Self)
        ensures
            r@ == self@,
    {
        Device {
            id: self.id.clone(),
            label: self.label.clone(),
            max_buffer_bytes: self.max_buffer_bytes,
            max_channels: self.max_channels,
        }
    }
}

/// Devices are told apart by their id.
impl PartialEq for Device {
    fn eq(&self, other: &Self) -> (r: bool) {
        self.id == other.id
    }
}

impl vstd::std_specs::cmp::PartialEqSpecImpl for Device {
    open spec fn obeys_eq_spec() -> bool {
        true
    }

    open spec fn eq_spec(&self, other: &Self) -> bool {
        self@.id == other@.id
    }
}

impl Eq for Device {

}

/// A device as the system describes it.
#[derive(Debug)]
pub struct DeviceDescriptor {
    pub id: String,
    pub label: String,
    pub supports_output: bool,
    pub max_buffer_bytes: usize,
    pub max_channels: usize,
}

/// The device of a descriptor.
pub open spec fn described(descriptor: DeviceDescriptor) -> DeviceModel {
    DeviceModel {
        id: descriptor.id@,
        label: descriptor.label@,
        max_buffer_bytes: descriptor.max_buffer_bytes,
        max_channels: descriptor.max_channels,
    }
}

/// What the player knows of the machine it runs on.
#[derive(Debug)]
pub struct Host {
    pub platform: Platform,
    /// The default sound unit (FreeBSD).
    pub sound_unit: Option<u32>,
    /// The sound devices (FreeBSD).
    pub descriptors: Vec<DeviceDescriptor>,
    /// The text of `/proc/asound/pcm` (Linux).
    pub pcm_listing: String,
}

/// The devices of the descriptors that can play.
pub open spec fn output_devices(descriptors: Seq<DeviceDescriptor>) -> Seq<DeviceModel>
    decreases descriptors.len(),
{
    if descriptors.len() == 0 {
        Seq::empty()
    } else if descriptors.last().supports_output {
        output_devices(descriptors.drop_last()).push(described(descriptors.last()))
    } else {
        output_devices(descriptors.drop_last())
    }
}

fn playable_devices(descriptors: &Vec<DeviceDescriptor>) -> (r: Vec<Device>)
    ensures
        devices_view(r@) == output_devices(descriptors@),
{
    let mut r: Vec<Device> = Vec::new();
    let mut i: usize = 0;
    assert(devices_view(r@) =~= output_devices(descriptors@.take(0)));
    while i < descriptors.len()
        invariant
            i <= descriptors@.len(),
            devices_view(r@) == output_devices(descriptors@.take(i as int)),
        decreases descriptors@.len() - i,
    {
        let ghost before = devices_view(r@);
        let d = &descriptors[i];
        assert(descriptors@.take(i as int + 1).drop_last() =~= descriptors@.take(i as int));
        if d.supports_output {
            let device = Device {
                id: d.id.clone(),
                label: d.label.clone(),
                max_buffer_bytes: d.max_buffer_bytes,
                max_channels: d.max_channels,
            };
            r.push(device);
            assert(devices_view(r@) =~= before.push(device@));
        }
        i = i + 1;
    }
    assert(descriptors@.take(descriptors@.len() as int) =~= descriptors@);
    r
}

/// The device of a line of `/proc/asound/pcm`, such as
/// `00-00: ALC892 Analog : ALC892 Analog : playback 1`: card and device
/// number, then the name; only of lines that speak of playback.
pub open spec fn alsa_device(line: Seq<char>) -> Option<DeviceModel> {
    let colon = find_from(line, ':', 0);
    let numbers = split_on(trimmed(line.take(colon)), '-');
    let rest = line.skip(colon + 1);
    let name = trimmed(rest.take(find_from(rest, ':', 0)));
    let id = "hw:"@ + numbers[0] + ","@ + numbers[1];
    if colon < line.len() && has_part(rest, "playback"@) && numbers.len() >= 2 && parse_number(
        numbers[0],
        u32::MAX as nat,
    ) is Some && parse_number(numbers[1], u32::MAX as nat) is Some {
        Some(
            DeviceModel {
                id,
                label: if name.len() == 0 {
                    id
                } else {
                    name + " ("@ + id + ")"@
                },
                max_buffer_bytes: 0,
                max_channels: 0,
            },
        )
    } else {
        None
    }
}

pub open spec fn alsa_devices(lines: Seq<Seq<char>>) -> Seq<DeviceModel>
    decreases lines.len(),
{
    if lines.len() == 0 {
        Seq::empty()
    } else {
        match alsa_device(lines.last()) {
            Some(device) => alsa_devices(lines.drop_last()).push(device),
            None => alsa_devices(lines.drop_last()),
        }
    }
}

fn parse_alsa_line(line: &Vec<char>) -> (r: Option<Device>)
    ensures
        match r {
            Some(device) => alsa_device(line@) == Some(device@),
            None => alsa_device(line@) is None,
        },
{
    let colon = find_char(line, ':', 0);
    if colon >= line.len() {
        return None;
    }
    let rest = sub_chars(line, colon + 1, line.len());
    assert(rest@ =~= line@.skip(colon as int + 1));
    if !contains_part(&rest, "playback") {
        return None;
    }
    let front = sub_chars(line, 0, colon);
    assert(front@ =~= line@.take(colon as int));
    let bare = strip_chars(&front, CharClass::Space);
    let numbers = split_chars(&bare, '-');
    let ghost pieces = pieces_view(numbers@);
    if numbers.len() < 2 {
        return None;
    }
    assert(pieces[0] == numbers@[0]@ && pieces[1] == numbers@[1]@);
    if parse_chars(&numbers[0], u32::MAX as u64).is_none() || parse_chars(
        &numbers[1],
        u32::MAX as u64,
    ).is_none() {
        return None;
    }
    let end = find_char(&rest, ':', 0);
    let head = sub_chars(&rest, 0, end);
    assert(head@ =~= rest@.take(end as int));
    let name = strip_chars(&head, CharClass::Space);
    let mut id = "hw:".to_owned();
    push_chars(&mut id, &numbers[0]);
    id.append(",");
    push_chars(&mut id, &numbers[1]);
    let label = if name.len() == 0 {
        id.clone()
    } else {
        let mut label = text_of(&name);
        label.append(" (");
        label.append(id.as_str());
        label.append(")");
        label
    };
    Some(Device { id, label, max_buffer_bytes: 0, max_channels: 0 })
}

/// The playback devices of a `/proc/asound/pcm` listing.
pub fn parse_alsa_playback_devices(contents: &str) -> (r: Vec<Device>)
    ensures
        devices_view(r@) == alsa_devices(split_on(contents@, '\n')),
{
    let cs = chars_of(contents);
    let lines = split_chars(&cs, '\n');
    let ghost all = pieces_view(lines@);
    let mut r: Vec<Device> = Vec::new();
    let mut i: usize = 0;
    assert(devices_view(r@) =~= alsa_devices(all.take(0)));
    while i < lines.len()
        invariant
            i <= lines@.len(),
            all == pieces_view(lines@),
            devices_view(r@) == alsa_devices(all.take(i as int)),
        decreases lines@.len() - i,
    {
        let ghost before = devices_view(r@);
        assert(all.take(i as int + 1).drop_last() =~= all.take(i as int));
        assert(all.take(i as int + 1).last() == lines@[i as int]@);
        if let Some(device) = parse_alsa_line(&lines[i]) {
            r.push(device);
            assert(devices_view(r@) =~= before.push(device@));
        }
        i = i + 1;
    }
    assert(all.take(all.len() as int) =~= all);
    r
}

/// The devices without those that have the id of the one kept before them.
pub open spec fn deduplicated(devices: Seq<DeviceModel>) -> Seq<DeviceModel>
    decreases devices.len(),
{
    if devices.len() == 0 {
        devices
    } else {
        let before = deduplicated(devices.drop_last());
        if before.len() > 0 && before.last().id == devices.last().id {
            before
        } else {
            before.push(devices.last())
        }
    }
}

/// Sort keys of texts alone.
pub open spec fn text_keys(texts: Seq<Seq<char>>) -> Seq<KeyView> {
    texts.map_values(|t: Seq<char>| (t, Seq::<Seq<u8>>::empty()))
}

/// The devices sorted by the given texts, and without neighbours of the same
/// id.
pub open spec fn is_tidied(
    devices: Seq<DeviceModel>,
    texts: Seq<Seq<char>>,
    tidied: Seq<DeviceModel>,
) -> bool {
    exists|order: Seq<int>| #[trigger]
        is_stable_order(text_keys(texts), order) && tidied == deduplicated(picked(devices, order))
}

/// Sorts devices by the texts given for them and drops neighbours of the
/// same id.
pub fn tidy_by_texts(devices: Vec<Device>, texts: &Vec<String>) -> (r: Vec<Device>)
    requires
        texts@.len() == devices@.len(),
    ensures
        is_tidied(devices_view(devices@), texts_view(texts@), devices_view(r@)),
        r@.len() == 0 <==> devices@.len() == 0,
{
    let ghost keys_all = text_keys(texts_view(texts@));
    let mut keys: Vec<SortKey> = Vec::new();
    let mut i: usize = 0;
    while i < texts.len()
        invariant
            i <= texts@.len(),
            keys_all == text_keys(texts_view(texts@)),
            keys_view(keys@) == keys_all.take(i as int),
        decreases texts@.len() - i,
    {
        let ghost before = keys_view(keys@);
        let key = SortKey { text: chars_of(texts[i].as_str()), parts: Vec::new() };
        assert(key@.1 =~= Seq::<Seq<u8>>::empty());
        assert(keys_all[i as int] == key@);
        keys.push(key);
        i = i + 1;
        assert(keys_view(keys@) =~= before.push(key@));
        assert(keys_view(keys@) =~= keys_all.take(i as int));
    }
    assert(keys_view(keys@) =~= keys_all);
    let order = stable_order(&keys);
    let ghost ds = devices_view(devices@);
    let ghost sorted = picked(ds, indices(order@));
    let mut r: Vec<Device> = Vec::new();
    let mut k: usize = 0;
    assert(devices_view(r@) =~= deduplicated(sorted.take(0)));
    while k < order.len()
        invariant
            k <= order@.len() == devices@.len(),
            ds == devices_view(devices@),
            sorted == picked(ds, indices(order@)),
            is_stable_order(keys_all, indices(order@)),
            keys_all.len() == devices@.len(),
            devices_view(r@) == deduplicated(sorted.take(k as int)),
            k > 0 ==> r@.len() > 0,
        decreases order@.len() - k,
    {
        let ghost before = devices_view(r@);
        assert(indices(order@)[k as int] < devices@.len());
        let device = devices[order[k]].clone();
        assert(sorted[k as int] == device@);
        assert(sorted.take(k as int + 1).drop_last() =~= sorted.take(k as int));
        let repeated: bool = r.len() > 0 && {
            let last = &r[r.len() - 1];
            assert(before.last() == last@);
            last.id == device.id
        };
        if !repeated {
            r.push(device);
            assert(devices_view(r@) =~= before.push(device@));
        }
        k = k + 1;
    }
    assert(sorted.take(sorted.len() as int) =~= sorted);
    r
}

/// The labels of devices, in lower case.
pub open spec fn lowered_labels(devices: Seq<DeviceModel>) -> Seq<Seq<char>> {
    devices.map_values(|d: DeviceModel| lowercase(d.label))
}

/// Sorts devices by label without regard to case and drops neighbours of the
/// same id.
pub fn tidy_devices(devices: Vec<Device>) -> (r: Vec<Device>)
    ensures
        is_tidied(
            devices_view(devices@),
            lowered_labels(devices_view(devices@)),
            devices_view(r@),
        ),
        r@.len() == 0 <==> devices@.len() == 0,
{
    let ghost all = lowered_labels(devices_view(devices@));
    let mut texts: Vec<String> = Vec::new();
    let mut i: usize = 0;
    while i < devices.len()
        invariant
            i <= devices@.len(),
            all == lowered_labels(devices_view(devices@)),
            texts_view(texts@) == all.take(i as int),
        decreases devices@.len() - i,
    {
        let ghost before = texts_view(texts@);
        let text = to_lowercase(devices[i].label.as_str());
        assert(all[i as int] == text@);
        texts.push(text);
        i = i + 1;
        assert(texts_view(texts@) =~= before.push(text@));
        assert(texts_view(texts@) =~= all.take(i as int));
    }
    assert(texts_view(texts@) =~= all);
    tidy_by_texts(devices, &texts)
}

/// The devices that the system lists for the platform's own backend.
pub open spec fn listed_devices(host: Host) -> Seq<DeviceModel> {
    match host.platform {
        Platform::FreeBsd => output_devices(host.descriptors@),
        Platform::Linux => alsa_devices(split_on(host.pcm_listing@, '\n')),
        _ => Seq::empty(),
    }
}

pub open spec fn jack_device() -> DeviceModel {
    DeviceModel { id: "jack"@, label: "JACK"@, max_buffer_bytes: 0, max_channels: 0 }
}

pub open spec fn default_device(backend: Backend, unit: Option<u32>) -> DeviceModel {
    DeviceModel {
        id: default_device_name(backend, unit),
        label: default_device_name(backend, unit),
        max_buffer_bytes: 0,
        max_channels: 0,
    }
}

/// The output devices of a backend: one for JACK; those that the system
/// lists, sorted by label and without repetition; where there are none, the
/// default device.
pub open spec fn are_discovered(
    host: Host,
    backend: Backend,
    devices: Seq<DeviceModel>,
) -> bool {
    if backend == Backend::Jack {
        devices == seq![jack_device()]
    } else if listed_devices(host).len() > 0 {
        is_tidied(listed_devices(host), lowered_labels(listed_devices(host)), devices)
    } else {
        devices == seq![default_device(backend, host.sound_unit)]
    }
}

pub fn discover_devices(backend: Backend, host: &Host) -> (r: Vec<Device>)
    ensures
        are_discovered(*host, backend, devices_view(r@)),
        r@.len() > 0,
{
    let mut r: Vec<Device> = Vec::new();
    if backend.is_jack() {
        let device = Device {
            id: "jack".to_owned(),
            label: "JACK".to_owned(),
            max_buffer_bytes: 0,
            max_channels: 0,
        };
        r.push(device);
        assert(devices_view(r@) =~= seq![jack_device()]);
        return r;
    }
    let listed = match host.platform {
        Platform::FreeBsd => playable_devices(&host.descriptors),
        Platform::Linux => parse_alsa_playback_devices(host.pcm_listing.as_str()),
        _ => Vec::new(),
    };
    assert(devices_view(listed@) =~= listed_devices(*host));
    if listed.len() > 0 {
        return tidy_devices(listed);
    }
    let id = backend.default_device_id(host.sound_unit);
    let device = Device { label: id.clone(), id, max_buffer_bytes: 0, max_channels: 0 };
    r.push(device);
    assert(devices_view(r@) =~= seq![default_device(backend, host.sound_unit)]);
    r
}

// Periods of devices.

/// The first descriptor of a device, from `from` on.
pub open spec fn descriptor_of(
    descriptors: Seq<DeviceDescriptor>,
    device: Seq<char>,
    from: int,
) -> Option<DeviceDescriptor>
    decreases descriptors.len() - from,
{
    if from < 0 || from >= descriptors.len() {
        None
    } else if descriptors[from].id@ == device {
        Some(descriptors[from])
    } else {
        descriptor_of(descriptors, device, from + 1)
    }
}

pub open spec fn at_least_one(n: usize) -> usize {
    if n == 0 {
        1
    } else {
        n
    }
}

/// The sample size of a request; a negative one is none.
pub open spec fn request_bits(bits: i32) -> usize {
    if bits < 0 {
        0
    } else {
        bits as usize
    }
}

pub open spec fn or_fallback(period: Option<usize>) -> usize {
    match period {
        Some(period) => period,
        None => FALLBACK_PERIOD_FRAMES,
    }
}

/// The period that a device is opened with where none is chosen: on FreeBSD
/// the largest of its ladder up to the fallback, on Linux the largest of all,
/// elsewhere a moderate one.
pub open spec fn default_period(host: Host, device: Seq<char>, bits: i32) -> usize {
    match host.platform {
        Platform::FreeBsd => match descriptor_of(host.descriptors@, device, 0) {
            Some(d) => match oss_ladder(
                d.max_buffer_bytes,
                at_least_one(d.max_channels),
                request_bits(bits),
            ) {
                Some(options) => or_fallback(last_within(options, FALLBACK_PERIOD_FRAMES)),
                None => FALLBACK_PERIOD_FRAMES,
            },
            None => FALLBACK_PERIOD_FRAMES,
        },
        Platform::Linux => LARGEST_PERIOD_FRAMES,
        _ => FALLBACK_PERIOD_FRAMES,
    }
}

/// The smallest fragment of a device can be told.
pub open spec fn has_fragment(device: DeviceModel, bits: usize) -> bool {
    fragment_exists(device.max_buffer_bytes, at_least_one(device.max_channels), bits)
}

/// The smallest fragment of the device that is asked for can be told, where
/// its buffer decides.
pub open spec fn default_fragment_exists(host: Host, device: Seq<char>, bits: i32) -> bool {
    host.platform == Platform::FreeBsd ==> match descriptor_of(host.descriptors@, device, 0) {
        Some(d) => has_fragment(described(d), request_bits(bits)),
        None => true,
    }
}

pub fn default_period_frames(host: &Host, device: &str, bits: i32) -> (r: usize)
    requires
        default_fragment_exists(*host, device@, bits),
    ensures
        r == default_period(*host, device@, bits),
        host.platform == Platform::FreeBsd ==> 1 <= r <= FALLBACK_PERIOD_FRAMES,
{
    proof {
        if host.platform == Platform::FreeBsd {
            law_freebsd_default_is_small(*host, device@, bits);
        }
    }
    match host.platform {
        Platform::FreeBsd => {
            let mut i: usize = 0;
            while i < host.descriptors.len()
                invariant
                    i <= host.descriptors@.len(),
                    default_fragment_exists(*host, device@, bits),
                    1 <= default_period(*host, device@, bits) <= FALLBACK_PERIOD_FRAMES,
                    descriptor_of(host.descriptors@, device@, 0) == descriptor_of(
                        host.descriptors@,
                        device@,
                        i as int,
                    ),
                    host.platform == Platform::FreeBsd,
                decreases host.descriptors@.len() - i,
            {
                let d = &host.descriptors[i];
                if same_text(d.id.as_str(), device) {
                    let channels: usize = if d.max_channels == 0 {
                        1
                    } else {
                        d.max_channels
                    };
                    let width: usize = if bits < 0 {
                        0
                    } else {
                        bits as usize
                    };
                    return match small_oss_period_frames(d.max_buffer_bytes, channels, width) {
                        Some(period) => period,
                        None => FALLBACK_PERIOD_FRAMES,
                    };
                }
                i = i + 1;
            }
            FALLBACK_PERIOD_FRAMES
        },
        Platform::Linux => LARGEST_PERIOD_FRAMES,
        _ => FALLBACK_PERIOD_FRAMES,
    }
}

// Laws.

/// The default device of JACK is told to be JACK's, and no default device of
/// another backend is, wherever JACK runs.
pub proof fn law_default_devices_tell_jack(platform: Platform, unit: Option<u32>)
    requires
        platform.has_jack(),
    ensures
        device_backend(platform, default_device_name(Backend::Jack, unit)) == Backend::Jack,
        forall|backend: Backend|
            backend != Backend::Jack ==> device_backend(
                platform,
                #[trigger] default_device_name(backend, unit),
            ) == platform.own_backend(),
{
    reveal_strlit("jack");
    reveal_strlit("default");
    reveal_strlit("/dev/dsp");
    assert forall|backend: Backend| backend != Backend::Jack implies device_backend(
        platform,
        #[trigger] default_device_name(backend, unit),
    ) == platform.own_backend() by {
        let name = default_device_name(backend, unit);
        assert(name.len() > 4);
    }
}

/// On FreeBSD the period that none is chosen for is a small one.
pub proof fn law_freebsd_default_is_small(host: Host, device: Seq<char>, bits: i32)
    requires
        host.platform == Platform::FreeBsd,
    ensures
        1 <= default_period(host, device, bits) <= FALLBACK_PERIOD_FRAMES,
{
    if let Some(d) = descriptor_of(host.descriptors@, device, 0) {
        let channels = at_least_one(d.max_channels);
        if oss_ladder(d.max_buffer_bytes, channels, request_bits(bits)) is Some {
            law_small_period_is_offered(d.max_buffer_bytes, channels, request_bits(bits));
        }
    }
}

/// A backend that a platform offers is its own one or JACK, and the own one
/// is offered first.
pub proof fn law_platform_backends(platform: Platform)
    ensures
        platform.backends()[0] == platform.own_backend(),
        forall|backend: Backend| #[trigger]
            platform.backends().contains(backend) <==> backend == platform.own_backend()
                || backend == Backend::Jack && platform.has_jack(),
{
    assert forall|backend: Backend| #[trigger]
        platform.backends().contains(backend) == (backend == platform.own_backend() || backend
        == Backend::Jack && platform.has_jack()) by {
        let all = platform.backends();
        if backend == platform.own_backend() {
            assert(all[0] == backend);
        } else if backend == Backend::Jack && platform.has_jack() {
            assert(all[1] == backend);
        }
    }
}

proof fn lemma_deduplicated(devices: Seq<DeviceModel>)
    ensures
        forall|i: int|
            0 <= i < deduplicated(devices).len() - 1 ==> (#[trigger] deduplicated(
                devices,
            )[i]).id != deduplicated(devices)[i + 1].id,
        devices.len() > 0 ==> deduplicated(devices).len() > 0,
    decreases devices.len(),
{
    if devices.len() > 0 {
        lemma_deduplicated(devices.drop_last());
        let before = deduplicated(devices.drop_last());
        assert forall|i: int| 0 <= i < deduplicated(devices).len() - 1 implies (
        #[trigger] deduplicated(devices)[i]).id != deduplicated(devices)[i + 1].id by {
            assert(before[i] == deduplicated(devices)[i]);
        }
    }
}

/// There always is a device to choose, and no two neighbours in the list are
/// the same device.
pub proof fn law_discovered_devices(
    host: Host,
    backend: Backend,
    devices: Seq<DeviceModel>,
)
    requires
        are_discovered(host, backend, devices),
    ensures
        devices.len() > 0,
        forall|i: int|
            0 <= i < devices.len() - 1 ==> (#[trigger] devices[i]).id != devices[i + 1].id,
{
    if backend != Backend::Jack && listed_devices(host).len() > 0 {
        let listed = listed_devices(host);
        let order = choose|order: Seq<int>| #[trigger]
            is_stable_order(text_keys(lowered_labels(listed)), order) && devices == deduplicated(
                picked(listed, order),
            );
        lemma_deduplicated(picked(listed, order));
    }
}

/// The output devices of a backend.
pub open spec fn discovered(host: Host, backend: Backend) -> Seq<DeviceModel> {
    choose|devices: Seq<DeviceModel>| are_discovered(host, backend, devices)
}

/// A host has one list of output devices for a backend.
pub proof fn law_discovery_is_unique(
    host: Host,
    backend: Backend,
    a: Seq<DeviceModel>,
    b: Seq<DeviceModel>,
)
    requires
        are_discovered(host, backend, a),
        are_discovered(host, backend, b),
    ensures
        a == b,
{
    let listed = listed_devices(host);
    if backend != Backend::Jack && listed.len() > 0 {
        let keys = text_keys(lowered_labels(listed));
        let x = choose|order: Seq<int>| #[trigger]
            is_stable_order(keys, order) && a == deduplicated(picked(listed, order));
        let y = choose|order: Seq<int>| #[trigger]
            is_stable_order(keys, order) && b == deduplicated(picked(listed, order));
        law_stable_order_is_unique(keys, x, y);
    }
}

/// A host always has a list of output devices for a backend.
pub proof fn law_discovery_exists(host: Host, backend: Backend)
    ensures
        are_discovered(host, backend, discovered(host, backend)),
{
    let listed = listed_devices(host);
    if backend == Backend::Jack {
        assert(are_discovered(host, backend, seq![jack_device()]));
    } else if listed.len() > 0 {
        let texts = lowered_labels(listed);
        law_stable_order_exists(text_keys(texts));
        let order = choose|order: Seq<int>| is_stable_order(text_keys(texts), order);
        assert(is_tidied(listed, texts, deduplicated(picked(listed, order))));
        assert(are_discovered(host, backend, deduplicated(picked(listed, order))));
    } else {
        assert(are_discovered(host, backend, seq![default_device(backend, host.sound_unit)]));
    }
}

pub proof fn lemma_discovered(host: Host, backend: Backend, devices: Seq<DeviceModel>)
    requires
        are_discovered(host, backend, devices),
    ensures
        devices == discovered(host, backend),
{
    law_discovery_is_unique(host, backend, devices, discovered(host, backend));
}

} // verus!

//! The audio settings screen: backend, output device and buffer size.
use vstd::prelude::*;

use crate::buffer::{
    device_ladder, law_few_channels_have_fragments, period_options, FALLBACK_PERIOD_FRAMES,
};
use crate::device::{
    alsa_device, alsa_devices, are_discovered, at_least_one, backend_for_device, deduplicated,
    default_device_name, described, descriptor_of, device_backend, devices_view, discover_devices,
    has_fragment, listed_devices, lowered_labels, output_devices, text_keys, Backend, Device,
    DeviceDescriptor, DeviceModel, Host, Platform,
};
use crate::files::picked;
use crate::order::is_stable_order;
use crate::settings::{defaults_exist, Settings, SettingsModel, DEFAULT_BITS};
use crate::text::{same_text, split_on};

verus! {

/// What the settings screen offers and what is chosen on it.
#[derive(Debug)]
pub struct AudioSetup {
    pub backends: Vec<Backend>,
    pub selected_backend: Backend,
    pub output_devices: Vec<Device>,
    pub selected_output_device: Option<Device>,
    pub period_frames: Vec<usize>,
    pub selected_period_frames: Option<usize>,
}

#[verifier::ext_equal]
pub struct SetupModel {
    pub backends: Seq<Backend>,
    pub selected_backend: Backend,
    pub output_devices: Seq<DeviceModel>,
    pub selected_output_device: Option<DeviceModel>,
    pub period_frames: Seq<usize>,
    pub selected_period_frames: Option<usize>,
}

pub open spec fn device_view(device: Option<Device>) -> Option<DeviceModel> {
    match device {
        Some(device) => Some(device@),
        None => None,
    }
}

impl View for AudioSetup {
    type V = SetupModel;

    open spec fn view(&self) -> SetupModel {
        SetupModel {
            backends: self.backends@,
            selected_backend: self.selected_backend,
            output_devices: devices_view(self.output_devices@),
            selected_output_device: device_view(self.selected_output_device),
            period_frames: self.period_frames@,
            selected_period_frames: self.selected_period_frames,
        }
    }
}

/// What is done on the settings screen.
#[derive(Debug)]
pub enum SetupAction {
    BackendSelected(Backend),
    OutputDeviceSelected(Device),
    PeriodFramesSelected(usize),
    Start,
    Other,
}

/// The periods that are offered for a device.
pub open spec fn options_for(device: Option<DeviceModel>) -> Seq<usize> {
    match device {
        Some(device) => device_ladder(
            device.max_buffer_bytes,
            at_least_one(device.max_channels),
            DEFAULT_BITS as usize,
        ),
        None => device_ladder(0, 0, DEFAULT_BITS as usize),
    }
}

/// The smallest fragment of the device can be told.
pub open spec fn fragment_known(device: Option<DeviceModel>) -> bool {
    match device {
        Some(device) => has_fragment(device, DEFAULT_BITS as usize),
        None => true,
    }
}

pub fn period_options_for(device: Option<&Device>) -> (r: Vec<usize>)
    requires
        device matches Some(device) ==> fragment_known(Some(device@)),
    ensures
        r@ == options_for(
            match device {
                Some(device) => Some(device@),
                None => None,
            },
        ),
        r@.len() > 0,
{
    match device {
        Some(device) => {
            let channels: usize = if device.max_channels == 0 {
                1
            } else {
                device.max_channels
            };
            period_options(device.max_buffer_bytes, channels, DEFAULT_BITS as usize)
        },
        None => period_options(0, 0, DEFAULT_BITS as usize),
    }
}

/// The smallest fragment of every output device of the host can be told.
pub open spec fn host_fragments_known(host: Host) -> bool {
    forall|i: int|
        0 <= i < host.descriptors@.len() && (#[trigger] host.descriptors@[i]).supports_output
            ==> has_fragment(described(host.descriptors@[i]), DEFAULT_BITS as usize)
}

pub open spec fn fragments_known(devices: Seq<DeviceModel>) -> bool {
    forall|i: int|
        0 <= i < devices.len() ==> has_fragment(#[trigger] devices[i], DEFAULT_BITS as usize)
}

proof fn lemma_output_fragments(descriptors: Seq<DeviceDescriptor>)
    requires
        forall|i: int|
            0 <= i < descriptors.len() && (#[trigger] descriptors[i]).supports_output
                ==> has_fragment(described(descriptors[i]), DEFAULT_BITS as usize),
    ensures
        fragments_known(output_devices(descriptors)),
    decreases descriptors.len(),
{
    if descriptors.len() > 0 {
        let front = descriptors.drop_last();
        assert forall|i: int|
            0 <= i < front.len() && (#[trigger] front[i]).supports_output implies has_fragment(
            described(front[i]),
            DEFAULT_BITS as usize,
        ) by {
            assert(descriptors[i] == front[i]);
        }
        lemma_output_fragments(front);
        let last = descriptors[descriptors.len() - 1];
        assert(last.supports_output ==> has_fragment(described(last), DEFAULT_BITS as usize));
    }
}

proof fn lemma_alsa_fragments(lines: Seq<Seq<char>>)
    ensures
        fragments_known(alsa_devices(lines)),
    decreases lines.len(),
{
    if lines.len() > 0 {
        lemma_alsa_fragments(lines.drop_last());
        if let Some(device) = alsa_device(lines.last()) {
            assert(has_fragment(device, DEFAULT_BITS as usize));
        }
    }
}

proof fn lemma_deduplicated_fragments(devices: Seq<DeviceModel>)
    requires
        fragments_known(devices),
    ensures
        fragments_known(deduplicated(devices)),
    decreases devices.len(),
{
    if devices.len() > 0 {
        let front = devices.drop_last();
        assert forall|i: int| 0 <= i < front.len() implies has_fragment(
            #[trigger] front[i],
            DEFAULT_BITS as usize,
        ) by {
            assert(devices[i] == front[i]);
        }
        lemma_deduplicated_fragments(front);
        assert(has_fragment(devices[devices.len() - 1], DEFAULT_BITS as usize));
    }
}

proof fn lemma_discovered_fragments(host: Host, backend: Backend, devices: Seq<DeviceModel>)
    requires
        are_discovered(host, backend, devices),
        host_fragments_known(host),
    ensures
        fragments_known(devices),
{
    let listed = listed_devices(host);
    if backend != Backend::Jack && listed.len() > 0 {
        if host.platform == Platform::FreeBsd {
            lemma_output_fragments(host.descriptors@);
        } else {
            lemma_alsa_fragments(split_on(host.pcm_listing@, '\n'));
        }
        let keys = text_keys(lowered_labels(listed));
        let order = choose|order: Seq<int>| #[trigger]
            is_stable_order(keys, order) && devices == deduplicated(picked(listed, order));
        let sorted = picked(listed, order);
        assert forall|i: int| 0 <= i < sorted.len() implies has_fragment(
            #[trigger] sorted[i],
            DEFAULT_BITS as usize,
        ) by {
            assert(0 <= order[i] < keys.len());
            assert(sorted[i] == listed[order[i]]);
        }
        lemma_deduplicated_fragments(sorted);
    }
}

/// The devices of a backend, whose periods can be told.
pub fn offered_devices(backend: Backend, host: &Host) -> (r: Vec<Device>)
    requires
        host_fragments_known(*host),
    ensures
        are_discovered(*host, backend, devices_view(r@)),
        fragments_known(devices_view(r@)),
        r@.len() > 0,
{
    let r = discover_devices(backend, host);
    proof {
        lemma_discovered_fragments(*host, backend, devices_view(r@));
    }
    r
}

/// A number of channels for which a smallest fragment can always be told.
pub open spec fn few_channels(channels: usize) -> bool {
    channels <= usize::MAX / 8
}

/// Whether a device has so few channels that its periods can be told.
pub fn device_is_plausible(device: &Device) -> (r: bool)
    ensures
        r == few_channels(device.max_channels),
        r ==> fragment_known(Some(device@)),
{
    if device.max_channels <= usize::MAX / 8 {
        proof {
            law_few_channels_have_fragments(
                device.max_buffer_bytes,
                at_least_one(device.max_channels),
                DEFAULT_BITS as usize,
            );
        }
        true
    } else {
        false
    }
}

/// Whether the devices of a host have so few channels that their periods can
/// be told.
pub fn host_is_plausible(host: &Host) -> (r: bool)
    ensures
        r == (forall|i: int|
            0 <= i < host.descriptors@.len() ==> few_channels(
                (#[trigger] host.descriptors@[i]).max_channels,
            )),
        r ==> host_fragments_known(*host),
        r ==> defaults_exist(*host),
{
    let mut i: usize = 0;
    while i < host.descriptors.len()
        invariant
            i <= host.descriptors@.len(),
            forall|k: int|
                0 <= k < i ==> few_channels((#[trigger] host.descriptors@[k]).max_channels),
        decreases host.descriptors@.len() - i,
    {
        if host.descriptors[i].max_channels > usize::MAX / 8 {
            assert(!few_channels(host.descriptors@[i as int].max_channels));
            return false;
        }
        i = i + 1;
    }
    proof {
        let all = host.descriptors@;
        assert forall|k: int| 0 <= k < all.len() implies has_fragment(
            described(#[trigger] all[k]),
            DEFAULT_BITS as usize,
        ) by {
            assert(few_channels(all[k].max_channels));
            law_few_channels_have_fragments(
                all[k].max_buffer_bytes,
                at_least_one(all[k].max_channels),
                DEFAULT_BITS as usize,
            );
        }
        let device = default_device_name(host.platform.own_backend(), host.sound_unit);
        lemma_descriptor_has_fragment(all, device, 0);
    }
    true
}

proof fn lemma_descriptor_has_fragment(
    descriptors: Seq<DeviceDescriptor>,
    device: Seq<char>,
    from: int,
)
    requires
        0 <= from,
        forall|k: int|
            0 <= k < descriptors.len() ==> has_fragment(
                described(#[trigger] descriptors[k]),
                DEFAULT_BITS as usize,
            ),
    ensures
        descriptor_of(descriptors, device, from) matches Some(d) ==> has_fragment(
            described(d),
            DEFAULT_BITS as usize,
        ),
    decreases descriptors.len() - from,
{
    if from < descriptors.len() {
        assert(has_fragment(described(descriptors[from]), DEFAULT_BITS as usize));
        lemma_descriptor_has_fragment(descriptors, device, from + 1);
    }
}

/// The first device with an id, from a position on.
pub open spec fn device_from(devices: Seq<DeviceModel>, id: Seq<char>, from: int) -> Option<
    DeviceModel,
>
    decreases devices.len() - from,
{
    if from < 0 || from >= devices.len() {
        None
    } else if devices[from].id == id {
        Some(devices[from])
    } else {
        device_from(devices, id, from + 1)
    }
}

/// The first device of a list.
pub open spec fn first_device(devices: Seq<DeviceModel>) -> Option<DeviceModel> {
    if devices.len() > 0 {
        Some(devices[0])
    } else {
        None
    }
}

/// The device of the settings, or the first one.
pub open spec fn chosen_device(devices: Seq<DeviceModel>, id: Seq<char>) -> Option<DeviceModel> {
    match device_from(devices, id, 0) {
        Some(device) => Some(device),
        None => first_device(devices),
    }
}

/// The wanted period where it is offered, else the largest one.
pub open spec fn chosen_period(options: Seq<usize>, wanted: Option<usize>) -> Option<usize> {
    match wanted {
        Some(frames) if options.contains(frames) => Some(frames),
        _ => if options.len() > 0 {
            Some(options.last())
        } else {
            None
        },
    }
}

/// The screen for the given settings, with the devices of their backend.
pub open spec fn setup_of(
    platform: Platform,
    settings: SettingsModel,
    devices: Seq<DeviceModel>,
) -> SetupModel {
    let device = chosen_device(devices, settings.device_id);
    let options = options_for(device);
    SetupModel {
        backends: platform.backends(),
        selected_backend: device_backend(platform, settings.device_id),
        output_devices: devices,
        selected_output_device: device,
        period_frames: options,
        selected_period_frames: chosen_period(options, Some(settings.period_frames)),
    }
}

impl SetupModel {
    /// The screen after another backend was chosen.
    pub open spec fn with_backend(
        self,
        backend: Backend,
        devices: Seq<DeviceModel>,
    ) -> SetupModel {
        let device = first_device(devices);
        let options = options_for(device);
        SetupModel {
            selected_backend: backend,
            output_devices: devices,
            selected_output_device: device,
            period_frames: options,
            selected_period_frames: chosen_period(options, None),
            ..self
        }
    }

    /// The screen after another device was chosen.
    pub open spec fn with_device(self, device: DeviceModel) -> SetupModel {
        let options = options_for(Some(device));
        SetupModel {
            selected_output_device: Some(device),
            period_frames: options,
            selected_period_frames: chosen_period(options, self.selected_period_frames),
            ..self
        }
    }

    /// The device to open: the chosen one, or that of the backend.
    pub open spec fn device_to_open(self, unit: Option<u32>) -> Seq<char> {
        match self.selected_output_device {
            Some(device) => device.id,
            None => default_device_name(self.selected_backend, unit),
        }
    }

    /// The period to open with.
    pub open spec fn period_to_open(self) -> usize {
        match self.selected_period_frames {
            Some(frames) => frames,
            None => FALLBACK_PERIOD_FRAMES,
        }
    }
}

fn copy_device(devices: &Vec<Device>, at: usize) -> (r: Option<Device>)
    ensures
        device_view(r) == if at < devices@.len() {
            Some(devices@[at as int]@)
        } else {
            None
        },
{
    if at < devices.len() {
        Some(devices[at].clone())
    } else {
        None
    }
}

fn find_device(devices: &Vec<Device>, id: &str) -> (r: Option<Device>)
    ensures
        device_view(r) == chosen_device(devices_view(devices@), id@),
{
    let ghost all = devices_view(devices@);
    let mut i: usize = 0;
    while i < devices.len()
        invariant
            i <= devices@.len(),
            all == devices_view(devices@),
            device_from(all, id@, 0) == device_from(all, id@, i as int),
        decreases devices@.len() - i,
    {
        assert(all[i as int] == devices@[i as int]@);
        if same_text(devices[i].id.as_str(), id) {
            return Some(devices[i].clone());
        }
        i = i + 1;
    }
    copy_device(devices, 0)
}

fn choose_period(options: &Vec<usize>, wanted: Option<usize>) -> (r: Option<usize>)
    ensures
        r == chosen_period(options@, wanted),
{
    if let Some(frames) = wanted {
        let mut i: usize = 0;
        while i < options.len()
            invariant
                i <= options@.len(),
                forall|k: int| 0 <= k < i ==> options@[k] != frames,
                wanted == Some(frames),
            decreases options@.len() - i,
        {
            if options[i] == frames {
                return Some(frames);
            }
            i = i + 1;
        }
    }
    if options.len() > 0 {
        Some(options[options.len() - 1])
    } else {
        None
    }
}

proof fn lemma_device_from(devices: Seq<DeviceModel>, id: Seq<char>, from: int)
    requires
        fragments_known(devices),
    ensures
        fragment_known(device_from(devices, id, from)),
    decreases devices.len() - from,
{
    if 0 <= from < devices.len() {
        assert(has_fragment(devices[from], DEFAULT_BITS as usize));
        lemma_device_from(devices, id, from + 1);
    }
}

proof fn lemma_chosen_fragment(devices: Seq<DeviceModel>, id: Seq<char>)
    requires
        fragments_known(devices),
    ensures
        fragment_known(chosen_device(devices, id)),
{
    lemma_device_from(devices, id, 0);
    if devices.len() > 0 {
        assert(has_fragment(devices[0], DEFAULT_BITS as usize));
    }
}

/// The screen for the given settings.
pub fn build_setup(settings: &Settings, host: &Host) -> (r: AudioSetup)
    requires
        host_fragments_known(*host),
    ensures
        are_discovered(
            *host,
            device_backend(host.platform, settings@.device_id),
            r@.output_devices,
        ),
        r@ == setup_of(host.platform, settings@, r@.output_devices),
{
    let backend = backend_for_device(host.platform, settings.device_id.as_str());
    let devices = offered_devices(backend, host);
    let device = find_device(&devices, settings.device_id.as_str());
    proof {
        lemma_chosen_fragment(devices_view(devices@), settings@.device_id);
    }
    let period_frames = period_options_for(device.as_ref());
    let selected_period_frames = choose_period(&period_frames, Some(settings.period_frames));
    let r = AudioSetup {
        backends: Backend::all(host.platform),
        selected_backend: backend,
        output_devices: devices,
        selected_output_device: device,
        period_frames,
        selected_period_frames,
    };
    assert(r@ =~= setup_of(host.platform, settings@, r@.output_devices));
    r
}

impl AudioSetup {
    /// Another backend was chosen: its first device, with its largest
    /// period.
    pub fn select_backend(&mut self, backend: Backend, host: &Host)
        requires
            host_fragments_known(*host),
        ensures
            are_discovered(*host, backend, final(self)@.output_devices),
            final(self)@ == old(self)@.with_backend(backend, final(self)@.output_devices),
    {
        let devices = offered_devices(backend, host);
        let device = copy_device(&devices, 0);
        let ghost all = devices_view(devices@);
        assert(has_fragment(all[0], DEFAULT_BITS as usize));
        let period_frames = period_options_for(device.as_ref());
        self.selected_period_frames = choose_period(&period_frames, None);
        self.selected_backend = backend;
        self.output_devices = devices;
        self.selected_output_device = device;
        self.period_frames = period_frames;
        assert(self@ =~= old(self)@.with_backend(backend, all));
    }

    /// Another device was chosen: the period stays where the device offers
    /// it.
    pub fn select_device(&mut self, device: Device)
        requires
            fragment_known(Some(device@)),
        ensures
            final(self)@ == old(self)@.with_device(device@),
    {
        let period_frames = period_options_for(Some(&device));
        self.selected_period_frames = choose_period(&period_frames, self.selected_period_frames);
        self.selected_output_device = Some(device);
        self.period_frames = period_frames;
        assert(self@ =~= old(self)@.with_device(device@));
    }

    /// The device to open.
    pub fn chosen_device_id(&self, unit: Option<u32>) -> (r: String)
        ensures
            r@ == self@.device_to_open(unit),
    {
        match &self.selected_output_device {
            Some(device) => device.id.clone(),
            None => self.selected_backend.default_device_id(unit),
        }
    }

    /// The period to open with.
    pub fn chosen_period_frames(&self) -> (r: usize)
        ensures
            r == self@.period_to_open(),
    {
        match self.selected_period_frames {
            Some(frames) => frames,
            None => FALLBACK_PERIOD_FRAMES,
        }
    }
}

// Laws.

/// What is chosen on the screen is among what it offers.
pub open spec fn choices_are_offered(setup: SetupModel) -> bool {
    &&& setup.selected_output_device matches Some(device) ==> setup.output_devices.contains(device)
    &&& setup.selected_period_frames matches Some(frames) ==> setup.period_frames.contains(frames)
}

proof fn lemma_device_is_listed(devices: Seq<DeviceModel>, id: Seq<char>, from: int)
    ensures
        device_from(devices, id, from) matches Some(device) ==> devices.contains(device),
    decreases devices.len() - from,
{
    if 0 <= from < devices.len() {
        lemma_device_is_listed(devices, id, from + 1);
        assert(devices.contains(devices[from]));
    }
}

/// The screen opens with choices that it offers, and keeps to them when
/// another backend or another of its devices is chosen.
pub proof fn law_choices_are_offered(
    platform: Platform,
    settings: SettingsModel,
    devices: Seq<DeviceModel>,
    setup: SetupModel,
    backend: Backend,
    device: DeviceModel,
)
    ensures
        choices_are_offered(setup_of(platform, settings, devices)),
        choices_are_offered(setup.with_backend(backend, devices)),
        setup.output_devices.contains(device) ==> choices_are_offered(setup.with_device(device)),
{
    lemma_device_is_listed(devices, settings.device_id, 0);
    if devices.len() > 0 {
        assert(devices.contains(devices[0]));
    }
    let a = setup_of(platform, settings, devices);
    if a.period_frames.len() > 0 {
        assert(a.period_frames.contains(a.period_frames.last()));
    }
    let b = setup.with_backend(backend, devices);
    if b.period_frames.len() > 0 {
        assert(b.period_frames.contains(b.period_frames.last()));
    }
    let c = setup.with_device(device);
    if c.period_frames.len() > 0 {
        assert(c.period_frames.contains(c.period_frames.last()));
    }
}

} // verus!

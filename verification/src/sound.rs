//! What the player asks of the engine, and which devices and settings it
//! offers.
use vstd::arithmetic::power2::{lemma_pow2_pos, lemma_pow2_unfold, pow2};
use vstd::prelude::*;

use crate::app::{
    started, AppModel, EffectModel, Message, Outcome, Readings, DOUBLE_CLICK_NANOS,
};
use crate::buffer::{
    device_ladder, doubled_to, ladder, last_within, law_small_period_is_offered, max_fragment,
    next_power, oss_ladder,
};
use crate::device::{
    alsa_device, alsa_devices, are_discovered, default_device_name, default_period,
    deduplicated, descriptor_of, device_backend, discovered, law_discovery_exists,
    listed_devices, lowered_labels, oss_device_name, output_devices, text_keys, unit_read, Backend, Device,
    DeviceDescriptor, DeviceModel, Host, Platform,
};
use crate::engine::{
    frames_at_engine_rate, opening, playing, song_shape, verdict, Awaited, ClipRequestModel,
    DeviceRequestModel, EngineEvent, EngineReply, ProbedAudio, RequestModel, SongSource, StepModel,
    TrackRequestModel, Verdict, REPLY_NANOS, SAMPLE_RATE_HZ,
};
use crate::files::picked;
use crate::order::is_stable_order;
use crate::path::{joined, shown_path};
use crate::playlist::{PlayerState, StoreModel};
use crate::reorder::{law_paths_are_sorted, lowercase, spelled_before};
use crate::settings::{
    file_path, loaded_settings, Level, Settings, SettingsModel, StoredModel,
};
use crate::setup::SetupAction;
use crate::text::{
    decimal, find_from, has_part, lemma_find_from, lemma_find_from_bounds, lemma_split_concat,
    lemma_split_single, parse_number, same_ignoring_case, split_on, trimmed,
};
use crate::tray::InfoModel;
use vstd::utf8::encode_utf8;

verus! {

// The engine.

/// Opening the engine stops it, opens the device with the wanted buffer, adds
/// a stereo track and enables its clips, and waits for each of these.
pub proof fn law_opening(
    device: Seq<char>,
    period_frames: usize,
    n_periods: usize,
    ring_buffer_multiplier: usize,
)
    ensures
        ({
            let steps = opening(device, period_frames, n_periods, ring_buffer_multiplier);
            &&& steps.len() == 7
            &&& steps[0] == StepModel::Send(RequestModel::Stop)
            &&& steps[1] == StepModel::Send(
                RequestModel::OpenAudioDevice(
                    DeviceRequestModel {
                        device,
                        sample_rate_hz: 48_000,
                        bits: 32,
                        exclusive: true,
                        period_frames,
                        n_periods,
                        sync_mode: false,
                        ring_buffer_multiplier,
                        auto_open_midi_devices: false,
                    },
                ),
            )
            &&& steps[2] == StepModel::Await(Awaited::DeviceOpened)
            &&& steps[3] == StepModel::Send(
                RequestModel::AddTrack(
                    TrackRequestModel {
                        name: "player"@,
                        audio_ins: 2,
                        midi_ins: 0,
                        audio_outs: 2,
                        midi_outs: 0,
                        folder: false,
                    },
                ),
            )
            &&& steps[4] == StepModel::Await(Awaited::TrackAdded)
            &&& steps[5] == StepModel::Send(RequestModel::SetClipPlaybackEnabled(true))
            &&& steps[6] == StepModel::Await(Awaited::ClipPlaybackEnabled)
        }),
{
}

/// A wire from a port of the track to the same port of the output.
pub open spec fn wire(port: usize) -> Seq<StepModel> {
    seq![
        StepModel::Send(
            RequestModel::Connect {
                from_track: "player"@,
                from_port: port,
                to_track: "hw:out"@,
                to_port: port,
            },
        ),
        StepModel::Await(Awaited::Connected(port)),
    ]
}

/// Playing a song stops the engine, takes the last clip away if there is one,
/// adds the whole file as a clip with short fades, wires as many channels as
/// it has, up to two, and plays from the beginning.
pub proof fn law_playing(path: Seq<u8>, length: usize, channels: usize)
    ensures
        ({
            let steps = playing(path, length, channels);
            let wires = if channels == 0 {
                Seq::empty()
            } else if channels == 1 {
                wire(0)
            } else {
                wire(0) + wire(1)
            };
            steps == seq![
                StepModel::Send(RequestModel::Stop),
                StepModel::Try(
                    RequestModel::RemoveClip { track: "player"@, indices: seq![0usize] },
                ),
                StepModel::Send(
                    RequestModel::AddClip(
                        ClipRequestModel {
                            name: shown_path(path),
                            track: "player"@,
                            start: 0,
                            length,
                            offset: 0,
                            input_channel: 0,
                            muted: false,
                            reversed: false,
                            gain: Level { bits: 0 },
                            fade_enabled: true,
                            fade_in_samples: 240,
                            fade_out_samples: 240,
                        },
                    ),
                ),
                StepModel::Await(Awaited::ClipAdded),
            ] + wires + seq![
                StepModel::Send(RequestModel::TransportPosition(0)),
                StepModel::Send(RequestModel::Play),
                StepModel::Await(Awaited::Playing),
            ]
        }),
{
    reveal_with_fuel(crate::engine::connecting, 3);
    assert(crate::engine::connecting(0) =~= Seq::<StepModel>::empty());
    assert(crate::engine::connecting(1) =~= wire(0));
    assert(crate::engine::connecting(2) =~= wire(0) + wire(1));
}

/// A request is done when it went out, and an error of it ends the
/// conversation, unless it may fail. A reply is waited for until it is the
/// right one; an error, the end of the time and the end of the engine end the
/// conversation.
pub proof fn law_verdicts(request: RequestModel, awaited: Awaited, reply: EngineReply, error: String)
    ensures
        verdict(StepModel::Send(request), EngineEvent::Sent(Ok(()))) == Verdict::Done,
        verdict(StepModel::Send(request), EngineEvent::Sent(Err(error))) == Verdict::Fails(error@),
        verdict(StepModel::Try(request), EngineEvent::Sent(Ok(()))) == Verdict::Done,
        verdict(StepModel::Try(request), EngineEvent::Sent(Err(error))) == Verdict::Done,
        verdict(StepModel::Await(awaited), EngineEvent::Replied(Err(error))) == Verdict::Fails(
            error@,
        ),
        verdict(StepModel::Await(awaited), EngineEvent::TimedOut) == Verdict::Fails(
            "Timed out waiting for audio engine."@,
        ),
        verdict(StepModel::Await(awaited), EngineEvent::Closed) == Verdict::Fails(
            "Audio engine response channel closed."@,
        ),
        verdict(StepModel::Await(awaited), EngineEvent::Replied(Ok(reply))) == if ({
            ||| awaited is DeviceOpened && reply is DeviceOpened
            ||| awaited is TrackAdded && (reply matches EngineReply::TrackAdded(track) && track@
                == "player"@)
            ||| awaited is ClipPlaybackEnabled && (reply matches EngineReply::ClipPlaybackEnabled(
                on,
            ) && on)
            ||| awaited is ClipAdded && (reply matches EngineReply::ClipAdded(track) && track@
                == "player"@)
            ||| (awaited matches Awaited::Connected(port) && (reply matches EngineReply::Connected {
                from_track,
                from_port,
                audio,
            } && from_track@ == "player"@ && from_port == port && audio))
            ||| awaited is Playing && reply is Playing
        }) {
            Verdict::Done
        } else {
            Verdict::Stays
        },
{
}

/// The length of a song at the rate of the engine is that of its file, scaled
/// and rounded down. A file of unknown length has none.
pub proof fn law_lengths_are_scaled(info: ProbedAudio)
    ensures
        ({
            let length = frames_at_engine_rate(info);
            let rate: nat = if info.sample_rate == 0 {
                1
            } else {
                info.sample_rate as nat
            };
            &&& info.frames matches Some(frames) ==> length * rate <= frames * 48_000 < (length
                + 1) * rate
            &&& info.frames is None ==> length == 0
        }),
{
    if let Some(frames) = info.frames {
        let rate: int = if info.sample_rate == 0 {
            1
        } else {
            info.sample_rate as int
        };
        let all = frames * 48_000;
        vstd::arithmetic::div_mod::lemma_fundamental_div_mod(all, rate);
        let length = all / rate;
        assert(length * rate <= all < (length + 1) * rate) by (nonlinear_arith)
            requires
                all == rate * length + all % rate,
                0 <= all % rate < rate,
        ;
    }
}

/// The shape of a song: its frames at the rate of the engine and its channels,
/// of which it has at least one. A decoded song has its samples in frames of
/// all channels.
pub proof fn law_song_shapes(info: ProbedAudio, samples: usize, channels: usize, error: String)
    requires
        frames_at_engine_rate(info) <= usize::MAX,
        frames_at_engine_rate(info) <= u64::MAX,
    ensures
        song_shape(SongSource::Failed(error)) is None,
        song_shape(SongSource::Probed(info)) matches Some(shape) && shape.0
            == frames_at_engine_rate(info) && shape.1 == if info.channels == 0 {
            1
        } else {
            info.channels
        },
        song_shape(SongSource::Decoded { samples, channels }) matches Some(shape) && {
            &&& shape.1 == if channels == 0 {
                1
            } else {
                channels
            }
            &&& shape.0 * shape.1 <= samples < (shape.0 + 1) * shape.1
        },
{
    let count: int = if channels == 0 {
        1
    } else {
        channels as int
    };
    let all = samples as int;
    vstd::arithmetic::div_mod::lemma_fundamental_div_mod(all, count);
    let frames = all / count;
    assert(0 <= frames <= all) by (nonlinear_arith)
        requires
            all == count * frames + all % count,
            0 <= all % count < count,
            all >= 0,
            count >= 1,
    ;
    assert(frames * count <= all < (frames + 1) * count) by (nonlinear_arith)
        requires
            all == count * frames + all % count,
            0 <= all % count < count,
    ;
}

// Backends and devices.

/// Every system has a backend of its own, and all but Windows have JACK too.
pub proof fn law_backends()
    ensures
        Platform::FreeBsd.backends() == seq![Backend::Oss, Backend::Jack],
        Platform::Linux.backends() == seq![Backend::Alsa, Backend::Jack],
        Platform::Windows.backends() == seq![Backend::Wasapi],
        Platform::MacOs.backends() == seq![Backend::CoreAudio, Backend::Jack],
        Platform::OtherUnix.backends() == seq![Backend::Jack],
        Platform::FreeBsd.own_backend() == Backend::Oss,
        Platform::Linux.own_backend() == Backend::Alsa,
        Platform::Windows.own_backend() == Backend::Wasapi,
        Platform::MacOs.own_backend() == Backend::CoreAudio,
        Platform::OtherUnix.own_backend() == Backend::Jack,
        Backend::Oss.shown_name() == "OSS"@,
        Backend::Alsa.shown_name() == "ALSA"@,
        Backend::Wasapi.shown_name() == "WASAPI"@,
        Backend::CoreAudio.shown_name() == "CoreAudio"@,
        Backend::Jack.shown_name() == "JACK"@,
{
}

/// The device `jack`, in upper or lower case, is JACK's, where there is JACK.
/// Every other one is that of the system's own backend.
pub proof fn law_device_backends(platform: Platform, device: Seq<char>)
    ensures
        same_ignoring_case(device, "jack"@) && platform != Platform::Windows ==> device_backend(
            platform,
            device,
        ) == Backend::Jack,
        !same_ignoring_case(device, "jack"@) || platform == Platform::Windows ==> device_backend(
            platform,
            device,
        ) == platform.own_backend(),
{
}

/// The default device: that of the default unit for OSS, where it can be
/// read, and else names that the drivers know.
pub proof fn law_default_devices(unit: u32, status: i32, value: i32)
    ensures
        default_device_name(Backend::Oss, Some(unit)) == "/dev/dsp"@ + decimal(unit as nat),
        default_device_name(Backend::Oss, None) == "/dev/dsp"@,
        default_device_name(Backend::Jack, Some(unit)) == "jack"@,
        default_device_name(Backend::Jack, None) == "jack"@,
        default_device_name(Backend::Alsa, None) == "default"@,
        default_device_name(Backend::Wasapi, None) == "default"@,
        default_device_name(Backend::CoreAudio, None) == "default"@,
        oss_device_name(Some(unit)) == "/dev/dsp"@ + decimal(unit as nat),
        oss_device_name(None) == "/dev/dsp"@,
        status == 0 && value >= 0 ==> unit_read(status, value) == Some(value as u32),
        status != 0 || value < 0 ==> unit_read(status, value) is None,
{
}

/// The devices of FreeBSD are those that support output, in their order.
pub proof fn law_oss_devices(before: Seq<DeviceDescriptor>, next: DeviceDescriptor)
    ensures
        output_devices(Seq::empty()).len() == 0,
        next.supports_output ==> output_devices(before.push(next)) == output_devices(before).push(
            DeviceModel {
                id: next.id@,
                label: next.label@,
                max_buffer_bytes: next.max_buffer_bytes,
                max_channels: next.max_channels,
            },
        ),
        !next.supports_output ==> output_devices(before.push(next)) == output_devices(before),
{
    assert(before.push(next).drop_last() =~= before);
}

/// A line of the listing of ALSA is `card-device: name : ...`. One that tells
/// of playback is a device `hw:card,device`, labelled by its name; other lines
/// are none.
pub proof fn law_alsa_lines(
    line: Seq<char>,
    numbers: Seq<char>,
    card: Seq<char>,
    device: Seq<char>,
    rest: Seq<char>,
    name: Seq<char>,
    more: Seq<char>,
)
    requires
        line == numbers.push(':') + rest,
        !numbers.contains(':'),
        trimmed(numbers) == card.push('-') + device,
        !card.contains('-'),
        !device.contains('-'),
        rest == name.push(':') + more,
        !name.contains(':'),
    ensures
        ({
            let id = "hw:"@ + card + ","@ + device;
            let valid = parse_number(card, 0xffff_ffff) is Some && parse_number(
                device,
                0xffff_ffff,
            ) is Some;
            let plays = exists|i: int|
                0 <= i <= rest.len() - "playback"@.len() && #[trigger] rest.subrange(
                    i,
                    i + "playback"@.len(),
                ) == "playback"@;
            &&& valid && plays && trimmed(name).len() > 0 ==> alsa_device(line) == Some(
                DeviceModel {
                    id,
                    label: trimmed(name) + " ("@ + id + ")"@,
                    max_buffer_bytes: 0,
                    max_channels: 0,
                },
            )
            &&& valid && plays && trimmed(name).len() == 0 ==> alsa_device(line) == Some(
                DeviceModel { id, label: id, max_buffer_bytes: 0, max_channels: 0 },
            )
            &&& !valid || !plays ==> alsa_device(line) is None
        }),
{
    let at = numbers.len() as int;
    assert(line[at] == ':');
    assert forall|i: int| 0 <= i < at implies line[i] != ':' by {
        assert(line[i] == numbers[i]);
        assert(numbers.contains(numbers[i]));
    }
    lemma_find_from(line, ':', 0, at);
    assert(line.take(at) =~= numbers);
    assert(line.skip(at + 1) =~= rest);
    lemma_split_concat(card, '-', device);
    lemma_split_single(card, '-');
    lemma_split_single(device, '-');
    let pieces = split_on(trimmed(numbers), '-');
    assert(pieces =~= seq![card, device]);
    let end = name.len() as int;
    assert(rest[end] == ':');
    assert forall|i: int| 0 <= i < end implies rest[i] != ':' by {
        assert(rest[i] == name[i]);
        assert(name.contains(name[i]));
    }
    lemma_find_from(rest, ':', 0, end);
    assert(rest.take(end) =~= name);
}

/// A line without a colon, or without two numbers before it, is no device; and
/// the devices of a listing are those of its lines, in their order.
pub proof fn law_alsa_listing(line: Seq<char>, before: Seq<Seq<char>>)
    ensures
        !line.contains(':') ==> alsa_device(line) is None,
        alsa_devices(Seq::empty()).len() == 0,
        alsa_device(line) is None ==> alsa_devices(before.push(line)) == alsa_devices(before),
        alsa_device(line) matches Some(device) ==> alsa_devices(before.push(line)) == alsa_devices(
            before,
        ).push(device),
{
    assert(before.push(line).drop_last() =~= before);
    lemma_find_from_bounds(line, ':', 0);
    if !line.contains(':') && find_from(line, ':', 0) < line.len() {
        assert(line.contains(line[find_from(line, ':', 0)]));
    }
}

/// Of neighbours with the same id the first one stays, and nothing else goes.
pub proof fn law_neighbours_are_merged(devices: Seq<DeviceModel>) -> (picks: Seq<int>)
    ensures
        deduplicated(devices) == picks.map_values(|i: int| devices[i]),
        forall|a: int| 0 <= a < picks.len() ==> 0 <= #[trigger] picks[a] < devices.len(),
        forall|a: int, b: int| 0 <= a < b < picks.len() ==> picks[a] < picks[b],
        forall|i: int|
            0 <= i < devices.len() ==> (#[trigger] picks.contains(i) <==> i == 0 || devices[i].id
                != devices[i - 1].id),
    decreases devices.len(),
{
    if devices.len() == 0 {
        let none = Seq::<int>::empty();
        assert(none.map_values(|i: int| devices[i]) =~= devices);
        none
    } else {
        let front = devices.drop_last();
        let n = front.len() as int;
        let picks = law_neighbours_are_merged(front);
        let old = picks.map_values(|i: int| front[i]);
        assert(old =~= picks.map_values(|i: int| devices[i]));
        lemma_last_kept(front);
        let merged = n > 0 && devices[n].id == devices[n - 1].id;
        let r = if merged {
            picks
        } else {
            picks.push(n)
        };
        assert(r.map_values(|i: int| devices[i]) =~= if merged {
            old
        } else {
            old.push(devices[n])
        });
        assert(deduplicated(front) == old);
        if n > 0 {
            assert(front.last() == devices[n - 1]);
        }
        assert forall|i: int| 0 <= i < devices.len() implies (#[trigger] r.contains(i) <==> i == 0
            || devices[i].id != devices[i - 1].id) by {
            if i < n {
                assert(picks.contains(i) == r.contains(i)) by {
                    if picks.contains(i) {
                        let a = choose|a: int| 0 <= a < picks.len() && picks[a] == i;
                        assert(r[a] == i);
                    }
                    if r.contains(i) {
                        let a = choose|a: int| 0 <= a < r.len() && r[a] == i;
                        assert(picks[a] == i);
                    }
                }
                assert(front[i] == devices[i]);
                if i > 0 {
                    assert(front[i - 1] == devices[i - 1]);
                }
            } else if merged {
                if r.contains(i) {
                    let a = choose|a: int| 0 <= a < r.len() && r[a] == i;
                    assert(picks[a] < n);
                }
            } else {
                assert(r[r.len() - 1] == i);
            }
        }
        r
    }
}

proof fn lemma_last_kept(devices: Seq<DeviceModel>)
    ensures
        devices.len() > 0 ==> deduplicated(devices).len() > 0 && deduplicated(devices).last().id
            == devices.last().id,
        devices.len() == 0 ==> deduplicated(devices).len() == 0,
    decreases devices.len(),
{
    if devices.len() > 0 {
        lemma_last_kept(devices.drop_last());
    }
}

/// JACK is one device. The other backends offer the devices that are found,
/// or their default device where there is none.
pub proof fn law_offered_devices(host: Host, backend: Backend, devices: Seq<DeviceModel>)
    requires
        are_discovered(host, backend, devices),
    ensures
        backend == Backend::Jack ==> devices == seq![
            DeviceModel { id: "jack"@, label: "JACK"@, max_buffer_bytes: 0, max_channels: 0 },
        ],
        host.platform == Platform::FreeBsd ==> listed_devices(host) == output_devices(
            host.descriptors@,
        ),
        host.platform == Platform::Linux ==> listed_devices(host) == alsa_devices(
            split_on(host.pcm_listing@, '\n'),
        ),
        host.platform != Platform::FreeBsd && host.platform != Platform::Linux ==> listed_devices(
            host,
        ).len() == 0,
        backend != Backend::Jack && listed_devices(host).len() == 0 ==> devices == seq![
            DeviceModel {
                id: default_device_name(backend, host.sound_unit),
                label: default_device_name(backend, host.sound_unit),
                max_buffer_bytes: 0,
                max_channels: 0,
            },
        ],
{
}

/// Devices that are found are listed by their labels without regard to case,
/// letter by letter, those with the same label in the order they were found,
/// and of neighbours with the same id the first one.
pub proof fn law_found_devices_are_sorted(
    host: Host,
    backend: Backend,
    devices: Seq<DeviceModel>,
) -> (order: Seq<int>)
    requires
        backend != Backend::Jack,
        listed_devices(host).len() > 0,
        are_discovered(host, backend, devices),
    ensures
        ({
            let found = listed_devices(host);
            let sorted = order.map_values(|i: int| found[i]);
            &&& order.len() == found.len()
            &&& order.no_duplicates()
            &&& forall|k: int| 0 <= k < order.len() ==> 0 <= #[trigger] order[k] < found.len()
            &&& forall|k: int, l: int|
                0 <= k < l < order.len() ==> {
                    let first = lowercase(found[#[trigger] order[k]].label);
                    let second = lowercase(found[#[trigger] order[l]].label);
                    spelled_before(first, second) || first == second && order[k] < order[l]
                }
            &&& devices == deduplicated(sorted)
        }),
{
    let found = listed_devices(host);
    let texts = lowered_labels(found);
    let keys = text_keys(texts);
    let order = choose|order: Seq<int>| #[trigger]
        is_stable_order(keys, order) && devices == deduplicated(picked(found, order));
    crate::order::lemma_key_order();
    assert(order.map_values(|i: int| found[i]) =~= picked(found, order));
    assert forall|k: int, l: int| 0 <= k < l < order.len() implies {
        let first = lowercase(found[#[trigger] order[k]].label);
        let second = lowercase(found[#[trigger] order[l]].label);
        spelled_before(first, second) || first == second && order[k] < order[l]
    } by {
        law_paths_are_sorted(keys, order, k, l);
        let a = keys[order[k]];
        let b = keys[order[l]];
        assert(a.1.len() == 0 && b.1.len() == 0);
        assert(a.0 == lowercase(found[order[k]].label));
        assert(b.0 == lowercase(found[order[l]].label));
    }
    assert forall|k: int, l: int| 0 <= k < order.len() && 0 <= l < order.len() && k != l implies order[k]
        != order[l] by {
        if k < l {
            assert(crate::order::comes_before(keys, order[k], order[l]));
        } else {
            assert(crate::order::comes_before(keys, order[l], order[k]));
        }
    }
    order
}

// Periods.

/// The smallest power of two that a frame fits in.
pub proof fn law_smallest_fragment(frame: nat) -> (k: nat)
    requires
        frame > 0,
    ensures
        next_power(frame) == pow2(k),
        frame <= next_power(frame),
        next_power(frame) < 2 * frame,
{
    vstd::arithmetic::power2::lemma2_to64();
    lemma_doubled_is_power(1, frame, 0)
}

proof fn lemma_doubled_is_power(p: nat, n: nat, k: nat) -> (r: nat)
    requires
        p == pow2(k),
        p > 0,
        n > 0,
        p == 1 || p < 2 * n,
    ensures
        doubled_to(p, n) == pow2(r),
        doubled_to(p, n) >= n,
        doubled_to(p, n) < 2 * n || p == 1 && n == 1,
        doubled_to(p, n) < 2 * n,
    decreases (if p < n { n - p } else { 0 }),
{
    if p < n {
        lemma_pow2_unfold(k + 1);
        lemma_doubled_is_power(2 * p, n, k + 1)
    } else {
        k
    }
}

proof fn lemma_ladder_steps(bytes: nat, max: nat, frame: nat, i: int)
    requires
        0 < frame <= bytes <= max,
        max <= usize::MAX,
        0 <= i < ladder(bytes, max, frame).len(),
    ensures
        ladder(bytes, max, frame)[i] == (bytes * pow2(i as nat)) / frame,
        bytes * pow2(i as nat) <= max,
        bytes * pow2(ladder(bytes, max, frame).len()) > max,
    decreases max + 1 - bytes,
{
    vstd::arithmetic::power2::lemma2_to64();
    let all = ladder(bytes, max, frame);
    let rest = ladder(2 * bytes, max, frame);
    let here = bytes / frame;
    assert(here <= bytes) by (nonlinear_arith)
        requires
            here == bytes / frame,
            frame >= 1,
    ;
    assert(all[0] == here);
    assert(bytes * pow2(0) == bytes) by (nonlinear_arith)
        requires
            pow2(0) == 1,
    ;
    if 2 * bytes <= max {
        assert(rest.len() > 0);
        let j = if i > 0 {
            i - 1
        } else {
            0
        };
        lemma_ladder_steps(2 * bytes, max, frame, j);
        if i > 0 {
            lemma_pow2_unfold(i as nat);
            assert(2 * bytes * pow2(j as nat) == bytes * pow2(i as nat)) by (nonlinear_arith)
                requires
                    pow2(i as nat) == 2 * pow2(j as nat),
            ;
            assert(all[i] == rest[j]);
        }
        lemma_pow2_unfold(all.len());
        assert(2 * bytes * pow2(rest.len()) == bytes * pow2(all.len())) by (nonlinear_arith)
            requires
                pow2(all.len()) == 2 * pow2(rest.len()),
        ;
    } else {
        assert(rest.len() == 0);
        assert(all.len() == 1);
        assert(bytes * pow2(1) == 2 * bytes) by (nonlinear_arith)
            requires
                pow2(1) == 2,
        ;
    }
}

/// The periods of an OSS device: those of fragments that double from the
/// smallest one that holds a frame up to the device's buffer, and to no more
/// than 64 KiB. The next one would be too large.
pub proof fn law_oss_periods(max_buffer_bytes: usize, channels: usize, bits: usize, i: int)
    requires
        oss_ladder(max_buffer_bytes, channels, bits) is Some,
        0 <= i < oss_ladder(max_buffer_bytes, channels, bits)->0.len(),
    ensures
        bits == 8 || bits == 16 || bits == 24 || bits == 32,
        max_buffer_bytes > 0,
        channels > 0,
        ({
            let options = oss_ladder(max_buffer_bytes, channels, bits)->0;
            let frame = channels as nat * (bits as nat / 8);
            let smallest = next_power(frame);
            let capped: nat = if max_buffer_bytes < 65536 {
                max_buffer_bytes as nat
            } else {
                65536
            };
            let most = if capped < smallest {
                smallest
            } else {
                capped
            };
            &&& options[i] == (smallest * pow2(i as nat)) / frame
            &&& smallest * pow2(i as nat) <= most
            &&& smallest * pow2(options.len()) > most
        }),
{
    let frame = channels as nat * (bits as nat / 8);
    assert(frame >= 1) by (nonlinear_arith)
        requires
            frame == channels as nat * (bits as nat / 8),
            channels >= 1,
            bits as nat / 8 >= 1,
    ;
    let smallest = next_power(frame);
    let k = law_smallest_fragment(frame);
    lemma_pow2_pos(k);
    lemma_ladder_steps(smallest, max_fragment(max_buffer_bytes, smallest), frame, i);
}

/// A device without a known buffer, channels or sample size has no periods of
/// its own, and is offered the powers of two from 16 to 65536.
pub proof fn law_other_periods(max_buffer_bytes: usize, channels: usize, bits: usize, i: int)
    requires
        max_buffer_bytes == 0 || channels == 0 || bits != 8 && bits != 16 && bits != 24 && bits
            != 32,
        0 <= i < 13,
    ensures
        oss_ladder(max_buffer_bytes, channels, bits) is None,
        device_ladder(max_buffer_bytes, channels, bits).len() == 13,
        device_ladder(max_buffer_bytes, channels, bits)[i] == 16 * pow2(i as nat),
{
    vstd::arithmetic::power2::lemma2_to64();
}

/// A device with periods of its own is offered these.
pub proof fn law_own_periods(max_buffer_bytes: usize, channels: usize, bits: usize)
    requires
        oss_ladder(max_buffer_bytes, channels, bits) is Some,
    ensures
        device_ladder(max_buffer_bytes, channels, bits) == oss_ladder(
            max_buffer_bytes,
            channels,
            bits,
        )->0,
{
}

/// The default period is the largest one on Linux, where the driver takes the
/// nearest it has, and a moderate one elsewhere. On FreeBSD it is the largest
/// of the device's own periods that is no more than that, where it has any.
pub proof fn law_default_periods(host: Host, device: Seq<char>, bits: i32, at: int)
    ensures
        host.platform == Platform::Linux ==> default_period(host, device, bits) == 65536,
        host.platform != Platform::Linux && host.platform != Platform::FreeBsd ==> default_period(
            host,
            device,
            bits,
        ) == 1024,
        host.platform == Platform::FreeBsd && (forall|j: int|
            0 <= j < host.descriptors@.len() ==> (#[trigger] host.descriptors@[j]).id@ != device)
            ==> default_period(host, device, bits) == 1024,
        host.platform == Platform::FreeBsd && 0 <= at < host.descriptors@.len()
            && host.descriptors@[at].id@ == device && (forall|j: int|
            0 <= j < at ==> (#[trigger] host.descriptors@[j]).id@ != device) && bits >= 0 ==> {
            let found = host.descriptors@[at];
            let channels: usize = if found.max_channels == 0 {
                1
            } else {
                found.max_channels
            };
            match oss_ladder(found.max_buffer_bytes, channels, bits as usize) {
                None => default_period(host, device, bits) == 1024,
                Some(options) => {
                    let period = default_period(host, device, bits);
                    &&& options.contains(period)
                    &&& period <= 1024
                    &&& forall|i: int|
                        0 <= i < options.len() && #[trigger] options[i] <= 1024 ==> options[i]
                            <= period
                },
            }
        },
{
    let all = host.descriptors@;
    if forall|j: int| 0 <= j < all.len() ==> (#[trigger] all[j]).id@ != device {
        lemma_no_descriptor(all, device, 0);
    }
    if host.platform == Platform::FreeBsd && 0 <= at < all.len() && all[at].id@ == device && (
    forall|j: int| 0 <= j < at ==> (#[trigger] all[j]).id@ != device) && bits >= 0 {
        lemma_descriptor_at(all, device, 0, at);
        let found = all[at];
        let channels: usize = if found.max_channels == 0 {
            1
        } else {
            found.max_channels
        };
        if oss_ladder(found.max_buffer_bytes, channels, bits as usize) is Some {
            law_small_period_is_offered(found.max_buffer_bytes, channels, bits as usize);
            let options = oss_ladder(found.max_buffer_bytes, channels, bits as usize)->0;
            assert(last_within(options, 1024) is Some);
        }
    }
}

proof fn lemma_no_descriptor(all: Seq<DeviceDescriptor>, device: Seq<char>, from: int)
    requires
        0 <= from <= all.len(),
        forall|j: int| 0 <= j < all.len() ==> (#[trigger] all[j]).id@ != device,
    ensures
        descriptor_of(all, device, from) is None,
    decreases all.len() - from,
{
    if from < all.len() {
        lemma_no_descriptor(all, device, from + 1);
    }
}

proof fn lemma_descriptor_at(all: Seq<DeviceDescriptor>, device: Seq<char>, from: int, at: int)
    requires
        0 <= from <= at < all.len(),
        all[at].id@ == device,
        forall|j: int| from <= j < at ==> (#[trigger] all[j]).id@ != device,
    ensures
        descriptor_of(all, device, from) == Some(all[at]),
    decreases at - from,
{
    if from < at {
        lemma_descriptor_at(all, device, from + 1, at);
    }
}

// Settings.

/// Every setting is that of the file, or its default where the file has none.
/// Without a file all are defaults: the system's own device with its default
/// period, two periods, full volume, artist and song as titles, and no loop.
pub proof fn law_settings_are_loaded(file: StoredModel, host: Host)
    ensures
        ({
            let read = loaded_settings(Some(file), host);
            let first = loaded_settings(None, host);
            let device = default_device_name(host.platform.own_backend(), host.sound_unit);
            &&& first == SettingsModel {
                device_id: device,
                period_frames: default_period(host, device, 32),
                n_periods: 2,
                ring_buffer_multiplier: 8,
                volume_db: Level { bits: 0 },
                title_format: "{artist} - {song}"@,
                loop_playlist: false,
            }
            &&& file.device_id matches Some(v) ==> read.device_id == v
            &&& file.device_id is None ==> read.device_id == first.device_id
            &&& file.period_frames matches Some(v) ==> read.period_frames == v
            &&& file.period_frames is None ==> read.period_frames == first.period_frames
            &&& file.n_periods matches Some(v) ==> read.n_periods == v
            &&& file.n_periods is None ==> read.n_periods == first.n_periods
            &&& file.ring_buffer_multiplier matches Some(v) ==> read.ring_buffer_multiplier == v
            &&& file.ring_buffer_multiplier is None ==> read.ring_buffer_multiplier
                == first.ring_buffer_multiplier
            &&& file.volume_db matches Some(v) ==> read.volume_db == v
            &&& file.volume_db is None ==> read.volume_db == first.volume_db
            &&& file.title_format matches Some(v) ==> read.title_format == v
            &&& file.title_format is None ==> read.title_format == first.title_format
            &&& file.loop_playlist matches Some(v) ==> read.loop_playlist == v
            &&& file.loop_playlist is None ==> read.loop_playlist == first.loop_playlist
        }),
{
}

/// Every setting is kept under its own name.
pub proof fn law_settings_are_kept(settings: SettingsModel)
    ensures
        settings.stored() == (StoredModel {
            device_id: Some(settings.device_id),
            period_frames: Some(settings.period_frames),
            n_periods: Some(settings.n_periods),
            ring_buffer_multiplier: Some(settings.ring_buffer_multiplier),
            volume_db: Some(settings.volume_db),
            title_format: Some(settings.title_format),
            loop_playlist: Some(settings.loop_playlist),
        }),
{
}

/// The files of the player are in `.config/maolan/player` below the home
/// directory.
pub proof fn law_where_files_are(home: Seq<u8>, name: Seq<char>)
    requires
        home.len() > 0,
        home.last() != 47,
    ensures
        file_path(Some(home), name) == Some(
            joined(
                joined(
                    joined(joined(home, encode_utf8(".config"@)), encode_utf8("maolan"@)),
                    encode_utf8("player"@),
                ),
                encode_utf8(name),
            ),
        ),
        file_path(None, name) is None,
{
}

/// The player starts with the playlists and settings of the last session:
/// with its volume, its loop and its title format, no song playing and no
/// window open. It reads the titles of the active tab, registers the tray and
/// opens the engine with the wanted buffer.
pub proof fn law_start(
    playlists: StoreModel,
    settings: SettingsModel,
    device_override: Option<Seq<char>>,
)
    ensures
        ({
            let outcome = started(playlists, settings, device_override);
            let app = outcome.app;
            &&& app.playlists == playlists
            &&& app.settings == settings
            &&& app.device_override == device_override
            &&& app.volume_db == settings.volume_db
            &&& app.loop_playlist == settings.loop_playlist
            &&& app.title_format_edit == settings.title_format
            &&& app.status == "Starting audio engine..."@
            &&& !app.engine_ready && !app.playing && !app.paused && !app.show_settings
            &&& app.main_window is None && app.selected is None && app.setup is None && app.seek
                is None && app.renaming_tab is None && app.paused_position is None
            &&& app.position_frames == 0 && app.song_length_frames == 0
            &&& outcome.effects == seq![
                EffectModel::ReadTitles(
                    playlists.playlists[playlists.active_tab as int].entries,
                ),
                EffectModel::InitTray,
                EffectModel::OpenEngine {
                    device: match device_override {
                        Some(device) => device,
                        None => settings.device_id,
                    },
                    period_frames: settings.period_frames,
                    n_periods: settings.n_periods,
                    ring_buffer_multiplier: settings.ring_buffer_multiplier,
                },
            ]
        }),
{
}

// The settings screen.

/// The periods that are offered for a device.
pub open spec fn periods_of(device: DeviceModel) -> Seq<usize> {
    device_ladder(
        device.max_buffer_bytes,
        if device.max_channels == 0 {
            1
        } else {
            device.max_channels
        },
        32,
    )
}

/// The settings screen opens with the device in use: its backend, the devices
/// of that, this device or else the first, its periods, and the period in use
/// or else the largest.
pub proof fn law_screen_opens(app: AppModel, readings: Readings, outcome: Outcome)
    requires
        app.wf(),
        app.leads_to(Message::SettingsPressed, readings, outcome),
    ensures
        ({
            let host = readings.host;
            let device_id = match app.device_override {
                Some(device) => device,
                None => app.settings.device_id,
            };
            let backend = device_backend(host.platform, device_id);
            &&& outcome.effects.len() == 0
            &&& outcome.app == AppModel {
                show_settings: true,
                setup: outcome.app.setup,
                ..app
            }
            &&& outcome.app.setup matches Some(setup) && {
                let devices = setup.output_devices;
                &&& setup.backends == host.platform.backends()
                &&& setup.selected_backend == backend
                &&& are_discovered(host, backend, devices)
                &&& setup.selected_output_device matches Some(device) && {
                    &&& devices.contains(device)
                    &&& (exists|i: int| 0 <= i < devices.len() && (#[trigger] devices[i]).id
                        == device_id) ==> device.id == device_id
                    &&& !(exists|i: int| 0 <= i < devices.len() && (#[trigger] devices[i]).id
                        == device_id) ==> device == devices[0]
                    &&& setup.period_frames == periods_of(device)
                    &&& setup.period_frames.contains(app.settings.period_frames)
                        ==> setup.selected_period_frames == Some(app.settings.period_frames)
                    &&& !setup.period_frames.contains(app.settings.period_frames)
                        && setup.period_frames.len() > 0 ==> setup.selected_period_frames == Some(
                        setup.period_frames.last(),
                    )
                }
            }
        }),
{
    let host = readings.host;
    let settings = app.effective();
    let backend = device_backend(host.platform, settings.device_id);
    law_discovery_exists(host, backend);
    let devices = discovered(host, backend);
    crate::device::law_discovered_devices(host, backend, devices);
    lemma_device_from(devices, settings.device_id, 0);
    assert(devices.contains(devices[0]));
}

proof fn lemma_device_from(devices: Seq<DeviceModel>, id: Seq<char>, from: int)
    requires
        0 <= from <= devices.len(),
    ensures
        match crate::setup::device_from(devices, id, from) {
            Some(device) => device.id == id && devices.contains(device),
            None => forall|i: int| from <= i < devices.len() ==> (#[trigger] devices[i]).id != id,
        },
    decreases devices.len() - from,
{
    if from < devices.len() {
        if devices[from].id == id {
            assert(devices.contains(devices[from]));
        } else {
            lemma_device_from(devices, id, from + 1);
        }
    }
}

/// On the screen another backend offers its devices, and takes the first one
/// with its largest period; another device keeps the period where it offers
/// it, and else takes its largest; and a period is taken as it is.
pub proof fn law_screen_choices(
    app: AppModel,
    readings: Readings,
    action: SetupAction,
    outcome: Outcome,
)
    requires
        app.wf(),
        app.setup is Some,
        app.leads_to(Message::SettingsAction(action), readings, outcome),
    ensures
        ({
            let old = app.setup->0;
            let chooses = action is BackendSelected || action is OutputDeviceSelected || action
                is PeriodFramesSelected;
            &&& chooses ==> outcome.effects.len() == 0 && outcome.app == (AppModel {
                setup: outcome.app.setup,
                ..app
            }) && outcome.app.setup is Some && outcome.app.setup->0.backends == old.backends
            &&& action matches SetupAction::BackendSelected(backend) ==> {
                let new = outcome.app.setup->0;
                &&& new.selected_backend == backend
                &&& are_discovered(readings.host, backend, new.output_devices)
                &&& new.selected_output_device == Some(new.output_devices[0])
                &&& new.period_frames == periods_of(new.output_devices[0])
                &&& new.period_frames.len() > 0 ==> new.selected_period_frames == Some(
                    new.period_frames.last(),
                )
            }
            &&& action matches SetupAction::OutputDeviceSelected(device) ==> {
                let new = outcome.app.setup->0;
                &&& new.selected_backend == old.selected_backend
                &&& new.output_devices == old.output_devices
                &&& new.selected_output_device == Some(device@)
                &&& new.period_frames == periods_of(device@)
                &&& (old.selected_period_frames is Some && new.period_frames.contains(
                    old.selected_period_frames->0,
                )) ==> new.selected_period_frames == old.selected_period_frames
                &&& !(old.selected_period_frames is Some && new.period_frames.contains(
                    old.selected_period_frames->0,
                )) && new.period_frames.len() > 0 ==> new.selected_period_frames == Some(
                    new.period_frames.last(),
                )
            }
            &&& action matches SetupAction::PeriodFramesSelected(frames) ==> {
                let new = outcome.app.setup->0;
                &&& new.selected_period_frames == Some(frames)
                &&& new.selected_backend == old.selected_backend
                &&& new.output_devices == old.output_devices
                &&& new.selected_output_device == old.selected_output_device
                &&& new.period_frames == old.period_frames
            }
            &&& action is Other ==> outcome.app == app && outcome.effects.len() == 0
        }),
{
    if let SetupAction::BackendSelected(backend) = action {
        law_discovery_exists(readings.host, backend);
        crate::device::law_discovered_devices(
            readings.host,
            backend,
            discovered(readings.host, backend),
        );
    }
}

/// The start button takes the choices of the screen over as settings, keeps
/// them, forgets what plays, and opens the engine anew with them. The device
/// of the command line still wins.
pub proof fn law_screen_start(app: AppModel, readings: Readings, outcome: Outcome)
    requires
        app.wf(),
        app.setup is Some,
        app.leads_to(Message::SettingsAction(SetupAction::Start), readings, outcome),
    ensures
        ({
            let chosen = app.setup->0;
            let settings = SettingsModel {
                device_id: match chosen.selected_output_device {
                    Some(device) => device.id,
                    None => default_device_name(
                        chosen.selected_backend,
                        readings.host.sound_unit,
                    ),
                },
                period_frames: match chosen.selected_period_frames {
                    Some(frames) => frames,
                    None => 1024,
                },
                n_periods: 2,
                ring_buffer_multiplier: 8,
                volume_db: app.volume_db,
                title_format: app.settings.title_format,
                loop_playlist: app.loop_playlist,
            };
            &&& outcome.app == AppModel {
                setup: None,
                settings,
                show_settings: false,
                playing: false,
                paused: false,
                paused_position: None,
                playlists: StoreModel { current: None, ..app.playlists },
                song_length_frames: 0,
                tray_song: None,
                tray_pushed_secs: None,
                engine_ready: false,
                status: "Reopening audio device..."@,
                playlist_revision: (app.playlist_revision + 1) as u64,
                ..app
            }
            &&& outcome.effects == seq![
                EffectModel::SaveSettings { settings, report: false },
                EffectModel::SaveState(
                    PlayerState {
                        active_tab: app.playlists.active_tab,
                        current_tab: app.playlists.current_tab,
                        current: None,
                    },
                ),
                EffectModel::PushTooltip(
                    InfoModel {
                        artist: Seq::empty(),
                        song: None,
                        elapsed_secs: (app.position_frames / 48_000) as u64,
                        total_secs: 0,
                    },
                ),
                EffectModel::ReopenEngine {
                    device: match app.device_override {
                        Some(device) => device,
                        None => settings.device_id,
                    },
                    period_frames: settings.period_frames,
                    n_periods: 2,
                    ring_buffer_multiplier: 8,
                },
            ]
        }),
{
}

/// The screen is closed without a change, and without it its buttons do
/// nothing.
pub proof fn law_screen_closes(
    app: AppModel,
    readings: Readings,
    action: SetupAction,
    outcome: Outcome,
)
    requires
        app.wf(),
    ensures
        app.leads_to(Message::SettingsClosed, readings, outcome) ==> outcome.app == (AppModel {
            show_settings: false,
            setup: None,
            ..app
        }) && outcome.effects.len() == 0,
        app.setup is None && app.leads_to(Message::SettingsAction(action), readings, outcome)
            ==> outcome.app == app && outcome.effects.len() == 0,
{
}

// Equalities and limits.

/// Devices are the same exactly if their ids are.
pub proof fn law_same_devices(a: Device, b: Device)
    ensures
        vstd::std_specs::cmp::PartialEqSpec::eq_spec(&a, &b) <==> a.id@ == b.id@,
{
}

/// Levels are the same as floats are: two numbers by their bits, but zeros of
/// either sign are the same, and what is no number is like nothing.
pub proof fn law_same_levels(a: Level, b: Level)
    ensures
        ({
            let same = vstd::std_specs::cmp::PartialEqSpec::eq_spec(&a, &b);
            let nan = |l: Level| 0x7f80_0000 < l.bits < 0x8000_0000 || 0xff80_0000 < l.bits;
            let zero = |l: Level| l.bits == 0 || l.bits == 0x8000_0000;
            same <==> !nan(a) && !nan(b) && (a.bits == b.bits || zero(a) && zero(b))
        }),
{
}

/// Settings are the same exactly if all of them are.
pub proof fn law_same_settings(a: Settings, b: Settings)
    ensures
        vstd::std_specs::cmp::PartialEqSpec::eq_spec(&a, &b) <==> ({
            &&& a.device_id@ == b.device_id@
            &&& a.period_frames == b.period_frames
            &&& a.n_periods == b.n_periods
            &&& a.ring_buffer_multiplier == b.ring_buffer_multiplier
            &&& vstd::std_specs::cmp::PartialEqSpec::eq_spec(&a.volume_db, &b.volume_db)
            &&& a.title_format@ == b.title_format@
            &&& a.loop_playlist == b.loop_playlist
        }),
{
}

/// A reply of the engine is waited for five seconds, and it plays 48000
/// frames a second.
pub proof fn law_limits()
    ensures
        REPLY_NANOS == 5_000_000_000,
        SAMPLE_RATE_HZ == 48_000,
        DOUBLE_CLICK_NANOS == 400_000_000,
{
}

/// A line of the listing of ALSA without a second colon is labelled by all
/// that follows the numbers.
pub proof fn law_short_alsa_lines(
    line: Seq<char>,
    numbers: Seq<char>,
    card: Seq<char>,
    device: Seq<char>,
    rest: Seq<char>,
)
    requires
        line == numbers.push(':') + rest,
        !numbers.contains(':'),
        trimmed(numbers) == card.push('-') + device,
        !card.contains('-'),
        !device.contains('-'),
        !rest.contains(':'),
        parse_number(card, 0xffff_ffff) is Some,
        parse_number(device, 0xffff_ffff) is Some,
        has_part(rest, "playback"@),
    ensures
        ({
            let id = "hw:"@ + card + ","@ + device;
            trimmed(rest).len() > 0 ==> alsa_device(line) == Some(
                DeviceModel {
                    id,
                    label: trimmed(rest) + " ("@ + id + ")"@,
                    max_buffer_bytes: 0,
                    max_channels: 0,
                },
            )
        }),
{
    let at = numbers.len() as int;
    assert(line[at] == ':');
    assert forall|i: int| 0 <= i < at implies line[i] != ':' by {
        assert(line[i] == numbers[i]);
        assert(numbers.contains(numbers[i]));
    }
    lemma_find_from(line, ':', 0, at);
    assert(line.take(at) =~= numbers);
    assert(line.skip(at + 1) =~= rest);
    lemma_split_concat(card, '-', device);
    lemma_split_single(card, '-');
    lemma_split_single(device, '-');
    assert(split_on(trimmed(numbers), '-') =~= seq![card, device]);
    assert forall|i: int| 0 <= i < rest.len() implies rest[i] != ':' by {
        assert(rest.contains(rest[i]));
    }
    lemma_find_from(rest, ':', 0, rest.len() as int);
    assert(rest.take(rest.len() as int) =~= rest);
}

} // verus!

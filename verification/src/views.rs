//! What is said of values by their views is said of all their parts.
use vstd::prelude::*;

use crate::app::{Effect, EffectModel, PlayerApp};
use crate::device::{devices_view, Device};
use crate::engine::{
    Awaited, ClipRequest, DeviceRequest, EngineRequest, RequestModel, Step, StepModel, TrackRequest,
};
use crate::path::{paths_view, SongPath};
use crate::playlist::{playlists_view, PlayerState, Playlist, Playlists};
use crate::reorder::texts_view;
use crate::settings::{Level, Settings, StoredSettings};
use crate::setup::AudioSetup;
use crate::title::{text_view, AudioMetadata};
use crate::tray::TrayInfo;

verus! {

/// The view of a request for a device has all of its parts.
pub proof fn law_view_of_device_request(v: DeviceRequest)
    ensures
        v@.device == v.device@,
        v@.sample_rate_hz == v.sample_rate_hz,
        v@.bits == v.bits,
        v@.exclusive == v.exclusive,
        v@.period_frames == v.period_frames,
        v@.n_periods == v.n_periods,
        v@.sync_mode == v.sync_mode,
        v@.ring_buffer_multiplier == v.ring_buffer_multiplier,
        v@.auto_open_midi_devices == v.auto_open_midi_devices,
{
}

/// The view of a request for a track has all of its parts.
pub proof fn law_view_of_track_request(v: TrackRequest)
    ensures
        v@.name == v.name@,
        v@.audio_ins == v.audio_ins,
        v@.midi_ins == v.midi_ins,
        v@.audio_outs == v.audio_outs,
        v@.midi_outs == v.midi_outs,
        v@.folder == v.folder,
{
}

/// The view of a request for a clip has all of its parts.
pub proof fn law_view_of_clip_request(v: ClipRequest)
    ensures
        v@.name == v.name@,
        v@.track == v.track@,
        v@.start == v.start,
        v@.length == v.length,
        v@.offset == v.offset,
        v@.input_channel == v.input_channel,
        v@.muted == v.muted,
        v@.reversed == v.reversed,
        v@.gain == v.gain,
        v@.fade_enabled == v.fade_enabled,
        v@.fade_in_samples == v.fade_in_samples,
        v@.fade_out_samples == v.fade_out_samples,
{
}

/// The view of a device has all of its parts.
pub proof fn law_view_of_device(v: Device)
    ensures
        v@.id == v.id@,
        v@.label == v.label@,
        v@.max_buffer_bytes == v.max_buffer_bytes,
        v@.max_channels == v.max_channels,
{
}

/// The view of the settings has all of its parts.
pub proof fn law_view_of_settings(v: Settings)
    ensures
        v@.device_id == v.device_id@,
        v@.period_frames == v.period_frames,
        v@.n_periods == v.n_periods,
        v@.ring_buffer_multiplier == v.ring_buffer_multiplier,
        v@.volume_db == v.volume_db,
        v@.title_format == v.title_format@,
        v@.loop_playlist == v.loop_playlist,
{
}

/// The view of settings as they are kept has all of its parts.
pub proof fn law_view_of_stored_settings(v: StoredSettings)
    ensures
        v@.device_id == text_view(v.device_id),
        v@.period_frames == v.period_frames,
        v@.n_periods == v.n_periods,
        v@.ring_buffer_multiplier == v.ring_buffer_multiplier,
        v@.volume_db == v.volume_db,
        v@.title_format == text_view(v.title_format),
        v@.loop_playlist == v.loop_playlist,
{
}

/// The view of the settings screen has all of its parts.
pub proof fn law_view_of_audio_setup(v: AudioSetup)
    ensures
        v@.backends == v.backends@,
        v@.selected_backend == v.selected_backend,
        v@.output_devices == devices_view(v.output_devices@),
        v.selected_output_device matches Some(inner) ==> v@.selected_output_device == Some(inner@),
        v.selected_output_device is None ==> v@.selected_output_device is None,
        v@.period_frames == v.period_frames@,
        v@.selected_period_frames == v.selected_period_frames,
{
}

/// The view of tags has all of its parts.
pub proof fn law_view_of_audio_metadata(v: AudioMetadata)
    ensures
        v@.artist == text_view(v.artist),
        v@.title == text_view(v.title),
        v@.album == text_view(v.album),
        v@.track_number == text_view(v.track_number),
        v@.date == text_view(v.date),
        v@.genre == text_view(v.genre),
{
}

/// The view of what the tray shows has all of its parts.
pub proof fn law_view_of_tray_info(v: TrayInfo)
    ensures
        v@.artist == v.artist@,
        v@.song == text_view(v.song),
        v@.elapsed_secs == v.elapsed_secs,
        v@.total_secs == v.total_secs,
{
}

/// The view of a playlist has all of its parts.
pub proof fn law_view_of_playlist(v: Playlist)
    ensures
        v@.name == v.name@,
        v@.entries == paths_view(v.entries@),
{
}

/// The view of the store has all of its parts.
pub proof fn law_view_of_playlists(v: Playlists)
    ensures
        v@.playlists == playlists_view(v.playlists@),
        v@.active_tab == v.active_tab,
        v@.current_tab == v.current_tab,
        v@.current == v.current,
{
}

/// The view of the player has all of its parts.
pub proof fn law_view_of_player_app(v: PlayerApp)
    ensures
        v@.engine_ready == v.engine_ready,
        v@.status == v.status@,
        v@.playlists == v.playlists@,
        v@.titles == texts_view(v.titles@),
        v@.selected == v.selected,
        v@.playing == v.playing,
        v@.paused == v.paused,
        v@.paused_position == v.paused_position,
        v@.song_length_frames == v.song_length_frames,
        v@.position_frames == v.position_frames,
        v@.seek == v.seek,
        v@.last_row_press == v.last_row_press,
        v@.last_tab_press == v.last_tab_press,
        v@.renaming_tab == v.renaming_tab,
        v@.rename_draft == v.rename_draft@,
        v@.volume_db == v.volume_db,
        v@.levels_db == v.levels_db@,
        v@.loop_playlist == v.loop_playlist,
        v@.title_format_edit == v.title_format_edit@,
        v@.main_window == v.main_window,
        v@.settings == v.settings@,
        v@.device_override == text_view(v.device_override),
        v@.show_settings == v.show_settings,
        v.setup matches Some(inner) ==> v@.setup == Some(inner@),
        v.setup is None ==> v@.setup is None,
        v@.playlist_revision == v.playlist_revision,
        v.tray_song matches Some(inner) ==> v@.tray_song == Some((inner.0@, inner.1@)),
        v.tray_song is None ==> v@.tray_song is None,
        v@.tray_pushed_secs == v.tray_pushed_secs,
{
}

/// Lists are seen item by item, and a text that may be missing as it is.
pub proof fn law_views_of_lists(
    paths: Seq<SongPath>,
    playlists: Seq<Playlist>,
    devices: Seq<Device>,
    texts: Seq<String>,
    text: String,
    i: int,
)
    ensures
        paths_view(paths).len() == paths.len(),
        0 <= i < paths.len() ==> paths_view(paths)[i] == paths[i].bytes@,
        playlists_view(playlists).len() == playlists.len(),
        0 <= i < playlists.len() ==> playlists_view(playlists)[i] == playlists[i]@,
        devices_view(devices).len() == devices.len(),
        0 <= i < devices.len() ==> devices_view(devices)[i] == devices[i]@,
        texts_view(texts).len() == texts.len(),
        0 <= i < texts.len() ==> texts_view(texts)[i] == texts[i]@,
        text_view(Some(text)) == Some(text@),
        text_view(None) is None,
{
}

/// Requests are seen as what they are, with all their parts.
pub proof fn law_views_of_requests(
    frames: usize,
    on: bool,
    track: String,
    level: Level,
    device: DeviceRequest,
    added: TrackRequest,
    clip: ClipRequest,
    indices: Vec<usize>,
    to: String,
    port: usize,
    awaited: Awaited,
    request: EngineRequest,
)
    ensures
        EngineRequest::Stop@ == RequestModel::Stop,
        EngineRequest::Play@ == RequestModel::Play,
        EngineRequest::TransportPosition(frames)@ == RequestModel::TransportPosition(frames),
        EngineRequest::SetClipPlaybackEnabled(on)@ == RequestModel::SetClipPlaybackEnabled(on),
        EngineRequest::TrackLevel(track, level)@ == RequestModel::TrackLevel(track@, level),
        EngineRequest::OpenAudioDevice(device)@ == RequestModel::OpenAudioDevice(device@),
        EngineRequest::AddTrack(added)@ == RequestModel::AddTrack(added@),
        EngineRequest::AddClip(clip)@ == RequestModel::AddClip(clip@),
        (EngineRequest::RemoveClip { track, indices })@ == (RequestModel::RemoveClip {
            track: track@,
            indices: indices@,
        }),
        (EngineRequest::Connect {
            from_track: track,
            from_port: frames,
            to_track: to,
            to_port: port,
        })@ == (RequestModel::Connect {
            from_track: track@,
            from_port: frames,
            to_track: to@,
            to_port: port,
        }),
        Step::Send(request)@ == StepModel::Send(request@),
        Step::Try(request)@ == StepModel::Try(request@),
        Step::Await(awaited)@ == StepModel::Await(awaited),
{
}

/// Effects are seen as what they are, with all their parts.
pub proof fn law_views_of_effects(
    text: String,
    state: PlayerState,
    settings: Settings,
    report: bool,
    paths: Vec<SongPath>,
    path: SongPath,
    index: usize,
    info: TrayInfo,
    request: EngineRequest,
    id: u64,
    a: usize,
    b: usize,
)
    ensures
        Effect::PickFiles@ == EffectModel::PickFiles,
        Effect::PickFolder@ == EffectModel::PickFolder,
        Effect::SavePlaylists(text)@ == EffectModel::SavePlaylists(text@),
        Effect::SaveState(state)@ == EffectModel::SaveState(state),
        (Effect::SaveSettings { settings, report })@ == (EffectModel::SaveSettings {
            settings: settings@,
            report,
        }),
        Effect::ReadTitles(paths)@ == EffectModel::ReadTitles(paths_view(paths@)),
        Effect::ReadSongTags(path)@ == EffectModel::ReadSongTags(path.bytes@),
        Effect::PlayIndex(index)@ == EffectModel::PlayIndex(index),
        Effect::PushTooltip(info)@ == EffectModel::PushTooltip(info@),
        Effect::SendEngine(request)@ == EffectModel::SendEngine(request@),
        Effect::PlaySong(path)@ == EffectModel::PlaySong(path.bytes@),
        Effect::ResumeSong(index)@ == EffectModel::ResumeSong(index),
        (Effect::OpenEngine {
            device: text,
            period_frames: index,
            n_periods: a,
            ring_buffer_multiplier: b,
        })@ == (EffectModel::OpenEngine {
            device: text@,
            period_frames: index,
            n_periods: a,
            ring_buffer_multiplier: b,
        }),
        (Effect::ReopenEngine {
            device: text,
            period_frames: index,
            n_periods: a,
            ring_buffer_multiplier: b,
        })@ == (EffectModel::ReopenEngine {
            device: text@,
            period_frames: index,
            n_periods: a,
            ring_buffer_multiplier: b,
        }),
        Effect::InitTray@ == EffectModel::InitTray,
        Effect::FocusRenameInput@ == EffectModel::FocusRenameInput,
        Effect::OpenWindow@ == EffectModel::OpenWindow,
        Effect::FocusWindow(id)@ == EffectModel::FocusWindow(id),
        Effect::CloseWindow(id)@ == EffectModel::CloseWindow(id),
        Effect::Exit@ == EffectModel::Exit,
{
}

} // verus!

//! What the window and the tray show.
use vstd::prelude::*;

use crate::app::{AppModel, Message};
use crate::input::{key_message_of, KeyPress};
use crate::reorder::lowercase;
use crate::text::decimal;
use crate::title::title_of;
use crate::tray::{alpha_first, minutes_text, unmultiplied, InfoModel, TrayModel};

verus! {

/// There is a row for every song of the active tab, in their order, with its
/// title, or its file stem where that is not known. The row of the current
/// song is marked where its tab is shown, and that of the selection; rows can
/// be pressed while there is an engine.
pub proof fn law_rows(app: AppModel, i: int)
    requires
        app.playlists.wf(),
        0 <= i < app.playlists.playlists[app.playlists.active_tab as int].entries.len(),
    ensures
        ({
            let songs = app.playlists.playlists[app.playlists.active_tab as int].entries;
            let row = app.rows()[i];
            &&& app.rows().len() == songs.len()
            &&& i < app.titles.len() ==> row.title == app.titles[i]
            &&& i >= app.titles.len() ==> row.title == title_of(songs[i])
            &&& row.is_current <==> app.playlists.current_tab == app.playlists.active_tab
                && app.playlists.current == Some(i as usize)
            &&& row.is_selected <==> app.selected == Some(i as usize)
            &&& row.enabled == app.engine_ready
        }),
{
}

/// At most one row is marked as the current song, and one as selected.
pub proof fn law_marks_are_single(app: AppModel, i: int, j: int)
    requires
        app.playlists.wf(),
        0 <= i < j < app.rows().len(),
    ensures
        !(app.rows()[i].is_current && app.rows()[j].is_current),
        !(app.rows()[i].is_selected && app.rows()[j].is_selected),
{
    assert(app.rows().len() <= usize::MAX);
    assert(i as usize != j as usize);
}

/// There is a tab for every playlist, in their order, with its name. The one
/// that is shown is marked, and so is the one whose name is edited.
pub proof fn law_tabs(app: AppModel, i: int)
    requires
        app.playlists.wf(),
        0 <= i < app.playlists.playlists.len(),
    ensures
        app.tabs().len() == app.playlists.playlists.len(),
        app.tabs()[i].name == app.playlists.playlists[i].name,
        app.tabs()[i].is_active <==> i == app.playlists.active_tab,
        app.tabs()[i].is_renaming <==> app.renaming_tab == Some(i as usize),
{
}

/// Next and previous need more than one song in the tab that is shown, the
/// toggle a song to play or to pause, stop one that plays or is paused, and
/// remove a selection. The toggle shows the pause symbol while a song plays.
pub proof fn law_buttons(app: AppModel)
    requires
        app.playlists.wf(),
    ensures
        ({
            let songs = app.playlists.playlists[app.playlists.active_tab as int].entries;
            let buttons = app.controls();
            let sounds = app.playing && !app.paused;
            &&& buttons.next <==> app.engine_ready && songs.len() > 1
            &&& buttons.previous <==> app.engine_ready && songs.len() > 1
            &&& buttons.shows_pause <==> sounds
            &&& buttons.play_toggle <==> app.engine_ready && (sounds || app.selected is Some
                || app.playlists.current is Some)
            &&& buttons.stop <==> app.playing || app.paused
            &&& buttons.remove <==> app.selected is Some
            &&& buttons.loop_on == app.loop_playlist
        }),
{
}

/// The key of the rows tells the revision, the engine, the selection and the
/// current song apart.
pub proof fn law_rows_key(a: AppModel, b: AppModel)
    requires
        a.rows_key() == b.rows_key(),
    ensures
        a.playlist_revision == b.playlist_revision,
        a.engine_ready == b.engine_ready,
        a.selected == b.selected,
        a.playlists.current == b.playlists.current,
        (a.playlists.active_tab == a.playlists.current_tab) == (b.playlists.active_tab
            == b.playlists.current_tab),
{
}

/// A time is its whole minutes, a colon and the seconds that are left, in two
/// digits.
pub proof fn law_times(minutes: nat, seconds: nat)
    requires
        seconds < 60,
    ensures
        ({
            let text = minutes_text(60 * minutes + seconds);
            &&& seconds < 10 ==> text == decimal(minutes) + ":"@ + "0"@ + decimal(seconds)
            &&& seconds >= 10 ==> text == decimal(minutes) + ":"@ + decimal(seconds)
        }),
{
    let all = 60 * minutes + seconds;
    assert(all / 60 == minutes && all % 60 == seconds);
    if seconds < 10 {
        assert(minutes_text(all) =~= decimal(minutes) + ":"@ + "0"@ + decimal(seconds));
    }
}

/// The tooltip has the name of the player, and tells artist, song and time
/// while a song is loaded.
pub proof fn law_tooltips(info: InfoModel)
    ensures
        info.tip().0 == "Maolan Player"@,
        info.song is None ==> info.tip().1 == Seq::<char>::empty(),
        info.song matches Some(song) ==> info.tip().1 == "Artist: "@ + info.artist + "\nSong: "@
            + song + "\nTime: "@ + minutes_text(info.elapsed_secs as nat) + " / "@ + minutes_text(
            info.total_secs as nat,
        ),
{
}

/// A tray that is told of a change shows it, and is to be drawn anew exactly
/// where what it shows has changed. Its events are left alone.
pub proof fn law_tray_shows_what_it_is_told(tray: TrayModel, info: InfoModel)
    requires
        tray.tooltip == tray.info.tip(),
    ensures
        tray.told(info).info == info,
        tray.told(info).tooltip == info.tip(),
        tray.told(info).events == tray.events,
        tray.shows_new(info) <==> info.tip() != tray.tooltip,
{
}

/// A pixel of the icon: premultiplied red, green, blue and alpha become
/// alpha, red, green and blue, each divided by the alpha and rounded to the
/// nearest. Without alpha they stay as they are.
pub proof fn law_pixels(data: Seq<u8>, i: int)
    requires
        0 <= i,
        4 * i + 3 < data.len(),
    ensures
        ({
            let alpha = data[4 * i + 3];
            let even = unmultiplied(data);
            let turned = alpha_first(data);
            &&& even.len() == data.len()
            &&& turned.len() == data.len()
            &&& even[4 * i + 3] == alpha
            &&& forall|c: int|
                #![trigger even[4 * i + c]]
                0 <= c < 3 ==> {
                    let channel = data[4 * i + c];
                    let exact = (2 * 255 * channel + alpha) / (2 * alpha as int);
                    &&& alpha == 0 ==> even[4 * i + c] == channel
                    &&& alpha > 0 && exact <= 255 ==> even[4 * i + c] == exact
                    &&& alpha > 0 && exact > 255 ==> even[4 * i + c] == 255
                }
            &&& turned[4 * i] == alpha
            &&& turned[4 * i + 1] == data[4 * i]
            &&& turned[4 * i + 2] == data[4 * i + 1]
            &&& turned[4 * i + 3] == data[4 * i + 2]
        }),
{
    let alpha = data[4 * i + 3];
    let even = unmultiplied(data);
    assert((4 * i) % 4 == 0 && (4 * i + 1) % 4 == 1 && (4 * i + 2) % 4 == 2 && (4 * i + 3) % 4
        == 3);
    assert forall|c: int|
        #![trigger even[4 * i + c]]
        0 <= c < 3 implies {
        let channel = data[4 * i + c];
        let exact = (2 * 255 * channel + alpha) / (2 * alpha as int);
        &&& alpha == 0 ==> even[4 * i + c] == channel
        &&& alpha > 0 && exact <= 255 ==> even[4 * i + c] == exact
        &&& alpha > 0 && exact > 255 ==> even[4 * i + c] == 255
    } by {
        assert((4 * i + c) % 4 == c);
        let channel = data[4 * i + c] as int;
        let a = alpha as int;
        if a > 0 {
            assert((channel * 255 + a / 2) / a == (2 * 255 * channel + a) / (2 * a))
                by (nonlinear_arith)
                requires
                    a > 0,
                    channel >= 0,
            {
                let n = channel * 255;
                let q = (n + a / 2) / a;
                assert(a * q <= n + a / 2 < a * (q + 1));
                assert(2 * (a / 2) <= a <= 2 * (a / 2) + 1);
                assert((2 * a) * q <= 2 * n + a);
                assert(2 * n + a < (2 * a) * (q + 1));
                assert((2 * n + a) / (2 * a) == q);
            }
        }
    }
}

/// The letters Z, X, C, V and B, in upper or lower case, are previous, play,
/// pause, stop and next; escape ends a rename; other keys do nothing.
pub proof fn law_shortcuts(text: String)
    ensures
        ({
            let message = key_message_of(
                KeyPress::Character { text, control: false, other_modifier: false },
            );
            let low = lowercase(text@);
            &&& low == "z"@ ==> message == Message::PreviousPressed
            &&& low == "x"@ ==> message == Message::PlayPressed
            &&& low == "c"@ ==> message == Message::PausePressed
            &&& low == "v"@ ==> message == Message::StopPressed
            &&& low == "b"@ ==> message == Message::NextPressed
            &&& low != "z"@ && low != "x"@ && low != "c"@ && low != "v"@ && low != "b"@ ==> message
                == Message::Ignored
        }),
        key_message_of(KeyPress::Escape) == Message::TabRenameCancelled,
        key_message_of(KeyPress::Other) == Message::Ignored,
{
    reveal_strlit("z");
    reveal_strlit("x");
    reveal_strlit("c");
    reveal_strlit("v");
    reveal_strlit("b");
    assert("z"@[0] == 'z' && "x"@[0] == 'x' && "c"@[0] == 'c' && "v"@[0] == 'v' && "b"@[0] == 'b');
}

/// A tray that is told of something new shows it, and what it is told again
/// changes nothing.
pub proof fn law_tray_news(tray: TrayModel, info: InfoModel)
    ensures
        info != tray.info ==> {
            &&& tray.told(info) == TrayModel { info, tooltip: info.tip(), ..tray }
            &&& tray.shows_new(info) <==> info.tip() != tray.tooltip
        },
        info == tray.info ==> tray.told(info) == tray && !tray.shows_new(info),
{
}

} // verus!

//! The tray icon: its tooltip, its menu, the events it sends and its pixels.
use vstd::prelude::*;
use vstd::string::*;

use crate::text::{decimal, decimal_chars, push_chars, same_text};
use crate::title::text_view;

verus! {

/// What the tray icon asks the player to do.
#[derive(Debug, Clone, Copy, PartialEq, Eq, Structural)]
pub enum TrayEvent {
    ShowRequested,
    PlayToggleRequested,
    QuitRequested,
}

/// What is playing, for the tooltip.
#[derive(Debug, PartialEq, Eq)]
pub struct TrayInfo {
    /// Empty where it is not known.
    pub artist: String,
    /// `None` where no song is loaded.
    pub song: Option<String>,
    pub elapsed_secs: u64,
    pub total_secs: u64,
}

#[verifier::ext_equal]
pub struct InfoModel {
    pub artist: Seq<char>,
    pub song: Option<Seq<char>>,
    pub elapsed_secs: u64,
    pub total_secs: u64,
}

impl View for TrayInfo {
    type V = InfoModel;

    open spec fn view(&self) -> InfoModel {
        InfoModel {
            artist: self.artist@,
            song: text_view(self.song),
            elapsed_secs: self.elapsed_secs,
            total_secs: self.total_secs,
        }
    }
}

/// No song is loaded.
pub open spec fn no_info() -> InfoModel {
    InfoModel { artist: Seq::empty(), song: None, elapsed_secs: 0, total_secs: 0 }
}

impl Default for TrayInfo {
    fn default() -> (r: Self)
        ensures
            r@ == no_info(),
    {
        let r = TrayInfo { artist: String::new(), song: None, elapsed_secs: 0, total_secs: 0 };
        assert(r@ =~= no_info());
        r
    }
}

impl Clone for TrayInfo {
    fn clone(&self) -> (r: Self)
        ensures
            r@ == self@,
    {
        TrayInfo {
            artist: self.artist.clone(),
            song: match &self.song {
                Some(song) => Some(song.clone()),
                None => None,
            },
            elapsed_secs: self.elapsed_secs,
            total_secs: self.total_secs,
        }
    }
}

/// Seconds as minutes and two digits of seconds.
pub open spec fn minutes_text(secs: nat) -> Seq<char> {
    decimal(secs / 60) + ":"@ + two_digits(secs % 60)
}

pub open spec fn two_digits(n: nat) -> Seq<char> {
    if n < 10 {
        "0"@ + decimal(n)
    } else {
        decimal(n)
    }
}

/// Seconds as `m:ss`.
pub fn format_mss(secs: u64) -> (r: String)
    ensures
        r@ == minutes_text(secs as nat),
{
    let mut r = String::new();
    let minutes = decimal_chars(secs / 60);
    push_chars(&mut r, &minutes);
    r.append(":");
    if secs % 60 < 10 {
        r.append("0");
    }
    let seconds = decimal_chars(secs % 60);
    push_chars(&mut r, &seconds);
    proof {
        reveal_strlit(":");
        reveal_strlit("0");
    }
    assert(r@ =~= minutes_text(secs as nat));
    r
}

impl InfoModel {
    /// The description of the tooltip.
    pub open spec fn description(self) -> Seq<char> {
        match self.song {
            Some(song) => "Artist: "@ + self.artist + "\nSong: "@ + song + "\nTime: "@
                + minutes_text(self.elapsed_secs as nat) + " / "@ + minutes_text(
                self.total_secs as nat,
            ),
            None => Seq::empty(),
        }
    }

    /// Title and description of the tooltip.
    pub open spec fn tip(self) -> (Seq<char>, Seq<char>) {
        ("Maolan Player"@, self.description())
    }
}

impl TrayInfo {
    /// Title and description of the tooltip.
    pub fn tooltip(&self) -> (r: (String, String))
        ensures
            r.0@ == self@.tip().0,
            r.1@ == self@.tip().1,
    {
        let title = "Maolan Player".to_owned();
        match &self.song {
            None => (title, String::new()),
            Some(song) => {
                let mut text = "Artist: ".to_owned();
                text.append(self.artist.as_str());
                text.append("\nSong: ");
                text.append(song.as_str());
                text.append("\nTime: ");
                let elapsed = format_mss(self.elapsed_secs);
                text.append(elapsed.as_str());
                text.append(" / ");
                let total = format_mss(self.total_secs);
                text.append(total.as_str());
                (title, text)
            },
        }
    }

    /// Whether two snapshots are the same.
    pub fn same(&self, other: &TrayInfo) -> (r: bool)
        ensures
            r == (self@ == other@),
    {
        let same_song: bool = match (&self.song, &other.song) {
            (Some(a), Some(b)) => same_text(a.as_str(), b.as_str()),
            (None, None) => true,
            _ => false,
        };
        same_song && same_text(self.artist.as_str(), other.artist.as_str()) && self.elapsed_secs
            == other.elapsed_secs && self.total_secs == other.total_secs
    }
}

// Events.

/// Events on their way to the player, in the order they were sent.
#[derive(Debug)]
pub struct EventQueue {
    pub waiting: Vec<TrayEvent>,
}

impl View for EventQueue {
    type V = Seq<TrayEvent>;

    open spec fn view(&self) -> Seq<TrayEvent> {
        self.waiting@
    }
}

impl EventQueue {
    pub fn new() -> (r: EventQueue)
        ensures
            r@ == Seq::<TrayEvent>::empty(),
    {
        EventQueue { waiting: Vec::new() }
    }

    pub fn send(&mut self, event: TrayEvent)
        ensures
            final(self)@ == old(self)@.push(event),
    {
        self.waiting.push(event);
    }

    /// The event that was sent first of those waiting.
    pub fn try_recv(&mut self) -> (r: Option<TrayEvent>)
        ensures
            match r {
                Some(event) => old(self)@.len() > 0 && event == old(self)@[0] && final(self)@ == old(
                    self,
                )@.skip(1),
                None => old(self)@.len() == 0 && final(self)@ == old(self)@,
            },
    {
        if self.waiting.len() == 0 {
            return None;
        }
        let event = self.waiting.remove(0);
        assert(self@ =~= old(self)@.skip(1));
        Some(event)
    }
}

/// An entry of the menu of the tray icon.
#[derive(Debug)]
pub enum TrayMenuItem {
    Standard { label: String, event: TrayEvent },
    Separator,
}

pub enum MenuItemModel {
    Standard { label: Seq<char>, event: TrayEvent },
    Separator,
}

impl View for TrayMenuItem {
    type V = MenuItemModel;

    open spec fn view(&self) -> MenuItemModel {
        match *self {
            TrayMenuItem::Standard { label, event } => MenuItemModel::Standard {
                label: label@,
                event,
            },
            TrayMenuItem::Separator => MenuItemModel::Separator,
        }
    }
}

/// The tray icon.
#[derive(Debug)]
pub struct PlayerTray {
    pub events: EventQueue,
    pub info: TrayInfo,
}

impl PlayerTray {
    pub fn id(&self) -> (r: String)
        ensures
            r@ == "maolan-player"@,
    {
        "maolan-player".to_owned()
    }

    pub fn title(&self) -> (r: String)
        ensures
            r@ == "Maolan Player"@,
    {
        "Maolan Player".to_owned()
    }

    /// Title and description of the tooltip.
    pub fn tool_tip(&self) -> (r: (String, String))
        ensures
            r.0@ == self.info@.tip().0,
            r.1@ == self.info@.tip().1,
    {
        self.info.tooltip()
    }

    /// The menu: show, a separator, quit.
    pub fn menu(&self) -> (r: Vec<TrayMenuItem>)
        ensures
            r@.map_values(|i: TrayMenuItem| i@) == seq![
                MenuItemModel::Standard {
                    label: "Show Maolan Player"@,
                    event: TrayEvent::ShowRequested,
                },
                MenuItemModel::Separator,
                MenuItemModel::Standard {
                    label: "Quit Maolan Player"@,
                    event: TrayEvent::QuitRequested,
                },
            ],
    {
        let mut items: Vec<TrayMenuItem> = Vec::new();
        items.push(
            TrayMenuItem::Standard {
                label: "Show Maolan Player".to_owned(),
                event: TrayEvent::ShowRequested,
            },
        );
        items.push(TrayMenuItem::Separator);
        items.push(
            TrayMenuItem::Standard {
                label: "Quit Maolan Player".to_owned(),
                event: TrayEvent::QuitRequested,
            },
        );
        items
    }

    /// A menu entry was chosen.
    pub fn chosen(&mut self, item: &TrayMenuItem)
        ensures
            final(self).info == old(self).info,
            final(self).events@ == match *item {
                TrayMenuItem::Standard { label, event } => old(self).events@.push(event),
                TrayMenuItem::Separator => old(self).events@,
            },
    {
        match item {
            TrayMenuItem::Standard { label: _, event } => {
                self.events.send(*event);
            },
            TrayMenuItem::Separator => {},
        }
    }

    /// The icon was clicked.
    pub fn activate(&mut self, _x: i32, _y: i32)
        ensures
            final(self).info == old(self).info,
            final(self).events@ == old(self).events@.push(TrayEvent::ShowRequested),
    {
        self.events.send(TrayEvent::ShowRequested);
    }

    /// The icon was clicked with the middle button.
    pub fn secondary_activate(&mut self, _x: i32, _y: i32)
        ensures
            final(self).info == old(self).info,
            final(self).events@ == old(self).events@.push(TrayEvent::PlayToggleRequested),
    {
        self.events.send(TrayEvent::PlayToggleRequested);
    }
}

// The tray as the player sees it.

/// What the player knows of the tray once it was initialized: the events on
/// their way, the snapshot given last and the tooltip shown last.
#[derive(Debug)]
pub struct TrayState {
    pub events: EventQueue,
    pub info: TrayInfo,
    pub tooltip: (String, String),
}

#[verifier::ext_equal]
pub struct TrayModel {
    pub events: Seq<TrayEvent>,
    pub info: InfoModel,
    pub tooltip: (Seq<char>, Seq<char>),
}

impl View for TrayState {
    type V = TrayModel;

    open spec fn view(&self) -> TrayModel {
        TrayModel {
            events: self.events@,
            info: self.info@,
            tooltip: (self.tooltip.0@, self.tooltip.1@),
        }
    }
}

pub open spec fn tray_view(tray: Option<TrayState>) -> Option<TrayModel> {
    match tray {
        Some(state) => Some(state@),
        None => None,
    }
}

/// A tray that was just initialized.
pub open spec fn fresh_tray() -> TrayModel {
    TrayModel {
        events: Seq::empty(),
        info: no_info(),
        tooltip: (Seq::empty(), Seq::empty()),
    }
}

impl TrayModel {
    /// The tray after a snapshot was given.
    pub open spec fn told(self, info: InfoModel) -> TrayModel {
        if info == self.info {
            self
        } else {
            TrayModel { info, tooltip: info.tip(), ..self }
        }
    }

    /// Whether the icon has to show another tooltip for a snapshot.
    pub open spec fn shows_new(self, info: InfoModel) -> bool {
        info != self.info && info.tip() != self.tooltip
    }
}

/// Initializes the tray once. Returns whether the icon is to be registered.
pub fn init_tray(tray: &mut Option<TrayState>) -> (r: bool)
    ensures
        r == (*old(tray) is None),
        tray_view(*final(tray)) == match tray_view(*old(tray)) {
            Some(state) => Some(state),
            None => Some(fresh_tray()),
        },
{
    if tray.is_some() {
        return false;
    }
    let state = TrayState {
        events: EventQueue::new(),
        info: TrayInfo::default(),
        tooltip: (String::new(), String::new()),
    };
    assert(state@ =~= fresh_tray());
    *tray = Some(state);
    true
}

/// The event that was sent first of those waiting; `None` before the tray
/// was initialized.
pub fn try_recv_event(tray: &mut Option<TrayState>) -> (r: Option<TrayEvent>)
    ensures
        match tray_view(*old(tray)) {
            Some(state) => if state.events.len() > 0 {
                r == Some(state.events[0]) && tray_view(*final(tray)) == Some(
                    TrayModel { events: state.events.skip(1), ..state },
                )
            } else {
                r is None && tray_view(*final(tray)) == Some(state)
            },
            None => r is None && *final(tray) is None,
        },
{
    match tray {
        Some(state) => state.events.try_recv(),
        None => None,
    }
}

/// Hands an event of the icon to the player. Before the tray was
/// initialized there is no icon to send one.
pub fn send_event(tray: &mut Option<TrayState>, event: TrayEvent)
    ensures
        tray_view(*final(tray)) == match tray_view(*old(tray)) {
            Some(state) => Some(TrayModel { events: state.events.push(event), ..state }),
            None => None,
        },
{
    match tray {
        Some(state) => {
            state.events.send(event);
        },
        None => {},
    }
}

/// Takes note of what is playing. Returns the snapshot where the icon has to
/// show another tooltip.
pub fn update_tooltip(tray: &mut Option<TrayState>, info: TrayInfo) -> (r: Option<TrayInfo>)
    ensures
        match tray_view(*old(tray)) {
            Some(state) => tray_view(*final(tray)) == Some(state.told(info@)) && match r {
                Some(shown) => state.shows_new(info@) && shown@ == info@,
                None => !state.shows_new(info@),
            },
            None => r is None && *final(tray) is None,
        },
{
    match tray {
        Some(state) => {
            let ghost before = state@;
            if state.info.same(&info) {
                return None;
            }
            let tooltip = info.tooltip();
            state.info = info.clone();
            if same_text(tooltip.0.as_str(), state.tooltip.0.as_str()) && same_text(
                tooltip.1.as_str(),
                state.tooltip.1.as_str(),
            ) {
                assert(state@ =~= before.told(info@));
                return None;
            }
            state.tooltip = tooltip;
            assert(state@ =~= before.told(info@));
            Some(info)
        },
        None => None,
    }
}

// Pixels.

/// A color channel without its alpha.
pub open spec fn straight(channel: u8, alpha: u8) -> u8 {
    let scaled = (channel * 255 + alpha as int / 2) / alpha as int;
    if scaled > 255 {
        255
    } else {
        scaled as u8
    }
}

/// Byte `i` belongs to a whole pixel.
pub open spec fn in_pixel(data: Seq<u8>, i: int) -> bool {
    i - i % 4 + 3 < data.len()
}

/// The pixels with straight alpha, from premultiplied ones: red, green, blue
/// and alpha each. Bytes after the last whole pixel stay.
pub open spec fn unmultiplied(data: Seq<u8>) -> Seq<u8> {
    Seq::new(
        data.len(),
        |i: int|
            if in_pixel(data, i) && i % 4 != 3 && data[i - i % 4 + 3] != 0 {
                straight(data[i], data[i - i % 4 + 3])
            } else {
                data[i]
            },
    )
}

/// The pixels with alpha in front of the colors. Bytes after the last whole
/// pixel stay.
pub open spec fn alpha_first(data: Seq<u8>) -> Seq<u8> {
    Seq::new(
        data.len(),
        |i: int|
            if !in_pixel(data, i) {
                data[i]
            } else if i % 4 == 0 {
                data[i + 3]
            } else {
                data[i - 1]
            },
    )
}

fn straight_channel(channel: u8, alpha: u8) -> (r: u8)
    requires
        alpha != 0,
    ensures
        r == straight(channel, alpha),
{
    let a: u32 = alpha as u32;
    let scaled: u32 = (channel as u32 * 255 + a / 2) / a;
    if scaled > 255 {
        255
    } else {
        scaled as u8
    }
}

/// Turns premultiplied RGBA into straight alpha, in place.
pub fn unpremultiply(data: &mut [u8])
    ensures
        final(data)@ == unmultiplied(old(data)@),
{
    let n: usize = data.len();
    let whole: usize = n - n % 4;
    let mut i: usize = 0;
    while i < whole
        invariant
            i % 4 == 0,
            i <= whole <= n == data@.len() == old(data)@.len(),
            whole == n - n % 4,
            forall|k: int| 0 <= k < i ==> #[trigger] data@[k] == unmultiplied(old(data)@)[k],
            forall|k: int| i <= k < n ==> #[trigger] data@[k] == old(data)@[k],
        decreases whole - i,
    {
        let alpha = data[i + 3];
        if alpha != 0 {
            data[i] = straight_channel(data[i], alpha);
            data[i + 1] = straight_channel(data[i + 1], alpha);
            data[i + 2] = straight_channel(data[i + 2], alpha);
        }
        i = i + 4;
    }
    assert(data@ =~= unmultiplied(old(data)@));
}

/// Moves alpha in front of the colors, in place.
pub fn rgba_to_argb(data: &mut [u8])
    ensures
        final(data)@ == alpha_first(old(data)@),
{
    let n: usize = data.len();
    let whole: usize = n - n % 4;
    let mut i: usize = 0;
    while i < whole
        invariant
            i % 4 == 0,
            i <= whole <= n == data@.len() == old(data)@.len(),
            whole == n - n % 4,
            forall|k: int| 0 <= k < i ==> #[trigger] data@[k] == alpha_first(old(data)@)[k],
            forall|k: int| i <= k < n ==> #[trigger] data@[k] == old(data)@[k],
        decreases whole - i,
    {
        let r = data[i];
        let g = data[i + 1];
        let b = data[i + 2];
        let a = data[i + 3];
        data[i] = a;
        data[i + 1] = r;
        data[i + 2] = g;
        data[i + 3] = b;
        i = i + 4;
    }
    assert(data@ =~= alpha_first(old(data)@));
}

/// The pixels of the icon as the tray wants them, from those of the
/// rasterizer.
pub fn icon_pixels(data: &mut [u8])
    ensures
        final(data)@ == alpha_first(unmultiplied(old(data)@)),
{
    unpremultiply(data);
    rgba_to_argb(data);
}

// Laws.

/// Opaque and fully transparent pixels stay as they are.
pub proof fn law_opaque_and_transparent_stay(data: Seq<u8>, i: int)
    requires
        0 <= i < data.len(),
        in_pixel(data, i) ==> data[i - i % 4 + 3] == 255 || data[i - i % 4 + 3] == 0,
    ensures
        unmultiplied(data)[i] == data[i],
{
    if in_pixel(data, i) && i % 4 != 3 && data[i - i % 4 + 3] == 255 {
        let c = data[i] as int;
        assert((c * 255 + 127) / 255 == c) by (nonlinear_arith)
            requires
                0 <= c,
        ;
    }
}

/// A snapshot that is given twice changes the tooltip once.
pub proof fn law_tooltip_is_pushed_once(tray: TrayModel, info: InfoModel)
    ensures
        !tray.told(info).shows_new(info),
        tray.told(info).told(info) == tray.told(info),
{
}

/// The tooltip noted is that of the snapshot noted, from the first snapshot
/// on that differs from none.
pub proof fn law_tooltip_matches_info(tray: TrayModel, info: InfoModel)
    requires
        tray.tooltip == tray.info.tip() || tray == fresh_tray(),
    ensures
        tray.told(info).tooltip == tray.told(info).info.tip() || tray.told(info) == fresh_tray(),
{
}

} // verus!

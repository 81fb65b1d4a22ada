use maolan_player::tray::{
    format_mss, icon_pixels, init_tray, rgba_to_argb, send_event, try_recv_event, unpremultiply,
    update_tooltip, EventQueue, PlayerTray, TrayEvent, TrayInfo, TrayMenuItem, TrayState,
};

fn test_tray() -> PlayerTray {
    PlayerTray {
        events: EventQueue::new(),
        info: TrayInfo::default(),
    }
}

fn some_info() -> TrayInfo {
    TrayInfo {
        artist: String::from("Some Artist"),
        song: Some(String::from("Some Song")),
        elapsed_secs: 204,
        total_secs: 252,
    }
}

#[test]
fn try_recv_event_before_init_returns_none() {
    let mut tray: Option<TrayState> = None;
    assert_eq!(try_recv_event(&mut tray), None);
    send_event(&mut tray, TrayEvent::ShowRequested);
    assert_eq!(try_recv_event(&mut tray), None);
    assert_eq!(update_tooltip(&mut tray, some_info()), None);
}

#[test]
fn events_come_in_the_order_they_were_sent() {
    let mut tray: Option<TrayState> = None;
    assert!(init_tray(&mut tray));
    assert_eq!(try_recv_event(&mut tray), None);
    send_event(&mut tray, TrayEvent::ShowRequested);
    send_event(&mut tray, TrayEvent::QuitRequested);
    send_event(&mut tray, TrayEvent::PlayToggleRequested);
    // A second initialization keeps what is there.
    assert!(!init_tray(&mut tray));
    assert_eq!(try_recv_event(&mut tray), Some(TrayEvent::ShowRequested));
    assert_eq!(try_recv_event(&mut tray), Some(TrayEvent::QuitRequested));
    assert_eq!(try_recv_event(&mut tray), Some(TrayEvent::PlayToggleRequested));
    assert_eq!(try_recv_event(&mut tray), None);
}

#[test]
fn tooltip_is_pushed_only_when_it_changes() {
    let mut tray: Option<TrayState> = None;
    init_tray(&mut tray);
    // No song yet, as at the start.
    assert_eq!(update_tooltip(&mut tray, TrayInfo::default()), None);
    assert_eq!(update_tooltip(&mut tray, some_info()), Some(some_info()));
    assert_eq!(update_tooltip(&mut tray, some_info()), None);
    let idle = TrayInfo {
        song: None,
        ..some_info()
    };
    assert_eq!(update_tooltip(&mut tray, idle.clone()), Some(idle.clone()));
    // Another snapshot with the same tooltip.
    let later = TrayInfo {
        elapsed_secs: 7,
        ..idle
    };
    assert_eq!(update_tooltip(&mut tray, later.clone()), None);
    assert_eq!(tray.unwrap().info, later);
}

#[test]
fn tray_id_and_title() {
    let tray = test_tray();
    assert_eq!(tray.id(), "maolan-player");
    assert_eq!(tray.title(), "Maolan Player");
}

#[test]
fn tooltip_empty_when_no_song() {
    let tray = test_tray();
    let (title, description) = tray.tool_tip();
    assert_eq!(title, "Maolan Player");
    assert_eq!(description, "");
}

#[test]
fn tooltip_shows_artist_song_and_time() {
    let mut tray = test_tray();
    tray.info = some_info();
    let (title, description) = tray.tool_tip();
    assert_eq!(title, "Maolan Player");
    assert_eq!(
        description,
        "Artist: Some Artist\nSong: Some Song\nTime: 3:24 / 4:12"
    );
}

#[test]
fn tooltip_unknown_artist_renders_empty() {
    let info = TrayInfo {
        artist: String::new(),
        song: Some(String::from("Fallback Stem")),
        elapsed_secs: 0,
        total_secs: 65,
    };
    let (_, description) = info.tooltip();
    assert_eq!(
        description,
        "Artist: \nSong: Fallback Stem\nTime: 0:00 / 1:05"
    );
}

#[test]
fn times_have_two_digits_of_seconds() {
    assert_eq!(format_mss(9), "0:09");
    assert_eq!(format_mss(59), "0:59");
    assert_eq!(format_mss(60), "1:00");
    assert_eq!(format_mss(6_000), "100:00");
}

#[test]
fn tray_menu_has_show_and_quit() {
    let mut tray = test_tray();
    let items = tray.menu();
    assert_eq!(items.len(), 3);
    match &items[0] {
        TrayMenuItem::Standard { label, .. } => assert_eq!(label, "Show Maolan Player"),
        _ => panic!("expected Show standard item"),
    }
    assert!(matches!(items[1], TrayMenuItem::Separator));
    match &items[2] {
        TrayMenuItem::Standard { label, .. } => assert_eq!(label, "Quit Maolan Player"),
        _ => panic!("expected Quit standard item"),
    }
    for item in &items {
        tray.chosen(item);
    }
    assert_eq!(
        tray.events.waiting,
        vec![TrayEvent::ShowRequested, TrayEvent::QuitRequested]
    );
}

#[test]
fn secondary_activate_requests_play_toggle() {
    let mut tray = test_tray();
    tray.secondary_activate(0, 0);
    assert_eq!(tray.events.try_recv(), Some(TrayEvent::PlayToggleRequested));
    tray.activate(1, 2);
    assert_eq!(tray.events.try_recv(), Some(TrayEvent::ShowRequested));
    assert_eq!(tray.events.try_recv(), None);
}

#[test]
fn unpremultiply_converts_in_place() {
    // 50%-gray at 50% alpha premultiplied is (128, 128, 128, 128).
    let mut px = [128u8, 128, 128, 128];
    unpremultiply(&mut px);
    assert_eq!(px, [255, 255, 255, 128]);
    // Fully transparent stays untouched.
    let mut px = [0u8, 0, 0, 0];
    unpremultiply(&mut px);
    assert_eq!(px, [0, 0, 0, 0]);
}

#[test]
fn pixels_are_rounded_and_alpha_moves_to_the_front() {
    let mut px = [10u8, 20, 200, 100, 1, 2, 3, 255, 9, 8];
    unpremultiply(&mut px);
    // 10 * 255 / 100 = 25.5 and 20 * 255 / 100 = 51; 200 is over alpha.
    assert_eq!(px, [26, 51, 255, 100, 1, 2, 3, 255, 9, 8]);
    rgba_to_argb(&mut px);
    assert_eq!(px, [100, 26, 51, 255, 255, 1, 2, 3, 9, 8]);
    let mut icon = [10u8, 20, 200, 100];
    icon_pixels(&mut icon);
    assert_eq!(icon, [100, 26, 51, 255]);
}

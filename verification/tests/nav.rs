use loopback_oauth::nav::{cursor_down, cursor_up, ActiveBlock, Route, SelectedTab};

#[test]
fn tab_switch_toggles_between_directory_and_hovered_panel() {
    let mut r = Route {
        active_block: ActiveBlock::Directory,
        hovered_block: ActiveBlock::UserPlaylists,
    };
    r.next();
    assert_eq!(r.active_block, ActiveBlock::UserPlaylists);
    assert_eq!(r.hovered_block, ActiveBlock::UserPlaylists);
    r.next();
    assert_eq!(r.active_block, ActiveBlock::Directory);
    let mut p = Route { active_block: ActiveBlock::Popup, hovered_block: ActiveBlock::Playlist };
    p.next();
    assert_eq!(p.active_block, ActiveBlock::Playlist);
}

#[test]
fn directory_rows_open_their_panels() {
    let fresh = || Route {
        active_block: ActiveBlock::Directory,
        hovered_block: ActiveBlock::UserPlaylists,
    };
    let mut r = fresh();
    r.select_directory(Some(0));
    assert_eq!(r.active_block, ActiveBlock::UserPlaylists);
    let mut r = fresh();
    r.select_directory(Some(1));
    assert_eq!(r.active_block, ActiveBlock::UserTopTracks);
    assert_eq!(r.hovered_block, ActiveBlock::UserTopTracks);
    let mut r = fresh();
    r.select_directory(Some(2));
    assert_eq!(r.active_block, ActiveBlock::UserTopArtists);
    let mut r = fresh();
    r.select_directory(None);
    assert_eq!(r.active_block, ActiveBlock::Directory);
    let mut r = fresh();
    r.select_directory(Some(7));
    assert_eq!(r.active_block, ActiveBlock::Directory);
}

#[test]
fn cursor_moves_stay_in_bounds() {
    assert_eq!(cursor_down(None, 3), Some(0));
    assert_eq!(cursor_down(Some(0), 3), Some(1));
    assert_eq!(cursor_down(Some(2), 3), Some(2));
    assert_eq!(cursor_down(Some(1), 0), Some(1));
    assert_eq!(cursor_up(None, 3), Some(0));
    assert_eq!(cursor_up(Some(2), 3), Some(1));
    assert_eq!(cursor_up(Some(0), 3), Some(0));
    assert_eq!(cursor_up(None, 0), None);
}

#[test]
fn tabs_are_distinct() {
    assert_ne!(SelectedTab::Main, SelectedTab::Logger);
}

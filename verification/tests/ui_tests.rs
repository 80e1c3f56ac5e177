use quran_cli::api::types::SearchResult;
use quran_cli::api::types::{Ayah, Surah};
use quran_cli::ui::banner::{tagline_visible_chars, BannerState};
use quran_cli::ui::browser::{scripture_max_scroll, BrowserState, Panel, SearchMode};
use quran_cli::ui::theme::{get_theme, Rgb, ThemeName};

#[test]
fn banner_phases() {
    let mut b = BannerState::new();
    assert_eq!(b, BannerState { phase: 0, tick: 0, done: false });
    for _ in 0..50 {
        b.tick();
    }
    assert_eq!(b, BannerState { phase: 0, tick: 50, done: false });
    b.tick();
    assert_eq!(b.phase, 1);
    for _ in 51..95 {
        b.tick();
    }
    assert_eq!(b, BannerState { phase: 1, tick: 95, done: false });
    b.tick();
    assert_eq!(b.phase, 2);
    for _ in 96..120 {
        b.tick();
    }
    assert_eq!(b, BannerState { phase: 2, tick: 120, done: false });
    b.tick();
    assert_eq!(b, BannerState { phase: 2, tick: 121, done: true });
    b.tick();
    assert_eq!(b, BannerState { phase: 2, tick: 122, done: true });
}

#[test]
fn theme_cycle() {
    assert_eq!(ThemeName::default(), ThemeName::Slate);
    assert_eq!(ThemeName::Slate.next(), ThemeName::Emerald);
    assert_eq!(ThemeName::Emerald.next(), ThemeName::Sand);
    assert_eq!(ThemeName::Sand.next(), ThemeName::Night);
    assert_eq!(ThemeName::Night.next(), ThemeName::Slate);
}

#[test]
fn theme_colours() {
    let t = get_theme(ThemeName::Slate);
    assert_eq!(t.bg, Rgb { r: 15, g: 23, b: 42 });
    assert_eq!(t.primary, Rgb { r: 56, g: 189, b: 248 });
    let t = get_theme(ThemeName::Sand);
    assert_eq!(t.selection_bg, Rgb { r: 253, g: 224, b: 71 });
    assert_eq!(t.fg, Rgb { r: 66, g: 32, b: 6 });
    let t = get_theme(ThemeName::Night);
    assert_eq!(t.fg, Rgb { r: 255, g: 255, b: 255 });
    assert_eq!(t.border, Rgb { r: 39, g: 39, b: 42 });
    let t = get_theme(ThemeName::Emerald);
    assert_eq!(t.secondary, Rgb { r: 110, g: 231, b: 183 });
}

#[test]
fn browser_starts_on_first_surah() {
    let s = BrowserState::new();
    assert_eq!(s.active_panel, Panel::Surahs);
    assert_eq!(s.surah_list, Some(0));
    assert_eq!(s.selected_surah_id, 1);
    assert!(s.current_surah.is_none());
    assert!(matches!(s.search, SearchMode::Off));
    assert_eq!(s.theme, ThemeName::Slate);
}

#[test]
fn moving_through_the_surah_list() {
    let mut s = BrowserState::new();
    s.move_up();
    assert_eq!((s.surah_list, s.selected_surah_id), (Some(0), 1));
    s.move_down();
    s.move_down();
    assert_eq!((s.surah_list, s.selected_surah_id), (Some(2), 3));
    s.move_up();
    assert_eq!((s.surah_list, s.selected_surah_id), (Some(1), 2));
    s.surah_list = Some(113);
    s.selected_surah_id = 114;
    s.move_down();
    assert_eq!((s.surah_list, s.selected_surah_id), (Some(113), 114));
}

#[test]
fn moving_resets_scroll() {
    let mut s = BrowserState::new();
    s.scripture_scroll = 9;
    s.move_down();
    assert_eq!(s.scripture_scroll, 0);
}

#[test]
fn scrolling_the_scripture() {
    let mut s = BrowserState::new();
    s.next_panel();
    assert_eq!(s.active_panel, Panel::Scripture);
    s.scripture_max_scroll = 7;
    s.move_down();
    assert_eq!(s.scripture_scroll, 3);
    s.move_down();
    s.move_down();
    assert_eq!(s.scripture_scroll, 7);
    s.move_up();
    assert_eq!(s.scripture_scroll, 4);
    s.move_up();
    s.move_up();
    assert_eq!(s.scripture_scroll, 0);
    s.prev_panel();
    assert_eq!(s.active_panel, Panel::Surahs);
    s.prev_panel();
    assert_eq!(s.active_panel, Panel::Surahs);
}

#[test]
fn selecting_the_current_surah() {
    let mut s = BrowserState::new();
    s.move_down();
    s.scripture_scroll = 5;
    assert!(s.select_current());
    assert_eq!(s.active_panel, Panel::Scripture);
    assert_eq!(s.selected_surah_id, 2);
    assert_eq!(s.scripture_scroll, 0);
    assert!(!s.select_current());
}

fn hit(surah_id: u32, ayah_num: u32) -> SearchResult {
    SearchResult {
        surah_id,
        surah_name: format!("S{}", surah_id),
        ayah_num,
        text: String::new(),
        translation: String::new(),
    }
}

#[test]
fn selected_search_result() {
    let mut s = BrowserState::new();
    assert!(s.selected_search_result().is_none());
    s.search = SearchMode::Active { query: "abc".to_string(), results: vec![hit(2, 5), hit(3, 1)], selected: Some(1) };
    assert_eq!(s.selected_search_result().unwrap().surah_id, 3);
    s.search = SearchMode::Active { query: "abc".to_string(), results: vec![hit(2, 5)], selected: Some(1) };
    assert!(s.selected_search_result().is_none());
    s.search = SearchMode::Active { query: "abc".to_string(), results: vec![hit(2, 5)], selected: None };
    assert!(s.selected_search_result().is_none());
}

#[test]
fn jumping_to_a_result() {
    let mut s = BrowserState::new();
    s.search = SearchMode::Active { query: "abc".to_string(), results: vec![hit(2, 5)], selected: Some(0) };
    s.jump_to_result(2, 5);
    assert_eq!(s.selected_surah_id, 2);
    assert_eq!(s.surah_list, Some(1));
    assert_eq!(s.scripture_scroll, 8);
    assert_eq!(s.active_panel, Panel::Scripture);
    assert!(matches!(s.search, SearchMode::Off));
    s.jump_to_result(1, 0);
    assert_eq!(s.scripture_scroll, 0);
    s.jump_to_result(1, 40000);
    assert_eq!(s.scripture_scroll, (79998u32 % 65536) as u16);
}

fn surah(id: u32, verses: usize) -> Surah {
    Surah {
        id,
        name: String::new(),
        transliteration: String::new(),
        translation: String::new(),
        revelation_type: String::new(),
        total_verses: verses as u32,
        verses: (0..verses)
            .map(|i| Ayah { id: i as u32 + 1, text: String::new(), translation: String::new(), surah_id: id })
            .collect(),
    }
}

#[test]
fn scripture_scroll_limit() {
    // 7 verses: 14 lines and a 4-line footer, no Bismillah for surah 1
    assert_eq!(scripture_max_scroll(&surah(1, 7), 10), 8);
    // surah 2 adds the Bismillah and a blank line
    assert_eq!(scripture_max_scroll(&surah(2, 7), 10), 10);
    assert_eq!(scripture_max_scroll(&surah(9, 7), 10), 8);
    assert_eq!(scripture_max_scroll(&surah(2, 7), 30), 0);
    assert_eq!(scripture_max_scroll(&surah(2, 286), 0), 2 + 572 + 4);
}

#[test]
fn tagline_types_in() {
    let b = |phase: u8, tick: u32| BannerState { phase, tick, done: false };
    assert_eq!(tagline_visible_chars(&b(1, 51), 22), 0);
    assert_eq!(tagline_visible_chars(&b(1, 53), 22), 1);
    assert_eq!(tagline_visible_chars(&b(1, 73), 22), 11);
    assert_eq!(tagline_visible_chars(&b(1, 95), 22), 22);
    assert_eq!(tagline_visible_chars(&b(1, 200), 22), 22);
    assert_eq!(tagline_visible_chars(&b(2, 100), 22), 22);
    assert_eq!(tagline_visible_chars(&b(0, 10), 22), 22);
}

use quran_cli::app::{is_query_too_short, App, AppMode, Key};
use quran_cli::data::quran::{Quran, QuranJsonAyah, QuranJsonSurah};
use quran_cli::ui::browser::{BrowserState, Panel, SearchMode};
use quran_cli::ui::theme::ThemeName;

fn record(id: u32, translations: &[&str]) -> QuranJsonSurah {
    QuranJsonSurah {
        id,
        name: format!("name-{}", id),
        transliteration: format!("S{}", id),
        translation: String::new(),
        revelation_type: String::new(),
        total_verses: translations.len() as u32,
        verses: translations
            .iter()
            .enumerate()
            .map(|(i, t)| QuranJsonAyah { id: i as u32 + 1, text: String::new(), translation: t.to_string() })
            .collect(),
    }
}

fn quran() -> Quran {
    Quran::from_surahs(vec![
        record(1, &["Praise be to Allah", "the Merciful"]),
        record(2, &["guidance", "mercy to the believers", "prayer"]),
        record(3, &["light"]),
    ])
}

fn browser(app: &App) -> &BrowserState {
    match &app.mode {
        AppMode::Browser(b) => b,
        AppMode::Banner(_) => panic!("still on the banner"),
    }
}

fn shown(app: &App) -> Option<u32> {
    browser(app).current_surah.as_ref().map(|s| s.id)
}

fn query(app: &App) -> Option<String> {
    match &browser(app).search {
        SearchMode::Active { query, .. } => Some(query.clone()),
        SearchMode::Off => None,
    }
}

#[test]
fn banner_then_browser() {
    let q = quran();
    let mut app = App::new(true, &q);
    assert!(matches!(app.mode, AppMode::Banner(_)));
    for _ in 0..120 {
        app.on_tick(&q);
        assert!(matches!(app.mode, AppMode::Banner(_)));
    }
    app.on_tick(&q);
    assert_eq!(shown(&app), Some(1));
    assert!(!app.should_quit);
    app.on_tick(&q);
    assert_eq!(shown(&app), Some(1));
}

#[test]
fn key_skips_banner_but_not_null() {
    let q = quran();
    let mut app = App::new(true, &q);
    app.handle_key(&q, Key::Null);
    assert!(matches!(app.mode, AppMode::Banner(_)));
    app.handle_key(&q, Key::Other);
    assert_eq!(shown(&app), Some(1));
    assert!(!app.should_quit);
}

#[test]
fn start_without_banner() {
    let q = quran();
    let app = App::new(false, &q);
    assert_eq!(shown(&app), Some(1));
    assert_eq!(browser(&app).active_panel, Panel::Surahs);
}

#[test]
fn quit_key() {
    let q = quran();
    let mut app = App::new(false, &q);
    app.handle_key(&q, Key::Char('x'));
    assert!(!app.should_quit);
    app.handle_key(&q, Key::Char('q'));
    assert!(app.should_quit);
}

#[test]
fn navigating_loads_surahs() {
    let q = quran();
    let mut app = App::new(false, &q);
    app.handle_key(&q, Key::Char('j'));
    assert_eq!(shown(&app), Some(2));
    app.handle_key(&q, Key::Down);
    assert_eq!(shown(&app), Some(3));
    app.handle_key(&q, Key::Down);
    assert_eq!(browser(&app).selected_surah_id, 4);
    assert_eq!(shown(&app), None);
    app.handle_key(&q, Key::Char('k'));
    assert_eq!(shown(&app), Some(3));
    app.handle_key(&q, Key::Enter);
    assert_eq!(browser(&app).active_panel, Panel::Scripture);
    assert_eq!(shown(&app), Some(3));
    app.handle_key(&q, Key::Char('h'));
    assert_eq!(browser(&app).active_panel, Panel::Surahs);
    app.handle_key(&q, Key::Up);
    app.handle_key(&q, Key::Right);
    assert_eq!(shown(&app), Some(2));
    assert_eq!(browser(&app).active_panel, Panel::Scripture);
}

#[test]
fn theme_key_cycles() {
    let q = quran();
    let mut app = App::new(false, &q);
    app.handle_key(&q, Key::Char('t'));
    assert_eq!(browser(&app).theme, ThemeName::Emerald);
    for _ in 0..3 {
        app.handle_key(&q, Key::Char('t'));
    }
    assert_eq!(browser(&app).theme, ThemeName::Slate);
}

#[test]
fn live_search_flow() {
    let q = quran();
    let mut app = App::new(false, &q);
    app.handle_key(&q, Key::Char('/'));
    assert_eq!(query(&app), Some(String::new()));
    app.handle_key(&q, Key::Char('M'));
    app.handle_key(&q, Key::Char('e'));
    match &browser(&app).search {
        SearchMode::Active { results, selected, .. } => {
            assert!(results.is_empty());
            assert_eq!(*selected, None);
        }
        SearchMode::Off => panic!("search closed"),
    }
    app.handle_key(&q, Key::Char('r'));
    match &browser(&app).search {
        SearchMode::Active { results, selected, .. } => {
            let places: Vec<(u32, u32)> = results.iter().map(|r| (r.surah_id, r.ayah_num)).collect();
            assert_eq!(places, vec![(1, 2), (2, 2)]);
            assert_eq!(*selected, Some(0));
        }
        SearchMode::Off => panic!("search closed"),
    }
    app.handle_key(&q, Key::Down);
    app.handle_key(&q, Key::Down);
    match &browser(&app).search {
        SearchMode::Active { selected, .. } => assert_eq!(*selected, Some(1)),
        SearchMode::Off => panic!("search closed"),
    }
    app.handle_key(&q, Key::Up);
    app.handle_key(&q, Key::Up);
    match &browser(&app).search {
        SearchMode::Active { selected, .. } => assert_eq!(*selected, Some(0)),
        SearchMode::Off => panic!("search closed"),
    }
    app.handle_key(&q, Key::Down);
    app.handle_key(&q, Key::Enter);
    let b = browser(&app);
    assert!(matches!(b.search, SearchMode::Off));
    assert_eq!(b.selected_surah_id, 2);
    assert_eq!(b.surah_list, Some(1));
    assert_eq!(b.scripture_scroll, 2);
    assert_eq!(b.active_panel, Panel::Scripture);
    assert_eq!(shown(&app), Some(2));
}

#[test]
fn typing_then_erasing() {
    let q = quran();
    let mut app = App::new(false, &q);
    app.handle_key(&q, Key::Char('/'));
    for c in "lig".chars() {
        app.handle_key(&q, Key::Char(c));
    }
    app.handle_key(&q, Key::Char('z'));
    app.handle_key(&q, Key::Backspace);
    assert_eq!(query(&app), Some("lig".to_string()));
    match &browser(&app).search {
        SearchMode::Active { results, .. } => assert_eq!(results.len(), 1),
        SearchMode::Off => panic!("search closed"),
    }
    app.handle_key(&q, Key::Backspace);
    match &browser(&app).search {
        SearchMode::Active { query, results, selected } => {
            assert_eq!(query, "li");
            assert!(results.is_empty());
            assert_eq!(*selected, None);
        }
        SearchMode::Off => panic!("search closed"),
    }
    for _ in 0..5 {
        app.handle_key(&q, Key::Backspace);
    }
    assert_eq!(query(&app), Some(String::new()));
    app.handle_key(&q, Key::Esc);
    assert_eq!(query(&app), None);
    assert!(!app.should_quit);
}

#[test]
fn keys_in_search_are_text() {
    let q = quran();
    let mut app = App::new(false, &q);
    app.handle_key(&q, Key::Char('/'));
    app.handle_key(&q, Key::Char('q'));
    assert!(!app.should_quit);
    assert_eq!(query(&app), Some("q".to_string()));
    app.handle_key(&q, Key::Enter);
    assert_eq!(query(&app), Some("q".to_string()));
}

#[test]
fn multibyte_query_counts_bytes() {
    let q = quran();
    let mut app = App::new(false, &q);
    app.handle_key(&q, Key::Char('/'));
    app.handle_key(&q, Key::Char('é'));
    app.handle_key(&q, Key::Char('x'));
    match &browser(&app).search {
        SearchMode::Active { results, selected, .. } => {
            assert!(results.is_empty());
            assert_eq!(*selected, None);
        }
        SearchMode::Off => panic!("search closed"),
    }
}

#[test]
fn short_query_hint() {
    assert!(is_query_too_short(""));
    assert!(is_query_too_short("ab"));
    assert!(!is_query_too_short("abc"));
    assert!(!is_query_too_short("é1"));
}

//! The application's decisions: what each key press and each frame does to
//! the state, from the opening banner to the browser and its search.

use vstd::prelude::*;
use crate::api::types::{SearchResult, SearchResultView, SurahView};
use crate::data::quran::{find_surah, get_surah, search, search_results, Quran, result_views};
use crate::text::{byte_len, string_pop, string_push, str_byte_len};
use crate::ui::banner::{banner_start, banner_tick, banner_ticks, law_banner_after_ticks, BannerState, SETTLE_LAST_TICK};
use crate::ui::browser::{
    browser_jump_to_result, browser_move_down, browser_move_up, browser_prev_panel,
    browser_select_current, browser_start, can_jump_to, selected_result_spec, selected_row,
    BrowserState, BrowserView, Panel, SearchMode, SearchModeView, SCROLL_STEP,
};
use crate::ui::theme::{law_theme_cycle, next_theme};

verus! {

/// A key as the application tells keys apart.
#[derive(Debug, Clone, Copy, PartialEq, Eq, Structural)]
pub enum Key {
    Char(char),
    Esc,
    Backspace,
    Enter,
    Up,
    Down,
    Left,
    Right,
    Null,
    Other,
}

/// What the screen shows: the opening banner or the browser.
#[derive(Debug)]
pub enum AppMode {
    Banner(BannerState),
    Browser(BrowserState),
}

/// The application: what it shows and whether it is to stop.
#[derive(Debug)]
pub struct App {
    pub mode: AppMode,
    pub should_quit: bool,
}

/// What the screen shows, the browser taken by its view.
pub enum AppModeView {
    Banner(BannerState),
    Browser(BrowserView),
}

pub struct AppView {
    pub mode: AppModeView,
    pub should_quit: bool,
}

impl View for AppMode {
    type V = AppModeView;

    open spec fn view(&self) -> AppModeView {
        match self {
            AppMode::Banner(s) => AppModeView::Banner(*s),
            AppMode::Browser(b) => AppModeView::Browser(b@),
        }
    }
}

impl View for App {
    type V = AppView;

    open spec fn view(&self) -> AppView {
        AppView { mode: self.mode@, should_quit: self.should_quit }
    }
}

/// The fewest bytes of query for which the live search runs.
pub const MIN_QUERY_BYTES: usize = 3;

/// Whether a query is too short for the live search to run.
pub open spec fn query_too_short(query: Seq<char>) -> bool {
    byte_len(query) < MIN_QUERY_BYTES
}

/// Whether `query` is too short for the live search to run (fewer than
/// `MIN_QUERY_BYTES` bytes), which the search panel tells the user.
pub fn is_query_too_short(query: &str) -> (r: bool)
    ensures
        r == query_too_short(query@),
{
    str_byte_len(query) < MIN_QUERY_BYTES
}

/// Loading the chosen surah: the surah shown becomes the one numbered
/// `selected_surah_id`, or none when there is no such surah.
pub open spec fn load_surah_spec(b: BrowserView, q: Seq<SurahView>) -> BrowserView {
    BrowserView { current_surah: find_surah(q, b.selected_surah_id), ..b }
}

/// The browser as it opens: the state at the start with surah 1 shown.
pub open spec fn browser_opening(q: Seq<SurahView>) -> BrowserView {
    load_surah_spec(browser_start(), q)
}

/// The application at the start: the banner, or the browser when it is skipped.
pub open spec fn app_start(show_banner: bool, q: Seq<SurahView>) -> AppView {
    AppView {
        mode: if show_banner {
            AppModeView::Banner(banner_start())
        } else {
            AppModeView::Browser(browser_opening(q))
        },
        should_quit: false,
    }
}

/// The live search: with a query of at least `MIN_QUERY_BYTES` bytes, the
/// results become those of the query and the first is selected when there is
/// one; with a shorter query, there are no results and nothing is selected.
pub open spec fn live_search_spec(b: BrowserView, q: Seq<SurahView>) -> BrowserView {
    match b.search {
        SearchModeView::Active { query, results, selected } => if byte_len(query)
            >= MIN_QUERY_BYTES {
            let r = search_results(q, query);
            BrowserView {
                search: SearchModeView::Active {
                    query,
                    results: r,
                    selected: if r.len() > 0 {
                        Some(0)
                    } else {
                        selected
                    },
                },
                ..b
            }
        } else {
            BrowserView {
                search: SearchModeView::Active { query, results: seq![], selected: None },
                ..b
            }
        },
        SearchModeView::Off => b,
    }
}

/// The browser with the search overlay replaced.
pub open spec fn with_search(b: BrowserView, s: SearchModeView) -> BrowserView {
    BrowserView { search: s, ..b }
}

/// A key in the open search: Esc closes it; Backspace and a character edit the
/// query and run the live search; Up and Down move the selected row within the
/// results; Enter jumps to the selected result and loads its surah.
pub open spec fn search_key_spec(
    b: BrowserView,
    q: Seq<SurahView>,
    key: Key,
    query: Seq<char>,
    results: Seq<SearchResultView>,
    selected: Option<usize>,
) -> BrowserView {
    let i: usize = match selected {
        Some(i) => i,
        None => 0,
    };
    match key {
        Key::Esc => with_search(b, SearchModeView::Off),
        Key::Backspace => live_search_spec(
            with_search(
                b,
                SearchModeView::Active {
                    query: if query.len() > 0 {
                        query.drop_last()
                    } else {
                        query
                    },
                    results,
                    selected,
                },
            ),
            q,
        ),
        Key::Char(c) => live_search_spec(
            with_search(b, SearchModeView::Active { query: query.push(c), results, selected }),
            q,
        ),
        Key::Up => if i > 0 {
            with_search(
                b,
                SearchModeView::Active { query, results, selected: Some((i - 1) as usize) },
            )
        } else {
            b
        },
        Key::Down => if i + 1 < results.len() {
            with_search(
                b,
                SearchModeView::Active { query, results, selected: Some((i + 1) as usize) },
            )
        } else {
            b
        },
        Key::Enter => match selected_result_spec(b) {
            Some(r) => load_surah_spec(browser_jump_to_result(b, r.surah_id, r.ayah_num), q),
            None => b,
        },
        _ => b,
    }
}

/// A key in the browser without the search: `q` quits, `/` opens an empty
/// search, `t` moves to the next theme, Left/`h` goes to the surah list,
/// Right/`l`/Enter choose the selected surah (loading it when it changes), and
/// Up/`k`, Down/`j` move and load the chosen surah. The second part says
/// whether to quit.
pub open spec fn browse_key_spec(b: BrowserView, q: Seq<SurahView>, key: Key) -> (BrowserView, bool) {
    match key {
        Key::Char('q') => (b, true),
        Key::Char('/') => (
            with_search(b, SearchModeView::Active { query: seq![], results: seq![], selected: None }),
            false,
        ),
        Key::Char('t') => (BrowserView { theme: next_theme(b.theme), ..b }, false),
        Key::Left | Key::Char('h') => (browser_prev_panel(b), false),
        Key::Right | Key::Char('l') | Key::Enter => {
            let (b2, changed) = browser_select_current(b);
            (
                if changed {
                    load_surah_spec(b2, q)
                } else {
                    b2
                },
                false,
            )
        },
        Key::Up | Key::Char('k') => (load_surah_spec(browser_move_up(b), q), false),
        Key::Down | Key::Char('j') => (load_surah_spec(browser_move_down(b), q), false),
        _ => (b, false),
    }
}

/// What a key does to the browser; the second part says whether to quit.
pub open spec fn browser_key_spec(b: BrowserView, q: Seq<SurahView>, key: Key) -> (BrowserView, bool) {
    match b.search {
        SearchModeView::Active { query, results, selected } => (
            search_key_spec(b, q, key, query, results, selected),
            false,
        ),
        SearchModeView::Off => browse_key_spec(b, q, key),
    }
}

/// What a key does: on the banner any key but `Null` opens the browser; in
/// the browser see `browser_key_spec`.
pub open spec fn handle_key_spec(a: AppView, q: Seq<SurahView>, key: Key) -> AppView {
    match a.mode {
        AppModeView::Banner(_) => if key != Key::Null {
            AppView { mode: AppModeView::Browser(browser_opening(q)), ..a }
        } else {
            a
        },
        AppModeView::Browser(b) => {
            let (b2, quit) = browser_key_spec(b, q, key);
            AppView { mode: AppModeView::Browser(b2), should_quit: a.should_quit || quit }
        },
    }
}

/// The keys that the browser can take without an arithmetic overflow: choosing
/// a surah needs a row number below the largest, scrolling down the scripture
/// needs room for a step, and jumping to a result needs its surah number to be
/// at least 1 and twice its ayah's position to fit in a `u32`.
pub open spec fn browser_key_ok(b: BrowserView, key: Key) -> bool {
    match b.search {
        SearchModeView::Active { .. } => key == Key::Enter ==> (selected_result_spec(b) matches Some(
            r,
        ) ==> can_jump_to(r.surah_id, r.ayah_num)),
        SearchModeView::Off => {
            &&& (key == Key::Right || key == Key::Char('l') || key == Key::Enter) && b.active_panel
                == Panel::Surahs ==> selected_row(b) < usize::MAX
            &&& (key == Key::Down || key == Key::Char('j')) && b.active_panel == Panel::Scripture
                ==> b.scripture_scroll + SCROLL_STEP <= u16::MAX
        },
    }
}

pub open spec fn key_ok(a: AppView, key: Key) -> bool {
    a.mode matches AppModeView::Browser(b) ==> browser_key_ok(b, key)
}

/// A frame: the banner moves on, and once it is done the browser opens.
pub open spec fn on_tick_spec(a: AppView, q: Seq<SurahView>) -> AppView {
    match a.mode {
        AppModeView::Banner(s) => {
            let s2 = banner_tick(s);
            if s2.done {
                AppView { mode: AppModeView::Browser(browser_opening(q)), ..a }
            } else {
                AppView { mode: AppModeView::Banner(s2), ..a }
            }
        },
        AppModeView::Browser(_) => a,
    }
}

impl App {
    /// The application at the start (see `app_start`).
    pub fn new(show_banner: bool, quran: &Quran) -> (app: Self)
        ensures
            app@ == app_start(show_banner, quran@),
    {
        let mode = if show_banner {
            AppMode::Banner(BannerState::new())
        } else {
            AppMode::Browser(Self::opening_browser(quran))
        };
        Self { mode, should_quit: false }
    }

    /// The browser as it opens, showing surah 1.
    fn opening_browser(quran: &Quran) -> (b: BrowserState)
        ensures
            b@ == browser_opening(quran@),
    {
        let mut state = BrowserState::new();
        Self::load_surah(&mut state, quran);
        state
    }

    /// Shows the chosen surah (see `load_surah_spec`).
    pub fn load_surah(state: &mut BrowserState, quran: &Quran)
        ensures
            final(state)@ == load_surah_spec(old(state)@, quran@),
    {
        let id = state.selected_surah_id;
        state.current_surah = match get_surah(quran, id) {
            Some(s) => Some(s.clone()),
            None => None,
        };
    }

    /// Handles a key press (see `handle_key_spec`).
    pub fn handle_key(&mut self, quran: &Quran, key: Key)
        requires
            key_ok(old(self)@, key),
        ensures
            final(self)@ == handle_key_spec(old(self)@, quran@, key),
    {
        let mut mode = AppMode::Banner(BannerState::new());
        std::mem::swap(&mut mode, &mut self.mode);
        match mode {
            AppMode::Banner(banner) => {
                if key != Key::Null {
                    self.mode = AppMode::Browser(Self::opening_browser(quran));
                } else {
                    self.mode = AppMode::Banner(banner);
                }
            },
            AppMode::Browser(mut state) => {
                let quit = Self::browser_key(&mut state, quran, key);
                if quit {
                    self.should_quit = true;
                }
                self.mode = AppMode::Browser(state);
            },
        }
    }

    /// What a key does to the browser (see `browser_key_spec`); the answer says
    /// whether to quit.
    fn browser_key(state: &mut BrowserState, quran: &Quran, key: Key) -> (quit: bool)
        requires
            browser_key_ok(old(state)@, key),
        ensures
            (final(state)@, quit) == browser_key_spec(old(state)@, quran@, key),
    {
        let ghost b = state@;
        let mut mode = SearchMode::Off;
        std::mem::swap(&mut mode, &mut state.search);
        match mode {
            SearchMode::Active { mut query, results, selected } => {
                let i = match selected {
                    Some(i) => i,
                    None => 0,
                };
                match key {
                    Key::Esc => {},
                    Key::Backspace => {
                        let _ = string_pop(&mut query);
                        state.search = SearchMode::Active { query, results, selected };
                        Self::live_search(state, quran);
                    },
                    Key::Char(c) => {
                        string_push(&mut query, c);
                        state.search = SearchMode::Active { query, results, selected };
                        Self::live_search(state, quran);
                    },
                    Key::Up => {
                        let sel = if i > 0 {
                            Some(i - 1)
                        } else {
                            selected
                        };
                        state.search = SearchMode::Active { query, results, selected: sel };
                    },
                    Key::Down => {
                        let sel = if i < results.len().saturating_sub(1) {
                            Some(i + 1)
                        } else {
                            selected
                        };
                        state.search = SearchMode::Active { query, results, selected: sel };
                    },
                    Key::Enter => {
                        state.search = SearchMode::Active { query, results, selected };
                        assert(state@ == b);
                        match state.selected_search_result() {
                            Some(res) => {
                                let surah_id = res.surah_id;
                                let ayah_num = res.ayah_num;
                                state.jump_to_result(surah_id, ayah_num);
                                Self::load_surah(state, quran);
                            },
                            None => {},
                        }
                    },
                    _ => {
                        state.search = SearchMode::Active { query, results, selected };
                    },
                }
                false
            },
            SearchMode::Off => {
                state.search = SearchMode::Off;
                assert(state@ == b);
                match key {
                    Key::Char('q') => {
                        return true;
                    },
                    Key::Char('/') => {
                        let ghost empty: Seq<SearchResultView> = seq![];
                        let none: Vec<SearchResult> = Vec::new();
                        assert(result_views(none@) =~= empty);
                        state.search = SearchMode::Active {
                            query: String::new(),
                            results: none,
                            selected: None,
                        };
                    },
                    Key::Char('t') => {
                        state.theme = state.theme.next();
                    },
                    Key::Left | Key::Char('h') => {
                        state.prev_panel();
                    },
                    Key::Right | Key::Char('l') | Key::Enter => {
                        let changed = state.select_current();
                        if changed {
                            Self::load_surah(state, quran);
                        }
                    },
                    Key::Up | Key::Char('k') => {
                        state.move_up();
                        Self::load_surah(state, quran);
                    },
                    Key::Down | Key::Char('j') => {
                        state.move_down();
                        Self::load_surah(state, quran);
                    },
                    _ => {},
                }
                false
            },
        }
    }

    /// Whether `handle_key` can take `key` in this state without an arithmetic
    /// overflow (see `key_ok`).
    pub fn can_handle(&self, key: Key) -> (r: bool)
        ensures
            r == key_ok(self@, key),
    {
        match &self.mode {
            AppMode::Banner(_) => true,
            AppMode::Browser(b) => match &b.search {
                SearchMode::Active { .. } => {
                    if key == Key::Enter {
                        match b.selected_search_result() {
                            Some(r) => r.surah_id >= 1 && r.ayah_num.saturating_sub(1) <= u32::MAX
                                / 2,
                            None => true,
                        }
                    } else {
                        true
                    }
                },
                SearchMode::Off => {
                    let row = match b.surah_list {
                        Some(i) => i,
                        None => 0,
                    };
                    let choosing = (key == Key::Right || key == Key::Char('l') || key == Key::Enter)
                        && b.active_panel == Panel::Surahs;
                    let scrolling = (key == Key::Down || key == Key::Char('j')) && b.active_panel
                        == Panel::Scripture;
                    (!choosing || row < usize::MAX) && (!scrolling || b.scripture_scroll
                        <= u16::MAX - SCROLL_STEP)
                },
            },
        }
    }

    /// One frame (see `on_tick_spec`).
    pub fn on_tick(&mut self, quran: &Quran)
        requires
            old(self)@.mode matches AppModeView::Banner(s) ==> s.tick < u32::MAX,
        ensures
            final(self)@ == on_tick_spec(old(self)@, quran@),
    {
        let mut mode = AppMode::Banner(BannerState::new());
        std::mem::swap(&mut mode, &mut self.mode);
        match mode {
            AppMode::Banner(mut banner) => {
                banner.tick();
                if banner.done {
                    self.mode = AppMode::Browser(Self::opening_browser(quran));
                } else {
                    self.mode = AppMode::Banner(banner);
                }
            },
            AppMode::Browser(state) => {
                self.mode = AppMode::Browser(state);
            },
        }
    }

    /// Runs the live search on the open search's query (see `live_search_spec`).
    pub fn live_search(state: &mut BrowserState, quran: &Quran)
        ensures
            final(state)@ == live_search_spec(old(state)@, quran@),
    {
        let mut mode = SearchMode::Off;
        std::mem::swap(&mut mode, &mut state.search);
        match mode {
            SearchMode::Active { query, results, selected } => {
                if str_byte_len(query.as_str()) >= MIN_QUERY_BYTES {
                    let found = search(quran, query.as_str());
                    let sel = if found.len() > 0 {
                        Some(0)
                    } else {
                        selected
                    };
                    state.search = SearchMode::Active { query, results: found, selected: sel };
                } else {
                    let ghost empty: Seq<SearchResultView> = seq![];
                    let none: Vec<SearchResult> = Vec::new();
                    assert(result_views(none@) =~= empty);
                    state.search = SearchMode::Active { query, results: none, selected: None };
                }
            },
            SearchMode::Off => {
                state.search = SearchMode::Off;
            },
        }
    }
}

/// The application after `n` frames from `a`.
pub open spec fn app_ticks(a: AppView, q: Seq<SurahView>, n: nat) -> AppView
    decreases n,
{
    if n == 0 {
        a
    } else {
        on_tick_spec(app_ticks(a, q, (n - 1) as nat), q)
    }
}

/// Started with the banner, the application shows the banner at frame `n` for
/// every `n` up to 120, and after frame 121 shows the browser with surah 1.
pub proof fn law_banner_gives_way_to_browser(q: Seq<SurahView>, n: nat)
    requires
        n <= SETTLE_LAST_TICK + 1,
    ensures
        n <= SETTLE_LAST_TICK ==> app_ticks(app_start(true, q), q, n).mode == AppModeView::Banner(
            banner_ticks(banner_start(), n),
        ),
        n == SETTLE_LAST_TICK + 1 ==> app_ticks(app_start(true, q), q, n).mode
            == AppModeView::Browser(browser_opening(q)),
    decreases n,
{
    if n > 0 {
        law_banner_gives_way_to_browser(q, (n - 1) as nat);
        law_banner_after_ticks((n - 1) as nat);
        law_banner_after_ticks(n);
    }
}

/// On the banner, any key but `Null` skips to the browser showing surah 1.
pub proof fn law_key_skips_banner(a: AppView, q: Seq<SurahView>, key: Key)
    requires
        a.mode is Banner,
        key != Key::Null,
    ensures
        handle_key_spec(a, q, key).mode == AppModeView::Browser(browser_opening(q)),
        handle_key_spec(a, q, key).should_quit == a.should_quit,
{
}

/// In the open search, typing a character and then Backspace gives back the
/// query one started from.
pub proof fn law_type_then_erase(a: AppView, q: Seq<SurahView>, c: char)
    requires
        a.mode matches AppModeView::Browser(b) && b.search is Active,
    ensures
        ({
            let a2 = handle_key_spec(handle_key_spec(a, q, Key::Char(c)), q, Key::Backspace);
            a.mode matches AppModeView::Browser(b) && b.search matches SearchModeView::Active {
                query,
                ..
            } && a2.mode matches AppModeView::Browser(b2) && b2.search matches SearchModeView::Active {
                query: query2,
                ..
            } && query2 == query
        }),
{
    if let AppModeView::Browser(b) = a.mode {
        if let SearchModeView::Active { query, results, selected } = b.search {
            assert(query.push(c).drop_last() =~= query);
        }
    }
}

/// In the open search, Down moves the selection one row down when there is a
/// row below (row 0 when none was selected), and Up one row up when there is a
/// row above; neither touches the query or the results, and Up after Down
/// comes back to the row one started from.
pub proof fn law_search_rows_step_by_one(
    b: BrowserView,
    q: Seq<SurahView>,
    query: Seq<char>,
    results: Seq<SearchResultView>,
    i: usize,
)
    requires
        b.search == (SearchModeView::Active { query, results, selected: Some(i) }),
        results.len() <= usize::MAX,
    ensures
        i + 1 < results.len() ==> browser_key_spec(b, q, Key::Down).0.search == (
        SearchModeView::Active { query, results, selected: Some((i + 1) as usize) }),
        i > 0 ==> browser_key_spec(b, q, Key::Up).0.search == (SearchModeView::Active {
            query,
            results,
            selected: Some((i - 1) as usize),
        }),
        i + 1 >= results.len() ==> browser_key_spec(b, q, Key::Down).0 == b,
        i == 0 ==> browser_key_spec(b, q, Key::Up).0 == b,
        i + 1 < results.len() ==> browser_key_spec(
            browser_key_spec(b, q, Key::Down).0,
            q,
            Key::Up,
        ).0 == b,
        !browser_key_spec(b, q, Key::Down).1 && !browser_key_spec(b, q, Key::Up).1,
{
    if i + 1 < results.len() {
        let d = browser_key_spec(b, q, Key::Down).0;
        assert(d.search == (SearchModeView::Active {
            query,
            results,
            selected: Some((i + 1) as usize),
        }));
        let u = browser_key_spec(d, q, Key::Up).0;
        assert(u.search == b.search);
        assert(u == b);
    }
}

/// A query shorter than `MIN_QUERY_BYTES` bytes has no results and nothing
/// selected; a longer one has the results of the search for it.
pub proof fn law_live_search(b: BrowserView, q: Seq<SurahView>)
    requires
        b.search is Active,
    ensures
        live_search_spec(b, q).search matches SearchModeView::Active { query, results, selected } && (
        if byte_len(query) < MIN_QUERY_BYTES {
            results.len() == 0 && selected is None
        } else {
            results == search_results(q, query) && (results.len() > 0 ==> selected == Some(0usize))
        }),
{
}

/// Without the search open: `q` quits and changes nothing else, `/` opens an
/// empty search; with it open, Esc closes it and changes nothing else.
pub proof fn law_quit_and_search_keys(b: BrowserView, q: Seq<SurahView>)
    ensures
        b.search is Off ==> browser_key_spec(b, q, Key::Char('q')) == (b, true),
        b.search is Off ==> browser_key_spec(b, q, Key::Char('/')).0.search == (SearchModeView::Active {
            query: seq![],
            results: seq![],
            selected: None,
        }),
        b.search is Active ==> browser_key_spec(b, q, Key::Esc) == (with_search(b, SearchModeView::Off), false),
{
}

/// Pressing `t` four times in the browser comes back to the theme one started from.
pub proof fn law_theme_key_cycles(b: BrowserView, q: Seq<SurahView>)
    requires
        b.search is Off,
    ensures
        ({
            let t = Key::Char('t');
            let b1 = browser_key_spec(b, q, t).0;
            let b2 = browser_key_spec(b1, q, t).0;
            let b3 = browser_key_spec(b2, q, t).0;
            let b4 = browser_key_spec(b3, q, t).0;
            b4.theme == b.theme
        }),
{
    law_theme_cycle(b.theme);
}

/// After moving up or down without the search, the surah shown is the surah
/// chosen (none when there is no surah with that number).
pub proof fn law_moves_show_chosen_surah(b: BrowserView, q: Seq<SurahView>, key: Key)
    requires
        b.search is Off,
        key == Key::Up || key == Key::Down || key == Key::Char('k') || key == Key::Char('j'),
    ensures
        browser_key_spec(b, q, key).0.current_surah == find_surah(
            q,
            browser_key_spec(b, q, key).0.selected_surah_id,
        ),
{
}

} // verus!

//! The browser's state and how navigation changes it: the surah list, the
//! scripture panel and its scrolling, and the search overlay.

use vstd::prelude::*;
use crate::api::types::{SearchResult, SearchResultView, Surah, SurahView};
use crate::data::quran::result_views;
use crate::ui::theme::ThemeName;

verus! {

/// The two panels, the surah list on the left and the scripture on the right.
#[derive(Debug, Clone, Copy, PartialEq, Eq, Structural)]
pub enum Panel {
    Surahs,
    Scripture,
}

/// Whether the search overlay is open, and if so its query, its results and
/// the selected row among them.
#[derive(Debug)]
pub enum SearchMode {
    Off,
    Active { query: String, results: Vec<SearchResult>, selected: Option<usize> },
}

/// The number of rows of the surah list.
pub const SURAH_ROWS: usize = 114;

/// The rows that one step scrolls the scripture.
pub const SCROLL_STEP: u16 = 3;

/// The browser's state. `surah_list` is the selected row of the surah list.
#[derive(Debug)]
pub struct BrowserState {
    pub active_panel: Panel,
    pub surah_list: Option<usize>,
    pub scripture_scroll: u16,
    pub selected_surah_id: u32,
    pub current_surah: Option<Surah>,
    pub loading: bool,
    pub search: SearchMode,
    pub theme: ThemeName,
    pub scripture_max_scroll: u16,
}

/// The search overlay with its strings taken by their characters.
pub enum SearchModeView {
    Off,
    Active { query: Seq<char>, results: Seq<SearchResultView>, selected: Option<usize> },
}

/// The browser's state with its strings taken by their characters.
pub struct BrowserView {
    pub active_panel: Panel,
    pub surah_list: Option<usize>,
    pub scripture_scroll: u16,
    pub selected_surah_id: u32,
    pub current_surah: Option<SurahView>,
    pub loading: bool,
    pub search: SearchModeView,
    pub theme: ThemeName,
    pub scripture_max_scroll: u16,
}

impl View for SearchMode {
    type V = SearchModeView;

    open spec fn view(&self) -> SearchModeView {
        match self {
            SearchMode::Off => SearchModeView::Off,
            SearchMode::Active { query, results, selected } => SearchModeView::Active {
                query: query@,
                results: result_views(results@),
                selected: *selected,
            },
        }
    }
}

/// An optional surah taken by its view.
pub open spec fn surah_opt_view(s: Option<Surah>) -> Option<SurahView> {
    match s {
        Some(s) => Some(s@),
        None => None,
    }
}

impl View for BrowserState {
    type V = BrowserView;

    open spec fn view(&self) -> BrowserView {
        BrowserView {
            active_panel: self.active_panel,
            surah_list: self.surah_list,
            scripture_scroll: self.scripture_scroll,
            selected_surah_id: self.selected_surah_id,
            current_surah: surah_opt_view(self.current_surah),
            loading: self.loading,
            search: self.search@,
            theme: self.theme,
            scripture_max_scroll: self.scripture_max_scroll,
        }
    }
}

/// The selected row of the surah list, the first when none is.
pub open spec fn selected_row(b: BrowserView) -> usize {
    match b.surah_list {
        Some(i) => i,
        None => 0,
    }
}

/// The state at the start: the surah list active with its first row selected,
/// surah 1 chosen but none loaded, no search, the default theme.
pub open spec fn browser_start() -> BrowserView {
    BrowserView {
        active_panel: Panel::Surahs,
        surah_list: Some(0),
        scripture_scroll: 0,
        selected_surah_id: 1,
        current_surah: None,
        loading: false,
        search: SearchModeView::Off,
        theme: ThemeName::Slate,
        scripture_max_scroll: 0,
    }
}

/// Going right: the scripture panel becomes active.
pub open spec fn browser_next_panel(b: BrowserView) -> BrowserView {
    BrowserView { active_panel: Panel::Scripture, ..b }
}

/// Going left: the surah list becomes active.
pub open spec fn browser_prev_panel(b: BrowserView) -> BrowserView {
    BrowserView { active_panel: Panel::Surahs, ..b }
}

/// Going up: in the surah list the row above is selected, its surah chosen and
/// the scripture scrolled to the top; in the scripture, it scrolls up a step.
pub open spec fn browser_move_up(b: BrowserView) -> BrowserView {
    match b.active_panel {
        Panel::Surahs => {
            let i = selected_row(b);
            if i > 0 {
                BrowserView {
                    surah_list: Some((i - 1) as usize),
                    selected_surah_id: i as u32,
                    scripture_scroll: 0,
                    ..b
                }
            } else {
                b
            }
        },
        Panel::Scripture => BrowserView {
            scripture_scroll: if b.scripture_scroll >= SCROLL_STEP {
                (b.scripture_scroll - SCROLL_STEP) as u16
            } else {
                0
            },
            ..b
        },
    }
}

/// Going down: in the surah list the row below is selected (up to the last
/// surah), its surah chosen and the scripture scrolled to the top; in the
/// scripture, it scrolls down a step, no further than its end.
pub open spec fn browser_move_down(b: BrowserView) -> BrowserView {
    match b.active_panel {
        Panel::Surahs => {
            let i = selected_row(b);
            if i < SURAH_ROWS - 1 {
                BrowserView {
                    surah_list: Some((i + 1) as usize),
                    selected_surah_id: (i + 2) as u32,
                    scripture_scroll: 0,
                    ..b
                }
            } else {
                b
            }
        },
        Panel::Scripture => BrowserView {
            scripture_scroll: if b.scripture_scroll + SCROLL_STEP <= b.scripture_max_scroll {
                (b.scripture_scroll + SCROLL_STEP) as u16
            } else {
                b.scripture_max_scroll
            },
            ..b
        },
    }
}

/// Whether choosing the selected row of the surah list changes the surah shown.
pub open spec fn selection_changes_surah(b: BrowserView) -> bool {
    match b.current_surah {
        Some(s) => s.id != ((selected_row(b) + 1) as u32),
        None => true,
    }
}

/// What `select_current` gives and leaves: in the surah list, the selected
/// row's surah is chosen and the scripture becomes active, scrolled to the top
/// when that surah is not the one shown; the answer is whether it is not.
/// In the scripture nothing changes and the answer is no.
pub open spec fn browser_select_current(b: BrowserView) -> (BrowserView, bool) {
    match b.active_panel {
        Panel::Surahs => {
            let changed = selection_changes_surah(b);
            (
                BrowserView {
                    scripture_scroll: if changed {
                        0
                    } else {
                        b.scripture_scroll
                    },
                    selected_surah_id: (selected_row(b) + 1) as u32,
                    active_panel: Panel::Scripture,
                    ..b
                },
                changed,
            )
        },
        Panel::Scripture => (b, false),
    }
}

/// The selected search result, if the search is open and a row is selected.
pub open spec fn selected_result_spec(b: BrowserView) -> Option<SearchResultView> {
    match b.search {
        SearchModeView::Active { results, selected, .. } => match selected {
            Some(i) => if i < results.len() {
                Some(results[i as int])
            } else {
                None
            },
            None => None,
        },
        SearchModeView::Off => None,
    }
}

/// The rows scrolled to show ayah `ayah_num`: two per verse before it.
pub open spec fn scroll_for_ayah(ayah_num: u32) -> u16 {
    (if ayah_num >= 1 {
        (ayah_num - 1) * 2
    } else {
        0
    }) as u16
}

/// Jumping to a search result: its surah is chosen and selected in the list,
/// the scripture becomes active, scrolled to its ayah, and the search closes.
pub open spec fn browser_jump_to_result(b: BrowserView, surah_id: u32, ayah_num: u32) -> BrowserView {
    BrowserView {
        selected_surah_id: surah_id,
        surah_list: Some((surah_id - 1) as usize),
        scripture_scroll: scroll_for_ayah(ayah_num),
        active_panel: Panel::Scripture,
        search: SearchModeView::Off,
        ..b
    }
}

/// `jump_to_result` does not overflow for these numbers.
pub open spec fn can_jump_to(surah_id: u32, ayah_num: u32) -> bool {
    &&& surah_id >= 1
    &&& (if ayah_num >= 1 {
        (ayah_num - 1) * 2
    } else {
        0
    }) <= u32::MAX
}

/// The lines that the scripture panel holds for surah `s`: the Bismillah and a
/// blank line (except for surahs 1 and 9), two lines per verse, and a footer
/// of four lines.
pub open spec fn scripture_line_count(s: SurahView) -> nat {
    (if s.id != 9 && s.id != 1 {
        2nat
    } else {
        0nat
    }) + 2 * s.verses.len() + 4
}

/// How far the scripture of `s` can scroll in a panel `visible` lines high:
/// its line count, taken as a `u16`, less the visible lines, or 0 when it fits.
pub open spec fn scripture_max_scroll_spec(s: SurahView, visible: u16) -> u16 {
    let lines = scripture_line_count(s) as u16;
    if lines >= visible {
        (lines - visible) as u16
    } else {
        0
    }
}

/// How far the scripture of `surah` can scroll in a panel `visible_height`
/// lines high (see `scripture_max_scroll_spec`).
pub fn scripture_max_scroll(surah: &Surah, visible_height: u16) -> (r: u16)
    ensures
        r == scripture_max_scroll_spec(surah@, visible_height),
{
    let bismillah: u128 = if surah.id != 9 && surah.id != 1 {
        2
    } else {
        0
    };
    let verses = surah.verses.len() as u128;
    let count: u128 = bismillah + 2 * verses + 4;
    assert(count == scripture_line_count(surah@));
    let lines = count as u16;
    lines.saturating_sub(visible_height)
}

impl BrowserState {
    /// The state at the start (see `browser_start`).
    pub fn new() -> (s: Self)
        ensures
            s@ == browser_start(),
    {
        Self {
            active_panel: Panel::Surahs,
            surah_list: Some(0),
            scripture_scroll: 0,
            selected_surah_id: 1,
            current_surah: None,
            loading: false,
            search: SearchMode::Off,
            theme: ThemeName::Slate,
            scripture_max_scroll: 0,
        }
    }

    /// Makes the scripture panel active.
    pub fn next_panel(&mut self)
        ensures
            final(self)@ == browser_next_panel(old(self)@),
    {
        self.active_panel = match self.active_panel {
            Panel::Surahs => Panel::Scripture,
            Panel::Scripture => Panel::Scripture,
        };
    }

    /// Makes the surah list active.
    pub fn prev_panel(&mut self)
        ensures
            final(self)@ == browser_prev_panel(old(self)@),
    {
        self.active_panel = match self.active_panel {
            Panel::Surahs => Panel::Surahs,
            Panel::Scripture => Panel::Surahs,
        };
    }

    /// Moves up in the active panel (see `browser_move_up`).
    pub fn move_up(&mut self)
        ensures
            final(self)@ == browser_move_up(old(self)@),
    {
        match self.active_panel {
            Panel::Surahs => {
                let i = match self.surah_list {
                    Some(i) => i,
                    None => 0,
                };
                if i > 0 {
                    self.surah_list = Some(i - 1);
                    self.selected_surah_id = i as u32;
                    self.scripture_scroll = 0;
                }
            },
            Panel::Scripture => {
                self.scripture_scroll = self.scripture_scroll.saturating_sub(SCROLL_STEP);
            },
        }
    }

    /// Moves down in the active panel (see `browser_move_down`).
    pub fn move_down(&mut self)
        requires
            old(self).active_panel == Panel::Scripture ==> old(self).scripture_scroll + SCROLL_STEP
                <= u16::MAX,
        ensures
            final(self)@ == browser_move_down(old(self)@),
    {
        match self.active_panel {
            Panel::Surahs => {
                let i = match self.surah_list {
                    Some(i) => i,
                    None => 0,
                };
                if i < SURAH_ROWS - 1 {
                    self.surah_list = Some(i + 1);
                    self.selected_surah_id = (i + 2) as u32;
                    self.scripture_scroll = 0;
                }
            },
            Panel::Scripture => {
                let down = self.scripture_scroll + SCROLL_STEP;
                self.scripture_scroll = if down <= self.scripture_max_scroll {
                    down
                } else {
                    self.scripture_max_scroll
                };
            },
        }
    }

    /// Chooses the selected row of the surah list (see `browser_select_current`);
    /// the answer says whether the surah shown must be loaded anew.
    pub fn select_current(&mut self) -> (changed: bool)
        requires
            old(self).active_panel == Panel::Surahs ==> selected_row(old(self)@) < usize::MAX,
        ensures
            (final(self)@, changed) == browser_select_current(old(self)@),
    {
        match self.active_panel {
            Panel::Surahs => {
                let i = match self.surah_list {
                    Some(i) => i,
                    None => 0,
                };
                let new_id = (i + 1) as u32;
                let id_changed = match &self.current_surah {
                    Some(s) => s.id != new_id,
                    None => true,
                };
                if id_changed {
                    self.scripture_scroll = 0;
                }
                self.selected_surah_id = new_id;
                self.active_panel = Panel::Scripture;
                id_changed
            },
            Panel::Scripture => false,
        }
    }

    /// The selected search result, if the search is open and a row is selected.
    pub fn selected_search_result(&self) -> (r: Option<&SearchResult>)
        ensures
            match r {
                Some(res) => selected_result_spec(self@) == Some(res@),
                None => selected_result_spec(self@) is None,
            },
    {
        match &self.search {
            SearchMode::Active { results, selected, .. } => {
                let idx = (*selected)?;
                if idx < results.len() {
                    Some(&results[idx])
                } else {
                    None
                }
            },
            SearchMode::Off => None,
        }
    }

    /// Jumps to a search result (see `browser_jump_to_result`).
    pub fn jump_to_result(&mut self, surah_id: u32, ayah_num: u32)
        requires
            can_jump_to(surah_id, ayah_num),
        ensures
            final(self)@ == browser_jump_to_result(old(self)@, surah_id, ayah_num),
    {
        self.selected_surah_id = surah_id;
        self.surah_list = Some((surah_id - 1) as usize);
        self.scripture_scroll = (ayah_num.saturating_sub(1) * 2) as u16;
        self.active_panel = Panel::Scripture;
        self.search = SearchMode::Off;
    }
}

/// The selected row and the chosen surah agree: a row is selected, it is a row
/// of the list, and the surah chosen is the one on that row.
pub open spec fn selection_in_step(b: BrowserView) -> bool {
    b.surah_list matches Some(i) && i < SURAH_ROWS && b.selected_surah_id == i + 1
}

/// Moving up or down in the surah list keeps the selected row within the list
/// and the chosen surah that of the selected row.
pub proof fn law_moves_keep_selection_in_step(b: BrowserView)
    requires
        b.active_panel == Panel::Surahs,
        selection_in_step(b),
    ensures
        selection_in_step(browser_move_up(b)),
        selection_in_step(browser_move_down(b)),
{
}

/// The selected row and the chosen surah agree at the start, and every
/// operation of the browser keeps them agreeing: moving up or down in either
/// panel, choosing the selected surah, switching panels, and jumping to a
/// result whose surah is one of the 114.
pub proof fn law_selection_stays_in_step(b: BrowserView, surah_id: u32, ayah_num: u32)
    ensures
        selection_in_step(browser_start()),
        selection_in_step(b) ==> selection_in_step(browser_move_up(b)),
        selection_in_step(b) ==> selection_in_step(browser_move_down(b)),
        selection_in_step(b) ==> selection_in_step(browser_select_current(b).0),
        selection_in_step(b) ==> selection_in_step(browser_next_panel(b)),
        selection_in_step(b) ==> selection_in_step(browser_prev_panel(b)),
        1 <= surah_id <= SURAH_ROWS ==> selection_in_step(
            browser_jump_to_result(b, surah_id, ayah_num),
        ),
{
}

/// In the surah list, moving to another row selects the row next to it,
/// chooses the surah on that row, and shows the scripture from its top:
/// up from row `i > 0` goes to row `i - 1` (surah `i`), down from row
/// `i < 113` goes to row `i + 1` (surah `i + 2`); at either end nothing changes.
pub proof fn law_list_moves_reset_scroll(b: BrowserView)
    requires
        b.active_panel == Panel::Surahs,
    ensures
        selected_row(b) > 0 ==> {
            let u = browser_move_up(b);
            &&& u.surah_list == Some((selected_row(b) - 1) as usize)
            &&& u.selected_surah_id == selected_row(b) as u32
            &&& u.scripture_scroll == 0
            &&& u.current_surah == b.current_surah
            &&& u.active_panel == Panel::Surahs
        },
        selected_row(b) < SURAH_ROWS - 1 ==> {
            let d = browser_move_down(b);
            &&& d.surah_list == Some((selected_row(b) + 1) as usize)
            &&& d.selected_surah_id == selected_row(b) + 2
            &&& d.scripture_scroll == 0
            &&& d.current_surah == b.current_surah
            &&& d.active_panel == Panel::Surahs
        },
        selected_row(b) == 0 ==> browser_move_up(b) == b,
        selected_row(b) >= SURAH_ROWS - 1 ==> browser_move_down(b) == b,
{
}

/// Choosing the selected row of the surah list opens the scripture on the
/// surah of that row (number row + 1). The answer is true exactly when no
/// surah is shown or the surah shown has another number; only then is the
/// scroll reset, and when it is the surah shown, the place in it is kept.
pub proof fn law_select_current_keeps_place(b: BrowserView)
    requires
        b.active_panel == Panel::Surahs,
        selected_row(b) < SURAH_ROWS,
    ensures
        ({
            let (c, changed) = browser_select_current(b);
            let id = (selected_row(b) + 1) as u32;
            &&& c.active_panel == Panel::Scripture
            &&& c.selected_surah_id == selected_row(b) + 1
            &&& c.surah_list == b.surah_list
            &&& c.current_surah == b.current_surah
            &&& changed == !(b.current_surah matches Some(s) && s.id == id)
            &&& (b.current_surah matches Some(s) && s.id == id) ==> c.scripture_scroll
                == b.scripture_scroll
            &&& changed ==> c.scripture_scroll == 0
        }),
{
}

/// In the scripture, choosing changes nothing and answers false.
pub proof fn law_select_current_in_scripture(b: BrowserView)
    requires
        b.active_panel == Panel::Scripture,
    ensures
        browser_select_current(b) == (b, false),
{
}

/// In the surah list, moving down and then up comes back to the row and the
/// surah one started from, unless one started on the last row.
pub proof fn law_move_down_then_up(b: BrowserView)
    requires
        b.active_panel == Panel::Surahs,
        selection_in_step(b),
        selected_row(b) < SURAH_ROWS - 1,
    ensures
        browser_move_up(browser_move_down(b)).surah_list == b.surah_list,
        browser_move_up(browser_move_down(b)).selected_surah_id == b.selected_surah_id,
{
}

/// In the scripture, scrolling down never passes its end, and scrolling up
/// never passes its top.
pub proof fn law_scroll_bounded(b: BrowserView)
    requires
        b.active_panel == Panel::Scripture,
        b.scripture_scroll <= b.scripture_max_scroll,
    ensures
        browser_move_down(b).scripture_scroll <= b.scripture_max_scroll,
        browser_move_up(b).scripture_scroll <= b.scripture_scroll,
{
}

/// Going right then left comes back to the surah list, and neither touches
/// anything but the active panel.
pub proof fn law_panels(b: BrowserView)
    ensures
        browser_prev_panel(browser_next_panel(b)) == (BrowserView { active_panel: Panel::Surahs, ..b }),
        browser_next_panel(b).active_panel == Panel::Scripture,
{
}

/// Jumping to a result closes the search, shows the scripture, and leaves the
/// list's selected row on the result's surah.
pub proof fn law_jump_selects_surah(b: BrowserView, surah_id: u32, ayah_num: u32)
    requires
        can_jump_to(surah_id, ayah_num),
    ensures
        browser_jump_to_result(b, surah_id, ayah_num).search == SearchModeView::Off,
        browser_jump_to_result(b, surah_id, ayah_num).active_panel == Panel::Scripture,
        surah_id <= SURAH_ROWS ==> selection_in_step(browser_jump_to_result(b, surah_id, ayah_num)),
{
}

} // verus!

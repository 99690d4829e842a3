//! The program as a whole: which page is shown, the Gmail search under way,
//! the review, and the settings, driven by keys and by what the work started
//! for them reports back.
use vstd::prelude::*;

use crate::date_range::{iso_text, parse_range_spec, DateRange};
use crate::gmail_search::{candidates_view, CandidateEmail, CandidateEmailView, GmailSearchError};
use crate::home::{
    active_date_of, calendar_text, first_day_spec, home_key, in_calendar, last_day_spec, move_stays, opens_settings, submits, CalendarDate, DateField,
    HomePage, HomePageAction, HomePageStatus, HomePageView,
};
use crate::i18n::{date_range_error_text, gmail_search_error_text, messages_for, messages_spec, Messages};
use crate::keys::{KeyCode, KeyInput};
use crate::results_page::{email_ids, keep_selected, lemma_keep_none, results_key, ResultsPage, ResultsPageAction, ResultsPageView};
use crate::review::{review_event, review_key, goes_on_from, ReviewAction, ReviewContextView, ReviewEvent, ReviewPhase, ReviewState};
use crate::settings::{settings_from_input, AppSettings};
use crate::settings_page::{settings_key, SettingsField, SettingsPage, SettingsPageAction, SettingsPageView, SettingsStatusView};
use crate::text::{owned, trim, trim_str};

verus! {

/// The page on screen.
#[derive(Clone, Copy, Debug, PartialEq, Eq, Structural)]
pub enum Screen {
    Home,
    Results,
    Review,
    Settings,
}

/// The Gmail search: none, one under way for a period, or one that failed.
pub enum SearchState {
    Idle,
    Running { initial_date: String, final_date: String },
    Failed(String),
}

/// The search, as text.
pub enum SearchView {
    Idle,
    Running { initial_date: Seq<char>, final_date: Seq<char> },
    Failed(Seq<char>),
}

/// Whether the program goes on after a key.
#[derive(Clone, Copy, Debug, PartialEq, Eq, Structural)]
pub enum AppAction {
    Continue,
    Quit,
}

/// The work the program asks for after a step.
pub enum AppCommand {
    Nothing,
    /// Search Gmail for the candidates of `range`, with `dte_query_filter`.
    Search { range: DateRange, dte_query_filter: String },
    /// Load the invoice of this email for review.
    LoadReview(CandidateEmail),
    /// Save and upload the invoice under review ([`ReviewState::review`]).
    SaveReview,
    /// Write these settings to the settings file.
    SaveSettings(AppSettings),
}

/// What a running search reports.
pub enum SearchEvent {
    Finished(Result<Vec<CandidateEmail>, GmailSearchError>),
    Stopped,
}

/// The program's state.
pub struct App {
    screen: Screen,
    home_page: HomePage,
    results_page: ResultsPage,
    settings_page: SettingsPage,
    search: SearchState,
    review: ReviewState,
    results: Vec<CandidateEmail>,
    search_frame: usize,
    settings: AppSettings,
}

/// The content of an [`App`].
pub struct AppView {
    pub screen: Screen,
    pub home: HomePageView,
    pub results_page: ResultsPageView,
    pub settings_page: SettingsPageView,
    pub search: SearchView,
    pub review: ReviewPhase,
    pub results: Seq<CandidateEmailView>,
    pub search_frame: nat,
    pub settings: AppSettings,
}

/// The search as text.
pub open spec fn search_view(s: SearchState) -> SearchView {
    match s {
        SearchState::Idle => SearchView::Idle,
        SearchState::Running { initial_date, final_date } => SearchView::Running {
            initial_date: initial_date@,
            final_date: final_date@,
        },
        SearchState::Failed(m) => SearchView::Failed(m@),
    }
}

impl View for App {
    type V = AppView;

    closed spec fn view(&self) -> AppView {
        AppView {
            screen: self.screen,
            home: self.home_page@,
            results_page: self.results_page@,
            settings_page: self.settings_page@,
            search: search_view(self.search),
            review: self.review@,
            results: candidates_view(self.results@),
            search_frame: self.search_frame as nat,
            settings: self.settings,
        }
    }
}

/// The messages of the language of the settings.
pub open spec fn text_of(v: AppView) -> Messages {
    messages_spec(v.settings.language)
}

/// The search the home page submits: the period of its two dates, or the
/// message that rejects it.
pub open spec fn submitted_search(v: AppView) -> SearchView {
    match parse_range_spec(calendar_text(v.home.initial_date), calendar_text(v.home.final_date)) {
        Ok((start, end)) => SearchView::Running { initial_date: iso_text(start), final_date: iso_text(end) },
        Err(e) => SearchView::Failed(date_range_error_text(v.settings.language, e)),
    }
}

/// A key the program takes while it is on `v`: a key that moves a date of
/// the home page needs a move that stays in the calendar.
pub open spec fn takes_key(v: AppView, key: KeyInput) -> bool {
    !(v.search is Running) && v.screen == Screen::Home && v.home.picker_open
        ==> move_stays(active_date_of(v.home), key.code)
}

/// A settings page filled from `settings`, with no status.
pub open spec fn settings_page_of(p: SettingsPageView, settings: AppSettings) -> bool {
    &&& p.download_dir == settings.download_dir@
    &&& p.drive_root_folder == settings.drive_root_folder@
    &&& p.dte_query_filter == settings.dte_query_filter@
    &&& p.language == settings.language
    &&& p.status is None
}

/// `v` with a failed search forgotten, as any key on the home page does.
pub open spec fn failure_cleared(v: AppView) -> AppView {
    AppView { search: if v.search is Failed { SearchView::Idle } else { v.search }, ..v }
}

/// The command of a submitted search: search the period with the filter of
/// the settings, trimmed; nothing when the period is rejected.
pub open spec fn search_command(v: AppView, command: AppCommand) -> bool {
    match submitted_search(v) {
        SearchView::Running { .. } => command matches AppCommand::Search { range, dte_query_filter }
            && (parse_range_spec(calendar_text(v.home.initial_date), calendar_text(v.home.final_date)) matches Ok(p) && p == range@)
            && dte_query_filter@ == trim(v.settings.dte_query_filter@),
        _ => command is Nothing,
    }
}

/// A key on the home page: `q` quits; `S` (and `s` with the picker open)
/// opens the settings, filled from the settings in use; `s` (picker closed) submits the search; any other
/// key goes to the form. A failed search is forgotten first.
pub open spec fn home_step(v: AppView, key: KeyInput, w: AppView, action: AppAction, command: AppCommand) -> bool {
    let page = AppView { home: home_key(v.home, key.code), ..failure_cleared(v) };
    if key.code == KeyCode::Char('q') {
        w == page && action == AppAction::Quit && command is Nothing
    } else if opens_settings(v.home, key.code) {
        &&& w == (AppView { screen: Screen::Settings, settings_page: w.settings_page, ..page })
        &&& settings_page_of(w.settings_page, v.settings)
        &&& w.settings_page.focused_field == SettingsField::DownloadDir
        &&& action == AppAction::Continue && command is Nothing
    } else if submits(v.home, key.code) {
        &&& w == (AppView {
            search: submitted_search(v),
            search_frame: if submitted_search(v) is Running { 0 } else { v.search_frame },
            ..page
        })
        &&& action == AppAction::Continue && search_command(v, command)
    } else {
        w == page && action == AppAction::Continue && command is Nothing
    }
}

/// The command that asks for what the review asks.
pub open spec fn review_command(action: ReviewAction, command: AppCommand) -> bool {
    match action {
        ReviewAction::Load(e) => command matches AppCommand::LoadReview(x) && x == e,
        ReviewAction::Save => command is SaveReview,
        _ => command is Nothing,
    }
}

/// A key on the results page: `q` quits; `b` or Esc goes back to the home
/// page; Enter starts the review of the selected emails, when there are any;
/// any other key goes to the page.
pub open spec fn results_step(v: AppView, key: KeyInput, w: AppView, action: AppAction, command: AppCommand) -> bool {
    let selected = keep_selected(v.results, v.results_page.selected_ids);
    if key.code == KeyCode::Char('q') {
        w == v && action == AppAction::Quit && command is Nothing
    } else if key.code == KeyCode::Char('b') || key.code == KeyCode::Esc {
        w == (AppView { screen: Screen::Home, ..v }) && action == AppAction::Continue && command is Nothing
    } else if key.code == KeyCode::Enter && selected.len() > 0 {
        &&& w == (AppView { screen: Screen::Review, review: w.review, ..v })
        &&& exists|ra: ReviewAction| #[trigger] goes_on_from(
            ReviewContextView { emails: selected, index: 0, processed: 0, skipped: 0, saved_files: seq![] },
            w.review,
            ra,
        ) && review_command(ra, command)
        &&& action == AppAction::Continue
    } else if key.code == KeyCode::Enter {
        w == v && action == AppAction::Continue && command is Nothing
    } else {
        w == (AppView { results_page: results_key(v.results_page, key.code, v.results), ..v })
            && action == AppAction::Continue && command is Nothing
    }
}

/// A key on the review page, as the review takes it; the results come back
/// when the review asks for them.
pub open spec fn review_step(v: AppView, key: KeyInput, w: AppView, action: AppAction, command: AppCommand) -> bool {
    exists|ra: ReviewAction| #[trigger] review_key(v.review, key.code, w.review, ra)
        && w == (AppView { review: w.review, screen: if ra is ShowResults { Screen::Results } else { v.screen }, ..v })
        && (action == AppAction::Quit <==> ra is Quit) && review_command(ra, command)
}

/// Why the settings of the form are refused, in the language they choose:
/// a blank download folder, else a blank Drive folder.
pub open spec fn settings_refusal(p: SettingsPageView) -> Option<Seq<char>> {
    let text = messages_spec(p.language);
    if trim(p.download_dir).len() == 0 {
        Some(text.settings_empty_download_dir@)
    } else if trim(p.drive_root_folder).len() == 0 {
        Some(text.settings_empty_drive_root_folder@)
    } else {
        None
    }
}

/// A key on the settings page: Ctrl+q quits, Esc goes back to the home page,
/// Enter asks to save the settings of the form, trimmed, or shows why they
/// are refused; any other key goes to the form.
pub open spec fn settings_step(v: AppView, key: KeyInput, w: AppView, action: AppAction, command: AppCommand) -> bool {
    let p = v.settings_page;
    if key.code == KeyCode::Char('q') && key.control {
        w == v && action == AppAction::Quit && command is Nothing
    } else if key.code == KeyCode::Esc {
        w == (AppView { screen: Screen::Home, ..v }) && action == AppAction::Continue && command is Nothing
    } else if key.code == KeyCode::Enter {
        &&& action == AppAction::Continue
        &&& match settings_refusal(p) {
            Some(m) => w == (AppView {
                settings_page: SettingsPageView { status: Some(SettingsStatusView::Error(m)), ..p },
                ..v
            }) && (command is Nothing),
            None => w == v && (command matches AppCommand::SaveSettings(s)
                && s.download_dir@ == trim(p.download_dir) && s.drive_root_folder@ == trim(p.drive_root_folder)
                && s.dte_query_filter@ == trim(p.dte_query_filter) && s.language == p.language),
        }
    } else {
        w == (AppView { settings_page: settings_key(p, key), ..v }) && action == AppAction::Continue && command is Nothing
    }
}

/// The frame of the search animation after a tick.
pub open spec fn next_frame(frame: nat) -> nat {
    if frame + 1 > usize::MAX {
        0
    } else {
        frame + 1
    }
}

/// A tick while a search runs: the animation moves on; found emails are
/// shown on the results page, all selected; a failure is shown on the home
/// page.
pub open spec fn search_tick(v: AppView, event: Option<SearchEvent>, w: AppView) -> bool {
    let ticked = AppView { search_frame: next_frame(v.search_frame), ..v };
    match event {
        None => w == ticked,
        Some(SearchEvent::Finished(Ok(results))) => w == (AppView {
            results: candidates_view(results@),
            results_page: ResultsPageView {
                selected: 0,
                scroll_offset: 0,
                details_scroll: 0,
                selected_ids: email_ids(candidates_view(results@)).to_set(),
            },
            search: SearchView::Idle,
            screen: Screen::Results,
            ..ticked
        }),
        Some(SearchEvent::Finished(Err(e))) => w == (AppView {
            search: SearchView::Failed(gmail_search_error_text(v.settings.language, e)),
            ..ticked
        }),
        Some(SearchEvent::Stopped) => w == (AppView {
            search: SearchView::Failed(text_of(v).gmail_search_stopped@),
            ..ticked
        }),
    }
}

impl App {
    /// The program as it starts with `settings` on the day `today`: the home
    /// page, no search, no review.
    pub fn new(settings: AppSettings, today: CalendarDate) -> (app: App)
        requires
            in_calendar(today),
        ensures
            app@.screen == Screen::Home,
            app@.home == (HomePageView {
                initial_date: first_day_spec(today),
                final_date: last_day_spec(today),
                focused_field: DateField::Initial,
                picker_open: false,
            }),
            app@.search is Idle,
            app@.review is Idle,
            app@.results.len() == 0,
            app@.search_frame == 0,
            app@.settings == settings,
    {
        App {
            screen: Screen::Home,
            home_page: HomePage::new(today),
            results_page: ResultsPage::new(),
            settings_page: SettingsPage::new(),
            search: SearchState::Idle,
            review: ReviewState::idle(),
            results: Vec::new(),
            search_frame: 0,
            settings,
        }
    }

    /// The messages in the language of the settings.
    pub fn text(&self) -> (m: Messages)
        ensures
            m == text_of(self@),
    {
        messages_for(self.settings.language)
    }

    /// The page on screen.
    pub fn screen(&self) -> (s: Screen)
        ensures
            s == self@.screen,
    {
        self.screen
    }

    /// The home page.
    pub fn home_page(&self) -> (p: &HomePage)
        ensures
            p@ == self@.home,
    {
        &self.home_page
    }

    /// The results page.
    pub fn results_page(&self) -> (p: &ResultsPage)
        ensures
            p@ == self@.results_page,
    {
        &self.results_page
    }

    /// The settings page.
    pub fn settings_page(&self) -> (p: &SettingsPage)
        ensures
            p@ == self@.settings_page,
    {
        &self.settings_page
    }

    /// The review.
    pub fn review(&self) -> (r: &ReviewState)
        ensures
            r@ == self@.review,
    {
        &self.review
    }

    /// The emails the last search found.
    pub fn results(&self) -> (r: &[CandidateEmail])
        ensures
            candidates_view(r@) == self@.results,
    {
        self.results.as_slice()
    }

    /// The settings in use.
    pub fn settings(&self) -> (s: &AppSettings)
        ensures
            *s == self@.settings,
    {
        &self.settings
    }

    /// Whether a search is under way.
    pub fn is_searching(&self) -> (b: bool)
        ensures
            b == self@.search is Running,
    {
        match self.search {
            SearchState::Running { .. } => true,
            _ => false,
        }
    }

    /// What the home page shows below the form.
    pub fn home_status(&self) -> (s: HomePageStatus<'_>)
        ensures
            match self@.search {
                SearchView::Idle => s is Idle,
                SearchView::Running { initial_date, final_date } => s matches HomePageStatus::Searching {
                    initial_date: i,
                    final_date: f,
                    frame,
                } && i@ == initial_date && f@ == final_date && frame == self@.search_frame,
                SearchView::Failed(m) => s matches HomePageStatus::Error(e) && e@ == m,
            },
    {
        match &self.search {
            SearchState::Idle => HomePageStatus::Idle,
            SearchState::Running { initial_date, final_date } => HomePageStatus::Searching {
                initial_date: initial_date.as_str(),
                final_date: final_date.as_str(),
                frame: self.search_frame,
            },
            SearchState::Failed(m) => HomePageStatus::Error(m.as_str()),
        }
    }

    /// Whether the program can take `key` now (see [`takes_key`]).
    pub fn can_take(&self, key: KeyInput) -> (b: bool)
        ensures
            b == takes_key(self@, key),
    {
        if self.is_searching() || self.screen != Screen::Home {
            true
        } else {
            self.home_page.can_take(key)
        }
    }

    /// Starts the search the home page submitted, or shows why its period
    /// is rejected.
    fn start_search(&mut self) -> (command: AppCommand)
        ensures
            final(self)@ == (AppView {
                search: submitted_search(old(self)@),
                search_frame: if submitted_search(old(self)@) is Running { 0 } else { old(self)@.search_frame },
                ..old(self)@
            }),
            match submitted_search(old(self)@) {
                SearchView::Running { .. } => command matches AppCommand::Search { range, dte_query_filter }
                    && (parse_range_spec(calendar_text(old(self)@.home.initial_date), calendar_text(old(self)@.home.final_date))
                        matches Ok(p) && p == range@)
                    && dte_query_filter@ == trim(old(self)@.settings.dte_query_filter@),
                _ => command is Nothing,
            },
    {
        let criteria = self.home_page.criteria();
        match DateRange::parse(criteria.initial_date.as_str(), criteria.final_date.as_str()) {
            Ok(range) => {
                self.search = SearchState::Running { initial_date: range.initial_date(), final_date: range.final_date() };
                self.search_frame = 0;
                AppCommand::Search { range, dte_query_filter: trim_str(self.settings.dte_query_filter.as_str()) }
            },
            Err(error) => {
                let text = self.text();
                self.search = SearchState::Failed(owned(text.date_range_error(&error)));
                AppCommand::Nothing
            },
        }
    }

    /// Takes a key. While a search runs, only `q` does something: it quits.
    /// Otherwise the page on screen takes it.
    pub fn handle_key(&mut self, key: KeyInput) -> (r: (AppAction, AppCommand))
        requires
            takes_key(old(self)@, key),
        ensures
            old(self)@.search is Running ==> final(self)@ == old(self)@ && r.1 is Nothing
                && (r.0 == AppAction::Quit <==> key.code == KeyCode::Char('q')),
            !(old(self)@.search is Running) ==> match old(self)@.screen {
                Screen::Home => home_step(old(self)@, key, final(self)@, r.0, r.1),
                Screen::Results => results_step(old(self)@, key, final(self)@, r.0, r.1),
                Screen::Review => review_step(old(self)@, key, final(self)@, r.0, r.1),
                Screen::Settings => settings_step(old(self)@, key, final(self)@, r.0, r.1),
            },
    {
        if self.is_searching() {
            let action = if key.code == KeyCode::Char('q') {
                AppAction::Quit
            } else {
                AppAction::Continue
            };
            return (action, AppCommand::Nothing);
        }
        match self.screen {
            Screen::Home => self.on_home_key(key),
            Screen::Results => self.on_results_key(key),
            Screen::Review => self.on_review_key(key),
            Screen::Settings => self.on_settings_key(key),
        }
    }

    fn on_home_key(&mut self, key: KeyInput) -> (r: (AppAction, AppCommand))
        requires
            old(self)@.screen == Screen::Home,
            !(old(self)@.search is Running),
            takes_key(old(self)@, key),
        ensures
            home_step(old(self)@, key, final(self)@, r.0, r.1),
    {
        if let SearchState::Failed(_) = self.search {
            self.search = SearchState::Idle;
        }
        match self.home_page.handle_key(key) {
            HomePageAction::Continue => (AppAction::Continue, AppCommand::Nothing),
            HomePageAction::OpenSettings => {
                self.settings_page.reset(&self.settings);
                self.screen = Screen::Settings;
                (AppAction::Continue, AppCommand::Nothing)
            },
            HomePageAction::Quit => (AppAction::Quit, AppCommand::Nothing),
            HomePageAction::Submit(_) => (AppAction::Continue, self.start_search()),
        }
    }

    fn on_results_key(&mut self, key: KeyInput) -> (r: (AppAction, AppCommand))
        requires
            old(self)@.screen == Screen::Results,
        ensures
            results_step(old(self)@, key, final(self)@, r.0, r.1),
    {
        proof {
            lemma_keep_none(self@.results);
        }
        match self.results_page.handle_key(key, self.results.as_slice()) {
            ResultsPageAction::Continue => (AppAction::Continue, AppCommand::Nothing),
            ResultsPageAction::Back => {
                self.screen = Screen::Home;
                (AppAction::Continue, AppCommand::Nothing)
            },
            ResultsPageAction::ReviewSelected => {
                let emails = self.results_page.selected_emails(self.results.as_slice());
                if emails.len() == 0 {
                    return (AppAction::Continue, AppCommand::Nothing);
                }
                self.screen = Screen::Review;
                let (review, action) = ReviewState::begin(emails);
                self.review = review;
                let command = Self::command_for(action);
                (AppAction::Continue, command)
            },
            ResultsPageAction::Quit => (AppAction::Quit, AppCommand::Nothing),
        }
    }

    /// The command that asks for what the review asks.
    fn command_for(action: ReviewAction) -> (command: AppCommand)
        ensures
            review_command(action, command),
    {
        match action {
            ReviewAction::Load(email) => AppCommand::LoadReview(email),
            ReviewAction::Save => AppCommand::SaveReview,
            _ => AppCommand::Nothing,
        }
    }

    fn on_review_key(&mut self, key: KeyInput) -> (r: (AppAction, AppCommand))
        requires
            old(self)@.screen == Screen::Review,
        ensures
            review_step(old(self)@, key, final(self)@, r.0, r.1),
    {
        let mut review = ReviewState::idle();
        std::mem::swap(&mut review, &mut self.review);
        let (review, action) = review.on_key(key);
        self.review = review;
        let app_action = match action {
            ReviewAction::Quit => AppAction::Quit,
            _ => AppAction::Continue,
        };
        if let ReviewAction::ShowResults = action {
            self.screen = Screen::Results;
        }
        (app_action, Self::command_for(action))
    }

    fn on_settings_key(&mut self, key: KeyInput) -> (r: (AppAction, AppCommand))
        requires
            old(self)@.screen == Screen::Settings,
        ensures
            settings_step(old(self)@, key, final(self)@, r.0, r.1),
    {
        match self.settings_page.handle_key(key) {
            SettingsPageAction::Continue => (AppAction::Continue, AppCommand::Nothing),
            SettingsPageAction::Back => {
                self.screen = Screen::Home;
                (AppAction::Continue, AppCommand::Nothing)
            },
            SettingsPageAction::Quit => (AppAction::Quit, AppCommand::Nothing),
            SettingsPageAction::Save(input) => {
                let text = messages_for(input.language);
                match settings_from_input(input, &text) {
                    Ok(settings) => (AppAction::Continue, AppCommand::SaveSettings(settings)),
                    Err(message) => {
                        self.settings_page.mark_error(message);
                        (AppAction::Continue, AppCommand::Nothing)
                    },
                }
            },
        }
    }

    /// A tick of the clock while a search may run, with what the search
    /// reported since the last one, if anything. Without a running search
    /// nothing changes.
    pub fn tick(&mut self, event: Option<SearchEvent>)
        ensures
            !(old(self)@.search is Running) ==> final(self)@ == old(self)@,
            old(self)@.search is Running ==> search_tick(old(self)@, event, final(self)@),
    {
        if !self.is_searching() {
            return;
        }
        self.search_frame = self.search_frame.wrapping_add(1);
        match event {
            None => {},
            Some(SearchEvent::Finished(Ok(results))) => {
                self.results = results;
                self.results_page.reset(self.results.as_slice());
                self.search = SearchState::Idle;
                self.screen = Screen::Results;
            },
            Some(SearchEvent::Finished(Err(error))) => {
                let text = self.text();
                self.search = SearchState::Failed(text.gmail_search_error(&error));
            },
            Some(SearchEvent::Stopped) => {
                let text = self.text();
                self.search = SearchState::Failed(owned(text.gmail_search_stopped));
            },
        }
    }

    /// Takes what the work started for the review reported.
    pub fn on_review_event(&mut self, event: ReviewEvent) -> (command: AppCommand)
        ensures
            final(self)@ == (AppView { review: final(self)@.review, ..old(self)@ }),
            exists|ra: ReviewAction| #[trigger] review_event(old(self)@.review, event, text_of(old(self)@), final(self)@.review, ra)
                && review_command(ra, command),
    {
        let text = self.text();
        let mut review = ReviewState::idle();
        std::mem::swap(&mut review, &mut self.review);
        let (review, action) = review.on_event(event, &text);
        self.review = review;
        Self::command_for(action)
    }

    /// The settings file was written with `settings`, or not: the settings
    /// are in use and the form shows them as saved, or the form shows why
    /// they were not saved.
    pub fn settings_saved(&mut self, settings: AppSettings, outcome: Result<(), String>)
        ensures
            outcome is Ok ==> final(self)@ == (AppView { settings, settings_page: final(self)@.settings_page, ..old(self)@ })
                && settings_page_of(SettingsPageView { status: None, ..final(self)@.settings_page }, settings)
                && final(self)@.settings_page.status == Some(SettingsStatusView::Saved)
                && final(self)@.settings_page.focused_field == SettingsField::DownloadDir,
            outcome matches Err(m) ==> final(self)@ == (AppView {
                settings_page: SettingsPageView { status: Some(SettingsStatusView::Error(m@)), ..old(self)@.settings_page },
                ..old(self)@
            }),
    {
        match outcome {
            Ok(()) => {
                self.settings_page.reset(&settings);
                self.settings_page.mark_saved();
                self.settings = settings;
            },
            Err(message) => self.settings_page.mark_error(message),
        }
    }
}

} // verus!

//! The list of candidate emails: which one is highlighted, which ones are
//! selected for review, and the text shown for them.
use vstd::prelude::*;

use crate::gmail_search::{contains_id, AttachmentSummary, CandidateEmail, CandidateEmailView, candidates_view};
use crate::i18n::Messages;
use crate::keys::{KeyCode, KeyInput};
use crate::text::{
    blank, chars_of, is_blank, lines, lines_spec, owned, slice_chars, string_from_chars,
    strings_view,
};

verus! {

/// What the results page asks of the application after a key.
#[derive(Clone, Copy, Debug, PartialEq, Eq, Structural)]
pub enum ResultsPageAction {
    Continue,
    Back,
    Quit,
    ReviewSelected,
}

/// The results page: the highlighted email, the first row shown, how far the
/// details are scrolled, and the ids of the emails selected for review.
pub struct ResultsPage {
    selected: usize,
    scroll_offset: usize,
    details_scroll: u16,
    selected_email_ids: Vec<String>,
}

/// The content of the results page.
pub struct ResultsPageView {
    pub selected: nat,
    pub scroll_offset: nat,
    pub details_scroll: u16,
    pub selected_ids: Set<Seq<char>>,
}

impl View for ResultsPage {
    type V = ResultsPageView;

    closed spec fn view(&self) -> ResultsPageView {
        ResultsPageView {
            selected: self.selected as nat,
            scroll_offset: self.scroll_offset as nat,
            details_scroll: self.details_scroll,
            selected_ids: strings_view(self.selected_email_ids@).to_set(),
        }
    }
}

/// The ids of a list of emails.
pub open spec fn email_ids(emails: Seq<CandidateEmailView>) -> Seq<Seq<char>> {
    emails.map_values(|e: CandidateEmailView| e.id)
}

/// The emails of `emails` whose id is in `ids`, in order.
pub open spec fn keep_selected(emails: Seq<CandidateEmailView>, ids: Set<Seq<char>>) -> Seq<CandidateEmailView>
    decreases emails.len(),
{
    if emails.len() == 0 {
        Seq::empty()
    } else if ids.contains(emails.last().id) {
        keep_selected(emails.drop_last(), ids).push(emails.last())
    } else {
        keep_selected(emails.drop_last(), ids)
    }
}

/// With nothing selected, no email is kept.
pub proof fn lemma_keep_none(emails: Seq<CandidateEmailView>)
    ensures
        keep_selected(emails, Set::<Seq<char>>::empty()).len() == 0,
    decreases emails.len(),
{
    if emails.len() > 0 {
        lemma_keep_none(emails.drop_last());
    }
}

/// The page after a key: Space selects or unselects the highlighted email;
/// Up/`k` and Down/`j` move the highlight; Page Up and Page Down scroll the
/// details by five rows; any other key leaves it as it is.
pub open spec fn results_key(v: ResultsPageView, code: KeyCode, emails: Seq<CandidateEmailView>) -> ResultsPageView {
    if code == KeyCode::Char(' ') {
        if v.selected < emails.len() {
            ResultsPageView { selected_ids: toggled(v.selected_ids, emails[v.selected as int].id), ..v }
        } else {
            v
        }
    } else if code == KeyCode::Up || code == KeyCode::Char('k') {
        if emails.len() == 0 { v } else { moved_up(v) }
    } else if code == KeyCode::Down || code == KeyCode::Char('j') {
        if emails.len() == 0 { v } else { moved_down(v, emails.len()) }
    } else if code == KeyCode::PageUp {
        ResultsPageView { details_scroll: if v.details_scroll >= 5 { (v.details_scroll - 5) as u16 } else { 0 }, ..v }
    } else if code == KeyCode::PageDown {
        ResultsPageView {
            details_scroll: if v.details_scroll + 5 <= u16::MAX { (v.details_scroll + 5) as u16 } else { u16::MAX },
            ..v
        }
    } else {
        v
    }
}

impl ResultsPage {
    #[verifier::type_invariant]
    closed spec fn well_formed(self) -> bool {
        &&& self.selected < usize::MAX
        &&& self.scroll_offset < usize::MAX
        &&& strings_view(self.selected_email_ids@).no_duplicates()
    }

    /// An empty page: the first row highlighted, nothing selected.
    pub fn new() -> (page: ResultsPage)
        ensures
            page@.selected == 0,
            page@.scroll_offset == 0,
            page@.details_scroll == 0,
            page@.selected_ids == Set::<Seq<char>>::empty(),
    {
        let page = ResultsPage { selected: 0, scroll_offset: 0, details_scroll: 0, selected_email_ids: Vec::new() };
        proof {
            assert(strings_view(page.selected_email_ids@).to_set() =~= Set::<Seq<char>>::empty());
        }
        page
    }

    /// Shows a new list of emails: the first one highlighted, all of them
    /// selected.
    pub fn reset(&mut self, emails: &[CandidateEmail])
        ensures
            final(self)@.selected == 0,
            final(self)@.scroll_offset == 0,
            final(self)@.details_scroll == 0,
            final(self)@.selected_ids == email_ids(candidates_view(emails@)).to_set(),
    {
        let mut ids: Vec<String> = Vec::new();
        let mut i: usize = 0;
        while i < emails.len()
            invariant
                i <= emails.len(),
                strings_view(ids@).to_set() == email_ids(candidates_view(emails@.take(i as int))).to_set(),
                strings_view(ids@).no_duplicates(),
            decreases emails.len() - i,
        {
            let ghost before = strings_view(ids@);
            let ghost prefix = email_ids(candidates_view(emails@.take(i as int)));
            proof {
                assert(email_ids(candidates_view(emails@.take(i + 1))) =~= prefix.push(emails@[i as int].id@));
                prefix.lemma_push_to_set_commute(emails@[i as int].id@);
            }
            if !contains_id(&ids, &emails[i].id) {
                ids.push(emails[i].id.clone());
                proof {
                    assert(strings_view(ids@) =~= before.push(emails@[i as int].id@));
                    before.lemma_push_to_set_commute(emails@[i as int].id@);
                    assert forall|a: int, b: int| 0 <= a < b < strings_view(ids@).len() implies strings_view(ids@)[a] != strings_view(ids@)[b] by {
                        if b == before.len() {
                            assert(before.contains(before[a]));
                        }
                    }
                }
            } else {
                proof {
                    assert(before.to_set().contains(emails@[i as int].id@));
                    assert(before.to_set().insert(emails@[i as int].id@) =~= before.to_set());
                }
            }
            i = i + 1;
        }
        proof {
            assert(emails@.take(i as int) =~= emails@);
        }
        proof {
            use_type_invariant(&*self);
        }
        self.selected = 0;
        self.scroll_offset = 0;
        self.details_scroll = 0;
        self.selected_email_ids = ids;
    }

    /// Highlights the email above, if any, scrolling up to it; the details
    /// go back to the top.
    pub fn move_selection_up(&mut self, email_count: usize)
        ensures
            email_count == 0 ==> final(self)@ == old(self)@,
            email_count > 0 ==> final(self)@ == moved_up(old(self)@),
    {
        proof {
            use_type_invariant(&*self);
        }
        if email_count == 0 {
            return;
        }
        let selected = self.selected.saturating_sub(1);
        let scroll_offset = if selected < self.scroll_offset { selected } else { self.scroll_offset };
        self.scroll_offset = scroll_offset;
        self.selected = selected;
        self.details_scroll = 0;
    }

    /// Highlights the email below, if any, keeping it in view; the details go
    /// back to the top.
    pub fn move_selection_down(&mut self, email_count: usize)
        ensures
            email_count == 0 ==> final(self)@ == old(self)@,
            email_count > 0 ==> final(self)@ == moved_down(old(self)@, email_count as nat),
            email_count > 0 ==> final(self)@.selected < email_count,
    {
        proof {
            use_type_invariant(&*self);
        }
        if email_count == 0 {
            return;
        }
        let next = self.selected + 1;
        let selected = if next < email_count - 1 { next } else { email_count - 1 };
        let scroll_offset = if selected >= self.scroll_offset + 1 { selected - 1 } else { self.scroll_offset };
        self.scroll_offset = scroll_offset;
        self.selected = selected;
        self.details_scroll = 0;
    }

    /// Selects the highlighted email, or unselects it when it is selected.
    pub fn toggle_selected_email(&mut self, emails: &[CandidateEmail])
        ensures
            old(self)@.selected >= emails@.len() ==> final(self)@ == old(self)@,
            old(self)@.selected < emails@.len() ==> final(self)@ == (ResultsPageView {
                selected_ids: toggled(old(self)@.selected_ids, emails@[old(self)@.selected as int].id@),
                ..old(self)@
            }),
    {
        proof {
            use_type_invariant(&*self);
        }
        if self.selected >= emails.len() {
            return;
        }
        let id = &emails[self.selected].id;
        let ghost before = strings_view(self.selected_email_ids@);
        let mut kept: Vec<String> = Vec::new();
        let mut found = false;
        let mut i: usize = 0;
        while i < self.selected_email_ids.len()
            invariant
                i <= self.selected_email_ids.len(),
                before == strings_view(self.selected_email_ids@),
                found == before.take(i as int).contains(id@),
                strings_view(kept@).to_set() == before.take(i as int).to_set().remove(id@),
                strings_view(kept@).no_duplicates(),
                before.no_duplicates(),
            decreases self.selected_email_ids.len() - i,
        {
            let ghost prefix = before.take(i + 1);
            proof {
                assert(prefix =~= before.take(i as int).push(before[i as int]));
                assert(before[i as int] == self.selected_email_ids@[i as int]@);
            }
            proof {
                before.take(i as int).lemma_push_to_set_commute(before[i as int]);
                assert(prefix[i as int] == before[i as int]);
                assert(prefix.contains(id@) == (before.take(i as int).contains(id@) || before[i as int] == id@)) by {
                    if prefix.contains(id@) {
                        let k = choose|k: int| 0 <= k < prefix.len() && #[trigger] prefix[k] == id@;
                        if k < i {
                            assert(before.take(i as int)[k] == id@);
                        }
                    }
                    if before.take(i as int).contains(id@) {
                        let k = choose|k: int| 0 <= k < i && #[trigger] before.take(i as int)[k] == id@;
                        assert(prefix[k] == id@);
                    }
                }
            }
            if self.selected_email_ids[i] == *id {
                found = true;
                proof {
                    assert(prefix.to_set().remove(id@) =~= before.take(i as int).to_set().remove(id@));
                }
            } else {
                let ghost kept_before = strings_view(kept@);
                kept.push(self.selected_email_ids[i].clone());
                proof {
                    assert(strings_view(kept@) =~= kept_before.push(before[i as int]));
                    kept_before.lemma_push_to_set_commute(before[i as int]);
                    assert(strings_view(kept@).to_set() =~= prefix.to_set().remove(id@));
                    assert(!before.take(i as int).contains(before[i as int])) by {
                        if before.take(i as int).contains(before[i as int]) {
                            let k = choose|k: int| 0 <= k < i && #[trigger] before.take(i as int)[k] == before[i as int];
                            assert(before[k] == before[i as int]);
                        }
                    }
                    assert(!kept_before.contains(before[i as int])) by {
                        if kept_before.contains(before[i as int]) {
                            assert(kept_before.to_set().contains(before[i as int]));
                        }
                    }
                    assert forall|a: int, b: int| 0 <= a < b < strings_view(kept@).len() implies strings_view(kept@)[a] != strings_view(kept@)[b] by {
                        if b == kept_before.len() {
                            assert(kept_before.contains(kept_before[a]));
                        }
                    }
                }
            }
            i = i + 1;
        }
        proof {
            assert(before.take(i as int) =~= before);
        }
        if !found {
            let ghost kept_before = strings_view(kept@);
            kept.push(id.clone());
            proof {
                assert(strings_view(kept@) =~= kept_before.push(id@));
                kept_before.lemma_push_to_set_commute(id@);
                assert(!kept_before.contains(id@)) by {
                    if kept_before.contains(id@) {
                        assert(kept_before.to_set().contains(id@));
                    }
                }
                assert forall|a: int, b: int| 0 <= a < b < strings_view(kept@).len() implies strings_view(kept@)[a] != strings_view(kept@)[b] by {
                    if b == kept_before.len() {
                        assert(kept_before.contains(kept_before[a]));
                    }
                }
                assert(!before.to_set().contains(id@));
                assert(strings_view(kept@).to_set() =~= before.to_set().insert(id@));
            }
        } else {
            proof {
                assert(before.to_set().contains(id@));
            }
        }
        self.selected_email_ids = kept;
    }

    /// Scrolls the details up by five rows.
    pub fn scroll_details_up(&mut self)
        ensures
            final(self)@ == (ResultsPageView {
                details_scroll: if old(self)@.details_scroll >= 5 { (old(self)@.details_scroll - 5) as u16 } else { 0 },
                ..old(self)@
            }),
    {
        proof {
            use_type_invariant(&*self);
        }
        self.details_scroll = self.details_scroll.saturating_sub(5);
    }

    /// Scrolls the details down by five rows.
    pub fn scroll_details_down(&mut self)
        ensures
            final(self)@ == (ResultsPageView {
                details_scroll: if old(self)@.details_scroll + 5 <= u16::MAX { (old(self)@.details_scroll + 5) as u16 } else { u16::MAX },
                ..old(self)@
            }),
    {
        proof {
            use_type_invariant(&*self);
        }
        self.details_scroll = self.details_scroll.saturating_add(5);
    }

    /// The highlighted row.
    pub fn selected(&self) -> (i: usize)
        ensures
            i == self@.selected,
    {
        self.selected
    }

    /// The first row in view.
    pub fn scroll_offset(&self) -> (i: usize)
        ensures
            i == self@.scroll_offset,
    {
        self.scroll_offset
    }

    /// How far the details are scrolled.
    pub fn details_scroll(&self) -> (rows: u16)
        ensures
            rows == self@.details_scroll,
    {
        self.details_scroll
    }

    /// How many emails are selected.
    pub fn selected_count(&self) -> (n: usize)
        ensures
            n == self@.selected_ids.len(),
    {
        proof {
            use_type_invariant(self);
            strings_view(self.selected_email_ids@).unique_seq_to_set();
        }
        self.selected_email_ids.len()
    }

    /// The rows of a list of `count` emails that a panel of `visible_rows`
    /// rows shows: from the first row in view, as many as fit, within the
    /// list.
    pub fn visible_range(&self, visible_rows: usize, count: usize) -> (r: (usize, usize))
        ensures
            r.0 == (if self@.scroll_offset <= count { self@.scroll_offset } else { count as nat }),
            r.1 == (if self@.scroll_offset + visible_rows <= count { self@.scroll_offset + visible_rows } else { count as int }),
            r.0 <= r.1 <= count,
    {
        let start = if self.scroll_offset <= count { self.scroll_offset } else { count };
        let end = if visible_rows <= count && self.scroll_offset <= count - visible_rows {
            self.scroll_offset + visible_rows
        } else {
            count
        };
        (start, end)
    }

    /// How far the details of `email` are scrolled in a panel of `width` by
    /// `height`: no further than they can scroll.
    pub fn shown_details_scroll(&self, email: &CandidateEmail, text: &Messages, width: u16, height: u16) -> (rows: u16)
        ensures
            rows == (if self@.details_scroll <= max_scroll_spec(*email, *text, width, height) {
                self@.details_scroll
            } else {
                max_scroll_spec(*email, *text, width, height)
            }),
    {
        let max = max_details_scroll(email, text, width, height);
        if self.details_scroll <= max {
            self.details_scroll
        } else {
            max
        }
    }

    /// Whether `email` is selected for review.
    pub fn is_email_selected(&self, email: &CandidateEmail) -> (b: bool)
        ensures
            b == self@.selected_ids.contains(email.id@),
    {
        let mut i: usize = 0;
        while i < self.selected_email_ids.len()
            invariant
                i <= self.selected_email_ids.len(),
                forall|k: int| 0 <= k < i ==> self.selected_email_ids@[k]@ != email.id@,
            decreases self.selected_email_ids.len() - i,
        {
            if self.selected_email_ids[i] == email.id {
                proof {
                    assert(strings_view(self.selected_email_ids@)[i as int] == email.id@);
                }
                return true;
            }
            i = i + 1;
        }
        proof {
            let all = strings_view(self.selected_email_ids@);
            if all.contains(email.id@) {
                let k = choose|k: int| 0 <= k < all.len() && #[trigger] all[k] == email.id@;
                assert(self.selected_email_ids@[k]@ == email.id@);
            }
        }
        false
    }

    /// Whether any email is selected.
    pub fn has_selection(&self) -> (b: bool)
        ensures
            b == (self@.selected_ids != Set::<Seq<char>>::empty()),
    {
        proof {
            let all = strings_view(self.selected_email_ids@);
            if all.len() > 0 {
                assert(all.to_set().contains(all[0]));
            } else {
                assert(all.to_set() =~= Set::<Seq<char>>::empty());
            }
        }
        self.selected_email_ids.len() > 0
    }

    /// The selected emails, in list order.
    pub fn selected_emails(&self, emails: &[CandidateEmail]) -> (r: Vec<CandidateEmail>)
        ensures
            candidates_view(r@) == keep_selected(candidates_view(emails@), self@.selected_ids),
    {
        let mut r: Vec<CandidateEmail> = Vec::new();
        let ghost all = candidates_view(emails@);
        let mut i: usize = 0;
        proof {
            assert(candidates_view(r@) =~= Seq::<CandidateEmailView>::empty());
        }
        while i < emails.len()
            invariant
                i <= emails.len(),
                all == candidates_view(emails@),
                candidates_view(r@) == keep_selected(all.take(i as int), self@.selected_ids),
            decreases emails.len() - i,
        {
            let ghost prefix = all.take(i + 1);
            proof {
                assert(prefix.drop_last() =~= all.take(i as int));
                assert(prefix.last() == emails@[i as int]@);
            }
            if self.is_email_selected(&emails[i]) {
                let ghost before = candidates_view(r@);
                r.push(emails[i].duplicate());
                proof {
                    assert(candidates_view(r@) =~= before.push(emails@[i as int]@));
                }
            }
            i = i + 1;
        }
        proof {
            assert(all.take(i as int) =~= all);
        }
        r
    }

    /// Reacts to a key: `q` quits, `b` and Esc go back, Enter reviews the
    /// selected emails when there are any, Space selects or unselects the
    /// highlighted one, Up/`k` and Down/`j` move, PageUp and PageDown scroll
    /// the details.
    pub fn handle_key(&mut self, key: KeyInput, emails: &[CandidateEmail]) -> (action: ResultsPageAction)
        ensures
            key.code == KeyCode::Char('q') ==> action == ResultsPageAction::Quit && final(self)@ == old(self)@,
            key.code == KeyCode::Char('b') || key.code == KeyCode::Esc ==> action == ResultsPageAction::Back
                && final(self)@ == old(self)@,
            key.code == KeyCode::Enter ==> final(self)@ == old(self)@ && (action == ResultsPageAction::ReviewSelected
                <==> old(self)@.selected_ids != Set::<Seq<char>>::empty()) && (action == ResultsPageAction::ReviewSelected
                || action == ResultsPageAction::Continue),
            key.code != KeyCode::Char('q') && key.code != KeyCode::Char('b') && key.code != KeyCode::Esc
                && key.code != KeyCode::Enter ==> action == ResultsPageAction::Continue,
            final(self)@ == results_key(old(self)@, key.code, candidates_view(emails@)),
    {
        match key.code {
            KeyCode::Char('q') => ResultsPageAction::Quit,
            KeyCode::Char('b') | KeyCode::Esc => ResultsPageAction::Back,
            KeyCode::Enter => {
                if self.has_selection() {
                    ResultsPageAction::ReviewSelected
                } else {
                    ResultsPageAction::Continue
                }
            },
            KeyCode::Char(' ') => {
                self.toggle_selected_email(emails);
                ResultsPageAction::Continue
            },
            KeyCode::Up | KeyCode::Char('k') => {
                self.move_selection_up(emails.len());
                ResultsPageAction::Continue
            },
            KeyCode::Down | KeyCode::Char('j') => {
                self.move_selection_down(emails.len());
                ResultsPageAction::Continue
            },
            KeyCode::PageUp => {
                self.scroll_details_up();
                ResultsPageAction::Continue
            },
            KeyCode::PageDown => {
                self.scroll_details_down();
                ResultsPageAction::Continue
            },
            _ => ResultsPageAction::Continue,
        }
    }
}

impl Default for ResultsPage {
    fn default() -> (page: ResultsPage)
        ensures
            page@.selected == 0,
            page@.scroll_offset == 0,
            page@.details_scroll == 0,
            page@.selected_ids == Set::<Seq<char>>::empty(),
    {
        ResultsPage::new()
    }
}

/// The page after moving the highlight up: one row up unless at the top,
/// the first row shown moved up to it when needed, the details at the top.
pub open spec fn moved_up(v: ResultsPageView) -> ResultsPageView {
    let selected: nat = if v.selected > 0 { (v.selected - 1) as nat } else { 0 };
    ResultsPageView {
        selected,
        scroll_offset: if selected < v.scroll_offset { selected } else { v.scroll_offset },
        details_scroll: 0,
        ..v
    }
}

/// The page after moving the highlight down in a list of `count` emails: one
/// row down unless at the bottom, the first row shown just above it when it
/// went past, the details at the top.
pub open spec fn moved_down(v: ResultsPageView, count: nat) -> ResultsPageView {
    let selected: nat = if v.selected + 1 < count - 1 { v.selected + 1 } else { (count - 1) as nat };
    ResultsPageView {
        selected,
        scroll_offset: if selected >= v.scroll_offset + 1 { (selected - 1) as nat } else { v.scroll_offset },
        details_scroll: 0,
        ..v
    }
}

/// `ids` with `id` added when it is missing and removed when it is there.
pub open spec fn toggled(ids: Set<Seq<char>>, id: Seq<char>) -> Set<Seq<char>> {
    if ids.contains(id) {
        ids.remove(id)
    } else {
        ids.insert(id)
    }
}

/// Selecting and unselecting the same email gives back the same selection.
pub proof fn law_toggle_involution(ids: Set<Seq<char>>, id: Seq<char>)
    ensures
        toggled(toggled(ids, id), id) == ids,
        toggled(ids, id).contains(id) != ids.contains(id),
{
    if ids.contains(id) {
        assert(ids.remove(id).insert(id) =~= ids);
    } else {
        assert(ids.insert(id).remove(id) =~= ids);
    }
}

// ---------------------------------------------------------------------------
// The text of an email
// ---------------------------------------------------------------------------

/// The texts joined with `sep` between them.
pub open spec fn join_with(items: Seq<Seq<char>>, sep: Seq<char>) -> Seq<char>
    decreases items.len(),
{
    if items.len() == 0 {
        Seq::empty()
    } else if items.len() == 1 {
        items[0]
    } else {
        join_with(items.drop_last(), sep) + sep + items.last()
    }
}

/// The file names of the attachments, separated by `, `.
pub fn attachment_names(attachments: &[AttachmentSummary]) -> (names: String)
    ensures
        names@ == join_with(attachments@.map_values(|a: AttachmentSummary| a.filename@), ", "@),
{
    let ghost all = attachments@.map_values(|a: AttachmentSummary| a.filename@);
    let mut names = String::new();
    let mut i: usize = 0;
    proof {
        assert(all.take(0) =~= Seq::<Seq<char>>::empty());
    }
    while i < attachments.len()
        invariant
            i <= attachments.len(),
            all == attachments@.map_values(|a: AttachmentSummary| a.filename@),
            names@ == join_with(all.take(i as int), ", "@),
        decreases attachments.len() - i,
    {
        let ghost prefix = all.take(i + 1);
        proof {
            assert(prefix.drop_last() =~= all.take(i as int));
            assert(prefix.last() == attachments@[i as int].filename@);
        }
        if i > 0 {
            names.append(", ");
        } else {
            proof {
                assert(names@ =~= Seq::<char>::empty());
                assert(prefix.len() == 1);
            }
        }
        names.append(attachments[i].filename.as_str());
        i = i + 1;
    }
    proof {
        assert(all.take(i as int) =~= all);
    }
    names
}

/// `value`, or `fallback` when `value` is blank.
pub open spec fn display_or_spec(value: Seq<char>, fallback: Seq<char>) -> Seq<char> {
    if is_blank(value) {
        fallback
    } else {
        value
    }
}

/// `value`, or `fallback` when `value` is blank.
pub fn display_or<'a>(value: &'a str, fallback: &'a str) -> (r: &'a str)
    ensures
        r@ == display_or_spec(value@, fallback@),
{
    if blank(value) {
        fallback
    } else {
        value
    }
}

/// The snippet of the email, or the text for a missing one.
pub fn email_message_text<'a>(email: &'a CandidateEmail, text: &'a Messages) -> (r: &'a str)
    ensures
        r@ == display_or_spec(email.snippet@, text.no_snippet@),
{
    display_or(email.snippet.as_str(), text.no_snippet)
}

/// `sender | subject`, each replaced by its placeholder when blank.
pub fn display_email(text: &Messages, email: &CandidateEmail) -> (r: String)
    ensures
        r@ == display_or_spec(email.from@, text.unknown_sender@) + " | "@ + display_or_spec(email.subject@, text.no_subject@),
{
    let mut r = owned(display_or(email.from.as_str(), text.unknown_sender));
    r.append(" | ");
    r.append(display_or(email.subject.as_str(), text.no_subject));
    r
}

/// At most `max_chars` characters of `value`, followed by `...` when some
/// were left out.
pub open spec fn truncate_spec(value: Seq<char>, max_chars: nat) -> Seq<char> {
    if value.len() > max_chars {
        value.take(max_chars as int) + "..."@
    } else {
        value
    }
}

/// At most `max_chars` characters of `value`, and `...` when it was cut.
pub fn truncate(value: &str, max_chars: usize) -> (r: String)
    ensures
        r@ == truncate_spec(value@, max_chars as nat),
{
    let chars = chars_of(value);
    if chars.len() > max_chars {
        let kept = slice_chars(&chars, 0, max_chars);
        let mut r = string_from_chars(&kept);
        r.append("...");
        proof {
            assert(kept@ =~= value@.take(max_chars as int));
        }
        r
    } else {
        owned(value)
    }
}

/// How many rows a line of `n` characters takes in `width` columns (an empty
/// line takes one).
pub open spec fn rows_of(n: nat, width: nat) -> nat
    recommends
        width > 0,
{
    let m = if n == 0 { 1 } else { n };
    ((m + width - 1) / width as int) as nat
}

/// The rows the lines take, added up.
pub open spec fn rows_of_lines(lines: Seq<Seq<char>>, width: nat) -> nat
    decreases lines.len(),
{
    if lines.len() == 0 {
        0
    } else {
        rows_of_lines(lines.drop_last(), width) + rows_of(lines.last().len(), width)
    }
}

/// How many rows `value` takes when wrapped to `width` columns: the rows of
/// each of its lines, and one row for an empty text.
pub open spec fn wrapped_rows(value: Seq<char>, width: nat) -> nat {
    if value.len() == 0 {
        1
    } else {
        rows_of_lines(lines_spec(value), width)
    }
}

/// How many rows `value` takes in `width` columns (see `wrapped_rows`), or
/// `usize::MAX` when the count does not fit.
pub fn wrapped_line_count(value: &str, width: usize) -> (rows: usize)
    requires
        width > 0,
    ensures
        rows == (if wrapped_rows(value@, width as nat) <= usize::MAX { wrapped_rows(value@, width as nat) } else { usize::MAX as nat }),
{
    let chars = chars_of(value);
    if chars.len() == 0 {
        return 1;
    }
    let all = lines(&chars);
    let ghost texts = all@.map_values(|l: Vec<char>| l@);
    let mut total: usize = 0;
    let mut i: usize = 0;
    proof {
        assert(texts.take(0) =~= Seq::<Seq<char>>::empty());
    }
    while i < all.len()
        invariant
            i <= all.len(),
            width > 0,
            texts == all@.map_values(|l: Vec<char>| l@),
            texts == lines_spec(value@),
            total == (if rows_of_lines(texts.take(i as int), width as nat) <= usize::MAX {
                rows_of_lines(texts.take(i as int), width as nat)
            } else {
                usize::MAX as nat
            }),
        decreases all.len() - i,
    {
        let n = all[i].len();
        let m = if n == 0 { 1 } else { n };
        let q = m / width;
        proof {
            assert(texts.take(i + 1).drop_last() =~= texts.take(i as int));
            assert(texts.take(i + 1).last() == all@[i as int]@);
            assert(q + (if m % width == 0 { 0int } else { 1int }) == ((m + width - 1) / width as int)) by (nonlinear_arith)
                requires
                    m >= 1,
                    width >= 1,
                    q == m / width,
            {
            }
        }
        proof {
            assert(m % width != 0 ==> q < m) by (nonlinear_arith)
                requires
                    m >= 1,
                    width >= 1,
                    q == m / width,
            {
                if width == 1 {
                    assert(m % width == 0);
                } else {
                    assert(q * width <= m);
                    assert(q * 2 <= q * width);
                }
            }
        }
        let rows = if m % width == 0 { q } else { q + 1 };
        total = total.saturating_add(rows);
        i = i + 1;
    }
    proof {
        assert(texts.take(i as int) =~= texts);
    }
    total
}

/// The lines of the details panel of an email.
pub open spec fn detail_lines(email: CandidateEmail, text: Messages) -> Seq<Seq<char>> {
    seq![
        text.from_label@ + display_or_spec(email.from@, text.unknown_sender@),
        text.subject_label@ + display_or_spec(email.subject@, text.no_subject@),
        text.pdf_label@ + join_with(email.pdf_attachments@.map_values(|a: AttachmentSummary| a.filename@), ", "@),
        text.json_label@ + join_with(email.json_attachments@.map_values(|a: AttachmentSummary| a.filename@), ", "@),
        Seq::empty(),
        text.snippet_label@,
        display_or_spec(email.snippet@, text.no_snippet@),
        Seq::empty(),
        "Scroll: PgUp/PgDn"@,
    ]
}

/// The rows the texts take in `width` columns, added up.
pub open spec fn total_rows(texts: Seq<Seq<char>>, width: nat) -> nat
    decreases texts.len(),
{
    if texts.len() == 0 {
        0
    } else {
        total_rows(texts.drop_last(), width) + wrapped_rows(texts.last(), width)
    }
}

/// How far the details of an email can scroll in a panel of `width` by
/// `height`: the rows they take beyond the height, at most `u16::MAX`.
pub open spec fn max_scroll_spec(email: CandidateEmail, text: Messages, width: u16, height: u16) -> u16 {
    let w: nat = if width == 0 { 1 } else { width as nat };
    let rows = total_rows(detail_lines(email, text), w);
    let beyond: int = if rows > height { rows - height } else { 0 };
    if beyond > u16::MAX {
        u16::MAX
    } else {
        beyond as u16
    }
}

/// `a` followed by `b`.
fn concat(a: &str, b: &str) -> (r: String)
    ensures
        r@ == a@ + b@,
{
    let mut r = owned(a);
    r.append(b);
    r
}

/// How far the details of `email` can scroll in a panel of `width` by
/// `height` (see `max_scroll_spec`).
pub fn max_details_scroll(email: &CandidateEmail, text: &Messages, width: u16, height: u16) -> (r: u16)
    ensures
        r == max_scroll_spec(*email, *text, width, height),
{
    let w: usize = if width == 0 { 1 } else { width as usize };
    let pdf_names = attachment_names(email.pdf_attachments.as_slice());
    let json_names = attachment_names(email.json_attachments.as_slice());
    let mut rows: Vec<String> = Vec::new();
    rows.push(concat(text.from_label, display_or(email.from.as_str(), text.unknown_sender)));
    rows.push(concat(text.subject_label, display_or(email.subject.as_str(), text.no_subject)));
    rows.push(concat(text.pdf_label, pdf_names.as_str()));
    rows.push(concat(text.json_label, json_names.as_str()));
    rows.push(String::new());
    rows.push(owned(text.snippet_label));
    rows.push(owned(email_message_text(email, text)));
    rows.push(String::new());
    rows.push(owned("Scroll: PgUp/PgDn"));
    let ghost all = detail_lines(*email, *text);
    proof {
        assert(strings_view(rows@) =~= all);
    }
    let mut content_rows: usize = 0;
    let mut i: usize = 0;
    proof {
        assert(all.take(0) =~= Seq::<Seq<char>>::empty());
    }
    while i < rows.len()
        invariant
            i <= rows.len(),
            w > 0,
            w == (if width == 0 { 1 } else { width as nat }),
            strings_view(rows@) == all,
            content_rows == (if total_rows(all.take(i as int), w as nat) <= usize::MAX {
                total_rows(all.take(i as int), w as nat)
            } else {
                usize::MAX as nat
            }),
        decreases rows.len() - i,
    {
        proof {
            assert(all.take(i + 1).drop_last() =~= all.take(i as int));
            assert(all.take(i + 1).last() == rows@[i as int]@);
        }
        let count = wrapped_line_count(rows[i].as_str(), w);
        content_rows = content_rows.saturating_add(count);
        i = i + 1;
    }
    proof {
        assert(all.take(i as int) =~= all);
    }
    let visible = height as usize;
    let beyond = content_rows.saturating_sub(visible);
    if beyond > u16::MAX as usize {
        u16::MAX
    } else {
        beyond as u16
    }
}

/// A row of the list: the highlight marker, the check box, and the date,
/// sender and subject of the email, each cut to its column.
pub open spec fn list_row_spec(email: CandidateEmail, highlighted: bool, checked: bool, text: Messages) -> Seq<char> {
    (if highlighted { ">"@ } else { " "@ }) + " "@ + (if checked { "[x]"@ } else { "[ ]"@ }) + " "@
        + truncate_spec(display_or_spec(email.received_at@, text.unknown_date@), 22) + "  "@
        + truncate_spec(display_or_spec(email.from@, text.unknown_sender@), 28) + "  "@
        + truncate_spec(display_or_spec(email.subject@, text.no_subject@), 33)
}

/// A row of the list (see `list_row_spec`).
pub fn list_row(email: &CandidateEmail, highlighted: bool, checked: bool, text: &Messages) -> (r: String)
    ensures
        r@ == list_row_spec(*email, highlighted, checked, *text),
{
    let mut r = owned(if highlighted { ">" } else { " " });
    r.append(" ");
    r.append(if checked { "[x]" } else { "[ ]" });
    r.append(" ");
    let date = truncate(display_or(email.received_at.as_str(), text.unknown_date), 22);
    r.append(date.as_str());
    r.append("  ");
    let from = truncate(display_or(email.from.as_str(), text.unknown_sender), 28);
    r.append(from.as_str());
    r.append("  ");
    let subject = truncate(display_or(email.subject.as_str(), text.no_subject), 33);
    r.append(subject.as_str());
    r
}

} // verus!

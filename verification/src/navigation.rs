//! The browsing session: where the user is, how they got there, and what a
//! selection from the menu on screen does to both.

use crate::models::{GopherItem, GopherUrl, GopherUrlView, MenuItem, MenuItemView};
use crate::text::{chars_of, is_digit, parse_decimal, parse_number};
use vstd::prelude::*;
use vstd::string::StringExecFns;

verus! {

/// Why a selection changes nothing.
#[derive(Debug, Clone, Copy, PartialEq, Eq, Structural)]
pub enum NavigationError {
    /// The number is not the index of an item of the menu.
    InvalidSelection,
    /// The item is an `Info` line.
    NotSelectable,
    /// There is no earlier address to go back to.
    AtRoot,
}

impl NavigationError {
    /// The words in which to tell the user.
    pub open spec fn text(self) -> Seq<char> {
        match self {
            NavigationError::InvalidSelection => "Invalid selection!"@,
            NavigationError::NotSelectable => "Info items cannot be selected."@,
            NavigationError::AtRoot => "Already at root menu!"@,
        }
    }

    pub fn message(&self) -> (words: &'static str)
        ensures
            words@ == self.text(),
    {
        match self {
            NavigationError::InvalidSelection => "Invalid selection!",
            NavigationError::NotSelectable => "Info items cannot be selected.",
            NavigationError::AtRoot => "Already at root menu!",
        }
    }
}

/// What the caller has to do after a selection.
#[derive(Debug, PartialEq, Eq)]
pub enum Action {
    /// The session is at another address: fetch its menu.
    Navigated,
    /// Fetch what the item points to, and show or store it. The session stays
    /// where it is.
    FetchRequested(MenuItem),
    /// Ask the user for a query, then navigate to `search_target` of the item
    /// and the query. Until then the session stays where it is.
    SearchPromptRequested(MenuItem),
    /// Fetch the menu of the current address again.
    Reload,
    /// The input was neither a command nor a number: nothing to do.
    Ignored,
}

pub ghost enum ActionView {
    Navigated,
    FetchRequested(MenuItemView),
    SearchPromptRequested(MenuItemView),
    Reload,
    Ignored,
}

impl View for Action {
    type V = ActionView;

    open spec fn view(&self) -> ActionView {
        match self {
            Action::Navigated => ActionView::Navigated,
            Action::FetchRequested(item) => ActionView::FetchRequested(item@),
            Action::SearchPromptRequested(item) => ActionView::SearchPromptRequested(item@),
            Action::Reload => ActionView::Reload,
            Action::Ignored => ActionView::Ignored,
        }
    }
}

impl Clone for Action {
    fn clone(&self) -> (copy: Self)
        ensures
            copy@ == self@,
    {
        match self {
            Action::Navigated => Action::Navigated,
            Action::FetchRequested(item) => Action::FetchRequested(item.clone()),
            Action::SearchPromptRequested(item) => Action::SearchPromptRequested(item.clone()),
            Action::Reload => Action::Reload,
            Action::Ignored => Action::Ignored,
        }
    }
}

/// The state of a browsing session.
#[derive(Debug, PartialEq, Eq)]
pub struct Session {
    /// The address whose menu is on screen.
    pub current: GopherUrl,
    /// The addresses that led here, the most recent last.
    pub history: Vec<GopherUrl>,
}

pub ghost struct SessionView {
    pub current: GopherUrlView,
    pub history: Seq<GopherUrlView>,
}

impl View for Session {
    type V = SessionView;

    open spec fn view(&self) -> SessionView {
        SessionView {
            current: self.current@,
            history: self.history@.map_values(|url: GopherUrl| url@),
        }
    }
}

impl Clone for Session {
    fn clone(&self) -> (copy: Self)
        ensures
            copy@ == self@,
    {
        let mut history: Vec<GopherUrl> = Vec::new();
        let mut i: usize = 0;
        while i < self.history.len()
            invariant
                i <= self.history.len(),
                history@.map_values(|url: GopherUrl| url@) == self@.history.take(i as int),
            decreases self.history.len() - i,
        {
            history.push(self.history[i].clone());
            assert(history@.map_values(|url: GopherUrl| url@) == self@.history.take(i as int).push(
                self.history[i as int]@,
            ));
            i += 1;
        }
        assert(self@.history.take(i as int) == self@.history);
        Session { current: self.current.clone(), history }
    }
}

/// The views of the items of a menu.
pub open spec fn item_views(items: Seq<MenuItem>) -> Seq<MenuItemView> {
    items.map_values(|item: MenuItem| item@)
}

/// The selector that asks the search service at `selector` for `query`: the
/// two joined by a tab.
pub open spec fn search_selector(selector: Seq<char>, query: Seq<char>) -> Seq<char> {
    selector + seq!['\t'] + query
}

impl MenuItemView {
    /// Where a search for `query` through this item leads.
    pub open spec fn search_target(self, query: Seq<char>) -> GopherUrlView {
        GopherUrlView {
            host: self.host,
            port: self.port,
            selector: search_selector(self.selector, query),
        }
    }
}

/// The outcome of a step: the session after it, and what it reports.
pub type Step = (SessionView, Result<ActionView, NavigationError>);

impl SessionView {
    /// The session after it has moved on to `target`: the address it leaves
    /// is the last of the history.
    pub open spec fn enter(self, target: GopherUrlView) -> SessionView {
        SessionView { current: target, history: self.history.push(self.current) }
    }

    /// The session after it has gone back once: at the last address of the
    /// history, which no longer holds it. A session with no history stays as
    /// it is.
    pub open spec fn leave(self) -> SessionView {
        if self.history.len() > 0 {
            SessionView { current: self.history.last(), history: self.history.drop_last() }
        } else {
            self
        }
    }

    /// The step that "back" makes.
    pub open spec fn back(self) -> Step {
        if self.history.len() > 0 {
            (self.leave(), Ok(ActionView::Navigated))
        } else {
            (self, Err(NavigationError::AtRoot))
        }
    }

    /// The step that the choice of item `index` of `items` makes.
    pub open spec fn choose_item(self, items: Seq<MenuItemView>, index: nat) -> Step {
        if index >= items.len() {
            (self, Err(NavigationError::InvalidSelection))
        } else {
            let item = items[index as int];
            match item.item_type {
                GopherItem::Directory => (self.enter(item.target()), Ok(ActionView::Navigated)),
                GopherItem::Text | GopherItem::Image => (
                    self,
                    Ok(ActionView::FetchRequested(item)),
                ),
                GopherItem::Search => (self, Ok(ActionView::SearchPromptRequested(item))),
                GopherItem::Info => (self, Err(NavigationError::NotSelectable)),
            }
        }
    }

    /// The step that the input `selection` makes where it is no command: a
    /// number chooses an item, anything else is passed over.
    pub open spec fn select(self, items: Seq<MenuItemView>, selection: Seq<char>) -> Step {
        match parse_decimal(selection, usize::MAX as nat) {
            Some(index) => self.choose_item(items, index),
            None => (self, Ok(ActionView::Ignored)),
        }
    }

    /// The step that the input `selection` makes: `b` goes back, `r` asks for
    /// the menu again, and the rest is for `select`.
    pub open spec fn apply(self, items: Seq<MenuItemView>, selection: Seq<char>) -> Step {
        if selection == seq!['b'] {
            self.back()
        } else if selection == seq!['r'] {
            (self, Ok(ActionView::Reload))
        } else {
            self.select(items, selection)
        }
    }
}

/// Whether a step that left the session at `after` and reported `outcome` is
/// the step `expected`.
pub open spec fn is_step(
    after: SessionView,
    outcome: Result<Action, NavigationError>,
    expected: Step,
) -> bool {
    &&& after == expected.0
    &&& match outcome {
        Ok(action) => expected.1 == Ok::<ActionView, NavigationError>(action@),
        Err(error) => expected.1 == Err::<ActionView, NavigationError>(error),
    }
}

impl MenuItem {
    /// Where the item points.
    pub fn target(&self) -> (url: GopherUrl)
        ensures
            url@ == self@.target(),
    {
        GopherUrl { host: self.host.clone(), port: self.port, selector: self.selector.clone() }
    }

    /// Where a search for `query` through this item leads.
    pub fn search_target(&self, query: &str) -> (url: GopherUrl)
        ensures
            url@ == self@.search_target(query@),
    {
        GopherUrl {
            host: self.host.clone(),
            port: self.port,
            selector: join_query(&self.selector, query),
        }
    }
}

fn join_query(selector: &String, query: &str) -> (joined: String)
    ensures
        joined@ == search_selector(selector@, query@),
{
    let mut joined = selector.clone();
    joined.push('\t');
    joined.append(query);
    joined
}

/// The selector to send to the search service at `url` for `query`.
pub fn handle_search(url: &GopherUrl, query: &str) -> (selector: String)
    ensures
        selector@ == search_selector(url.selector@, query@),
{
    join_query(&url.selector, query)
}

impl Session {
    /// A session that starts at `start`, with no history.
    pub fn new(start: GopherUrl) -> (session: Session)
        ensures
            session@ == (SessionView { current: start@, history: Seq::empty() }),
    {
        let session = Session { current: start, history: Vec::new() };
        assert(session@.history == Seq::<GopherUrlView>::empty());
        session
    }

    /// Moves on to `target`; the address left behind becomes the last of the
    /// history.
    pub fn navigate(&mut self, target: GopherUrl)
        ensures
            final(self)@ == old(self)@.enter(target@),
    {
        let left = self.current.clone();
        self.history.push(left);
        self.current = target;
        assert(self@.history == old(self)@.history.push(old(self)@.current));
    }

    /// Moves on to the result of the search for `query` through `item`. This
    /// completes the selection that asked for the query.
    pub fn search(&mut self, item: &MenuItem, query: &str)
        ensures
            final(self)@ == old(self)@.enter(item@.search_target(query@)),
    {
        self.navigate(item.search_target(query));
    }

    /// Goes back to the address that led here, if there is one.
    pub fn back(&mut self) -> (outcome: Result<Action, NavigationError>)
        ensures
            is_step(final(self)@, outcome, old(self)@.back()),
    {
        match self.history.pop() {
            Some(previous) => {
                self.current = previous;
                assert(self@.history == old(self)@.history.drop_last());
                Ok(Action::Navigated)
            },
            None => {
                assert(self@.history == old(self)@.history);
                Err(NavigationError::AtRoot)
            },
        }
    }
}

/// Acts on input that is no command: a number selects an item of the menu on
/// screen, anything else is passed over.
pub fn handle_menu_selection(
    selection: &str,
    menu_items: &[MenuItem],
    session: &mut Session,
) -> (outcome: Result<Action, NavigationError>)
    ensures
        is_step(
            final(session)@,
            outcome,
            old(session)@.select(item_views(menu_items@), selection@),
        ),
{
    let digits = chars_of(selection);
    let index: usize = match parse_number(digits.as_slice(), usize::MAX as u64) {
        Some(index) => index as usize,
        None => {
            return Ok(Action::Ignored);
        },
    };
    if index >= menu_items.len() {
        return Err(NavigationError::InvalidSelection);
    }
    let selected = &menu_items[index];
    assert(item_views(menu_items@)[index as int] == selected@);
    match selected.item_type {
        GopherItem::Directory => {
            session.navigate(selected.target());
            Ok(Action::Navigated)
        },
        GopherItem::Text | GopherItem::Image => Ok(Action::FetchRequested(selected.clone())),
        GopherItem::Search => Ok(Action::SearchPromptRequested(selected.clone())),
        GopherItem::Info => Err(NavigationError::NotSelectable),
    }
}

/// Acts on one line of input from the user, already trimmed and in lower
/// case.
pub fn apply_selection(
    selection: &str,
    menu_items: &[MenuItem],
    session: &mut Session,
) -> (outcome: Result<Action, NavigationError>)
    ensures
        is_step(
            final(session)@,
            outcome,
            old(session)@.apply(item_views(menu_items@), selection@),
        ),
{
    let input = chars_of(selection);
    if input.len() == 1 && input[0] == 'b' {
        assert(selection@ == seq!['b']);
        session.back()
    } else if input.len() == 1 && input[0] == 'r' {
        assert(selection@ == seq!['r']);
        Ok(Action::Reload)
    } else {
        handle_menu_selection(selection, menu_items, session)
    }
}

impl SessionView {
    /// The session after it has moved on to each of `targets` in turn.
    pub open spec fn enter_all(self, targets: Seq<GopherUrlView>) -> SessionView
        decreases targets.len(),
    {
        if targets.len() == 0 {
            self
        } else {
            self.enter_all(targets.drop_last()).enter(targets.last())
        }
    }

    /// The session after `count` steps back.
    pub open spec fn back_times(self, count: nat) -> SessionView
        decreases count,
    {
        if count == 0 {
            self
        } else {
            self.back().0.back_times((count - 1) as nat)
        }
    }
}

/// Going back undoes moving on.
pub proof fn lemma_back_undoes_enter(session: SessionView, target: GopherUrlView)
    ensures
        session.enter(target).back() == (
            session,
            Ok::<ActionView, NavigationError>(ActionView::Navigated),
        ),
{
    assert(session.history.push(session.current).drop_last() == session.history);
}

/// After moving on any number of times and going back as many times, the
/// session is where it was: at the same address, with a history of the same
/// length, indeed the same history.
pub proof fn lemma_back_retraces(session: SessionView, targets: Seq<GopherUrlView>)
    ensures
        session.enter_all(targets).back_times(targets.len()) == session,
        session.enter_all(targets).back_times(targets.len()).current == session.current,
        session.enter_all(targets).back_times(targets.len()).history.len()
            == session.history.len(),
    decreases targets.len(),
{
    if targets.len() > 0 {
        lemma_back_undoes_enter(session.enter_all(targets.drop_last()), targets.last());
        lemma_back_retraces(session, targets.drop_last());
    }
}

/// The choice of a directory is a move onwards, to where the item points.
/// (A search is one by the contract of `Session::search`.)
pub proof fn lemma_directory_enters(session: SessionView, items: Seq<MenuItemView>, index: nat)
    requires
        index < items.len(),
        items[index as int].item_type == GopherItem::Directory,
    ensures
        session.choose_item(items, index) == (
            session.enter(items[index as int].target()),
            Ok::<ActionView, NavigationError>(ActionView::Navigated),
        ),
{
}

/// A number is no command: input that `select` reads as a number goes to
/// `select`.
pub proof fn lemma_number_is_no_command(
    session: SessionView,
    items: Seq<MenuItemView>,
    selection: Seq<char>,
)
    requires
        parse_decimal(selection, usize::MAX as nat) is Some,
    ensures
        session.apply(items, selection) == session.select(items, selection),
{
    if selection == seq!['b'] || selection == seq!['r'] {
        assert(!is_digit(selection[0]));
    }
}

/// The choice of an `Info` line is refused and leaves the session as it is,
/// whatever its history.
pub proof fn lemma_info_is_not_selectable(
    session: SessionView,
    items: Seq<MenuItemView>,
    selection: Seq<char>,
    index: nat,
)
    requires
        parse_decimal(selection, usize::MAX as nat) == Some(index),
        index < items.len(),
        items[index as int].item_type == GopherItem::Info,
    ensures
        session.apply(items, selection) == (
            session,
            Err::<ActionView, NavigationError>(NavigationError::NotSelectable),
        ),
{
    lemma_number_is_no_command(session, items, selection);
}

/// With no history, going back is refused and leaves the session as it is.
pub proof fn lemma_back_at_root(session: SessionView, items: Seq<MenuItemView>)
    requires
        session.history.len() == 0,
    ensures
        session.back() == (session, Err::<ActionView, NavigationError>(NavigationError::AtRoot)),
        session.apply(items, seq!['b']) == session.back(),
{
}

/// Only moving on and going back change the session: every step leaves it as
/// it was, or has moved on to an item's target, or has gone back once.
pub proof fn lemma_steps_are_moves(
    session: SessionView,
    items: Seq<MenuItemView>,
    selection: Seq<char>,
)
    ensures
        ({
            let after = session.apply(items, selection).0;
            ||| after == session
            ||| after == session.leave()
            ||| exists|index: int|
                0 <= index < items.len() && after == session.enter(
                    #[trigger] items[index].target(),
                )
        }),
{
}

} // verus!

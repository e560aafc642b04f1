//! The navigation state machine: which page is shown, which option is
//! selected, and how key events move both.

use vstd::prelude::*;
use crate::key::Event;
use crate::layout::{
    compute_page_count, lemma_page_bounds, lemma_page_count_is_ceiling, page_count, page_end,
    page_start,
};

verus! {

/// Navigation state as plain numbers: the size of the option list, the page
/// size, and the selected page and option.
pub struct Nav {
    /// Number of options in the list.
    pub count: int,
    /// Options shown per page.
    pub per_page: int,
    /// Index of the page on display.
    pub page: int,
    /// Index of the selected option, counted over the whole list.
    pub option: int,
}

impl Nav {
    /// Number of pages.
    pub open spec fn pages(self) -> int {
        page_count(self.count, self.per_page)
    }

    /// First option of the page on display.
    pub open spec fn first(self) -> int {
        page_start(self.page, self.per_page)
    }

    /// Last option of the page on display.
    pub open spec fn last(self) -> int {
        page_end(self.page, self.per_page, self.count)
    }

    /// A valid state: a non-empty list, a page size between one and the
    /// list's length, an existing page, and a selection on that page.
    pub open spec fn wf(self) -> bool {
        &&& self.count >= 1
        &&& 1 <= self.per_page <= self.count
        &&& 0 <= self.page < self.pages()
        &&& self.first() <= self.option <= self.last()
    }

    /// The state a session starts in: first page, first option.
    pub open spec fn initial(count: int, per_page: int) -> Nav {
        Nav { count, per_page, page: 0, option: 0 }
    }

    /// Shows `page` and selects its first option.
    pub open spec fn goto(self, page: int) -> Nav {
        Nav { page, option: page_start(page, self.per_page), ..self }
    }

    /// One option up; from the top of a page to the bottom of the page
    /// before; nothing on the first option of the list.
    pub open spec fn up(self) -> Nav {
        if self.option > self.first() {
            Nav { option: self.option - 1, ..self }
        } else if self.page > 0 {
            Nav {
                page: self.page - 1,
                option: page_end(self.page - 1, self.per_page, self.count),
                ..self
            }
        } else {
            self
        }
    }

    /// One option down; from the bottom of a page to the top of the next;
    /// nothing on the last option of the list.
    pub open spec fn down(self) -> Nav {
        if self.option < self.last() {
            Nav { option: self.option + 1, ..self }
        } else if self.page < self.pages() - 1 {
            self.goto(self.page + 1)
        } else {
            self
        }
    }

    /// The previous page, first option selected; nothing on the first page.
    pub open spec fn left(self) -> Nav {
        if self.page > 0 {
            self.goto(self.page - 1)
        } else {
            self
        }
    }

    /// The next page, first option selected; nothing on the last page.
    pub open spec fn right(self) -> Nav {
        if self.page < self.pages() - 1 {
            self.goto(self.page + 1)
        } else {
            self
        }
    }

    /// The state after one event. Confirming, leaving and unbound keys do
    /// not move the selection.
    pub open spec fn step(self, event: Event) -> Nav {
        match event {
            Event::Up => self.up(),
            Event::Down => self.down(),
            Event::Left => self.left(),
            Event::Right => self.right(),
            Event::Confirm => self,
            Event::Exit => self,
            Event::Other => self,
        }
    }

    /// The state after a whole sequence of events, taken in order.
    pub open spec fn run(self, events: Seq<Event>) -> Nav
        decreases events.len(),
    {
        if events.len() == 0 {
            self
        } else {
            self.run(events.drop_last()).step(events.last())
        }
    }
}

/// A session starts in a valid state: on the first option of the first
/// page, which runs from option zero over one full page.
pub proof fn lemma_initial_valid(count: int, per_page: int)
    requires
        count >= 1,
        1 <= per_page <= count,
    ensures
        Nav::initial(count, per_page).wf(),
        Nav::initial(count, per_page).first() == 0,
        Nav::initial(count, per_page).last() == per_page - 1,
        Nav::initial(count, per_page).last() < count,
{
    lemma_page_count_is_ceiling(count, per_page);
    lemma_page_bounds(count, per_page, 0);
    assert(page_start(0, per_page) == 0) by (nonlinear_arith);
}

/// Going to an existing page gives a valid state with that page's first
/// option selected.
pub proof fn lemma_goto_valid(nav: Nav, page: int)
    requires
        nav.count >= 1,
        1 <= nav.per_page <= nav.count,
        0 <= page < nav.pages(),
    ensures
        nav.goto(page).wf(),
        nav.goto(page).option == nav.goto(page).first(),
{
    lemma_page_bounds(nav.count, nav.per_page, page);
}

/// No event leads out of the valid states, and none changes the list or
/// the page size.
pub proof fn lemma_step_valid(nav: Nav, event: Event)
    requires
        nav.wf(),
    ensures
        nav.step(event).wf(),
        nav.step(event).count == nav.count,
        nav.step(event).per_page == nav.per_page,
{
    lemma_page_bounds(nav.count, nav.per_page, nav.page);
    if nav.page > 0 {
        lemma_page_bounds(nav.count, nav.per_page, nav.page - 1);
    }
    if nav.page < nav.pages() - 1 {
        lemma_page_bounds(nav.count, nav.per_page, nav.page + 1);
    }
}

/// In every state that a session can reach, by whatever keys, the selected
/// option lies on the page on display.
pub proof fn lemma_selection_stays_on_page(count: int, per_page: int, events: Seq<Event>)
    requires
        count >= 1,
        1 <= per_page <= count,
    ensures
        Nav::initial(count, per_page).run(events).wf(),
        Nav::initial(count, per_page).run(events).first() <= Nav::initial(count, per_page).run(
            events,
        ).option <= Nav::initial(count, per_page).run(events).last(),
        Nav::initial(count, per_page).run(events).count == count,
        Nav::initial(count, per_page).run(events).per_page == per_page,
    decreases events.len(),
{
    if events.len() == 0 {
        lemma_initial_valid(count, per_page);
    } else {
        lemma_selection_stays_on_page(count, per_page, events.drop_last());
        lemma_step_valid(Nav::initial(count, per_page).run(events.drop_last()), events.last());
    }
}

/// Up and then down leads back to where it began, from every state but the
/// first option of the list.
pub proof fn lemma_up_then_down(nav: Nav)
    requires
        nav.wf(),
        nav.option > 0,
    ensures
        nav.up().down() == nav,
{
    lemma_page_bounds(nav.count, nav.per_page, nav.page);
    if nav.page > 0 {
        lemma_page_bounds(nav.count, nav.per_page, nav.page - 1);
    } else {
        assert(nav.first() == 0) by (nonlinear_arith)
            requires
                nav.first() == nav.page * nav.per_page,
                nav.page == 0,
        ;
    }
}

/// Down and then up leads back to where it began, from every state but the
/// last option of the list.
pub proof fn lemma_down_then_up(nav: Nav)
    requires
        nav.wf(),
        nav.option < nav.count - 1,
    ensures
        nav.down().up() == nav,
{
    lemma_page_bounds(nav.count, nav.per_page, nav.page);
    if nav.page < nav.pages() - 1 {
        lemma_page_bounds(nav.count, nav.per_page, nav.page + 1);
    }
}

/// At the edges nothing moves: up on the first option of the first page,
/// down on the last option of the last page, left on the first page and
/// right on the last page all leave the state as it is.
pub proof fn lemma_edges_hold(nav: Nav)
    requires
        nav.wf(),
    ensures
        nav.page == 0 && nav.option == 0 ==> nav.up() == nav,
        nav.page == nav.pages() - 1 && nav.option == nav.last() ==> nav.down() == nav,
        nav.page == 0 ==> nav.left() == nav,
        nav.page == nav.pages() - 1 ==> nav.right() == nav,
{
    lemma_page_bounds(nav.count, nav.per_page, nav.page);
}

/// The navigation state of one menu, with the page bounds kept at hand.
#[derive(Clone, Copy, Debug)]
pub struct Pager {
    option_count: usize,
    options_per_page: usize,
    num_pages: usize,
    selected_page: usize,
    selected_option: usize,
    page_start: usize,
    page_end: usize,
}

impl View for Pager {
    type V = Nav;

    closed spec fn view(&self) -> Nav {
        Nav {
            count: self.option_count as int,
            per_page: self.options_per_page as int,
            page: self.selected_page as int,
            option: self.selected_option as int,
        }
    }
}

impl Pager {
    #[verifier::type_invariant]
    spec fn consistent(self) -> bool {
        &&& self@.wf()
        &&& self.num_pages == self@.pages()
        &&& self.page_start == self@.first()
        &&& self.page_end == self@.last()
    }

    /// A pager for `option_count` options at `options_per_page` a page, on
    /// its first page.
    pub fn new(option_count: usize, options_per_page: usize) -> (pager: Self)
        requires
            option_count >= 1,
            1 <= options_per_page <= option_count,
        ensures
            pager@ == Nav::initial(option_count as int, options_per_page as int),
            pager@.wf(),
            pager@.first() == 0,
            pager@.last() == options_per_page - 1,
    {
        let num_pages: usize = compute_page_count(option_count, options_per_page);
        proof {
            lemma_initial_valid(option_count as int, options_per_page as int);
            lemma_page_bounds(option_count as int, options_per_page as int, 0);
        }
        let page_end: usize = if option_count - 0 > options_per_page {
            options_per_page - 1
        } else {
            option_count - 1
        };
        Pager {
            option_count,
            options_per_page,
            num_pages,
            selected_page: 0,
            selected_option: 0,
            page_start: 0,
            page_end,
        }
    }

    /// Shows `page` and selects its first option.
    pub fn set_page(&mut self, page: usize)
        requires
            page < old(self)@.pages(),
        ensures
            final(self)@ == old(self)@.goto(page as int),
            final(self)@.wf(),
    {
        proof {
            use_type_invariant(&*self);
            lemma_page_bounds(self@.count, self@.per_page, page as int);
            lemma_goto_valid(self@, page as int);
        }
        let page_start: usize = page * self.options_per_page;
        let page_end: usize = if self.option_count - page_start > self.options_per_page {
            page_start + self.options_per_page - 1
        } else {
            self.option_count - 1
        };
        *self = Pager {
            option_count: self.option_count,
            options_per_page: self.options_per_page,
            num_pages: self.num_pages,
            selected_page: page,
            selected_option: page_start,
            page_start,
            page_end,
        };
    }

    /// Moves as `event` asks.
    pub fn apply(&mut self, event: Event)
        ensures
            final(self)@ == old(self)@.step(event),
            final(self)@.wf(),
    {
        proof {
            use_type_invariant(&*self);
            lemma_step_valid(self@, event);
            lemma_page_bounds(self@.count, self@.per_page, self@.page);
        }
        match event {
            Event::Up => {
                if self.selected_option > self.page_start {
                    *self = Pager { selected_option: self.selected_option - 1, ..*self };
                } else if self.selected_page > 0 {
                    self.set_page(self.selected_page - 1);
                    proof {
                        use_type_invariant(&*self);
                    }
                    *self = Pager { selected_option: self.page_end, ..*self };
                }
            },
            Event::Down => {
                if self.selected_option < self.page_end {
                    *self = Pager { selected_option: self.selected_option + 1, ..*self };
                } else if self.selected_page < self.num_pages - 1 {
                    self.set_page(self.selected_page + 1);
                }
            },
            Event::Left => {
                if self.selected_page > 0 {
                    self.set_page(self.selected_page - 1);
                }
            },
            Event::Right => {
                if self.selected_page < self.num_pages - 1 {
                    self.set_page(self.selected_page + 1);
                }
            },
            Event::Confirm => {},
            Event::Exit => {},
            Event::Other => {},
        }
    }

    /// Number of options in the list.
    pub fn option_count(&self) -> (n: usize)
        ensures
            n == self@.count,
            self@.wf(),
    {
        proof {
            use_type_invariant(self);
        }
        self.option_count
    }

    /// Options shown per page.
    pub fn options_per_page(&self) -> (n: usize)
        ensures
            n == self@.per_page,
            self@.wf(),
    {
        proof {
            use_type_invariant(self);
        }
        self.options_per_page
    }

    /// Number of pages.
    pub fn num_pages(&self) -> (n: usize)
        ensures
            n == self@.pages(),
            self@.wf(),
    {
        proof {
            use_type_invariant(self);
        }
        self.num_pages
    }

    /// Index of the page on display.
    pub fn selected_page(&self) -> (n: usize)
        ensures
            n == self@.page,
            self@.wf(),
    {
        proof {
            use_type_invariant(self);
        }
        self.selected_page
    }

    /// Index of the selected option.
    pub fn selected_option(&self) -> (n: usize)
        ensures
            n == self@.option,
            self@.wf(),
    {
        proof {
            use_type_invariant(self);
        }
        self.selected_option
    }

    /// First option of the page on display.
    pub fn page_start(&self) -> (n: usize)
        ensures
            n == self@.first(),
            self@.wf(),
    {
        proof {
            use_type_invariant(self);
        }
        self.page_start
    }

    /// Last option of the page on display.
    pub fn page_end(&self) -> (n: usize)
        ensures
            n == self@.last(),
            self@.wf(),
    {
        proof {
            use_type_invariant(self);
        }
        self.page_end
    }
}

} // verus!

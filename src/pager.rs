//! Page-windowed browsing and selection over an ordered list of items.
//!
//! The selector keeps the page position; the caller draws the rows of the
//! current page, reads a line, and hands it to `handle_input`.

use vstd::prelude::*;
use crate::text::{is_digit, parse_usize, parse_usize_text, same_text, trim, trimmed};

verus! {

/// Why a line of input was refused; the page is drawn again with the error.
#[derive(Clone, Copy, Debug, PartialEq, Eq, Structural)]
pub enum PageError {
    /// Blank input on the last page.
    LastPage,
    /// `p` on the first page.
    FirstPage,
    /// `q` while a row must be chosen.
    QuitNotAllowed,
    /// Not a row number of the current page, which spans `first..=last`.
    OutOfRange { first: usize, last: usize },
    /// Anything else while browsing.
    UnknownCommand,
}

/// What a line of input did.
#[derive(Clone, Copy, Debug, PartialEq, Eq, Structural)]
pub enum PageAction {
    NextPage,
    PreviousPage,
    /// Browsing ended with `q`.
    Quit,
    /// The 1-based row that was chosen.
    Selected(usize),
    Rejected(PageError),
}

/// The abstract state of a selector.
pub struct SelectorView {
    pub len: nat,
    pub page_size: nat,
    pub selectable: bool,
    pub page: nat,
}

/// `ceil(len / page_size)`.
pub open spec fn total_pages(len: nat, page_size: nat) -> nat
    recommends
        page_size > 0,
{
    if len % page_size == 0 {
        len / page_size
    } else {
        len / page_size + 1
    }
}

/// Index of the first item on the page.
pub open spec fn page_start(v: SelectorView) -> nat {
    v.page * v.page_size
}

/// One past the index of the last item on the page.
pub open spec fn page_end(v: SelectorView) -> nat {
    if page_start(v) + v.page_size <= v.len {
        page_start(v) + v.page_size
    } else {
        v.len
    }
}

/// A selector state that can occur: pages hold at least one item, and the
/// page is the first one or one that starts before the end of the list
/// (so it is below `max(1, total_pages)`).
pub open spec fn valid_selector(v: SelectorView) -> bool {
    &&& v.page_size > 0
    &&& (v.page == 0 || (page_start(v) < v.len && v.page < total_pages(v.len, v.page_size)))
}

pub open spec fn with_page(v: SelectorView, page: nat) -> SelectorView {
    SelectorView { len: v.len, page_size: v.page_size, selectable: v.selectable, page }
}

/// The next state and the action for the trimmed input `t`.
pub open spec fn input_outcome(v: SelectorView, t: Seq<char>) -> (SelectorView, PageAction) {
    if t.len() == 0 {
        if v.page + 1 < total_pages(v.len, v.page_size) {
            (with_page(v, v.page + 1), PageAction::NextPage)
        } else {
            (v, PageAction::Rejected(PageError::LastPage))
        }
    } else if t == seq!['p'] {
        if v.page > 0 {
            (with_page(v, (v.page - 1) as nat), PageAction::PreviousPage)
        } else {
            (v, PageAction::Rejected(PageError::FirstPage))
        }
    } else if t == seq!['q'] {
        if !v.selectable {
            (v, PageAction::Quit)
        } else {
            (v, PageAction::Rejected(PageError::QuitNotAllowed))
        }
    } else if v.selectable {
        let n = parse_usize(t);
        if n is Some && page_start(v) + 1 <= n->Some_0 <= page_end(v) {
            (v, PageAction::Selected(n->Some_0))
        } else {
            (
                v,
                PageAction::Rejected(
                    PageError::OutOfRange {
                        first: (page_start(v) + 1) as usize,
                        last: page_end(v) as usize,
                    },
                ),
            )
        }
    } else {
        (v, PageAction::Rejected(PageError::UnknownCommand))
    }
}

proof fn lemma_next_page_exists(page: nat, page_size: nat, len: nat)
    requires
        page_size > 0,
    ensures
        (page + 1 < total_pages(len, page_size)) <==> ((page + 1) * page_size < len),
{
    let q = len / page_size;
    let r = len % page_size;
    assert(len == q * page_size + r && 0 <= r < page_size) by (nonlinear_arith)
        requires
            page_size > 0,
            q == len / page_size,
            r == len % page_size,
    ;
    let x = page + 1;
    if x < q {
        assert(x * page_size < len) by (nonlinear_arith)
            requires
                x < q,
                page_size > 0,
                len == q * page_size + r,
                r >= 0,
        ;
    } else if x == q {
        assert(x * page_size == q * page_size);
    } else {
        assert(x * page_size >= len) by (nonlinear_arith)
            requires
                x > q,
                page_size > 0,
                len == q * page_size + r,
                r < page_size,
        ;
    }
}

/// Blank input on the last page is refused with `LastPage` and leaves the
/// page where it is.
pub proof fn lemma_next_on_last_page_stays(v: SelectorView)
    requires
        v.page + 1 >= total_pages(v.len, v.page_size),
    ensures
        input_outcome(v, Seq::empty()) == (v, PageAction::Rejected(PageError::LastPage)),
{
}

/// While choosing, a number is accepted exactly when it is a row of the
/// current page (from `page_start + 1` to `page_end`), and the page stays.
pub proof fn lemma_selection_within_page(v: SelectorView, t: Seq<char>, n: usize)
    requires
        v.selectable,
        parse_usize(t) == Some(n),
    ensures
        input_outcome(v, t).0 == v,
        (input_outcome(v, t).1 == PageAction::Selected(n)) <==> (page_start(v) + 1 <= n
            <= page_end(v)),
        !(page_start(v) + 1 <= n <= page_end(v)) ==> input_outcome(v, t).1 == PageAction::Rejected(
            PageError::OutOfRange {
                first: (page_start(v) + 1) as usize,
                last: page_end(v) as usize,
            },
        ),
{
    assert(is_digit(t[0]));
    assert(t != seq!['p']);
    assert(t != seq!['q']);
}

proof fn lemma_valid_page(page: nat, page_size: nat, len: nat)
    requires
        page_size > 0,
        page > 0,
        page * page_size < len,
    ensures
        page < total_pages(len, page_size),
{
    lemma_next_page_exists((page - 1) as nat, page_size, len);
    assert(((page - 1) as nat + 1) * page_size == page * page_size);
}

/// Pagination and selection state over a list of `len` items.
pub struct PaginatedSelector {
    len: usize,
    page_size: usize,
    selectable: bool,
    page: usize,
    start: usize,
}

impl View for PaginatedSelector {
    type V = SelectorView;

    closed spec fn view(&self) -> SelectorView {
        SelectorView {
            len: self.len as nat,
            page_size: self.page_size as nat,
            selectable: self.selectable,
            page: self.page as nat,
        }
    }
}

impl PaginatedSelector {
    /// The selector's internal invariant.
    pub closed spec fn wf(&self) -> bool {
        &&& self.page_size > 0
        &&& self.start == self.page * self.page_size
        &&& (self.page == 0 || self.start < self.len)
    }

    /// A selector on the first page of `len` items, `page_size` to a page.
    pub fn new(len: usize, page_size: usize, selectable: bool) -> (s: PaginatedSelector)
        requires
            page_size > 0,
        ensures
            s.wf(),
            valid_selector(s@),
            s@ == (SelectorView { len: len as nat, page_size: page_size as nat, selectable, page: 0 }),
    {
        let s = PaginatedSelector { len, page_size, selectable, page: 0, start: 0 };
        proof {
            s.lemma_wf_valid();
        }
        s
    }

    /// `ceil(len / page_size)`.
    pub fn total_pages(&self) -> (r: usize)
        requires
            self.wf(),
        ensures
            r == total_pages(self@.len, self@.page_size),
    {
        let extra: usize = if self.len % self.page_size == 0 {
            0
        } else {
            1
        };
        if extra == 1 {
            assert(self.len / self.page_size < self.len) by (nonlinear_arith)
                requires
                    self.page_size > 0,
                    self.len % self.page_size != 0,
            ;
        }
        self.len / self.page_size + extra
    }

    /// The 0-based index of the current page.
    pub fn current_page(&self) -> (r: usize)
        ensures
            r == self@.page,
    {
        self.page
    }

    /// Whether a row must be chosen (as opposed to browsing).
    pub fn is_selectable(&self) -> (r: bool)
        ensures
            r == self@.selectable,
    {
        self.selectable
    }

    /// The items of the current page are `items[start..end]`.
    pub fn page_bounds(&self) -> (r: (usize, usize))
        requires
            self.wf(),
        ensures
            r.0 == page_start(self@),
            r.1 == page_end(self@),
            r.0 <= r.1 <= self@.len,
    {
        let end = if self.len - self.start >= self.page_size {
            self.start + self.page_size
        } else {
            self.len
        };
        (self.start, end)
    }

    /// The 1-based number of the first row of the current page.
    pub fn first_row(&self) -> (r: usize)
        requires
            self.wf(),
        ensures
            r == page_start(self@) + 1,
    {
        self.start + 1
    }

    proof fn lemma_wf_valid(&self)
        requires
            self.wf(),
        ensures
            valid_selector(self@),
    {
        if self.page > 0 {
            lemma_valid_page(self.page as nat, self.page_size as nat, self.len as nat);
        }
    }

    /// Applies one line of input.
    pub fn handle_input(&mut self, line: &str) -> (r: PageAction)
        requires
            old(self).wf(),
        ensures
            final(self).wf(),
            valid_selector(final(self)@),
            (final(self)@, r) == input_outcome(old(self)@, trimmed(line@)),
    {
        let t = trim(line);
        proof {
            reveal_strlit("p");
            reveal_strlit("q");
            assert("p"@ =~= seq!['p']);
            assert("q"@ =~= seq!['q']);
            lemma_next_page_exists(self.page as nat, self.page_size as nat, self.len as nat);
        }
        let (start, end) = self.page_bounds();
        assert(self.start < self.len || self.start == 0);
        let r = if t.unicode_len() == 0 {
            if self.len - self.start > self.page_size {
                assert((self.page + 1) * self.page_size == self.start + self.page_size)
                    by (nonlinear_arith)
                    requires
                        self.start == self.page * self.page_size,
                ;
                self.page = self.page + 1;
                self.start = self.start + self.page_size;
                PageAction::NextPage
            } else {
                assert((self.page + 1) * self.page_size == self.start + self.page_size)
                    by (nonlinear_arith)
                    requires
                        self.start == self.page * self.page_size,
                ;
                PageAction::Rejected(PageError::LastPage)
            }
        } else if same_text(t, "p") {
            if self.page > 0 {
                assert((self.page - 1) * self.page_size == self.start - self.page_size)
                    by (nonlinear_arith)
                    requires
                        self.start == self.page * self.page_size,
                        self.page > 0,
                ;
                assert(self.page * self.page_size >= self.page_size) by (nonlinear_arith)
                    requires
                        self.page > 0,
                ;
                self.page = self.page - 1;
                self.start = self.start - self.page_size;
                PageAction::PreviousPage
            } else {
                PageAction::Rejected(PageError::FirstPage)
            }
        } else if same_text(t, "q") {
            if !self.selectable {
                PageAction::Quit
            } else {
                PageAction::Rejected(PageError::QuitNotAllowed)
            }
        } else if self.selectable {
            match parse_usize_text(t) {
                Some(n) => {
                    if start < n && n <= end {
                        PageAction::Selected(n)
                    } else {
                        PageAction::Rejected(PageError::OutOfRange { first: start + 1, last: end })
                    }
                },
                None => PageAction::Rejected(PageError::OutOfRange { first: start + 1, last: end }),
            }
        } else {
            PageAction::Rejected(PageError::UnknownCommand)
        };
        proof {
            self.lemma_wf_valid();
        }
        r
    }
}

} // verus!

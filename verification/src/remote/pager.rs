//! Reading a paged listing to its end.
//!
//! The panel answers a listing one page at a time and says with each page
//! which page it is and which is the last. The pager asks for page 1, 2, …
//! in turn, keeps what each page held, and stops with the first page that
//! is the last or lies beyond it.

use vstd::prelude::*;

verus! {

/// The mathematical content of a [`Pager`].
pub ghost struct PagerView<T> {
    /// The pages taken in so far, in the order in which they came.
    pub pages: Seq<Seq<T>>,
    /// The items collected.
    pub items: Seq<T>,
    /// Whether the listing has been read to its end.
    pub done: bool,
}

/// The state of one paged fetch.
pub struct Pager<T> {
    page: u64,
    items: Vec<T>,
    done: bool,
    pages: Ghost<Seq<Seq<T>>>,
}

impl<T> View for Pager<T> {
    type V = PagerView<T>;

    closed spec fn view(&self) -> PagerView<T> {
        PagerView { pages: self.pages@, items: self.items@, done: self.done }
    }
}

impl<T> Pager<T> {
    /// The number of the page that is asked for next.
    pub closed spec fn next(&self) -> nat {
        self.page as nat
    }

    /// The invariant of the type: the items are the pages laid end to end,
    /// and the next page to ask for follows those taken in.
    pub open spec fn wf(&self) -> bool {
        &&& self@.items == self@.pages.flatten()
        &&& (self@.done || self.next() == self@.pages.len() + 1)
    }

    /// A fetch that has not asked for anything yet.
    pub fn new() -> (r: Pager<T>)
        ensures
            r.wf(),
            r@.pages.len() == 0,
            r@.items.len() == 0,
            !r@.done,
            r.next() == 1,
    {
        let r = Pager { page: 1, items: Vec::new(), done: false, pages: Ghost(Seq::empty()) };
        assert(r@.pages.flatten() =~= Seq::<T>::empty());
        r
    }

    /// The page to ask for now; none once the listing has been read to its
    /// end.
    pub fn next_page(&self) -> (r: Option<u64>)
        ensures
            r == if self@.done {
                None
            } else {
                Some(self.next() as u64)
            },
    {
        if self.done {
            None
        } else {
            Some(self.page)
        }
    }

    /// Takes in the page that was asked for: its items, and what it says
    /// about its own number and the number of the last page.
    ///
    /// The fetch is complete once a page reports that it is the last one or
    /// lies beyond it. (Page numbers end at `u64::MAX`; a fetch that got
    /// there is complete as well.) On a complete fetch nothing is taken in.
    pub fn absorb(&mut self, data: Vec<T>, current_page: u64, last_page: u64)
        requires
            old(self).wf(),
        ensures
            final(self).wf(),
            old(self)@.done ==> final(self)@ == old(self)@ && final(self).next() == old(self).next(),
            !old(self)@.done ==> {
                &&& final(self)@.pages == old(self)@.pages.push(data@)
                &&& final(self)@.items == old(self)@.items + data@
                &&& final(self)@.done == (current_page >= last_page || old(self).next()
                    == u64::MAX)
                &&& final(self).next() == if final(self)@.done {
                    old(self).next()
                } else {
                    old(self).next() + 1
                }
            },
    {
        if self.done {
            return ;
        }
        let mut data = data;
        proof {
            self.pages@.lemma_flatten_push(data@);
            self.pages = Ghost(self.pages@.push(data@));
        }
        self.items.append(&mut data);
        if current_page >= last_page || self.page == u64::MAX {
            self.done = true;
        } else {
            self.page = self.page + 1;
        }
    }

    /// The items collected: every page that was taken in, in order.
    pub fn finish(self) -> (r: Vec<T>)
        requires
            self.wf(),
        ensures
            r@ == self@.pages.flatten(),
    {
        self.items
    }
}

/// One answer of the panel to a paged listing.
pub struct Page<T> {
    pub data: Vec<T>,
    /// The number of this page, as the panel reports it.
    pub current_page: u64,
    /// The number of the last page, as the panel reports it.
    pub last_page: u64,
}

/// What a fetch returns when the panel answers page 1 with `answers[0]`,
/// page 2 with `answers[1]` and so on: the items of every page up to and
/// with the first that reports to be the last, or the first failure that
/// comes before that page.
pub open spec fn fetched<T, E>(answers: Seq<Result<Page<T>, E>>) -> Result<Seq<T>, E>
    decreases answers.len(),
{
    if answers.len() == 0 {
        Ok(Seq::empty())
    } else {
        match answers[0] {
            Err(error) => Err(error),
            Ok(page) => if page.current_page >= page.last_page {
                Ok(page.data@)
            } else {
                after(page.data@, fetched(answers.drop_first()))
            },
        }
    }
}

/// The items `first`, followed by what the rest of a fetch returns.
pub open spec fn after<T, E>(first: Seq<T>, rest: Result<Seq<T>, E>) -> Result<Seq<T>, E> {
    match rest {
        Ok(items) => Ok(first + items),
        Err(error) => Err(error),
    }
}

/// The items of each answer; none for a failure.
pub open spec fn data_of<T, E>(answers: Seq<Result<Page<T>, E>>) -> Seq<Seq<T>> {
    Seq::new(
        answers.len(),
        |i: int|
            match answers[i] {
                Ok(page) => page.data@,
                Err(_) => Seq::empty(),
            },
    )
}

/// The answers are those of a panel that does not fail, numbers its pages
/// from `first` on and reports `last` as the last page with each of them.
pub open spec fn numbered<T, E>(answers: Seq<Result<Page<T>, E>>, first: nat, last: nat) -> bool {
    forall|i: int|
        0 <= i < answers.len() ==> {
            &&& (#[trigger] answers[i]) is Ok
            &&& answers[i]->Ok_0.current_page == first + i
            &&& answers[i]->Ok_0.last_page == last
        }
}

proof fn lemma_fetched_numbered<T, E>(answers: Seq<Result<Page<T>, E>>, first: nat, last: nat)
    requires
        numbered(answers, first, last),
        first <= last,
        answers.len() >= last - first + 1,
    ensures
        fetched(answers) == Ok::<Seq<T>, E>(data_of(answers.take(last - first + 1)).flatten()),
    decreases answers.len(),
{
    let wanted = data_of(answers.take(last - first + 1));
    assert(answers[0] is Ok);
    let page = answers[0]->Ok_0;
    assert(wanted.first() == page.data@);
    assert(page.current_page == first);
    if first == last {
        assert(wanted.drop_first() =~= Seq::<Seq<T>>::empty());
        assert(wanted.drop_first().flatten() =~= Seq::<T>::empty());
        assert(wanted.flatten() =~= page.data@);
    } else {
        let rest = answers.drop_first();
        assert forall|i: int| 0 <= i < rest.len() implies {
            &&& (#[trigger] rest[i]) is Ok
            &&& rest[i]->Ok_0.current_page == first + 1 + i
            &&& rest[i]->Ok_0.last_page == last
        } by {
            assert(rest[i] == answers[i + 1]);
        }
        lemma_fetched_numbered(rest, first + 1, last);
        assert(wanted.drop_first() =~= data_of(rest.take(last - first)));
    }
}

/// Completeness: against a panel that does not fail, numbers its pages from
/// 1 and reports the same last page `last` throughout, a fetch returns
/// exactly `data[1] ++ … ++ data[last]`.
pub proof fn lemma_pagination_complete<T, E>(answers: Seq<Result<Page<T>, E>>, last: nat)
    requires
        numbered(answers, 1, last),
        1 <= last <= answers.len(),
    ensures
        fetched(answers) == Ok::<Seq<T>, E>(data_of(answers.take(last as int)).flatten()),
{
    lemma_fetched_numbered(answers, 1, last);
}

/// A failure ends the fetch: where the answer to a page that the fetch asks
/// for is a failure, the fetch returns that failure and nothing else.
pub proof fn lemma_failure_is_passed_on<T, E>(answers: Seq<Result<Page<T>, E>>, at: int)
    requires
        0 <= at < answers.len(),
        answers[at] is Err,
        forall|i: int|
            0 <= i < at ==> (#[trigger] answers[i]) is Ok && answers[i]->Ok_0.current_page
                < answers[i]->Ok_0.last_page,
    ensures
        fetched(answers) == Err::<Seq<T>, E>(answers[at]->Err_0),
    decreases at,
{
    if at > 0 {
        let rest = answers.drop_first();
        assert forall|i: int| 0 <= i < at - 1 implies (#[trigger] rest[i]) is Ok && rest[i]->Ok_0.current_page
            < rest[i]->Ok_0.last_page by {
            assert(rest[i] == answers[i + 1]);
        }
        assert(rest[at - 1] == answers[at]);
        lemma_failure_is_passed_on(rest, at - 1);
        assert(answers[0] is Ok);
    }
}

/// Runs a fetch against prepared answers: `answers[0]` is taken as the
/// answer to page 1, `answers[1]` to page 2, and so on for as long as the
/// fetch keeps asking. The first failure among them ends the fetch and is
/// handed back.
pub fn fetch_all<T, E>(answers: Vec<Result<Page<T>, E>>) -> (r: Result<Vec<T>, E>)
    ensures
        match fetched(answers@) {
            Ok(items) => r is Ok && r->Ok_0@ == items,
            Err(error) => r == Err::<Vec<T>, E>(error),
        },
{
    let ghost all = answers@;
    let mut rest = answers;
    let mut pager: Pager<T> = Pager::new();
    let total = rest.len();
    assert(after(pager@.items, fetched(rest@)) =~= fetched(all)) by {
        match fetched(rest@) {
            Ok(items) => {
                assert(pager@.items + items =~= items);
            },
            Err(_) => {},
        }
    }
    while rest.len() > 0 && pager.next_page().is_some()
        invariant
            all == answers@,
            pager.wf(),
            pager.next() + rest@.len() <= usize::MAX + 1,
            !pager@.done ==> fetched(all) == after(pager@.items, fetched(rest@)),
            pager@.done ==> fetched(all) == Ok::<Seq<T>, E>(pager@.items),
        decreases rest@.len(),
    {
        let ghost before = rest@;
        let ghost items_before = pager@.items;
        let answer = rest.remove(0);
        assert(rest@ =~= before.drop_first());
        assert(answer == before[0]);
        let page = match answer {
            Ok(page) => page,
            Err(error) => {
                assert(fetched(before) == Err::<Seq<T>, E>(error));
                assert(!pager@.done);
                assert(fetched(all) == Err::<Seq<T>, E>(error));
                return Err(error);
            },
        };
        pager.absorb(page.data, page.current_page, page.last_page);
        proof {
            if page.current_page >= page.last_page {
                assert(fetched(before) == Ok::<Seq<T>, E>(page.data@));
            } else {
                assert(fetched(before) == after(page.data@, fetched(rest@)));
                match fetched(rest@) {
                    Ok(items) => {
                        assert(items_before + (page.data@ + items) =~= (items_before
                            + page.data@) + items);
                    },
                    Err(_) => {},
                }
                if pager@.done {
                    assert(rest@.len() == 0);
                    assert(items_before + page.data@ + Seq::<T>::empty() =~= items_before
                        + page.data@);
                }
            }
        }
    }
    proof {
        if !pager@.done {
            assert(pager@.items + Seq::<T>::empty() =~= pager@.items);
        }
    }
    Ok(pager.finish())
}

} // verus!

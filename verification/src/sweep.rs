//! One sweep of a bucket, from the check that the bucket is there to the
//! last page of the listing.
//!
//! The sweep decides and the caller acts: the caller asks the sweep for its
//! command, carries it out against the storage backend, and hands back what
//! happened as an event. A page that comes back leads to the work for that
//! page, which the caller may carry out while it already asks for the next
//! page.

use vstd::prelude::*;
use crate::lister::{
    is_listing, lemma_lister_asks_for_each_page, lemma_lister_stops_after_last_page,
    ListRequest, ListRequestView, ListingPage, ListingPageView, ObjectLister, ObjectListerView,
};
use crate::locator::{
    parse_gsutil_path, parse_locator, GsPath, GsPathView, InvalidLocator,
};
use crate::object::{DeleteRequestView, ObjectRefView};
use crate::removal::{
    delete_requests_for, handle_removal, intermediates, lemma_intermediates_of_joined,
    lemma_lines_of_joined, lemma_requests_of_joined, page_action, report_lines, PageAction,
    PageActionView,
};

verus! {

/// Why a sweep was given up.
#[derive(Debug, Clone, Copy, PartialEq, Eq, Structural)]
pub enum SweepError {
    /// The check for the bucket failed.
    BucketNotFound,
    /// A page of the listing could not be had.
    BackendUnavailable,
}

impl SweepError {
    /// The words that tell a user why the sweep was given up.
    pub open spec fn spec_message(self) -> Seq<char> {
        match self {
            SweepError::BucketNotFound => "Bucket check failed: the bucket could not be found"@,
            SweepError::BackendUnavailable => "Listing failed: the objects could not be listed"@,
        }
    }

    /// The words that tell a user why the sweep was given up.
    pub fn message(&self) -> (text: String)
        ensures
            text@ == self.spec_message(),
    {
        match self {
            SweepError::BucketNotFound => "Bucket check failed: the bucket could not be found".to_owned(),
            SweepError::BackendUnavailable => "Listing failed: the objects could not be listed".to_owned(),
        }
    }
}

/// How far a sweep has come.
#[derive(Debug, Clone, Copy, PartialEq, Eq, Structural)]
pub enum Phase {
    /// The bucket has not been checked yet.
    CheckingBucket,
    /// The bucket is there, and the listing is under way or over.
    Listing,
    /// The sweep was given up.
    Failed(SweepError),
}

/// What came back from the storage backend.
#[derive(Debug, PartialEq, Eq)]
pub enum Event {
    /// The bucket is there.
    BucketFound,
    /// The check for the bucket failed.
    BucketMissing,
    /// A page of the listing came back.
    PageListed(ListingPage),
    /// The request for a page failed.
    ListingFailed,
}

/// The mathematical value of an [`Event`].
pub enum EventView {
    BucketFound,
    BucketMissing,
    PageListed(ListingPageView),
    ListingFailed,
}

impl View for Event {
    type V = EventView;

    open spec fn view(&self) -> EventView {
        match self {
            Event::BucketFound => EventView::BucketFound,
            Event::BucketMissing => EventView::BucketMissing,
            Event::PageListed(page) => EventView::PageListed(page@),
            Event::ListingFailed => EventView::ListingFailed,
        }
    }
}

/// What the caller is to do next.
#[derive(Debug, PartialEq, Eq)]
pub enum Command {
    /// Check that this bucket is there.
    CheckBucket(String),
    /// Ask for this page of the listing.
    ListObjects(ListRequest),
    /// Nothing more is to be asked for: the sweep is over.
    Finish,
    /// Give up, with this error.
    Abort(SweepError),
}

/// The mathematical value of a [`Command`].
pub enum CommandView {
    CheckBucket(Seq<char>),
    ListObjects(ListRequestView),
    Finish,
    Abort(SweepError),
}

impl View for Command {
    type V = CommandView;

    open spec fn view(&self) -> CommandView {
        match self {
            Command::CheckBucket(bucket) => CommandView::CheckBucket(bucket@),
            Command::ListObjects(request) => CommandView::ListObjects(request@),
            Command::Finish => CommandView::Finish,
            Command::Abort(error) => CommandView::Abort(*error),
        }
    }
}

/// The view of the work for a page, where there is any.
pub open spec fn work_view(work: Option<PageAction>) -> Option<PageActionView> {
    match work {
        Some(action) => Some(action@),
        None => None,
    }
}

/// The delete requests that a piece of work sends.
pub open spec fn requests_of(work: Option<PageActionView>) -> Seq<DeleteRequestView> {
    match work {
        Some(action) => action.requests(),
        None => Seq::empty(),
    }
}

/// The lines that a piece of work prints.
pub open spec fn lines_of(work: Option<PageActionView>) -> Seq<Seq<char>> {
    match work {
        Some(action) => action.lines(),
        None => Seq::empty(),
    }
}

/// The mathematical value of a [`Sweep`].
pub struct SweepView {
    pub dry_run: bool,
    pub phase: Phase,
    pub lister: ObjectListerView,
}

impl SweepView {
    /// A sweep of `locator` that has not begun.
    pub open spec fn start(locator: GsPathView, dry_run: bool) -> SweepView {
        SweepView { dry_run, phase: Phase::CheckingBucket, lister: ObjectListerView::start(locator) }
    }

    /// Where the sweep looks.
    pub open spec fn locator(self) -> GsPathView {
        self.lister.locator()
    }

    /// Whether the sweep waits for a page of the listing.
    pub open spec fn awaits_page(self) -> bool {
        self.phase is Listing && self.lister.cursor is Active
    }

    /// What the caller is to do in this state.
    pub open spec fn command(self) -> CommandView {
        match self.phase {
            Phase::CheckingBucket => CommandView::CheckBucket(self.lister.bucket),
            Phase::Failed(error) => CommandView::Abort(error),
            Phase::Listing => match self.lister.request() {
                Some(request) => CommandView::ListObjects(request),
                None => CommandView::Finish,
            },
        }
    }

    /// The state after `event`. An event that the sweep does not wait for
    /// changes nothing.
    pub open spec fn step(self, event: EventView) -> SweepView {
        match event {
            EventView::BucketFound => if self.phase is CheckingBucket {
                SweepView { phase: Phase::Listing, ..self }
            } else {
                self
            },
            EventView::BucketMissing => if self.phase is CheckingBucket {
                SweepView { phase: Phase::Failed(SweepError::BucketNotFound), ..self }
            } else {
                self
            },
            EventView::PageListed(page) => if self.awaits_page() {
                SweepView { lister: self.lister.advance(page.next_page_token), ..self }
            } else {
                self
            },
            EventView::ListingFailed => if self.awaits_page() {
                SweepView { phase: Phase::Failed(SweepError::BackendUnavailable), ..self }
            } else {
                self
            },
        }
    }

    /// The work that `event` leads to: that for the page, when a page comes
    /// that the sweep waits for, else none.
    pub open spec fn work(self, event: EventView) -> Option<PageActionView> {
        match event {
            EventView::PageListed(page) => if self.awaits_page() {
                Some(page_action(page.items, self.dry_run))
            } else {
                None
            },
            _ => None,
        }
    }

    /// The state after `events`, one after the other.
    pub open spec fn after(self, events: Seq<EventView>) -> SweepView
        decreases events.len(),
    {
        if events.len() == 0 {
            self
        } else {
            self.after(events.drop_last()).step(events.last())
        }
    }

    /// All delete requests that `events` lead to, in the order in which
    /// the sweep hands them out.
    pub open spec fn requests_over(self, events: Seq<EventView>) -> Seq<DeleteRequestView>
        decreases events.len(),
    {
        if events.len() == 0 {
            Seq::empty()
        } else {
            self.requests_over(events.drop_last()) + requests_of(
                self.after(events.drop_last()).work(events.last()),
            )
        }
    }

    /// All lines that `events` lead to, in the order in which the sweep
    /// hands them out.
    pub open spec fn lines_over(self, events: Seq<EventView>) -> Seq<Seq<char>>
        decreases events.len(),
    {
        if events.len() == 0 {
            Seq::empty()
        } else {
            self.lines_over(events.drop_last()) + lines_of(
                self.after(events.drop_last()).work(events.last()),
            )
        }
    }
}

/// What comes back in a run without failure: the bucket is found, and
/// then the pages of the listing arrive one after the other.
pub open spec fn events_of(pages: Seq<ListingPageView>) -> Seq<EventView> {
    seq![EventView::BucketFound] + Seq::new(
        pages.len(),
        |i: int| EventView::PageListed(pages[i]),
    )
}

/// The tokens that the pages carry, in order.
pub open spec fn tokens_of(pages: Seq<ListingPageView>) -> Seq<Option<Seq<char>>> {
    Seq::new(pages.len(), |i: int| pages[i].next_page_token)
}

/// The items of all the pages, in order.
pub open spec fn items_of(pages: Seq<ListingPageView>) -> Seq<ObjectRefView>
    decreases pages.len(),
{
    if pages.len() == 0 {
        Seq::empty()
    } else {
        items_of(pages.drop_last()) + pages.last().items
    }
}

/// One sweep of the objects below a locator.
#[derive(Debug)]
pub struct Sweep {
    dry_run: bool,
    phase: Phase,
    lister: ObjectLister,
}

impl View for Sweep {
    type V = SweepView;

    closed spec fn view(&self) -> SweepView {
        SweepView { dry_run: self.dry_run, phase: self.phase, lister: self.lister@ }
    }
}

/// The result of beginning a sweep, with the sweep taken by its view.
pub open spec fn begun_view(result: Result<Sweep, InvalidLocator>) -> Result<
    SweepView,
    InvalidLocator,
> {
    match result {
        Ok(sweep) => Ok(sweep@),
        Err(e) => Err(e),
    }
}

/// What beginning a sweep at `path` gives: the sweep of the locator that
/// `path` says, or the reason why it says none.
pub open spec fn begin_at(path: Seq<char>, dry_run: bool) -> Result<SweepView, InvalidLocator> {
    match parse_locator(path) {
        Ok(locator) => Ok(SweepView::start(locator, dry_run)),
        Err(e) => Err(e),
    }
}

impl Sweep {
    /// A sweep of `locator` that has not begun. The locator names a bucket
    /// and a folder in it, as every locator does that was read from a
    /// string.
    pub fn new(locator: GsPath, dry_run: bool) -> (sweep: Sweep)
        requires
            locator@.is_scoped(),
        ensures
            sweep@ == SweepView::start(locator@, dry_run),
    {
        Sweep { dry_run, phase: Phase::CheckingBucket, lister: ObjectLister::new(locator) }
    }

    /// Reads the locator and sets up the sweep of it. A sweep that begins
    /// here is confined to a folder of a bucket.
    pub fn begin(path: &str, dry_run: bool) -> (result: Result<Sweep, InvalidLocator>)
        ensures
            begun_view(result) == begin_at(path@, dry_run),
            result matches Ok(sweep) ==> sweep@.locator().is_scoped(),
    {
        match parse_gsutil_path(path) {
            Ok(locator) => Ok(Sweep::new(locator, dry_run)),
            Err(e) => Err(e),
        }
    }

    /// Where the sweep looks.
    pub fn locator(&self) -> (copy: GsPath)
        ensures
            copy@ == self@.locator(),
    {
        self.lister.locator()
    }

    /// Whether the sweep only reports.
    pub fn is_dry_run(&self) -> (r: bool)
        ensures
            r == self@.dry_run,
    {
        self.dry_run
    }

    /// What the caller is to do next.
    pub fn command(&self) -> (command: Command)
        ensures
            command@ == self@.command(),
    {
        match self.phase {
            Phase::CheckingBucket => Command::CheckBucket(self.lister.bucket()),
            Phase::Failed(error) => Command::Abort(error),
            Phase::Listing => match self.lister.next_request() {
                Some(request) => Command::ListObjects(request),
                None => Command::Finish,
            },
        }
    }

    /// Takes in what came back from the backend, and hands out the work
    /// for the page if a page came back.
    ///
    /// In a dry run the work never holds a delete request.
    pub fn step(&mut self, event: Event) -> (work: Option<PageAction>)
        ensures
            final(self)@ == old(self)@.step(event@),
            final(self)@.locator() == old(self)@.locator(),
            work_view(work) == old(self)@.work(event@),
            old(self)@.dry_run ==> requests_of(work_view(work)).len() == 0,
    {
        let awaits_page = match self.phase {
            Phase::Listing => !self.lister.is_exhausted(),
            _ => false,
        };
        match event {
            Event::BucketFound => {
                match self.phase {
                    Phase::CheckingBucket => {
                        self.phase = Phase::Listing;
                    },
                    _ => {},
                }
                None
            },
            Event::BucketMissing => {
                match self.phase {
                    Phase::CheckingBucket => {
                        self.phase = Phase::Failed(SweepError::BucketNotFound);
                    },
                    _ => {},
                }
                None
            },
            Event::PageListed(page) => {
                if awaits_page {
                    self.lister.advance(page.next_page_token);
                    Some(handle_removal(page.items, self.dry_run))
                } else {
                    None
                }
            },
            Event::ListingFailed => {
                if awaits_page {
                    self.phase = Phase::Failed(SweepError::BackendUnavailable);
                }
                None
            },
        }
    }
}

/// A dry run sends no delete request, whatever state the sweep is in and
/// whatever comes back from the backend, however many objects match.
pub proof fn lemma_dry_run_deletes_nothing(sweep: SweepView, events: Seq<EventView>)
    requires
        sweep.dry_run,
    ensures
        sweep.after(events).dry_run,
        sweep.requests_over(events) == Seq::<DeleteRequestView>::empty(),
    decreases events.len(),
{
    if events.len() > 0 {
        lemma_dry_run_deletes_nothing(sweep, events.drop_last());
        assert(sweep.requests_over(events) =~= Seq::<DeleteRequestView>::empty());
    }
}

/// Where a sweep stands after the bucket was found and the first `seen`
/// pages of a listing came back: it is still listing, its lister has
/// taken in the tokens of these pages, and it has handed out the requests
/// (or, in a dry run, the lines) for the intermediate files of these
/// pages, and for nothing else.
pub proof fn lemma_sweep_through_pages(
    locator: GsPathView,
    dry_run: bool,
    pages: Seq<ListingPageView>,
    seen: int,
)
    requires
        is_listing(tokens_of(pages)),
        0 <= seen <= pages.len(),
    ensures
        ({
            let sweep = SweepView::start(locator, dry_run);
            let events = events_of(pages.take(seen));
            let matched = intermediates(items_of(pages.take(seen)));
            &&& sweep.after(events) == SweepView {
                dry_run,
                phase: Phase::Listing,
                lister: sweep.lister.after(tokens_of(pages).take(seen)),
            }
            &&& sweep.requests_over(events) == if dry_run {
                Seq::empty()
            } else {
                delete_requests_for(matched)
            }
            &&& sweep.lines_over(events) == if dry_run {
                report_lines(matched)
            } else {
                Seq::empty()
            }
        }),
    decreases seen,
{
    let sweep = SweepView::start(locator, dry_run);
    let events = events_of(pages.take(seen));
    let tokens = tokens_of(pages);
    reveal(Seq::filter);
    if seen == 0 {
        assert(events =~= seq![EventView::BucketFound]);
        let none = Seq::<EventView>::empty();
        assert(events.drop_last() =~= none);
        assert(sweep.after(none) == sweep);
        assert(sweep.requests_over(none) =~= Seq::<DeleteRequestView>::empty());
        assert(sweep.lines_over(none) =~= Seq::<Seq<char>>::empty());
        assert(tokens.take(0) =~= Seq::<Option<Seq<char>>>::empty());
        assert(sweep.requests_over(events) =~= Seq::<DeleteRequestView>::empty());
        assert(sweep.lines_over(events) =~= Seq::<Seq<char>>::empty());
        assert(items_of(pages.take(0)) =~= Seq::<ObjectRefView>::empty());
        assert(delete_requests_for(Seq::<ObjectRefView>::empty()) =~= Seq::<
            DeleteRequestView,
        >::empty());
        assert(report_lines(Seq::<ObjectRefView>::empty()) =~= Seq::<Seq<char>>::empty());
    } else {
        let page = pages[seen - 1];
        let earlier = events_of(pages.take(seen - 1));
        lemma_sweep_through_pages(locator, dry_run, pages, seen - 1);
        lemma_lister_asks_for_each_page(sweep.lister, tokens, seen - 1);
        assert(events.drop_last() =~= earlier);
        assert(events.last() == EventView::PageListed(page));
        assert(tokens.take(seen).drop_last() =~= tokens.take(seen - 1));
        assert(tokens.take(seen).last() == page.next_page_token);
        assert(pages.take(seen).drop_last() =~= pages.take(seen - 1));
        assert(pages.take(seen).last() == page);
        let before = items_of(pages.take(seen - 1));
        assert(items_of(pages.take(seen)) == before + page.items);
        lemma_intermediates_of_joined(before, page.items);
        lemma_requests_of_joined(intermediates(before), intermediates(page.items));
        lemma_lines_of_joined(intermediates(before), intermediates(page.items));
        assert(sweep.after(earlier).awaits_page());
        if dry_run {
            assert(sweep.requests_over(events) =~= Seq::<DeleteRequestView>::empty());
        } else {
            assert(sweep.lines_over(events) =~= Seq::<Seq<char>>::empty());
        }
    }
}

/// A sweep of a listing does what it is for. When the bucket is found and
/// the pages arrive, each with a token but the last, the sweep ends with
/// nothing more to ask for. If it is no dry run, it has then handed out a
/// delete request for each intermediate file of each page, in the order
/// of the listing, and for no other object; in a dry run it has handed
/// out a line for each of them and no request.
pub proof fn lemma_sweep_of_a_listing(
    locator: GsPathView,
    dry_run: bool,
    pages: Seq<ListingPageView>,
)
    requires
        is_listing(tokens_of(pages)),
    ensures
        ({
            let sweep = SweepView::start(locator, dry_run);
            let matched = intermediates(items_of(pages));
            &&& sweep.after(events_of(pages)).command() == CommandView::Finish
            &&& sweep.requests_over(events_of(pages)) == if dry_run {
                Seq::empty()
            } else {
                delete_requests_for(matched)
            }
            &&& sweep.lines_over(events_of(pages)) == if dry_run {
                report_lines(matched)
            } else {
                Seq::empty()
            }
        }),
{
    let sweep = SweepView::start(locator, dry_run);
    lemma_sweep_through_pages(locator, dry_run, pages, pages.len() as int);
    lemma_lister_stops_after_last_page(sweep.lister, tokens_of(pages));
    assert(pages.take(pages.len() as int) =~= pages);
    assert(tokens_of(pages).take(pages.len() as int) =~= tokens_of(pages));
}

/// A sweep that was given up stays given up: no event leads to further
/// work or to another command.
pub proof fn lemma_failure_is_final(sweep: SweepView, event: EventView)
    requires
        sweep.phase is Failed,
    ensures
        sweep.step(event) == sweep,
        sweep.work(event) is None,
{
}

} // verus!

//! Walking a listing page by page.
//!
//! A lister is either active, and then knows the token of the page to ask
//! for next (none for the first page), or exhausted. Only the token that a
//! page carries decides how it goes on: a page with a token keeps the
//! lister active, a page without one exhausts it, whether or not the page
//! holds any items.

use vstd::prelude::*;
use crate::locator::{GsPath, GsPathView};
use crate::object::{ObjectRef, ObjectRefView};
use crate::removal::listed;

verus! {

/// A request for one page of the objects below a prefix.
#[derive(Debug, PartialEq, Eq)]
pub struct ListRequest {
    pub bucket: String,
    pub prefix: String,
    pub page_token: Option<String>,
}

/// The mathematical value of a [`ListRequest`].
pub struct ListRequestView {
    pub bucket: Seq<char>,
    pub prefix: Seq<char>,
    pub page_token: Option<Seq<char>>,
}

/// The view of a token that may be absent.
pub open spec fn token_view(token: Option<String>) -> Option<Seq<char>> {
    match token {
        Some(token) => Some(token@),
        None => None,
    }
}

impl View for ListRequest {
    type V = ListRequestView;

    open spec fn view(&self) -> ListRequestView {
        ListRequestView {
            bucket: self.bucket@,
            prefix: self.prefix@,
            page_token: token_view(self.page_token),
        }
    }
}

/// The view of a request that may be absent.
pub open spec fn request_view(request: Option<ListRequest>) -> Option<ListRequestView> {
    match request {
        Some(request) => Some(request@),
        None => None,
    }
}

/// One page of a listing, as the backend answered it.
#[derive(Debug, PartialEq, Eq)]
pub struct ListingPage {
    pub items: Option<Vec<ObjectRef>>,
    pub next_page_token: Option<String>,
}

/// The mathematical value of a [`ListingPage`]: its items, of which there
/// may be none, and the token of the page after it.
pub struct ListingPageView {
    pub items: Seq<ObjectRefView>,
    pub next_page_token: Option<Seq<char>>,
}

impl View for ListingPage {
    type V = ListingPageView;

    open spec fn view(&self) -> ListingPageView {
        ListingPageView {
            items: listed(self.items),
            next_page_token: token_view(self.next_page_token),
        }
    }
}

/// Where a lister stands.
pub enum Cursor {
    /// More is to be asked for, with this token.
    Active(Option<Seq<char>>),
    /// The last page has been seen.
    Exhausted,
}

/// The mathematical value of an [`ObjectLister`].
pub struct ObjectListerView {
    pub bucket: Seq<char>,
    pub prefix: Seq<char>,
    pub cursor: Cursor,
}

impl ObjectListerView {
    /// The lister before its first page.
    pub open spec fn start(locator: GsPathView) -> ObjectListerView {
        ObjectListerView {
            bucket: locator.bucket,
            prefix: locator.folder,
            cursor: Cursor::Active(None),
        }
    }

    /// Where the lister looks.
    pub open spec fn locator(self) -> GsPathView {
        GsPathView { bucket: self.bucket, folder: self.prefix }
    }

    /// The request that the lister makes next, if it makes one.
    pub open spec fn request(self) -> Option<ListRequestView> {
        match self.cursor {
            Cursor::Active(page_token) => Some(
                ListRequestView { bucket: self.bucket, prefix: self.prefix, page_token },
            ),
            Cursor::Exhausted => None,
        }
    }

    /// The lister after a page that carried `next_page_token`.
    pub open spec fn advance(self, next_page_token: Option<Seq<char>>) -> ObjectListerView {
        match self.cursor {
            Cursor::Exhausted => self,
            Cursor::Active(_) => match next_page_token {
                Some(token) => ObjectListerView { cursor: Cursor::Active(Some(token)), ..self },
                None => ObjectListerView { cursor: Cursor::Exhausted, ..self },
            },
        }
    }

    /// The lister after pages that carried `tokens`, one after the other.
    pub open spec fn after(self, tokens: Seq<Option<Seq<char>>>) -> ObjectListerView
        decreases tokens.len(),
    {
        if tokens.len() == 0 {
            self
        } else {
            self.after(tokens.drop_last()).advance(tokens.last())
        }
    }
}

/// The tokens of a listing of `tokens.len()` pages: each page but the last
/// carries one, the last carries none.
pub open spec fn is_listing(tokens: Seq<Option<Seq<char>>>) -> bool {
    &&& tokens.len() >= 1
    &&& forall|i: int| 0 <= i < tokens.len() - 1 ==> (#[trigger] tokens[i]) is Some
    &&& tokens.last() is None
}

/// The token that the request for page `page` of a listing carries: none
/// for the first page, else the one that the page before it came with.
pub open spec fn token_for(tokens: Seq<Option<Seq<char>>>, page: int) -> Option<Seq<char>> {
    if page == 0 {
        None
    } else {
        tokens[page - 1]
    }
}

/// Walks the objects below a prefix, page by page.
#[derive(Debug)]
pub struct ObjectLister {
    locator: GsPath,
    exhausted: bool,
    page_token: Option<String>,
}

impl View for ObjectLister {
    type V = ObjectListerView;

    closed spec fn view(&self) -> ObjectListerView {
        ObjectListerView {
            bucket: self.locator.bucket@,
            prefix: self.locator.folder@,
            cursor: if self.exhausted {
                Cursor::Exhausted
            } else {
                Cursor::Active(token_view(self.page_token))
            },
        }
    }
}

fn copy_token(token: &Option<String>) -> (copy: Option<String>)
    ensures
        token_view(copy) == token_view(*token),
{
    match token {
        Some(token) => Some(token.clone()),
        None => None,
    }
}

impl ObjectLister {
    /// A lister for the objects below `locator`, before its first page.
    /// The locator names a bucket and a folder in it, as every locator
    /// does that was read from a string.
    pub fn new(locator: GsPath) -> (lister: ObjectLister)
        requires
            locator@.is_scoped(),
        ensures
            lister@ == ObjectListerView::start(locator@),
    {
        ObjectLister { locator, exhausted: false, page_token: None }
    }

    /// Where the lister looks.
    pub fn locator(&self) -> (copy: GsPath)
        ensures
            copy@ == self@.locator(),
    {
        self.locator.clone()
    }

    /// The bucket whose objects are listed.
    pub fn bucket(&self) -> (name: String)
        ensures
            name@ == self@.bucket,
    {
        self.locator.bucket.clone()
    }

    /// Whether the last page has been seen.
    pub fn is_exhausted(&self) -> (r: bool)
        ensures
            r == (self@.cursor is Exhausted),
    {
        self.exhausted
    }

    /// The request for the next page, or `None` when the listing is over.
    pub fn next_request(&self) -> (request: Option<ListRequest>)
        ensures
            request_view(request) == self@.request(),
    {
        if self.exhausted {
            None
        } else {
            Some(
                ListRequest {
                    bucket: self.locator.bucket.clone(),
                    prefix: self.locator.folder.clone(),
                    page_token: copy_token(&self.page_token),
                },
            )
        }
    }

    /// Takes note of the token that the page just received carried.
    pub fn advance(&mut self, next_page_token: Option<String>)
        ensures
            final(self)@ == old(self)@.advance(token_view(next_page_token)),
    {
        if !self.exhausted {
            match next_page_token {
                Some(token) => {
                    self.page_token = Some(token);
                },
                None => {
                    self.exhausted = true;
                },
            }
        }
    }
}

/// While a listing lasts, the lister asks for each of its pages in turn:
/// after `page` pages it is active, and its request carries the token that
/// leads to page `page`.
pub proof fn lemma_lister_asks_for_each_page(
    start: ObjectListerView,
    tokens: Seq<Option<Seq<char>>>,
    page: int,
)
    requires
        start.cursor == Cursor::Active(None),
        is_listing(tokens),
        0 <= page < tokens.len(),
    ensures
        start.after(tokens.take(page)).request() == Some(
            ListRequestView {
                bucket: start.bucket,
                prefix: start.prefix,
                page_token: token_for(tokens, page),
            },
        ),
    decreases page,
{
    if page > 0 {
        lemma_lister_asks_for_each_page(start, tokens, page - 1);
        assert(tokens.take(page).drop_last() =~= tokens.take(page - 1));
        assert(tokens.take(page).last() == tokens[page - 1]);
    }
}

/// A listing ends the lister: after the page that carries no token the
/// lister is exhausted and makes no further request. So it makes as many
/// requests as the listing has pages, one for each.
pub proof fn lemma_lister_stops_after_last_page(
    start: ObjectListerView,
    tokens: Seq<Option<Seq<char>>>,
)
    requires
        start.cursor == Cursor::Active(None),
        is_listing(tokens),
    ensures
        start.after(tokens).cursor is Exhausted,
        start.after(tokens).request() is None,
{
    lemma_lister_asks_for_each_page(start, tokens, tokens.len() - 1);
    assert(tokens.drop_last() =~= tokens.take(tokens.len() - 1));
}

/// An exhausted lister stays exhausted, whatever pages follow.
pub proof fn lemma_exhausted_is_final(lister: ObjectListerView, tokens: Seq<Option<Seq<char>>>)
    requires
        lister.cursor is Exhausted,
    ensures
        lister.after(tokens) == lister,
    decreases tokens.len(),
{
    if tokens.len() > 0 {
        lemma_exhausted_is_final(lister, tokens.drop_last());
    }
}

} // verus!

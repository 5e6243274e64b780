//! What a page of a listing leads to: the objects that count as
//! intermediate files, and the delete requests or report lines for them.

use vstd::prelude::*;
use vstd::string::StringExecFns;
use crate::locator::{locator_text, scheme};
use crate::object::{
    DeleteRequest, DeleteRequestView, ObjectRef, ObjectRefView, line_views, object_views,
    request_views,
};
use crate::pattern::{is_intermediate_file, is_intermediate_key};

verus! {

/// The objects among `objects` whose name is the key of an intermediate
/// file, in the order in which they stand.
pub open spec fn intermediates(objects: Seq<ObjectRefView>) -> Seq<ObjectRefView> {
    objects.filter(names_intermediate_file())
}

/// The test that picks out the objects to remove: the name is the key of
/// an intermediate file. The bucket plays no part.
pub open spec fn names_intermediate_file() -> spec_fn(ObjectRefView) -> bool {
    |o: ObjectRefView| is_intermediate_key(o.name)
}

/// The request that deletes `object`.
pub open spec fn delete_request_for(object: ObjectRefView) -> DeleteRequestView {
    DeleteRequestView { bucket: object.bucket, object: object.name }
}

/// The requests that delete `objects`: one for each, in the same order.
pub open spec fn delete_requests_for(objects: Seq<ObjectRefView>) -> Seq<DeleteRequestView> {
    Seq::new(objects.len(), |i: int| delete_request_for(objects[i]))
}

/// The line that reports `object`: its locator.
pub open spec fn report_line(object: ObjectRefView) -> Seq<char> {
    locator_text(object.bucket, object.name)
}

/// The lines that report `objects`: one for each, in the same order.
pub open spec fn report_lines(objects: Seq<ObjectRefView>) -> Seq<Seq<char>> {
    Seq::new(objects.len(), |i: int| report_line(objects[i]))
}

/// What is to be done with the matches of one page.
#[derive(Debug, PartialEq, Eq)]
pub enum PageAction {
    /// Print these lines and delete nothing.
    Report(Vec<String>),
    /// Send these requests.
    Delete(Vec<DeleteRequest>),
}

/// The mathematical value of a [`PageAction`].
pub enum PageActionView {
    Report(Seq<Seq<char>>),
    Delete(Seq<DeleteRequestView>),
}

impl View for PageAction {
    type V = PageActionView;

    open spec fn view(&self) -> PageActionView {
        match self {
            PageAction::Report(lines) => PageActionView::Report(line_views(lines@)),
            PageAction::Delete(requests) => PageActionView::Delete(request_views(requests@)),
        }
    }
}

impl PageActionView {
    /// The delete requests that the action sends.
    pub open spec fn requests(self) -> Seq<DeleteRequestView> {
        match self {
            PageActionView::Report(_) => Seq::empty(),
            PageActionView::Delete(requests) => requests,
        }
    }

    /// The lines that the action prints.
    pub open spec fn lines(self) -> Seq<Seq<char>> {
        match self {
            PageActionView::Report(lines) => lines,
            PageActionView::Delete(_) => Seq::empty(),
        }
    }
}

/// The objects that a page holds. A page without a list of items holds
/// none.
pub open spec fn listed(items: Option<Vec<ObjectRef>>) -> Seq<ObjectRefView> {
    match items {
        Some(items) => object_views(items@),
        None => Seq::empty(),
    }
}

/// What is to be done with a page of `objects`: in a dry run a line for
/// each intermediate file, else a delete request for each.
pub open spec fn page_action(objects: Seq<ObjectRefView>, dry_run: bool) -> PageActionView {
    if dry_run {
        PageActionView::Report(report_lines(intermediates(objects)))
    } else {
        PageActionView::Delete(delete_requests_for(intermediates(objects)))
    }
}

/// Keeps the objects whose name is the key of an intermediate file.
pub fn filter_objects(items: Vec<ObjectRef>) -> (kept: Vec<ObjectRef>)
    ensures
        object_views(kept@) == intermediates(object_views(items@)),
{
    let mut kept: Vec<ObjectRef> = Vec::new();
    let ghost all = items@;
    proof {
        reveal(Seq::filter);
        assert(object_views(all.take(0)) =~= Seq::<ObjectRefView>::empty());
    }
    for item in it: items
        invariant
            it.seq() == all,
            object_views(kept@) == intermediates(object_views(all.take(it.index()))),
    {
        let ghost before = object_views(all.take(it.index()));
        let ghost upto = object_views(all.take(it.index() + 1));
        let ghost kept_before = object_views(kept@);
        proof {
            reveal(Seq::filter);
            assert(upto.drop_last() =~= before);
            assert(upto.last() == item@);
        }
        if is_intermediate_file(item.name.as_str()) {
            kept.push(item);
            assert(object_views(kept@) =~= kept_before.push(item@));
        }
    }
    assert(all.take(all.len() as int) =~= all);
    kept
}

/// Turns a batch of objects into the delete requests for them.
///
/// Every object of the batch gets its own request, whatever becomes of the
/// requests for the others: the batch is fixed before any request is sent,
/// and no outcome feeds back into it.
pub fn remove_objects(items: Vec<ObjectRef>) -> (requests: Vec<DeleteRequest>)
    ensures
        request_views(requests@) == delete_requests_for(object_views(items@)),
{
    let mut requests: Vec<DeleteRequest> = Vec::with_capacity(items.len());
    let ghost all = items@;
    for item in it: items
        invariant
            it.seq() == all,
            requests.len() == it.index(),
            forall|j: int| 0 <= j < requests.len() ==> requests[j]@ == delete_request_for(all[j]@),
    {
        requests.push(DeleteRequest { bucket: item.bucket, object: item.name });
    }
    assert(request_views(requests@) =~= delete_requests_for(object_views(all)));
    requests
}

/// Writes the line that reports an object.
pub fn report_line_of(object: &ObjectRef) -> (line: String)
    ensures
        line@ == report_line(object@),
{
    let mut line = "gs://".to_owned();
    line.append(object.bucket.as_str());
    line.append("/");
    line.append(object.name.as_str());
    proof {
        reveal_strlit("gs://");
        reveal_strlit("/");
        assert("gs://"@ =~= scheme());
        assert("/"@ =~= seq!['/']);
    }
    line
}

/// Decides what is to be done with the items of one page.
///
/// A dry run never leads to a delete request, however many items match.
pub fn handle_removal(items: Option<Vec<ObjectRef>>, dry_run: bool) -> (action: PageAction)
    ensures
        action@ == page_action(listed(items), dry_run),
        dry_run ==> action@.requests().len() == 0,
{
    let filtered = match items {
        Some(items) => filter_objects(items),
        None => {
            proof {
                reveal(Seq::filter);
            }
            Vec::new()
        },
    };
    assert(object_views(filtered@) =~= intermediates(listed(items)));
    if dry_run {
        let mut lines: Vec<String> = Vec::with_capacity(filtered.len());
        let mut i: usize = 0;
        while i < filtered.len()
            invariant
                0 <= i <= filtered.len(),
                lines.len() == i,
                forall|j: int| 0 <= j < i ==> lines[j]@ == report_line(filtered[j]@),
            decreases filtered.len() - i,
        {
            lines.push(report_line_of(&filtered[i]));
            i += 1;
        }
        assert(line_views(lines@) =~= report_lines(object_views(filtered@)));
        PageAction::Report(lines)
    } else {
        PageAction::Delete(remove_objects(filtered))
    }
}

/// How the request to delete one object ended.
#[derive(Debug, PartialEq, Eq)]
pub struct DeletionOutcome {
    pub request: DeleteRequest,
    /// What the backend said, if it refused or failed.
    pub error: Option<String>,
}

/// The line that tells of a request that failed with `error`: it names
/// the object by its locator and gives the backend's words.
pub open spec fn failure_text(request: DeleteRequestView, error: Seq<char>) -> Seq<char> {
    "Error deleting object "@ + locator_text(request.bucket, request.object) + ": "@ + error
}

/// What is to be logged of an outcome: a line for a failure, nothing for
/// a success.
pub open spec fn failure_of(outcome: DeletionOutcome) -> Option<Seq<char>> {
    match outcome.error {
        Some(error) => Some(failure_text(outcome.request@, error@)),
        None => None,
    }
}

/// The view of a line that may be absent.
pub open spec fn line_view(line: Option<String>) -> Option<Seq<char>> {
    match line {
        Some(line) => Some(line@),
        None => None,
    }
}

/// Writes the line to log for an outcome, if it was a failure. A failure
/// is told and that is all: it is judged by itself, and stops nothing.
pub fn failure_line(outcome: &DeletionOutcome) -> (line: Option<String>)
    ensures
        line_view(line) == failure_of(*outcome),
{
    match &outcome.error {
        None => None,
        Some(error) => {
            let mut line = "Error deleting object gs://".to_owned();
            line.append(outcome.request.bucket.as_str());
            line.append("/");
            line.append(outcome.request.object.as_str());
            line.append(": ");
            line.append(error.as_str());
            proof {
                reveal_strlit("Error deleting object gs://");
                reveal_strlit("Error deleting object ");
                reveal_strlit("/");
                reveal_strlit(": ");
                assert("Error deleting object gs://"@ =~= "Error deleting object "@ + scheme());
                assert("/"@ =~= seq!['/']);
                assert(line@ =~= failure_text(outcome.request@, error@));
            }
            Some(line)
        },
    }
}

/// Each object of a batch is attempted: a batch of `n` objects leads to
/// `n` requests, and the request at each place is the one for the object
/// at that place. Whether a request fails is not known when the batch is
/// laid out, so the failure of one cannot hold back another.
pub proof fn lemma_each_object_is_attempted(objects: Seq<ObjectRefView>, at: int)
    requires
        0 <= at < objects.len(),
    ensures
        delete_requests_for(objects).len() == objects.len(),
        delete_requests_for(objects)[at] == delete_request_for(objects[at]),
{
}

/// What is picked out of two pages together is what is picked out of the
/// first and then what is picked out of the second: a page is judged by
/// itself.
pub proof fn lemma_intermediates_of_joined(a: Seq<ObjectRefView>, b: Seq<ObjectRefView>)
    ensures
        intermediates(a + b) == intermediates(a) + intermediates(b),
{
    Seq::filter_distributes_over_add(a, b, names_intermediate_file());
}

/// The requests for two batches together are those for the first and then
/// those for the second.
pub proof fn lemma_requests_of_joined(a: Seq<ObjectRefView>, b: Seq<ObjectRefView>)
    ensures
        delete_requests_for(a + b) == delete_requests_for(a) + delete_requests_for(b),
{
    assert(delete_requests_for(a + b) =~= delete_requests_for(a) + delete_requests_for(b));
}

/// The report of two batches together is that of the first and then that
/// of the second.
pub proof fn lemma_lines_of_joined(a: Seq<ObjectRefView>, b: Seq<ObjectRefView>)
    ensures
        report_lines(a + b) == report_lines(a) + report_lines(b),
{
    assert(report_lines(a + b) =~= report_lines(a) + report_lines(b));
}

} // verus!

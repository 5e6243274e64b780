//! The values that pass between the sweep and the storage backend.

use vstd::prelude::*;

verus! {

/// An object in a bucket: what it takes to name it in a delete request.
#[derive(Debug, PartialEq, Eq)]
pub struct ObjectRef {
    pub bucket: String,
    pub name: String,
}

/// The mathematical value of an [`ObjectRef`].
pub struct ObjectRefView {
    pub bucket: Seq<char>,
    pub name: Seq<char>,
}

impl View for ObjectRef {
    type V = ObjectRefView;

    open spec fn view(&self) -> ObjectRefView {
        ObjectRefView { bucket: self.bucket@, name: self.name@ }
    }
}

/// A request to delete one object.
#[derive(Debug, PartialEq, Eq)]
pub struct DeleteRequest {
    pub bucket: String,
    pub object: String,
}

/// The mathematical value of a [`DeleteRequest`].
pub struct DeleteRequestView {
    pub bucket: Seq<char>,
    pub object: Seq<char>,
}

impl View for DeleteRequest {
    type V = DeleteRequestView;

    open spec fn view(&self) -> DeleteRequestView {
        DeleteRequestView { bucket: self.bucket@, object: self.object@ }
    }
}

impl Clone for ObjectRef {
    fn clone(&self) -> (copy: Self)
        ensures
            copy@ == self@,
    {
        ObjectRef { bucket: self.bucket.clone(), name: self.name.clone() }
    }
}

impl Clone for DeleteRequest {
    fn clone(&self) -> (copy: Self)
        ensures
            copy@ == self@,
    {
        DeleteRequest { bucket: self.bucket.clone(), object: self.object.clone() }
    }
}

/// The views of the strings of `lines`, in order.
pub open spec fn line_views(lines: Seq<String>) -> Seq<Seq<char>> {
    Seq::new(lines.len(), |i: int| lines[i]@)
}

/// The views of the objects of `items`, in order.
pub open spec fn object_views(items: Seq<ObjectRef>) -> Seq<ObjectRefView> {
    Seq::new(items.len(), |i: int| items[i]@)
}

/// The views of the requests of `requests`, in order.
pub open spec fn request_views(requests: Seq<DeleteRequest>) -> Seq<DeleteRequestView> {
    Seq::new(requests.len(), |i: int| requests[i]@)
}

} // verus!

//! Plain data of the front end: pages, dialog kinds and listed vectors.
use vstd::prelude::*;
use crate::types::{DenseVector, Payload};

verus! {

/// The page the front end shows.
#[derive(Debug, Clone, Copy, PartialEq, Eq, Structural)]
pub enum AppState {
    Dashboard,
    Database,
    VectorOperations,
}

impl Default for AppState {
    fn default() -> (r: Self)
        ensures
            r == AppState::Dashboard,
    {
        AppState::Dashboard
    }
}

/// The kinds of modal dialog.
#[derive(Debug, Clone, Copy, PartialEq, Eq, Structural)]
pub enum ModalType {
    CreateDatabase,
    DeleteDatabase,
    ConfirmDeleteDatabase,
    DatabaseList,
    ListVectors,
    VectorDetails,
    Error,
    Success,
    Failure,
    GetVector,
    InsertVector,
    DeleteVector,
    SearchSimilarVectors,
}

/// The colour a footer hint is drawn in.
#[derive(Debug, Clone, Copy, PartialEq, Eq, Structural)]
pub enum FooterColor {
    Green,
    Red,
    Gray,
}

/// A vector as listed or shown in the front end.
#[derive(Debug)]
pub struct VectorListItem {
    pub id: u64,
    pub vector: DenseVector,
    pub payload: Option<Payload>,
}

impl Clone for VectorListItem {
    fn clone(&self) -> (r: Self)
        ensures
            r.id == self.id,
            r.vector@ == self.vector@,
            r.payload == self.payload,
    {
        VectorListItem { id: self.id, vector: self.vector.clone(), payload: self.payload }
    }
}

/// The text `format!("{:?}", payload)` gives for an optional payload, or
/// `"None"` when there is none.
pub open spec fn payload_summary_spec(payload: Option<Payload>) -> Seq<char> {
    match payload {
        Some(_) => "Payload"@,
        None => "None"@,
    }
}

/// The texts of a sequence of strings.
pub open spec fn strings_view(s: Seq<String>) -> Seq<Seq<char>> {
    s.map_values(|t: String| t@)
}

/// The texts joined by `", "`.
pub open spec fn joined(s: Seq<Seq<char>>) -> Seq<char>
    decreases s.len(),
{
    if s.len() == 0 {
        Seq::empty()
    } else if s.len() == 1 {
        s[0]
    } else {
        joined(s.drop_last()) + ", "@ + s.last()
    }
}

/// What the list shows of a vector of `len` components whose first ones
/// read `shown`.
pub open spec fn snippet_spec(len: nat, shown: Seq<Seq<char>>) -> Seq<char> {
    if len == 0 {
        "[]"@
    } else if len > shown.len() {
        "["@ + joined(shown) + ", ...]"@
    } else {
        "["@ + joined(shown) + "]"@
    }
}

impl VectorListItem {
    /// The number of components.
    pub fn dims(&self) -> (r: usize)
        ensures
            r == self.vector@.len(),
    {
        self.vector.len()
    }

    /// The vector as the list shows it: the first `max_dims` components,
    /// written out by the caller in `shown` (two decimals each), joined by
    /// commas in brackets, with `...` when some were left out.
    pub fn snippet(&self, max_dims: usize, shown: &Vec<String>) -> (r: String)
        requires
            shown@.len() == (if self.vector@.len() < max_dims { self.vector@.len() } else { max_dims as nat }),
        ensures
            r@ == snippet_spec(self.vector@.len(), strings_view(shown@)),
    {
        if self.vector.len() == 0 {
            return String::from_str("[]");
        }
        let mut r = String::from_str("[");
        let mut i: usize = 0;
        while i < shown.len()
            invariant
                i <= shown@.len(),
                r@ == "["@ + joined(strings_view(shown@).take(i as int)),
            decreases shown@.len() - i,
        {
            if i > 0 {
                r.append(", ");
            }
            r.append(shown[i].as_str());
            proof {
                reveal_strlit(", ");
                let v = strings_view(shown@);
                assert(v.take(i + 1).drop_last() =~= v.take(i as int));
                assert(v.take(i + 1).last() == shown@[i as int]@);
            }
            i = i + 1;
        }
        assert(strings_view(shown@).take(shown@.len() as int) =~= strings_view(shown@));
        if self.vector.len() > shown.len() {
            r.append(", ...]");
        } else {
            r.append("]");
        }
        r
    }

    /// A one-word summary of the payload.
    pub fn payload_summary(&self) -> (r: String)
        ensures
            r@ == payload_summary_spec(self.payload),
    {
        match self.payload {
            Some(_) => String::from_str("Payload"),
            None => String::from_str("None"),
        }
    }
}

} // verus!

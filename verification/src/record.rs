use vstd::prelude::*;

verus! {

/// One quote record as stored in the external quotes database.
///
/// `id` is assigned by the store and unique there; `tags` is a free-form,
/// optional tag string. A record is immutable once read.
#[derive(Debug, Clone, PartialEq)]
pub struct Quote {
    pub id: i64,
    pub text: String,
    pub tags: Option<String>,
}

} // verus!

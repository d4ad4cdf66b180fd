//! A list of texts stored in one column of the document database.

use vstd::prelude::*;

verus! {

/// A list of texts.
#[derive(Debug)]
pub struct StringArray(pub Vec<String>);

/// A list of texts as stored in a text column.
#[derive(Debug)]
pub struct StringArrayWrapper(pub StringArray);

} // verus!

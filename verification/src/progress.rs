//! The progress page: which torrent's files are shown.

use vstd::prelude::*;

use crate::text::owned;

verus! {

/// The torrent whose content files the progress page lists: the only torrent
/// of the selection (given by torrent ids), none when several or none are
/// selected.
pub fn files_target(ids: &Vec<String>) -> (res: Option<String>)
    ensures
        ids@.len() == 1 ==> (res matches Some(id) && id@ == ids@[0]@),
        ids@.len() != 1 ==> res is None,
{
    if ids.len() == 1 {
        Some(owned(ids[0].as_str()))
    } else {
        None
    }
}

} // verus!

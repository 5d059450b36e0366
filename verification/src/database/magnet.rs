//! Uploaded magnets, as stored in the magnet table.

use vstd::prelude::*;

use crate::text::{owned, str_eq};
use crate::upload::{magnet_parse, parse_magnet};

verus! {

/// A stored magnet.
pub struct Model {
    pub id: i32,
    /// The torrent id (v1 hash, or v2 hash truncated to 40 characters)
    pub torrent_id: String,
    /// The magnet link
    pub link: String,
    pub name: String,
    pub resolved: bool,
}

/// A magnet to be stored.
pub struct NewMagnet {
    pub torrent_id: String,
    pub link: String,
    pub name: String,
    pub resolved: bool,
}

/// Why a magnet operation failed.
pub enum MagnetError {
    /// The magnet is invalid
    InvalidMagnet { source: hightorrent::MagnetLinkError },
    /// There is already a magnet with this torrent id
    TorrentIDTaken { torrent_id: String },
    /// Database error (its message)
    DB { reason: String },
    /// The magnet does not exist
    NotFound { id: i32 },
    /// Failed to save the operation log (its message)
    Logger { reason: String },
}

/// Whether a stored magnet has the torrent id `tid`.
pub open spec fn has_torrent_id(list: Seq<Model>, tid: Seq<char>) -> bool {
    exists|i: int| 0 <= i < list.len() && (#[trigger] list[i]).torrent_id@ == tid
}

/// Decides what storing the magnet link of `form` adds, given the stored
/// magnets: the link must parse, and its torrent id must be new. The new
/// magnet is not resolved yet.
pub fn create(form: &MagnetForm, existing: &Vec<Model>) -> (res: Result<NewMagnet, MagnetError>)
    ensures
        match magnet_parse(form.magnet@) {
            None => res matches Err(MagnetError::InvalidMagnet { .. }),
            Some(p) => if has_torrent_id(existing@, p.1) {
                res matches Err(MagnetError::TorrentIDTaken { torrent_id }) && torrent_id@ == p.1
            } else {
                res matches Ok(m) && m.torrent_id@ == p.1 && m.name@ == p.2 && m.link@ == form.magnet@ && !m.resolved
            },
        },
{
    match parse_magnet(form.magnet.as_str()) {
        Err(e) => Err(MagnetError::InvalidMagnet { source: e }),
        Ok((_hash, tid, name)) => {
            let mut i: usize = 0;
            while i < existing.len()
                invariant
                    i <= existing@.len(),
                    magnet_parse(form.magnet@) is Some,
                    tid@ == magnet_parse(form.magnet@).unwrap().1,
                    forall|j: int| 0 <= j < i ==> (#[trigger] existing@[j]).torrent_id@ != tid@,
                decreases existing@.len() - i,
            {
                if str_eq(existing[i].torrent_id.as_str(), tid.as_str()) {
                    assert(existing@[i as int].torrent_id@ == tid@);
                    return Err(MagnetError::TorrentIDTaken { torrent_id: tid });
                }
                i = i + 1;
            }
            Ok(NewMagnet { torrent_id: tid, link: owned(form.magnet.as_str()), name, resolved: false })
        },
    }
}

/// The magnet `id` as looked up: a missing row is `NotFound`.
pub fn found(id: i32, row: Option<Model>) -> (res: Result<Model, MagnetError>)
    ensures
        match row {
            Some(m) => res == Ok::<Model, MagnetError>(m),
            None => res matches Err(MagnetError::NotFound { id: i }) && i == id,
        },
{
    match row {
        Some(m) => Ok(m),
        None => Err(MagnetError::NotFound { id }),
    }
}

/// The resolved magnets of `list`, in order.
pub fn resolved_list_unimported(list: Vec<Model>) -> (res: Vec<Model>)
    ensures
        res@ == list@.filter(|m: Model| m.resolved),
{
    let mut out: Vec<Model> = Vec::new();
    let total = list.len();
    let mut rest = list;
    let ghost all = rest@;
    assert(all.subrange(0, 0).filter(|m: Model| m.resolved) =~= Seq::<Model>::empty());
    let mut k: usize = 0;
    while rest.len() > 0
        invariant
            all == list@,
            total == all.len(),
            k + rest@.len() == all.len(),
            rest@ == all.subrange(k as int, all.len() as int),
            out@ == all.subrange(0, k as int).filter(|m: Model| m.resolved),
        decreases rest@.len(),
    {
        let m = rest.remove(0);
        assert(m == all[k as int]);
        let ghost pre = all.subrange(0, k as int);
        assert(all.subrange(0, k + 1) == pre.push(m));
        reveal(Seq::filter);
        assert(pre.push(m).drop_last() == pre);
        if m.resolved {
            out.push(m);
        }
        k = k + 1;
    }
    assert(all.subrange(0, all.len() as int) == all);
    out
}


/// The table an operation was made on.
#[derive(Clone, Copy, Debug, PartialEq, Eq, Structural)]
pub enum Table {
    Magnet,
}

/// The kind of an operation.
#[derive(Clone, Copy, Debug, PartialEq, Eq, Structural)]
pub enum OperationType {
    Create,
    Delete,
}

/// The object an operation was made on: its id and name.
pub struct OperationId {
    pub object_id: i32,
    pub name: String,
}

/// The form submitted to add a magnet.
pub struct MagnetForm {
    pub magnet: String,
}

/// The form an operation was made from.
pub enum Operation {
    Magnet(MagnetForm),
}

/// An entry of the operation log.
pub struct OperationLog {
    /// The user who made the operation, if logged in.
    pub user: Option<String>,
    /// When the operation was made.
    pub date: String,
    pub table: Table,
    pub operation: OperationType,
    pub operation_id: OperationId,
    /// The submitted form, for a creation.
    pub operation_form: Option<Operation>,
}

/// The log entry of storing the magnet `model` from `form`, by `user` at `date`.
pub fn created_log(model: &Model, form: &MagnetForm, user: Option<String>, date: String) -> (res: OperationLog)
    ensures
        res.user == user,
        res.date == date,
        res.table == Table::Magnet,
        res.operation == OperationType::Create,
        res.operation_id.object_id == model.id,
        res.operation_id.name == model.name,
        res.operation_form matches Some(Operation::Magnet(f)) && f.magnet == form.magnet,
{
    OperationLog {
        user,
        date,
        table: Table::Magnet,
        operation: OperationType::Create,
        operation_id: OperationId { object_id: model.id, name: model.name.clone() },
        operation_form: Some(Operation::Magnet(MagnetForm { magnet: form.magnet.clone() })),
    }
}

/// Deleting the magnet `id`, given its row as looked up: a missing row is
/// `NotFound`; otherwise the deleted magnet's name and the log entry of the
/// deletion, by `user` at `date`.
pub fn deleted(id: i32, row: Option<Model>, user: Option<String>, date: String) -> (res: Result<(String, OperationLog), MagnetError>)
    ensures
        match row {
            None => res matches Err(MagnetError::NotFound { id: i }) && i == id,
            Some(m) => res matches Ok((name, log)) && name == m.name && log.user == user && log.date == date
                && log.table == Table::Magnet && log.operation == OperationType::Delete
                && log.operation_id.object_id == m.id && log.operation_id.name == m.name
                && log.operation_form is None,
        },
{
    match found(id, row) {
        Err(e) => Err(e),
        Ok(m) => {
            let log = OperationLog {
                user,
                date,
                table: Table::Magnet,
                operation: OperationType::Delete,
                operation_id: OperationId { object_id: m.id, name: m.name.clone() },
                operation_form: None,
            };
            Ok((m.name, log))
        },
    }
}

} // verus!

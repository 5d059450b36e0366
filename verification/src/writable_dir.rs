//! Deciding whether a path is a writable directory, from what the file
//! system reported about it.

use vstd::prelude::*;

use crate::text::{concatenated, owned};

verus! {

/// Why a symlink could not be followed to a writable directory.
pub enum SymlinkCause {
    /// Resolving the symlink failed (the I/O error message).
    Resolve { reason: String },
    /// The resolved path is not a writable directory.
    Target { source: Box<WritableDirError> },
}

/// Why a path is not a writable directory, or writing into it failed.
pub enum WritableDirError {
    /// Directory does not exist
    Missing { path: String },
    /// Symlink to a directory that does not exist, is not a directory, or is not writable
    Symlink { path: String, source: SymlinkCause },
    /// Write permission denied to directory
    Write { path: String },
    /// Not a directory or symlink
    Type { path: String },
    /// Writing to a file failed (the I/O error message)
    File { path: String, reason: String },
    /// Reading the permissions failed (the I/O error message)
    Unknown { path: String, reason: String },
}

/// What the file system reported about a path.
pub enum ProbeKind {
    /// A symlink, with the probe of its canonical target, or the error of resolving it.
    Symlink { resolved: Result<Box<DirProbe>, String> },
    /// A directory, with whether its permissions allow writing, or the error reading them.
    Dir { writable: Result<bool, String> },
    /// Something that exists but is neither a directory nor a symlink.
    Other,
    /// Nothing exists at the path.
    Missing,
}

/// A path with what the file system reported about it.
pub struct DirProbe {
    pub path: String,
    pub kind: ProbeKind,
}

/// The verdict of [`ensure_writable_dir`] on a probe: symlinks are followed,
/// and a failure behind a symlink is reported as a symlink error around the
/// target's error.
pub open spec fn writable_verdict(p: DirProbe) -> Result<(), WritableDirError>
    decreases p,
{
    match p.kind {
        ProbeKind::Symlink { resolved } => match resolved {
            Ok(q) => match writable_verdict(*q) {
                Ok(()) => Ok(()),
                Err(e) => Err(
                    WritableDirError::Symlink {
                        path: p.path,
                        source: SymlinkCause::Target { source: Box::new(e) },
                    },
                ),
            },
            Err(reason) => Err(
                WritableDirError::Symlink { path: p.path, source: SymlinkCause::Resolve { reason } },
            ),
        },
        ProbeKind::Dir { writable } => match writable {
            Ok(true) => Ok(()),
            Ok(false) => Err(WritableDirError::Write { path: p.path }),
            Err(reason) => Err(WritableDirError::Unknown { path: p.path, reason }),
        },
        ProbeKind::Other => Err(WritableDirError::Type { path: p.path }),
        ProbeKind::Missing => Err(WritableDirError::Missing { path: p.path }),
    }
}

/// Ensures the probed path is a writable directory, following symlinks.
pub fn ensure_writable_dir(probe: &DirProbe) -> (res: Result<(), WritableDirError>)
    ensures
        res == writable_verdict(*probe),
    decreases probe,
{
    match &probe.kind {
        ProbeKind::Symlink { resolved } => match resolved {
            Ok(q) => match ensure_writable_dir(q) {
                Ok(()) => Ok(()),
                Err(e) => Err(
                    WritableDirError::Symlink {
                        path: probe.path.clone(),
                        source: SymlinkCause::Target { source: Box::new(e) },
                    },
                ),
            },
            Err(reason) => Err(
                WritableDirError::Symlink {
                    path: probe.path.clone(),
                    source: SymlinkCause::Resolve { reason: reason.clone() },
                },
            ),
        },
        ProbeKind::Dir { writable } => match writable {
            Ok(true) => Ok(()),
            Ok(false) => Err(WritableDirError::Write { path: probe.path.clone() }),
            Err(reason) => Err(WritableDirError::Unknown { path: probe.path.clone(), reason: reason.clone() }),
        },
        ProbeKind::Other => Err(WritableDirError::Type { path: probe.path.clone() }),
        ProbeKind::Missing => Err(WritableDirError::Missing { path: probe.path.clone() }),
    }
}

/// The error reported when writing the file `path` failed with `reason`:
/// the parent directory's own problem when it has one; when the directory
/// is writable, an unknown error at `path` carrying `reason`.
pub fn failed_write_error(path: String, reason: String, parent: Result<(), WritableDirError>) -> (res: WritableDirError)
    ensures
        match parent {
            Err(e) => res == e,
            Ok(()) => res == WritableDirError::Unknown { path, reason },
        },
{
    match parent {
        Err(e) => e,
        Ok(()) => WritableDirError::Unknown { path, reason },
    }
}


/// The message of a [`WritableDirError`].
pub open spec fn writable_dir_text(e: WritableDirError) -> Seq<char>
    decreases e,
{
    match e {
        WritableDirError::Missing { path } => "Directory "@ + path@ + " does not exist"@,
        WritableDirError::Symlink { path, source } => "Symlink "@ + path@
            + " to a directory that does not exist, ir not a directory, or is not writable: "@ + match source {
            SymlinkCause::Resolve { reason } => reason@,
            SymlinkCause::Target { source } => writable_dir_text(*source),
        },
        WritableDirError::Write { path } => "Write permission denied to directory "@ + path@,
        WritableDirError::Type { path } => "Not a directory or symlink: "@ + path@,
        WritableDirError::File { path, reason } => "Writing to file failed: "@ + path@,
        WritableDirError::Unknown { path, reason } => "An unknown error occurred with "@ + path@ + ": "@ + reason@,
    }
}

impl WritableDirError {
    /// The message shown for this error.
    pub fn message(&self) -> (res: String)
        ensures
            res@ == writable_dir_text(*self),
        decreases self,
    {
        match self {
            WritableDirError::Missing { path } => {
                let a = concatenated("Directory ", path.as_str());
                concatenated(a.as_str(), " does not exist")
            },
            WritableDirError::Symlink { path, source } => {
                let a = concatenated("Symlink ", path.as_str());
                let b = concatenated(
                    a.as_str(),
                    " to a directory that does not exist, ir not a directory, or is not writable: ",
                );
                let cause = match source {
                    SymlinkCause::Resolve { reason } => owned(reason.as_str()),
                    SymlinkCause::Target { source } => source.message(),
                };
                concatenated(b.as_str(), cause.as_str())
            },
            WritableDirError::Write { path } => concatenated("Write permission denied to directory ", path.as_str()),
            WritableDirError::Type { path } => concatenated("Not a directory or symlink: ", path.as_str()),
            WritableDirError::File { path, reason } => concatenated("Writing to file failed: ", path.as_str()),
            WritableDirError::Unknown { path, reason } => {
                let a = concatenated("An unknown error occurred with ", path.as_str());
                let b = concatenated(a.as_str(), ": ");
                concatenated(b.as_str(), reason.as_str())
            },
        }
    }
}


/// The probe at the end of the chain of resolved symlinks starting at `p`.
pub open spec fn chain_end(p: DirProbe) -> DirProbe
    decreases p,
{
    match p.kind {
        ProbeKind::Symlink { resolved: Ok(q) } => chain_end(*q),
        _ => p,
    }
}

/// Law: a path is accepted exactly when, following its resolved symlinks,
/// it ends at a directory whose permissions allow writing. A symlink that
/// cannot be resolved, or whose target is refused, is refused.
pub proof fn lemma_accepted_iff_writable_dir(p: DirProbe)
    ensures
        writable_verdict(p) is Ok <==> chain_end(p).kind == (ProbeKind::Dir { writable: Ok(true) }),
    decreases p,
{
    match p.kind {
        ProbeKind::Symlink { resolved } => match resolved {
            Ok(q) => {
                lemma_accepted_iff_writable_dir(*q);
            },
            Err(_) => {},
        },
        _ => {},
    }
}

/// Law: a refused symlink is reported as a symlink error at its own path.
pub proof fn lemma_symlink_refusal_names_link(p: DirProbe)
    requires
        p.kind is Symlink,
        writable_verdict(p) is Err,
    ensures
        writable_verdict(p) matches Err(WritableDirError::Symlink { path, .. }) && path == p.path,
{
}

} // verus!

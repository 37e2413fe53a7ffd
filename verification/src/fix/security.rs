//! The check that a script rule file passes before any of its code runs: it
//! must belong to the user who runs the tool, and nobody else may be able to
//! write to it.
use vstd::prelude::*;
use vstd::string::StringExecFns;
use crate::error::{AppError, AppResult};
use crate::text::{decimal, push_decimal};

verus! {

/// What the file system says of a rule file: the user who owns it and its
/// permission bits.
#[derive(Debug, Clone, Copy, PartialEq, Eq, Structural)]
pub struct FileMeta {
    pub uid: u32,
    pub mode: u32,
}

/// The permission bits that let the group or others write.
pub const WRITE_BY_OTHERS: u32 = 0o022;

/// Why a rule file is turned away.
#[derive(Debug, Clone, Copy, PartialEq, Eq, Structural)]
pub enum Denial {
    /// The file belongs to another user than the one who runs the tool.
    ForeignOwner,
    /// The group or others may write to the file.
    WritableByOthers,
}

/// Whether a file with `meta` may run for the user `current_uid`, and if not,
/// why. Ownership is looked at first.
pub open spec fn denial(meta: FileMeta, current_uid: u32) -> Option<Denial> {
    if meta.uid != current_uid {
        Some(Denial::ForeignOwner)
    } else if meta.mode & WRITE_BY_OTHERS != 0 {
        Some(Denial::WritableByOthers)
    } else {
        None
    }
}

/// What the user is told of a file that belongs to someone else.
pub open spec fn foreign_owner_message(current_uid: u32, path: Seq<char>, file_uid: u32) -> Seq<
    char,
> {
    "SECURITY ERROR: Running with UID "@ + decimal(current_uid as nat) + ", but file '"@ + path
        + "' is owned by UID "@ + decimal(file_uid as nat) + "."@
}

/// What the user is told of a file that others may write to.
pub open spec fn writable_message(path: Seq<char>) -> Seq<char> {
    "SECURITY ERROR: Python rule '"@ + path + "' is writable by non-owners."@
}

/// Whether `verdict` is the one that the security check gives for the file at `path`.
pub open spec fn is_verdict(
    verdict: AppResult<()>,
    path: Seq<char>,
    stat: Result<FileMeta, std::io::Error>,
    current_uid: u32,
) -> bool {
    match stat {
        Err(error) => verdict == Err::<(), AppError>(AppError::Io(error)),
        Ok(meta) => match denial(meta, current_uid) {
            Some(Denial::ForeignOwner) => verdict matches Err(AppError::Security(message))
                && message@ == foreign_owner_message(current_uid, path, meta.uid),
            Some(Denial::WritableByOthers) => verdict matches Err(AppError::Security(message))
                && message@ == writable_message(path),
            None => verdict is Ok,
        },
    }
}

/// Whether a file passes the security check: its metadata could be read and gives no
/// reason to turn it away.
pub open spec fn is_allowed(stat: Result<FileMeta, std::io::Error>, current_uid: u32) -> bool {
    stat matches Ok(meta) && denial(meta, current_uid) is None
}

/// Whether the rule file at `path` is safe to run. `stat` is what reading
/// the file's metadata gave, `current_uid` the effective user of the process.
///
/// A file whose metadata could not be read is turned away with that error. A
/// file owned by another user is turned away whatever its permissions, and a
/// file that the group or others may write to is turned away whoever owns it.
pub fn check_security(path: &str, stat: Result<FileMeta, std::io::Error>, current_uid: u32) -> (verdict:
    AppResult<()>)
    ensures
        is_verdict(verdict, path@, stat, current_uid),
        verdict is Ok <==> is_allowed(stat, current_uid),
{
    let meta = match stat {
        Ok(meta) => meta,
        Err(error) => {
            return Err(AppError::Io(error));
        },
    };
    if current_uid != meta.uid {
        let mut message = "SECURITY ERROR: Running with UID ".to_owned();
        push_decimal(&mut message, current_uid);
        message.append(", but file '");
        message.append(path);
        message.append("' is owned by UID ");
        push_decimal(&mut message, meta.uid);
        message.append(".");
        return Err(AppError::Security(message));
    }
    if meta.mode & WRITE_BY_OTHERS != 0 {
        let mut message = "SECURITY ERROR: Python rule '".to_owned();
        message.append(path);
        message.append("' is writable by non-owners.");
        return Err(AppError::Security(message));
    }
    Ok(())
}

/// A rule file that belongs to another user is turned away, whatever its
/// permission bits are.
pub proof fn lemma_foreign_owner_is_denied(meta: FileMeta, current_uid: u32)
    requires
        meta.uid != current_uid,
    ensures
        denial(meta, current_uid) == Some(Denial::ForeignOwner),
{
}

/// A rule file that its group or others may write to is turned away, whoever
/// owns it.
pub proof fn lemma_writable_by_others_is_denied(meta: FileMeta, current_uid: u32)
    requires
        meta.mode & 0o020 != 0 || meta.mode & 0o002 != 0,
    ensures
        denial(meta, current_uid) is Some,
{
    let mode = meta.mode;
    assert(mode & 0o020 != 0 || mode & 0o002 != 0 ==> mode & 0o022 != 0) by (bit_vector);
}

/// A rule file passes exactly where it belongs to the current user and
/// neither its group nor others may write to it.
pub proof fn lemma_allowed_exactly_when_private(meta: FileMeta, current_uid: u32)
    ensures
        denial(meta, current_uid) is None <==> (meta.uid == current_uid && meta.mode & 0o020 == 0
            && meta.mode & 0o002 == 0),
{
    let mode = meta.mode;
    assert((mode & 0o020 != 0 || mode & 0o002 != 0) <==> mode & 0o022 != 0) by (bit_vector);
}

} // verus!

//! A small library for appending timestamped error messages to a log file.
//!
//! A raw path string is validated to carry the designated log extension,
//! the parent directory and the file are created on first use, and each
//! message is appended as one line of the form `<seconds> - <message>`,
//! where `<seconds>` counts whole seconds since the epoch.  A calendar
//! rendering of the timestamp is deliberately not attempted: the raw
//! seconds count is written instead.
//!
//! The update is a whole-file rewrite — read everything, join the new
//! entry, write everything back — and the joining rule always inserts a
//! separating newline, so consecutive entries are parted by a blank line.
//! No locking is provided: concurrent writers may lose entries.
//!
//! The file-system steps are specified and verified against
//! [`fsmodel::FsState`], an explicit model of the slice of the file system
//! that logging touches; a caller that wants the ambient file system drives
//! the same validated path, joining rule and rendered timestamp through
//! real file-system calls.

use vstd::prelude::*;

pub mod entry;
pub mod error;
pub mod fsmodel;
pub mod path;

pub use entry::appended_content;
pub use entry::build_entry;
pub use entry::decimal_of;
pub use entry::decimal_string;
pub use error::BadExtensionError;
pub use error::FileNameError;
pub use error::LogError;
pub use fsmodel::FsState;
pub use path::LogPath;
pub use path::create_path_from_str;
pub use path::file_name_of;
pub use path::parent_of;
pub use path::valid_log_path;

use entry::now_seconds;
use path::lemma_valid_path_not_parent;

verus! {

/// Success condition of the directory step for the file path `p`: the parent
/// directory already exists, or it can be created because its own parent
/// exists and no file stands in its place.  Exactly one missing level is
/// ever created.
pub open spec fn dir_step_ok(fs: FsState, p: Seq<char>) -> bool {
    ||| fs.dirs().contains(parent_of(p))
    ||| (fs.dirs().contains(parent_of(parent_of(p))) && !fs.files().contains_key(parent_of(p)))
}

/// Success condition of the file step: the file or a directory already
/// stands at `p`, or the parent directory exists so an empty file can be
/// created.
pub open spec fn file_step_ok(fs: FsState, p: Seq<char>) -> bool {
    ||| fs.files().contains_key(p)
    ||| fs.dirs().contains(p)
    ||| fs.dirs().contains(parent_of(p))
}

/// Success condition of the append step: the file exists, and it can be
/// written back in place because its parent directory exists and no
/// directory stands at `p`.
pub open spec fn append_step_ok(fs: FsState, p: Seq<char>) -> bool {
    fs.files().contains_key(p) && fs.dirs().contains(parent_of(p)) && !fs.dirs().contains(p)
}

/// The file content in force before a log call: the current content, or
/// empty when the file does not exist yet.
pub open spec fn content_before(fs: FsState, p: Seq<char>) -> Seq<char> {
    if fs.files().contains_key(p) {
        fs.files()[p]
    } else {
        Seq::empty()
    }
}

/// Success condition of a whole log call on the state `fs`: the raw path is
/// valid, the directory step can succeed, and no directory stands where the
/// file belongs.
pub open spec fn log_ok(fs: FsState, p: Seq<char>) -> bool {
    valid_log_path(p) && dir_step_ok(fs, p) && !fs.dirs().contains(p)
}

/// How a successful append at timestamp `ts` changes the state: the file at
/// `p` holds its prior content with one entry joined on, and directories are
/// untouched.
pub open spec fn append_post(pre: FsState, post: FsState, p: Seq<char>, msg: Seq<char>, ts: u64) -> bool {
    &&& post.files() == pre.files().insert(
        p,
        appended_content(content_before(pre, p), ts as nat, msg),
    )
    &&& post.dirs() == pre.dirs()
}

/// How a successful whole log call at timestamp `ts` changes the state: the
/// parent directory exists afterwards, and the file at `p` holds its prior
/// content (empty when it was absent) with one entry joined on.
pub open spec fn log_post(pre: FsState, post: FsState, p: Seq<char>, msg: Seq<char>, ts: u64) -> bool {
    &&& post.dirs() == pre.dirs().insert(parent_of(p))
    &&& post.files() == pre.files().insert(
        p,
        appended_content(content_before(pre, p), ts as nat, msg),
    )
}

/// Law: the directory step is idempotent.  When it succeeds once — turning
/// the state `pre` into `mid`, by [`check_or_make_directory`]'s contract —
/// running it again on `mid` succeeds too and leaves the directory state
/// exactly as it was.
pub proof fn lemma_directory_step_idempotent(pre: FsState, mid: FsState, p: Seq<char>)
    requires
        dir_step_ok(pre, p),
        mid.dirs() == pre.dirs().insert(parent_of(p)),
        mid.files() == pre.files(),
    ensures
        dir_step_ok(mid, p),
        mid.dirs().insert(parent_of(p)) == mid.dirs(),
{
    assert(mid.dirs().insert(parent_of(p)) =~= mid.dirs());
}

/// Law: the directory step fails when more than one ancestor level is
/// missing — when neither the parent directory nor the parent's own parent
/// exists, [`check_or_make_directory`] reports an error.
pub proof fn lemma_directory_step_two_levels_missing(fs: FsState, p: Seq<char>)
    requires
        !fs.dirs().contains(parent_of(p)),
        !fs.dirs().contains(parent_of(parent_of(p))),
    ensures
        !dir_step_ok(fs, p),
{
}

/// Law: the file step is idempotent.  A first run on a missing path creates
/// the file empty — turning `pre` into `mid`, by [`check_or_make_log`]'s
/// contract — and a second run on `mid` finds the file, succeeds, and by the
/// same contract changes nothing, so the content is still empty after both.
pub proof fn lemma_file_step_idempotent(pre: FsState, mid: FsState, p: Seq<char>)
    requires
        !pre.files().contains_key(p),
        !pre.dirs().contains(p),
        pre.dirs().contains(parent_of(p)),
        mid.files() == pre.files().insert(p, Seq::<char>::empty()),
        mid.dirs() == pre.dirs(),
    ensures
        file_step_ok(pre, p),
        file_step_ok(mid, p),
        mid.files().contains_key(p),
        mid.files()[p] == Seq::<char>::empty(),
{
}

/// Law: the append step fails when the target file does not exist, so
/// [`append_log_at`] and [`append_log`] report an error there.
pub proof fn lemma_append_needs_file(fs: FsState, p: Seq<char>)
    requires
        !fs.files().contains_key(p),
    ensures
        !append_step_ok(fs, p),
{
}

/// Ensures the parent directory of `path` exists, creating exactly one
/// missing level; a deeper chain of missing ancestors is an error.
pub fn check_or_make_directory(fs: &mut FsState, path: &LogPath) -> (r: Result<(), LogError>)
    ensures
        r is Ok <==> dir_step_ok(*old(fs), path@),
        r is Ok ==> final(fs).dirs() == old(fs).dirs().insert(parent_of(path@))
            && final(fs).files() == old(fs).files(),
        r is Err ==> *final(fs) == *old(fs) && r->Err_0 is IoError,
{
    let parent = path.parent();
    if fs.is_dir(parent.as_str()) {
        proof {
            assert(fs.dirs().insert(parent_of(path@)) =~= fs.dirs());
        }
        Ok(())
    } else if fs.create_dir(parent.as_str()) {
        Ok(())
    } else {
        Err(LogError::IoError("could not create the parent directory".to_owned()))
    }
}

/// Ensures the log file itself exists, creating it empty when nothing
/// stands at its path.
pub fn check_or_make_log(fs: &mut FsState, path: &LogPath) -> (r: Result<(), LogError>)
    ensures
        r is Ok <==> file_step_ok(*old(fs), path@),
        old(fs).files().contains_key(path@) || old(fs).dirs().contains(path@) ==> *final(fs)
            == *old(fs),
        r is Ok && !old(fs).files().contains_key(path@) && !old(fs).dirs().contains(path@)
            ==> final(fs).files() == old(fs).files().insert(path@, Seq::<char>::empty())
            && final(fs).dirs() == old(fs).dirs(),
        r is Err ==> *final(fs) == *old(fs) && r->Err_0 is IoError,
{
    if fs.path_exists(path.as_str()) {
        Ok(())
    } else if fs.create_file(path.as_str()) {
        Ok(())
    } else {
        Err(LogError::IoError("could not create the log file".to_owned()))
    }
}

/// Appends one entry stamped with the given seconds count: reads the whole
/// current content, joins the new entry, and writes the whole result back.
/// The file must already exist; a missing file is an error and the state is
/// left as it was.
pub fn append_log_at(fs: &mut FsState, path: &LogPath, error: &str, seconds: u64) -> (r: Result<
    (),
    LogError,
>)
    ensures
        r is Ok <==> append_step_ok(*old(fs), path@),
        r is Ok ==> append_post(*old(fs), *final(fs), path@, error@, seconds),
        r is Err ==> *final(fs) == *old(fs) && r->Err_0 is IoError,
{
    let current = match fs.read_file(path.as_str()) {
        Some(c) => c,
        None => {
            return Err(LogError::IoError("could not read the log file".to_owned()));
        },
    };
    let updated = build_entry(current.as_str(), seconds, error);
    if fs.write_file(path.as_str(), updated.as_str()) {
        Ok(())
    } else {
        Err(LogError::IoError("could not write the log file".to_owned()))
    }
}

/// Appends one entry stamped with the system clock.  A clock that reads
/// earlier than the epoch is an error, reported before anything is touched.
pub fn append_log(fs: &mut FsState, path: &LogPath, error: &str) -> (r: Result<(), LogError>)
    ensures
        r is Ok ==> append_step_ok(*old(fs), path@) && exists|ts: u64|
            append_post(*old(fs), *final(fs), path@, error@, ts),
        !old(fs).files().contains_key(path@) ==> r is Err,
        r is Err ==> *final(fs) == *old(fs) && r->Err_0 is IoError,
{
    let seconds = match now_seconds() {
        Some(s) => s,
        None => {
            return Err(LogError::IoError("could not read the system clock".to_owned()));
        },
    };
    let r = append_log_at(fs, path, error, seconds);
    proof {
        if r is Ok {
            assert(append_post(*old(fs), *fs, path@, error@, seconds));
        }
    }
    r
}

/// Logs `error` to the file named by `path`, stamped with the given seconds
/// count: validate the path, ensure the parent directory, ensure the file,
/// append one entry.  The first failing step reports its error unchanged;
/// an invalid path touches nothing.
pub fn errlog_at(fs: &mut FsState, path: &str, error: &str, seconds: u64) -> (r: Result<
    (),
    LogError,
>)
    ensures
        r is Ok <==> log_ok(*old(fs), path@),
        r is Ok ==> log_post(*old(fs), *final(fs), path@, error@, seconds),
        !valid_log_path(path@) ==> (r matches Err(e) && e is InvalidExtension) && *final(fs)
            == *old(fs),
        valid_log_path(path@) && !dir_step_ok(*old(fs), path@) ==> (r matches Err(e)
            && e is IoError) && *final(fs) == *old(fs),
        valid_log_path(path@) && dir_step_ok(*old(fs), path@) && old(fs).dirs().contains(path@)
            ==> (r matches Err(e) && e is IoError)
            && final(fs).dirs() == old(fs).dirs().insert(parent_of(path@))
            && final(fs).files() == old(fs).files(),
{
    let lp = match create_path_from_str(path) {
        Ok(l) => l,
        Err(e) => {
            return Err(e);
        },
    };
    match check_or_make_directory(fs, &lp) {
        Ok(_) => {},
        Err(e) => {
            return Err(e);
        },
    }
    proof {
        lemma_valid_path_not_parent(path@);
    }
    match check_or_make_log(fs, &lp) {
        Ok(_) => {},
        Err(e) => {
            return Err(e);
        },
    }
    let r = append_log_at(fs, &lp, error, seconds);
    proof {
        if r is Ok {
            assert(fs.files() =~= old(fs).files().insert(
                path@,
                appended_content(content_before(*old(fs), path@), seconds as nat, error@),
            ));
        }
    }
    r
}

/// Logs `error` to the file named by `path`, stamped with the system clock:
/// validate the path, ensure the parent directory, ensure the file, append
/// one entry.  The first failing step reports its error unchanged; an
/// invalid path touches nothing.  Timestamps are in relation to the epoch.
pub fn errlog(fs: &mut FsState, path: &str, error: String) -> (r: Result<(), LogError>)
    ensures
        r is Ok ==> log_ok(*old(fs), path@) && exists|ts: u64|
            log_post(*old(fs), *final(fs), path@, error@, ts),
        !valid_log_path(path@) ==> (r matches Err(e) && e is InvalidExtension) && *final(fs)
            == *old(fs),
        valid_log_path(path@) && !dir_step_ok(*old(fs), path@) ==> (r matches Err(e)
            && e is IoError) && *final(fs) == *old(fs),
        valid_log_path(path@) && r is Err ==> r->Err_0 is IoError,
        r is Err ==> (final(fs).dirs() == old(fs).dirs()
            || final(fs).dirs() == old(fs).dirs().insert(parent_of(path@)))
            && (final(fs).files() == old(fs).files()
            || final(fs).files() == old(fs).files().insert(path@, content_before(*old(fs), path@))),
{
    let lp = match create_path_from_str(path) {
        Ok(l) => l,
        Err(e) => {
            return Err(e);
        },
    };
    match check_or_make_directory(fs, &lp) {
        Ok(_) => {},
        Err(e) => {
            return Err(e);
        },
    }
    proof {
        lemma_valid_path_not_parent(path@);
    }
    match check_or_make_log(fs, &lp) {
        Ok(_) => {},
        Err(e) => {
            return Err(e);
        },
    }
    proof {
        if !old(fs).files().contains_key(path@) && !old(fs).dirs().contains(path@) {
            assert(fs.files() =~= old(fs).files().insert(path@, content_before(*old(fs), path@)));
        }
    }
    let ghost mid = *fs;
    let r = append_log(fs, &lp, error.as_str());
    proof {
        if r is Ok {
            let ts = choose|ts: u64| append_post(mid, *fs, path@, error@, ts);
            assert(fs.files() =~= old(fs).files().insert(
                path@,
                appended_content(content_before(*old(fs), path@), ts as nat, error@),
            ));
            assert(log_post(*old(fs), *fs, path@, error@, ts));
        }
    }
    r
}

} // verus!

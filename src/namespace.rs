//! The decisions that the filesystem-namespace adapter takes around the
//! backend's own calls: which errors to raise before or after them, and
//! how to describe an entry.
use vstd::prelude::*;
use vstd::string::StrSliceExecFns;
use crate::errors::{describes_itself, kind_of, Error, ErrorKind, FSError, Fault, FaultCode};
use crate::mode::Mode;

verus! {

/// The kind of a resource in a filesystem namespace.
#[derive(Clone, Copy, Debug, PartialEq, Eq, Structural)]
pub enum ResourceType {
    Unknown,
    Directory,
    File,
    Character,
    BlockSpecialFile,
    Fifo,
    Socket,
    Symlink,
}

impl ResourceType {
    /// The type of an entry of this store, which holds only files and
    /// directories.
    pub fn of_entry(is_dir: bool) -> (t: ResourceType)
        ensures
            t == (if is_dir { ResourceType::Directory } else { ResourceType::File }),
    {
        if is_dir {
            ResourceType::Directory
        } else {
            ResourceType::File
        }
    }

    /// The numeric code of the type, in declaration order from zero.
    pub fn code(&self) -> (c: u32)
        ensures
            c == resource_code(*self),
    {
        match self {
            ResourceType::Unknown => 0,
            ResourceType::Directory => 1,
            ResourceType::File => 2,
            ResourceType::Character => 3,
            ResourceType::BlockSpecialFile => 4,
            ResourceType::Fifo => 5,
            ResourceType::Socket => 6,
            ResourceType::Symlink => 7,
        }
    }
}

pub open spec fn resource_code(t: ResourceType) -> u32 {
    match t {
        ResourceType::Unknown => 0,
        ResourceType::Directory => 1,
        ResourceType::File => 2,
        ResourceType::Character => 3,
        ResourceType::BlockSpecialFile => 4,
        ResourceType::Fifo => 5,
        ResourceType::Socket => 6,
        ResourceType::Symlink => 7,
    }
}

/// `path` with one trailing `/` removed, if it has one.
pub open spec fn trimmed(path: Seq<char>) -> Seq<char> {
    if path.len() > 0 && path.last() == '/' {
        path.drop_last()
    } else {
        path
    }
}

/// `name` is what follows the last `/` of `t`, or all of `t` where there
/// is none.
pub open spec fn is_last_component(t: Seq<char>, name: Seq<char>) -> bool {
    exists|i: int|
        #![trigger t.subrange(i, t.len() as int)]
        {
            &&& 0 <= i <= t.len()
            &&& i == 0 || t[i - 1] == '/'
            &&& forall|j: int| i <= j < t.len() ==> t[j] != '/'
            &&& name == t.subrange(i, t.len() as int)
        }
}

/// The name of the entry at `path`: its last component, a trailing `/`
/// aside.
pub fn base_name(path: &str) -> (name: String)
    ensures
        is_last_component(trimmed(path@), name@),
{
    let mut end = path.unicode_len();
    if end > 0 && path.get_char(end - 1) == '/' {
        end = end - 1;
    }
    let ghost t = trimmed(path@);
    assert(t =~= path@.subrange(0, end as int));
    let mut i = end;
    while i > 0 && path.get_char(i - 1) != '/'
        invariant
            i <= end,
            end <= path@.len(),
            t =~= path@.subrange(0, end as int),
            forall|j: int| i <= j < end ==> path@[j] != '/',
        decreases i,
    {
        i = i - 1;
    }
    let name = path.substring_char(i, end).to_owned();
    assert(name@ =~= t.subrange(i as int, t.len() as int));
    name
}

/// Refuses to open a path that does not exist unless the mode may create
/// it.
pub fn check_open_target(mode: &Mode, path: &str, exists: bool) -> (r: Result<(), Error>)
    ensures
        r is Err <==> !mode.create && !exists,
        r matches Err(e) ==> e.kind == ErrorKind::NotFound && e.message@ == path@,
{
    if !mode.create && !exists {
        Err(Error::new(ErrorKind::NotFound, path))
    } else {
        Ok(())
    }
}

/// The error that a backend fault about `path` surfaces as.
pub fn path_error(fault: Fault, path: &str) -> (e: Error)
    ensures
        e.kind == kind_of(fault.code),
        e.message@ == (if describes_itself(fault.code) { fault.description@ } else { path@ }),
{
    FSError::with_path(fault, path.to_owned()).categorize()
}

/// The error that a fault from opening `path` surfaces as. A target that
/// is "not a directory" there means a parent along the path is not one,
/// so the path does not resolve.
pub fn open_error(fault: Fault, path: &str) -> (e: Error)
    ensures
        fault.code == FaultCode::NotDir ==> e.kind == ErrorKind::NotFound && e.message@ == path@,
        fault.code != FaultCode::NotDir ==> e.kind == kind_of(fault.code)
            && e.message@ == (if describes_itself(fault.code) { fault.description@ } else { path@ }),
{
    if fault.code == FaultCode::NotDir {
        path_error(Fault { code: FaultCode::ParentNotDir, description: fault.description }, path)
    } else {
        path_error(fault, path)
    }
}

/// The outcome of making a directory: one that already exists is
/// accepted when `recreate` is set and refused otherwise.
pub fn makedir_outcome(result: Result<(), Fault>, path: &str, recreate: bool) -> (r: Result<(), Error>)
    ensures
        result is Ok ==> r is Ok,
        result matches Err(f) ==> {
            &&& f.code == FaultCode::AlreadyExists && recreate ==> r is Ok
            &&& f.code == FaultCode::AlreadyExists && !recreate ==> (r matches Err(e)
                && e.kind == ErrorKind::AlreadyExists && e.message@ == path@)
            &&& f.code != FaultCode::AlreadyExists ==> (r matches Err(e) && e.kind == kind_of(f.code)
                && e.message@ == (if describes_itself(f.code) { f.description@ } else { path@ }))
        },
{
    match result {
        Ok(()) => Ok(()),
        Err(f) => {
            if f.code == FaultCode::AlreadyExists {
                if recreate {
                    Ok(())
                } else {
                    Err(Error::new(ErrorKind::AlreadyExists, path))
                }
            } else {
                Err(path_error(f, path))
            }
        },
    }
}

/// Refuses to copy over an existing file unless `overwrite` is set.
pub fn check_copy(dst: &str, dst_is_file: bool, overwrite: bool) -> (r: Result<(), Error>)
    ensures
        r is Err <==> dst_is_file && !overwrite,
        r matches Err(e) ==> e.kind == ErrorKind::AlreadyExists && e.message@ == dst@,
{
    if !overwrite && dst_is_file {
        Err(Error::new(ErrorKind::AlreadyExists, dst))
    } else {
        Ok(())
    }
}

/// Refuses to move a directory, and to move over an existing file unless
/// `overwrite` is set.
pub fn check_move(src: &str, dst: &str, src_is_dir: bool, dst_is_file: bool, overwrite: bool) -> (r: Result<(), Error>)
    ensures
        src_is_dir ==> (r matches Err(e) && e.kind == ErrorKind::IsADirectory && e.message@ == src@),
        !src_is_dir && dst_is_file && !overwrite ==> (r matches Err(e) && e.kind == ErrorKind::AlreadyExists
            && e.message@ == dst@),
        !src_is_dir && !(dst_is_file && !overwrite) ==> r is Ok,
{
    if src_is_dir {
        return Err(Error::new(ErrorKind::IsADirectory, src));
    }
    if dst_is_file && !overwrite {
        return Err(Error::new(ErrorKind::AlreadyExists, dst));
    }
    Ok(())
}

} // verus!

//! Checks of the secret mapper: ConfigMaps and Secrets are mapped into
//! memory whole, read-only and shared with the host page cache.
//!
//! Opening the file, the mapping system call and the mapping's lifetime are
//! the system's part and happen outside this module.
use vstd::prelude::*;

verus! {

/// Why a secret cannot be mapped.
#[derive(Clone, Copy, Debug, PartialEq, Eq, Structural)]
pub enum MapError {
    /// The file is empty; an empty mapping cannot be made.
    EmptyFile,
}

impl MapError {
    /// The text of the error.
    pub fn message(&self) -> (msg: &'static str)
        ensures
            msg@ == "Cannot mmap an empty file"@,
    {
        match self {
            MapError::EmptyFile => "Cannot mmap an empty file",
        }
    }
}

/// How a secret file is mapped.
#[derive(Clone, Copy, Debug, PartialEq, Eq, Structural)]
pub struct MappingPlan {
    /// Number of bytes mapped: the whole file.
    pub len: usize,
    /// Offset in the file where the mapping starts.
    pub offset: usize,
    /// The pages may be read and never written.
    pub read_only: bool,
    /// The pages are those of the host page cache, not a private copy.
    pub shared: bool,
}

/// The mapping of a file of `file_len` bytes.
pub open spec fn spec_plan(file_len: u64) -> MappingPlan {
    MappingPlan { len: file_len as usize, offset: 0, read_only: true, shared: true }
}

/// The mapping of a secret file of `file_len` bytes: the whole file from its
/// start, read-only and shared; a file whose length is zero as a machine
/// size is refused.
pub fn plan_secret_mapping(file_len: u64) -> (plan: Result<MappingPlan, MapError>)
    ensures
        plan is Err <==> file_len as usize == 0,
        plan matches Ok(p) ==> p == spec_plan(file_len) && p.len > 0,
        plan matches Err(e) ==> e == MapError::EmptyFile,
{
    let len = file_len as usize;
    if len == 0 {
        return Err(MapError::EmptyFile);
    }
    Ok(MappingPlan { len, offset: 0, read_only: true, shared: true })
}

/// Every mapping that is planned is read-only and shared, covers the whole
/// file and is not empty.
pub proof fn lemma_plans_are_immutable_views(file_len: u64)
    ensures
        file_len as usize != 0 ==> {
            let p = spec_plan(file_len);
            &&& p.read_only
            &&& p.shared
            &&& p.offset == 0
            &&& p.len == file_len as usize
            &&& p.len > 0
        },
{
}

} // verus!

use memmap2::MmapMut;
use vstd::prelude::*;

use crate::error::{errno_from_raw, raw_errno, CamelliaError};

verus! {

/// `memmap2::MmapMut`: an anonymous mapping, unmapped when dropped.
#[verifier::external_type_specification]
#[verifier::external_body]
pub struct ExMmapMut(MmapMut);

/// Calls `memmap2::MmapMut::map_anon`. On success it hands back the mapping
/// with its start address and its length (`MmapMut::len`); on failure the OS
/// error number, where there is one.
/// Claimed: the mapping's length is the length asked for (`map_anon` keeps
/// the requested length in the mapping it returns), and, as of any mapping
/// that Rust can view as a byte slice, it starts at a non-null address and does
/// not wrap around the address space. Which address the kernel picks, and
/// whether the system call fails, is left unsaid. `map_anon` refuses, with an
/// error that carries no OS error number, exactly the lengths above
/// `isize::MAX` (`validate_len`); every other failure is that of the system
/// call, reported with its error number.
#[verifier::external_body]
fn map_anonymous(len: usize) -> (res: Result<(MmapMut, usize, usize), Option<i32>>)
    ensures
        res matches Ok((_, base, length)) ==> length == len && base > 0 && base + len
            <= usize::MAX,
        res matches Err(None) <==> len > isize::MAX,
{
    match MmapMut::map_anon(len) {
        Ok(mapping) => {
            let base = mapping.as_ptr() as usize;
            let length = mapping.len();
            Ok((mapping, base, length))
        },
        Err(e) => Err(e.raw_os_error()),
    }
}

/// `ENOMEM` on Linux: what the kernel answers for a mapping too large for the
/// address space, which `memmap2` refuses before asking the kernel.
pub const ENOMEM: i32 = 12;

/// A region of anonymous memory that backs a UMem.
#[derive(Debug)]
pub struct MMapArea {
    mapping: MmapMut,
    base_address: usize,
    length: usize,
}

impl MMapArea {
    /// Start address of the region.
    pub closed spec fn base(&self) -> usize {
        self.base_address
    }

    /// Length of the region in bytes.
    pub closed spec fn length(&self) -> usize {
        self.length
    }

    /// The region lies in the address space: it starts above zero and its end
    /// is representable.
    pub open spec fn wf(&self) -> bool {
        self.base() > 0 && self.base() + self.length() <= usize::MAX
    }

    /// Maps `size` bytes of fresh anonymous memory: the region asked of the
    /// mapping, and recorded as the area's length, is `size` bytes long.
    ///
    /// A size of zero is refused; otherwise the outcome is that of the mapping
    /// (see [`MMapArea::from_mapping`]): a failed mapping is reported with the
    /// system's error number, and `ENOMEM` where `memmap2` refused the length
    /// itself, which it does exactly for sizes above `isize::MAX`.
    pub fn new(size: usize) -> (res: Result<Self, CamelliaError>)
        ensures
            size == 0 ==> (res matches Err(CamelliaError::InvalidArgument(msg)) && msg@
                == "mmap size could not be zero"@),
            size > 0 ==> (res is Ok || res matches Err(CamelliaError::SystemError(_))),
            size > isize::MAX ==> (res matches Err(CamelliaError::SystemError(e)) && e
                == raw_errno(ENOMEM)),
            res matches Ok(area) ==> area.wf() && area.length() == size,
    {
        if size == 0 {
            return Err(CamelliaError::InvalidArgument("mmap size could not be zero".to_owned()));
        }
        MMapArea::from_mapping(size, map_anonymous(size))
    }

    /// The area that an attempt to map `size` bytes gives, from what the
    /// mapping call handed back: the mapping itself, at its address and with
    /// its length, when it succeeded; the error number it reported when it
    /// failed; `ENOMEM` when it was refused without one.
    pub fn from_mapping(size: usize, mapped: Result<(MmapMut, usize, usize), Option<i32>>) -> (res:
        Result<Self, CamelliaError>)
        requires
            mapped matches Ok((_, base, length)) ==> length == size && base > 0 && base + size
                <= usize::MAX,
        ensures
            mapped matches Ok((_, base, length)) ==> (res matches Ok(area) && area.base() == base
                && area.length() == length && area.wf()),
            mapped matches Err(Some(code)) ==> (res matches Err(CamelliaError::SystemError(e))
                && e == raw_errno(code)),
            mapped matches Err(None) ==> (res matches Err(
                CamelliaError::SystemError(e),
            ) && e == raw_errno(ENOMEM)),
    {
        match mapped {
            Ok((mapping, base_address, length)) => Ok(MMapArea { mapping, base_address, length }),
            Err(Some(code)) => Err(CamelliaError::SystemError(errno_from_raw(code))),
            Err(None) => Err(CamelliaError::SystemError(errno_from_raw(ENOMEM))),
        }
    }

    /// Start address of the region.
    pub fn base_address(&self) -> (r: usize)
        ensures
            r == self.base(),
    {
        self.base_address
    }

    /// Length of the region in bytes, as the mapping reports it.
    pub fn len(&self) -> (r: usize)
        ensures
            r == self.length(),
    {
        self.length
    }
}

} // verus!

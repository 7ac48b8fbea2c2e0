//! The system calls that a counter is operated with.

use vstd::prelude::*;
use vstd::std_specs::cmp::PartialOrdSpec;

use crate::error::Error;

verus! {

/// A request to the kernel on the file descriptor of a counter, with its
/// argument.
#[derive(Clone, Copy, Debug, PartialEq, Eq, Structural)]
pub enum Ioctl {
    /// Begin to count.
    Enable(u32),
    /// Stop counting.
    Disable(u32),
    /// Set the count to zero.
    Reset(u32),
    /// Attach the eBPF program with this file descriptor.
    SetBpf(u32),
}

/// The argument by which a request applies to the whole group of the counter.
pub open spec fn group_flag() -> u32 {
    1
}

/// The error code of a read into a buffer that is too small.
pub open spec fn no_space_code() -> i32 {
    28
}

/// `perf_event_open_sys::bindings::PERF_IOC_FLAG_GROUP`, which is 1 on every
/// machine that the crate has bindings for.
#[verifier::external_body]
pub(crate) fn ioc_flag_group() -> (flag: u32)
    ensures
        flag == group_flag(),
{
    perf_event_open_sys::bindings::PERF_IOC_FLAG_GROUP
}

/// `libc::ENOSPC`, which is 28 on Linux.
#[verifier::external_body]
pub(crate) fn enospc() -> (code: i32)
    ensures
        code == no_space_code(),
{
    libc::ENOSPC
}

/// `std::io::Error::last_os_error`, by its raw error code: the code that the last
/// failed system call of the thread has left. Nothing is claimed of it.
#[verifier::external_body]
fn last_os_error() -> (code: i32) {
    std::io::Error::last_os_error().raw_os_error().unwrap_or_default()
}

/// Whether `code` is what `last_os_error` has returned.
pub closed spec fn is_last_os_error(code: i32) -> bool {
    call_ensures(last_os_error, (), code)
}

/// The code that an error has is one that `last_os_error` can return, and nothing else.
proof fn law_code_is_last_os_error(code: i32)
    ensures
        is_last_os_error(code) <==> call_ensures(last_os_error, (), code),
{
}

/// Whether the error is a failed system call's, with the code that
/// `last_os_error` has returned.
pub open spec fn is_system_error(e: Error) -> bool {
    e matches Error::Os(code) && is_last_os_error(code)
}

/// Whether the order of `R` is specified.
pub open spec fn is_ordered<R: PartialOrd>() -> bool {
    R::obeys_partial_cmp_spec()
}

/// Whether `r` is less than `zero`.
pub open spec fn is_less<R: PartialOrd>(r: R, zero: R) -> bool {
    r.partial_cmp_spec(&zero) == Some(core::cmp::Ordering::Less)
}

/// What comes of an errno-style system call that returned `r`, where `code` is the
/// error code that it left if it failed.
pub open spec fn errno_outcome<R: PartialOrd>(
    r: R,
    zero: R,
    code: i32,
    result: Result<R, Error>,
) -> bool {
    match result {
        Ok(v) => v == r && (is_ordered::<R>() ==> !is_less(r, zero)),
        Err(e) => e == Error::Os(code) && (is_ordered::<R>() ==> is_less(r, zero)),
    }
}

/// What comes of a system call that returned `code` and whose value, unless it
/// failed, says nothing more.
pub open spec fn call_outcome(code: i32, result: Result<(), Error>) -> bool {
    match result {
        Ok(_) => code >= 0,
        Err(e) => code < 0 && is_system_error(e),
    }
}

/// Produce a `Result` from what an errno-style system call returned, where `code` is
/// the error code that it left if it failed.
pub fn errno_result<R>(r: R, code: i32) -> (result: Result<R, Error>) where
    R: PartialOrd + Default,

    ensures
        exists|zero: R|
            {
                &&& #[trigger] call_ensures(R::default, (), zero)
                &&& errno_outcome(r, zero, code, result)
            },
{
    if r < R::default() {
        Err(Error::Os(code))
    } else {
        Ok(r)
    }
}

/// Produce a `Result` from an errno-style system call.
///
/// An 'errno-style' system call is one that reports failure by returning -1 and
/// setting the C `errno` value when an error occurs. The error has the code that
/// `last_os_error` returns after the call; which value that is, rests on the system.
pub fn check_errno_syscall<F, R>(f: F) -> (result: Result<R, Error>) where
    F: FnOnce() -> R,
    R: PartialOrd + Default,

    requires
        call_requires(f, ()),
    ensures
        exists|r: R, zero: R, code: i32|
            {
                &&& call_ensures(f, (), r)
                &&& call_ensures(R::default, (), zero)
                &&& is_last_os_error(code)
                &&& #[trigger] errno_outcome(r, zero, code, result)
            },
{
    let r = f();
    errno_result(r, last_os_error())
}

} // verus!

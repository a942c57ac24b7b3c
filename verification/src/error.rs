//! Error values in the shape in which they cross a C interface: a tag, and
//! a number for what the tag carries.

use vstd::prelude::*;

verus! {

/// An error as a C caller sees it.
#[allow(non_camel_case_types)]
#[derive(Clone, Copy, Debug, PartialEq, Eq, Structural)]
pub enum qiniu_ng_err_t {
    /// No error.
    qiniu_ng_err_none,
    /// A system call failed; the number is that of the operating system.
    qiniu_ng_err_os_error(i32),
    /// Input or output failed in a way that has no number of the operating
    /// system.
    qiniu_ng_err_io_error(qiniu_ng_err_io_error_t),
}

/// The kinds of failed input and output.
#[allow(non_camel_case_types)]
#[derive(Clone, Copy, Debug, PartialEq, Eq, Structural)]
pub enum qiniu_ng_err_io_error_t {
    /// An entity was not found, often a file.
    qiniu_ng_err_io_not_found_err,
    /// The operation lacked the necessary privileges to complete.
    qiniu_ng_err_io_permission_denied_err,
    /// The connection was refused by the remote server.
    qiniu_ng_err_io_connection_refused_err,
    /// The connection was reset by the remote server.
    qiniu_ng_err_io_connection_reset_err,
    /// The connection was aborted by the remote server.
    qiniu_ng_err_io_connection_aborted_err,
    /// The network operation failed because it was not connected yet.
    qiniu_ng_err_io_not_connected_err,
    /// A socket address could not be bound because it is in use elsewhere.
    qiniu_ng_err_io_addr_in_use_err,
    /// A nonexistent interface was requested or the address was not local.
    qiniu_ng_err_io_addr_not_available_err,
    /// The operation failed because a pipe was closed.
    qiniu_ng_err_io_broken_pipe_err,
    /// An entity already exists, often a file.
    qiniu_ng_err_io_already_exists_err,
    /// The operation needs to block to complete, but was asked not to.
    qiniu_ng_err_io_would_block_err,
    /// A parameter was incorrect.
    qiniu_ng_err_io_invalid_input_err,
    /// Data not valid for the operation were encountered.
    qiniu_ng_err_io_invalid_data_err,
    /// The operation's timeout expired.
    qiniu_ng_err_io_timed_out_err,
    /// Fewer bytes could be written than the operation needed to write.
    qiniu_ng_err_io_write_zero_err,
    /// The operation was interrupted.
    qiniu_ng_err_io_interrupted_err,
    /// Any other failure of input or output.
    qiniu_ng_err_io_other_err,
    /// The end of a file was reached too early.
    qiniu_ng_err_io_unexpected_eof_err,
}

impl Default for qiniu_ng_err_t {
    fn default() -> (r: Self)
        ensures
            r == qiniu_ng_err_t::qiniu_ng_err_none,
    {
        qiniu_ng_err_t::qiniu_ng_err_none
    }
}

/// The number of a kind of failed input or output: from 1, in the order in
/// which the kinds are listed.
pub open spec fn io_error_code(kind: qiniu_ng_err_io_error_t) -> i32 {
    match kind {
        qiniu_ng_err_io_error_t::qiniu_ng_err_io_not_found_err => 1,
        qiniu_ng_err_io_error_t::qiniu_ng_err_io_permission_denied_err => 2,
        qiniu_ng_err_io_error_t::qiniu_ng_err_io_connection_refused_err => 3,
        qiniu_ng_err_io_error_t::qiniu_ng_err_io_connection_reset_err => 4,
        qiniu_ng_err_io_error_t::qiniu_ng_err_io_connection_aborted_err => 5,
        qiniu_ng_err_io_error_t::qiniu_ng_err_io_not_connected_err => 6,
        qiniu_ng_err_io_error_t::qiniu_ng_err_io_addr_in_use_err => 7,
        qiniu_ng_err_io_error_t::qiniu_ng_err_io_addr_not_available_err => 8,
        qiniu_ng_err_io_error_t::qiniu_ng_err_io_broken_pipe_err => 9,
        qiniu_ng_err_io_error_t::qiniu_ng_err_io_already_exists_err => 10,
        qiniu_ng_err_io_error_t::qiniu_ng_err_io_would_block_err => 11,
        qiniu_ng_err_io_error_t::qiniu_ng_err_io_invalid_input_err => 12,
        qiniu_ng_err_io_error_t::qiniu_ng_err_io_invalid_data_err => 13,
        qiniu_ng_err_io_error_t::qiniu_ng_err_io_timed_out_err => 14,
        qiniu_ng_err_io_error_t::qiniu_ng_err_io_write_zero_err => 15,
        qiniu_ng_err_io_error_t::qiniu_ng_err_io_interrupted_err => 16,
        qiniu_ng_err_io_error_t::qiniu_ng_err_io_other_err => 17,
        qiniu_ng_err_io_error_t::qiniu_ng_err_io_unexpected_eof_err => 18,
    }
}

impl qiniu_ng_err_io_error_t {
    /// The number of the kind.
    pub fn code(self) -> (r: i32)
        ensures
            r == io_error_code(self),
            1 <= r <= 18,
    {
        match self {
            qiniu_ng_err_io_error_t::qiniu_ng_err_io_not_found_err => 1,
            qiniu_ng_err_io_error_t::qiniu_ng_err_io_permission_denied_err => 2,
            qiniu_ng_err_io_error_t::qiniu_ng_err_io_connection_refused_err => 3,
            qiniu_ng_err_io_error_t::qiniu_ng_err_io_connection_reset_err => 4,
            qiniu_ng_err_io_error_t::qiniu_ng_err_io_connection_aborted_err => 5,
            qiniu_ng_err_io_error_t::qiniu_ng_err_io_not_connected_err => 6,
            qiniu_ng_err_io_error_t::qiniu_ng_err_io_addr_in_use_err => 7,
            qiniu_ng_err_io_error_t::qiniu_ng_err_io_addr_not_available_err => 8,
            qiniu_ng_err_io_error_t::qiniu_ng_err_io_broken_pipe_err => 9,
            qiniu_ng_err_io_error_t::qiniu_ng_err_io_already_exists_err => 10,
            qiniu_ng_err_io_error_t::qiniu_ng_err_io_would_block_err => 11,
            qiniu_ng_err_io_error_t::qiniu_ng_err_io_invalid_input_err => 12,
            qiniu_ng_err_io_error_t::qiniu_ng_err_io_invalid_data_err => 13,
            qiniu_ng_err_io_error_t::qiniu_ng_err_io_timed_out_err => 14,
            qiniu_ng_err_io_error_t::qiniu_ng_err_io_write_zero_err => 15,
            qiniu_ng_err_io_error_t::qiniu_ng_err_io_interrupted_err => 16,
            qiniu_ng_err_io_error_t::qiniu_ng_err_io_other_err => 17,
            qiniu_ng_err_io_error_t::qiniu_ng_err_io_unexpected_eof_err => 18,
        }
    }

    /// The kind with the given number; a number that no kind has stands
    /// for any other failure.
    pub fn from_code(code: i32) -> (r: Self)
        ensures
            1 <= code <= 18 ==> io_error_code(r) == code,
            !(1 <= code <= 18) ==> r == qiniu_ng_err_io_error_t::qiniu_ng_err_io_other_err,
    {
        if code == 1 {
            qiniu_ng_err_io_error_t::qiniu_ng_err_io_not_found_err
        } else if code == 2 {
            qiniu_ng_err_io_error_t::qiniu_ng_err_io_permission_denied_err
        } else if code == 3 {
            qiniu_ng_err_io_error_t::qiniu_ng_err_io_connection_refused_err
        } else if code == 4 {
            qiniu_ng_err_io_error_t::qiniu_ng_err_io_connection_reset_err
        } else if code == 5 {
            qiniu_ng_err_io_error_t::qiniu_ng_err_io_connection_aborted_err
        } else if code == 6 {
            qiniu_ng_err_io_error_t::qiniu_ng_err_io_not_connected_err
        } else if code == 7 {
            qiniu_ng_err_io_error_t::qiniu_ng_err_io_addr_in_use_err
        } else if code == 8 {
            qiniu_ng_err_io_error_t::qiniu_ng_err_io_addr_not_available_err
        } else if code == 9 {
            qiniu_ng_err_io_error_t::qiniu_ng_err_io_broken_pipe_err
        } else if code == 10 {
            qiniu_ng_err_io_error_t::qiniu_ng_err_io_already_exists_err
        } else if code == 11 {
            qiniu_ng_err_io_error_t::qiniu_ng_err_io_would_block_err
        } else if code == 12 {
            qiniu_ng_err_io_error_t::qiniu_ng_err_io_invalid_input_err
        } else if code == 13 {
            qiniu_ng_err_io_error_t::qiniu_ng_err_io_invalid_data_err
        } else if code == 14 {
            qiniu_ng_err_io_error_t::qiniu_ng_err_io_timed_out_err
        } else if code == 15 {
            qiniu_ng_err_io_error_t::qiniu_ng_err_io_write_zero_err
        } else if code == 16 {
            qiniu_ng_err_io_error_t::qiniu_ng_err_io_interrupted_err
        } else if code == 18 {
            qiniu_ng_err_io_error_t::qiniu_ng_err_io_unexpected_eof_err
        } else {
            qiniu_ng_err_io_error_t::qiniu_ng_err_io_other_err
        }
    }
}

/// The kind of a number is the kind that the number was taken from.
pub proof fn lemma_io_error_code_round_trip(kind: qiniu_ng_err_io_error_t)
    ensures
        1 <= io_error_code(kind) <= 18,
        forall|other: qiniu_ng_err_io_error_t|
            io_error_code(other) == io_error_code(kind) ==> other == kind,
{
}

/// The error of a failed input or output: that of the operating system
/// where it gave a number, that of the kind otherwise.
pub open spec fn error_of(os_error: Option<i32>, kind: qiniu_ng_err_io_error_t) -> qiniu_ng_err_t {
    match os_error {
        Some(code) => qiniu_ng_err_t::qiniu_ng_err_os_error(code),
        None => qiniu_ng_err_t::qiniu_ng_err_io_error(kind),
    }
}

impl qiniu_ng_err_t {
    /// Makes the error of a failed input or output from the number that
    /// the operating system gave, if it gave one, and the kind of the
    /// failure.
    pub fn from_io_error(os_error: Option<i32>, kind: qiniu_ng_err_io_error_t) -> (r: Self)
        ensures
            r == error_of(os_error, kind),
    {
        match os_error {
            Some(code) => qiniu_ng_err_t::qiniu_ng_err_os_error(code),
            None => qiniu_ng_err_t::qiniu_ng_err_io_error(kind),
        }
    }

    /// Makes an error from a kind of failed input or output.
    pub fn from_io_error_kind(kind: qiniu_ng_err_io_error_t) -> (r: Self)
        ensures
            r == qiniu_ng_err_t::qiniu_ng_err_io_error(kind),
    {
        qiniu_ng_err_t::qiniu_ng_err_io_error(kind)
    }
}

/// Whether `err` is an error at all.
#[allow(non_snake_case)]
pub fn qiniu_ng_err_any_error(err: &qiniu_ng_err_t) -> (r: bool)
    ensures
        r == !(err is qiniu_ng_err_none),
{
    match err {
        qiniu_ng_err_t::qiniu_ng_err_none => false,
        _ => true,
    }
}

/// The number of the operating system, where `err` is a failed system
/// call.
pub fn qiniu_ng_err_os_error_extract(err: &qiniu_ng_err_t) -> (r: Option<i32>)
    ensures
        r == match *err {
            qiniu_ng_err_t::qiniu_ng_err_os_error(code) => Some(code),
            _ => None,
        },
{
    match err {
        qiniu_ng_err_t::qiniu_ng_err_os_error(code) => Some(*code),
        _ => None,
    }
}

/// The number of the kind, where `err` is a failed input or output.
pub fn qiniu_ng_err_io_error_extract(err: &qiniu_ng_err_t) -> (r: Option<i32>)
    ensures
        r == match *err {
            qiniu_ng_err_t::qiniu_ng_err_io_error(kind) => Some(io_error_code(kind)),
            _ => None,
        },
{
    match err {
        qiniu_ng_err_t::qiniu_ng_err_io_error(kind) => Some(kind.code()),
        _ => None,
    }
}

} // verus!

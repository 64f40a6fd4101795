//! Files that the session opens.
use vstd::prelude::*;

verus! {

/// A file descriptor that the session handed out.
#[derive(Debug, PartialEq, Eq)]
pub struct SessionFd(i32);

impl Clone for SessionFd {
    fn clone(&self) -> (copy: Self)
        ensures
            copy@ == self@,
    {
        SessionFd(self.0)
    }
}

impl View for SessionFd {
    type V = i32;

    closed spec fn view(&self) -> i32 {
        self.0
    }
}

impl SessionFd {
    /// The descriptor `fd`, which the session owns.
    pub fn new(fd: i32) -> (session_fd: Self)
        ensures
            session_fd@ == fd,
    {
        SessionFd(fd)
    }

    /// The number of the descriptor.
    pub fn as_raw_fd(&self) -> (fd: i32)
        ensures
            fd == self@,
    {
        self.0
    }
}

/// How a device is opened.
#[derive(Clone, Copy, Debug, PartialEq, Eq, Structural)]
pub struct OpenFlags {
    /// For reading and writing.
    pub read_write: bool,
    /// Not inherited by other programs.
    pub close_on_exec: bool,
    /// Never as the controlling terminal.
    pub no_ctty: bool,
    /// Without waiting.
    pub non_blocking: bool,
}

}

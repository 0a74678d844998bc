//! The server's command line, as plain values.

use crate::text::str_eq;
use vstd::prelude::*;

verus! {

/// How the server meets its client.
#[derive(Clone, Copy, Debug, PartialEq, Eq, Structural)]
pub enum Transport {
    /// Listen on a TCP address and accept one connection.
    Tcp,
    /// Listen on a UNIX socket path and accept one connection.
    Unix,
    /// Use standard input and standard output.
    Stdio,
}

/// The server's options.
pub struct Opt {
    /// The address to bind the server to.
    pub addr: String,
    /// The kind of address: `tcp`, `unix` or `stdio`.
    pub kind: String,
    /// The program to debug.
    pub program: String,
    /// The arguments of the program.
    pub args: Vec<String>,
}

/// The transport that a kind of address names.
pub open spec fn transport_of(kind: Seq<char>) -> Option<Transport> {
    if kind == "tcp"@ {
        Some(Transport::Tcp)
    } else if kind == "unix"@ {
        Some(Transport::Unix)
    } else if kind == "stdio"@ {
        Some(Transport::Stdio)
    } else {
        None
    }
}

impl Opt {
    /// The transport that the options ask for; `None` for an unknown kind.
    pub fn transport(&self) -> (r: Option<Transport>)
        ensures
            r == transport_of(self.kind@),
    {
        let kind = self.kind.as_str();
        if str_eq(kind, "tcp") {
            Some(Transport::Tcp)
        } else if str_eq(kind, "unix") {
            Some(Transport::Unix)
        } else if str_eq(kind, "stdio") {
            Some(Transport::Stdio)
        } else {
            None
        }
    }

    /// The argument vector of the tracee: the program, then its arguments.
    pub fn tracee_argv(&self) -> (r: Vec<String>)
        ensures
            r@.len() == self.args@.len() + 1,
            r@[0]@ == self.program@,
            forall|i: int| 0 <= i < self.args@.len() ==> (#[trigger] r@[i + 1])@ == self.args@[i]@,
    {
        let mut r: Vec<String> = Vec::new();
        r.push(self.program.clone());
        let mut i: usize = 0;
        while i < self.args.len()
            invariant
                i <= self.args@.len(),
                r@.len() == i + 1,
                r@[0]@ == self.program@,
                forall|j: int| 0 <= j < i ==> (#[trigger] r@[j + 1])@ == self.args@[j]@,
            decreases self.args@.len() - i,
        {
            r.push(self.args[i].clone());
            i = i + 1;
        }
        r
    }
}

} // verus!

//! The server architectures that can be asked for by name.

use vstd::prelude::*;
use vstd::string::*;

verus! {

/// How the server handles its connections.
#[allow(non_camel_case_types)]
#[derive(Debug, Clone, Copy, PartialEq, Eq, Structural)]
pub enum ServerKind {
    /// One blocking thread per connection.
    tcp,
    /// One reactor on a submission/completion ring.
    iouring_0,
    /// One thread per connection, responses written with a gathered write.
    io_vec,
}

/// The name by which a kind is asked for.
pub open spec fn kind_name(kind: ServerKind) -> Seq<char> {
    match kind {
        ServerKind::tcp => "tcp"@,
        ServerKind::iouring_0 => "iouring-0"@,
        ServerKind::io_vec => "io-vec"@,
    }
}

/// The kind that a name asks for, if it is the name of one.
pub open spec fn kind_named(name: Seq<char>) -> Option<ServerKind> {
    if name == "tcp"@ {
        Some(ServerKind::tcp)
    } else if name == "iouring-0"@ {
        Some(ServerKind::iouring_0)
    } else if name == "io-vec"@ {
        Some(ServerKind::io_vec)
    } else {
        None
    }
}

impl ServerKind {
    /// The name of the kind, as it is written on the command line.
    pub fn as_string_arg(&self) -> (name: String)
        ensures
            name@ == kind_name(*self),
    {
        match self {
            ServerKind::tcp => "tcp".to_owned(),
            ServerKind::iouring_0 => "iouring-0".to_owned(),
            ServerKind::io_vec => "io-vec".to_owned(),
        }
    }

    /// The kind that `name` asks for.
    pub fn from_string_arg(name: &str) -> (kind: Option<ServerKind>)
        ensures
            kind == kind_named(name@),
    {
        if crate::app::same_text(name, "tcp") {
            Some(ServerKind::tcp)
        } else if crate::app::same_text(name, "iouring-0") {
            Some(ServerKind::iouring_0)
        } else if crate::app::same_text(name, "io-vec") {
            Some(ServerKind::io_vec)
        } else {
            None
        }
    }
}

/// Every kind is found again under its own name.
pub proof fn lemma_kind_of_name(kind: ServerKind)
    ensures
        kind_named(kind_name(kind)) == Some(kind),
{
    reveal_strlit("tcp");
    reveal_strlit("iouring-0");
    reveal_strlit("io-vec");
    assert("tcp"@.len() == 3);
    assert("iouring-0"@.len() == 9);
    assert("io-vec"@.len() == 6);
}

} // verus!

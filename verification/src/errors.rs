//! The errors of the client and of the server.
use vstd::prelude::*;
use vstd::string::StringExecFns;

verus! {

/// Where an error of the client arose.
#[derive(Clone, Copy, PartialEq, Eq, Structural, Debug)]
pub enum ClientErrorKind {
    Io,
    Xr,
    Internal,
    Tracing,
}

/// An error of the client: where it arose, and what it says.
#[derive(PartialEq, Eq, Debug)]
pub struct ClientError {
    pub(crate) kind: ClientErrorKind,
    pub(crate) msg: String,
}

/// Where an error of the server arose.
#[derive(Clone, Copy, PartialEq, Eq, Structural, Debug)]
pub enum ServerErrorKind {
    Io,
    Internal,
    Db,
}

/// An error of the server: where it arose, and what it says.
#[derive(PartialEq, Eq, Debug)]
pub struct ServerErrors {
    pub(crate) msg: String,
    pub(crate) kind: ServerErrorKind,
}

/// The name of a kind of client error.
pub open spec fn client_kind_name(kind: ClientErrorKind) -> Seq<char> {
    match kind {
        ClientErrorKind::Io => "Io"@,
        ClientErrorKind::Xr => "Xr"@,
        ClientErrorKind::Internal => "Internal"@,
        ClientErrorKind::Tracing => "Tracing"@,
    }
}

/// The name of a kind of server error.
pub open spec fn server_kind_name(kind: ServerErrorKind) -> Seq<char> {
    match kind {
        ServerErrorKind::Io => "Io"@,
        ServerErrorKind::Internal => "Internal"@,
        ServerErrorKind::Db => "Db"@,
    }
}

impl ClientErrorKind {
    /// The name of the kind.
    pub fn name(&self) -> (name: &'static str)
        ensures
            name@ == client_kind_name(*self),
    {
        match self {
            ClientErrorKind::Io => "Io",
            ClientErrorKind::Xr => "Xr",
            ClientErrorKind::Internal => "Internal",
            ClientErrorKind::Tracing => "Tracing",
        }
    }
}

impl ServerErrorKind {
    /// The name of the kind.
    pub fn name(&self) -> (name: &'static str)
        ensures
            name@ == server_kind_name(*self),
    {
        match self {
            ServerErrorKind::Io => "Io",
            ServerErrorKind::Internal => "Internal",
            ServerErrorKind::Db => "Db",
        }
    }
}

impl ClientError {
    /// Where the error arose.
    pub closed spec fn spec_kind(&self) -> ClientErrorKind {
        self.kind
    }

    /// What the error says.
    pub closed spec fn text(&self) -> Seq<char> {
        self.msg@
    }

    /// The error as text: the name of its kind, a colon and a space, and
    /// the message.
    pub fn to_text(&self) -> (text: String)
        ensures
            text@ == client_kind_name(self.spec_kind()) + ": "@ + self.text(),
    {
        let mut text = String::from_str(self.kind.name());
        text.append(": ");
        text.append(self.msg.as_str());
        text
    }

    /// An error of that kind with that message.
    pub fn new(kind: ClientErrorKind, msg: &str) -> (e: ClientError)
        ensures
            e.spec_kind() == kind,
            e.text() == msg@,
    {
        ClientError { kind, msg: msg.to_owned() }
    }

    /// Where the error arose.
    pub fn kind(&self) -> (kind: ClientErrorKind)
        ensures
            kind == self.spec_kind(),
    {
        self.kind
    }

    /// What the error says.
    pub fn msg(&self) -> (msg: &str)
        ensures
            msg@ == self.text(),
    {
        self.msg.as_str()
    }
}

impl ServerErrors {
    /// Where the error arose.
    pub closed spec fn spec_kind(&self) -> ServerErrorKind {
        self.kind
    }

    /// What the error says.
    pub closed spec fn text(&self) -> Seq<char> {
        self.msg@
    }

    /// The error as text: the name of its kind, a space, and the message.
    pub fn to_text(&self) -> (text: String)
        ensures
            text@ == server_kind_name(self.spec_kind()) + " "@ + self.text(),
    {
        let mut text = String::from_str(self.kind.name());
        text.append(" ");
        text.append(self.msg.as_str());
        text
    }

    /// An error that arose in the server's own logic, with `msg` as its
    /// message.
    pub fn internal(msg: &str) -> (e: ServerErrors)
        ensures
            e.spec_kind() == ServerErrorKind::Internal,
            e.text() == msg@,
    {
        ServerErrors { msg: msg.to_owned(), kind: ServerErrorKind::Internal }
    }

    /// An error that arose in the store: `msg`, an arrow, and `cause`, the
    /// words of the store's own error.
    pub fn db(cause: &str, msg: &str) -> (e: ServerErrors)
        ensures
            e.spec_kind() == ServerErrorKind::Db,
            e.text() == msg@ + " -> "@ + cause@,
    {
        let mut text = msg.to_owned();
        text.append(" -> ");
        text.append(cause);
        ServerErrors { msg: text, kind: ServerErrorKind::Db }
    }

    /// An error of that kind with that message.
    pub fn new(kind: ServerErrorKind, msg: &str) -> (e: ServerErrors)
        ensures
            e.spec_kind() == kind,
            e.text() == msg@,
    {
        ServerErrors { msg: msg.to_owned(), kind }
    }

    /// Where the error arose.
    pub fn kind(&self) -> (kind: ServerErrorKind)
        ensures
            kind == self.spec_kind(),
    {
        self.kind
    }

    /// What the error says.
    pub fn msg(&self) -> (msg: &str)
        ensures
            msg@ == self.text(),
    {
        self.msg.as_str()
    }
}

} // verus!

//! What can go wrong, as coarse as a user interface needs it: try again, ask
//! for credentials, or show a message.
use vstd::prelude::*;
use crate::compositor::screencopy::after;
use crate::protocol::frame::CodecError;

verus! {

/// Every failure that the mobile core reports.
#[derive(Debug, Clone)]
pub enum TermlandError {
    Connect { msg: String },
    Tls { msg: String },
    Auth { msg: String },
    Protocol { msg: String },
    Io { msg: String },
}

impl TermlandError {
    /// What the error tells of its cause.
    pub open spec fn reason(self) -> Seq<char> {
        match self {
            TermlandError::Connect { msg } => msg@,
            TermlandError::Tls { msg } => msg@,
            TermlandError::Auth { msg } => msg@,
            TermlandError::Protocol { msg } => msg@,
            TermlandError::Io { msg } => msg@,
        }
    }

    /// What the error says.
    pub open spec fn text(self) -> Seq<char> {
        match self {
            TermlandError::Connect { msg } => "connect failed: "@ + msg@,
            TermlandError::Tls { msg } => "TLS error: "@ + msg@,
            TermlandError::Auth { msg } => "authentication failed: "@ + msg@,
            TermlandError::Protocol { msg } => "protocol error: "@ + msg@,
            TermlandError::Io { msg } => "I/O error: "@ + msg@,
        }
    }

    /// Writes what the error says.
    pub fn message(&self) -> (s: String)
        ensures
            s@ == self.text(),
    {
        match self {
            TermlandError::Connect { msg } => after("connect failed: ", msg),
            TermlandError::Tls { msg } => after("TLS error: ", msg),
            TermlandError::Auth { msg } => after("authentication failed: ", msg),
            TermlandError::Protocol { msg } => after("protocol error: ", msg),
            TermlandError::Io { msg } => after("I/O error: ", msg),
        }
    }

    /// The failure that an error of the stream is: a broken stream is one of
    /// I/O, anything else one of the protocol.
    pub fn from_codec(e: CodecError) -> (r: TermlandError)
        ensures
            match e {
                CodecError::Io(io) => r == (TermlandError::Io { msg: io }),
                _ => r matches TermlandError::Protocol { msg } && msg@ == e.text(),
            },
    {
        match e {
            CodecError::Io(io) => TermlandError::Io { msg: io },
            other => TermlandError::Protocol { msg: other.message() },
        }
    }
}

/// An error says what failed and why, and no two kinds of failure read alike; one
/// of the stream is one of input and output, and every other breaks the protocol.
pub proof fn errors_say_why(
    e: &TermlandError,
    f: &TermlandError,
    s: String,
    t: String,
    c: CodecError,
    r: TermlandError,
)
    requires
        call_ensures(TermlandError::message, (e,), s),
        call_ensures(TermlandError::message, (f,), t),
        call_ensures(TermlandError::from_codec, (c,), r),
    ensures
        s@.len() >= e.reason().len() && s@.skip(s@.len() - e.reason().len()) == e.reason(),
        *e is Connect && !(*f is Connect) ==> s@[0] != t@[0],
        *e is Tls && !(*f is Tls) ==> s@[0] != t@[0],
        *e is Auth && !(*f is Auth) ==> s@[0] != t@[0],
        *e is Protocol && !(*f is Protocol) ==> s@[0] != t@[0],
        *e is Io && !(*f is Io) ==> s@[0] != t@[0],
        r is Io <==> c is Io,
        !(c is Io) ==> r is Protocol,
        c matches CodecError::Io(io) ==> r.reason() == io@,
{
    reveal_strlit("connect failed: ");
    reveal_strlit("TLS error: ");
    reveal_strlit("authentication failed: ");
    reveal_strlit("protocol error: ");
    reveal_strlit("I/O error: ");
    let n = s@.len() - e.reason().len();
    assert(s@.skip(n) =~= e.reason());
}

} // verus!

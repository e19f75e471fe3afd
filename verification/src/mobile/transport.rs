//! How a server is reached.
use vstd::prelude::*;
use crate::compositor::screencopy::after;
use crate::mobile::error::TermlandError;
use crate::mobile::types::ServerProfile;
use crate::text;

verus! {

/// How to reach the server.
#[derive(Debug, Clone)]
pub enum Transport {
    Tcp,
    Tls { accept_invalid_certs: bool },
    /// An SSH connection that this process makes itself, as apps on a phone may
    /// not start `ssh`.
    Ssh { username: String, password: String },
    Quic { accept_invalid_certs: bool },
}

/// An optional text, or none as the empty one.
pub open spec fn or_empty(s: Option<String>) -> Seq<char> {
    match s {
        Some(t) => t@,
        None => ""@,
    }
}

fn text_or_empty(s: &Option<String>) -> (t: String)
    ensures
        t@ == or_empty(*s),
{
    match s {
        Some(t) => t.clone(),
        None => String::from_str(""),
    }
}

impl Transport {
    /// How a profile's server is reached: by SSH, or else QUIC, or else TLS,
    /// where the profile says so, and plainly otherwise.
    pub fn for_profile(profile: &ServerProfile) -> (t: Transport)
        ensures
            if profile.use_ssh {
                t matches Transport::Ssh { username, password } && username@ == or_empty(
                    profile.username,
                ) && password@ == or_empty(profile.password)
            } else if profile.use_quic {
                t == (Transport::Quic { accept_invalid_certs: profile.accept_invalid_certs })
            } else if profile.use_tls {
                t == (Transport::Tls { accept_invalid_certs: profile.accept_invalid_certs })
            } else {
                t == Transport::Tcp
            },
    {
        if profile.use_ssh {
            Transport::Ssh {
                username: text_or_empty(&profile.username),
                password: text_or_empty(&profile.password),
            }
        } else if profile.use_quic {
            Transport::Quic { accept_invalid_certs: profile.accept_invalid_certs }
        } else if profile.use_tls {
            Transport::Tls { accept_invalid_certs: profile.accept_invalid_certs }
        } else {
            Transport::Tcp
        }
    }
}

/// A server's address as it is dialled.
pub open spec fn address(host: Seq<char>, port: u16) -> Seq<char> {
    host + ":"@ + text::decimal(port as nat)
}

/// Writes a server's address as it is dialled.
pub fn dial_address(host: &str, port: u16) -> (s: String)
    ensures
        s@ == address(host@, port),
{
    let mut out = text::chars_of(host);
    text::push_str(&mut out, ":");
    let mut digits = text::decimal_chars(port as u64);
    out.append(&mut digits);
    text::text_of(&out)
}

/// What making a connection can fail at.
#[derive(Debug, Clone, Copy, PartialEq, Eq, Structural)]
pub enum ConnectStage {
    Dial,
    ServerName,
    TlsHandshake,
    TlsVersions,
    SshHandshake,
    SshAuthentication,
    SshChannel,
    SshSubsystem,
}

/// The failure that an error of a stage is, for a host and its address.
pub fn connect_error(stage: ConnectStage, host: &str, addr: &str, error: &str) -> (e: TermlandError)
    ensures
        match stage {
            ConnectStage::Dial => e matches TermlandError::Connect { msg } && msg@ == addr@ + ": "@
                + error@,
            ConnectStage::ServerName => e matches TermlandError::Tls { msg } && msg@
                == "invalid server name '"@ + host@ + "': "@ + error@,
            ConnectStage::TlsHandshake => e matches TermlandError::Tls { msg } && msg@
                == "handshake failed: "@ + error@,
            ConnectStage::TlsVersions => e matches TermlandError::Tls { msg } && msg@
                == "unsupported TLS versions: "@ + error@,
            ConnectStage::SshHandshake => e matches TermlandError::Connect { msg } && msg@
                == "SSH handshake with "@ + addr@ + " failed: "@ + error@,
            ConnectStage::SshAuthentication => e matches TermlandError::Auth { msg } && msg@
                == "SSH authentication failed: "@ + error@,
            ConnectStage::SshChannel => e matches TermlandError::Connect { msg } && msg@
                == "failed to open SSH channel: "@ + error@,
            ConnectStage::SshSubsystem => e matches TermlandError::Connect { msg } && msg@
                == "failed to request 'termland' subsystem: "@ + error@,
        },
{
    match stage {
        ConnectStage::Dial => {
            let mut m = text::chars_of(addr);
            text::push_str(&mut m, ": ");
            text::push_str(&mut m, error);
            TermlandError::Connect { msg: text::text_of(&m) }
        },
        ConnectStage::ServerName => {
            let mut m = text::chars_of("invalid server name '");
            text::push_str(&mut m, host);
            text::push_str(&mut m, "': ");
            text::push_str(&mut m, error);
            TermlandError::Tls { msg: text::text_of(&m) }
        },
        ConnectStage::TlsHandshake => TermlandError::Tls { msg: after("handshake failed: ", error) },
        ConnectStage::TlsVersions => TermlandError::Tls {
            msg: after("unsupported TLS versions: ", error),
        },
        ConnectStage::SshHandshake => {
            let mut m = text::chars_of("SSH handshake with ");
            text::push_str(&mut m, addr);
            text::push_str(&mut m, " failed: ");
            text::push_str(&mut m, error);
            TermlandError::Connect { msg: text::text_of(&m) }
        },
        ConnectStage::SshAuthentication => TermlandError::Auth {
            msg: after("SSH authentication failed: ", error),
        },
        ConnectStage::SshChannel => TermlandError::Connect {
            msg: after("failed to open SSH channel: ", error),
        },
        ConnectStage::SshSubsystem => TermlandError::Connect {
            msg: after("failed to request 'termland' subsystem: ", error),
        },
    }
}

/// Whether the SSH server took the password.
pub fn check_ssh_login(success: bool) -> (r: Result<(), TermlandError>)
    ensures
        r is Ok <==> success,
        r matches Err(e) ==> (e matches TermlandError::Auth { msg } && msg@
            == "SSH server rejected the password"@),
{
    if success {
        Ok(())
    } else {
        Err(TermlandError::Auth { msg: String::from_str("SSH server rejected the password") })
    }
}

/// What came over an SSH channel whose subsystem was asked for.
#[derive(Debug, Clone, Copy, PartialEq, Eq, Structural)]
pub enum ChannelReply {
    Success,
    Failure,
    Other,
    Closed,
}

/// What to do about it.
#[derive(Debug, Clone)]
pub enum SubsystemStep {
    /// The channel can be used.
    Ready,
    Wait,
    Fail(TermlandError),
}

/// Decides about a channel whose subsystem was asked for. A request that was
/// refused is an error of its own, not a stream without bytes.
pub fn subsystem_step(reply: ChannelReply) -> (s: SubsystemStep)
    ensures
        match reply {
            ChannelReply::Success => s is Ready,
            ChannelReply::Failure => s matches SubsystemStep::Fail(TermlandError::Connect { msg })
                && msg@ == "server rejected the 'termland' subsystem request"@,
            ChannelReply::Other => s is Wait,
            ChannelReply::Closed => s matches SubsystemStep::Fail(TermlandError::Connect { msg })
                && msg@
                == "SSH channel closed before the 'termland' subsystem request completed"@,
        },
{
    match reply {
        ChannelReply::Success => SubsystemStep::Ready,
        ChannelReply::Failure => SubsystemStep::Fail(
            TermlandError::Connect {
                msg: String::from_str("server rejected the 'termland' subsystem request"),
            },
        ),
        ChannelReply::Other => SubsystemStep::Wait,
        ChannelReply::Closed => SubsystemStep::Fail(
            TermlandError::Connect {
                msg: String::from_str(
                    "SSH channel closed before the 'termland' subsystem request completed",
                ),
            },
        ),
    }
}

/// A connection goes the way that its profile chose: SSH before QUIC before TLS,
/// and plain only where none was chosen. Whether certificates are checked is the
/// profile's choice, and SSH logs in with the profile's login.
pub proof fn connections_go_the_way_chosen(profile: &ServerProfile, t: Transport)
    requires
        call_ensures(Transport::for_profile, (profile,), t),
    ensures
        t is Ssh <==> profile.use_ssh,
        t is Quic <==> profile.use_quic && !profile.use_ssh,
        t is Tls <==> profile.use_tls && !profile.use_quic && !profile.use_ssh,
        t is Tcp <==> !profile.use_tls && !profile.use_quic && !profile.use_ssh,
        t matches Transport::Tls { accept_invalid_certs } ==> accept_invalid_certs
            == profile.accept_invalid_certs,
        t matches Transport::Quic { accept_invalid_certs } ==> accept_invalid_certs
            == profile.accept_invalid_certs,
        t matches Transport::Ssh { username, password } ==> (profile.username matches Some(u)
            ==> username@ == u@) && (profile.username is None ==> username@.len() == 0) && (
        profile.password matches Some(p) ==> password@ == p@) && (profile.password is None
            ==> password@.len() == 0),
{
    reveal_strlit("");
}

/// An address starts with the host, and what stands behind its last colon is the
/// port.
pub proof fn addresses_name_host_and_port(host: &str, port: u16, s: String)
    requires
        call_ensures(dial_address, (host, port), s),
    ensures
        s@.len() > host@.len() + 1,
        s@.take(host@.len() as int) == host@,
        s@[host@.len() as int] == ':',
        text::decimal_value(s@.skip((host@.len() + 1) as int)) == port,
{
    reveal_strlit(":");
    text::decimals_read_back(port as nat);
    assert(s@.take(host@.len() as int) =~= host@);
    assert(s@.skip((host@.len() + 1) as int) =~= text::decimal(port as nat));
}

/// A failure to connect says why at its end, and is of the part that failed: the
/// connection, TLS or the login. What could not be reached is named.
pub proof fn failures_say_what_failed(
    stage: ConnectStage,
    host: &str,
    addr: &str,
    error: &str,
    e: TermlandError,
)
    requires
        call_ensures(connect_error, (stage, host, addr, error), e),
    ensures
        e is Auth <==> stage is SshAuthentication,
        e is Tls <==> stage is ServerName || stage is TlsHandshake || stage is TlsVersions,
        e is Connect <==> stage is Dial || stage is SshHandshake || stage is SshChannel
            || stage is SshSubsystem,
        e.reason().len() >= error@.len(),
        e.reason().skip(e.reason().len() - error@.len()) == error@,
        stage is Dial ==> e.reason().take(addr@.len() as int) == addr@,
        stage is SshHandshake ==> e.reason().subrange(19, (19 + addr@.len()) as int) == addr@,
        stage is ServerName ==> e.reason().subrange(21, (21 + host@.len()) as int) == host@,
{
    reveal_strlit("SSH handshake with ");
    reveal_strlit("invalid server name '");
    let r = e.reason();
    assert(r.skip(r.len() - error@.len()) =~= error@);
    if stage is Dial {
        assert(r.take(addr@.len() as int) =~= addr@);
    }
    if stage is SshHandshake {
        assert(r.subrange(19, (19 + addr@.len()) as int) =~= addr@);
    }
    if stage is ServerName {
        assert(r.subrange(21, (21 + host@.len()) as int) =~= host@);
    }
}

/// SSH is ready once the login and the request were granted, and fails where
/// either was refused or the channel closed; anything else is waited out.
pub proof fn ssh_needs_both_grants(
    success: bool,
    r: Result<(), TermlandError>,
    reply: ChannelReply,
    s: SubsystemStep,
)
    requires
        call_ensures(check_ssh_login, (success,), r),
        call_ensures(subsystem_step, (reply,), s),
    ensures
        r is Ok <==> success,
        r matches Err(e) ==> e is Auth,
        s is Ready <==> reply is Success,
        s is Wait <==> reply is Other,
        s matches SubsystemStep::Fail(e) ==> e is Connect && (reply is Failure || reply is Closed),
{
}

} // verus!

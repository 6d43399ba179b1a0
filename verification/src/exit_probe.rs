use vstd::prelude::*;
use vstd::string::*;
use vstd::utf8::encode_utf8;
use crate::error::{Error, ErrorView};
use crate::text::{find, find_first, lemma_find_first, lossy_text, lossy_text_of, trim, trimmed};

verus! {

/// The port of the host that echoes the caller's address.
pub const ECHO_PORT: u16 = 80;

/// The name of the host that echoes the caller's address.
pub open spec fn echo_host() -> Seq<char> {
    "api.ipify.org"@
}

/// The greeting of a client that offers to go without authentication.
pub open spec fn greeting_bytes() -> Seq<u8> {
    seq![5u8, 1u8, 0u8]
}

/// The answer of a server that agrees to go without authentication.
pub open spec fn no_auth_reply() -> Seq<u8> {
    seq![5u8, 0u8]
}

/// The request to connect to the host named `host`, given as bytes, on
/// `port`: the name with its length before it and the port, high byte
/// first, after it.
pub open spec fn connect_bytes(host: Seq<u8>, port: u16) -> Seq<u8> {
    seq![5u8, 1u8, 0u8, 3u8, host.len() as u8] + host + seq![(port / 256) as u8, (port % 256) as u8]
}

/// The request that asks the echo host for the caller's address as text.
pub open spec fn http_request_text() -> Seq<char> {
    "GET /?format=text HTTP/1.1\r\nHost: api.ipify.org\r\nConnection: close\r\n\r\n"@
}

/// The address in a response: the text after the first empty line, without
/// the white space around it; none in a response without an empty line.
pub open spec fn exit_ip_of(response: Seq<char>) -> Option<Seq<char>> {
    match find_first(response, "\r\n\r\n"@) {
        Some(k) => Some(trimmed(response.subrange(k as int + 4, response.len() as int))),
        None => None,
    }
}

/// Reads the address out of the text of a response.
pub fn exit_ip_from_response(response: &str) -> (r: Result<String, Error>)
    ensures
        match r {
            Ok(ip) => exit_ip_of(response@) == Some(ip@),
            Err(e) => exit_ip_of(response@) is None && e@ == ErrorView::Probe,
        },
{
    proof {
        reveal_strlit("\r\n\r\n");
        lemma_find_first(response@, "\r\n\r\n"@);
    }
    match find(response, "\r\n\r\n") {
        Some(k) => {
            let n = response.unicode_len();
            Ok(String::from_str(trim(response.substring_char(k + 4, n))))
        },
        None => Err(Error::Probe),
    }
}

/// Where a probe stands.
#[derive(Debug, Clone, Copy, PartialEq, Eq, Structural)]
pub enum ProbePhase {
    /// The greeting is sent; the server's choice of method is awaited.
    Method,
    /// The request to connect is sent; the head of its reply is awaited.
    Connect,
    /// The length of the bound domain name is awaited.
    DomainLength,
    /// The rest of the bound address, of this many bytes, is awaited.
    BoundAddress { length: usize },
    /// The request for the address is sent; the response is awaited.
    Response,
    /// The probe is over.
    Finished,
}

/// What a probe asks of its connection next.
#[derive(Debug, PartialEq, Eq)]
pub enum ProbeAction {
    /// Send `send`, then read exactly `read` bytes and hand them over.
    Exchange { send: Vec<u8>, read: usize },
    /// Read exactly this many bytes and hand them over.
    Read(usize),
    /// Send `send`, then read to the end of the stream and hand that over.
    Drain { send: Vec<u8> },
    /// The probe has learned the exit address.
    Done(String),
    /// The probe has failed.
    Fail(Error),
}

/// The mathematical content of a [`ProbeAction`].
pub enum ProbeActionView {
    Exchange { send: Seq<u8>, read: usize },
    Read(usize),
    Drain { send: Seq<u8> },
    Done(Seq<char>),
    Fail(ErrorView),
}

impl View for ProbeAction {
    type V = ProbeActionView;

    open spec fn view(&self) -> ProbeActionView {
        match self {
            ProbeAction::Exchange { send, read } => ProbeActionView::Exchange {
                send: send@,
                read: *read,
            },
            ProbeAction::Read(n) => ProbeActionView::Read(*n),
            ProbeAction::Drain { send } => ProbeActionView::Drain { send: send@ },
            ProbeAction::Done(ip) => ProbeActionView::Done(ip@),
            ProbeAction::Fail(e) => ProbeActionView::Fail(e@),
        }
    }
}

/// The end of a probe that met something other than the protocol allows.
pub open spec fn failed() -> (ProbePhase, ProbeActionView) {
    (ProbePhase::Finished, ProbeActionView::Fail(ErrorView::Probe))
}

/// The phase after the bytes `input` came in, and what to do next. The
/// server must choose to go without authentication; the reply to the
/// request must report success and name an address of a known kind, whose
/// bytes are then read and passed over: six for IPv4, eighteen for IPv6, and
/// for a domain name its length, which comes first, and two more. Input of
/// another length than was asked for, and anything else, ends the probe with
/// an error.
pub open spec fn advanced(phase: ProbePhase, input: Seq<u8>) -> (ProbePhase, ProbeActionView) {
    match phase {
        ProbePhase::Method => if input == no_auth_reply() {
            (
                ProbePhase::Connect,
                ProbeActionView::Exchange {
                    send: connect_bytes(encode_utf8(echo_host()), ECHO_PORT),
                    read: 4,
                },
            )
        } else {
            failed()
        },
        ProbePhase::Connect => if input.len() == 4 && input[1] == 0 {
            if input[3] == 1 {
                (ProbePhase::BoundAddress { length: 6 }, ProbeActionView::Read(6))
            } else if input[3] == 3 {
                (ProbePhase::DomainLength, ProbeActionView::Read(1))
            } else if input[3] == 4 {
                (ProbePhase::BoundAddress { length: 18 }, ProbeActionView::Read(18))
            } else {
                failed()
            }
        } else {
            failed()
        },
        ProbePhase::DomainLength => if input.len() == 1 {
            (
                ProbePhase::BoundAddress { length: (input[0] + 2) as usize },
                ProbeActionView::Read((input[0] + 2) as usize),
            )
        } else {
            failed()
        },
        ProbePhase::BoundAddress { length } => if input.len() == length {
            (
                ProbePhase::Response,
                ProbeActionView::Drain { send: encode_utf8(http_request_text()) },
            )
        } else {
            failed()
        },
        ProbePhase::Response => match exit_ip_of(lossy_text_of(input)) {
            Some(ip) => (ProbePhase::Finished, ProbeActionView::Done(ip)),
            None => failed(),
        },
        ProbePhase::Finished => failed(),
    }
}

/// A probe for the exit address through a SOCKS5 proxy. It holds no
/// connection: it says what to send and read, and takes what was read.
pub struct ExitProbe {
    phase: ProbePhase,
}

impl View for ExitProbe {
    type V = ProbePhase;

    closed spec fn view(&self) -> ProbePhase {
        self.phase
    }
}

/// The request to connect to the echo host.
fn connect_request() -> (r: Vec<u8>)
    ensures
        r@ == connect_bytes(encode_utf8(echo_host()), ECHO_PORT),
{
    let host = "api.ipify.org";
    let name = host.as_bytes_vec();
    proof {
        reveal_strlit("api.ipify.org");
        assert(is_ascii(host));
        is_ascii_spec_bytes(host);
        assert(name@.len() == 13);
    }
    let mut r: Vec<u8> = Vec::new();
    r.push(5);
    r.push(1);
    r.push(0);
    r.push(3);
    r.push(name.len() as u8);
    let ghost head = r@;
    let mut i: usize = 0;
    while i < name.len()
        invariant
            i <= name.len(),
            r@ == head + name@.subrange(0, i as int),
        decreases name.len() - i,
    {
        r.push(name[i]);
        assert(r@ =~= head + name@.subrange(0, i + 1));
        i += 1;
    }
    assert(name@.subrange(0, name.len() as int) =~= name@);
    r.push((ECHO_PORT / 256) as u8);
    r.push((ECHO_PORT % 256) as u8);
    assert(r@ =~= connect_bytes(name@, ECHO_PORT));
    r
}

impl ExitProbe {
    /// Begins a probe: gives the probe and its first action, which sends
    /// the greeting and awaits the two bytes of the server's choice.
    pub fn start() -> (r: (ExitProbe, ProbeAction))
        ensures
            r.0@ == ProbePhase::Method,
            r.1@ == (ProbeActionView::Exchange { send: greeting_bytes(), read: 2 }),
    {
        let mut send: Vec<u8> = Vec::new();
        send.push(5);
        send.push(1);
        send.push(0);
        assert(send@ =~= greeting_bytes());
        (ExitProbe { phase: ProbePhase::Method }, ProbeAction::Exchange { send, read: 2 })
    }

    /// Where the probe stands.
    pub fn phase(&self) -> (r: ProbePhase)
        ensures
            r == self@,
    {
        self.phase
    }

    fn fail(&mut self) -> (r: ProbeAction)
        ensures
            (final(self)@, r@) == failed(),
    {
        self.phase = ProbePhase::Finished;
        ProbeAction::Fail(Error::Probe)
    }

    /// Takes the bytes that the last action asked for and gives the next
    /// action.
    pub fn advance(&mut self, input: &[u8]) -> (r: ProbeAction)
        ensures
            (final(self)@, r@) == advanced(old(self)@, input@),
    {
        match self.phase {
            ProbePhase::Method => {
                if input.len() == 2 && input[0] == 5 && input[1] == 0 {
                    assert(input@ =~= no_auth_reply());
                    self.phase = ProbePhase::Connect;
                    ProbeAction::Exchange { send: connect_request(), read: 4 }
                } else {
                    assert(input@ != no_auth_reply()) by {
                        if input@ == no_auth_reply() {
                            assert(input@.len() == 2 && input@[0] == 5 && input@[1] == 0);
                        }
                    }
                    self.fail()
                }
            },
            ProbePhase::Connect => {
                if input.len() == 4 && input[1] == 0 {
                    let kind = input[3];
                    if kind == 1 {
                        self.phase = ProbePhase::BoundAddress { length: 6 };
                        ProbeAction::Read(6)
                    } else if kind == 3 {
                        self.phase = ProbePhase::DomainLength;
                        ProbeAction::Read(1)
                    } else if kind == 4 {
                        self.phase = ProbePhase::BoundAddress { length: 18 };
                        ProbeAction::Read(18)
                    } else {
                        self.fail()
                    }
                } else {
                    self.fail()
                }
            },
            ProbePhase::DomainLength => {
                if input.len() == 1 {
                    let length: usize = input[0] as usize + 2;
                    self.phase = ProbePhase::BoundAddress { length };
                    ProbeAction::Read(length)
                } else {
                    self.fail()
                }
            },
            ProbePhase::BoundAddress { length } => {
                if input.len() == length {
                    self.phase = ProbePhase::Response;
                    let get =
                        "GET /?format=text HTTP/1.1\r\nHost: api.ipify.org\r\nConnection: close\r\n\r\n";
                    ProbeAction::Drain { send: get.as_bytes_vec() }
                } else {
                    self.fail()
                }
            },
            ProbePhase::Response => {
                let text = lossy_text(input);
                match exit_ip_from_response(text.as_str()) {
                    Ok(ip) => {
                        self.phase = ProbePhase::Finished;
                        ProbeAction::Done(ip)
                    },
                    Err(_) => self.fail(),
                }
            },
            ProbePhase::Finished => self.fail(),
        }
    }
}

} // verus!

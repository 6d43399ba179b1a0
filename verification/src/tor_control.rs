use vstd::prelude::*;
use vstd::string::*;
use crate::error::{Error, ErrorView};
use crate::split::{
    before_char, before_first, lines, lines_of, split_whitespace, strs, words_of,
};
use crate::text::{
    eq_ignore_ascii_case, has_prefix, join, joined, same_ignoring_ascii_case, starts_with,
    strip_prefix, texts, trim, trimmed,
};

verus! {

/// The hexadecimal digit of `n`, in lower case.
pub open spec fn hex_digit(n: nat) -> char
    recommends
        n < 16,
{
    if n < 10 {
        (('0' as u8) + (n as u8)) as char
    } else {
        (('a' as u8) + ((n - 10) as u8)) as char
    }
}

/// Two lower-case hexadecimal digits for each byte, the high one first.
pub open spec fn hex_of(bytes: Seq<u8>) -> Seq<char>
    decreases bytes.len(),
{
    if bytes.len() == 0 {
        Seq::empty()
    } else {
        hex_of(bytes.drop_last()) + seq![
            hex_digit((bytes.last() / 16) as nat),
            hex_digit((bytes.last() % 16) as nat),
        ]
    }
}

/// `hex::encode`: the bytes as lower-case hexadecimal text, two digits for
/// each byte. The contract states that encoding; it is not proved here.
#[verifier::external_body]
pub(crate) fn hex_encode(bytes: &[u8]) -> (r: String)
    ensures
        r@ == hex_of(bytes@),
{
    hex::encode(bytes)
}

/// What a line of a reply means.
#[derive(Debug, Clone, Copy, PartialEq, Eq, Structural)]
pub enum ReplyClass {
    /// The line that ends a reply with success.
    Final,
    /// A line that carries part of a value and is followed by more.
    Continuation,
    /// A line that reports an error.
    Failure,
    /// Any other line.
    Other,
}

/// The class of one reply line, by how it begins.
pub open spec fn class_of(line: Seq<char>) -> ReplyClass {
    if has_prefix(line, "250 "@) {
        ReplyClass::Final
    } else if has_prefix(line, "250-"@) {
        ReplyClass::Continuation
    } else if has_prefix(line, "4"@) || has_prefix(line, "5"@) {
        ReplyClass::Failure
    } else {
        ReplyClass::Other
    }
}

/// What a line carries behind its first four characters.
pub open spec fn payload_of(line: Seq<char>) -> Seq<char> {
    line.subrange(4, line.len() as int)
}

/// What the final line of a reply adds to a value: its payload, unless that
/// is blank.
pub open spec fn final_payload_of(line: Seq<char>) -> Seq<char> {
    if trimmed(payload_of(line)).len() == 0 {
        Seq::empty()
    } else {
        payload_of(line)
    }
}

/// The class of one reply line.
pub fn classify(line: &str) -> (r: ReplyClass)
    ensures
        r == class_of(line@),
{
    if starts_with(line, "250 ") {
        ReplyClass::Final
    } else if starts_with(line, "250-") {
        ReplyClass::Continuation
    } else if starts_with(line, "4") || starts_with(line, "5") {
        ReplyClass::Failure
    } else {
        ReplyClass::Other
    }
}

/// What a session waits for.
#[derive(Debug, Clone, Copy, PartialEq, Eq, Structural)]
pub enum Pending {
    /// Nothing: no command is under way.
    Idle,
    /// The reply to the authentication.
    Auth,
    /// The reply to a command that returns nothing.
    Command,
    /// The reply to a query.
    Query,
}

/// How far a reply has come after one more line.
#[derive(Debug, PartialEq, Eq)]
pub enum Progress {
    /// The reply is not complete.
    More,
    /// The command succeeded.
    Done,
    /// The query succeeded with this value.
    Value(String),
    /// The command or query failed.
    Failed(Error),
}

/// The mathematical content of a [`Progress`].
pub enum ProgressView {
    More,
    Done,
    Value(Seq<char>),
    Failed(ErrorView),
}

impl View for Progress {
    type V = ProgressView;

    open spec fn view(&self) -> ProgressView {
        match self {
            Progress::More => ProgressView::More,
            Progress::Done => ProgressView::Done,
            Progress::Value(s) => ProgressView::Value(s@),
            Progress::Failed(e) => ProgressView::Failed(e@),
        }
    }
}

/// The state of a control session as contracts see it.
pub struct SessionView {
    pub authenticated: bool,
    pub pending: Pending,
    pub value: Seq<char>,
}

/// One session of the administration protocol. It holds no connection: it
/// says which bytes to send and takes the lines that came back.
pub struct TorControl {
    authenticated: bool,
    pending: Pending,
    value: String,
}

impl View for TorControl {
    type V = SessionView;

    closed spec fn view(&self) -> SessionView {
        SessionView { authenticated: self.authenticated, pending: self.pending, value: self.value@ }
    }
}

/// The session that waits for the reply to `pending`, with no value gathered.
pub open spec fn waiting(authenticated: bool, pending: Pending) -> SessionView {
    SessionView { authenticated, pending, value: Seq::empty() }
}

/// The error that an error line gives: a refused authentication while the
/// session authenticates, a protocol error otherwise. It holds the line
/// without the white space around it.
pub open spec fn failure_of(pending: Pending, line: Seq<char>) -> ErrorView {
    if pending == Pending::Auth {
        ErrorView::Auth(trimmed(line))
    } else {
        ErrorView::ControlProtocol(trimmed(line))
    }
}

/// The session after the line `line`, and what the line brought.
pub open spec fn fed(s: SessionView, line: Seq<char>) -> (SessionView, ProgressView) {
    if s.pending == Pending::Idle {
        (s, ProgressView::More)
    } else {
        match class_of(line) {
            ReplyClass::Failure => (
                waiting(s.authenticated, Pending::Idle),
                ProgressView::Failed(failure_of(s.pending, line)),
            ),
            ReplyClass::Final => if s.pending == Pending::Query {
                (
                    waiting(s.authenticated, Pending::Idle),
                    ProgressView::Value(trimmed(s.value + final_payload_of(line))),
                )
            } else {
                (
                    waiting(s.authenticated || s.pending == Pending::Auth, Pending::Idle),
                    ProgressView::Done,
                )
            },
            ReplyClass::Continuation => if s.pending == Pending::Query {
                (
                    SessionView {
                        authenticated: s.authenticated,
                        pending: s.pending,
                        value: s.value + payload_of(line),
                    },
                    ProgressView::More,
                )
            } else {
                (s, ProgressView::More)
            },
            ReplyClass::Other => (s, ProgressView::More),
        }
    }
}

/// The text of the command that authenticates with `cookie`.
pub open spec fn authenticate_text(cookie: Seq<u8>) -> Seq<char> {
    "AUTHENTICATE "@ + hex_of(cookie) + "\r\n"@
}

/// The text of the command that sets the option `key` to `value`.
pub open spec fn set_conf_text(key: Seq<char>, value: Seq<char>) -> Seq<char> {
    "SETCONF "@ + key + "="@ + value + "\r\n"@
}

/// The text of the query for the value of `key`.
pub open spec fn get_info_text(key: Seq<char>) -> Seq<char> {
    "GETINFO "@ + key + "\r\n"@
}

impl TorControl {
    /// Begins a session: gives the session, which waits for the reply to the
    /// authentication, and the command to send, which holds the cookie in
    /// hexadecimal.
    pub fn connect(cookie: &[u8]) -> (r: (TorControl, String))
        ensures
            r.0@ == waiting(false, Pending::Auth),
            r.1@ == authenticate_text(cookie@),
    {
        let mut cmd = String::from_str("AUTHENTICATE ");
        let hex = hex_encode(cookie);
        cmd.append(hex.as_str());
        cmd.append("\r\n");
        (TorControl { authenticated: false, pending: Pending::Auth, value: String::new() }, cmd)
    }

    /// Whether the supervised process has accepted the authentication.
    pub fn is_authenticated(&self) -> (r: bool)
        ensures
            r == self@.authenticated,
    {
        self.authenticated
    }

    /// What the session waits for.
    pub fn pending(&self) -> (r: Pending)
        ensures
            r == self@.pending,
    {
        self.pending
    }

    /// Begins the command that asks for a new identity; gives its text.
    pub fn signal_newnym(&mut self) -> (r: String)
        ensures
            final(self)@ == waiting(old(self)@.authenticated, Pending::Command),
            r@ == "SIGNAL NEWNYM\r\n"@,
    {
        self.pending = Pending::Command;
        self.value = String::new();
        String::from_str("SIGNAL NEWNYM\r\n")
    }

    /// Begins the query for the value of `key`; gives its text.
    pub fn get_info(&mut self, key: &str) -> (r: String)
        ensures
            final(self)@ == waiting(old(self)@.authenticated, Pending::Query),
            r@ == get_info_text(key@),
    {
        self.pending = Pending::Query;
        self.value = String::new();
        let mut cmd = String::from_str("GETINFO ");
        cmd.append(key);
        cmd.append("\r\n");
        cmd
    }

    /// Begins the command that sets the option `key` to `value`; gives its
    /// text.
    pub fn set_conf(&mut self, key: &str, value: &str) -> (r: String)
        ensures
            final(self)@ == waiting(old(self)@.authenticated, Pending::Command),
            r@ == set_conf_text(key@, value@),
    {
        self.pending = Pending::Command;
        self.value = String::new();
        let mut cmd = String::from_str("SETCONF ");
        cmd.append(key);
        cmd.append("=");
        cmd.append(value);
        cmd.append("\r\n");
        cmd
    }

    /// Begins the query for the state of the circuits; gives its text.
    pub fn circuits(&mut self) -> (r: String)
        ensures
            final(self)@ == waiting(old(self)@.authenticated, Pending::Query),
            r@ == get_info_text("circuit-status"@),
    {
        self.get_info("circuit-status")
    }

    /// Takes the next line of the reply. A line that begins with `4` or `5`
    /// always fails the command under way, whatever it is.
    pub fn feed(&mut self, line: &str) -> (r: Progress)
        ensures
            (final(self)@, r@) == fed(old(self)@, line@),
    {
        if self.pending == Pending::Idle {
            return Progress::More;
        }
        let class = classify(line);
        match class {
            ReplyClass::Failure => {
                let text = String::from_str(trim(line));
                let err = if self.pending == Pending::Auth {
                    Error::Auth(text)
                } else {
                    Error::ControlProtocol(text)
                };
                self.pending = Pending::Idle;
                self.value = String::new();
                Progress::Failed(err)
            },
            ReplyClass::Final => {
                if self.pending == Pending::Query {
                    proof {
                        reveal_strlit("250 ");
                    }
                    match strip_prefix(line, "250 ") {
                        Some(rest) => {
                            if !trim(rest).is_empty() {
                                self.value.append(rest);
                            }
                        },
                        None => {},
                    }
                    proof {
                        if trimmed(payload_of(line@)).len() == 0 {
                            assert(old(self)@.value + final_payload_of(line@) =~= old(self)@.value);
                        }
                    }
                    let out = String::from_str(trim(self.value.as_str()));
                    self.pending = Pending::Idle;
                    self.value = String::new();
                    Progress::Value(out)
                } else {
                    if self.pending == Pending::Auth {
                        self.authenticated = true;
                    }
                    self.pending = Pending::Idle;
                    self.value = String::new();
                    Progress::Done
                }
            },
            ReplyClass::Continuation => {
                if self.pending == Pending::Query {
                    proof {
                        reveal_strlit("250-");
                    }
                    match strip_prefix(line, "250-") {
                        Some(rest) => {
                            self.value.append(rest);
                        },
                        None => {},
                    }
                }
                Progress::More
            },
            ReplyClass::Other => Progress::More,
        }
    }

    /// The error of a connection that ended before the reply was complete.
    /// The session then waits for nothing.
    pub fn closed(&mut self) -> (r: Error)
        ensures
            final(self)@ == waiting(old(self)@.authenticated, Pending::Idle),
            r@ == ErrorView::Connect("control: EOF"@),
    {
        self.pending = Pending::Idle;
        self.value = String::new();
        Error::Connect(String::from_str("control: EOF"))
    }
}

/// What a reply brings to a session in state `s`: the first thing that one
/// of its lines brings other than the wish for more, or that wish where every
/// line leaves it.
pub open spec fn reply_of(s: SessionView, lines: Seq<Seq<char>>) -> ProgressView
    decreases lines.len(),
{
    if lines.len() == 0 {
        ProgressView::More
    } else {
        let step = fed(s, lines[0]);
        if step.1 is More {
            reply_of(step.0, lines.drop_first())
        } else {
            step.1
        }
    }
}

/// The error of a reply that ends too early.
pub open spec fn eof_error() -> ErrorView {
    ErrorView::Connect("control: EOF"@)
}

/// What a command that returns nothing gives on the reply `lines`.
pub open spec fn command_outcome(lines: Seq<Seq<char>>) -> Result<(), ErrorView> {
    match reply_of(waiting(true, Pending::Command), lines) {
        ProgressView::Done => Ok(()),
        ProgressView::Failed(e) => Err(e),
        _ => Err(eof_error()),
    }
}

/// What a query gives on the reply `lines`.
pub open spec fn query_outcome(lines: Seq<Seq<char>>) -> Result<Seq<char>, ErrorView> {
    match reply_of(waiting(true, Pending::Query), lines) {
        ProgressView::Value(v) => Ok(v),
        ProgressView::Failed(e) => Err(e),
        _ => Err(eof_error()),
    }
}

/// The payloads of the continuation lines among `lines`, one after another.
pub open spec fn payloads_of(lines: Seq<Seq<char>>) -> Seq<char>
    decreases lines.len(),
{
    if lines.len() == 0 {
        Seq::empty()
    } else if class_of(lines[0]) == ReplyClass::Continuation {
        payload_of(lines[0]) + payloads_of(lines.drop_first())
    } else {
        payloads_of(lines.drop_first())
    }
}

/// Whether no line of `lines` ends a reply, with success or with an error.
pub open spec fn all_open(lines: Seq<Seq<char>>) -> bool {
    forall|i: int|
        0 <= i < lines.len() ==> class_of(#[trigger] lines[i]) != ReplyClass::Final && class_of(
            lines[i],
        ) != ReplyClass::Failure
}

impl TorControl {
    /// Runs a whole reply through a session that waits for `pending`.
    fn run(pending: Pending, lines: &Vec<String>) -> (r: Progress)
        requires
            pending != Pending::Idle,
        ensures
            r@ == reply_of(waiting(true, pending), texts(lines@)),
    {
        let mut ctl = TorControl { authenticated: true, pending, value: String::new() };
        let mut i: usize = 0;
        assert(texts(lines@).subrange(0, lines.len() as int) =~= texts(lines@));
        while i < lines.len()
            invariant
                i <= lines.len(),
                reply_of(ctl@, texts(lines@).subrange(i as int, lines.len() as int)) == reply_of(
                    waiting(true, pending),
                    texts(lines@),
                ),
            decreases lines.len() - i,
        {
            let ghost rest = texts(lines@).subrange(i as int, lines.len() as int);
            proof {
                assert(rest[0] == lines@[i as int]@);
                assert(rest.drop_first() =~= texts(lines@).subrange(i + 1, lines.len() as int));
            }
            let step = ctl.feed(lines[i].as_str());
            match step {
                Progress::More => {},
                other => {
                    return other;
                },
            }
            i += 1;
        }
        Progress::More
    }

    /// What a command that returns nothing gives on the whole reply `lines`:
    /// success at the first final line, the error of the first error line
    /// where that comes earlier, and the error of a lost connection where the
    /// lines hold neither.
    pub fn send_cmd(lines: &Vec<String>) -> (r: Result<(), Error>)
        ensures
            match r {
                Ok(_) => command_outcome(texts(lines@)) == Ok::<(), ErrorView>(()),
                Err(e) => command_outcome(texts(lines@)) == Err::<(), ErrorView>(e@),
            },
    {
        match Self::run(Pending::Command, lines) {
            Progress::Done => Ok(()),
            Progress::Failed(e) => Err(e),
            _ => Err(Error::Connect(String::from_str("control: EOF"))),
        }
    }

    /// What a query gives on the whole reply `lines`: the payloads of the
    /// continuation lines up to the first final line, then that line's
    /// payload unless it is blank, all without the white space around it.
    pub fn query_value(lines: &Vec<String>) -> (r: Result<String, Error>)
        ensures
            match r {
                Ok(v) => query_outcome(texts(lines@)) == Ok::<Seq<char>, ErrorView>(v@),
                Err(e) => query_outcome(texts(lines@)) == Err::<Seq<char>, ErrorView>(e@),
            },
    {
        match Self::run(Pending::Query, lines) {
            Progress::Value(v) => Ok(v),
            Progress::Failed(e) => Err(e),
            _ => Err(Error::Connect(String::from_str("control: EOF"))),
        }
    }
}

/// A query that has gathered `value` and then reads open lines and a final
/// line gives the value, the payloads of the open lines and what the final
/// line adds, without the white space around them.
pub proof fn lemma_query_gathers(s: SessionView, lines: Seq<Seq<char>>)
    requires
        s.pending == Pending::Query,
        lines.len() >= 1,
        class_of(lines.last()) == ReplyClass::Final,
        all_open(lines.drop_last()),
    ensures
        reply_of(s, lines) == ProgressView::Value(
            trimmed(s.value + payloads_of(lines.drop_last()) + final_payload_of(lines.last())),
        ),
    decreases lines.len(),
{
    if lines.len() == 1 {
        assert(lines[0] == lines.last());
        assert(payloads_of(lines.drop_last()) =~= Seq::<char>::empty());
        assert(s.value + Seq::<char>::empty() =~= s.value);
    } else {
        let rest = lines.drop_first();
        let front = lines.drop_last();
        assert(front[0] == lines[0]);
        assert(rest.last() == lines.last());
        assert(rest.drop_last() =~= front.drop_first());
        assert(all_open(rest.drop_last())) by {
            assert forall|i: int| 0 <= i < rest.drop_last().len() implies class_of(
                #[trigger] rest.drop_last()[i],
            ) != ReplyClass::Final && class_of(rest.drop_last()[i]) != ReplyClass::Failure by {
                assert(rest.drop_last()[i] == front[i + 1]);
            }
        }
        let step = fed(s, lines[0]);
        lemma_query_gathers(step.0, rest);
        if class_of(lines[0]) == ReplyClass::Continuation {
            assert(s.value + payload_of(lines[0]) + payloads_of(front.drop_first())
                + final_payload_of(lines.last()) =~= s.value + payloads_of(front)
                + final_payload_of(lines.last()));
        }
    }
}

/// A reply whose first line that ends it begins with `4` or `5` fails a
/// command and a query alike, with the error that holds that line.
pub proof fn law_error_reply_is_error(lines: Seq<Seq<char>>, k: int)
    requires
        0 <= k < lines.len(),
        has_prefix(lines[k], "4"@) || has_prefix(lines[k], "5"@),
        all_open(lines.subrange(0, k)),
    ensures
        command_outcome(lines) == Err::<(), ErrorView>(
            ErrorView::ControlProtocol(trimmed(lines[k])),
        ),
        query_outcome(lines) == Err::<Seq<char>, ErrorView>(
            ErrorView::ControlProtocol(trimmed(lines[k])),
        ),
{
    law_error_reply_fails(waiting(true, Pending::Command), lines, k);
    law_error_reply_fails(waiting(true, Pending::Query), lines, k);
}

/// For a reply of continuation lines, with other lines that are no errors
/// among them, and then a final line, a query returns exactly the payloads
/// of the continuation lines, one after another, then the payload of the
/// final line unless that is blank, without the white space around the
/// whole.
pub proof fn law_query_value_is_payloads(lines: Seq<Seq<char>>)
    requires
        lines.len() >= 1,
        class_of(lines.last()) == ReplyClass::Final,
        all_open(lines.drop_last()),
    ensures
        query_outcome(lines) == Ok::<Seq<char>, ErrorView>(
            trimmed(payloads_of(lines.drop_last()) + final_payload_of(lines.last())),
        ),
{
    lemma_query_gathers(waiting(true, Pending::Query), lines);
    assert(Seq::<char>::empty() + payloads_of(lines.drop_last()) =~= payloads_of(
        lines.drop_last(),
    ));
}

/// A line that begins with `4` or `5` is an error line.
pub proof fn lemma_error_line_class(line: Seq<char>)
    requires
        has_prefix(line, "4"@) || has_prefix(line, "5"@),
    ensures
        class_of(line) == ReplyClass::Failure,
{
    reveal_strlit("250 ");
    reveal_strlit("250-");
    reveal_strlit("4");
    reveal_strlit("5");
    assert(line.subrange(0, 1)[0] == line[0]);
    if line.len() >= 4 {
        assert(line.subrange(0, 4)[0] == line[0]);
    }
}

/// A line that begins with `4` or `5` fails whatever the session waits for:
/// the authentication, a command or a query. It never brings success.
pub proof fn law_error_line_fails(s: SessionView, line: Seq<char>)
    requires
        s.pending != Pending::Idle,
        has_prefix(line, "4"@) || has_prefix(line, "5"@),
    ensures
        fed(s, line).1 == ProgressView::Failed(failure_of(s.pending, line)),
        fed(s, line).0.pending == Pending::Idle,
{
    lemma_error_line_class(line);
}

/// A reply whose first line that ends it begins with `4` or `5` gives an
/// error, for a command and for a query alike.
pub proof fn law_error_reply_fails(s: SessionView, lines: Seq<Seq<char>>, k: int)
    requires
        s.pending != Pending::Idle,
        0 <= k < lines.len(),
        has_prefix(lines[k], "4"@) || has_prefix(lines[k], "5"@),
        all_open(lines.subrange(0, k)),
    ensures
        reply_of(s, lines) == ProgressView::Failed(failure_of(s.pending, lines[k])),
    decreases k,
{
    if k == 0 {
        law_error_line_fails(s, lines[0]);
    } else {
        let front = lines.subrange(0, k);
        let rest = lines.drop_first();
        assert(front[0] == lines[0]);
        assert(rest[k - 1] == lines[k]);
        assert(all_open(rest.subrange(0, k - 1))) by {
            assert forall|i: int| 0 <= i < k - 1 implies class_of(
                #[trigger] rest.subrange(0, k - 1)[i],
            ) != ReplyClass::Final && class_of(rest.subrange(0, k - 1)[i])
                != ReplyClass::Failure by {
                assert(rest.subrange(0, k - 1)[i] == front[i + 1]);
            }
        }
        law_error_reply_fails(fed(s, lines[0]).0, rest, k - 1);
    }
}

/// The keys that a health summary asks for, in order.
pub open spec fn health_key_texts() -> Seq<Seq<char>> {
    seq![
        "status/bootstrap-phase"@,
        "net/listeners/socks"@,
        "net/listeners/dns"@,
        "status/circuit-established"@,
        "traffic/read"@,
        "traffic/written"@,
    ]
}

/// The keys that a health summary asks for, in order.
pub fn health_keys() -> (r: Vec<&'static str>)
    ensures
        r@.len() == 6,
        strs(r@) == health_key_texts(),
{
    let mut r: Vec<&'static str> = Vec::new();
    r.push("status/bootstrap-phase");
    r.push("net/listeners/socks");
    r.push("net/listeners/dns");
    r.push("status/circuit-established");
    r.push("traffic/read");
    r.push("traffic/written");
    assert(strs(r@) =~= health_key_texts());
    r
}

/// The views of a sequence of optional strings.
pub open spec fn opt_texts(v: Seq<Option<String>>) -> Seq<Option<Seq<char>>> {
    Seq::new(
        v.len(),
        |i: int|
            match v[i] {
                Some(s) => Some(s@),
                None => None,
            },
    )
}

/// The line of a summary for one key: the key, an equals sign and the value
/// where the key has one, and nothing where it has none.
pub open spec fn health_line(key: Seq<char>, value: Option<Seq<char>>) -> Seq<char> {
    match value {
        Some(v) => key + "="@ + v + "\n"@,
        None => Seq::empty(),
    }
}

/// The lines of the first `n` keys, one after another. A key beyond the end
/// of `values` has no value.
pub open spec fn health_text(
    keys: Seq<Seq<char>>,
    values: Seq<Option<Seq<char>>>,
    n: nat,
) -> Seq<char>
    decreases n,
{
    if n == 0 || n > keys.len() {
        Seq::empty()
    } else {
        health_text(keys, values, (n - 1) as nat) + health_line(
            keys[n - 1],
            if n - 1 < values.len() {
                values[n - 1]
            } else {
                None
            },
        )
    }
}

impl TorControl {
    /// The health summary: one line `key=value` for each key of
    /// [`health_keys`] whose query gave a value, in the order of the keys.
    /// `values` holds what the query for each key gave; a failed query gives
    /// nothing and leaves no line.
    pub fn health_summary(values: &Vec<Option<String>>) -> (r: String)
        ensures
            r@ == health_text(health_key_texts(), opt_texts(values@), 6),
    {
        let keys = health_keys();
        let mut out = String::new();
        let mut i: usize = 0;
        while i < keys.len()
            invariant
                i <= keys.len() == 6,
                strs(keys@) == health_key_texts(),
                out@ == health_text(health_key_texts(), opt_texts(values@), i as nat),
            decreases keys.len() - i,
        {
            assert(strs(keys@)[i as int] == keys@[i as int]@);
            if i < values.len() {
                match &values[i] {
                    Some(v) => {
                        out.append(keys[i]);
                        out.append("=");
                        out.append(v.as_str());
                        out.append("\n");
                        assert(out@ =~= health_text(
                            health_key_texts(),
                            opt_texts(values@),
                            i as nat,
                        ) + (keys@[i as int]@ + "="@ + v@ + "\n"@));
                    },
                    None => {
                        assert(out@ + Seq::<char>::empty() =~= out@);
                    },
                }
            } else {
                assert(out@ + Seq::<char>::empty() =~= out@);
            }
            i += 1;
        }
        out
    }
}

/// Where an external configuration says the control cookie is.
#[derive(Debug, PartialEq, Eq)]
pub enum CookieSetting {
    /// The file named by `CookieAuthFile`.
    File(String),
    /// The file `control_auth_cookie` in the directory named by
    /// `DataDirectory`.
    InDataDirectory(String),
    /// The configuration names neither.
    Unset,
}

/// The mathematical content of a [`CookieSetting`].
pub enum CookieSettingView {
    File(Seq<char>),
    InDataDirectory(Seq<char>),
    Unset,
}

impl View for CookieSetting {
    type V = CookieSettingView;

    open spec fn view(&self) -> CookieSettingView {
        match self {
            CookieSetting::File(p) => CookieSettingView::File(p@),
            CookieSetting::InDataDirectory(p) => CookieSettingView::InDataDirectory(p@),
            CookieSetting::Unset => CookieSettingView::Unset,
        }
    }
}

/// The value that one configuration line gives to the option `name`: the
/// words after the option's name, with one space between them, where the
/// line, without its comment, begins with that name in any case and holds
/// more words.
pub open spec fn line_setting(line: Seq<char>, name: Seq<char>) -> Option<Seq<char>> {
    let words = words_of(before_first(line, '#'));
    if words.len() > 1 && same_ignoring_ascii_case(words[0], name) {
        Some(joined(words.drop_first(), " "@))
    } else {
        None
    }
}

/// The value that the last line to set the option `name` gives it.
pub open spec fn last_setting(lines: Seq<Seq<char>>, name: Seq<char>) -> Option<Seq<char>>
    decreases lines.len(),
{
    if lines.len() == 0 {
        None
    } else {
        match line_setting(lines.last(), name) {
            Some(v) => Some(v),
            None => last_setting(lines.drop_last(), name),
        }
    }
}

/// Where the configuration `text` says the cookie is: a `CookieAuthFile`
/// comes before a `DataDirectory`.
pub open spec fn cookie_setting_of(text: Seq<char>) -> CookieSettingView {
    match last_setting(lines_of(text), "CookieAuthFile"@) {
        Some(p) => CookieSettingView::File(p),
        None => match last_setting(lines_of(text), "DataDirectory"@) {
            Some(d) => CookieSettingView::InDataDirectory(d),
            None => CookieSettingView::Unset,
        },
    }
}

/// The value that `line` gives to the option `name`, if any.
fn setting_in_line(line: &str, name: &str) -> (r: Option<String>)
    ensures
        match r {
            Some(v) => line_setting(line@, name@) == Some(v@),
            None => line_setting(line@, name@) is None,
        },
{
    let words = split_whitespace(before_char(line, '#'));
    if words.len() > 1 && eq_ignore_ascii_case(words[0], name) {
        let mut rest: Vec<String> = Vec::new();
        let mut i: usize = 1;
        while i < words.len()
            invariant
                1 <= i <= words.len(),
                texts(rest@) == strs(words@).subrange(1, i as int),
            decreases words.len() - i,
        {
            let ghost before = rest@;
            rest.push(String::from_str(words[i]));
            assert(texts(rest@) =~= texts(before).push(words@[i as int]@));
            assert(texts(rest@) =~= strs(words@).subrange(1, i + 1));
            i += 1;
        }
        assert(strs(words@).subrange(1, words.len() as int) =~= strs(words@).drop_first());
        Some(join(&rest, " "))
    } else {
        None
    }
}

/// Reads from the text of an external configuration where the control cookie
/// is. Lines are read one by one and text after `#` is ignored; the last
/// `CookieAuthFile` line counts, and where there is none the last
/// `DataDirectory` line.
pub fn cookie_from_torrc(text: &str) -> (r: CookieSetting)
    ensures
        r@ == cookie_setting_of(text@),
{
    let all = lines(text);
    let mut data_dir: Option<String> = None;
    let mut cookie_file: Option<String> = None;
    let mut i: usize = 0;
    while i < all.len()
        invariant
            i <= all.len(),
            strs(all@) == lines_of(text@),
            match cookie_file {
                Some(v) => last_setting(strs(all@).subrange(0, i as int), "CookieAuthFile"@)
                    == Some(v@),
                None => last_setting(strs(all@).subrange(0, i as int), "CookieAuthFile"@)
                    is None,
            },
            match data_dir {
                Some(v) => last_setting(strs(all@).subrange(0, i as int), "DataDirectory"@)
                    == Some(v@),
                None => last_setting(strs(all@).subrange(0, i as int), "DataDirectory"@) is None,
            },
        decreases all.len() - i,
    {
        proof {
            let next = strs(all@).subrange(0, i + 1);
            assert(next.drop_last() =~= strs(all@).subrange(0, i as int));
            assert(next.last() == all@[i as int]@);
        }
        match setting_in_line(all[i], "DataDirectory") {
            Some(v) => {
                data_dir = Some(v);
            },
            None => {},
        }
        match setting_in_line(all[i], "CookieAuthFile") {
            Some(v) => {
                cookie_file = Some(v);
            },
            None => {},
        }
        i += 1;
    }
    assert(strs(all@).subrange(0, all.len() as int) =~= strs(all@));
    match cookie_file {
        Some(p) => CookieSetting::File(p),
        None => match data_dir {
            Some(d) => CookieSetting::InDataDirectory(d),
            None => CookieSetting::Unset,
        },
    }
}

/// The conventional places of the cookie, relative to the state directory,
/// in the order in which they are tried.
pub open spec fn conventional_texts() -> Seq<Seq<char>> {
    seq!["tor-data/control_auth_cookie"@, "control_auth_cookie"@, "data/control_auth_cookie"@]
}

/// The conventional places of the cookie, relative to the state directory,
/// in the order in which they are tried.
pub fn conventional_cookie_paths() -> (r: Vec<&'static str>)
    ensures
        strs(r@) == conventional_texts(),
{
    let mut r: Vec<&'static str> = Vec::new();
    r.push("tor-data/control_auth_cookie");
    r.push("control_auth_cookie");
    r.push("data/control_auth_cookie");
    assert(strs(r@) =~= conventional_texts());
    r
}

/// A place where the cookie may be, and whether a file is there.
#[derive(Debug, PartialEq, Eq)]
pub struct Candidate {
    pub path: String,
    pub exists: bool,
}

/// What is known of the places where the cookie may be.
#[derive(Debug, PartialEq, Eq)]
pub struct CookieSources {
    /// The explicit override, where one is set, and whether it exists.
    pub explicit: Option<Candidate>,
    /// The path that an external configuration gives, where one is referred
    /// to, exists and names the cookie.
    pub configured: Option<String>,
    /// The conventional places under the state directory, in order.
    pub conventional: Vec<Candidate>,
}

/// Index of the first candidate that exists, or the number of candidates.
pub open spec fn first_existing(c: Seq<Candidate>) -> nat
    decreases c.len(),
{
    if c.len() == 0 || c[0].exists {
        0
    } else {
        1 + first_existing(c.drop_first())
    }
}

/// What the error of a failed search says: every source that was tried.
pub open spec fn not_found_text(state_dir: Seq<char>) -> Seq<char> {
    "could not locate Tor control_auth_cookie; tried TORVPN_COOKIE_PATH, TORVPN_TORRC_PATH, and common paths under "@
        + state_dir
}

/// The cookie that the sources give. An explicit path that exists wins;
/// then comes what the external configuration names; then the first
/// conventional place that exists.
pub open spec fn discovered(src: &CookieSources, state_dir: Seq<char>) -> Result<
    Seq<char>,
    ErrorView,
> {
    if src.explicit is Some && src.explicit.unwrap().exists {
        Ok(src.explicit.unwrap().path@)
    } else if src.configured is Some {
        Ok(src.configured.unwrap()@)
    } else if first_existing(src.conventional@) < src.conventional.len() {
        Ok(src.conventional@[first_existing(src.conventional@) as int].path@)
    } else {
        Err(ErrorView::CookieNotFound(not_found_text(state_dir)))
    }
}

/// Picks the control cookie among the sources, by precedence; fails, naming
/// all three kinds of source, where none gives one.
pub fn discover_control_cookie(src: &CookieSources, state_dir: &str) -> (r: Result<String, Error>)
    ensures
        match r {
            Ok(p) => discovered(src, state_dir@) == Ok::<Seq<char>, ErrorView>(p@),
            Err(e) => discovered(src, state_dir@) == Err::<Seq<char>, ErrorView>(e@),
        },
{
    match &src.explicit {
        Some(c) => {
            if c.exists {
                return Ok(c.path.clone());
            }
        },
        None => {},
    }
    match &src.configured {
        Some(p) => {
            return Ok(p.clone());
        },
        None => {},
    }
    let mut i: usize = 0;
    assert(src.conventional@.subrange(0, src.conventional.len() as int) =~= src.conventional@);
    while i < src.conventional.len()
        invariant
            i <= src.conventional.len(),
            !(src.explicit is Some && src.explicit.unwrap().exists),
            src.configured is None,
            first_existing(src.conventional@) == i + first_existing(
                src.conventional@.subrange(i as int, src.conventional.len() as int),
            ),
        decreases src.conventional.len() - i,
    {
        let ghost rest = src.conventional@.subrange(i as int, src.conventional.len() as int);
        assert(rest[0] == src.conventional@[i as int]);
        if src.conventional[i].exists {
            return Ok(src.conventional[i].path.clone());
        }
        assert(rest.drop_first() =~= src.conventional@.subrange(
            i + 1,
            src.conventional.len() as int,
        ));
        i += 1;
    }
    let mut msg = String::from_str(
        "could not locate Tor control_auth_cookie; tried TORVPN_COOKIE_PATH, TORVPN_TORRC_PATH, and common paths under ",
    );
    msg.append(state_dir);
    Err(Error::CookieNotFound(msg))
}

/// One step of a change of policy.
#[derive(Debug, PartialEq, Eq)]
pub enum ControlStep {
    /// Set the option `key` to `value`. Where `required` holds, a failure
    /// ends the change; otherwise it is passed over.
    SetConf { key: String, value: String, required: bool },
    /// Ask for a new identity; a failure is passed over.
    SignalNewnym,
    /// Move the proxy manager to its next proxy and store its cursor; a
    /// failure is passed over.
    AdvanceProxy,
    /// Wait for the given number of milliseconds.
    Settle { millis: u64 },
}

/// The mathematical content of a [`ControlStep`].
pub enum StepView {
    SetConf { key: Seq<char>, value: Seq<char>, required: bool },
    SignalNewnym,
    AdvanceProxy,
    Settle { millis: u64 },
}

impl View for ControlStep {
    type V = StepView;

    open spec fn view(&self) -> StepView {
        match self {
            ControlStep::SetConf { key, value, required } => StepView::SetConf {
                key: key@,
                value: value@,
                required: *required,
            },
            ControlStep::SignalNewnym => StepView::SignalNewnym,
            ControlStep::AdvanceProxy => StepView::AdvanceProxy,
            ControlStep::Settle { millis } => StepView::Settle { millis: *millis },
        }
    }
}

/// The views of a sequence of steps.
pub open spec fn steps(v: Seq<ControlStep>) -> Seq<StepView> {
    Seq::new(v.len(), |i: int| v[i]@)
}

/// The step that sets an option and must succeed.
pub open spec fn must_set(key: Seq<char>, value: Seq<char>) -> StepView {
    StepView::SetConf { key, value, required: true }
}

/// The step that sets an option and may fail.
pub open spec fn may_set(key: Seq<char>, value: Seq<char>) -> StepView {
    StepView::SetConf { key, value, required: false }
}

impl ControlStep {
    /// The step that sets the option `key` to `value`.
    pub fn set(key: &str, value: &str, required: bool) -> (r: ControlStep)
        ensures
            r@ == (StepView::SetConf { key: key@, value: value@, required }),
    {
        ControlStep::SetConf {
            key: String::from_str(key),
            value: String::from_str(value),
            required,
        }
    }

    /// Whether a failure of this step ends the change it belongs to.
    pub fn is_required(&self) -> (r: bool)
        ensures
            r == (self@ is SetConf && self@->required),
    {
        match self {
            ControlStep::SetConf { required, .. } => *required,
            _ => false,
        }
    }
}

/// The first candidate that exists, after candidates that do not, is the
/// one that `first_existing` gives.
pub proof fn lemma_first_existing_is(c: Seq<Candidate>, k: int)
    requires
        0 <= k <= c.len(),
        forall|j: int| 0 <= j < k ==> !(#[trigger] c[j]).exists,
        k < c.len() ==> c[k].exists,
    ensures
        first_existing(c) == k,
    decreases k,
{
    if k > 0 {
        let t = c.drop_first();
        assert forall|j: int| 0 <= j < k - 1 implies !(#[trigger] t[j]).exists by {
            assert(t[j] == c[j + 1]);
        }
        lemma_first_existing_is(t, k - 1);
    }
}

/// The order of the sources. An explicit path that exists is the cookie,
/// whatever the external configuration and the conventional places hold.
/// Without it, what the external configuration names is the cookie. Without
/// both, the first conventional place that exists is the cookie. Without
/// any, the search fails with an error that names the sources tried.
pub proof fn law_cookie_precedence(src: &CookieSources, state_dir: Seq<char>, k: int)
    requires
        0 <= k <= src.conventional@.len(),
        forall|j: int| 0 <= j < k ==> !(#[trigger] src.conventional@[j]).exists,
        k < src.conventional@.len() ==> src.conventional@[k].exists,
    ensures
        src.explicit is Some && src.explicit.unwrap().exists ==> discovered(src, state_dir)
            == Ok::<Seq<char>, ErrorView>(src.explicit.unwrap().path@),
        !(src.explicit is Some && src.explicit.unwrap().exists) && src.configured is Some
            ==> discovered(src, state_dir) == Ok::<Seq<char>, ErrorView>(
            src.configured.unwrap()@,
        ),
        !(src.explicit is Some && src.explicit.unwrap().exists) && src.configured is None && k
            < src.conventional@.len() ==> discovered(src, state_dir) == Ok::<
            Seq<char>,
            ErrorView,
        >(src.conventional@[k].path@),
        !(src.explicit is Some && src.explicit.unwrap().exists) && src.configured is None && k
            == src.conventional@.len() ==> discovered(src, state_dir) == Err::<
            Seq<char>,
            ErrorView,
        >(ErrorView::CookieNotFound(not_found_text(state_dir))),
{
    lemma_first_existing_is(src.conventional@, k);
}

/// A configuration that sets `CookieAuthFile` gives that file, whether or
/// not it sets `DataDirectory` too; one that sets `DataDirectory` alone
/// gives the cookie in that directory.
pub proof fn law_cookie_file_before_data_directory(text: Seq<char>)
    ensures
        last_setting(lines_of(text), "CookieAuthFile"@) is Some ==> cookie_setting_of(text)
            == CookieSettingView::File(last_setting(lines_of(text), "CookieAuthFile"@).unwrap()),
        last_setting(lines_of(text), "CookieAuthFile"@) is None && last_setting(
            lines_of(text),
            "DataDirectory"@,
        ) is Some ==> cookie_setting_of(text) == CookieSettingView::InDataDirectory(
            last_setting(lines_of(text), "DataDirectory"@).unwrap(),
        ),
{
}

} // verus!

use vstd::prelude::*;
use vstd::string::*;
use crate::config::{Config, HopItem};
use crate::number::{decimal_of, push_decimal};
use crate::state::{file_doc, opt_bytes, HopPlanSnapshot, HopStateDoc};
use crate::tor_control::{may_set, must_set, steps, ControlStep, StepView};
use crate::tor_manager::{brace, braced};
use crate::error::{Error, ErrorView};
use crate::split::{
    before_first, lemma_first_index_bound, lines, lines_of, split, split_on, split_once,
    split_once_at, split_whitespace, strs, words_of,
};
use crate::text::{
    has_prefix, join, joined, lossy_text, lossy_text_of, lowercase_of, starts_with, str_eq,
    strip_prefix, texts, to_lowercase, trim, trimmed, without_prefix,
};

verus! {

/// The path of a request target: what stands before its first question
/// mark.
pub open spec fn path_of(target: Seq<char>) -> Seq<char> {
    before_first(target, '?')
}

/// The query string of a request target: what follows its first question
/// mark, where it has one.
pub open spec fn query_of(target: Seq<char>) -> Option<Seq<char>> {
    match split_once_at(target, '?') {
        Some(parts) => Some(parts.1),
        None => None,
    }
}

/// The view of an optional string slice.
pub open spec fn opt_str(s: Option<&str>) -> Option<Seq<char>> {
    match s {
        Some(x) => Some(x@),
        None => None,
    }
}

/// Splits a request target into its path and its query string.
pub fn parse_query<'a>(path: &'a str) -> (r: (&'a str, Option<&'a str>))
    ensures
        r.0@ == path_of(path@),
        opt_str(r.1) == query_of(path@),
{
    match split_once(path, '?') {
        Some((p, q)) => (p, Some(q)),
        None => {
            let n = path.unicode_len();
            let all = path.substring_char(0, n);
            proof {
                lemma_first_index_bound(path@, '?');
                assert(path@.subrange(0, n as int) =~= path@);
            }
            (all, None)
        },
    }
}

/// The value that one pair `name=value` gives to `key`.
pub open spec fn pair_value(pair: Seq<char>, key: Seq<char>) -> Option<Seq<char>> {
    match split_once_at(pair, '=') {
        Some(parts) => if parts.0 == key {
            Some(parts.1)
        } else {
            None
        },
        None => None,
    }
}

/// The value of the first pair that names `key`.
pub open spec fn first_value(pairs: Seq<Seq<char>>, key: Seq<char>) -> Option<Seq<char>>
    decreases pairs.len(),
{
    if pairs.len() == 0 {
        None
    } else {
        match pair_value(pairs[0], key) {
            Some(v) => Some(v),
            None => first_value(pairs.drop_first(), key),
        }
    }
}

/// The value of the parameter `key` in a query string: that of the first of
/// its pairs, which `&` separates, that names `key`.
pub open spec fn param_of(query: Option<Seq<char>>, key: Seq<char>) -> Option<Seq<char>> {
    match query {
        Some(q) => first_value(split_on(q, '&'), key),
        None => None,
    }
}

/// The value of the parameter `key` in the query string `q`.
pub fn query_get<'a>(q: Option<&'a str>, key: &str) -> (r: Option<&'a str>)
    ensures
        opt_str(r) == param_of(opt_str(q), key@),
{
    match q {
        None => None,
        Some(qs) => {
            let pairs = split(qs, '&');
            let mut i: usize = 0;
            assert(strs(pairs@).subrange(0, pairs.len() as int) =~= strs(pairs@));
            while i < pairs.len()
                invariant
                    i <= pairs.len(),
                    opt_str(q) == Some(qs@),
                    strs(pairs@) == split_on(qs@, '&'),
                    first_value(strs(pairs@).subrange(i as int, pairs.len() as int), key@)
                        == first_value(strs(pairs@), key@),
                decreases pairs.len() - i,
            {
                let ghost rest = strs(pairs@).subrange(i as int, pairs.len() as int);
                proof {
                    assert(rest[0] == pairs@[i as int]@);
                    assert(rest.drop_first() =~= strs(pairs@).subrange(
                        i + 1,
                        pairs.len() as int,
                    ));
                }
                match split_once(pairs[i], '=') {
                    Some((k, v)) => {
                        if str_eq(k, key) {
                            return Some(v);
                        }
                    },
                    None => {},
                }
                i += 1;
            }
            None
        },
    }
}

/// The first line of a request; that of a plain `GET /` where the request
/// holds no line.
pub open spec fn request_line_of(req: Seq<char>) -> Seq<char> {
    if lines_of(req).len() > 0 {
        lines_of(req)[0]
    } else {
        "GET / HTTP/1.1"@
    }
}

/// The method of a request: the first word of its first line, and `GET`
/// where that line holds no word.
pub open spec fn method_of(req: Seq<char>) -> Seq<char> {
    let words = words_of(request_line_of(req));
    if words.len() > 0 {
        words[0]
    } else {
        "GET"@
    }
}

/// The target of a request: the second word of its first line, and `/`
/// where that line holds no second word.
pub open spec fn target_of(req: Seq<char>) -> Seq<char> {
    let words = words_of(request_line_of(req));
    if words.len() > 1 {
        words[1]
    } else {
        "/"@
    }
}

/// The method and the target of a request.
pub fn request_line<'a>(req: &'a str) -> (r: (&'a str, &'a str))
    ensures
        r.0@ == method_of(req@),
        r.1@ == target_of(req@),
{
    let all = lines(req);
    let first: &'a str = if all.len() > 0 {
        assert(strs(all@)[0] == all@[0]@);
        all[0]
    } else {
        "GET / HTTP/1.1"
    };
    let words = split_whitespace(first);
    let method: &'a str = if words.len() > 0 {
        assert(strs(words@)[0] == words@[0]@);
        words[0]
    } else {
        "GET"
    };
    let target: &'a str = if words.len() > 1 {
        assert(strs(words@)[1] == words@[1]@);
        words[1]
    } else {
        "/"
    };
    (method, target)
}

/// Whether the endpoint listens on the loopback interface only, so that its
/// control routes need no credential.
pub open spec fn is_loopback(listen: Seq<char>) -> bool {
    has_prefix(listen, "127.0.0.1"@) || has_prefix(listen, "localhost"@)
}

/// Whether the endpoint listens on the loopback interface only.
pub fn listens_on_loopback(listen: &str) -> (r: bool)
    ensures
        r == is_loopback(listen@),
{
    starts_with(listen, "127.0.0.1") || starts_with(listen, "localhost")
}

/// The secret that callers must present: the override of the environment
/// where it is set, else the content of the token file without the white
/// space around it; none where that is empty or neither is there.
pub open spec fn configured_secret_of(env: Option<Seq<char>>, file: Option<Seq<char>>) -> Option<
    Seq<char>,
> {
    let want = match env {
        Some(e) => Some(e),
        None => match file {
            Some(f) => Some(trimmed(f)),
            None => None,
        },
    };
    match want {
        Some(w) => if w.len() > 0 {
            Some(w)
        } else {
            None
        },
        None => None,
    }
}

/// The secret that callers must present, where one is configured.
pub fn configured_secret<'a>(env_token: Option<&'a str>, token_file: Option<&'a str>) -> (r:
    Option<&'a str>)
    ensures
        opt_str(r) == configured_secret_of(opt_str(env_token), opt_str(token_file)),
{
    let want: Option<&'a str> = match env_token {
        Some(e) => Some(e),
        None => match token_file {
            Some(f) => Some(trim(f)),
            None => None,
        },
    };
    match want {
        Some(w) => if w.is_empty() {
            None
        } else {
            Some(w)
        },
        None => None,
    }
}

/// The headers that can carry a credential.
#[derive(Debug, Clone, Copy, PartialEq, Eq, Structural)]
pub enum CredentialHeader {
    /// `Authorization:` with a `Bearer` token.
    Bearer,
    /// `X-Auth:`.
    XAuth,
}

/// The credential that a header line, without the white space around it,
/// carries in a header of kind `kind`.
pub open spec fn header_value(line: Seq<char>, kind: CredentialHeader) -> Option<Seq<char>> {
    match kind {
        CredentialHeader::Bearer => match without_prefix(line, "Authorization:"@) {
            Some(v) => match without_prefix(trimmed(v), "Bearer "@) {
                Some(b) => Some(trimmed(b)),
                None => None,
            },
            None => None,
        },
        CredentialHeader::XAuth => match without_prefix(line, "X-Auth:"@) {
            Some(v) => Some(trimmed(v)),
            None => None,
        },
    }
}

/// The credential of the first line that carries one in a header of kind
/// `kind`, among the lines before the first blank one.
pub open spec fn first_header(lines: Seq<Seq<char>>, kind: CredentialHeader) -> Option<
    Seq<char>,
>
    decreases lines.len(),
{
    if lines.len() == 0 || trimmed(lines[0]).len() == 0 {
        None
    } else {
        match header_value(trimmed(lines[0]), kind) {
            Some(v) => Some(v),
            None => first_header(lines.drop_first(), kind),
        }
    }
}

/// The lines after the first.
pub open spec fn after_first(lines: Seq<Seq<char>>) -> Seq<Seq<char>> {
    if lines.len() > 0 {
        lines.drop_first()
    } else {
        lines
    }
}

/// The credential that a request presents: that of a bearer header, else
/// that of an `X-Auth` header, else the query parameter `token`.
pub open spec fn presented_of(req: Seq<char>, query: Option<Seq<char>>) -> Option<Seq<char>> {
    let headers = after_first(lines_of(req));
    match first_header(headers, CredentialHeader::Bearer) {
        Some(t) => Some(t),
        None => match first_header(headers, CredentialHeader::XAuth) {
            Some(t) => Some(t),
            None => param_of(query, "token"@),
        },
    }
}

fn header_in_line<'a>(line: &'a str, kind: CredentialHeader) -> (r: Option<&'a str>)
    ensures
        opt_str(r) == header_value(line@, kind),
{
    match kind {
        CredentialHeader::Bearer => match strip_prefix(line, "Authorization:") {
            Some(v) => match strip_prefix(trim(v), "Bearer ") {
                Some(b) => Some(trim(b)),
                None => None,
            },
            None => None,
        },
        CredentialHeader::XAuth => match strip_prefix(line, "X-Auth:") {
            Some(v) => Some(trim(v)),
            None => None,
        },
    }
}

fn find_header<'a>(all: &Vec<&'a str>, kind: CredentialHeader) -> (r: Option<&'a str>)
    ensures
        opt_str(r) == first_header(after_first(strs(all@)), kind),
{
    if all.len() == 0 {
        return None;
    }
    let mut i: usize = 1;
    assert(strs(all@).subrange(1, all.len() as int) =~= after_first(strs(all@)));
    while i < all.len()
        invariant
            1 <= i <= all.len(),
            first_header(strs(all@).subrange(i as int, all.len() as int), kind) == first_header(
                after_first(strs(all@)),
                kind,
            ),
        decreases all.len() - i,
    {
        let ghost rest = strs(all@).subrange(i as int, all.len() as int);
        proof {
            assert(rest[0] == all@[i as int]@);
            assert(rest.drop_first() =~= strs(all@).subrange(i + 1, all.len() as int));
        }
        let line = trim(all[i]);
        if line.is_empty() {
            return None;
        }
        match header_in_line(line, kind) {
            Some(v) => {
                return Some(v);
            },
            None => {},
        }
        i += 1;
    }
    None
}

/// The credential that a request presents.
pub fn presented_credential<'a>(raw_req: &'a str, query: Option<&'a str>) -> (r: Option<&'a str>)
    ensures
        opt_str(r) == presented_of(raw_req@, opt_str(query)),
{
    let all = lines(raw_req);
    match find_header(&all, CredentialHeader::Bearer) {
        Some(t) => Some(t),
        None => match find_header(&all, CredentialHeader::XAuth) {
            Some(t) => Some(t),
            None => query_get(query, "token"),
        },
    }
}

/// Whether a caller may use the control routes: always on a loopback
/// listener; elsewhere only where a secret is configured and the caller
/// presents exactly that secret.
pub open spec fn allowed(
    listen: Seq<char>,
    presented: Option<Seq<char>>,
    secret: Option<Seq<char>>,
) -> bool {
    is_loopback(listen) || (secret is Some && presented == secret)
}

/// Judges a caller by the listen address, the credential presented and the
/// secret configured, and by nothing else.
pub fn authorize(listen: &str, presented: Option<&str>, secret: Option<&str>) -> (r: Result<
    (),
    Error,
>)
    ensures
        r is Ok <==> allowed(listen@, opt_str(presented), opt_str(secret)),
        r is Err ==> r->Err_0@ == ErrorView::RequestForbidden,
{
    if listens_on_loopback(listen) {
        return Ok(());
    }
    match secret {
        Some(want) => match presented {
            Some(got) => if str_eq(got, want) {
                Ok(())
            } else {
                Err(Error::RequestForbidden)
            },
            None => Err(Error::RequestForbidden),
        },
        None => Err(Error::RequestForbidden),
    }
}

/// Decides whether a caller may use the control routes. `env_token` is the override of the
/// environment and `token_file` the content of the token file, each where
/// there is one.
pub fn auth_check(
    cfg: &Config,
    raw_req: &str,
    query: Option<&str>,
    env_token: Option<&str>,
    token_file: Option<&str>,
) -> (r: Result<(), Error>)
    ensures
        r is Ok <==> allowed(
            cfg.status.listen@,
            presented_of(raw_req@, opt_str(query)),
            configured_secret_of(opt_str(env_token), opt_str(token_file)),
        ),
        r is Err ==> r->Err_0@ == ErrorView::RequestForbidden,
{
    authorize(
        cfg.status.listen.as_str(),
        presented_credential(raw_req, query),
        configured_secret(env_token, token_file),
    )
}

/// On a loopback listener every caller is allowed. Elsewhere a caller who
/// presents the configured secret is allowed, and a caller is forbidden who
/// presents another credential or none, or where no secret is configured.
pub proof fn law_auth_by_listen_credential_secret(
    listen: Seq<char>,
    presented: Option<Seq<char>>,
    secret: Option<Seq<char>>,
)
    ensures
        is_loopback(listen) ==> allowed(listen, presented, secret),
        !is_loopback(listen) && secret is Some && presented == secret ==> allowed(
            listen,
            presented,
            secret,
        ),
        !is_loopback(listen) && (secret is None || presented != secret) ==> !allowed(
            listen,
            presented,
            secret,
        ),
{
}

/// The credential of a bearer header comes before that of an `X-Auth`
/// header, and that before the query parameter.
pub proof fn law_credential_precedence(req: Seq<char>, query: Option<Seq<char>>)
    ensures
        first_header(after_first(lines_of(req)), CredentialHeader::Bearer) is Some
            ==> presented_of(req, query) == first_header(
            after_first(lines_of(req)),
            CredentialHeader::Bearer,
        ),
        first_header(after_first(lines_of(req)), CredentialHeader::Bearer) is None
            && first_header(after_first(lines_of(req)), CredentialHeader::XAuth) is Some
            ==> presented_of(req, query) == first_header(
            after_first(lines_of(req)),
            CredentialHeader::XAuth,
        ),
        first_header(after_first(lines_of(req)), CredentialHeader::Bearer) is None
            && first_header(after_first(lines_of(req)), CredentialHeader::XAuth) is None
            ==> presented_of(req, query) == param_of(query, "token"@),
{
}

/// The exit pattern of a country code that is already trimmed and in lower
/// case: the code in braces, and none for an empty code.
pub open spec fn pattern_of(code: Seq<char>) -> Option<Seq<char>> {
    if code.len() > 0 {
        Some(braced(code))
    } else {
        None
    }
}

/// The exit pattern of a country code that is already trimmed and in lower
/// case.
pub fn exit_pattern(code: &str) -> (r: Option<String>)
    ensures
        match r {
            Some(p) => pattern_of(code@) == Some(p@),
            None => pattern_of(code@) is None,
        },
{
    if code.is_empty() {
        None
    } else {
        Some(brace(code))
    }
}

/// The exit patterns of the parts of a list of country codes: each part
/// without the white space around it and in lower case; empty parts give
/// none.
pub open spec fn exit_patterns(parts: Seq<Seq<char>>) -> Seq<Seq<char>>
    decreases parts.len(),
{
    if parts.len() == 0 {
        Seq::empty()
    } else {
        match pattern_of(lowercase_of(trimmed(parts.last()))) {
            Some(p) => exit_patterns(parts.drop_last()).push(p),
            None => exit_patterns(parts.drop_last()),
        }
    }
}

/// The steps that clear the exit policy and ask for a new identity. None of
/// them must succeed.
pub open spec fn exit_clear_steps() -> Seq<StepView> {
    seq![
        may_set("ExitNodes"@, Seq::empty()),
        may_set("StrictNodes"@, "0"@),
        StepView::SignalNewnym,
    ]
}

/// The steps that allow the exit countries of the comma-separated list `cc`
/// and no others, and ask for a new identity. Setting the two options must
/// succeed. A list without any code clears the policy instead.
pub open spec fn exit_set_steps(cc: Seq<char>) -> Seq<StepView> {
    let list = exit_patterns(split_on(cc, ','));
    if list.len() == 0 {
        exit_clear_steps()
    } else {
        seq![
            must_set("ExitNodes"@, joined(list, ","@)),
            must_set("StrictNodes"@, "1"@),
            StepView::SignalNewnym,
        ]
    }
}

/// The steps that clear the exit policy.
pub fn exit_clear() -> (r: Vec<ControlStep>)
    ensures
        steps(r@) == exit_clear_steps(),
{
    let mut r: Vec<ControlStep> = Vec::new();
    r.push(ControlStep::set("ExitNodes", "", false));
    r.push(ControlStep::set("StrictNodes", "0", false));
    r.push(ControlStep::SignalNewnym);
    proof {
        reveal_strlit("");
        assert(""@ =~= Seq::<char>::empty());
        assert(steps(r@) =~= exit_clear_steps());
    }
    r
}

/// The steps that set the exit policy to the countries of the list `cc`.
pub fn exit_set(cc: &str) -> (r: Vec<ControlStep>)
    ensures
        steps(r@) == exit_set_steps(cc@),
{
    let parts = split(cc, ',');
    let mut list: Vec<String> = Vec::new();
    let mut i: usize = 0;
    while i < parts.len()
        invariant
            i <= parts.len(),
            strs(parts@) == split_on(cc@, ','),
            texts(list@) == exit_patterns(strs(parts@).subrange(0, i as int)),
        decreases parts.len() - i,
    {
        proof {
            let next = strs(parts@).subrange(0, i + 1);
            assert(next.drop_last() =~= strs(parts@).subrange(0, i as int));
            assert(next.last() == parts@[i as int]@);
        }
        let lower = to_lowercase(trim(parts[i]));
        match exit_pattern(lower.as_str()) {
            Some(p) => {
                let ghost before = list@;
                list.push(p);
                assert(texts(list@) =~= texts(before).push(p@));
            },
            None => {},
        }
        i += 1;
    }
    assert(strs(parts@).subrange(0, parts.len() as int) =~= strs(parts@));
    if list.len() == 0 {
        exit_clear()
    } else {
        let mut r: Vec<ControlStep> = Vec::new();
        let nodes = join(&list, ",");
        r.push(ControlStep::set("ExitNodes", nodes.as_str(), true));
        r.push(ControlStep::set("StrictNodes", "1", true));
        r.push(ControlStep::SignalNewnym);
        assert(steps(r@) =~= exit_set_steps(cc@));
        r
    }
}

/// A reply whose body is fixed.
#[derive(Debug, Clone, Copy, PartialEq, Eq, Structural)]
pub enum Reply {
    /// The change was made.
    Done,
    /// The caller lacks the credential.
    Forbidden,
    /// The route takes another method.
    MethodNotAllowed,
    /// There is no such route.
    NotFound,
    /// The peer is over its limits.
    TooManyRequests,
    /// The handler failed.
    Failed,
}

impl Reply {
    /// The status code of the reply.
    pub open spec fn code_of(self) -> u16 {
        match self {
            Reply::Done => 200,
            Reply::Forbidden => 403,
            Reply::MethodNotAllowed => 405,
            Reply::NotFound => 404,
            Reply::TooManyRequests => 429,
            Reply::Failed => 500,
        }
    }

    /// The body of the reply.
    pub open spec fn body_of(self) -> Seq<char> {
        match self {
            Reply::Done => "{\"ok\":true}"@,
            Reply::Forbidden => "{\"error\":\"forbidden\"}"@,
            Reply::MethodNotAllowed => "{\"error\":\"method not allowed\"}"@,
            Reply::NotFound => "{\"error\":\"not found\"}"@,
            Reply::TooManyRequests => "{\"error\":\"too many requests\"}"@,
            Reply::Failed => "{\"error\":\"internal error\"}"@,
        }
    }

    /// The status code of the reply.
    pub fn code(self) -> (r: u16)
        ensures
            r == self.code_of(),
    {
        match self {
            Reply::Done => 200,
            Reply::Forbidden => 403,
            Reply::MethodNotAllowed => 405,
            Reply::NotFound => 404,
            Reply::TooManyRequests => 429,
            Reply::Failed => 500,
        }
    }

    /// The body of the reply.
    pub fn body(self) -> (r: &'static str)
        ensures
            r@ == self.body_of(),
    {
        match self {
            Reply::Done => "{\"ok\":true}",
            Reply::Forbidden => "{\"error\":\"forbidden\"}",
            Reply::MethodNotAllowed => "{\"error\":\"method not allowed\"}",
            Reply::NotFound => "{\"error\":\"not found\"}",
            Reply::TooManyRequests => "{\"error\":\"too many requests\"}",
            Reply::Failed => "{\"error\":\"internal error\"}",
        }
    }

    /// The reply to a control route after its steps were taken: success
    /// where the session was opened and no step that must succeed failed, a
    /// failure otherwise.
    pub fn after_control(succeeded: bool) -> (r: Reply)
        ensures
            r == if succeeded {
                Reply::Done
            } else {
                Reply::Failed
            },
    {
        if succeeded {
            Reply::Done
        } else {
            Reply::Failed
        }
    }

    /// The reply to a status request that the rate limiter judged, where it
    /// ends the request.
    pub fn after_rate_limit(allowed: bool) -> (r: Option<Reply>)
        ensures
            r == if allowed {
                None
            } else {
                Some(Reply::TooManyRequests)
            },
    {
        if allowed {
            None
        } else {
            Some(Reply::TooManyRequests)
        }
    }
}

/// What is to be done for a request.
#[derive(Debug, PartialEq, Eq)]
pub enum Action {
    /// Answer at once.
    Reply(Reply),
    /// Open a session with the supervised process, take these steps, and
    /// answer by their outcome.
    Control(Vec<ControlStep>),
    /// Report the hop plan.
    Plan,
    /// Report the status. Where `limited` holds the rate limiter judges the
    /// peer first.
    Status { limited: bool },
}

/// The mathematical content of an [`Action`].
pub enum ActionView {
    Reply(Reply),
    Control(Seq<StepView>),
    Plan,
    Status { limited: bool },
}

impl View for Action {
    type V = ActionView;

    open spec fn view(&self) -> ActionView {
        match self {
            Action::Reply(r) => ActionView::Reply(*r),
            Action::Control(s) => ActionView::Control(steps(s@)),
            Action::Plan => ActionView::Plan,
            Action::Status { limited } => ActionView::Status { limited: *limited },
        }
    }
}

/// What a control route does for a caller: it refuses one who is not
/// allowed, then one who does not use `POST`, and takes its steps for any
/// other.
pub open spec fn control_action(permitted: bool, method: Seq<char>, plan: Seq<StepView>)
    -> ActionView {
    if !permitted {
        ActionView::Reply(Reply::Forbidden)
    } else if method != "POST"@ {
        ActionView::Reply(Reply::MethodNotAllowed)
    } else {
        ActionView::Control(plan)
    }
}

/// The country list of a request: its query parameter `cc`, and the empty
/// list where it has none.
pub open spec fn country_list_of(query: Option<Seq<char>>) -> Seq<char> {
    match param_of(query, "cc"@) {
        Some(cc) => cc,
        None => Seq::empty(),
    }
}

/// What is to be done for the request `req` on an endpoint that listens on
/// `listen`, where `secret` is the configured secret. The path alone picks
/// the route. The two control routes ask for the credential first; the plan takes
/// any caller; the status is rate-limited unless the listen address begins
/// with `127.0.0.1`; any other path is not found.
pub open spec fn action_of(listen: Seq<char>, req: Seq<char>, secret: Option<Seq<char>>)
    -> ActionView {
    let method = method_of(req);
    let path = path_of(target_of(req));
    let query = query_of(target_of(req));
    let permitted = allowed(listen, presented_of(req, query), secret);
    if path == "/control/exitclear"@ {
        control_action(permitted, method, exit_clear_steps())
    } else if path == "/control/exitset"@ {
        control_action(permitted, method, exit_set_steps(country_list_of(query)))
    } else if path == "/status/plan"@ {
        ActionView::Plan
    } else if path == "/status"@ {
        ActionView::Status { limited: !has_prefix(listen, "127.0.0.1"@) }
    } else {
        ActionView::Reply(Reply::NotFound)
    }
}

/// Decides what is to be done for the request text `req`.
pub fn handle_text(
    cfg: &Config,
    req: &str,
    env_token: Option<&str>,
    token_file: Option<&str>,
) -> (r: Action)
    ensures
        r@ == action_of(
            cfg.status.listen@,
            req@,
            configured_secret_of(opt_str(env_token), opt_str(token_file)),
        ),
{
    let (method, target) = request_line(req);
    let (path, query) = parse_query(target);
    if str_eq(path, "/control/exitclear") {
        if auth_check(cfg, req, query, env_token, token_file).is_err() {
            return Action::Reply(Reply::Forbidden);
        }
        if !str_eq(method, "POST") {
            return Action::Reply(Reply::MethodNotAllowed);
        }
        return Action::Control(exit_clear());
    }
    if str_eq(path, "/control/exitset") {
        if auth_check(cfg, req, query, env_token, token_file).is_err() {
            return Action::Reply(Reply::Forbidden);
        }
        if !str_eq(method, "POST") {
            return Action::Reply(Reply::MethodNotAllowed);
        }
        let cc: &str = match query_get(query, "cc") {
            Some(v) => v,
            None => {
                proof {
                    reveal_strlit("");
                    assert(""@ =~= Seq::<char>::empty());
                }
                ""
            },
        };
        return Action::Control(exit_set(cc));
    }
    if str_eq(path, "/status/plan") {
        return Action::Plan;
    }
    if !str_eq(path, "/status") {
        return Action::Reply(Reply::NotFound);
    }
    Action::Status { limited: !starts_with(cfg.status.listen.as_str(), "127.0.0.1") }
}

/// Decides what is to be done for a request, given the bytes that were read
/// from the connection; they are decoded leniently as text.
pub fn handle(
    cfg: &Config,
    request: &[u8],
    env_token: Option<&str>,
    token_file: Option<&str>,
) -> (r: Action)
    ensures
        r@ == action_of(
            cfg.status.listen@,
            lossy_text_of(request@),
            configured_secret_of(opt_str(env_token), opt_str(token_file)),
        ),
{
    let req = lossy_text(request);
    handle_text(cfg, req.as_str(), env_token, token_file)
}

/// How many bytes of a request are read from a connection.
pub const REQUEST_LIMIT: usize = 1024;

/// The whole seconds from `now` to the next rotation at `next_epoch_ms`,
/// both in milliseconds; zero where that time has come or is not set.
pub open spec fn seconds_left(next_epoch_ms: u64, now: u64) -> u64 {
    if next_epoch_ms > now {
        ((next_epoch_ms - now) / 1000) as u64
    } else {
        0
    }
}

/// The whole seconds from `now` to the next rotation.
pub fn seconds_remaining(next_epoch_ms: u64, now: u64) -> (r: u64)
    ensures
        r == seconds_left(next_epoch_ms, now),
{
    if next_epoch_ms > now {
        (next_epoch_ms - now) / 1000
    } else {
        0
    }
}

/// The entries of `order` that are indices into a sequence of `total` hops,
/// in order.
pub open spec fn known_hops(order: Seq<u64>, total: nat) -> Seq<u64>
    decreases order.len(),
{
    if order.len() == 0 {
        Seq::empty()
    } else if order.last() < total {
        known_hops(order.drop_last(), total).push(order.last())
    } else {
        known_hops(order.drop_last(), total)
    }
}

/// The hops still to come: the entries of `order` from position `idx` on
/// that are indices into a sequence of `total` hops. A position beyond the
/// order leaves none.
pub open spec fn upcoming_of(order: Seq<u64>, idx: u64, total: nat) -> Seq<u64> {
    if idx < order.len() {
        known_hops(order.subrange(idx as int, order.len() as int), total)
    } else {
        Seq::empty()
    }
}

/// A hop that is still to come: its index in the configured sequence, and
/// the hop.
#[derive(Debug, PartialEq, Eq)]
pub struct UpcomingHop<'a> {
    pub index: u64,
    pub item: &'a HopItem,
}

/// The indices of a sequence of upcoming hops.
pub open spec fn indices<'a>(hops: Seq<UpcomingHop<'a>>) -> Seq<u64> {
    Seq::new(hops.len(), |i: int| hops[i].index)
}

/// What the plan route reports.
#[derive(Debug, PartialEq, Eq)]
pub struct PlanReport<'a> {
    pub randomized: bool,
    pub order_indices: Vec<u64>,
    pub current_index_in_order: u64,
    pub seconds_remaining: u64,
    pub total: usize,
    pub upcoming: Vec<UpcomingHop<'a>>,
}

impl<'a> PlanReport<'a> {
    /// Whether this is the report on `cfg` that the document `doc` gives at
    /// time `now`.
    pub open spec fn reports(&self, cfg: &Config, doc: Option<HopStateDoc>, now: u64) -> bool {
        &&& self.randomized == HopPlanSnapshot::randomized_of(doc)
        &&& self.order_indices@ == HopPlanSnapshot::order_of(doc)
        &&& self.current_index_in_order == HopPlanSnapshot::idx_of(doc)
        &&& self.seconds_remaining == seconds_left(HopPlanSnapshot::next_epoch_of(doc), now)
        &&& self.total == cfg.hop.sequence.len()
        &&& indices(self.upcoming@) == upcoming_of(
            HopPlanSnapshot::order_of(doc),
            HopPlanSnapshot::idx_of(doc),
            cfg.hop.sequence.len() as nat,
        )
        &&& forall|k: int|
            0 <= k < self.upcoming.len() ==> #[trigger] self.upcoming[k].index
                < cfg.hop.sequence.len() && *self.upcoming[k].item
                == cfg.hop.sequence[self.upcoming[k].index as int]
    }
}

/// The report of the plan route for the snapshot `snapshot` at time `now`.
pub fn plan_report<'a>(cfg: &'a Config, snapshot: HopPlanSnapshot, now: u64) -> (r: PlanReport<'a>)
    ensures
        forall|doc: Option<HopStateDoc>| snapshot.reads(doc) ==> r.reports(cfg, doc, now),
{
    let total = cfg.hop.sequence.len();
    let mut upcoming: Vec<UpcomingHop<'a>> = Vec::new();
    let n = snapshot.order.len();
    if snapshot.idx < n as u64 {
        let start = snapshot.idx as usize;
        let mut k: usize = start;
        assert(snapshot.order@.subrange(start as int, start as int) =~= Seq::<u64>::empty());
        while k < n
            invariant
                start <= k <= n,
                n == snapshot.order.len(),
                total == cfg.hop.sequence.len(),
                indices(upcoming@) == known_hops(
                    snapshot.order@.subrange(start as int, k as int),
                    total as nat,
                ),
                forall|j: int|
                    0 <= j < upcoming.len() ==> #[trigger] upcoming[j].index < total
                        && *upcoming[j].item == cfg.hop.sequence[upcoming[j].index as int],
            decreases n - k,
        {
            let i = snapshot.order[k];
            proof {
                let next = snapshot.order@.subrange(start as int, k + 1);
                assert(next.drop_last() =~= snapshot.order@.subrange(start as int, k as int));
                assert(next.last() == i);
            }
            if i < total as u64 {
                let ghost before = upcoming@;
                upcoming.push(UpcomingHop { index: i, item: &cfg.hop.sequence[i as usize] });
                assert(indices(upcoming@) =~= indices(before).push(i));
            }
            k += 1;
        }
    }
    let remaining = seconds_remaining(snapshot.next_epoch_ms, now);
    proof {
        if snapshot.idx < n {
            assert(snapshot.order@.subrange(snapshot.idx as int, n as int) == snapshot.order@.subrange(
                snapshot.idx as int,
                snapshot.order@.len() as int,
            ));
        } else {
            assert(indices(upcoming@) =~= Seq::<u64>::empty());
        }
        assert(indices(upcoming@) == upcoming_of(snapshot.order@, snapshot.idx, total as nat));
    }
    PlanReport {
        randomized: snapshot.randomized,
        current_index_in_order: snapshot.idx,
        seconds_remaining: remaining,
        total,
        upcoming,
        order_indices: snapshot.order,
    }
}

/// `SystemTime::now` of std, as milliseconds since the Unix epoch; zero for
/// a clock that stands before the epoch. Nothing is promised of the result.
#[verifier::external_body]
pub(crate) fn now_ms() -> u64 {
    std::time::SystemTime::now().duration_since(std::time::UNIX_EPOCH).unwrap_or_default().as_millis() as u64
}

/// The report of the plan route at the present time, given the content of
/// the state file where there is one. A missing file and one that is no JSON
/// text give the report of an empty state.
pub fn status_plan<'a>(cfg: &'a Config, file: Option<&[u8]>) -> (r: PlanReport<'a>)
    ensures
        exists|now: u64| #[trigger] r.reports(cfg, file_doc(opt_bytes(file)), now),
{
    let now = now_ms();
    let r = plan_report(cfg, HopPlanSnapshot::load(file), now);
    assert(r.reports(cfg, file_doc(opt_bytes(file)), now));
    r
}

/// The view of an optional string.
pub open spec fn opt_string(s: Option<String>) -> Option<Seq<char>> {
    match s {
        Some(x) => Some(x@),
        None => None,
    }
}

/// What the status route reports.
#[derive(Debug, PartialEq, Eq)]
pub struct StatusReport<'a> {
    pub current_index: u64,
    pub total: usize,
    pub seconds_remaining: u64,
    pub next_epoch_ms: u64,
    pub current_hop: Option<&'a HopItem>,
    pub socks_port: u16,
    pub dns_port: u16,
    pub control_port: u16,
    pub exit_ip: Option<String>,
}

impl<'a> StatusReport<'a> {
    /// Whether this is the report on `cfg` that the document `doc` gives at
    /// time `now`, with the exit address `exit_ip` where it is known.
    pub open spec fn reports(
        &self,
        cfg: &Config,
        doc: Option<HopStateDoc>,
        now: u64,
        exit_ip: Option<Seq<char>>,
    ) -> bool {
        &&& self.current_index == HopPlanSnapshot::idx_of(doc)
        &&& self.total == cfg.hop.sequence.len()
        &&& self.seconds_remaining == seconds_left(HopPlanSnapshot::next_epoch_of(doc), now)
        &&& self.next_epoch_ms == HopPlanSnapshot::next_epoch_of(doc)
        &&& match self.current_hop {
            Some(item) => self.current_index < cfg.hop.sequence.len() && *item
                == cfg.hop.sequence[self.current_index as int],
            None => self.current_index >= cfg.hop.sequence.len(),
        }
        &&& self.socks_port == cfg.tor.socks_port
        &&& self.dns_port == cfg.tor.dns_port
        &&& self.control_port == cfg.tor.control_port
        &&& opt_string(self.exit_ip) == exit_ip
    }
}

/// The report of the status route for the snapshot `snapshot` at time
/// `now`. `exit_ip` is the exit address where the probe learned it; a failed
/// probe leaves it out and changes nothing else.
pub fn status_report<'a>(
    cfg: &'a Config,
    snapshot: &HopPlanSnapshot,
    now: u64,
    exit_ip: Option<String>,
) -> (r: StatusReport<'a>)
    ensures
        forall|doc: Option<HopStateDoc>|
            snapshot.reads(doc) ==> r.reports(cfg, doc, now, opt_string(exit_ip)),
{
    let total = cfg.hop.sequence.len();
    let current_hop: Option<&'a HopItem> = if snapshot.idx < total as u64 {
        Some(&cfg.hop.sequence[snapshot.idx as usize])
    } else {
        None
    };
    StatusReport {
        current_index: snapshot.idx,
        total,
        seconds_remaining: seconds_remaining(snapshot.next_epoch_ms, now),
        next_epoch_ms: snapshot.next_epoch_ms,
        current_hop,
        socks_port: cfg.tor.socks_port,
        dns_port: cfg.tor.dns_port,
        control_port: cfg.tor.control_port,
        exit_ip,
    }
}

/// The report of the status route at the present time, given the content
/// of the state file where there is one.
pub fn status<'a>(cfg: &'a Config, file: Option<&[u8]>, exit_ip: Option<String>) -> (r:
    StatusReport<'a>)
    ensures
        exists|now: u64| #[trigger]
            r.reports(cfg, file_doc(opt_bytes(file)), now, opt_string(exit_ip)),
{
    let now = now_ms();
    let snapshot = HopPlanSnapshot::load(file);
    let r = status_report(cfg, &snapshot, now, exit_ip);
    assert(r.reports(cfg, file_doc(opt_bytes(file)), now, opt_string(exit_ip)));
    r
}

/// Without a state document, be the file missing or no JSON text, the
/// status reports position zero, the configured number of hops and no
/// time left, and the plan reports an empty order with nothing to come. A
/// document that lacks the position and the time of the next rotation gives
/// the same status.
pub proof fn law_missing_state_defaults(cfg: &Config, now: u64)
    ensures
        forall|r: StatusReport, d: HopStateDoc, ip: Option<Seq<char>>| #[trigger]
            r.reports(cfg, Some(d), now, ip) && d.idx is None && d.next_epoch_ms is None
                ==> r.current_index == 0 && r.total == cfg.hop.sequence.len()
                && r.seconds_remaining == 0,
        forall|r: StatusReport, ip: Option<Seq<char>>| #[trigger]
            r.reports(cfg, None, now, ip) ==> r.current_index == 0 && r.total
                == cfg.hop.sequence.len() && r.seconds_remaining == 0 && r.next_epoch_ms == 0,
        forall|r: PlanReport| #[trigger]
            r.reports(cfg, None, now) ==> r.current_index_in_order == 0 && r.total
                == cfg.hop.sequence.len() && r.seconds_remaining == 0 && r.order_indices@.len()
                == 0 && r.upcoming@.len() == 0 && !r.randomized,
{
    assert forall|r: PlanReport| #[trigger] r.reports(cfg, None, now) implies r.upcoming@.len()
        == 0 by {
        assert(indices(r.upcoming@).len() == r.upcoming@.len());
    }
}

/// The reason phrase of a status code.
pub open spec fn reason_of(code: u16) -> Seq<char> {
    if code == 404 {
        "Not Found"@
    } else {
        "OK"@
    }
}

/// The response with status `code` and the JSON text `body`: the status
/// line, the content type, the length of the body in bytes, the wish to
/// close the connection, an empty line and the body.
pub open spec fn response_text(code: u16, body: Seq<char>) -> Seq<char> {
    "HTTP/1.1 "@ + decimal_of(code as nat) + " "@ + reason_of(code)
        + "\r\nContent-Type: application/json\r\nContent-Length: "@ + decimal_of(
        vstd::utf8::encode_utf8(body).len(),
    ) + "\r\nConnection: close\r\n\r\n"@ + body
}

/// Renders the response with status `code` and the JSON text `body`.
pub fn respond(code: u16, body: &str) -> (r: String)
    ensures
        r@ == response_text(code, body@),
{
    let mut r = String::from_str("HTTP/1.1 ");
    push_decimal(&mut r, code as u64);
    r.append(" ");
    r.append(
        if code == 404 {
            "Not Found"
        } else {
            "OK"
        },
    );
    r.append("\r\nContent-Type: application/json\r\nContent-Length: ");
    push_decimal(&mut r, body.as_bytes().len() as u64);
    r.append("\r\nConnection: close\r\n\r\n");
    r.append(body);
    r
}

} // verus!

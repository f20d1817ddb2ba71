//! Connection to the League client API (LCU): credentials, URLs, command
//! line options, the reading of HTTP replies and the worker state machine.
use vstd::prelude::*;

use vstd::string::*;
use vstd::utf8::*;

use crate::text::{
    ascii_lower_seq, chars_eq_ignore_ascii_case, chars_equal, chars_of, chars_start_with,
    decimal, eq_ignore_ascii_case, has_prefix, push_decimal, strip_trailing, string_from_chars,
    to_ascii_lowercase,
};

verus! {

/// The view of an optional string.
pub open spec fn opt_view(o: Option<String>) -> Option<Seq<char>> {
    match o {
        Some(s) => Some(s@),
        None => None,
    }
}

/// Credentials of one running client: `protocol://127.0.0.1:port`,
/// authenticated as `riot` with `password`.
#[derive(Clone, Debug, PartialEq, Eq)]
pub struct LcuAuth {
    pub protocol: String,
    pub port: u16,
    pub password: String,
}

/// The mathematical content of an [`LcuAuth`].
pub struct AuthView {
    pub protocol: Seq<char>,
    pub port: u16,
    pub password: Seq<char>,
}

impl View for LcuAuth {
    type V = AuthView;

    open spec fn view(&self) -> AuthView {
        AuthView { protocol: self.protocol@, port: self.port, password: self.password@ }
    }
}

impl LcuAuth {
    pub fn clone_auth(&self) -> (r: LcuAuth)
        ensures
            r@ == self@,
    {
        LcuAuth { protocol: self.protocol.clone(), port: self.port, password: self.password.clone() }
    }
}


/// `http(s)://127.0.0.1:port` for the given credentials.
pub open spec fn base_url_of(auth: AuthView) -> Seq<char> {
    auth.protocol + "://127.0.0.1:"@ + decimal(auth.port as nat)
}

/// The address of the client API: `{protocol}://127.0.0.1:{port}`.
pub fn base_url(auth: &LcuAuth) -> (r: String)
    ensures
        r@ == base_url_of(auth@),
{
    let mut r = auth.protocol.clone();
    r.append("://127.0.0.1:");
    push_decimal(&mut r, auth.port as u128);
    r
}

/// The URL that reports the game-flow phase.
pub fn gameflow_phase_url(auth: &LcuAuth) -> (r: String)
    ensures
        r@ == base_url_of(auth@) + "/lol-gameflow/v1/gameflow-phase"@,
{
    let mut r = base_url(auth);
    r.append("/lol-gameflow/v1/gameflow-phase");
    r
}

/// The URL that accepts a ready check.
pub fn ready_check_accept_url(auth: &LcuAuth) -> (r: String)
    ensures
        r@ == base_url_of(auth@) + "/lol-matchmaking/v1/ready-check/accept"@,
{
    let mut r = base_url(auth);
    r.append("/lol-matchmaking/v1/ready-check/accept");
    r
}

/// Longest body, in bytes, that a log message quotes whole.
pub const LOG_BODY_LIMIT: usize = 512;

/// What a log message quotes of a reply body: the body itself when it has at
/// most 512 bytes, else its first 512 bytes and `...(truncated)`.
pub open spec fn log_excerpt(text: &str) -> Seq<char> {
    let b = text.spec_bytes();
    if b.len() <= 512 {
        text@
    } else {
        decode_utf8(b.subrange(0, 512)) + "...(truncated)"@
    }
}

/// Whether [`trim_for_log`] can cut `text`: it is short enough, or its
/// 512th byte ends a character.
pub open spec fn log_cut_ok(text: &str) -> bool {
    text.spec_bytes().len() <= 512 || is_char_boundary(text.spec_bytes(), 512)
}

/// The excerpt of a reply body that goes into a log message.
pub fn trim_for_log(text: &str) -> (r: String)
    requires
        log_cut_ok(text),
    ensures
        r@ == log_excerpt(text),
{
    if text.as_bytes().len() <= LOG_BODY_LIMIT {
        return text.to_owned();
    }
    let (head, _tail) = text.split_at(LOG_BODY_LIMIT);
    let mut r = head.to_owned();
    r.append("...(truncated)");
    proof {
        encode_utf8_decode_utf8(head@);
    }
    r
}

/// A path as a comparison key: backslashes become slashes, trailing slashes
/// are dropped and ASCII letters are lower-cased.
pub open spec fn path_key_of(path: Seq<char>) -> Seq<char> {
    ascii_lower_seq(strip_trailing(path.map_values(|c: char| slash(c)), '/'))
}

/// `\\` as `/`; other characters unchanged.
pub open spec fn slash(c: char) -> char {
    if c == '\\' {
        '/'
    } else {
        c
    }
}

/// The comparison key of a directory path (given as its text).
pub fn path_key(path: &str) -> (r: String)
    ensures
        r@ == path_key_of(path@),
{
    let p = chars_of(path);
    let mut k: Vec<char> = Vec::new();
    let mut i: usize = 0;
    while i < p.len()
        invariant
            i <= p.len(),
            k@ == p@.take(i as int).map_values(|c: char| slash(c)),
        decreases p.len() - i,
    {
        let c = p[i];
        k.push(if c == '\\' { '/' } else { c });
        i = i + 1;
        assert(k@ =~= p@.take(i as int).map_values(|c: char| slash(c)));
    }
    assert(p@.take(p.len() as int) =~= p@);
    let ghost mapped = k@;
    while k.len() > 0 && k[k.len() - 1] == '/'
        invariant
            strip_trailing(mapped, '/') == strip_trailing(k@, '/'),
        decreases k.len(),
    {
        let _ = k.pop();
    }
    string_from_chars(&to_ascii_lowercase(&k))
}

/// Whether `key` is the directory key `exact` or lies below it.
pub open spec fn dir_key_accepts(exact: Seq<char>, key: Seq<char>) -> bool {
    key == exact || has_prefix(key, exact.push('/'))
}

/// Selects clients by directory: a client passes when its directory key is
/// `exact` or lies below it (`prefix` is `exact` followed by `/`).
pub struct ClientDirFilter {
    exact: String,
    prefix: String,
}

impl ClientDirFilter {
    /// The key that the filter accepts with everything below it.
    pub closed spec fn exact_key(&self) -> Seq<char> {
        self.exact@
    }

    #[verifier::type_invariant]
    closed spec fn wf(&self) -> bool {
        self.prefix@ == self.exact@.push('/')
    }

    /// Whether the filter accepts a directory key.
    pub open spec fn accepts(&self, key: Seq<char>) -> bool {
        dir_key_accepts(self.exact_key(), key)
    }

    /// The filter for a directory: its key, and every key below it.
    pub fn new(path: &str) -> (r: ClientDirFilter)
        ensures
            r.exact_key() == path_key_of(path@),
    {
        let exact = path_key(path);
        let mut prefix = exact.clone();
        prefix.append("/");
        proof {
            reveal_strlit("/");
            assert(prefix@ =~= exact@.push('/'));
        }
        ClientDirFilter { exact, prefix }
    }

    /// Whether the directory key `key` is the filter's directory or lies
    /// below it.
    pub fn matches_key(&self, key: &str) -> (r: bool)
        ensures
            r == self.accepts(key@),
    {
        proof {
            use_type_invariant(self);
        }
        let k = chars_of(key);
        chars_equal(&k, &chars_of(self.exact.as_str())) || chars_start_with(
            &k,
            &chars_of(self.prefix.as_str()),
        )
    }
}

/// Command-line options of the program.
#[derive(Clone, Debug)]
pub struct LcuOverrides {
    lol_dir: Option<String>,
}

/// Why the command line was not accepted.
#[derive(Debug, PartialEq, Eq)]
pub enum ArgsError {
    /// `--lol-dir` was the last argument.
    MissingLolDirValue,
    /// An argument that the program does not know.
    UnknownArgument(String),
    /// `--help`, `-h` or `/?`: the caller prints the help and exits.
    HelpRequested,
}

/// The mathematical content of an [`ArgsError`].
pub enum ArgsErrorView {
    MissingLolDirValue,
    UnknownArgument(Seq<char>),
    HelpRequested,
}

pub open spec fn args_error_view(e: ArgsError) -> ArgsErrorView {
    match e {
        ArgsError::MissingLolDirValue => ArgsErrorView::MissingLolDirValue,
        ArgsError::UnknownArgument(a) => ArgsErrorView::UnknownArgument(a@),
        ArgsError::HelpRequested => ArgsErrorView::HelpRequested,
    }
}

/// Whether an argument asks for the help text.
pub open spec fn is_help_flag(a: Seq<char>) -> bool {
    a == "--help"@ || a == "-h"@ || a == "/?"@
}

/// The outcome of reading `args` in order when `lol_dir` has been set so
/// far: `--lol-dir v` sets the directory (a later one wins), a help flag
/// stops with `HelpRequested`, anything else stops with an error.
pub open spec fn parse_args(args: Seq<Seq<char>>, lol_dir: Option<Seq<char>>) -> Result<Option<Seq<char>>, ArgsErrorView>
    decreases args.len(),
{
    if args.len() == 0 {
        Ok(lol_dir)
    } else if args[0] == "--lol-dir"@ {
        if args.len() < 2 {
            Err(ArgsErrorView::MissingLolDirValue)
        } else {
            parse_args(args.skip(2), Some(args[1]))
        }
    } else if is_help_flag(args[0]) {
        Err(ArgsErrorView::HelpRequested)
    } else {
        Err(ArgsErrorView::UnknownArgument(args[0]))
    }
}

/// The views of a list of strings.
pub open spec fn strings_view(v: Seq<String>) -> Seq<Seq<char>> {
    v.map_values(|s: String| s@)
}

fn str_equals(a: &String, b: &str) -> (r: bool)
    ensures
        r == (a@ == b@),
{
    chars_equal(&chars_of(a.as_str()), &chars_of(b))
}

impl LcuOverrides {
    /// No override: every running client is a candidate.
    pub fn none() -> (r: LcuOverrides)
        ensures
            r.lol_dir_view() is None,
    {
        LcuOverrides { lol_dir: None }
    }

    /// The client directory given by `--lol-dir`, if any.
    pub closed spec fn lol_dir_view(&self) -> Option<Seq<char>> {
        opt_view(self.lol_dir)
    }

    /// The client directory given by `--lol-dir`, if any.
    pub fn lol_dir(&self) -> (r: Option<String>)
        ensures
            opt_view(r) == self.lol_dir_view(),
    {
        match &self.lol_dir {
            Some(d) => Some(d.clone()),
            None => None,
        }
    }

    /// Reads the program's arguments (without the program name).
    pub fn from_args(args: Vec<String>) -> (r: Result<LcuOverrides, ArgsError>)
        ensures
            match r {
                Ok(o) => parse_args(strings_view(args@), None) == Ok::<Option<Seq<char>>, ArgsErrorView>(o.lol_dir_view()),
                Err(e) => parse_args(strings_view(args@), None) == Err::<Option<Seq<char>>, ArgsErrorView>(args_error_view(e)),
            },
    {
        let mut lol_dir: Option<String> = None;
        let mut i: usize = 0;
        let ghost all = strings_view(args@);
        assert(all.skip(0) =~= all);
        while i < args.len()
            invariant
                i <= args.len(),
                all == strings_view(args@),
                parse_args(all, None) == parse_args(all.skip(i as int), opt_view(lol_dir)),
            decreases args.len() - i,
        {
            let ghost rest = all.skip(i as int);
            assert(rest[0] == args@[i as int]@);
            proof {
                reveal_strlit("--lol-dir");
                reveal_strlit("--help");
                reveal_strlit("-h");
                reveal_strlit("/?");
            }
            let arg = &args[i];
            if str_equals(arg, "--lol-dir") {
                if i + 1 >= args.len() {
                    return Err(ArgsError::MissingLolDirValue);
                }
                assert(rest[1] == args@[i + 1]@);
                assert(rest.skip(2) =~= all.skip(i + 2));
                lol_dir = Some(args[i + 1].clone());
                i = i + 2;
            } else if str_equals(arg, "--help") || str_equals(arg, "-h") || str_equals(arg, "/?") {
                return Err(ArgsError::HelpRequested);
            } else {
                return Err(ArgsError::UnknownArgument(arg.clone()));
            }
        }
        assert(all.skip(args.len() as int) =~= Seq::<Seq<char>>::empty());
        Ok(LcuOverrides { lol_dir })
    }
}

/// The filter that selects the client to use: the `--lol-dir` directory,
/// else the `LOL_DIR` value from the environment, else none.
pub open spec fn desired_filter_key(overrides: Option<Seq<char>>, env_lol_dir: Option<Seq<char>>) -> Option<Seq<char>> {
    match overrides {
        Some(d) => Some(path_key_of(d)),
        None => match env_lol_dir {
            Some(d) => Some(path_key_of(d)),
            None => None,
        },
    }
}

/// The client-directory filter: from `--lol-dir` if it was given, else from
/// the `LOL_DIR` environment value (read by the caller), else none.
pub fn desired_client_dir_filter(overrides: &LcuOverrides, env_lol_dir: Option<String>) -> (r: Option<ClientDirFilter>)
    ensures
        match r {
            Some(f) => desired_filter_key(overrides.lol_dir_view(), opt_view(env_lol_dir)) == Some(f.exact_key()),
            None => desired_filter_key(overrides.lol_dir_view(), opt_view(env_lol_dir)) is None,
        },
{
    if let Some(dir) = &overrides.lol_dir {
        return Some(ClientDirFilter::new(dir.as_str()));
    }
    if let Some(dir) = &env_lol_dir {
        return Some(ClientDirFilter::new(dir.as_str()));
    }
    None
}

/// The executable names of the League client processes.
pub open spec fn is_league_client_name(name: Seq<char>) -> bool {
    eq_ignore_ascii_case(name, "LeagueClientUx.exe"@)
        || eq_ignore_ascii_case(name, "LeagueClientUxRender.exe"@)
        || eq_ignore_ascii_case(name, "LeagueClient.exe"@)
}

/// Whether an executable name (compared without regard to ASCII case) is one
/// of the League client's.
pub fn is_league_client_process(exe_name: &str) -> (r: bool)
    ensures
        r == is_league_client_name(exe_name@),
{
    let n = chars_of(exe_name);
    chars_eq_ignore_ascii_case(&n, &chars_of("LeagueClientUx.exe"))
        || chars_eq_ignore_ascii_case(&n, &chars_of("LeagueClientUxRender.exe"))
        || chars_eq_ignore_ascii_case(&n, &chars_of("LeagueClient.exe"))
}


/// Whether a UTF-16 code unit is a surrogate (half of a pair).
pub open spec fn is_surrogate(u: u16) -> bool {
    0xD800 <= u && u <= 0xDFFF
}

/// Whether a UTF-16 code unit is a leading (high) surrogate.
pub open spec fn is_high_surrogate(u: u16) -> bool {
    0xD800 <= u && u <= 0xDBFF
}

/// Whether a UTF-16 code unit is a trailing (low) surrogate.
pub open spec fn is_low_surrogate(u: u16) -> bool {
    0xDC00 <= u && u <= 0xDFFF
}

/// The character of a surrogate pair.
pub open spec fn pair_char(hi: u16, lo: u16) -> char {
    (0x10000 + (hi - 0xD800) * 1024 + (lo - 0xDC00)) as char
}

/// Lossy UTF-16 decoding: a high surrogate followed by a low one is the
/// character of the pair; any other surrogate is U+FFFD; every other unit
/// is the character of the same value.
pub open spec fn utf16_lossy(units: Seq<u16>) -> Seq<char>
    decreases units.len(),
{
    if units.len() == 0 {
        seq![]
    } else if units.len() >= 2 && is_high_surrogate(units[0]) && is_low_surrogate(units[1]) {
        seq![pair_char(units[0], units[1])] + utf16_lossy(units.skip(2))
    } else if is_surrogate(units[0]) {
        seq!['\u{FFFD}'] + utf16_lossy(units.skip(1))
    } else {
        seq![units[0] as char] + utf16_lossy(units.skip(1))
    }
}

/// Units without surrogates decode one for one to the characters of the
/// same values.
pub proof fn lemma_utf16_lossy_plain(units: Seq<u16>)
    requires
        forall|i: int| 0 <= i < units.len() ==> !is_surrogate(#[trigger] units[i]),
    ensures
        utf16_lossy(units) == units.map_values(|u: u16| u as char),
    decreases units.len(),
{
    if units.len() > 0 {
        let rest = units.skip(1);
        assert forall|i: int| 0 <= i < rest.len() implies !is_surrogate(#[trigger] rest[i]) by {
            assert(rest[i] == units[i + 1]);
        }
        lemma_utf16_lossy_plain(rest);
        assert(!is_surrogate(units[0]));
        assert(utf16_lossy(units) =~= units.map_values(|u: u16| u as char));
    }
}

/// Decodes UTF-16 with `String::from_utf16_lossy`.
/// Trusted: the documentation of `String::from_utf16_lossy` and of
/// `char::decode_utf16` says that surrogate pairs decode to one character,
/// that each unpaired surrogate is replaced by U+FFFD, and that every other
/// unit is the character of that value; [`utf16_lossy`] says the same.
#[verifier::external_body]
fn string_from_utf16_lossy(units: &[u16]) -> (s: String)
    ensures
        s@ == utf16_lossy(units@),
{
    String::from_utf16_lossy(units)
}

/// The index of the first zero unit at or after `i`, or the length.
pub open spec fn nul_index_from(units: Seq<u16>, i: int) -> int
    decreases units.len() - i,
{
    if 0 <= i < units.len() && units[i] != 0 {
        nul_index_from(units, i + 1)
    } else {
        i
    }
}

/// The units before the first zero unit (all of them when there is none).
pub open spec fn before_nul(units: Seq<u16>) -> Seq<u16> {
    units.take(nul_index_from(units, 0))
}

/// The text held in a fixed-size, zero-terminated UTF-16 buffer (such as
/// an executable name in a process snapshot), decoded lossily.
pub fn utf16_nul_terminated_to_string(buf: &[u16]) -> (r: String)
    ensures
        r@ == utf16_lossy(before_nul(buf@)),
        (forall|i: int|
            0 <= i < before_nul(buf@).len() ==> !is_surrogate(#[trigger] before_nul(buf@)[i])) ==> r@
            == before_nul(buf@).map_values(|u: u16| u as char),
{
    let mut len: usize = 0;
    while len < buf.len() && buf[len] != 0
        invariant
            len <= buf@.len(),
            nul_index_from(buf@, 0) == nul_index_from(buf@, len as int),
        decreases buf@.len() - len,
    {
        len = len + 1;
    }
    let mut head: Vec<u16> = Vec::new();
    let mut i: usize = 0;
    while i < len
        invariant
            i <= len,
            len <= buf@.len(),
            head@ == buf@.take(i as int),
        decreases len - i,
    {
        head.push(buf[i]);
        i = i + 1;
        assert(head@ =~= buf@.take(i as int));
    }
    let r = string_from_utf16_lossy(head.as_slice());
    proof {
        if forall|k: int|
            0 <= k < before_nul(buf@).len() ==> !is_surrogate(#[trigger] before_nul(buf@)[k]) {
            lemma_utf16_lossy_plain(before_nul(buf@));
        }
    }
    r
}


/// The error type of `serde_json`.
#[verifier::external_type_specification]
#[verifier::external_body]
pub struct ExJsonError(serde_json::Error);

/// The string that `serde_json::from_str::<String>` reads from a text (a
/// JSON string literal, possibly surrounded by whitespace), or `None` when it
/// rejects the text.
pub uninterp spec fn json_string(text: Seq<char>) -> Option<Seq<char>>;

/// Reads a JSON string with `serde_json::from_str::<String>`.
/// Trusted: the outcome is named [`json_string`] of the text; nothing more
/// is claimed of JSON syntax here.
#[verifier::external_body]
fn json_string_from_str(text: &str) -> (r: Result<String, serde_json::Error>)
    ensures
        r is Ok <==> json_string(text@) is Some,
        r matches Ok(s) ==> json_string(text@) == Some(s@),
{
    serde_json::from_str::<String>(text)
}

/// Whether an HTTP status is a success (`200..=299`).
pub open spec fn is_success(status: u16) -> bool {
    200 <= status && status <= 299
}

/// Whether an HTTP status is a success (`200..=299`), as
/// `StatusCode::is_success` decides it.
pub fn is_success_status(status: u16) -> (r: bool)
    ensures
        r == is_success(status),
{
    200 <= status && status <= 299
}

/// Why a request to the client API did not give what was asked.
#[derive(Debug, PartialEq, Eq)]
pub enum LcuError {
    /// The connection probe got a status other than success.
    ProbeStatus(u16),
    /// The phase request got a status other than success; the body excerpt.
    PhaseStatus(u16, String),
    /// The phase reply was not a JSON string.
    PhaseNotJson,
    /// The ready-check accept got a status other than success; the body
    /// excerpt.
    AcceptStatus(u16, String),
}

/// The mathematical content of an [`LcuError`].
pub enum LcuErrorView {
    ProbeStatus(u16),
    PhaseStatus(u16, Seq<char>),
    PhaseNotJson,
    AcceptStatus(u16, Seq<char>),
}

pub open spec fn lcu_error_view(e: LcuError) -> LcuErrorView {
    match e {
        LcuError::ProbeStatus(s) => LcuErrorView::ProbeStatus(s),
        LcuError::PhaseStatus(s, b) => LcuErrorView::PhaseStatus(s, b@),
        LcuError::PhaseNotJson => LcuErrorView::PhaseNotJson,
        LcuError::AcceptStatus(s, b) => LcuErrorView::AcceptStatus(s, b@),
    }
}

/// The outcome of a connection probe with the given reply status.
pub fn probe_outcome(status: u16) -> (r: Result<(), LcuError>)
    ensures
        r is Ok <==> is_success(status),
        r matches Err(e) ==> lcu_error_view(e) == LcuErrorView::ProbeStatus(status),
{
    if is_success_status(status) {
        Ok(())
    } else {
        Err(LcuError::ProbeStatus(status))
    }
}

/// The phase that a reply to the game-flow request reports: the JSON string
/// of the body when the status is a success; otherwise the status with an
/// excerpt of the body.
pub fn gameflow_phase_from_response(status: u16, body: &str) -> (r: Result<String, LcuError>)
    requires
        !is_success(status) ==> log_cut_ok(body),
    ensures
        !is_success(status) ==> (r matches Err(e) && lcu_error_view(e)
            == LcuErrorView::PhaseStatus(status, log_excerpt(body))),
        is_success(status) ==> match json_string(body@) {
            Some(p) => (r matches Ok(s) && s@ == p),
            None => (r matches Err(e) && lcu_error_view(e) == LcuErrorView::PhaseNotJson),
        },
{
    if !is_success_status(status) {
        return Err(LcuError::PhaseStatus(status, trim_for_log(body)));
    }
    match json_string_from_str(body) {
        Ok(s) => Ok(s),
        Err(_) => Err(LcuError::PhaseNotJson),
    }
}

/// The outcome of a ready-check accept with the given reply.
pub fn accept_outcome(status: u16, body: &str) -> (r: Result<(), LcuError>)
    requires
        !is_success(status) ==> log_cut_ok(body),
    ensures
        r is Ok <==> is_success(status),
        r matches Err(e) ==> lcu_error_view(e) == LcuErrorView::AcceptStatus(status, log_excerpt(body)),
{
    if is_success_status(status) {
        Ok(())
    } else {
        Err(LcuError::AcceptStatus(status, trim_for_log(body)))
    }
}

/// The game-flow phase during which a ready check waits for an answer.
pub open spec fn ready_check_phase() -> Seq<char> {
    "ReadyCheck"@
}

/// The game-flow phase while a game is being played.
pub open spec fn in_progress_phase() -> Seq<char> {
    "InProgress"@
}

/// The mathematical content of the worker's state.
pub struct WorkerView {
    pub connection: Option<(AuthView, Seq<char>)>,
    pub accepted_this_ready_check: bool,
    pub last_phase: Option<Seq<char>>,
    pub fullmuted_this_game: bool,
}

/// What the worker does about one observed phase.
#[derive(Debug, PartialEq, Eq)]
pub struct PhaseActions {
    /// The phase differs from the last one seen: it is logged.
    pub log_phase: bool,
    /// A game has just started: the in-game mute task is started.
    pub start_fullmute: bool,
    /// A ready check is open and not yet accepted: it is accepted.
    pub accept_ready_check: bool,
}

/// The state after a discovery round that found `found`: the connection is
/// replaced and every per-phase mark is cleared.
pub open spec fn after_discovery(found: Option<(AuthView, Seq<char>)>) -> WorkerView {
    WorkerView {
        connection: found,
        accepted_this_ready_check: false,
        last_phase: None,
        fullmuted_this_game: false,
    }
}

/// The state after a failed phase request: the connection is dropped and
/// the ready check is no longer counted as accepted.
pub open spec fn after_phase_error(s: WorkerView) -> WorkerView {
    WorkerView { connection: None, accepted_this_ready_check: false, ..s }
}

/// The actions for phase `phase` in state `s`.
pub open spec fn phase_actions(s: WorkerView, phase: Seq<char>) -> PhaseActions {
    PhaseActions {
        log_phase: s.last_phase != Some(phase),
        start_fullmute: phase == in_progress_phase() && !s.fullmuted_this_game,
        accept_ready_check: phase == ready_check_phase() && !s.accepted_this_ready_check,
    }
}

/// The state after phase `phase` is observed in state `s` (before any
/// accept answer): the phase is remembered, the game mark follows
/// `InProgress`, and leaving `ReadyCheck` clears the accepted mark.
pub open spec fn after_phase(s: WorkerView, phase: Seq<char>) -> WorkerView {
    WorkerView {
        connection: s.connection,
        accepted_this_ready_check: if phase == ready_check_phase() {
            s.accepted_this_ready_check
        } else {
            false
        },
        last_phase: Some(phase),
        fullmuted_this_game: phase == in_progress_phase(),
    }
}

/// The state after the answer to an accept request: a success marks the
/// ready check as accepted.
pub open spec fn after_accept(s: WorkerView, ok: bool) -> WorkerView {
    if ok {
        WorkerView { accepted_this_ready_check: true, ..s }
    } else {
        s
    }
}

/// The decisions of the client-API worker loop: when to look for a client,
/// what to do about each observed game-flow phase, and what it remembers
/// between polls.
pub struct LcuWorker {
    connection: Option<(LcuAuth, String)>,
    accepted_this_ready_check: bool,
    last_phase: Option<String>,
    fullmuted_this_game: bool,
}

/// The view of an optional connection.
pub open spec fn connection_view(c: Option<(LcuAuth, String)>) -> Option<(AuthView, Seq<char>)> {
    match c {
        Some((a, s)) => Some((a@, s@)),
        None => None,
    }
}

impl View for LcuWorker {
    type V = WorkerView;

    closed spec fn view(&self) -> WorkerView {
        WorkerView {
            connection: connection_view(self.connection),
            accepted_this_ready_check: self.accepted_this_ready_check,
            last_phase: opt_view(self.last_phase),
            fullmuted_this_game: self.fullmuted_this_game,
        }
    }
}

impl LcuWorker {
    /// Not connected, nothing seen.
    pub fn new() -> (r: LcuWorker)
        ensures
            r@ == after_discovery(None),
    {
        LcuWorker {
            connection: None,
            accepted_this_ready_check: false,
            last_phase: None,
            fullmuted_this_game: false,
        }
    }

    /// Whether a client must be looked for before the next poll.
    pub fn needs_discovery(&self) -> (r: bool)
        ensures
            r == (self@.connection is None),
    {
        self.connection.is_none()
    }

    /// The credentials of the current connection.
    pub fn auth(&self) -> (r: Option<LcuAuth>)
        ensures
            match self@.connection {
                Some((a, _)) => (r matches Some(x) && x@ == a),
                None => r is None,
            },
    {
        match &self.connection {
            Some((a, _)) => Some(a.clone_auth()),
            None => None,
        }
    }

    /// The description of where the current connection's credentials
    /// came from.
    pub fn source(&self) -> (r: Option<String>)
        ensures
            match self@.connection {
                Some((_, d)) => (r matches Some(x) && x@ == d),
                None => r is None,
            },
    {
        match &self.connection {
            Some((_, d)) => Some(d.clone()),
            None => None,
        }
    }

    /// Takes the result of a discovery round; returns whether a client was
    /// found (if not, the caller waits a second before the next round).
    pub fn on_discovery(&mut self, found: Option<(LcuAuth, String)>) -> (r: bool)
        ensures
            final(self)@ == after_discovery(connection_view(found)),
            r == found is Some,
    {
        let r = found.is_some();
        self.connection = found;
        self.accepted_this_ready_check = false;
        self.last_phase = None;
        self.fullmuted_this_game = false;
        r
    }

    /// A phase request failed: the connection is dropped (the caller waits a
    /// second before discovering again).
    pub fn on_phase_error(&mut self)
        ensures
            final(self)@ == after_phase_error(old(self)@),
    {
        self.connection = None;
        self.accepted_this_ready_check = false;
    }

    /// Takes the phase reported by the client and says what to do about it.
    pub fn on_phase(&mut self, phase: String) -> (r: PhaseActions)
        ensures
            r == phase_actions(old(self)@, phase@),
            final(self)@ == after_phase(old(self)@, phase@),
    {
        let log_phase = match &self.last_phase {
            Some(p) => !(*p == phase),
            None => true,
        };
        let ready = str_equals(&phase, "ReadyCheck");
        let in_progress = str_equals(&phase, "InProgress");
        let start_fullmute = in_progress && !self.fullmuted_this_game;
        self.fullmuted_this_game = in_progress;
        let accept_ready_check = ready && !self.accepted_this_ready_check;
        if !ready {
            self.accepted_this_ready_check = false;
        }
        self.last_phase = Some(phase);
        PhaseActions { log_phase, start_fullmute, accept_ready_check }
    }

    /// Takes the outcome of an accept request.
    pub fn on_accept_result(&mut self, ok: bool)
        ensures
            final(self)@ == after_accept(old(self)@, ok),
    {
        if ok {
            self.accepted_this_ready_check = true;
        }
    }
}


/// A ready check is accepted once: after an accept succeeded, further polls
/// that still report `ReadyCheck` ask for no other accept.
pub proof fn law_ready_check_accepted_once(s: WorkerView)
    ensures
        ({
            let s1 = after_accept(after_phase(s, ready_check_phase()), true);
            &&& !phase_actions(s1, ready_check_phase()).accept_ready_check
            &&& !phase_actions(
                after_phase(s1, ready_check_phase()),
                ready_check_phase(),
            ).accept_ready_check
        }),
{
}

/// An open ready check that has not been accepted is accepted, and a failed
/// accept is tried again at the next poll.
pub proof fn law_ready_check_retried_after_failure(s: WorkerView)
    requires
        !s.accepted_this_ready_check,
    ensures
        phase_actions(s, ready_check_phase()).accept_ready_check,
        phase_actions(
            after_accept(after_phase(s, ready_check_phase()), false),
            ready_check_phase(),
        ).accept_ready_check,
{
}

/// Leaving the ready check re-arms it: after any other phase, the next
/// ready check is accepted again.
pub proof fn law_ready_check_rearmed(s: WorkerView, other: Seq<char>)
    requires
        other != ready_check_phase(),
    ensures
        phase_actions(after_phase(s, other), ready_check_phase()).accept_ready_check,
{
}

/// The in-game mute task starts once per game: a second `InProgress` poll
/// does not start it again, and the first `InProgress` after any other
/// phase does.
pub proof fn law_fullmute_once_per_game(s: WorkerView, other: Seq<char>)
    requires
        other != in_progress_phase(),
    ensures
        !phase_actions(after_phase(s, in_progress_phase()), in_progress_phase()).start_fullmute,
        phase_actions(after_phase(s, other), in_progress_phase()).start_fullmute,
{
}

/// A phase is logged when it changes and not again while it stays.
pub proof fn law_phase_logged_on_change(s: WorkerView, phase: Seq<char>)
    ensures
        !phase_actions(after_phase(s, phase), phase).log_phase,
        s.last_phase != Some(phase) ==> phase_actions(s, phase).log_phase,
{
}

/// A new connection starts from a clean slate: whatever was seen before,
/// the first ready check after a discovery is accepted and the first game
/// starts the mute task.
pub proof fn law_reconnect_rearms(found: Option<(AuthView, Seq<char>)>)
    ensures
        phase_actions(after_discovery(found), ready_check_phase()).accept_ready_check,
        phase_actions(after_discovery(found), in_progress_phase()).start_fullmute,
        phase_actions(after_discovery(found), ready_check_phase()).log_phase,
{
}


/// The state after one poll on a live connection that reports `phase`;
/// `accept_ok` is the answer to the accept request, used only when the
/// poll asks for one.
pub open spec fn poll_step(s: WorkerView, phase: Seq<char>, accept_ok: bool) -> WorkerView {
    let s1 = after_phase(s, phase);
    if phase_actions(s, phase).accept_ready_check {
        after_accept(s1, accept_ok)
    } else {
        s1
    }
}

/// The state after the first `n` polls of a connection, starting in `s`.
pub open spec fn state_after_polls(s: WorkerView, phases: Seq<Seq<char>>, oks: Seq<bool>, n: nat) -> WorkerView
    decreases n,
{
    if n == 0 {
        s
    } else {
        poll_step(state_after_polls(s, phases, oks, (n - 1) as nat), phases[n - 1], oks[n - 1])
    }
}

/// The actions of poll `i` of a connection found by a discovery round.
pub open spec fn poll_actions(found: Option<(AuthView, Seq<char>)>, phases: Seq<Seq<char>>, oks: Seq<bool>, i: int) -> PhaseActions {
    phase_actions(state_after_polls(after_discovery(found), phases, oks, i as nat), phases[i])
}

/// Whether, before poll `i`, an accept at poll `j` succeeded and the phase
/// stayed `ReadyCheck` from `j` up to poll `i - 1`.
pub open spec fn accepted_since(
    found: Option<(AuthView, Seq<char>)>,
    phases: Seq<Seq<char>>,
    oks: Seq<bool>,
    j: int,
    i: int,
) -> bool {
    &&& 0 <= j < i
    &&& poll_actions(found, phases, oks, j).accept_ready_check
    &&& oks[j]
    &&& forall|k: int| j <= k < i ==> #[trigger] phases[k] == ready_check_phase()
}

proof fn lemma_accepted_mark(
    found: Option<(AuthView, Seq<char>)>,
    phases: Seq<Seq<char>>,
    oks: Seq<bool>,
    n: nat,
)
    requires
        phases.len() == oks.len(),
        n <= phases.len(),
    ensures
        state_after_polls(after_discovery(found), phases, oks, n).accepted_this_ready_check <==> exists|
            j: int,
        | #[trigger] accepted_since(found, phases, oks, j, n as int),
    decreases n,
{
    let s0 = after_discovery(found);
    if n > 0 {
        let m = (n - 1) as nat;
        lemma_accepted_mark(found, phases, oks, m);
        let s = state_after_polls(s0, phases, oks, m);
        let p = phases[m as int];
        let t = state_after_polls(s0, phases, oks, n);
        assert(t == poll_step(s, p, oks[m as int]));
        if t.accepted_this_ready_check {
            if s.accepted_this_ready_check {
                let j = choose|j: int| #[trigger] accepted_since(found, phases, oks, j, m as int);
                assert(p == ready_check_phase());
                assert(accepted_since(found, phases, oks, j, n as int));
            } else {
                assert(accepted_since(found, phases, oks, m as int, n as int));
            }
        }
        if exists|j: int| #[trigger] accepted_since(found, phases, oks, j, n as int) {
            let j = choose|j: int| #[trigger] accepted_since(found, phases, oks, j, n as int);
            assert(phases[m as int] == ready_check_phase());
            if j < m {
                assert(accepted_since(found, phases, oks, j, m as int));
            }
        }
    }
}

/// Over all the polls of one connection, the ready check is accepted as the
/// program promises: an accept is asked for at poll `i` exactly when the
/// phase is `ReadyCheck` and no earlier accept succeeded in the same
/// unbroken `ReadyCheck` stretch. So no accept outside `ReadyCheck`, a
/// retry after each failed accept, and one successful accept per stretch.
pub proof fn law_ready_check_over_polls(
    found: Option<(AuthView, Seq<char>)>,
    phases: Seq<Seq<char>>,
    oks: Seq<bool>,
    i: int,
)
    requires
        phases.len() == oks.len(),
        0 <= i < phases.len(),
    ensures
        poll_actions(found, phases, oks, i).accept_ready_check <==> (phases[i] == ready_check_phase()
            && !exists|j: int|
            0 <= j < i && poll_actions(found, phases, oks, j).accept_ready_check && oks[j] && (forall|
                k: int,
            | j <= k <= i ==> #[trigger] phases[k] == ready_check_phase())),
{
    lemma_accepted_mark(found, phases, oks, i as nat);
    if exists|j: int|
        0 <= j < i && poll_actions(found, phases, oks, j).accept_ready_check && oks[j] && (forall|
            k: int,
        | j <= k <= i ==> #[trigger] phases[k] == ready_check_phase()) {
        let j = choose|j: int|
            0 <= j < i && poll_actions(found, phases, oks, j).accept_ready_check && oks[j] && (forall|
                k: int,
            | j <= k <= i ==> #[trigger] phases[k] == ready_check_phase());
        assert(accepted_since(found, phases, oks, j, i));
    }
    if phases[i] == ready_check_phase() && exists|j: int|
        #[trigger] accepted_since(found, phases, oks, j, i) {
        let j = choose|j: int| #[trigger] accepted_since(found, phases, oks, j, i);
        assert forall|k: int| j <= k <= i implies #[trigger] phases[k] == ready_check_phase() by {
            if k < i {
                assert(accepted_since(found, phases, oks, j, i));
            }
        }
    }
}

proof fn lemma_fullmute_mark(
    found: Option<(AuthView, Seq<char>)>,
    phases: Seq<Seq<char>>,
    oks: Seq<bool>,
    n: nat,
)
    requires
        phases.len() == oks.len(),
        n <= phases.len(),
    ensures
        state_after_polls(after_discovery(found), phases, oks, n).fullmuted_this_game == (n > 0
            && phases[n - 1] == in_progress_phase()),
    decreases n,
{
    if n > 0 {
        lemma_fullmute_mark(found, phases, oks, (n - 1) as nat);
    }
}

/// Over all the polls of one connection, the in-game mute task starts at
/// poll `i` exactly when the phase is `InProgress` and the poll before was
/// not (or there was none): once per unbroken `InProgress` stretch, never
/// in another phase.
pub proof fn law_fullmute_over_polls(
    found: Option<(AuthView, Seq<char>)>,
    phases: Seq<Seq<char>>,
    oks: Seq<bool>,
    i: int,
)
    requires
        phases.len() == oks.len(),
        0 <= i < phases.len(),
    ensures
        poll_actions(found, phases, oks, i).start_fullmute <==> (phases[i] == in_progress_phase() && (
        i == 0 || phases[i - 1] != in_progress_phase())),
{
    lemma_fullmute_mark(found, phases, oks, i as nat);
}

proof fn lemma_strip_trailing_end(s: Seq<char>, c: char)
    ensures
        strip_trailing(s, c).len() > 0 ==> strip_trailing(s, c).last() != c,
        forall|i: int|
            0 <= i < strip_trailing(s, c).len() ==> #[trigger] strip_trailing(s, c)[i] == s[i],
        strip_trailing(s, c).len() <= s.len(),
    decreases s.len(),
{
    if s.len() > 0 && s.last() == c {
        lemma_strip_trailing_end(s.drop_last(), c);
    }
}

/// A directory key is its own key: `path_key` is idempotent.
pub proof fn law_path_key_idempotent(p: Seq<char>)
    ensures
        path_key_of(path_key_of(p)) == path_key_of(p),
{
    let m = p.map_values(|c: char| slash(c));
    let t = strip_trailing(m, '/');
    let k = path_key_of(p);
    lemma_strip_trailing_end(m, '/');
    assert(k == ascii_lower_seq(t));
    let mk = k.map_values(|c: char| slash(c));
    assert(mk =~= k);
    if k.len() > 0 {
        assert(k.last() == crate::text::ascii_lower(t.last()));
        assert(k.last() != '/');
    }
    assert(strip_trailing(k, '/') == k);
    assert(ascii_lower_seq(k) =~= k);
}

/// The filter made from a directory accepts that directory's key and every
/// key below it, however the directory was written (slash style, ASCII
/// case, trailing slashes).
pub proof fn law_filter_accepts_own_tree(dir: Seq<char>, other_path: Seq<char>, rest: Seq<char>)
    ensures
        path_key_of(other_path) == path_key_of(dir) ==> dir_key_accepts(
            path_key_of(dir),
            path_key_of(other_path),
        ),
        dir_key_accepts(path_key_of(dir), path_key_of(dir) + "/"@ + rest),
{
    reveal_strlit("/");
    let k = path_key_of(dir);
    assert((k + "/"@ + rest).take(k.push('/').len() as int) =~= k.push('/'));
}

} // verus!

verus! {

/// An explicit `--lol-dir` always decides the filter, whatever the
/// environment holds; without it the `LOL_DIR` value decides, and with
/// neither there is no filter. The filter's key is the directory's key.
pub proof fn law_lol_dir_wins(d: Seq<char>, e: Option<Seq<char>>)
    ensures
        desired_filter_key(Some(d), e) == Some(path_key_of(d)),
        desired_filter_key(Some(d), None) == Some(path_key_of(d)),
        desired_filter_key(None, e) == (match e {
            Some(x) => Some(path_key_of(x)),
            None => None::<Seq<char>>,
        }),
        desired_filter_key(None, None) is None,
{
}

} // verus!

//! Reading `--name value` / `--name=value` arguments out of a process
//! command line, and the partial LCU credentials found there.
use vstd::prelude::*;

use crate::lcu::{opt_view, LcuAuth, AuthView};
use crate::text::{decimal, lemma_decimal_digits, law_u16_decimal_roundtrip, strip_leading, strip_trailing, chars_of, string_from_chars, parse_u16, parse_u16_chars, trim_char, trim_matches_char, ascii_lower_seq, to_ascii_lowercase, chars_equal, is_digit};

verus! {

/// `u8::is_ascii_whitespace` on a character: space, tab, line feed,
/// form feed and carriage return.
pub open spec fn is_ascii_ws(c: char) -> bool {
    c == ' ' || c == '\t' || c == '\n' || c == '\x0C' || c == '\r'
}

/// A single or a double quote.
pub open spec fn is_quote(c: char) -> bool {
    c == '"' || c == '\''
}

/// `name` occurs in `cmd` starting at index `i`.
pub open spec fn occurs_at(cmd: Seq<char>, name: Seq<char>, i: int) -> bool {
    0 <= i && i + name.len() <= cmd.len() && cmd.subrange(i, i + name.len()) == name
}

/// The first index at or after `from` where `name` occurs (`str::find` on
/// the tail that starts at `from`).
pub open spec fn find_from(cmd: Seq<char>, name: Seq<char>, from: int) -> Option<int>
    decreases cmd.len() - from,
{
    if from < 0 || from + name.len() > cmd.len() {
        None
    } else if name.len() == 0 || occurs_at(cmd, name, from) {
        Some(from)
    } else {
        find_from(cmd, name, from + 1)
    }
}

/// The first index at or after `j` that holds no ASCII whitespace.
pub open spec fn skip_ws(cmd: Seq<char>, j: int) -> int
    decreases cmd.len() - j,
{
    if 0 <= j < cmd.len() && is_ascii_ws(cmd[j]) {
        skip_ws(cmd, j + 1)
    } else {
        j
    }
}

/// The first index at or after `j` that holds `q`, or the length of `cmd`.
pub open spec fn scan_to(cmd: Seq<char>, j: int, q: char) -> int
    decreases cmd.len() - j,
{
    if 0 <= j < cmd.len() && cmd[j] != q {
        scan_to(cmd, j + 1, q)
    } else {
        j
    }
}

/// The first index at or after `j` that holds whitespace or a quote, or the
/// length of `cmd`.
pub open spec fn scan_bare(cmd: Seq<char>, j: int) -> int
    decreases cmd.len() - j,
{
    if 0 <= j < cmd.len() && !is_ascii_ws(cmd[j]) && !is_quote(cmd[j]) {
        scan_bare(cmd, j + 1)
    } else {
        j
    }
}

/// An occurrence at `idx` starts an argument: it opens the line or follows
/// whitespace or a quote.
pub open spec fn starts_argument(cmd: Seq<char>, idx: int) -> bool {
    idx == 0 || is_ascii_ws(cmd[idx - 1]) || is_quote(cmd[idx - 1])
}

/// Where the value of an argument named at `idx` begins: just after `=`
/// when `=` follows the name, else after the whitespace that follows it.
pub open spec fn value_start(cmd: Seq<char>, name_len: int, idx: int) -> int {
    let j = idx + name_len;
    if j < cmd.len() && cmd[j] == '=' {
        j + 1
    } else {
        skip_ws(cmd, j)
    }
}

/// The value that begins at `j` and the index where scanning resumes: a
/// quoted value runs to the matching quote (or the end), a bare value to
/// the next whitespace or quote.
pub open spec fn value_at(cmd: Seq<char>, j: int) -> (Seq<char>, int) {
    if is_quote(cmd[j]) {
        let k = scan_to(cmd, j + 1, cmd[j]);
        (cmd.subrange(j + 1, k), k + 1)
    } else {
        let k = scan_bare(cmd, j);
        (cmd.subrange(j, k), k)
    }
}

pub open spec fn clamp_to(x: int, hi: int) -> int {
    if x > hi {
        hi
    } else {
        x
    }
}

pub open spec fn max_int(a: int, b: int) -> int {
    if a > b {
        a
    } else {
        b
    }
}

/// Scans `cmd` from `start` for occurrences of `name`, keeping the last
/// non-empty value seen (`best` holds the value found so far).
pub open spec fn scan_arg(cmd: Seq<char>, name: Seq<char>, start: int, best: Option<Seq<char>>) -> Option<Seq<char>>
    decreases cmd.len() - start,
{
    if name.len() == 0 || start < 0 || start >= cmd.len() {
        best
    } else {
        match find_from(cmd, name, start) {
            None => best,
            Some(idx) => {
                if idx < start || !occurs_at(cmd, name, idx) {
                    best
                } else {
                    let next = idx + name.len();
                    if !starts_argument(cmd, idx) {
                        scan_arg(cmd, name, next, best)
                    } else {
                        let j = value_start(cmd, name.len() as int, idx);
                        if j >= cmd.len() {
                            scan_arg(cmd, name, next, best)
                        } else {
                            let (val, end) = value_at(cmd, j);
                            scan_arg(
                                cmd,
                                name,
                                clamp_to(max_int(end, next), cmd.len() as int),
                                if val.len() > 0 {
                                    Some(val)
                                } else {
                                    best
                                },
                            )
                        }
                    }
                }
            },
        }
    }
}

/// The value of the argument `name` in the command line `cmd`: the last
/// non-empty value among the occurrences of `name` that start an argument.
pub open spec fn cmd_arg_value(cmd: Seq<char>, name: Seq<char>) -> Option<Seq<char>> {
    scan_arg(cmd, name, 0, None)
}

proof fn lemma_find_from(cmd: Seq<char>, name: Seq<char>, from: int)
    ensures
        find_from(cmd, name, from) matches Some(i) ==> from <= i && occurs_at(cmd, name, i),
    decreases cmd.len() - from,
{
    if from < 0 || from + name.len() > cmd.len() {
    } else if name.len() == 0 || occurs_at(cmd, name, from) {
        if name.len() == 0 {
            assert(cmd.subrange(from, from + name.len()) =~= name);
        }
    } else {
        lemma_find_from(cmd, name, from + 1);
    }
}

fn occurs_at_exec(cmd: &Vec<char>, name: &Vec<char>, i: usize) -> (r: bool)
    requires
        i + name.len() <= cmd.len(),
    ensures
        r == occurs_at(cmd@, name@, i as int),
{
    let mut k: usize = 0;
    while k < name.len()
        invariant
            k <= name.len(),
            i + name.len() <= cmd.len(),
            forall|t: int| 0 <= t < k ==> cmd@[i + t] == name@[t],
        decreases name.len() - k,
    {
        if cmd[i + k] != name[k] {
            assert(cmd@.subrange(i as int, i + name.len())[k as int] != name@[k as int]);
            return false;
        }
        k = k + 1;
    }
    assert(cmd@.subrange(i as int, i + name.len()) =~= name@);
    true
}

fn find_from_exec(cmd: &Vec<char>, name: &Vec<char>, from: usize) -> (r: Option<usize>)
    requires
        name.len() > 0,
        from <= cmd.len(),
    ensures
        match r {
            Some(i) => find_from(cmd@, name@, from as int) == Some(i as int),
            None => find_from(cmd@, name@, from as int) is None,
        },
{
    let mut i: usize = from;
    while i <= cmd.len() && name.len() <= cmd.len() - i
        invariant
            from <= i,
            name.len() > 0,
            i <= cmd.len() + 1,
            find_from(cmd@, name@, from as int) == find_from(cmd@, name@, i as int),
        decreases cmd.len() + 1 - i,
    {
        if occurs_at_exec(cmd, name, i) {
            return Some(i);
        }
        i = i + 1;
    }
    None
}

fn skip_ws_exec(cmd: &Vec<char>, j: usize) -> (r: usize)
    requires
        j <= cmd.len(),
    ensures
        r as int == skip_ws(cmd@, j as int),
        j <= r <= cmd.len(),
{
    let mut k = j;
    while k < cmd.len() && is_ascii_ws_exec(cmd[k])
        invariant
            j <= k <= cmd.len(),
            skip_ws(cmd@, j as int) == skip_ws(cmd@, k as int),
        decreases cmd.len() - k,
    {
        k = k + 1;
    }
    k
}

fn scan_to_exec(cmd: &Vec<char>, j: usize, q: char) -> (r: usize)
    requires
        j <= cmd.len(),
    ensures
        r as int == scan_to(cmd@, j as int, q),
        j <= r <= cmd.len(),
{
    let mut k = j;
    while k < cmd.len() && cmd[k] != q
        invariant
            j <= k <= cmd.len(),
            scan_to(cmd@, j as int, q) == scan_to(cmd@, k as int, q),
        decreases cmd.len() - k,
    {
        k = k + 1;
    }
    k
}

fn scan_bare_exec(cmd: &Vec<char>, j: usize) -> (r: usize)
    requires
        j <= cmd.len(),
    ensures
        r as int == scan_bare(cmd@, j as int),
        j <= r <= cmd.len(),
{
    let mut k = j;
    while k < cmd.len() && !is_ascii_ws_exec(cmd[k]) && !is_quote_exec(cmd[k])
        invariant
            j <= k <= cmd.len(),
            scan_bare(cmd@, j as int) == scan_bare(cmd@, k as int),
        decreases cmd.len() - k,
    {
        k = k + 1;
    }
    k
}

fn is_ascii_ws_exec(c: char) -> (r: bool)
    ensures
        r == is_ascii_ws(c),
{
    c == ' ' || c == '\t' || c == '\n' || c == '\x0C' || c == '\r'
}

fn is_quote_exec(c: char) -> (r: bool)
    ensures
        r == is_quote(c),
{
    c == '"' || c == '\''
}

fn subrange_chars(v: &Vec<char>, a: usize, b: usize) -> (r: Vec<char>)
    requires
        a <= b <= v.len(),
    ensures
        r@ == v@.subrange(a as int, b as int),
{
    let mut r: Vec<char> = Vec::new();
    let mut i = a;
    while i < b
        invariant
            a <= i <= b,
            b <= v.len(),
            r@ == v@.subrange(a as int, i as int),
        decreases b - i,
    {
        r.push(v[i]);
        i = i + 1;
        assert(r@ =~= v@.subrange(a as int, i as int));
    }
    r
}

/// The value of the argument `name` in the command line `cmd` (the last
/// non-empty one), on character sequences.
pub fn find_arg_value_chars(cmd: &Vec<char>, name: &Vec<char>) -> (r: Option<Vec<char>>)
    requires
        name.len() > 0,
    ensures
        match r {
            Some(v) => cmd_arg_value(cmd@, name@) == Some(v@),
            None => cmd_arg_value(cmd@, name@) is None,
        },
{
    let n = name.len();
    let mut start: usize = 0;
    let mut best: Option<(usize, usize)> = None;
    let ghost best_view: Option<Seq<char>> = None;
    while start < cmd.len()
        invariant
            n == name.len(),
            n > 0,
            start <= cmd.len(),
            best_view == (match best {
                Some((a, b)) => Some(cmd@.subrange(a as int, b as int)),
                None => None,
            }),
            best matches Some((a, b)) ==> a <= b <= cmd.len(),
            cmd_arg_value(cmd@, name@) == scan_arg(cmd@, name@, start as int, best_view),
        decreases cmd.len() - start,
    {
        proof {
            lemma_find_from(cmd@, name@, start as int);
        }
        match find_from_exec(cmd, name, start) {
            None => {
                start = cmd.len();
            },
            Some(idx) => {
                let next = idx + n;
                if idx > 0 && !is_ascii_ws_exec(cmd[idx - 1]) && !is_quote_exec(cmd[idx - 1]) {
                    start = next;
                } else {
                    let j0 = idx + n;
                    let j = if j0 < cmd.len() && cmd[j0] == '=' {
                        j0 + 1
                    } else {
                        skip_ws_exec(cmd, j0)
                    };
                    if j >= cmd.len() {
                        start = next;
                    } else {
                        let q = cmd[j];
                        let (vs, ve, end) = if is_quote_exec(q) {
                            let k = scan_to_exec(cmd, j + 1, q);
                            let e = if k < cmd.len() {
                                k + 1
                            } else {
                                cmd.len()
                            };
                            (j + 1, k, e)
                        } else {
                            let k = scan_bare_exec(cmd, j);
                            (j, k, k)
                        };
                        if ve > vs {
                            best = Some((vs, ve));
                            proof {
                                best_view = Some(cmd@.subrange(vs as int, ve as int));
                            }
                        }
                        start = if end > next {
                            end
                        } else {
                            next
                        };
                    }
                }
            },
        }
    }
    match best {
        Some((a, b)) => Some(subrange_chars(cmd, a, b)),
        None => None,
    }
}


/// The value of the argument `name` in the command line `cmd`: of all the
/// places where `name` starts an argument (at the start of the line or after
/// whitespace or a quote), followed by `=value`, by whitespace and a value,
/// or by a quoted value, the last one whose value is not empty.
pub fn find_cmd_arg_value(cmd: &str, name: &str) -> (r: Option<String>)
    requires
        name@.len() > 0,
    ensures
        opt_view(r) == cmd_arg_value(cmd@, name@),
{
    let c = chars_of(cmd);
    let n = chars_of(name);
    match find_arg_value_chars(&c, &n) {
        Some(v) => Some(string_from_chars(&v)),
        None => None,
    }
}

/// Credentials read from one command line; each part may be missing.
#[derive(Debug, PartialEq, Eq)]
pub struct PartialAuth {
    pub protocol: Option<String>,
    pub port: Option<u16>,
    pub password: Option<String>,
}

/// The mathematical content of a [`PartialAuth`].
pub struct PartialAuthView {
    pub protocol: Option<Seq<char>>,
    pub port: Option<u16>,
    pub password: Option<Seq<char>>,
}

impl View for PartialAuth {
    type V = PartialAuthView;

    open spec fn view(&self) -> PartialAuthView {
        PartialAuthView {
            protocol: opt_view(self.protocol),
            port: self.port,
            password: opt_view(self.password),
        }
    }
}

/// The protocol named by an `--app-protocol` value: quotes trimmed,
/// lower-cased, and kept only when it is `http` or `https`.
pub open spec fn protocol_from(value: Option<Seq<char>>) -> Option<Seq<char>> {
    match value {
        Some(v) => {
            let p = ascii_lower_seq(trim_char(v, '"'));
            if p == "http"@ || p == "https"@ {
                Some(p)
            } else {
                None
            }
        },
        None => None,
    }
}

/// The port named by an `--app-port` value: quotes trimmed, read as a
/// `u16`, and kept only when it is not zero.
pub open spec fn port_from(value: Option<Seq<char>>) -> Option<u16> {
    match value {
        Some(v) => match parse_u16(trim_char(v, '"')) {
            Some(p) => if p != 0 {
                Some(p)
            } else {
                None
            },
            None => None,
        },
        None => None,
    }
}

/// The token named by a `--remoting-auth-token` value: quotes trimmed, and
/// kept only when not empty.
pub open spec fn password_from(value: Option<Seq<char>>) -> Option<Seq<char>> {
    match value {
        Some(v) => {
            let t = trim_char(v, '"');
            if t.len() > 0 {
                Some(t)
            } else {
                None
            }
        },
        None => None,
    }
}

/// The credentials that a command line names.
pub open spec fn partial_auth_of(cmd: Seq<char>) -> PartialAuthView {
    PartialAuthView {
        protocol: protocol_from(cmd_arg_value(cmd, "--app-protocol"@)),
        port: port_from(cmd_arg_value(cmd, "--app-port"@)),
        password: password_from(cmd_arg_value(cmd, "--remoting-auth-token"@)),
    }
}

/// Parts missing from `a` are taken from `b`; parts present in `a` stay.
pub open spec fn merge_partial(a: PartialAuthView, b: PartialAuthView) -> PartialAuthView {
    PartialAuthView {
        protocol: if a.protocol is None {
            b.protocol
        } else {
            a.protocol
        },
        port: if a.port is None {
            b.port
        } else {
            a.port
        },
        password: if a.password is None {
            b.password
        } else {
            a.password
        },
    }
}

/// Parts on which two command lines of one client disagree (the first
/// one's part is kept).
#[derive(Debug, PartialEq, Eq)]
pub struct MergeConflicts {
    /// Both name a protocol and they differ: kept, ignored.
    pub protocol: Option<(String, String)>,
    /// Both name a port and they differ: kept, ignored.
    pub port: Option<(u16, u16)>,
    /// Both name a token and they differ.
    pub password: bool,
}

/// The mathematical content of a [`MergeConflicts`].
pub struct MergeConflictsView {
    pub protocol: Option<(Seq<char>, Seq<char>)>,
    pub port: Option<(u16, u16)>,
    pub password: bool,
}

impl View for MergeConflicts {
    type V = MergeConflictsView;

    open spec fn view(&self) -> MergeConflictsView {
        MergeConflictsView {
            protocol: match self.protocol {
                Some((a, b)) => Some((a@, b@)),
                None => None,
            },
            port: self.port,
            password: self.password,
        }
    }
}

/// The disagreements between the credentials `a` already gathered and those
/// `b` of another command line of the same client.
pub open spec fn merge_conflicts_of(a: PartialAuthView, b: PartialAuthView) -> MergeConflictsView {
    MergeConflictsView {
        protocol: match (a.protocol, b.protocol) {
            (Some(x), Some(y)) => if x != y {
                Some((x, y))
            } else {
                None
            },
            _ => None,
        },
        port: match (a.port, b.port) {
            (Some(x), Some(y)) => if x != y {
                Some((x, y))
            } else {
                None
            },
            _ => None,
        },
        password: a.password is Some && b.password is Some && a.password != b.password,
    }
}

/// Complete credentials, when port and token are known; the protocol
/// defaults to `https`.
pub open spec fn complete_auth(p: PartialAuthView) -> Option<AuthView> {
    match (p.port, p.password) {
        (Some(port), Some(password)) => Some(
            AuthView {
                protocol: match p.protocol {
                    Some(pr) => pr,
                    None => "https"@,
                },
                port,
                password,
            },
        ),
        _ => None,
    }
}

/// Whether a command line names a port or a token.
pub open spec fn has_lcu_args(p: PartialAuthView) -> bool {
    p.port is Some || p.password is Some
}

impl PartialAuth {
    /// Nothing known.
    pub fn empty() -> (r: PartialAuth)
        ensures
            r@ == (PartialAuthView { protocol: None, port: None, password: None }),
    {
        PartialAuth { protocol: None, port: None, password: None }
    }

    /// Fills the parts of `self` that are missing from `other`; a part that
    /// `self` already has is kept, whatever `other` says. Returns the parts
    /// on which the two disagree.
    pub fn merge(&mut self, other: PartialAuth) -> (r: MergeConflicts)
        ensures
            final(self)@ == merge_partial(old(self)@, other@),
            r@ == merge_conflicts_of(old(self)@, other@),
    {
        let protocol = match &self.protocol {
            Some(a) => match &other.protocol {
                Some(b) => if chars_equal(&chars_of(a.as_str()), &chars_of(b.as_str())) {
                    None
                } else {
                    Some((a.clone(), b.clone()))
                },
                None => None,
            },
            None => None,
        };
        let port = match self.port {
            Some(a) => match other.port {
                Some(b) => if a == b {
                    None
                } else {
                    Some((a, b))
                },
                None => None,
            },
            None => None,
        };
        let password = match &self.password {
            Some(a) => match &other.password {
                Some(b) => !chars_equal(&chars_of(a.as_str()), &chars_of(b.as_str())),
                None => false,
            },
            None => false,
        };
        if self.protocol.is_none() {
            self.protocol = other.protocol;
        }
        if self.port.is_none() {
            self.port = other.port;
        }
        if self.password.is_none() {
            self.password = other.password;
        }
        MergeConflicts { protocol, port, password }
    }

    /// Complete credentials, or `None` when port or token is missing.
    pub fn into_auth(self) -> (r: Option<LcuAuth>)
        ensures
            match r {
                Some(a) => complete_auth(self@) == Some(a@),
                None => complete_auth(self@) is None,
            },
    {
        let port = match self.port {
            Some(p) => p,
            None => return None,
        };
        let password = match self.password {
            Some(p) => p,
            None => return None,
        };
        let protocol = match self.protocol {
            Some(p) => p,
            None => "https".to_owned(),
        };
        Some(LcuAuth { protocol, port, password })
    }
}

/// The credentials named on a command line by `--app-protocol`,
/// `--app-port` and `--remoting-auth-token`.
pub fn parse_partial_auth_from_command_line(cmd: &str) -> (r: PartialAuth)
    ensures
        r@ == partial_auth_of(cmd@),
{
    let c = chars_of(cmd);
    proof {
        reveal_strlit("--app-protocol");
        reveal_strlit("--app-port");
        reveal_strlit("--remoting-auth-token");
    }
    let protocol = match find_arg_value_chars(&c, &chars_of("--app-protocol")) {
        Some(v) => {
            let p = to_ascii_lowercase(&trim_matches_char(&v, '"'));
            if chars_equal(&p, &chars_of("http")) || chars_equal(&p, &chars_of("https")) {
                Some(string_from_chars(&p))
            } else {
                None
            }
        },
        None => None,
    };
    let port = match find_arg_value_chars(&c, &chars_of("--app-port")) {
        Some(v) => match parse_u16_chars(&trim_matches_char(&v, '"')) {
            Some(p) => if p != 0 {
                Some(p)
            } else {
                None
            },
            None => None,
        },
        None => None,
    };
    let password = match find_arg_value_chars(&c, &chars_of("--remoting-auth-token")) {
        Some(v) => {
            let t = trim_matches_char(&v, '"');
            if t.len() > 0 {
                Some(string_from_chars(&t))
            } else {
                None
            }
        },
        None => None,
    };
    PartialAuth { protocol, port, password }
}


/// A non-zero port written in decimal, as a URL shows it, is the port that
/// an `--app-port` value of that text names, also when the value is quoted.
pub proof fn law_app_port_roundtrip(p: u16)
    requires
        p != 0,
    ensures
        port_from(Some(decimal(p as nat))) == Some(p),
        port_from(Some(seq!['"'] + decimal(p as nat) + seq!['"'])) == Some(p),
{
    let d = decimal(p as nat);
    lemma_decimal_digits(p as nat);
    law_u16_decimal_roundtrip(p);
    assert(strip_leading(d, '"') == d);
    assert(strip_trailing(d, '"') == d);
    let q = seq!['"'] + d + seq!['"'];
    assert(q.drop_first() =~= d + seq!['"']);
    assert(strip_leading(d + seq!['"'], '"') == d + seq!['"']);
    assert((d + seq!['"']).drop_last() =~= d);
    assert(strip_trailing(d + seq!['"'], '"') == d);
}


/// Credentials spread over the command lines of two processes of one client
/// combine: a port from one and a token from the other make complete
/// credentials, with the protocol of the first line that named one.
pub proof fn law_merge_completes(a: PartialAuthView, b: PartialAuthView)
    requires
        a.port is Some || b.port is Some,
        a.password is Some || b.password is Some,
    ensures
        complete_auth(merge_partial(a, b)) is Some,
        a.port is Some ==> complete_auth(merge_partial(a, b))->0.port == a.port->0,
        a.protocol is Some ==> complete_auth(merge_partial(a, b))->0.protocol == a.protocol->0,
{
}

} // verus!

verus! {

proof fn lemma_scan_bare_to_end(cmd: Seq<char>, j: int)
    requires
        0 <= j <= cmd.len(),
        forall|i: int| j <= i < cmd.len() ==> !is_ascii_ws(#[trigger] cmd[i]) && !is_quote(cmd[i]),
    ensures
        scan_bare(cmd, j) == cmd.len(),
    decreases cmd.len() - j,
{
    if j < cmd.len() {
        lemma_scan_bare_to_end(cmd, j + 1);
    }
}

/// A bare value ends exactly at the first whitespace or quote: every
/// character it spans is neither, and it stops at the end of the line or
/// at a whitespace or quote character.
pub proof fn law_bare_value_extent(cmd: Seq<char>, j: int)
    requires
        0 <= j <= cmd.len(),
    ensures
        j <= scan_bare(cmd, j) <= cmd.len(),
        forall|i: int|
            j <= i < scan_bare(cmd, j) ==> !is_ascii_ws(#[trigger] cmd[i]) && !is_quote(cmd[i]),
        scan_bare(cmd, j) == cmd.len() || is_ascii_ws(cmd[scan_bare(cmd, j)]) || is_quote(
            cmd[scan_bare(cmd, j)],
        ),
    decreases cmd.len() - j,
{
    if j < cmd.len() && !is_ascii_ws(cmd[j]) && !is_quote(cmd[j]) {
        law_bare_value_extent(cmd, j + 1);
    }
}

/// `name=value` read back: for any non-empty name and any non-empty value
/// without whitespace or quotes (dashes, digits and letters of any case
/// included), the value of `name` in the line `name=value` is that value,
/// whole and unchanged.
pub proof fn law_named_value_roundtrip(name: Seq<char>, v: Seq<char>)
    requires
        name.len() > 0,
        v.len() > 0,
        forall|i: int| 0 <= i < v.len() ==> !is_ascii_ws(#[trigger] v[i]) && !is_quote(v[i]),
    ensures
        cmd_arg_value(name + "="@ + v, name) == Some(v),
{
    reveal_strlit("=");
    let cmd = name + "="@ + v;
    let n = name.len() as int;
    assert(cmd.subrange(0, n) =~= name);
    assert(occurs_at(cmd, name, 0));
    assert(find_from(cmd, name, 0) == Some(0int));
    assert(cmd[n] == '=');
    assert(value_start(cmd, n, 0) == n + 1);
    assert forall|i: int| n + 1 <= i < cmd.len() implies !is_ascii_ws(#[trigger] cmd[i]) && !is_quote(
        cmd[i],
    ) by {
        assert(cmd[i] == v[i - n - 1]);
    }
    assert(cmd[n + 1] == v[0]);
    lemma_scan_bare_to_end(cmd, n + 1);
    assert(cmd.subrange(n + 1, cmd.len() as int) =~= v);
    assert(value_at(cmd, n + 1) == (v, cmd.len() as int));
    assert(scan_arg(cmd, name, cmd.len() as int, Some(v)) == Some(v));
}

proof fn lemma_trim_plain(t: Seq<char>)
    requires
        forall|i: int| 0 <= i < t.len() ==> !is_quote(#[trigger] t[i]),
    ensures
        trim_char(t, '"') == t,
{
    if t.len() > 0 {
        assert(!is_quote(t[0]));
        assert(!is_quote(t[t.len() - 1]));
    }
}

/// The token is taken as written: for any non-empty token without
/// whitespace or quotes, the credentials read from
/// `--remoting-auth-token=token` carry exactly that token (letter case
/// and dashes kept).
pub proof fn law_token_kept(t: Seq<char>)
    requires
        t.len() > 0,
        forall|i: int| 0 <= i < t.len() ==> !is_ascii_ws(#[trigger] t[i]) && !is_quote(t[i]),
    ensures
        partial_auth_of("--remoting-auth-token="@ + t).password == Some(t),
{
    reveal_strlit("--remoting-auth-token=");
    reveal_strlit("--remoting-auth-token");
    reveal_strlit("=");
    let name = "--remoting-auth-token"@;
    assert("--remoting-auth-token="@ =~= name + "="@);
    law_named_value_roundtrip(name, t);
    assert(cmd_arg_value("--remoting-auth-token="@ + t, name) == Some(t));
    lemma_trim_plain(t);
}

/// Protocol and port read back from the line that writes them: a protocol
/// value is kept, lower-cased, exactly when it is `http` or `https` in any
/// letter case; the decimal text of any non-zero port gives that port.
pub proof fn law_protocol_and_port_read_back(v: Seq<char>, p: u16)
    requires
        v.len() > 0,
        forall|i: int| 0 <= i < v.len() ==> !is_ascii_ws(#[trigger] v[i]) && !is_quote(v[i]),
        p != 0,
    ensures
        partial_auth_of("--app-protocol="@ + v).protocol == (if ascii_lower_seq(v) == "http"@
            || ascii_lower_seq(v) == "https"@ {
            Some(ascii_lower_seq(v))
        } else {
            None
        }),
        partial_auth_of("--app-port="@ + decimal(p as nat)).port == Some(p),
{
    reveal_strlit("--app-protocol=");
    reveal_strlit("--app-protocol");
    reveal_strlit("--app-port=");
    reveal_strlit("--app-port");
    reveal_strlit("=");
    assert("--app-protocol="@ =~= "--app-protocol"@ + "="@);
    law_named_value_roundtrip("--app-protocol"@, v);
    lemma_trim_plain(v);
    let d = decimal(p as nat);
    lemma_decimal_digits(p as nat);
    assert forall|i: int| 0 <= i < d.len() implies !is_ascii_ws(#[trigger] d[i]) && !is_quote(d[i]) by {
        assert(is_digit(d[i]));
    }
    assert("--app-port="@ =~= "--app-port"@ + "="@);
    law_named_value_roundtrip("--app-port"@, d);
    law_app_port_roundtrip(p);
}

} // verus!

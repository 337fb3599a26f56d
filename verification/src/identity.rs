//! Peer credentials and the session identity derived from them.
//!
//! A session identity is the text `<uid>,<pid>`, both numbers in decimal. The
//! text determines the pair it was made from, so two peers share an identity
//! only if the kernel reports the same user and process for both.

use vstd::prelude::*;

verus! {

/// What the kernel reports about the process at the other end of a local
/// socket connection.
#[derive(Clone, Copy, Debug, PartialEq, Eq)]
pub struct PeerCredentials {
    /// User id of the peer process.
    pub uid: u32,
    /// Process id of the peer, where the platform reports one.
    pub pid: Option<i32>,
}

/// Connection-level facts the transport attaches to every inbound call.
#[derive(Clone, Copy, Debug, PartialEq, Eq)]
pub struct ConnectInfo {
    /// Credentials of the peer, absent when the transport could not read them.
    pub peer_cred: Option<PeerCredentials>,
}

/// The identity under which the backend runs a call.
#[derive(Clone, Debug, PartialEq, Eq)]
pub struct SessionKey {
    /// The session token.
    pub name: String,
}

impl View for SessionKey {
    type V = Seq<char>;

    open spec fn view(&self) -> Seq<char> {
        self.name@
    }
}

/// Why the proxy itself turns a call down.
#[derive(Clone, Copy, Debug, PartialEq, Eq, Structural)]
pub enum Rejection {
    /// The call did not arrive over a local socket connection.
    MissingConnectInfo,
    /// The transport could not read the peer's credentials.
    MissingCredentials,
    /// The credentials carry no process id.
    MissingPid,
    /// Every ticket of the backend handle has been handed out.
    TicketsExhausted,
}

impl Rejection {
    /// The reason in words.
    pub open spec fn text(self) -> Seq<char> {
        match self {
            Rejection::MissingConnectInfo => "call did not arrive over a local socket"@,
            Rejection::MissingCredentials => "peer credentials are not available"@,
            Rejection::MissingPid => "peer credentials carry no process id"@,
            Rejection::TicketsExhausted => "backend handle has no tickets left"@,
        }
    }

    /// The reason in words, for the error that the caller receives.
    pub fn message(&self) -> (message: &'static str)
        ensures
            message@ == self.text(),
    {
        match self {
            Rejection::MissingConnectInfo => "call did not arrive over a local socket",
            Rejection::MissingCredentials => "peer credentials are not available",
            Rejection::MissingPid => "peer credentials carry no process id",
            Rejection::TicketsExhausted => "backend handle has no tickets left",
        }
    }
}

/// The character that writes the digit `d`.
pub open spec fn digit_char(d: int) -> char {
    if d == 0 {
        '0'
    } else if d == 1 {
        '1'
    } else if d == 2 {
        '2'
    } else if d == 3 {
        '3'
    } else if d == 4 {
        '4'
    } else if d == 5 {
        '5'
    } else if d == 6 {
        '6'
    } else if d == 7 {
        '7'
    } else if d == 8 {
        '8'
    } else {
        '9'
    }
}

/// Decimal notation of `n`, without leading zeros.
pub open spec fn decimal(n: nat) -> Seq<char>
    decreases n,
{
    if n < 10 {
        seq![digit_char(n as int)]
    } else {
        decimal(n / 10).push(digit_char((n % 10) as int))
    }
}

/// Decimal notation of `i`, with a leading minus sign where `i` is negative.
pub open spec fn signed_decimal(i: int) -> Seq<char> {
    if i < 0 {
        seq!['-'] + decimal((-i) as nat)
    } else {
        decimal(i as nat)
    }
}

/// The session token of the peer with user id `uid` and process id `pid`.
pub open spec fn token(uid: u32, pid: i32) -> Seq<char> {
    decimal(uid as nat) + seq![','] + signed_decimal(pid as int)
}

/// The identity of a connection: its session token, or the reason it has none.
pub open spec fn identity_of(conn_info: ConnectInfo) -> Result<Seq<char>, Rejection> {
    match conn_info.peer_cred {
        None => Err(Rejection::MissingCredentials),
        Some(cred) => match cred.pid {
            None => Err(Rejection::MissingPid),
            Some(pid) => Ok(token(cred.uid, pid)),
        },
    }
}

fn digit_str(d: u64) -> (s: &'static str)
    requires
        d < 10,
    ensures
        s@ == seq![digit_char(d as int)],
{
    proof {
        reveal_strlit("0");
        reveal_strlit("1");
        reveal_strlit("2");
        reveal_strlit("3");
        reveal_strlit("4");
        reveal_strlit("5");
        reveal_strlit("6");
        reveal_strlit("7");
        reveal_strlit("8");
        reveal_strlit("9");
    }
    let s = if d == 0 {
        "0"
    } else if d == 1 {
        "1"
    } else if d == 2 {
        "2"
    } else if d == 3 {
        "3"
    } else if d == 4 {
        "4"
    } else if d == 5 {
        "5"
    } else if d == 6 {
        "6"
    } else if d == 7 {
        "7"
    } else if d == 8 {
        "8"
    } else {
        "9"
    };
    assert(s@ =~= seq![digit_char(d as int)]);
    s
}

fn render_decimal(n: u64) -> (s: String)
    ensures
        s@ == decimal(n as nat),
    decreases n,
{
    if n < 10 {
        String::from_str(digit_str(n))
    } else {
        let head = render_decimal(n / 10);
        let s = head.concat(digit_str(n % 10));
        assert(s@ =~= decimal(n as nat));
        s
    }
}

fn render_signed(i: i32) -> (s: String)
    ensures
        s@ == signed_decimal(i as int),
{
    if i < 0 {
        let magnitude: u64 = (-(i as i64)) as u64;
        let digits = render_decimal(magnitude);
        proof {
            reveal_strlit("-");
        }
        let s = String::from_str("-").concat(digits.as_str());
        assert(s@ =~= signed_decimal(i as int));
        s
    } else {
        render_decimal(i as u64)
    }
}

/// Derives the session identity of a connection from the credentials of its
/// peer. A connection without credentials, or whose credentials carry no
/// process id, has no identity and the call is turned down.
pub fn session_key(conn_info: &ConnectInfo) -> (key: Result<SessionKey, Rejection>)
    ensures
        match identity_of(*conn_info) {
            Ok(name) => key matches Ok(k) && k@ == name,
            Err(reason) => key == Err::<SessionKey, Rejection>(reason),
        },
{
    match conn_info.peer_cred {
        None => Err(Rejection::MissingCredentials),
        Some(cred) => match cred.pid {
            None => Err(Rejection::MissingPid),
            Some(pid) => {
                let uid_text = render_decimal(cred.uid as u64);
                proof {
                    reveal_strlit(",");
                }
                let with_comma = uid_text.concat(",");
                let pid_text = render_signed(pid);
                let name = with_comma.concat(pid_text.as_str());
                assert(name@ =~= token(cred.uid, pid));
                Ok(SessionKey { name })
            },
        },
    }
}

/// The digit that `c` writes, or -1 where `c` is no digit.
pub open spec fn digit_value(c: char) -> int {
    if c == '0' {
        0
    } else if c == '1' {
        1
    } else if c == '2' {
        2
    } else if c == '3' {
        3
    } else if c == '4' {
        4
    } else if c == '5' {
        5
    } else if c == '6' {
        6
    } else if c == '7' {
        7
    } else if c == '8' {
        8
    } else if c == '9' {
        9
    } else {
        -1
    }
}

/// The number that a run of digits denotes, read left to right.
pub open spec fn decimal_value(s: Seq<char>) -> int
    decreases s.len(),
{
    if s.len() == 0 {
        0
    } else {
        decimal_value(s.drop_last()) * 10 + digit_value(s.last())
    }
}

/// Decimal notation is never empty and consists of digits only.
pub proof fn lemma_decimal_is_digits(n: nat)
    ensures
        decimal(n).len() >= 1,
        forall|i: int| 0 <= i < decimal(n).len() ==> digit_value(#[trigger] decimal(n)[i]) >= 0,
    decreases n,
{
    if n >= 10 {
        lemma_decimal_is_digits(n / 10);
    }
}

/// Reading the decimal notation of a number gives the number back.
pub proof fn lemma_decimal_value(n: nat)
    ensures
        decimal_value(decimal(n)) == n,
    decreases n,
{
    let text = decimal(n);
    if n < 10 {
        assert(text.drop_last() =~= Seq::<char>::empty());
        assert(decimal_value(text.drop_last()) == 0);
        assert(digit_value(text.last()) == n);
    } else {
        lemma_decimal_value(n / 10);
        assert(text.drop_last() =~= decimal(n / 10));
        assert(digit_value(text.last()) == n % 10);
    }
}

/// Two numbers with the same decimal notation are the same number.
pub proof fn lemma_decimal_injective(a: nat, b: nat)
    requires
        decimal(a) == decimal(b),
    ensures
        a == b,
{
    lemma_decimal_value(a);
    lemma_decimal_value(b);
}

/// Two integers with the same signed decimal notation are the same integer.
pub proof fn lemma_signed_decimal_injective(a: int, b: int)
    requires
        signed_decimal(a) == signed_decimal(b),
    ensures
        a == b,
{
    let text = signed_decimal(a);
    if a < 0 {
        lemma_decimal_is_digits((-a) as nat);
        assert(text[0] == '-');
        if b < 0 {
            lemma_decimal_is_digits((-b) as nat);
            assert(decimal((-a) as nat) =~= text.subrange(1, text.len() as int));
            assert(decimal((-b) as nat) =~= text.subrange(1, text.len() as int));
            lemma_decimal_injective((-a) as nat, (-b) as nat);
        } else {
            lemma_decimal_is_digits(b as nat);
            assert(digit_value(decimal(b as nat)[0]) >= 0);
        }
    } else {
        lemma_decimal_is_digits(a as nat);
        assert(digit_value(decimal(a as nat)[0]) >= 0);
        if b < 0 {
            lemma_decimal_is_digits((-b) as nat);
            assert(signed_decimal(b)[0] == '-');
        } else {
            lemma_decimal_injective(a as nat, b as nat);
        }
    }
}

/// A session token determines the credentials it was derived from: peers
/// that differ in user id or in process id never share a token.
pub proof fn lemma_token_injective(uid_a: u32, pid_a: i32, uid_b: u32, pid_b: i32)
    requires
        token(uid_a, pid_a) == token(uid_b, pid_b),
    ensures
        uid_a == uid_b,
        pid_a == pid_b,
{
    let text = token(uid_a, pid_a);
    let user_a = decimal(uid_a as nat);
    let user_b = decimal(uid_b as nat);
    let process_a = signed_decimal(pid_a as int);
    let process_b = signed_decimal(pid_b as int);
    lemma_decimal_is_digits(uid_a as nat);
    lemma_decimal_is_digits(uid_b as nat);
    assert(text == user_a + seq![','] + process_a);
    assert(text == user_b + seq![','] + process_b);
    // The first comma of the token ends the user id, in both readings.
    if user_a.len() < user_b.len() {
        assert(text[user_a.len() as int] == ',');
        assert(text[user_a.len() as int] == user_b[user_a.len() as int]);
        assert(false);
    }
    if user_b.len() < user_a.len() {
        assert(text[user_b.len() as int] == ',');
        assert(text[user_b.len() as int] == user_a[user_b.len() as int]);
        assert(false);
    }
    let comma = user_a.len() as int;
    assert(user_a =~= text.subrange(0, comma));
    assert(user_b =~= text.subrange(0, comma));
    lemma_decimal_injective(uid_a as nat, uid_b as nat);
    assert(process_a =~= text.subrange(comma + 1, text.len() as int));
    assert(process_b =~= text.subrange(comma + 1, text.len() as int));
    lemma_signed_decimal_injective(pid_a as int, pid_b as int);
}


} // verus!

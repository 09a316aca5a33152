//! Signed tokens that carry a pairing proposal or a session.
//!
//! A token is the payload in a canonical text, a slash, and the payload's
//! authentication code under the service's secret:
//! `ask/<id>/<code>` for a proposal and `ses/<id>/<person>/<code>` for a
//! session. It is accepted only if it is, byte for byte, a token that
//! [`issue`] makes.

use crate::decimal::{decimal, lemma_parsed_decimal, parse_decimal, parsed, push_decimal};
use crate::env::Env;
use crate::queries::Person;
use crate::routes::StatusCode;
use vstd::prelude::*;
use vstd::string::StrSliceExecFns;

verus! {

/// The byte `/`.
pub const SLASH: u8 = 47;

/// The secret that tokens are signed with.
#[derive(Clone)]
pub struct Key {
    secret: Vec<u8>,
}

impl View for Key {
    type V = Seq<u8>;

    closed spec fn view(&self) -> Seq<u8> {
        self.secret@
    }
}

/// A pairing proposal that waits for the other person: its id.
#[derive(Debug, Clone, Copy, PartialEq, Eq, Structural)]
pub struct SessionAsk(pub i32);

/// An established session: the proposal it came from and who holds it.
#[derive(Debug, Clone, Copy, PartialEq, Eq, Structural)]
pub struct Session {
    pub who: Person,
    pub id: i32,
}

/// What a token carries.
#[derive(Debug, Clone, Copy, PartialEq, Eq, Structural)]
pub enum Token {
    Pending(SessionAsk),
    Session(Session),
}

/// A token was missing, malformed or not signed with the secret. Which of
/// these is not told.
#[derive(Debug, Clone, Copy, PartialEq, Eq, Structural)]
pub struct InvalidToken;

/// The HMAC-SHA256 code of `message` under `key`.
pub uninterp spec fn hmac_sha256(key: Seq<u8>, message: Seq<u8>) -> [u8; 32];

/// The base64 text, standard alphabet with padding, of a code of 32 bytes.
pub uninterp spec fn base64_standard(code: [u8; 32]) -> [u8; 44];

/// Computes HMAC-SHA256 with `hmac::Mac` on `Hmac<Sha256>`: `new_from_slice`,
/// `update`, `finalize`. Trusted: the code is a function of key and message
/// alone, named `hmac_sha256`. A key of any length is taken.
#[verifier::external_body]
fn mac(key: &[u8], message: &[u8]) -> (code: [u8; 32])
    ensures
        code == hmac_sha256(key@, message@),
{
    let mut state = <hmac::Hmac<sha2::Sha256> as hmac::Mac>::new_from_slice(key)
        .expect("HMAC takes a key of any length");
    hmac::Mac::update(&mut state, message);
    hmac::Mac::finalize(state).into_bytes().into()
}

/// Calls `Engine::encode_slice` of `base64` on its `STANDARD` engine.
/// Trusted: the text is a function of the code alone, named
/// `base64_standard`, and fills the 44 bytes that 32 bytes encode to.
#[verifier::external_body]
fn encode(code: &[u8; 32]) -> (text: [u8; 44])
    ensures
        text == base64_standard(*code),
{
    let mut text = [0u8; 44];
    let engine = base64::engine::general_purpose::STANDARD;
    let _ = base64::Engine::encode_slice(&engine, code, &mut text);
    text
}

/// How a person is written in a token.
pub open spec fn person_code(who: Person) -> Seq<u8> {
    match who {
        Person::Ale => seq![97u8, 108u8, 101u8],
        Person::Lu => seq![108u8, 117u8],
    }
}

/// The canonical text of a payload: `ask/<id>` or `ses/<id>/<person>`.
pub open spec fn canonical(token: Token) -> Seq<u8> {
    match token {
        Token::Pending(ask) => seq![97u8, 115u8, 107u8, 47u8] + decimal(ask.0 as int),
        Token::Session(session) => seq![115u8, 101u8, 115u8, 47u8] + decimal(session.id as int)
            + seq![47u8] + person_code(session.who),
    }
}

/// The authentication code of `message` under `secret`, as it stands in a token.
pub open spec fn code_of(secret: Seq<u8>, message: Seq<u8>) -> Seq<u8> {
    base64_standard(hmac_sha256(secret, message))@
}

/// The token for `token` under `secret`.
pub open spec fn issued(secret: Seq<u8>, token: Token) -> Seq<u8> {
    canonical(token) + seq![47u8] + code_of(secret, canonical(token))
}

/// What `wire` carries, if it is a token issued under `secret`.
pub open spec fn verified(secret: Seq<u8>, wire: Seq<u8>) -> Option<Token> {
    if exists|token: Token| wire == #[trigger] issued(secret, token) {
        Some(choose|token: Token| wire == #[trigger] issued(secret, token))
    } else {
        None
    }
}

/// The person written at `at`, if one is.
pub open spec fn person_at(wire: Seq<u8>, at: int) -> Option<Person> {
    if at + 3 <= wire.len() && wire[at] == 97 && wire[at + 1] == 108 && wire[at + 2] == 101 {
        Some(Person::Ale)
    } else if at + 2 <= wire.len() && wire[at] == 108 && wire[at + 1] == 117 {
        Some(Person::Lu)
    } else {
        None
    }
}

/// The payload that `wire` seems to carry, read from its start with no regard
/// to the code: the only payload whose token `wire` can be.
pub open spec fn read(wire: Seq<u8>) -> Option<Token> {
    if wire.len() < 4 || wire[3] != 47 {
        None
    } else if wire[0] == 97 && wire[1] == 115 && wire[2] == 107 {
        match parsed(wire, 4) {
            Some((id, end)) => Some(Token::Pending(SessionAsk(id as i32))),
            None => None,
        }
    } else if wire[0] == 115 && wire[1] == 101 && wire[2] == 115 {
        match parsed(wire, 4) {
            Some((id, end)) => if end < wire.len() && wire[end] == 47 {
                match person_at(wire, end + 1) {
                    Some(who) => Some(Token::Session(Session { who, id: id as i32 })),
                    None => None,
                }
            } else {
                None
            },
            None => None,
        }
    } else {
        None
    }
}

/// Whatever follows the canonical text of a payload and a slash, the payload
/// is read back from the start.
pub proof fn lemma_read_canonical(token: Token, rest: Seq<u8>)
    ensures
        read(canonical(token) + seq![47u8] + rest) == Some(token),
{
    let wire = canonical(token) + seq![47u8] + rest;
    match token {
        Token::Pending(ask) => {
            let pre = seq![97u8, 115u8, 107u8, 47u8];
            let tail = seq![47u8] + rest;
            lemma_parsed_decimal(pre, ask.0 as int, tail);
            assert(wire =~= pre + decimal(ask.0 as int) + tail);
            assert(wire[0] == pre[0] && wire[1] == pre[1] && wire[2] == pre[2] && wire[3]
                == pre[3]);
        },
        Token::Session(session) => {
            let pre = seq![115u8, 101u8, 115u8, 47u8];
            let tail = seq![47u8] + person_code(session.who) + seq![47u8] + rest;
            lemma_parsed_decimal(pre, session.id as int, tail);
            assert(wire =~= pre + decimal(session.id as int) + tail);
            assert(wire[0] == pre[0] && wire[1] == pre[1] && wire[2] == pre[2] && wire[3]
                == pre[3]);
            let end: int = 4 + decimal(session.id as int).len() as int;
            assert(wire[end] == tail[0]);
            assert(forall|k: int|
                0 <= k < person_code(session.who).len() ==> wire[end + 1 + k] == person_code(
                    session.who,
                )[k]);
            assert(wire[end + 1] == person_code(session.who)[0]);
            assert(wire[end + 2] == person_code(session.who)[1]);
            if session.who == Person::Ale {
                assert(wire[end + 3] == person_code(session.who)[2]);
            }
        },
    }
}

/// Two payloads with one token are one payload.
pub proof fn lemma_issued_injective(secret: Seq<u8>, a: Token, b: Token)
    requires
        issued(secret, a) == issued(secret, b),
    ensures
        a == b,
{
    lemma_read_canonical(a, code_of(secret, canonical(a)));
    lemma_read_canonical(b, code_of(secret, canonical(b)));
}

/// A token verified right after it was issued gives back the payload it was
/// issued with, for a proposal and for a session alike.
pub proof fn law_round_trip(secret: Seq<u8>, token: Token)
    ensures
        verified(secret, issued(secret, token)) == Some(token),
{
    let wire = issued(secret, token);
    let found = choose|t: Token| wire == #[trigger] issued(secret, t);
    lemma_issued_injective(secret, found, token);
}

/// A token with one byte of its code changed is rejected.
pub proof fn law_changed_code_is_rejected(secret: Seq<u8>, token: Token, at: int, byte: u8)
    requires
        canonical(token).len() < at < issued(secret, token).len(),
        byte != issued(secret, token)[at],
    ensures
        verified(secret, issued(secret, token).update(at, byte)) is None,
{
    let wire = issued(secret, token);
    let changed = wire.update(at, byte);
    if verified(secret, changed) is Some {
        let other = choose|t: Token| changed == #[trigger] issued(secret, t);
        let code = code_of(secret, canonical(token));
        let rest = code.update(at - canonical(token).len() - 1, byte);
        assert(changed =~= canonical(token) + seq![47u8] + rest);
        lemma_read_canonical(token, rest);
        lemma_read_canonical(other, code_of(secret, canonical(other)));
        assert(other == token);
        assert(changed[at] == wire[at]);
    }
}

/// A token with one byte of its payload changed, or the slash before its
/// code, is rejected, unless the changed payload has the very code that the
/// payload had before.
pub proof fn law_changed_payload_is_rejected(secret: Seq<u8>, token: Token, at: int, byte: u8)
    requires
        0 <= at <= canonical(token).len(),
        byte != issued(secret, token)[at],
    ensures
        verified(secret, issued(secret, token).update(at, byte)) is None || (at < canonical(
            token,
        ).len() && code_of(secret, canonical(token).update(at, byte)) == code_of(
            secret,
            canonical(token),
        )),
{
    let wire = issued(secret, token);
    let changed = wire.update(at, byte);
    let text = canonical(token);
    if verified(secret, changed) is Some {
        let other = choose|t: Token| changed == #[trigger] issued(secret, t);
        let other_text = canonical(other);
        assert(code_of(secret, text).len() == 44);
        assert(code_of(secret, other_text).len() == 44);
        assert(changed.len() == wire.len());
        assert(other_text.len() == text.len());
        if at == text.len() {
            assert(changed[at] == byte);
            assert(issued(secret, other)[at] == 47);
            assert(wire[at] == 47);
        } else {
            assert(other_text =~= text.update(at, byte)) by {
                assert forall|k: int| 0 <= k < text.len() implies other_text[k] == text.update(
                    at,
                    byte,
                )[k] by {
                    assert(other_text[k] == issued(secret, other)[k]);
                    assert(changed[k] == text.update(at, byte)[k]);
                }
            }
            assert(code_of(secret, other_text) =~= code_of(secret, text)) by {
                assert forall|k: int| 0 <= k < 44 implies code_of(secret, other_text)[k]
                    == code_of(secret, text)[k] by {
                    assert(issued(secret, other)[text.len() + 1 + k] == code_of(
                        secret,
                        other_text,
                    )[k]);
                    assert(wire[text.len() + 1 + k] == code_of(secret, text)[k]);
                }
            }
        }
    }
}

/// Which of the two tokens a cookie carries.
#[derive(Debug, Clone, Copy, PartialEq, Eq, Structural)]
pub enum Kind {
    /// The token of a pairing proposal; its cookie is named `ask`.
    Pending,
    /// The token of a session; its cookie is named `ses`.
    Session,
}

/// Twelve weeks, in seconds: how long a session lasts.
pub const SESSION_SECONDS: u32 = 7257600;

/// A cookie that carries a token: what the transport sets, as plain values.
/// Every such cookie is for the path `/`.
#[derive(Debug, Clone, PartialEq, Eq)]
pub struct Cookie {
    pub kind: Kind,
    pub value: Vec<u8>,
    /// Seconds after which the browser drops the cookie; `None`: when it closes.
    pub max_age: Option<u32>,
    pub same_site_strict: bool,
    pub http_only: bool,
    pub secure: bool,
}

impl Cookie {
    /// Whether this is the cookie that hands the proposal `ask` to the one who
    /// made it: it lasts until the browser closes.
    pub open spec fn hands_ask(self, secret: Seq<u8>, ask: SessionAsk) -> bool {
        &&& self.kind == Kind::Pending
        &&& self.value@ == issued(secret, Token::Pending(ask))
        &&& self.max_age == None::<u32>
        &&& self.same_site_strict
        &&& self.http_only
        &&& !self.secure
    }

    /// Whether this is the cookie that hands `session` to its holder: it lasts
    /// twelve weeks and is sent over secure connections only.
    pub open spec fn hands_session(self, secret: Seq<u8>, session: Session) -> bool {
        &&& self.kind == Kind::Session
        &&& self.value@ == issued(secret, Token::Session(session))
        &&& self.max_age == Some(SESSION_SECONDS)
        &&& self.same_site_strict
        &&& self.http_only
        &&& self.secure
    }

    /// The cookie that hands a pairing proposal to the one who made it.
    pub fn from_ask(key: &Key, ask: SessionAsk) -> (cookie: Cookie)
        ensures
            cookie.hands_ask(key@, ask),
    {
        Cookie {
            kind: Kind::Pending,
            value: issue(key, &Token::Pending(ask)),
            max_age: None,
            same_site_strict: true,
            http_only: true,
            secure: false,
        }
    }

    /// The cookie that hands a session to its holder, for twelve weeks.
    pub fn from_session(key: &Key, session: Session) -> (cookie: Cookie)
        ensures
            cookie.hands_session(key@, session),
    {
        Cookie {
            kind: Kind::Session,
            value: issue(key, &Token::Session(session)),
            max_age: Some(SESSION_SECONDS),
            same_site_strict: true,
            http_only: true,
            secure: true,
        }
    }
}

impl SessionAsk {
    /// The proposal that a request carries: its token has to verify and to be
    /// that of a proposal. Every other request is turned away the same way.
    pub fn from_request(key: &Key, credential: Option<&[u8]>) -> (r: Result<SessionAsk, StatusCode>)
        ensures
            r == match credential {
                Some(wire) => match verified(key@, wire@) {
                    Some(Token::Pending(ask)) => Ok::<SessionAsk, StatusCode>(ask),
                    _ => Err::<SessionAsk, StatusCode>(StatusCode::Unauthorized),
                },
                None => Err::<SessionAsk, StatusCode>(StatusCode::Unauthorized),
            },
    {
        match credential {
            Some(wire) => match verify(key, wire) {
                Ok(Token::Pending(ask)) => Ok(ask),
                _ => Err(StatusCode::Unauthorized),
            },
            None => Err(StatusCode::Unauthorized),
        }
    }
}

impl Session {
    /// The session that a request carries: its token has to verify and to be
    /// that of a session. Every other request is turned away the same way.
    pub fn from_request(key: &Key, credential: Option<&[u8]>) -> (r: Result<Session, StatusCode>)
        ensures
            r == match credential {
                Some(wire) => match verified(key@, wire@) {
                    Some(Token::Session(session)) => Ok::<Session, StatusCode>(session),
                    _ => Err::<Session, StatusCode>(StatusCode::Unauthorized),
                },
                None => Err::<Session, StatusCode>(StatusCode::Unauthorized),
            },
    {
        match credential {
            Some(wire) => match verify(key, wire) {
                Ok(Token::Session(session)) => Ok(session),
                _ => Err(StatusCode::Unauthorized),
            },
            None => Err(StatusCode::Unauthorized),
        }
    }
}

/// The key made of the secret in the settings.
pub fn key(env: &Env) -> (k: Key)
    ensures
        k@ == vstd::utf8::encode_utf8(env.secret@),
{
    Key { secret: env.secret.as_str().as_bytes_vec() }
}

impl Key {
    /// The key made of these bytes.
    pub fn from_bytes(secret: Vec<u8>) -> (k: Key)
        ensures
            k@ == secret@,
    {
        Key { secret }
    }
}

/// Writes the canonical text of a payload.
pub fn canonical_text(token: &Token) -> (text: Vec<u8>)
    ensures
        text@ == canonical(*token),
{
    let mut text: Vec<u8> = Vec::new();
    match token {
        Token::Pending(ask) => {
            text.push(97);
            text.push(115);
            text.push(107);
            text.push(SLASH);
            assert(text@ =~= seq![97u8, 115u8, 107u8, 47u8]);
            push_decimal(&mut text, ask.0);
        },
        Token::Session(session) => {
            text.push(115);
            text.push(101);
            text.push(115);
            text.push(SLASH);
            assert(text@ =~= seq![115u8, 101u8, 115u8, 47u8]);
            push_decimal(&mut text, session.id);
            text.push(SLASH);
            match session.who {
                Person::Ale => {
                    text.push(97);
                    text.push(108);
                    text.push(101);
                },
                Person::Lu => {
                    text.push(108);
                    text.push(117);
                },
            }
            assert(text@ =~= canonical(*token));
        },
    }
    text
}

/// Puts a token together: the text, a slash, the code.
pub fn seal(text: Vec<u8>, code: &[u8; 44]) -> (wire: Vec<u8>)
    ensures
        wire@ == text@ + seq![47u8] + code@,
{
    let mut wire = text;
    wire.push(SLASH);
    let mut i: usize = 0;
    while i < 44
        invariant
            i <= 44,
            code@.len() == 44,
            wire@ == text@ + seq![47u8] + code@.subrange(0, i as int),
        decreases 44 - i,
    {
        wire.push(code[i]);
        assert(wire@ =~= text@ + seq![47u8] + code@.subrange(0, i + 1));
        i = i + 1;
    }
    assert(code@.subrange(0, 44) =~= code@);
    wire
}

/// Issues the token for a payload.
pub fn issue(key: &Key, token: &Token) -> (wire: Vec<u8>)
    ensures
        wire@ == issued(key@, *token),
        verified(key@, wire@) == Some(*token),
{
    let text = canonical_text(token);
    let code = encode(&mac(key.secret.as_slice(), text.as_slice()));
    proof {
        law_round_trip(key@, *token);
    }
    seal(text, &code)
}

/// The person written at `at`, if one is.
fn read_person(wire: &[u8], at: usize) -> (r: Option<Person>)
    ensures
        r == person_at(wire@, at as int),
{
    let n: usize = wire.len();
    if at <= n && n - at >= 3 && wire[at] == 97 && wire[at + 1] == 108 && wire[at + 2] == 101 {
        Some(Person::Ale)
    } else if at <= n && n - at >= 2 && wire[at] == 108 && wire[at + 1] == 117 {
        Some(Person::Lu)
    } else {
        None
    }
}

/// Reads the payload at the start of `wire`, with no regard to the code.
pub fn read_payload(wire: &[u8]) -> (r: Option<Token>)
    ensures
        r == read(wire@),
{
    if wire.len() < 4 || wire[3] != SLASH {
        return None;
    }
    if wire[0] == 97 && wire[1] == 115 && wire[2] == 107 {
        match parse_decimal(wire, 4) {
            Some((id, end)) => Some(Token::Pending(SessionAsk(id))),
            None => None,
        }
    } else if wire[0] == 115 && wire[1] == 101 && wire[2] == 115 {
        match parse_decimal(wire, 4) {
            Some((id, end)) => {
                if end < wire.len() && wire[end] == SLASH {
                    match read_person(wire, end + 1) {
                        Some(who) => Some(Token::Session(Session { who, id })),
                        None => None,
                    }
                } else {
                    None
                }
            },
            None => None,
        }
    } else {
        None
    }
}

/// Whether `wire` starts with `text`.
fn starts_with(wire: &[u8], text: &Vec<u8>) -> (r: bool)
    ensures
        r == (text@.len() <= wire@.len() && wire@.subrange(0, text@.len() as int) == text@),
{
    if wire.len() < text.len() {
        return false;
    }
    let mut i: usize = 0;
    while i < text.len()
        invariant
            i <= text.len() <= wire.len(),
            wire@.subrange(0, i as int) == text@.subrange(0, i as int),
        decreases text.len() - i,
    {
        if wire[i] != text[i] {
            assert(wire@.subrange(0, text@.len() as int)[i as int] != text@[i as int]);
            return false;
        }
        assert(wire@.subrange(0, i + 1) =~= wire@.subrange(0, i as int).push(wire@[i as int]));
        assert(text@.subrange(0, i + 1) =~= text@.subrange(0, i as int).push(text@[i as int]));
        i = i + 1;
    }
    assert(text@.subrange(0, i as int) =~= text@);
    true
}

/// Whether the 44 bytes of `wire` from `from` on are `code`. Every byte is
/// looked at, whether or not an earlier one differed.
fn same_code(wire: &[u8], from: usize, code: &[u8; 44]) -> (r: bool)
    requires
        from + 44 == wire.len(),
    ensures
        r == (wire@.subrange(from as int, from + 44) == code@),
{
    let mut differ: u8 = 0;
    let mut i: usize = 0;
    assert(wire@.subrange(from as int, from + 0) =~= code@.subrange(0, 0));
    while i < 44
        invariant
            i <= 44,
            from + 44 == wire.len(),
            code@.len() == 44,
            differ == 0 <==> wire@.subrange(from as int, from + i) == code@.subrange(0, i as int),
        decreases 44 - i,
    {
        let a: u8 = wire[from + i];
        let b: u8 = code[i];
        let ghost before = differ;
        differ = differ | (a ^ b);
        assert(differ == 0 <==> (before == 0 && a == b)) by (bit_vector)
            requires
                differ == before | (a ^ b),
        ;
        proof {
            let left = wire@.subrange(from as int, from + i);
            let right = code@.subrange(0, i as int);
            let left_next = wire@.subrange(from as int, from + i + 1);
            let right_next = code@.subrange(0, i + 1);
            assert(left_next =~= left.push(a));
            assert(right_next =~= right.push(b));
            if left_next == right_next {
                assert(left_next.drop_last() =~= left);
                assert(right_next.drop_last() =~= right);
                assert(left_next.last() == right_next.last());
            }
        }
        i = i + 1;
    }
    assert(code@.subrange(0, 44) =~= code@);
    differ == 0
}

/// Whether `wire` is the text, a slash, and the code. The code is compared
/// in full whatever the outcome.
pub fn carries(wire: &[u8], text: &Vec<u8>, code: &[u8; 44]) -> (r: bool)
    ensures
        r == (wire@ == text@ + seq![47u8] + code@),
{
    if text.len() > wire.len() || wire.len() - text.len() != 45 {
        return false;
    }
    let begins: bool = starts_with(wire, text);
    let slash: bool = wire[text.len()] == SLASH;
    let signed: bool = same_code(wire, text.len() + 1, code);
    proof {
        let whole = text@ + seq![47u8] + code@;
        if begins && slash && signed {
            assert(wire@ =~= whole);
        }
        if wire@ == whole {
            assert(whole.subrange(0, text@.len() as int) =~= text@);
            assert(whole[text@.len() as int] == 47);
            assert(whole.subrange(text@.len() as int + 1, text@.len() as int + 45) =~= code@);
        }
    }
    begins && slash && signed
}

/// Verifies a token: what it carries if it was issued under `key`, and
/// [`InvalidToken`] in every other case.
pub fn verify(key: &Key, wire: &[u8]) -> (r: Result<Token, InvalidToken>)
    ensures
        r == match verified(key@, wire@) {
            Some(token) => Ok::<Token, InvalidToken>(token),
            None => Err::<Token, InvalidToken>(InvalidToken),
        },
{
    proof {
        if verified(key@, wire@) is Some {
            let held = verified(key@, wire@).unwrap();
            lemma_read_canonical(held, code_of(key@, canonical(held)));
        }
    }
    let token = match read_payload(wire) {
        Some(token) => token,
        None => {
            return Err(InvalidToken);
        },
    };
    let text = canonical_text(&token);
    let code = encode(&mac(key.secret.as_slice(), text.as_slice()));
    if carries(wire, &text, &code) {
        proof {
            law_round_trip(key@, token);
        }
        Ok(token)
    } else {
        Err(InvalidToken)
    }
}

} // verus!

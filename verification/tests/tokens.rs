use pair_ledger::auth::{
    issue, verify, Cookie, InvalidToken, Key, Kind, Session, SessionAsk, Token, SESSION_SECONDS,
};
use pair_ledger::queries::Person;
use pair_ledger::routes::StatusCode;

fn key() -> Key {
    Key::from_bytes(b"an example of a secret that is long enough to sign with".to_vec())
}

#[test]
fn pending_token_round_trip() {
    let token = Token::Pending(SessionAsk(42));
    let wire = issue(&key(), &token);
    assert_eq!(verify(&key(), &wire), Ok(token));
}

#[test]
fn session_token_round_trip() {
    for who in [Person::Ale, Person::Lu] {
        for id in [0, 1, -1, 7, 10, 99, 100, 12345, i32::MAX, i32::MIN] {
            let token = Token::Session(Session { who, id });
            let wire = issue(&key(), &token);
            assert_eq!(verify(&key(), &wire), Ok(token));
        }
    }
}

#[test]
fn token_is_payload_slash_code() {
    let wire = issue(&key(), &Token::Pending(SessionAsk(42)));
    assert_eq!(wire, b"ask/42/C3yv9JcFNpQjqvtBpOEvwkFPKLyVLFs3L60kqULL+Ho=".to_vec());
    let wire = issue(&key(), &Token::Session(Session { who: Person::Lu, id: -3 }));
    assert_eq!(wire, b"ses/-3/lu/3zF0gHgj8Q93K4eCSa8DwntIEaDAl34NewD0c/i3XGo=".to_vec());
    let wire = issue(&key(), &Token::Session(Session { who: Person::Ale, id: 8 }));
    assert_eq!(wire, b"ses/8/ale/HB+dVVY+MsQDwbDd8Yk6wH5WSjnICpv8jxeYPnD89t0=".to_vec());
}

#[test]
fn extreme_ids_are_written_in_full() {
    let wire = issue(&key(), &Token::Pending(SessionAsk(i32::MAX)));
    assert_eq!(wire, b"ask/2147483647/alVPOU+s7ewROELinalXGbA3/6elSGzUzPwoQmpUj1U=".to_vec());
    let wire = issue(&key(), &Token::Pending(SessionAsk(i32::MIN)));
    assert_eq!(wire, b"ask/-2147483648/WImY4At6UTfG5zBf1BbEdMhjNbG4fwm5tQySbnbPPM4=".to_vec());
}

#[test]
fn a_token_from_elsewhere_verifies() {
    let wire = b"ses/-3/lu/3zF0gHgj8Q93K4eCSa8DwntIEaDAl34NewD0c/i3XGo=";
    assert_eq!(
        verify(&key(), wire),
        Ok(Token::Session(Session { who: Person::Lu, id: -3 }))
    );
}

#[test]
fn any_changed_byte_is_rejected() {
    for token in [
        Token::Session(Session { who: Person::Ale, id: 315 }),
        Token::Session(Session { who: Person::Lu, id: -9 }),
        Token::Pending(SessionAsk(120)),
    ] {
        let wire = issue(&key(), &token);
        for at in 0..wire.len() {
            for flip in [1u8, 2, 4, 16, 32, 128, 255] {
                let mut changed = wire.clone();
                changed[at] ^= flip;
                assert_eq!(verify(&key(), &changed), Err(InvalidToken));
            }
        }
    }
}

#[test]
fn another_key_rejects() {
    let wire = issue(&key(), &Token::Pending(SessionAsk(42)));
    let other = Key::from_bytes(b"some other secret".to_vec());
    assert_eq!(verify(&other, &wire), Err(InvalidToken));
    assert_eq!(verify(&Key::from_bytes(Vec::new()), &wire), Err(InvalidToken));
}

#[test]
fn the_code_of_one_payload_does_not_sign_another() {
    let wire = issue(&key(), &Token::Pending(SessionAsk(42)));
    let code = &wire[b"ask/42/".len()..];
    let mut forged = b"ask/43/".to_vec();
    forged.extend_from_slice(code);
    assert_eq!(verify(&key(), &forged), Err(InvalidToken));
    let mut forged = b"ses/42/ale/".to_vec();
    forged.extend_from_slice(code);
    assert_eq!(verify(&key(), &forged), Err(InvalidToken));
}

#[test]
fn malformed_tokens_are_rejected() {
    let cases: [&[u8]; 14] = [
        b"",
        b"a",
        b"ask",
        b"ask/",
        b"ask/42",
        b"ask/42/",
        b"ask//C3yv9JcFNpQjqvtBpOEvwkFPKLyVLFs3L60kqULL+Ho=",
        b"ask/x/C3yv9JcFNpQjqvtBpOEvwkFPKLyVLFs3L60kqULL+Ho=",
        b"ASK/42/C3yv9JcFNpQjqvtBpOEvwkFPKLyVLFs3L60kqULL+Ho=",
        b"foo/42/C3yv9JcFNpQjqvtBpOEvwkFPKLyVLFs3L60kqULL+Ho=",
        b"ask/42/C3yv9JcFNpQjqvtBpOEvwkFPKLyVLFs3L60kqULL+Ho",
        b"ask/42/C3yv9JcFNpQjqvtBpOEvwkFPKLyVLFs3L60kqULL+Ho==",
        b"ask/99999999999/C3yv9JcFNpQjqvtBpOEvwkFPKLyVLFs3L60kqULL+Ho=",
        b"ses/42/C3yv9JcFNpQjqvtBpOEvwkFPKLyVLFs3L60kqULL+Ho=",
    ];
    for wire in cases {
        assert_eq!(verify(&key(), wire), Err(InvalidToken));
    }
}

#[test]
fn only_the_canonical_text_is_accepted() {
    let good = issue(&key(), &Token::Pending(SessionAsk(42)));
    let code = good[b"ask/42/".len()..].to_vec();
    for payload in [&b"ask/042/"[..], b"ask/+42/", b"ask/42 /", b"ask/-0/", b" ask/42/"] {
        let mut wire = payload.to_vec();
        wire.extend_from_slice(&code);
        assert_eq!(verify(&key(), &wire), Err(InvalidToken));
    }
}

#[test]
fn a_request_without_a_valid_token_is_unauthorized() {
    let k = key();
    assert_eq!(SessionAsk::from_request(&k, None), Err(StatusCode::Unauthorized));
    assert_eq!(Session::from_request(&k, None), Err(StatusCode::Unauthorized));
    assert_eq!(
        SessionAsk::from_request(&k, Some(b"ask/42/garbage")),
        Err(StatusCode::Unauthorized)
    );
    assert_eq!(Session::from_request(&k, Some(b"")), Err(StatusCode::Unauthorized));
}

#[test]
fn a_token_of_the_other_kind_is_unauthorized() {
    let k = key();
    let pending = issue(&k, &Token::Pending(SessionAsk(5)));
    let session = issue(&k, &Token::Session(Session { who: Person::Ale, id: 5 }));
    assert_eq!(SessionAsk::from_request(&k, Some(&pending)), Ok(SessionAsk(5)));
    assert_eq!(
        Session::from_request(&k, Some(&session)),
        Ok(Session { who: Person::Ale, id: 5 })
    );
    assert_eq!(SessionAsk::from_request(&k, Some(&session)), Err(StatusCode::Unauthorized));
    assert_eq!(Session::from_request(&k, Some(&pending)), Err(StatusCode::Unauthorized));
}

#[test]
fn cookies_carry_the_token() {
    let k = key();
    let cookie = Cookie::from_ask(&k, SessionAsk(9));
    assert_eq!(cookie.kind, Kind::Pending);
    assert_eq!(cookie.value, issue(&k, &Token::Pending(SessionAsk(9))));
    assert_eq!(cookie.max_age, None);
    assert!(cookie.same_site_strict && cookie.http_only && !cookie.secure);

    let session = Session { who: Person::Lu, id: 9 };
    let cookie = Cookie::from_session(&k, session);
    assert_eq!(cookie.kind, Kind::Session);
    assert_eq!(cookie.value, issue(&k, &Token::Session(session)));
    assert_eq!(cookie.max_age, Some(12 * 7 * 24 * 60 * 60));
    assert_eq!(SESSION_SECONDS, 7_257_600);
    assert!(cookie.same_site_strict && cookie.http_only && cookie.secure);
}

#[test]
fn status_codes_have_their_numbers() {
    assert_eq!(StatusCode::Success.as_u16(), 200);
    assert_eq!(StatusCode::BadRequest.as_u16(), 400);
    assert_eq!(StatusCode::Unauthorized.as_u16(), 401);
    assert_eq!(StatusCode::InternalServerError.as_u16(), 500);
}

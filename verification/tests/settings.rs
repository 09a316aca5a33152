use pair_ledger::auth::{issue, key, SessionAsk, Token};
use pair_ledger::env::{from_map, init, parse, read, Env, EnvError};
use pair_ledger::queries::{Label, Person, Split};

fn entries(pairs: &[(&str, &str)]) -> Vec<(String, String)> {
    pairs.iter().map(|(k, v)| (k.to_string(), v.to_string())).collect()
}

#[test]
fn lines_are_split_at_the_first_equals_sign() {
    assert_eq!(parse("A=1\nB=2"), entries(&[("A", "1"), ("B", "2")]));
    assert_eq!(parse("A=1\nB=2\n"), entries(&[("A", "1"), ("B", "2")]));
    assert_eq!(parse("URL=postgres://u:p@h/db?x=1"), entries(&[("URL", "postgres://u:p@h/db?x=1")]));
    assert_eq!(parse("A="), entries(&[("A", "")]));
    assert_eq!(parse("=1"), entries(&[("", "1")]));
    assert_eq!(parse("="), entries(&[("", "")]));
    assert_eq!(parse("A = 1 "), entries(&[("A ", " 1 ")]));
    assert_eq!(parse("A=1\r\nB=2"), entries(&[("A", "1\r"), ("B", "2")]));
    assert_eq!(parse("K\u{e9}=\u{fc}ber\n\u{4e16}=\u{754c}"), entries(&[("K\u{e9}", "\u{fc}ber"), ("\u{4e16}", "\u{754c}")]));
}

#[test]
fn lines_without_an_equals_sign_are_passed_over() {
    assert_eq!(parse(""), Vec::new());
    assert_eq!(parse("\n\n"), Vec::new());
    assert_eq!(parse("no entry here"), Vec::new());
    assert_eq!(parse("# comment\nA=1\n\nrest\nB=2\n\n"), entries(&[("A", "1"), ("B", "2")]));
}

#[test]
fn parse_agrees_with_split() {
    for file in ["A=1\nB=2", "\n=\n==\nx\n\ny=z=w\n", "a\n\n\nb=\n=c", "=\n"] {
        let expected: Vec<(String, String)> = file
            .split('\n')
            .filter_map(|s| s.split_once('='))
            .map(|(k, v)| (k.to_string(), v.to_string()))
            .collect();
        assert_eq!(parse(file), expected);
    }
}

#[test]
fn read_finds_the_value() {
    let map = entries(&[("A", "1"), ("B", "2")]);
    assert_eq!(read(&map, "A"), Ok(String::from("1")));
    assert_eq!(read(&map, "B"), Ok(String::from("2")));
}

#[test]
fn read_reports_the_missing_key() {
    let map = entries(&[("A", "1")]);
    assert_eq!(read(&map, "C"), Err(EnvError::KeyMissing(String::from("C"))));
    assert_eq!(read(&map, "a"), Err(EnvError::KeyMissing(String::from("a"))));
    assert_eq!(read(&Vec::new(), ""), Err(EnvError::KeyMissing(String::new())));
}

#[test]
fn a_later_entry_replaces_an_earlier_one() {
    let map = entries(&[("A", "1"), ("B", "2"), ("A", "3")]);
    assert_eq!(read(&map, "A"), Ok(String::from("3")));
    assert_eq!(read(&parse("A=1\nA=2\nA=3"), "A"), Ok(String::from("3")));
}

#[test]
fn settings_need_all_four_keys() {
    let mut map = entries(&[
        ("ALLOW_ORIGIN", "http://localhost:3000"),
        ("DATABASE_URL", "postgres://localhost/ledger"),
        ("REST_SOCKET", "127.0.0.1:8000"),
        ("SECRET", "hush"),
        ("UNUSED", "x"),
    ]);
    let env = from_map(&map).ok().unwrap();
    assert!(
        env == Env {
            allow_origin: String::from("http://localhost:3000"),
            database_url: String::from("postgres://localhost/ledger"),
            rest_socket: String::from("127.0.0.1:8000"),
            secret: String::from("hush"),
        }
    );
    map.remove(2);
    assert!(from_map(&map).err() == Some(EnvError::KeyMissing(String::from("REST_SOCKET"))));
    map.remove(0);
    assert!(from_map(&map).err() == Some(EnvError::KeyMissing(String::from("ALLOW_ORIGIN"))));
}

#[test]
fn settings_are_read_from_a_file() {
    let file = "ALLOW_ORIGIN=http://localhost:3000\nDATABASE_URL=postgres://localhost/ledger\n\
                REST_SOCKET=127.0.0.1:8000\nSECRET=a=b\n";
    let env = init(file).ok().unwrap();
    assert_eq!(env.allow_origin, "http://localhost:3000");
    assert_eq!(env.database_url, "postgres://localhost/ledger");
    assert_eq!(env.rest_socket, "127.0.0.1:8000");
    assert_eq!(env.secret, "a=b");
    assert!(init("SECRET=x").err() == Some(EnvError::KeyMissing(String::from("ALLOW_ORIGIN"))));
    assert!(init("").err() == Some(EnvError::KeyMissing(String::from("ALLOW_ORIGIN"))));
}

#[test]
fn the_key_is_the_secret() {
    let env = Env {
        allow_origin: String::new(),
        database_url: String::new(),
        rest_socket: String::new(),
        secret: String::from("an example of a secret that is long enough to sign with"),
    };
    let token = Token::Pending(SessionAsk(42));
    assert_eq!(
        issue(&key(&env), &token),
        b"ask/42/C3yv9JcFNpQjqvtBpOEvwkFPKLyVLFs3L60kqULL+Ho=".to_vec()
    );
}

#[test]
fn stored_codes_name_each_value() {
    assert_eq!(Person::Ale.code(), "Ale");
    assert_eq!(Person::Lu.code(), "Lu");
    assert_eq!(Split::Proportional2to1.code(), "Proportional2to1");
    assert_eq!(Split::Proportional3to2.code(), "Proportional3to2");
    assert_eq!(Split::Arbitrary.code(), "Arbitrary");
    assert_eq!(Split::Evenly.code(), "Evenly");
    assert_eq!(Label::Furnitance.code(), "Furnitance");
    for who in [Person::Ale, Person::Lu] {
        assert_eq!(Person::from_code(who.code()), Some(who));
    }
    for split in [Split::Proportional2to1, Split::Proportional3to2, Split::Arbitrary, Split::Evenly]
    {
        assert_eq!(Split::from_code(split.code()), Some(split));
    }
    for label in [
        Label::Market,
        Label::Delivery,
        Label::Transport,
        Label::Leisure,
        Label::Water,
        Label::Internet,
        Label::Gas,
        Label::Housing,
        Label::Electricity,
        Label::Furnitance,
    ] {
        assert_eq!(Label::from_code(label.code()), Some(label));
    }
}

#[test]
fn unknown_codes_name_nothing() {
    for code in ["", "ale", "ALE", "Ale ", "Lu\n", "Bob"] {
        assert_eq!(Person::from_code(code), None);
    }
    for code in ["", "evenly", "Proportional", "Proportional2to2", "Even"] {
        assert_eq!(Split::from_code(code), None);
    }
    for code in ["", "market", "Furniture", "Gas "] {
        assert_eq!(Label::from_code(code), None);
    }
}

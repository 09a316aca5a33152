//! The settings that the service is started with, read from lines of the
//! form `KEY=value`.

use vstd::prelude::*;
use vstd::string::{StrSliceExecFns, StringExecFns};

verus! {

/// The settings, as text.
#[derive(Clone, PartialEq, Eq)]
pub struct Env {
    pub allow_origin: String,
    pub database_url: String,
    pub rest_socket: String,
    pub secret: String,
}

/// Why the settings could not be read.
#[derive(Debug, Clone, PartialEq, Eq)]
pub enum EnvError {
    /// No entry has this key.
    KeyMissing(String),
}

/// The first place from `from` on where `c` stands in `s`; the length of `s`
/// if there is none.
pub open spec fn first_from(s: Seq<char>, c: char, from: int) -> int
    decreases s.len() - from,
{
    if from < 0 || from >= s.len() {
        s.len() as int
    } else if s[from] == c {
        from
    } else {
        first_from(s, c, from + 1)
    }
}

/// The entry that a line holds: what stands before its first `=` and what
/// stands after it. A line without `=` holds none.
pub open spec fn entry(line: Seq<char>) -> Option<(Seq<char>, Seq<char>)> {
    let eq = first_from(line, '=', 0);
    if eq < line.len() {
        Some((line.subrange(0, eq), line.subrange(eq + 1, line.len() as int)))
    } else {
        None
    }
}

/// The entries of the lines of `text` from `from` on, in their order.
pub open spec fn entries_from(text: Seq<char>, from: int) -> Seq<(Seq<char>, Seq<char>)>
    decreases text.len() - from,
{
    let end = first_from(text, '\n', from);
    if from < 0 || from > text.len() || end < from || end > text.len() {
        Seq::empty()
    } else {
        let rest = if end < text.len() {
            entries_from(text, end + 1)
        } else {
            Seq::empty()
        };
        match entry(text.subrange(from, end)) {
            Some(e) => seq![e] + rest,
            None => rest,
        }
    }
}

/// The entries of the lines of `text`.
pub open spec fn entries(text: Seq<char>) -> Seq<(Seq<char>, Seq<char>)> {
    entries_from(text, 0)
}

/// The value of `key`: that of the last entry with this key, as later entries
/// replace earlier ones.
pub open spec fn lookup(map: Seq<(Seq<char>, Seq<char>)>, key: Seq<char>) -> Option<Seq<char>>
    decreases map.len(),
{
    if map.len() == 0 {
        None
    } else if map.last().0 == key {
        Some(map.last().1)
    } else {
        lookup(map.drop_last(), key)
    }
}

/// The entries as text.
pub open spec fn views(map: Seq<(String, String)>) -> Seq<(Seq<char>, Seq<char>)> {
    map.map_values(|e: (String, String)| (e.0@, e.1@))
}

/// The settings that the entries give, if every key is there.
pub open spec fn settings(map: Seq<(Seq<char>, Seq<char>)>) -> Option<
    (Seq<char>, Seq<char>, Seq<char>, Seq<char>),
> {
    match (
        lookup(map, "ALLOW_ORIGIN"@),
        lookup(map, "DATABASE_URL"@),
        lookup(map, "REST_SOCKET"@),
        lookup(map, "SECRET"@),
    ) {
        (Some(allow_origin), Some(database_url), Some(rest_socket), Some(secret)) => Some(
            (allow_origin, database_url, rest_socket, secret),
        ),
        _ => None,
    }
}

/// Where no `c` stands from `from` up to `end`, and one stands at `end` or
/// `end` is the length, `end` is the first place.
proof fn lemma_first_from(s: Seq<char>, c: char, from: int, end: int)
    requires
        0 <= from <= end <= s.len(),
        forall|k: int| from <= k < end ==> s[k] != c,
        end == s.len() || s[end] == c,
    ensures
        first_from(s, c, from) == end,
    decreases end - from,
{
    if from < end {
        lemma_first_from(s, c, from + 1, end);
    }
}

/// The characters of a string.
fn letters(file: &str) -> (r: Vec<char>)
    ensures
        r@ == file@,
{
    broadcast use vstd::string::group_string_axioms;

    let mut r: Vec<char> = Vec::new();
    for c in it: file.chars()
        invariant
            it.seq() == file@,
            r@ == file@.subrange(0, it.index() as int),
    {
        r.push(c);
        assert(r@ =~= file@.subrange(0, it.index() + 1));
    }
    assert(file@.subrange(0, file@.len() as int) =~= file@);
    r
}

/// The entries of the lines of `file`. A line without `=` is passed over.
pub fn parse(file: &str) -> (map: Vec<(String, String)>)
    ensures
        views(map@) == entries(file@),
{
    let chars = letters(file);
    let n: usize = chars.len();
    let mut map: Vec<(String, String)> = Vec::new();
    let mut start: usize = 0;
    assert(views(map@) =~= Seq::empty());
    loop
        invariant_except_break
            views(map@) + entries_from(file@, start as int) == entries(file@),
        invariant
            chars@ == file@,
            n == chars.len(),
            start <= n,
        ensures
            views(map@) == entries(file@),
        decreases n - start,
    {
        let mut end: usize = start;
        while end < n && chars[end] != '\n'
            invariant
                start <= end <= n,
                n == chars.len(),
                forall|k: int| start <= k < end ==> chars@[k] != '\n',
            decreases n - end,
        {
            end = end + 1;
        }
        let mut eq: usize = start;
        while eq < end && chars[eq] != '='
            invariant
                start <= eq <= end <= n,
                n == chars.len(),
                forall|k: int| start <= k < eq ==> chars@[k] != '=',
            decreases end - eq,
        {
            eq = eq + 1;
        }
        let ghost before = views(map@);
        let ghost line = file@.subrange(start as int, end as int);
        proof {
            lemma_first_from(file@, '\n', start as int, end as int);
            lemma_first_from(line, '=', 0, eq - start);
        }
        if eq < end {
            let key = String::from_str(file.substring_char(start, eq));
            let value = String::from_str(file.substring_char(eq + 1, end));
            proof {
                assert(key@ =~= line.subrange(0, eq - start));
                assert(value@ =~= line.subrange(eq - start + 1, line.len() as int));
            }
            map.push((key, value));
            assert(views(map@) =~= before + seq![entry(line).unwrap()]);
        }
        if end == n {
            assert(views(map@) =~= before + entries_from(file@, start as int));
            break;
        }
        assert(views(map@) + entries_from(file@, end + 1) =~= before + entries_from(
            file@,
            start as int,
        ));
        start = end + 1;
    }
    map
}

/// The value of `key`: that of the last entry with this key.
pub fn read(map: &Vec<(String, String)>, key: &str) -> (r: Result<String, EnvError>)
    ensures
        match r {
            Ok(value) => lookup(views(map@), key@) == Some(value@),
            Err(EnvError::KeyMissing(missing)) => missing@ == key@ && lookup(views(map@), key@)
                is None,
        },
{
    let wanted = String::from_str(key);
    let mut i: usize = map.len();
    assert(views(map@).subrange(0, i as int) =~= views(map@));
    while i > 0
        invariant
            i <= map.len(),
            wanted@ == key@,
            lookup(views(map@), key@) == lookup(views(map@).subrange(0, i as int), key@),
        decreases i,
    {
        i = i - 1;
        assert(views(map@).subrange(0, i + 1).drop_last() =~= views(map@).subrange(0, i as int));
        if map[i].0 == wanted {
            return Ok(map[i].1.clone());
        }
    }
    Err(EnvError::KeyMissing(wanted))
}

/// The settings that the entries give. Every one of the four keys has to be
/// there; the first one that is not is reported.
pub fn from_map(map: &Vec<(String, String)>) -> (r: Result<Env, EnvError>)
    ensures
        match r {
            Ok(env) => settings(views(map@)) == Some(
                (env.allow_origin@, env.database_url@, env.rest_socket@, env.secret@),
            ),
            Err(EnvError::KeyMissing(missing)) => settings(views(map@)) is None && lookup(
                views(map@),
                missing@,
            ) is None,
        },
{
    let allow_origin = match read(map, "ALLOW_ORIGIN") {
        Ok(value) => value,
        Err(e) => {
            return Err(e);
        },
    };
    let database_url = match read(map, "DATABASE_URL") {
        Ok(value) => value,
        Err(e) => {
            return Err(e);
        },
    };
    let rest_socket = match read(map, "REST_SOCKET") {
        Ok(value) => value,
        Err(e) => {
            return Err(e);
        },
    };
    let secret = match read(map, "SECRET") {
        Ok(value) => value,
        Err(e) => {
            return Err(e);
        },
    };
    Ok(Env { allow_origin, database_url, rest_socket, secret })
}

/// The settings that the lines of `file` give.
pub fn init(file: &str) -> (r: Result<Env, EnvError>)
    ensures
        match r {
            Ok(env) => settings(entries(file@)) == Some(
                (env.allow_origin@, env.database_url@, env.rest_socket@, env.secret@),
            ),
            Err(EnvError::KeyMissing(missing)) => settings(entries(file@)) is None && lookup(
                entries(file@),
                missing@,
            ) is None,
        },
{
    let map = parse(file);
    from_map(&map)
}

} // verus!

use vstd::prelude::*;

verus! {

/// A logical key: function key `F1` to `F24`, or the key that the
/// keyboard layer assigns to a printable character.
#[derive(Clone, Copy, Debug, PartialEq, Eq, Structural)]
pub enum Key {
    Function(u8),
    Char(char),
}

/// A key name that names no key.
#[derive(Debug, PartialEq, Eq)]
pub enum KeyError {
    UnresolvedKey(String),
}

/// The decimal digit for `d` in `0..10`.
pub open spec fn digit(d: int) -> char {
    ((d + 48) as u32) as char
}

/// The name of function key `n`: `F` followed by `n` in decimal.
pub open spec fn fkey_name(n: int) -> Seq<char> {
    if n < 10 {
        seq!['F', digit(n)]
    } else {
        seq!['F', digit(n / 10), digit(n % 10)]
    }
}

/// `s` is the name of function key `n`, one of `F1` to `F24`.
pub open spec fn names_fkey(s: Seq<char>, n: int) -> bool {
    1 <= n <= 24 && s == fkey_name(n)
}

/// The function key that `s` names, if it names one.
pub open spec fn fkey_of(s: Seq<char>) -> Option<Key> {
    if exists|n: int| names_fkey(s, n) {
        Some(Key::Function((choose|n: int| names_fkey(s, n)) as u8))
    } else {
        None
    }
}

/// The key that a key name stands for: a function key by its exact name,
/// otherwise the key of the name's first character.
pub open spec fn resolve(s: Seq<char>) -> Option<Key> {
    match fkey_of(s) {
        Some(k) => Some(k),
        None => if s.len() > 0 {
            Some(Key::Char(s[0]))
        } else {
            None
        },
    }
}

/// No two function keys share a name.
pub proof fn lemma_fkey_name_unique(n: int, m: int)
    requires
        1 <= n <= 24,
        1 <= m <= 24,
        fkey_name(n) == fkey_name(m),
    ensures
        n == m,
{
    assert(fkey_name(n)[1] == fkey_name(m)[1]);
    if n < 10 {
        assert(fkey_name(n).len() == 2);
    } else {
        assert(fkey_name(n).len() == 3);
    }
    if m < 10 {
        assert(fkey_name(m).len() == 2);
    } else {
        assert(fkey_name(m).len() == 3);
    }
    if n >= 10 {
        assert(fkey_name(n)[2] == fkey_name(m)[2]);
        lemma_digit_unique(n / 10, m / 10);
        lemma_digit_unique(n % 10, m % 10);
    } else {
        lemma_digit_unique(n, m);
    }
}

/// Distinct digits are distinct characters.
proof fn lemma_digit_unique(d: int, e: int)
    requires
        0 <= d < 10,
        0 <= e < 10,
        digit(d) == digit(e),
    ensures
        d == e,
{
    assert(digit(d) as u32 == d + 48);
    assert(digit(e) as u32 == e + 48);
}

/// Exactly the names `F1` to `F24` give a function key, and each gives its own.
pub proof fn lemma_fkey_names(n: int)
    requires
        1 <= n <= 24,
    ensures
        fkey_of(fkey_name(n)) == Some(Key::Function(n as u8)),
        resolve(fkey_name(n)) == Some(Key::Function(n as u8)),
{
    assert(names_fkey(fkey_name(n), n));
    let m = choose|m: int| names_fkey(fkey_name(n), m);
    lemma_fkey_name_unique(n, m);
}

/// A name of one character that is not a function-key name resolves to
/// that character's key.
pub proof fn lemma_single_char(c: char)
    ensures
        resolve(seq![c]) == Some(Key::Char(c)),
{
    assert forall|n: int| !names_fkey(seq![c], n) by {
        if 1 <= n <= 24 {
            assert(fkey_name(n).len() >= 2);
        }
    }
}

/// The empty name names no key.
pub proof fn lemma_empty_name()
    ensures
        resolve(Seq::<char>::empty()) is None,
{
    assert forall|n: int| !names_fkey(Seq::<char>::empty(), n) by {
        if 1 <= n <= 24 {
            assert(fkey_name(n).len() >= 2);
        }
    }
}

/// The first four characters of `s`, as far as it has them.
fn first_four(s: &str) -> (r: (Option<char>, Option<char>, Option<char>, Option<char>))
    ensures
        r.0 == (if s@.len() > 0 { Some(s@[0]) } else { None::<char> }),
        r.1 == (if s@.len() > 1 { Some(s@[1]) } else { None::<char> }),
        r.2 == (if s@.len() > 2 { Some(s@[2]) } else { None::<char> }),
        r.3 == (if s@.len() > 3 { Some(s@[3]) } else { None::<char> }),
{
    broadcast use vstd::string::axiom_spec_iter;

    let mut it = s.chars();
    let a = it.next();
    let b = it.next();
    let c = it.next();
    let d = it.next();
    (a, b, c, d)
}

/// The value of a decimal digit character.
fn digit_value(c: char) -> (r: Option<u8>)
    ensures
        match r {
            Some(d) => d < 10 && c == digit(d as int),
            None => forall|d: int| 0 <= d < 10 ==> c != digit(d),
        },
{
    if '0' <= c && c <= '9' {
        let d = (c as u32 - 48) as u8;
        Some(d)
    } else {
        None
    }
}

/// Translates `F1` to `F24` into their function keys; any other name,
/// `f1` and `F01` among them, gives `None`.
pub fn to_fkey(key: &str) -> (r: Option<Key>)
    ensures
        r == fkey_of(key@),
        r matches Some(Key::Function(n)) ==> names_fkey(key@, n as int),
{
    let (c0, c1, c2, c3) = first_four(key);
    let s = Ghost(key@);
    let n: u8 = match (c0, c1, c2, c3) {
        (Some('F'), Some(a), None, None) => match digit_value(a) {
            Some(d) => {
                assert(s@ =~= fkey_name(d as int));
                d
            },
            None => 0,
        },
        (Some('F'), Some(a), Some(b), None) => match (digit_value(a), digit_value(b)) {
            (Some(d), Some(e)) => if d == 0 {
                0
            } else {
                let n = d * 10 + e;
                assert(n / 10 == d && n % 10 == e);
                assert(n >= 10 ==> s@ =~= fkey_name(n as int));
                n
            },
            _ => 0,
        },
        _ => 0,
    };
    if 1 <= n && n <= 24 {
        proof {
            assert(names_fkey(s@, n as int));
            lemma_fkey_names(n as int);
        }
        Some(Key::Function(n))
    } else {
        proof {
            assert forall|m: int| !names_fkey(s@, m) by {
                if names_fkey(s@, m) {
                    assert(s@ =~= fkey_name(m));
                    assert(s@[1] == fkey_name(m)[1]);
                }
            }
        }
        None
    }
}

/// Resolves a key name: a function key by its exact name, otherwise the
/// key of its first character; an empty name is an unresolved key.
pub fn resolve_key(name: &str) -> (r: Result<Key, KeyError>)
    ensures
        match r {
            Ok(k) => resolve(name@) == Some(k),
            Err(KeyError::UnresolvedKey(n)) => resolve(name@) is None && n@ == name@,
        },
{
    match to_fkey(name) {
        Some(k) => Ok(k),
        None => {
            let (c0, _, _, _) = first_four(name);
            match c0 {
                Some(c) => Ok(Key::Char(c)),
                None => Err(KeyError::UnresolvedKey(name.to_string())),
            }
        },
    }
}

} // verus!

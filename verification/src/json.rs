//! What is read out of a response body. A body is a JSON object, bare or
//! inside the brackets of a callback: `name({...})`. This module finds the
//! JSON inside the body; the `serde_json` crate parses it, and the members
//! whose value is a string are what the protocol reads.

use vstd::prelude::*;

verus! {

/// `serde_json::Value`: a parsed JSON value, carried as it is.
#[verifier::external_type_specification]
#[verifier::external_body]
pub struct ExValue(serde_json::Value);

/// `serde_json::Error`: why a text did not parse. Nothing is read from it.
#[verifier::external_type_specification]
#[verifier::external_body]
pub struct ExError(serde_json::Error);

/// The members of a JSON object whose value is a string, by name. A value
/// that is no object has none.
pub uninterp spec fn json_members(value: serde_json::Value) -> Map<Seq<char>, Seq<char>>;

/// The string members of the JSON value that `text` spells, or `None` where
/// `text` is not one JSON value and nothing else.
pub uninterp spec fn json_document(text: Seq<u8>) -> Option<Map<Seq<char>, Seq<char>>>;

/// `serde_json::from_slice`, read as a `Value`: parses the whole of `text`
/// as one JSON value. The outcome is fixed by the bytes: an error where they
/// are not one JSON value, else the value.
#[verifier::external_body]
fn parse_json(text: &[u8]) -> (r: Result<serde_json::Value, serde_json::Error>)
    ensures
        match r {
            Ok(value) => json_document(text@) == Some(json_members(value)),
            Err(_) => json_document(text@) is None,
        },
{
    serde_json::from_slice::<serde_json::Value>(text)
}

/// `Value::get` with a name, then `Value::as_str`: the member of that name
/// where the value is an object, has it, and it is a string; `None` in
/// every other case.
#[verifier::external_body]
fn json_text(value: &serde_json::Value, name: &str) -> (r: Option<String>)
    ensures
        match r {
            Some(s) => json_members(*value).contains_key(name@) && json_members(*value)[name@]
                == s@,
            None => !json_members(*value).contains_key(name@),
        },
{
    value.get(name).and_then(serde_json::Value::as_str).map(str::to_owned)
}

/// The string member `name`, where there is one.
pub open spec fn member_of(members: Map<Seq<char>, Seq<char>>, name: Seq<char>) -> Option<
    Seq<char>,
> {
    if members.contains_key(name) {
        Some(members[name])
    } else {
        None
    }
}

/// Space, tab, line feed or carriage return.
pub open spec fn is_space(b: u8) -> bool {
    b == 0x20 || b == 0x09 || b == 0x0a || b == 0x0d
}

/// A byte that a callback's name may hold: a letter, a digit, `_`, `$` or
/// `.`.
pub open spec fn is_name_byte(b: u8) -> bool {
    (0x30 <= b <= 0x39) || (0x41 <= b <= 0x5a) || (0x61 <= b <= 0x7a) || b == 0x5f || b == 0x24
        || b == 0x2e
}

/// The first index from `from` on that holds no space.
pub open spec fn after_spaces(s: Seq<u8>, from: int) -> int
    decreases s.len() - from,
{
    if 0 <= from < s.len() && is_space(s[from]) {
        after_spaces(s, from + 1)
    } else {
        from
    }
}

/// The end of what is left of `s[..upto]` without the spaces at its end.
pub open spec fn before_spaces(s: Seq<u8>, upto: int) -> int
    decreases upto,
{
    if 0 < upto <= s.len() && is_space(s[upto - 1]) {
        before_spaces(s, upto - 1)
    } else {
        upto
    }
}

/// The first index from `from` on that holds no name byte.
pub open spec fn after_name(s: Seq<u8>, from: int) -> int
    decreases s.len() - from,
{
    if 0 <= from < s.len() && is_name_byte(s[from]) {
        after_name(s, from + 1)
    } else {
        from
    }
}

/// Where the JSON lies in a body, as a range of indices. Spaces around the
/// body do not count. A body that starts with `{` is JSON as it stands. Any
/// other body has to be a name, `(`, the JSON, `)`, and may end in `;`.
pub open spec fn json_range(body: Seq<u8>) -> Option<(int, int)> {
    let start = after_spaces(body, 0);
    let end = before_spaces(body, body.len() as int);
    if start >= end {
        None
    } else if body[start] == 0x7b {
        Some((start, end))
    } else {
        let open = after_name(body, start);
        let close = if body[end - 1] == 0x3b {
            end - 2
        } else {
            end - 1
        };
        if start < open < close && body[open] == 0x28 && body[close] == 0x29 {
            Some((open + 1, close))
        } else {
            None
        }
    }
}

/// The JSON inside a body, where the body has one of the two forms.
pub open spec fn unwrapped(body: Seq<u8>) -> Option<Seq<u8>> {
    match json_range(body) {
        Some((from, to)) => Some(body.subrange(from, to)),
        None => None,
    }
}

/// The string members of the JSON object in a body; `None` where the body
/// has neither form or what is inside is not JSON.
pub open spec fn members_in(body: Seq<u8>) -> Option<Map<Seq<char>, Seq<char>>> {
    match unwrapped(body) {
        Some(text) => json_document(text),
        None => None,
    }
}

fn space(b: u8) -> (r: bool)
    ensures
        r == is_space(b),
{
    b == 0x20 || b == 0x09 || b == 0x0a || b == 0x0d
}

fn name_byte(b: u8) -> (r: bool)
    ensures
        r == is_name_byte(b),
{
    (0x30 <= b && b <= 0x39) || (0x41 <= b && b <= 0x5a) || (0x61 <= b && b <= 0x7a) || b == 0x5f
        || b == 0x24 || b == 0x2e
}

fn find_json(body: &[u8]) -> (r: Option<(usize, usize)>)
    ensures
        match r {
            Some((from, to)) => json_range(body@) == Some((from as int, to as int)) && from <= to
                <= body.len(),
            None => json_range(body@) is None,
        },
{
    let n: usize = body.len();
    let mut start: usize = 0;
    while start < n && space(body[start])
        invariant
            start <= n,
            n == body.len(),
            after_spaces(body@, start as int) == after_spaces(body@, 0),
        decreases n - start,
    {
        start = start + 1;
    }
    let mut end: usize = n;
    while end > 0 && space(body[end - 1])
        invariant
            end <= n,
            n == body.len(),
            before_spaces(body@, end as int) == before_spaces(body@, n as int),
        decreases end,
    {
        end = end - 1;
    }
    if start >= end {
        return None;
    }
    if body[start] == 0x7b {
        return Some((start, end));
    }
    let mut open: usize = start;
    while open < n && name_byte(body[open])
        invariant
            start <= open <= n,
            n == body.len(),
            after_name(body@, open as int) == after_name(body@, start as int),
        decreases n - open,
    {
        open = open + 1;
    }
    if end < 2 {
        return None;
    }
    let close: usize = if body[end - 1] == 0x3b {
        end - 2
    } else {
        end - 1
    };
    if start < open && open < close && body[open] == 0x28 && body[close] == 0x29 {
        Some((open + 1, close))
    } else {
        None
    }
}

/// Takes the JSON out of a response body: the body itself without the
/// spaces around it where it starts with `{`, else what stands between the
/// brackets of `name(...)` or `name(...);`. `None` for any other body.
pub fn strip_callback(body: &[u8]) -> (r: Option<Vec<u8>>)
    ensures
        match r {
            Some(text) => unwrapped(body@) == Some(text@),
            None => unwrapped(body@) is None,
        },
{
    match find_json(body) {
        Some((from, to)) => {
            let mut text: Vec<u8> = Vec::new();
            let mut i: usize = from;
            while i < to
                invariant
                    from <= i <= to <= body.len(),
                    text@ == body@.subrange(from as int, i as int),
                decreases to - i,
            {
                text.push(body[i]);
                i = i + 1;
                assert(text@ =~= body@.subrange(from as int, i as int));
            }
            Some(text)
        },
        None => None,
    }
}

/// The string members of a response body, read by name.
pub struct Members {
    value: serde_json::Value,
}

impl Members {
    /// The members as a map from name to text.
    pub closed spec fn view(&self) -> Map<Seq<char>, Seq<char>> {
        json_members(self.value)
    }

    /// Reads a response body: takes the JSON out of it and parses it. `None`
    /// where the body has neither of the two forms or holds no JSON.
    pub fn read(body: &[u8]) -> (r: Option<Members>)
        ensures
            match r {
                Some(m) => members_in(body@) == Some(m.view()),
                None => members_in(body@) is None,
            },
    {
        match strip_callback(body) {
            Some(text) => match parse_json(text.as_slice()) {
                Ok(value) => Some(Members { value }),
                Err(_) => None,
            },
            None => None,
        }
    }

    /// The string member `name`, where there is one.
    pub fn text(&self, name: &str) -> (r: Option<String>)
        ensures
            r.deep_view() == member_of(self.view(), name@),
    {
        json_text(&self.value, name)
    }
}

} // verus!

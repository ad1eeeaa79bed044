//! Recognising the authorisation redirect in the request that the local
//! callback listener receives, one line at a time.
use vstd::prelude::*;
use crate::text::{find_char_from, first_index_from, is_prefix_of, same_text, starts_with};

verus! {

/// Start of the request line that carries the authorisation redirect.
pub const CALLBACK_PREFIX: &'static str = "GET /esi/callback?";

/// The line that ends the request's headers.
pub const END_OF_HEADERS: &'static str = "\r\n";

/// The pairs that a URL query string decodes to, key and value, or `None`
/// where the text is no well-formed query of plain values.
pub uninterp spec fn query_pairs(q: Seq<char>) -> Option<Seq<(Seq<char>, Seq<char>)>>;

/// The characters of each key and value.
pub open spec fn pairs_view(v: Seq<(String, String)>) -> Seq<(Seq<char>, Seq<char>)> {
    v.map_values(|p: (String, String)| (p.0@, p.1@))
}

/// Relies on `serde_qs::from_str` decoding the query into a map from keys to
/// string values: whether it decodes, and to which pairs.
#[verifier::external_body]
fn decode_query(q: &str) -> (r: Option<Vec<(String, String)>>)
    ensures
        r matches Some(v) ==> query_pairs(q@) == Some(pairs_view(v@)),
        r is None ==> query_pairs(q@) is None,
{
    match serde_qs::from_str::<std::collections::BTreeMap<String, String>>(q) {
        Ok(m) => Some(m.into_iter().collect()),
        Err(_) => None,
    }
}

/// The authorisation code and state that the redirect carries.
#[derive(Clone, Debug, PartialEq, Eq)]
pub struct EsiCallbackParams {
    pub code: String,
    pub state: String,
}

/// What one request line is.
#[derive(Clone, Debug, PartialEq, Eq)]
pub enum LineKind {
    /// The redirect, with what it carries.
    Callback(EsiCallbackParams),
    /// The blank line after the headers.
    EndOfHeaders,
    /// Any other line.
    Other,
}

/// Why a redirect line could not be read.
#[derive(Clone, Copy, Debug, PartialEq, Eq)]
pub enum CallbackError {
    /// No space ends the request target.
    UnterminatedTarget,
    /// The query does not decode to a code and a state.
    MalformedQuery,
}

/// The value of the last pair with key `key`.
pub open spec fn lookup(ps: Seq<(Seq<char>, Seq<char>)>, key: Seq<char>) -> Option<Seq<char>>
    decreases ps.len(),
{
    if ps.len() == 0 {
        None
    } else if ps.last().0 == key {
        Some(ps.last().1)
    } else {
        lookup(ps.drop_last(), key)
    }
}

/// The code and the state among the pairs, where both are present.
pub open spec fn params_in(ps: Seq<(Seq<char>, Seq<char>)>) -> Option<(Seq<char>, Seq<char>)> {
    match (lookup(ps, "code"@), lookup(ps, "state"@)) {
        (Some(c), Some(s)) => Some((c, s)),
        _ => None,
    }
}

/// The code and the state that the query `q` carries.
pub open spec fn decoded_params(q: Seq<char>) -> Option<(Seq<char>, Seq<char>)> {
    match query_pairs(q) {
        Some(ps) => params_in(ps),
        None => None,
    }
}

/// The line is the redirect's request line.
pub open spec fn is_callback_line(line: Seq<char>) -> bool {
    is_prefix_of(CALLBACK_PREFIX@, line)
}

/// The query of a redirect line: from the end of the prefix to the first space.
pub open spec fn callback_query(line: Seq<char>) -> Option<Seq<char>> {
    match first_index_from(line, CALLBACK_PREFIX@.len() as int, ' ') {
        Some(j) => Some(line.subrange(CALLBACK_PREFIX@.len() as int, j)),
        None => None,
    }
}

/// The value of the last pair with key `key`.
fn find_value(pairs: &Vec<(String, String)>, key: &str) -> (r: Option<String>)
    ensures
        r matches Some(v) ==> lookup(pairs_view(pairs@), key@) == Some(v@),
        r is None ==> lookup(pairs_view(pairs@), key@) is None,
{
    let ghost ps = pairs_view(pairs@);
    let mut found: Option<String> = None;
    let mut i: usize = 0;
    while i < pairs.len()
        invariant
            i <= pairs@.len(),
            ps == pairs_view(pairs@),
            found matches Some(v) ==> lookup(ps.take(i as int), key@) == Some(v@),
            found is None ==> lookup(ps.take(i as int), key@) is None,
        decreases pairs@.len() - i,
    {
        proof {
            assert(ps.take(i + 1).drop_last() =~= ps.take(i as int));
            assert(ps.take(i + 1).last() == (pairs@[i as int].0@, pairs@[i as int].1@));
        }
        if same_text(pairs[i].0.as_str(), key) {
            found = Some(pairs[i].1.clone());
        }
        i = i + 1;
    }
    assert(ps.take(pairs@.len() as int) =~= ps);
    found
}

/// Picks the code and the state out of decoded query pairs.
pub fn params_from_pairs(pairs: &Vec<(String, String)>) -> (r: Option<EsiCallbackParams>)
    ensures
        r matches Some(p) ==> params_in(pairs_view(pairs@)) == Some((p.code@, p.state@)),
        r is None ==> params_in(pairs_view(pairs@)) is None,
{
    let code = find_value(pairs, "code");
    let state = find_value(pairs, "state");
    match (code, state) {
        (Some(c), Some(s)) => Some(EsiCallbackParams { code: c, state: s }),
        _ => None,
    }
}

/// Reads one request line: the redirect with its code and state, the end of
/// the headers, or another line. A redirect line fails where no space ends
/// its target or its query does not decode to a code and a state.
pub fn scan_line(line: &str) -> (r: Result<LineKind, CallbackError>)
    ensures
        r matches Ok(LineKind::Callback(p)) ==> is_callback_line(line@) && (callback_query(
            line@,
        ) matches Some(q) && decoded_params(q) == Some((p.code@, p.state@))),
        r matches Ok(LineKind::EndOfHeaders) ==> !is_callback_line(line@) && line@ == END_OF_HEADERS@,
        r matches Ok(LineKind::Other) ==> !is_callback_line(line@) && line@ != END_OF_HEADERS@,
        r matches Err(CallbackError::UnterminatedTarget) ==> is_callback_line(line@) && callback_query(
            line@,
        ) is None,
        r matches Err(CallbackError::MalformedQuery) ==> is_callback_line(line@) && (callback_query(
            line@,
        ) matches Some(q) && decoded_params(q) is None),
{
    if !starts_with(line, CALLBACK_PREFIX) {
        if same_text(line, END_OF_HEADERS) {
            return Ok(LineKind::EndOfHeaders);
        }
        return Ok(LineKind::Other);
    }
    let start = CALLBACK_PREFIX.unicode_len();
    let end = match find_char_from(line, start, ' ') {
        Some(j) => j,
        None => {
            return Err(CallbackError::UnterminatedTarget);
        },
    };
    let query = line.substring_char(start, end);
    match decode_query(query) {
        Some(pairs) => match params_from_pairs(&pairs) {
            Some(p) => Ok(LineKind::Callback(p)),
            None => Err(CallbackError::MalformedQuery),
        },
        None => Err(CallbackError::MalformedQuery),
    }
}

/// What a request of the given lines yields, reading on from `found`: the
/// code and state of the last redirect line before the end of the headers
/// (or before the lines run out), `None` where there is no redirect line, or
/// the error of the first redirect line that cannot be read.
pub open spec fn request_outcome(
    lines: Seq<Seq<char>>,
    found: Option<(Seq<char>, Seq<char>)>,
) -> Result<Option<(Seq<char>, Seq<char>)>, CallbackError>
    decreases lines.len(),
{
    if lines.len() == 0 {
        Ok(found)
    } else {
        let line = lines[0];
        if is_callback_line(line) {
            match callback_query(line) {
                None => Err(CallbackError::UnterminatedTarget),
                Some(q) => match decoded_params(q) {
                    None => Err(CallbackError::MalformedQuery),
                    Some(p) => request_outcome(lines.drop_first(), Some(p)),
                },
            }
        } else if line == END_OF_HEADERS@ {
            Ok(found)
        } else {
            request_outcome(lines.drop_first(), found)
        }
    }
}

/// The characters of each line.
pub open spec fn lines_view(lines: Seq<String>) -> Seq<Seq<char>> {
    lines.map_values(|s: String| s@)
}

/// The code and state of optional parameters, as characters.
pub open spec fn params_view(p: Option<EsiCallbackParams>) -> Option<(Seq<char>, Seq<char>)> {
    match p {
        Some(p) => Some((p.code@, p.state@)),
        None => None,
    }
}

/// Reads the lines of a request up to the end of its headers and returns the
/// code and state of its redirect line, `None` where it has none.
pub fn parse_callback_request(lines: &Vec<String>) -> (r: Result<Option<EsiCallbackParams>, CallbackError>)
    ensures
        r matches Ok(p) ==> request_outcome(lines_view(lines@), None) == Ok::<
            Option<(Seq<char>, Seq<char>)>,
            CallbackError,
        >(params_view(p)),
        r matches Err(e) ==> request_outcome(lines_view(lines@), None) == Err::<
            Option<(Seq<char>, Seq<char>)>,
            CallbackError,
        >(e),
{
    let ghost all = lines_view(lines@);
    let mut found: Option<EsiCallbackParams> = None;
    let mut i: usize = 0;
    assert(all.skip(0) =~= all);
    while i < lines.len()
        invariant
            i <= lines@.len(),
            all == lines_view(lines@),
            request_outcome(all, None) == request_outcome(all.skip(i as int), params_view(found)),
        decreases lines@.len() - i,
    {
        proof {
            assert(all.skip(i as int)[0] == lines@[i as int]@);
            assert(all.skip(i as int).drop_first() =~= all.skip(i + 1));
        }
        match scan_line(lines[i].as_str()) {
            Ok(LineKind::Callback(p)) => {
                found = Some(p);
            },
            Ok(LineKind::EndOfHeaders) => {
                return Ok(found);
            },
            Ok(LineKind::Other) => {},
            Err(e) => {
                return Err(e);
            },
        }
        i = i + 1;
    }
    assert(all.skip(lines@.len() as int).len() == 0);
    Ok(found)
}

} // verus!

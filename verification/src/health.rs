//! Health checks of the services that are started beside the engine: the address in a
//! health URL, the request that is sent there, the status in the answer, and whether
//! to go on waiting.

use crate::text::{
    chars_of, is_space, numeral_up_to, parse_numeral, space, trim_bounds, trim_start, trimmed,
};
use vstd::prelude::*;

verus! {

/// How long a service may take to become reachable, in milliseconds.
pub const HEALTH_TIMEOUT_MS: u64 = 300_000;

/// The pause between two probes, in milliseconds.
pub const HEALTH_RETRY_INTERVAL_MS: u64 = 1_000;

/// How long one probe may take to connect, to write and to read, in milliseconds.
pub const HEALTH_PROBE_TIMEOUT_MS: u64 = 2_000;

/// The port of a URL that names none.
pub const DEFAULT_HTTP_PORT: u16 = 80;

/// Why a health URL was refused.
#[derive(Debug, Clone, Copy, PartialEq, Eq, Structural)]
pub enum UrlError {
    /// The URL does not begin with `http://`.
    UnsupportedScheme,
    /// What follows the last colon of the host part is no port number.
    InvalidPort,
    /// The URL names no host.
    EmptyHost,
}

/// The index of the first `c` in `s`.
pub open spec fn first_index(s: Seq<char>, c: char) -> Option<int>
    decreases s.len(),
{
    if s.len() == 0 {
        None
    } else if s[0] == c {
        Some(0)
    } else {
        match first_index(s.drop_first(), c) {
            Some(i) => Some(i + 1),
            None => None,
        }
    }
}

/// The index of the last `c` in `s`.
pub open spec fn last_index(s: Seq<char>, c: char) -> Option<int>
    decreases s.len(),
{
    if s.len() == 0 {
        None
    } else if s.last() == c {
        Some(s.len() - 1)
    } else {
        last_index(s.drop_last(), c)
    }
}

/// Whether `s` begins with `prefix`.
pub open spec fn begins_with(s: Seq<char>, prefix: Seq<char>) -> bool {
    prefix.len() <= s.len() && s.take(prefix.len() as int) == prefix
}

/// The host and the port in the part of a URL between the scheme and the path. The port
/// follows the last colon; without a colon it is 80.
pub open spec fn host_and_port(authority: Seq<char>) -> Result<(Seq<char>, u16), UrlError> {
    match last_index(authority, ':') {
        Some(colon) => match numeral_up_to(authority.skip(colon + 1), 65535) {
            Some(port) => if colon == 0 {
                Err(UrlError::EmptyHost)
            } else {
                Ok((authority.take(colon), port as u16))
            },
            None => Err(UrlError::InvalidPort),
        },
        None => if authority.len() == 0 {
            Err(UrlError::EmptyHost)
        } else {
            Ok((authority, DEFAULT_HTTP_PORT))
        },
    }
}

/// The host, the port and the path of a health URL. The URL is trimmed and must begin
/// with `http://`; the path begins at the first slash after that, and is `/` where there
/// is none.
pub open spec fn url_parts(url: Seq<char>) -> Result<(Seq<char>, u16, Seq<char>), UrlError> {
    let raw = trimmed(url);
    if !begins_with(raw, "http://"@) {
        Err(UrlError::UnsupportedScheme)
    } else {
        let rest = raw.skip("http://"@.len() as int);
        let (authority, path) = match first_index(rest, '/') {
            Some(slash) => (rest.take(slash), rest.skip(slash)),
            None => (rest, "/"@),
        };
        match host_and_port(authority) {
            Ok((host, port)) => Ok((host, port, path)),
            Err(e) => Err(e),
        }
    }
}

proof fn lemma_first_index_from(s: Seq<char>, c: char, n: int)
    requires
        0 <= n <= s.len(),
        forall|i: int| 0 <= i < n ==> s[i] != c,
    ensures
        first_index(s, c) == (match first_index(s.skip(n), c) {
            Some(i) => Some(i + n),
            None => None,
        }),
    decreases n,
{
    if n > 0 {
        assert(s.drop_first().skip(n - 1) =~= s.skip(n));
        lemma_first_index_from(s.drop_first(), c, n - 1);
    } else {
        assert(s.skip(0) =~= s);
    }
}

proof fn lemma_last_index_to(s: Seq<char>, c: char, n: int)
    requires
        0 <= n <= s.len(),
        forall|i: int| n <= i < s.len() ==> s[i] != c,
    ensures
        last_index(s, c) == last_index(s.take(n), c),
    decreases s.len() - n,
{
    if n < s.len() {
        assert(s.drop_last().take(n) =~= s.take(n));
        lemma_last_index_to(s.drop_last(), c, n);
    } else {
        assert(s.take(n) =~= s);
    }
}

fn find_first(v: &Vec<char>, from: usize, to: usize, c: char) -> (found: Option<usize>)
    requires
        from <= to <= v.len(),
    ensures
        match found {
            Some(at) => from <= at < to && first_index(v@.subrange(from as int, to as int), c)
                == Some(at - from),
            None => first_index(v@.subrange(from as int, to as int), c) is None,
        },
{
    let ghost s = v@.subrange(from as int, to as int);
    let mut i: usize = from;
    while i < to
        invariant
            from <= i <= to <= v.len(),
            s == v@.subrange(from as int, to as int),
            forall|j: int| 0 <= j < i - from ==> s[j] != c,
        decreases to - i,
    {
        if v[i] == c {
            proof {
                lemma_first_index_from(s, c, i - from);
                assert(s.skip(i - from)[0] == c);
            }
            return Some(i);
        }
        i += 1;
    }
    proof {
        lemma_first_index_from(s, c, to - from);
        assert(s.skip(to - from).len() == 0);
    }
    None
}

fn find_last(v: &Vec<char>, from: usize, to: usize, c: char) -> (found: Option<usize>)
    requires
        from <= to <= v.len(),
    ensures
        match found {
            Some(at) => from <= at < to && last_index(v@.subrange(from as int, to as int), c)
                == Some(at - from),
            None => last_index(v@.subrange(from as int, to as int), c) is None,
        },
{
    let ghost s = v@.subrange(from as int, to as int);
    let mut i: usize = to;
    while i > from
        invariant
            from <= i <= to <= v.len(),
            s == v@.subrange(from as int, to as int),
            forall|j: int| i - from <= j < s.len() ==> s[j] != c,
        decreases i - from,
    {
        if v[i - 1] == c {
            proof {
                lemma_last_index_to(s, c, i - from);
                assert(s.take(i - from).last() == c);
            }
            return Some(i - 1);
        }
        i -= 1;
    }
    proof {
        lemma_last_index_to(s, c, 0);
        assert(s.take(0).len() == 0);
    }
    None
}

fn has_scheme(v: &Vec<char>, from: usize, to: usize) -> (r: bool)
    requires
        from <= to <= v.len(),
    ensures
        r == begins_with(v@.subrange(from as int, to as int), "http://"@),
        "http://"@.len() == 7,
{
    proof {
        reveal_strlit("http://");
    }
    let ghost s = v@.subrange(from as int, to as int);
    if to - from < 7 {
        return false;
    }
    let r = v[from] == 'h' && v[from + 1] == 't' && v[from + 2] == 't' && v[from + 3] == 'p' && v[from
        + 4] == ':' && v[from + 5] == '/' && v[from + 6] == '/';
    proof {
        if r {
            assert(s.take(7) =~= "http://"@);
        } else {
            assert(s.take(7)[0] == s[0] && s.take(7)[1] == s[1] && s.take(7)[2] == s[2] && s.take(
                7,
            )[3] == s[3] && s.take(7)[4] == s[4] && s.take(7)[5] == s[5] && s.take(7)[6] == s[6]);
        }
    }
    r
}

fn authority_parts(v: &Vec<char>, start: usize, end: usize) -> (parts: Result<(usize, u16), UrlError>)
    requires
        start <= end <= v.len(),
    ensures
        match host_and_port(v@.subrange(start as int, end as int)) {
            Ok((host, port)) => parts matches Ok(p) && start <= p.0 <= end && v@.subrange(
                start as int,
                p.0 as int,
            ) == host && p.1 == port,
            Err(e) => parts == Err::<(usize, u16), UrlError>(e),
        },
{
    let ghost authority = v@.subrange(start as int, end as int);
    match find_last(v, start, end, ':') {
        Some(at) => {
            assert(v@.subrange(at + 1, end as int) =~= authority.skip(at - start + 1));
            match parse_numeral(v, at + 1, end, 65535) {
                Some(n) => {
                    if at == start {
                        Err(UrlError::EmptyHost)
                    } else {
                        assert(v@.subrange(start as int, at as int) =~= authority.take(at - start));
                        Ok((at, n as u16))
                    }
                },
                None => Err(UrlError::InvalidPort),
            }
        },
        None => {
            if start == end {
                Err(UrlError::EmptyHost)
            } else {
                Ok((end, DEFAULT_HTTP_PORT))
            }
        },
    }
}

/// Takes a health URL apart: see [`url_parts`].
pub fn parse_http_url(url: &str) -> (parts: Result<(String, u16, String), UrlError>)
    ensures
        match url_parts(url@) {
            Ok((host, port, path)) => parts matches Ok(p) && p.0@ == host && p.1 == port && p.2@
                == path,
            Err(e) => parts matches Err(f) && f == e,
        },
{
    let chars = chars_of(url);
    let (from, to) = trim_bounds(&chars);
    if !has_scheme(&chars, from, to) {
        return Err(UrlError::UnsupportedScheme);
    }
    let start: usize = from + 7;
    let ghost rest = trimmed(url@).skip(7);
    assert(rest =~= chars@.subrange(start as int, to as int));
    let slash = find_first(&chars, start, to, '/');
    let end: usize = match slash {
        Some(at) => at,
        None => to,
    };
    proof {
        match slash {
            Some(at) => {
                assert(chars@.subrange(start as int, end as int) =~= rest.take(at - start));
                assert(chars@.subrange(end as int, to as int) =~= rest.skip(at - start));
            },
            None => {},
        }
    }
    match authority_parts(&chars, start, end) {
        Ok((host_end, port)) => {
            let host = String::from_str(url.substring_char(start, host_end));
            let path = match slash {
                Some(at) => String::from_str(url.substring_char(at, to)),
                None => String::from_str("/"),
            };
            Ok((host, port, path))
        },
        Err(e) => Err(e),
    }
}

/// The request that a probe writes: a `GET` of the path, for the host, on a connection
/// that is closed after the answer.
pub open spec fn request_text(host: Seq<char>, path: Seq<char>) -> Seq<char> {
    "GET "@ + path + " HTTP/1.1\r\nHost: "@ + host + "\r\nConnection: close\r\n\r\n"@
}

/// Writes [`request_text`].
pub fn health_request(host: &str, path: &str) -> (request: String)
    ensures
        request@ == request_text(host@, path@),
{
    let mut request = String::from_str("GET ");
    request.append(path);
    request.append(" HTTP/1.1\r\nHost: ");
    request.append(host);
    request.append("\r\nConnection: close\r\n\r\n");
    request
}

/// Why the answer to a probe gave no status.
#[derive(Debug, Clone, Copy, PartialEq, Eq, Structural)]
pub enum StatusError {
    /// Nothing was read.
    EmptyResponse,
    /// The first line is blank.
    MissingVersion,
    /// The first line ends after its first word.
    MissingStatus,
    /// The second word of the first line is no status code.
    InvalidStatus,
}

/// The length of the word at the start of `s`: the characters before the first white
/// space.
pub open spec fn word_len(s: Seq<char>) -> nat
    decreases s.len(),
{
    if s.len() == 0 || is_space(s[0]) {
        0
    } else {
        1 + word_len(s.drop_first())
    }
}

/// The first line of a text, without its line feed.
pub open spec fn first_line(s: Seq<char>) -> Seq<char> {
    match first_index(s, '\n') {
        Some(i) => s.take(i),
        None => s,
    }
}

/// The status code in the answer to a probe: the second word of the first line, read as
/// a number of at most sixteen bits.
pub open spec fn status_of(response: Seq<char>) -> Result<u16, StatusError> {
    if response.len() == 0 {
        Err(StatusError::EmptyResponse)
    } else {
        let version = trim_start(first_line(response));
        if version.len() == 0 {
            Err(StatusError::MissingVersion)
        } else {
            let status = trim_start(version.skip(word_len(version) as int));
            if status.len() == 0 {
                Err(StatusError::MissingStatus)
            } else {
                match numeral_up_to(status.take(word_len(status) as int), 65535) {
                    Some(code) => Ok(code as u16),
                    None => Err(StatusError::InvalidStatus),
                }
            }
        }
    }
}

proof fn lemma_word_len_from(s: Seq<char>, n: int)
    requires
        0 <= n <= s.len(),
        forall|i: int| 0 <= i < n ==> !is_space(s[i]),
    ensures
        word_len(s) == n + word_len(s.skip(n)),
    decreases n,
{
    if n > 0 {
        assert(s.drop_first().skip(n - 1) =~= s.skip(n));
        lemma_word_len_from(s.drop_first(), n - 1);
    } else {
        assert(s.skip(0) =~= s);
    }
}

fn skip_spaces(v: &Vec<char>, from: usize, to: usize) -> (at: usize)
    requires
        from <= to <= v.len(),
    ensures
        from <= at <= to,
        v@.subrange(at as int, to as int) == trim_start(v@.subrange(from as int, to as int)),
{
    let mut at: usize = from;
    while at < to && space(v[at])
        invariant
            from <= at <= to <= v.len(),
            trim_start(v@.subrange(from as int, to as int)) == trim_start(
                v@.subrange(at as int, to as int),
            ),
        decreases to - at,
    {
        assert(v@.subrange(at as int, to as int).drop_first() =~= v@.subrange(
            at as int + 1,
            to as int,
        ));
        at += 1;
    }
    at
}

fn word_end(v: &Vec<char>, from: usize, to: usize) -> (at: usize)
    requires
        from <= to <= v.len(),
    ensures
        from <= at <= to,
        at - from == word_len(v@.subrange(from as int, to as int)),
{
    let ghost s = v@.subrange(from as int, to as int);
    let mut at: usize = from;
    while at < to && !space(v[at])
        invariant
            from <= at <= to <= v.len(),
            s == v@.subrange(from as int, to as int),
            forall|i: int| 0 <= i < at - from ==> !is_space(s[i]),
        decreases to - at,
    {
        at += 1;
    }
    proof {
        lemma_word_len_from(s, at - from);
        if at < to {
            assert(s.skip(at - from)[0] == v@[at as int]);
        }
    }
    at
}

/// Reads the status code out of the answer to a probe: see [`status_of`].
pub fn parse_status(response: &str) -> (status: Result<u16, StatusError>)
    ensures
        status == status_of(response@),
{
    let chars = chars_of(response);
    if chars.len() == 0 {
        return Err(StatusError::EmptyResponse);
    }
    assert(chars@.subrange(0, chars.len() as int) =~= chars@);
    let line_end: usize = match find_first(&chars, 0, chars.len(), '\n') {
        Some(at) => at,
        None => chars.len(),
    };
    assert(chars@.subrange(0, line_end as int) =~= first_line(response@));
    let version_start = skip_spaces(&chars, 0, line_end);
    if version_start == line_end {
        return Err(StatusError::MissingVersion);
    }
    let version_end = word_end(&chars, version_start, line_end);
    let ghost version = chars@.subrange(version_start as int, line_end as int);
    assert(chars@.subrange(version_end as int, line_end as int) =~= version.skip(
        word_len(version) as int,
    ));
    let status_start = skip_spaces(&chars, version_end, line_end);
    if status_start == line_end {
        return Err(StatusError::MissingStatus);
    }
    let status_end = word_end(&chars, status_start, line_end);
    let ghost status = chars@.subrange(status_start as int, line_end as int);
    assert(chars@.subrange(status_start as int, status_end as int) =~= status.take(
        word_len(status) as int,
    ));
    match parse_numeral(&chars, status_start, status_end, 65535) {
        Some(code) => Ok(code as u16),
        None => Err(StatusError::InvalidStatus),
    }
}

/// Whether a status shows that the service is up: any success, or `404`, which a
/// service without a health page gives.
pub open spec fn reachable(status: u16) -> bool {
    (200 <= status && status < 300) || status == 404
}

/// What follows a probe.
#[derive(Debug, Clone, Copy, PartialEq, Eq, Structural)]
pub enum HealthStep {
    /// The service answered with this status: the wait is over.
    Reachable(u16),
    /// The service did not come up in time.
    TimedOut,
    /// Pause, then probe again.
    Retry { pause_ms: u64 },
}

/// What follows a probe that gave `probe`, the wait having lasted `elapsed_ms` so far.
pub open spec fn health_step(probe: Option<u16>, elapsed_ms: u64) -> HealthStep {
    if probe is Some && reachable(probe->0) {
        HealthStep::Reachable(probe->0)
    } else if elapsed_ms > HEALTH_TIMEOUT_MS {
        HealthStep::TimedOut
    } else {
        HealthStep::Retry { pause_ms: HEALTH_RETRY_INTERVAL_MS }
    }
}

/// Decides what follows a probe: see [`health_step`].
pub fn after_probe(probe: Option<u16>, elapsed_ms: u64) -> (step: HealthStep)
    ensures
        step == health_step(probe, elapsed_ms),
{
    match probe {
        Some(status) => {
            if (200 <= status && status < 300) || status == 404 {
                return HealthStep::Reachable(status);
            }
        },
        None => {},
    }
    if elapsed_ms > HEALTH_TIMEOUT_MS {
        HealthStep::TimedOut
    } else {
        HealthStep::Retry { pause_ms: HEALTH_RETRY_INTERVAL_MS }
    }
}

} // verus!

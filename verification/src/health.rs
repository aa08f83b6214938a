//! The liveness endpoints: which endpoint a request addresses, whether the
//! detailed report is asked for, how the service rates itself, and how an
//! uptime is written.

use crate::seqs::{first_index, is_first, lemma_first_index_is, lemma_first_index_none};
use crate::text::{chars_of, same_text};
use vstd::prelude::*;
use vstd::string::StringExecFns;

verus! {

/// What a request addresses.
#[derive(Debug, Clone, Copy, PartialEq, Eq, Structural)]
pub enum Endpoint {
    /// The upgrade to a persistent connection.
    WebSocket,
    /// The health report.
    Health,
    /// The description of the service.
    Root,
    /// Nothing that the service offers.
    NotFound,
}

/// The endpoint that a request addresses: only `GET` requests address
/// one, and the path must match exactly.
pub open spec fn endpoint_of(is_get: bool, path: Seq<char>) -> Endpoint {
    if !is_get {
        Endpoint::NotFound
    } else if path == "/ws"@ || path == "/websocket"@ {
        Endpoint::WebSocket
    } else if path == "/health"@ {
        Endpoint::Health
    } else if path == "/"@ {
        Endpoint::Root
    } else {
        Endpoint::NotFound
    }
}

/// Finds the endpoint that a request addresses.
pub fn route(is_get: bool, path: &str) -> (r: Endpoint)
    ensures
        r == endpoint_of(is_get, path@),
{
    if !is_get {
        Endpoint::NotFound
    } else if same_text(path, "/ws") || same_text(path, "/websocket") {
        Endpoint::WebSocket
    } else if same_text(path, "/health") {
        Endpoint::Health
    } else if same_text(path, "/") {
        Endpoint::Root
    } else {
        Endpoint::NotFound
    }
}

/// The test for a given character.
pub open spec fn is_char(sep: char) -> spec_fn(char) -> bool {
    |c: char| c == sep
}

/// The piece of `s` before the first `sep`, or all of `s`.
pub open spec fn head_before(s: Seq<char>, sep: char) -> Seq<char> {
    match first_index(s, is_char(sep)) {
        Some(i) => s.take(i),
        None => s,
    }
}

/// The rest of `s` behind the first `sep`, if there is one.
pub open spec fn tail_behind(s: Seq<char>, sep: char) -> Option<Seq<char>> {
    match first_index(s, is_char(sep)) {
        Some(i) => Some(s.skip(i + 1)),
        None => None,
    }
}

/// Whether `s` begins with `prefix`.
pub open spec fn starts_with(s: Seq<char>, prefix: Seq<char>) -> bool {
    prefix.len() <= s.len() && s.take(prefix.len() as int) == prefix
}

/// The first of the parameters of a query, which `&` separates, that
/// begins with `detailed=`.
pub open spec fn detailed_parameter(query: Seq<char>) -> Option<Seq<char>>
    decreases query.len(),
{
    let head = head_before(query, '&');
    if starts_with(head, "detailed="@) {
        Some(head)
    } else {
        match tail_behind(query, '&') {
            Some(rest) => if rest.len() < query.len() {
                detailed_parameter(rest)
            } else {
                None
            },
            None => None,
        }
    }
}

/// Whether a query asks for the detailed report: its first parameter that
/// begins with `detailed=` reads `true` from there to the next `=` or to
/// its end.
pub open spec fn asks_for_details(query: Option<Seq<char>>) -> bool {
    match query {
        Some(q) => match detailed_parameter(q) {
            Some(parameter) => head_before(parameter.skip(9), '=') == "true"@,
            None => false,
        },
        None => false,
    }
}

/// The position of the first `sep` in `s` at or behind `from`, or the
/// length of `s` where there is none.
fn find_from(s: &Vec<char>, from: usize, sep: char) -> (r: usize)
    requires
        from <= s.len(),
    ensures
        from <= r <= s.len(),
        forall|j: int| from <= j < r ==> s@[j] != sep,
        r < s.len() ==> s@[r as int] == sep,
{
    let mut i: usize = from;
    while i < s.len() && s[i] != sep
        invariant
            from <= i <= s.len(),
            forall|j: int| from <= j < i ==> s@[j] != sep,
        decreases s.len() - i,
    {
        i += 1;
    }
    i
}

/// Whether the characters of `s` from `from` up to `to` read `word`.
fn reads(s: &Vec<char>, from: usize, to: usize, word: &Vec<char>) -> (r: bool)
    requires
        from <= to <= s.len(),
    ensures
        r == (s@.subrange(from as int, to as int) == word@),
{
    if to - from != word.len() {
        return false;
    }
    let mut i: usize = 0;
    while i < word.len()
        invariant
            from <= to <= s.len(),
            to - from == word.len(),
            i <= word.len(),
            forall|j: int| 0 <= j < i ==> s@[from + j] == word@[j],
        decreases word.len() - i,
    {
        if s[from + i] != word[i] {
            proof {
                assert(s@.subrange(from as int, to as int)[i as int] == s@[from + i]);
            }
            return false;
        }
        i += 1;
    }
    proof {
        assert(s@.subrange(from as int, to as int) =~= word@);
    }
    true
}

proof fn lemma_pieces(s: Seq<char>, sep: char, k: int)
    requires
        0 <= k <= s.len(),
        forall|j: int| 0 <= j < k ==> s[j] != sep,
        k < s.len() ==> s[k] == sep,
    ensures
        head_before(s, sep) == s.take(k),
        tail_behind(s, sep) == if k < s.len() {
            Some(s.skip(k + 1))
        } else {
            None
        },
{
    let p = is_char(sep);
    assert forall|j: int| 0 <= j < k implies !#[trigger] p(s[j]) by {
        assert(s[j] != sep);
    }
    if k < s.len() {
        assert(p(s[k]));
        assert(is_first(s, p, k));
        lemma_first_index_is(s, p, k);
    } else {
        lemma_first_index_none(s, p);
        assert(s.take(k) =~= s);
    }
}

/// Tells whether a query asks for the detailed report.
pub fn wants_detailed(query: Option<&str>) -> (r: bool)
    ensures
        r == asks_for_details(
            match query {
                Some(q) => Some(q@),
                None => None,
            },
        ),
{
    let q = match query {
        Some(q) => chars_of(q),
        None => { return false; },
    };
    let name = chars_of("detailed=");
    let yes = chars_of("true");
    proof {
        reveal_strlit("detailed=");
    }
    let ghost all = q@;
    let mut start: usize = 0;
    proof {
        assert(all.skip(0) =~= all);
    }
    loop
        invariant
            start <= q.len(),
            all == q@,
            query == Some::<&str>(query->0),
            all == query->0@,
            name@ == "detailed="@,
            name@.len() == 9,
            yes@ == "true"@,
            detailed_parameter(all) == detailed_parameter(all.skip(start as int)),
        decreases q.len() - start,
    {
        let ghost rest = all.skip(start as int);
        let end = find_from(&q, start, '&');
        proof {
            assert forall|j: int| 0 <= j < end - start implies rest[j] != '&' by {
                assert(rest[j] == all[start + j]);
            }
            lemma_pieces(rest, '&', end - start);
            assert(rest.take(end - start) =~= all.subrange(start as int, end as int));
        }
        let ghost head = all.subrange(start as int, end as int);
        if end - start >= 9 && reads(&q, start, start + 9, &name) {
            proof {
                assert(head.take(9) =~= all.subrange(start as int, start + 9));
                assert(starts_with(head, "detailed="@));
            }
            let value_from = start + 9;
            let value_to = find_from(&q, value_from, '=');
            let value_end = if value_to < end {
                value_to
            } else {
                end
            };
            proof {
                let tail = head.skip(9);
                assert(tail =~= all.subrange(value_from as int, end as int));
                assert forall|j: int| 0 <= j < value_end - value_from implies tail[j] != '=' by {
                    assert(tail[j] == all[value_from + j]);
                }
                lemma_pieces(tail, '=', value_end - value_from);
                assert(tail.take(value_end - value_from) =~= all.subrange(
                    value_from as int,
                    value_end as int,
                ));
                assert(head_before(rest, '&') == head);
                assert(detailed_parameter(rest) == Some(head));
            }
            return reads(&q, value_from, value_end, &yes);
        }
        proof {
            if end - start >= 9 {
                assert(head.take(9) =~= all.subrange(start as int, start + 9));
            }
            assert(!starts_with(head, "detailed="@));
            assert(head_before(rest, '&') == head);
        }
        if end == q.len() {
            proof {
                assert(tail_behind(rest, '&') is None);
                assert(detailed_parameter(rest) is None);
            }
            return false;
        }
        proof {
            assert(rest.skip(end - start + 1) =~= all.skip(end + 1));
            assert(tail_behind(rest, '&') == Some(all.skip(end + 1)));
            assert(detailed_parameter(rest) == detailed_parameter(all.skip(end + 1)));
        }
        start = end + 1;
    }
}

/// How the service rates itself.
#[derive(Debug, Clone, Copy, PartialEq, Eq, Structural)]
pub enum HealthStatus {
    Healthy,
    Degraded,
}

impl HealthStatus {
    /// The rating in words.
    pub open spec fn text(self) -> Seq<char> {
        match self {
            HealthStatus::Healthy => "ok"@,
            HealthStatus::Degraded => "degraded"@,
        }
    }

    /// The rating in words.
    pub fn label(&self) -> (r: String)
        ensures
            r@ == self.text(),
    {
        match self {
            HealthStatus::Healthy => String::from_str("ok"),
            HealthStatus::Degraded => String::from_str("degraded"),
        }
    }

    /// The HTTP status with which the rating is reported: 200 where all is
    /// well, 503 otherwise.
    pub fn status_code(&self) -> (r: u16)
        ensures
            r == match self {
                HealthStatus::Healthy => 200u16,
                HealthStatus::Degraded => 503u16,
            },
    {
        match self {
            HealthStatus::Healthy => 200,
            HealthStatus::Degraded => 503,
        }
    }
}

/// Rates the service: it is degraded where the database does not answer.
pub fn overall_status(database_ok: bool) -> (r: HealthStatus)
    ensures
        r == if database_ok {
            HealthStatus::Healthy
        } else {
            HealthStatus::Degraded
        },
{
    if database_ok {
        HealthStatus::Healthy
    } else {
        HealthStatus::Degraded
    }
}

/// The text of a decimal digit.
pub open spec fn digit_text(d: int) -> Seq<char> {
    if d == 0 {
        "0"@
    } else if d == 1 {
        "1"@
    } else if d == 2 {
        "2"@
    } else if d == 3 {
        "3"@
    } else if d == 4 {
        "4"@
    } else if d == 5 {
        "5"@
    } else if d == 6 {
        "6"@
    } else if d == 7 {
        "7"@
    } else if d == 8 {
        "8"@
    } else {
        "9"@
    }
}

/// A natural number in decimal digits, without leading zeros.
pub open spec fn decimal_text(n: nat) -> Seq<char>
    decreases n,
{
    if n < 10 {
        digit_text(n as int)
    } else {
        decimal_text(n / 10) + digit_text((n % 10) as int)
    }
}

/// An integer in decimal digits, with a minus sign where it is negative.
pub open spec fn integer_text(n: int) -> Seq<char> {
    if n < 0 {
        "-"@ + decimal_text((-n) as nat)
    } else {
        decimal_text(n as nat)
    }
}

/// The quotient of `a` by a positive `b`, rounded toward zero.
pub open spec fn quotient(a: int, b: int) -> int {
    if a >= 0 {
        a / b
    } else {
        -((-a) / b)
    }
}

/// What is left of `a` over its quotient by `b`; it has the sign of `a`.
pub open spec fn remainder(a: int, b: int) -> int {
    if a >= 0 {
        a % b
    } else {
        -((-a) % b)
    }
}

/// A number of seconds as days, hours, minutes and seconds, from the
/// largest unit of which there is at least one.
pub open spec fn duration_text(seconds: int) -> Seq<char> {
    let days = quotient(seconds, 86400);
    let hours = quotient(remainder(seconds, 86400), 3600);
    let mins = quotient(remainder(seconds, 3600), 60);
    let secs = remainder(seconds, 60);
    let tail = integer_text(secs) + "s"@;
    if days > 0 {
        integer_text(days) + "d "@ + integer_text(hours) + "h "@ + integer_text(mins) + "m "@ + tail
    } else if hours > 0 {
        integer_text(hours) + "h "@ + integer_text(mins) + "m "@ + tail
    } else if mins > 0 {
        integer_text(mins) + "m "@ + tail
    } else {
        tail
    }
}

/// Appends a natural number in decimal digits.
fn append_decimal(out: &mut String, n: u64)
    ensures
        final(out)@ == old(out)@ + decimal_text(n as nat),
    decreases n,
{
    if n >= 10 {
        append_decimal(out, n / 10);
    }
    let d = n % 10;
    let ghost before = out@;
    if d == 0 {
        out.append("0");
    } else if d == 1 {
        out.append("1");
    } else if d == 2 {
        out.append("2");
    } else if d == 3 {
        out.append("3");
    } else if d == 4 {
        out.append("4");
    } else if d == 5 {
        out.append("5");
    } else if d == 6 {
        out.append("6");
    } else if d == 7 {
        out.append("7");
    } else if d == 8 {
        out.append("8");
    } else {
        out.append("9");
    }
    proof {
        assert(out@ == before + digit_text(d as int));
        if n >= 10 {
            assert(out@ =~= old(out)@ + (decimal_text((n / 10) as nat) + digit_text(d as int)));
        }
    }
}

/// Appends an integer in decimal digits.
fn append_integer(out: &mut String, n: i64)
    ensures
        final(out)@ == old(out)@ + integer_text(n as int),
{
    if n < 0 {
        out.append("-");
        let magnitude: u64 = (-(n + 1)) as u64 + 1;
        append_decimal(out, magnitude);
        proof {
            assert(out@ =~= old(out)@ + ("-"@ + decimal_text((-n) as nat)));
        }
    } else {
        append_decimal(out, n as u64);
    }
}

/// Writes an uptime.
pub fn format_duration(seconds: i64) -> (r: String)
    ensures
        r@ == duration_text(seconds as int),
{
    let days = seconds / 86400;
    let hours = (seconds % 86400) / 3600;
    let mins = (seconds % 3600) / 60;
    let secs = seconds % 60;
    let mut out = String::new();
    if days > 0 {
        append_integer(&mut out, days);
        out.append("d ");
    }
    if days > 0 || hours > 0 {
        append_integer(&mut out, hours);
        out.append("h ");
    }
    if days > 0 || hours > 0 || mins > 0 {
        append_integer(&mut out, mins);
        out.append("m ");
    }
    append_integer(&mut out, secs);
    out.append("s");
    proof {
        assert(out@ =~= duration_text(seconds as int));
    }
    out
}

} // verus!

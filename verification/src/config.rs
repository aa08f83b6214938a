//! The address of the database: how it is put together from the process
//! settings, and how it is shown in logs.

use crate::seqs::{first_index, is_first, is_last, is_least, last_index, least};
use crate::seqs::{lemma_first_index_is, lemma_first_index_none, lemma_last_index_is};
use crate::seqs::{lemma_last_index_none, lemma_least_is, lemma_least_none};
use crate::text::{blank, chars_of, is_blank};
use vstd::prelude::*;
use vstd::string::StringExecFns;

verus! {

/// Whether a byte stays as it is in a percent-encoded text: a letter or a
/// digit of ASCII, or one of `-`, `.`, `_`, `~`.
pub open spec fn is_unreserved(b: u8) -> bool {
    ||| 0x30 <= b <= 0x39
    ||| 0x41 <= b <= 0x5A
    ||| 0x61 <= b <= 0x7A
    ||| b == 0x2D
    ||| b == 0x2E
    ||| b == 0x5F
    ||| b == 0x7E
}

/// The upper-case hexadecimal digit of a number below sixteen.
pub open spec fn upper_hex_digit(n: int) -> char {
    if n < 10 {
        (0x30 + n) as u8 as char
    } else {
        (0x41 + n - 10) as u8 as char
    }
}

/// One byte, percent-encoded.
pub open spec fn percent_encoded_byte(b: u8) -> Seq<char> {
    if is_unreserved(b) {
        seq![b as char]
    } else {
        seq!['%', upper_hex_digit(b as int / 16), upper_hex_digit(b as int % 16)]
    }
}

/// A sequence of bytes, percent-encoded byte by byte.
pub open spec fn percent_encoded_bytes(bytes: Seq<u8>) -> Seq<char>
    decreases bytes.len(),
{
    if bytes.len() == 0 {
        Seq::empty()
    } else {
        percent_encoded_bytes(bytes.drop_last()) + percent_encoded_byte(bytes.last())
    }
}

/// A text, percent-encoded: every byte of its UTF-8 form that is not
/// unreserved becomes `%` and two upper-case hexadecimal digits.
pub open spec fn percent_encoded(s: Seq<char>) -> Seq<char> {
    percent_encoded_bytes(vstd::utf8::encode_utf8(s))
}

/// Trusted: `urlencoding::encode`, made an owned string. It percent-encodes
/// every byte of the text except ASCII letters and digits and `-`, `.`,
/// `_`, `~`.
#[verifier::external_body]
fn url_encode(s: &str) -> (r: String)
    ensures
        r@ == percent_encoded(s@),
{
    urlencoding::encode(s).into_owned()
}

/// The process settings from which the address of the database is made.
/// A setting that the environment does not hold is `None`.
#[derive(Debug, Clone)]
pub struct ConnectionSettings {
    /// A complete address, which takes precedence where it is not blank.
    pub mongodb_uri: Option<String>,
    pub db_host: Option<String>,
    pub db_port: Option<String>,
    pub db_user: Option<String>,
    pub db_pass: Option<String>,
}

pub struct ConnectionSettingsView {
    pub mongodb_uri: Option<Seq<char>>,
    pub db_host: Option<Seq<char>>,
    pub db_port: Option<Seq<char>>,
    pub db_user: Option<Seq<char>>,
    pub db_pass: Option<Seq<char>>,
}

impl View for ConnectionSettings {
    type V = ConnectionSettingsView;

    open spec fn view(&self) -> ConnectionSettingsView {
        ConnectionSettingsView {
            mongodb_uri: crate::types::view_opt(self.mongodb_uri),
            db_host: crate::types::view_opt(self.db_host),
            db_port: crate::types::view_opt(self.db_port),
            db_user: crate::types::view_opt(self.db_user),
            db_pass: crate::types::view_opt(self.db_pass),
        }
    }
}

/// A setting, or its default where the environment does not hold it.
pub open spec fn or_default(setting: Option<Seq<char>>, default: Seq<char>) -> Seq<char> {
    match setting {
        Some(s) => s,
        None => default,
    }
}

impl ConnectionSettingsView {
    /// Whether credentials go into the address: where neither the user
    /// name nor the password is blank.
    pub open spec fn has_credentials(self) -> bool {
        !is_blank(or_default(self.db_user, Seq::empty())) && !is_blank(
            or_default(self.db_pass, Seq::empty()),
        )
    }

    /// The address made of host, port and database name, with the
    /// percent-encoded credentials and the authentication source where
    /// there are credentials.
    pub open spec fn assembled(self, db_name: Seq<char>) -> Seq<char> {
        let host = or_default(self.db_host, "mongo"@);
        let port = or_default(self.db_port, "27017"@);
        let place = host + ":"@ + port + "/"@ + db_name;
        if self.has_credentials() {
            "mongodb://"@ + percent_encoded(or_default(self.db_user, Seq::empty())) + ":"@
                + percent_encoded(or_default(self.db_pass, Seq::empty())) + "@"@ + place
                + "?authSource=admin"@
        } else {
            "mongodb://"@ + place
        }
    }

    /// The address of the database: the complete address where one is set
    /// and not blank, the assembled one otherwise.
    pub open spec fn address(self, db_name: Seq<char>) -> Seq<char> {
        match self.mongodb_uri {
            Some(uri) => if is_blank(uri) {
                self.assembled(db_name)
            } else {
                uri
            },
            None => self.assembled(db_name),
        }
    }
}

/// Appends a setting, or its default, to a text.
fn append_or(out: &mut String, setting: &Option<String>, default: &str)
    ensures
        final(out)@ == old(out)@ + or_default(crate::types::view_opt(*setting), default@),
{
    match setting {
        Some(s) => out.append(s.as_str()),
        None => out.append(default),
    }
}

/// Whether a setting is absent or blank.
fn blank_setting(setting: &Option<String>) -> (r: bool)
    ensures
        r == is_blank(or_default(crate::types::view_opt(*setting), Seq::empty())),
{
    match setting {
        Some(s) => blank(s.as_str()),
        None => true,
    }
}

/// Puts the address of the database together.
pub fn build_mongodb_connection_string(settings: &ConnectionSettings, db_name: &str) -> (r: String)
    ensures
        r@ == settings@.address(db_name@),
{
    match &settings.mongodb_uri {
        Some(uri) => {
            if !blank(uri.as_str()) {
                return uri.clone();
            }
        },
        None => {},
    }
    let with_credentials = !blank_setting(&settings.db_user) && !blank_setting(&settings.db_pass);
    let mut uri = String::from_str("mongodb://");
    if with_credentials {
        let user = match &settings.db_user {
            Some(s) => url_encode(s.as_str()),
            None => url_encode(""),
        };
        let pass = match &settings.db_pass {
            Some(s) => url_encode(s.as_str()),
            None => url_encode(""),
        };
        uri.append(user.as_str());
        uri.append(":");
        uri.append(pass.as_str());
        uri.append("@");
    }
    let ghost head = uri@;
    append_or(&mut uri, &settings.db_host, "mongo");
    uri.append(":");
    append_or(&mut uri, &settings.db_port, "27017");
    uri.append("/");
    uri.append(db_name);
    if with_credentials {
        uri.append("?authSource=admin");
    }
    proof {
        let view = settings@;
        let host = or_default(view.db_host, "mongo"@);
        let port = or_default(view.db_port, "27017"@);
        let place = host + ":"@ + port + "/"@ + db_name@;
        if with_credentials {
            assert(uri@ =~= head + place + "?authSource=admin"@);
            assert(uri@ =~= view.assembled(db_name@));
        } else {
            assert(uri@ =~= "mongodb://"@ + place);
        }
    }
    uri
}

/// Whether the three characters of `s` from position `i` on are `://`.
pub open spec fn scheme_mark_at(s: Seq<char>, i: int) -> bool {
    0 <= i && i + 3 <= s.len() && s[i] == ':' && s[i + 1] == '/' && s[i + 2] == '/'
}

/// The address with its password masked. The password stands between the
/// last colon before the first `@` and that `@`; it is masked where that
/// colon stands behind the end of the first `://`. An address without
/// such a password is shown as it is.
pub open spec fn masked(s: Seq<char>) -> Seq<char> {
    match first_index(s, |c: char| c == '@') {
        None => s,
        Some(at) => match last_index(s.take(at), |c: char| c == ':') {
            None => s,
            Some(colon) => match least(s.len() as int, |i: int| scheme_mark_at(s, i)) {
                None => s,
                Some(mark) => if colon > mark + 3 {
                    s.take(colon + 1) + "****"@ + s.skip(at)
                } else {
                    s
                },
            },
        },
    }
}

/// Masks the password of an address for logging.
pub fn mask_password(connection_string: &str) -> (r: String)
    ensures
        r@ == masked(connection_string@),
{
    let chars = chars_of(connection_string);
    let ghost s = connection_string@;
    let n = chars.len();
    let ghost is_at = |c: char| c == '@';
    let mut at: usize = 0;
    while at < n && chars[at] != '@'
        invariant
            at <= n,
            n == chars.len(),
            chars@ == s,
            is_at == |c: char| c == '@',
            forall|j: int| 0 <= j < at ==> !#[trigger] is_at(s[j]),
        decreases n - at,
    {
        at += 1;
    }
    if at == n {
        proof {
            lemma_first_index_none(s, is_at);
        }
        return String::from_str(connection_string);
    }
    proof {
        assert(is_at(s[at as int]));
        assert(is_first(s, is_at, at as int));
        lemma_first_index_is(s, is_at, at as int);
    }
    let ghost is_colon = |c: char| c == ':';
    let ghost head = s.take(at as int);
    let mut after_colon: usize = at;
    while after_colon > 0 && chars[after_colon - 1] != ':'
        invariant
            after_colon <= at < n,
            n == chars.len(),
            chars@ == s,
            head == s.take(at as int),
            is_colon == |c: char| c == ':',
            forall|j: int| after_colon <= j < at ==> !#[trigger] is_colon(head[j]),
        decreases after_colon,
    {
        after_colon -= 1;
    }
    if after_colon == 0 {
        proof {
            lemma_last_index_none(head, is_colon);
        }
        return String::from_str(connection_string);
    }
    let colon = after_colon - 1;
    proof {
        assert(is_colon(head[colon as int]));
        assert(is_last(head, is_colon, colon as int));
        lemma_last_index_is(head, is_colon, colon as int);
    }
    let ghost is_mark = |i: int| scheme_mark_at(s, i);
    let mut mark: usize = 0;
    while mark < n && !(n - mark >= 3 && chars[mark] == ':' && chars[mark + 1] == '/' && chars[mark
        + 2] == '/')
        invariant
            mark <= n,
            n == chars.len(),
            chars@ == s,
            is_mark == |i: int| scheme_mark_at(s, i),
            forall|j: int| 0 <= j < mark ==> !#[trigger] is_mark(j),
        decreases n - mark,
    {
        mark += 1;
    }
    if mark == n {
        proof {
            lemma_least_none(n as int, is_mark);
        }
        return String::from_str(connection_string);
    }
    proof {
        assert(is_mark(mark as int));
        assert(is_least(n as int, is_mark, mark as int));
        lemma_least_is(n as int, is_mark, mark as int);
    }
    if colon > mark + 3 {
        let mut out = String::from_str(connection_string.substring_char(0, colon + 1));
        out.append("****");
        out.append(connection_string.substring_char(at, n));
        proof {
            assert(s.subrange(0, colon as int + 1) =~= s.take(colon as int + 1));
            assert(s.subrange(at as int, n as int) =~= s.skip(at as int));
        }
        out
    } else {
        String::from_str(connection_string)
    }
}

} // verus!

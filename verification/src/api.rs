//! The pure half of the remote directory and registration boundary: code
//! derivation from canonical hostnames and classification of the
//! registration reply.  The network calls themselves live outside the
//! library and hand their payloads in as plain strings.
use vstd::prelude::*;
use vstd::string::*;

use crate::text::{match_at, matches_at};

verus! {

/// The stable endpoint code: the canonical hostname with its fixed suffix
/// stripped when present.
pub open spec fn code_of_hostname(h: Seq<char>) -> Seq<char> {
    if h.len() >= 10 && match_at(h, "-wireguard"@, h.len() - 10) {
        h.take(h.len() - 10)
    } else {
        h
    }
}

/// Derives the endpoint code from a canonical hostname.
pub fn code_from_hostname(hostname: &str) -> (r: String)
    ensures
        r@ == code_of_hostname(hostname@),
{
    let n = hostname.unicode_len();
    if n >= 10 && matches_at(hostname, "-wireguard", n - 10) {
        proof {
            reveal_strlit("-wireguard");
        }
        hostname.substring_char(0, n - 10).to_owned()
    } else {
        proof {
            reveal_strlit("-wireguard");
        }
        hostname.to_owned()
    }
}

/// A character the registration endpoint may use in an address assignment:
/// a hexadecimal digit or one of `:`, `/`, `.`, `,`.
pub open spec fn is_addr_char(c: char) -> bool {
    ('0' <= c && c <= '9') || ('a' <= c && c <= 'f') || ('A' <= c && c <= 'F') || c == ':' || c
        == '/' || c == '.' || c == ','
}

/// Every character of `s` fits the address-assignment charset.
pub open spec fn addr_charset_ok(s: Seq<char>) -> bool {
    forall|i: int| 0 <= i < s.len() ==> is_addr_char(s[i])
}

fn is_addr_char_exec(c: char) -> (r: bool)
    ensures
        r == is_addr_char(c),
{
    ('0' <= c && c <= '9') || ('a' <= c && c <= 'f') || ('A' <= c && c <= 'F') || c == ':' || c
        == '/' || c == '.' || c == ','
}

/// Classifies the registration reply: an address assignment drawn from the
/// restricted charset is handed back as the assignment, anything else is an
/// error payload.
pub fn parse_register_response(text: &str) -> (r: Result<String, String>)
    ensures
        match r {
            Ok(addr) => addr_charset_ok(text@) && addr@ == text@,
            Err(msg) => !addr_charset_ok(text@) && msg@ == "Mullvad API error: "@ + text@,
        },
{
    let n = text.unicode_len();
    let mut ok = true;
    let mut i: usize = 0;
    while i < n
        invariant
            i <= n,
            n == text@.len(),
            ok == forall|j: int| 0 <= j < i ==> is_addr_char(text@[j]),
        decreases n - i,
    {
        if !is_addr_char_exec(text.get_char(i)) {
            ok = false;
            proof {
                assert(!is_addr_char(text@[i as int]));
            }
        }
        i = i + 1;
    }
    if ok {
        Ok(text.to_owned())
    } else {
        Err(String::from_str("Mullvad API error: ").concat(text))
    }
}

} // verus!

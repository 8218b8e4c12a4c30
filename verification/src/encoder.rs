//! The response encoder: turns a resolved address into a plain-text or a
//! JSON response, each with its status code. Both routes answer 200; the
//! JSON route too, deliberately — answering "Created" to a pure read has no
//! justification, so it is not done here.

use vstd::prelude::*;
use vstd::string::{StrSliceExecFns, StringExecFns};
use crate::addr::IpAddress;
use crate::text::{best_run_start, groups_str, hex_char, ip_text, ip_text_spec, ipv6_str, run_len_at};

verus! {

/// One encoded response: a status code and a body.
#[derive(Debug)]
pub struct HttpResponse {
    pub status: u16,
    pub body: String,
}

/// The characters before the address in the JSON body: `{"ip":"`.
pub open spec fn json_open() -> Seq<char> {
    seq!['{', '"', 'i', 'p', '"', ':', '"']
}

/// The characters after the address in the JSON body: `"}`.
pub open spec fn json_close() -> Seq<char> {
    seq!['"', '}']
}

/// The JSON body for an address: one object with the one key `ip`, whose
/// value is the canonical string form of the address.
pub open spec fn json_body_spec(ip: IpAddress) -> Seq<char> {
    json_open() + ip_text_spec(ip) + json_close()
}

/// A character that stands for itself inside a JSON string: neither the
/// closing quote nor the escape character.
pub open spec fn unescaped_char(c: char) -> bool {
    c != '"' && c != '\\'
}

/// Every character stands for itself inside a JSON string.
pub open spec fn unescaped_seq(s: Seq<char>) -> bool {
    forall|k: int| 0 <= k < s.len() ==> unescaped_char(s[k])
}

/// What a JSON body of this service decodes to: the address string, when
/// the body is the one object `{"ip":"..."}` with an escape-free value.
pub open spec fn json_decode_spec(s: Seq<char>) -> Option<Seq<char>> {
    if s.len() >= 9 && s.subrange(0, 7) == json_open() && s.subrange(
        s.len() - 2,
        s.len() as int,
    ) == json_close() && unescaped_seq(s.subrange(7, s.len() - 2)) {
        Some(s.subrange(7, s.len() - 2))
    } else {
        None
    }
}

/// Encode the plain-text response: status 200, body the canonical string
/// form of the address, nothing more.
pub fn encode_text(ip: &IpAddress) -> (r: HttpResponse)
    ensures
        r.status == 200,
        r.body@ == ip_text_spec(*ip),
{
    HttpResponse { status: 200, body: ip_text(ip) }
}

/// Encode the JSON response: status 200, body `{"ip":"..."}` with the
/// canonical string form of the address as the one value.
pub fn encode_json(ip: &IpAddress) -> (r: HttpResponse)
    ensures
        r.status == 200,
        r.body@ == json_body_spec(*ip),
{
    let mut s = String::new();
    s.append("{\"ip\":\"");
    let t = ip_text(ip);
    s.append(t.as_str());
    s.append("\"}");
    proof {
        reveal_strlit("{\"ip\":\"");
        reveal_strlit("\"}");
        assert(("{\"ip\":\"")@ =~= json_open());
        assert(("\"}")@ =~= json_close());
        assert(s@ =~= json_body_spec(*ip));
    }
    HttpResponse { status: 200, body: s }
}

/// Decode a JSON body of this service back to the address string. Returns
/// the value of the one `ip` key when the body has exactly the shape the
/// JSON encoder produces, and nothing otherwise.
pub fn decode_json_ip(body: &str) -> (r: Option<String>)
    ensures
        match r {
            Some(v) => json_decode_spec(body@) == Some(v@),
            None => json_decode_spec(body@) is None,
        },
{
    proof {
        reveal_strlit("{\"ip\":\"");
    }
    let n = body.unicode_len();
    if n < 9 {
        return None;
    }
    let open = "{\"ip\":\"";
    proof {
        assert(open@ =~= json_open());
    }
    let mut k: usize = 0;
    while k < 7
        invariant
            k <= 7,
            n == body@.len(),
            n >= 9,
            open@ == json_open(),
            forall|m: int| 0 <= m < k ==> body@[m] == json_open()[m],
        decreases 7 - k,
    {
        if body.get_char(k) != open.get_char(k) {
            proof {
                assert(body@.subrange(0, 7)[k as int] != json_open()[k as int]);
            }
            return None;
        }
        k = k + 1;
    }
    if body.get_char(n - 2) != '"' {
        proof {
            assert(body@.subrange(n - 2, n as int)[0] != json_close()[0]);
        }
        return None;
    }
    if body.get_char(n - 1) != '}' {
        proof {
            assert(body@.subrange(n - 2, n as int)[1] != json_close()[1]);
        }
        return None;
    }
    let mut k: usize = 7;
    while k < n - 2
        invariant
            7 <= k <= n - 2,
            n == body@.len(),
            n >= 9,
            forall|m: int| 0 <= m < 7 ==> body@[m] == json_open()[m],
            body@[n - 2] == '"',
            body@[n - 1] == '}',
            forall|m: int| 7 <= m < k ==> unescaped_char(body@[m]),
        decreases n - k,
    {
        let c = body.get_char(k);
        if c == '"' || c == '\\' {
            proof {
                assert(!unescaped_char(body@.subrange(7, n - 2)[k - 7]));
            }
            return None;
        }
        k = k + 1;
    }
    let mid = body.substring_char(7, n - 2);
    proof {
        assert(body@.subrange(0, 7) =~= json_open());
        assert(body@.subrange(n - 2, n as int) =~= json_close());
        assert forall|m: int| 0 <= m < body@.subrange(7, n - 2).len() implies unescaped_char(
            #[trigger] body@.subrange(7, n - 2)[m],
        ) by {
            assert(body@.subrange(7, n - 2)[m] == body@[m + 7]);
        }
    }
    Some(mid.to_owned())
}

/// Every character of the joined groups stands for itself in a JSON
/// string: a group's hex form holds only digits, lowercase letters and
/// colons.
pub proof fn lemma_groups_unescaped(s: Seq<u16>, i: int, j: int)
    ensures
        unescaped_seq(groups_str(s, i, j)),
    decreases j - i,
{
    assert forall|d: int| unescaped_char(hex_char(d)) by {}
    if i >= j {
    } else if i + 1 == j {
    } else {
        lemma_groups_unescaped(s, i + 1, j);
        assert(unescaped_seq(groups_str(s, i, j)));
    }
}

/// Every character of the canonical string form of an address stands for
/// itself inside a JSON string: the form holds only digits, lowercase hex
/// letters, dots and colons.
pub proof fn lemma_ip_text_unescaped(ip: IpAddress)
    ensures
        unescaped_seq(ip_text_spec(ip)),
{
    assert forall|d: int| unescaped_char(hex_char(d)) by {}
    match ip {
        IpAddress::V4(a, b, c, d) => {
            assert(unescaped_seq(ip_text_spec(ip)));
        },
        IpAddress::V6(g) => {
            let s = g@;
            let b = best_run_start(s, 0);
            let e = run_len_at(s, b);
            lemma_groups_unescaped(s, 0, s.len() as int);
            lemma_groups_unescaped(s, 0, b);
            lemma_groups_unescaped(s, b + e, s.len() as int);
            assert(unescaped_seq(ipv6_str(s)));
        },
    }
}

/// Decoding the JSON body of an address yields exactly its canonical
/// string form: the body round-trips.
pub proof fn lemma_json_round_trip(ip: IpAddress)
    ensures
        json_decode_spec(json_body_spec(ip)) == Some(ip_text_spec(ip)),
{
    let t = ip_text_spec(ip);
    let s = json_body_spec(ip);
    lemma_ip_text_unescaped(ip);
    assert(s.len() == t.len() + 9);
    assert(s.subrange(0, 7) =~= json_open());
    assert(s.subrange(s.len() - 2, s.len() as int) =~= json_close());
    assert(s.subrange(7, s.len() - 2) =~= t);
}

} // verus!

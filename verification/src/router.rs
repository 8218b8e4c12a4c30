//! The router: dispatches one request, by its path, to the resolver and
//! the right encoder. `/` answers the plain-text form, `/json` the JSON
//! form, anything else a 404 with an empty body.

use vstd::prelude::*;
use vstd::string::StrSliceExecFns;
use crate::addr::PeerAddress;
use crate::encoder::{
    encode_json, encode_text, json_body_spec, json_decode_spec, lemma_json_round_trip,
    HttpResponse,
};
use crate::resolver::{resolve, resolve_spec, Policy, RequestHeaders};
use crate::text::ip_text_spec;

verus! {

/// Character-for-character string equality.
fn str_eq(a: &str, b: &str) -> (r: bool)
    ensures
        r == (a@ == b@),
{
    let na = a.unicode_len();
    let nb = b.unicode_len();
    if na != nb {
        return false;
    }
    let mut k: usize = 0;
    while k < na
        invariant
            k <= na,
            na == a@.len(),
            na == b@.len(),
            forall|m: int| 0 <= m < k ==> a@[m] == b@[m],
        decreases na - k,
    {
        if a.get_char(k) != b.get_char(k) {
            return false;
        }
        k = k + 1;
    }
    proof {
        assert(a@ =~= b@);
    }
    true
}

/// Serve one request: extract nothing, decide everything. The path picks
/// the route, the resolver picks the address, the encoder builds the
/// response; an unknown path gets a 404 with an empty body.
pub fn handle_request(
    policy: Policy,
    path: &str,
    headers: &RequestHeaders,
    peer: &PeerAddress,
) -> (r: HttpResponse)
    ensures
        path@ == "/"@ ==> r.status == 200 && r.body@ == ip_text_spec(
            resolve_spec(policy, headers@, *peer),
        ),
        path@ == "/json"@ ==> r.status == 200 && r.body@ == json_body_spec(
            resolve_spec(policy, headers@, *peer),
        ),
        path@ != "/"@ && path@ != "/json"@ ==> r.status == 404 && r.body@ == Seq::<char>::empty(),
{
    proof {
        reveal_strlit("/");
        reveal_strlit("/json");
        assert(("/")@.len() == 1);
        assert(("/json")@.len() == 5);
        assert(("/")@ != ("/json")@);
    }
    if str_eq(path, "/") {
        let ip = resolve(policy, headers, peer);
        encode_text(&ip)
    } else if str_eq(path, "/json") {
        let ip = resolve(policy, headers, peer);
        encode_json(&ip)
    } else {
        HttpResponse { status: 404, body: String::new() }
    }
}

/// The two routes agree: for one and the same request context, decoding
/// the JSON route's body yields exactly the text route's body.
pub proof fn lemma_routes_agree(
    policy: Policy,
    headers: Seq<(String, String)>,
    peer: PeerAddress,
)
    ensures
        json_decode_spec(json_body_spec(resolve_spec(policy, headers, peer))) == Some(
            ip_text_spec(resolve_spec(policy, headers, peer)),
        ),
{
    lemma_json_round_trip(resolve_spec(policy, headers, peer));
}

} // verus!

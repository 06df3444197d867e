//! The signed-in account: the display name and plan that the client's
//! identity token claims, read in memory without keeping the token.

use vstd::prelude::*;
use vstd::utf8::encode_utf8;
use crate::candidate::{AdapterResult, DiagnosticIssue, FieldCandidate};
use crate::json::{json_parses, json_text, parse_json, text_at};
use crate::text::{from_chars, pieces, split_pieces, to_chars};
use crate::time::Timestamp;
use base64::Engine;

verus! {

/// The account's display name and plan, where the token claims them.
#[derive(Clone, Debug)]
pub struct AuthCandidates {
    pub username: Option<FieldCandidate<String>>,
    pub subscription: Option<FieldCandidate<String>>,
}

/// The bytes that unpadded URL-safe Base64 decodes the text to (the `base64`
/// crate's `URL_SAFE_NO_PAD` engine), or `None` where it refuses the text.
pub uninterp spec fn base64url_decoded(text: Seq<u8>) -> Option<Seq<u8>>;

/// `base64::engine::general_purpose::URL_SAFE_NO_PAD.decode`, with the error dropped.
#[verifier::external_body]
fn decode_base64url(text: &[u8]) -> (r: Option<Vec<u8>>)
    ensures
        match base64url_decoded(text@) {
            Some(b) => r matches Some(v) && v@ == b,
            None => r is None,
        },
{
    base64::engine::general_purpose::URL_SAFE_NO_PAD.decode(text).ok()
}

/// The pointer to the plan claim ("https://api.openai.com/auth/chatgpt_plan_type").
pub open spec fn plan_claim() -> Seq<char> {
    "/https:~1~1api.openai.com~1auth~1chatgpt_plan_type"@
}

/// The claims of the identity token in `auth.json`, as JSON bytes; or the
/// issue code that stops reading them: no file, the file is not JSON, it has
/// no identity token, or the token has no payload that decodes to JSON.
pub open spec fn token_claims(content: Option<Seq<char>>) -> Result<Seq<u8>, Seq<char>> {
    match content {
        None => Err("auth-file-missing"@),
        Some(c) => {
            let b = encode_utf8(c);
            if !json_parses(b) {
                Err("auth-json-invalid"@)
            } else {
                match json_text(b, "/tokens/id_token"@) {
                    None => Err("auth-token-missing"@),
                    Some(token) => {
                        let parts = pieces(token, '.');
                        if parts.len() < 2 {
                            Err("auth-token-invalid"@)
                        } else {
                            match base64url_decoded(encode_utf8(parts[1])) {
                                Some(claims) => if json_parses(claims) {
                                    Ok(claims)
                                } else {
                                    Err("auth-token-invalid"@)
                                },
                                None => Err("auth-token-invalid"@),
                            }
                        }
                    },
                }
            }
        },
    }
}

/// The display name that the claims give: "name", else "email".
pub open spec fn claimed_name(claims: Seq<u8>) -> Option<Seq<char>> {
    if json_text(claims, "/name"@) is Some {
        json_text(claims, "/name"@)
    } else {
        json_text(claims, "/email"@)
    }
}

/// Whether the slot holds exactly the claimed value, from "auth", observed at
/// `at`, with the given confidence; or nothing where nothing is claimed.
pub open spec fn holds_claim(slot: Option<FieldCandidate<String>>, claim: Option<Seq<char>>, at: Timestamp, confidence: u16) -> bool {
    match claim {
        None => slot is None,
        Some(v) => slot matches Some(c) && c.value@ == v && c.source@ == "auth"@
            && c.observed_at == at && c.confidence == confidence,
    }
}

/// Reads the account from the contents of `auth.json` (`None` where it could
/// not be read), observed at `observed_at`: the claimed name (confidence 0.90)
/// and plan (0.80); or, where the claims cannot be read, no value and one
/// issue with its code and the source "auth.json" (never any part of the token).
pub fn auth_candidates_from(content: Option<&str>, observed_at: Timestamp) -> (r: AdapterResult<AuthCandidates>)
    ensures
        match token_claims(match content {
            Some(c) => Some(c@),
            None => None,
        }) {
            Err(code) => {
                &&& r.value.username is None
                &&& r.value.subscription is None
                &&& r.issues@.len() == 1
                &&& r.issues@[0].code@ == code
                &&& r.issues@[0].source@ == "auth.json"@
            },
            Ok(claims) => {
                &&& r.issues@.len() == 0
                &&& holds_claim(r.value.username, claimed_name(claims), observed_at, 900)
                &&& holds_claim(r.value.subscription, json_text(claims, plan_claim()), observed_at, 800)
            },
        },
{
    let mut result = AdapterResult::new(AuthCandidates { username: None, subscription: None });
    let content = match content {
        Some(c) => c,
        None => {
            result.issues.push(DiagnosticIssue::new("auth-file-missing", "auth.json"));
            return result;
        },
    };
    let doc = match parse_json(content.as_bytes()) {
        Some(d) => d,
        None => {
            result.issues.push(DiagnosticIssue::new("auth-json-invalid", "auth.json"));
            return result;
        },
    };
    let token = match text_at(&doc, "/tokens/id_token") {
        Some(t) => t,
        None => {
            result.issues.push(DiagnosticIssue::new("auth-token-missing", "auth.json"));
            return result;
        },
    };
    let parts = split_pieces(&to_chars(token.as_str()), '.');
    let ghost pv = parts@.map_values(|l: Vec<char>| l@);
    if parts.len() < 2 {
        result.issues.push(DiagnosticIssue::new("auth-token-invalid", "auth.json"));
        return result;
    }
    assert(pv[1] == parts@[1]@);
    let payload = from_chars(&parts[1]);
    let claims = match decode_base64url(payload.as_str().as_bytes()) {
        Some(bytes) => match parse_json(bytes.as_slice()) {
            Some(d) => d,
            None => {
                result.issues.push(DiagnosticIssue::new("auth-token-invalid", "auth.json"));
                return result;
            },
        },
        None => {
            result.issues.push(DiagnosticIssue::new("auth-token-invalid", "auth.json"));
            return result;
        },
    };
    let name = match text_at(&claims, "/name") {
        Some(n) => Some(n),
        None => text_at(&claims, "/email"),
    };
    if let Some(v) = name {
        result.value.username = Some(FieldCandidate::new(v, "auth", observed_at, 900));
    }
    if let Some(v) = text_at(&claims, "/https:~1~1api.openai.com~1auth~1chatgpt_plan_type") {
        result.value.subscription = Some(FieldCandidate::new(v, "auth", observed_at, 800));
    }
    result
}


/// Whatever `auth.json` holds, the issue that stops reading it carries one of
/// four fixed codes (and, from `auth_candidates_from`, the source
/// "auth.json"): no part of the token or of the file enters the diagnostics.
pub proof fn lemma_auth_issue_codes_are_fixed(content: Option<Seq<char>>)
    ensures
        token_claims(content) matches Err(code) ==> (code == "auth-file-missing"@ || code
            == "auth-json-invalid"@ || code == "auth-token-missing"@ || code == "auth-token-invalid"@),
{
}


/// The display name is the "name" claim wherever the claims hold one as a
/// string, whatever "email" holds; the "email" claim is used only where there
/// is no name.
pub proof fn lemma_name_claim_before_email(claims: Seq<u8>)
    ensures
        json_text(claims, "/name"@) matches Some(n) ==> claimed_name(claims) == Some(n),
        json_text(claims, "/name"@) is None ==> claimed_name(claims) == json_text(claims, "/email"@),
{
}

} // verus!

//! Login outcome classification and captcha-image decoding: the portal
//! protocol's plain-value logic.
use vstd::prelude::*;

use crate::strutil::occurs_at;

verus! {

/// Why a login attempt was rejected.
pub enum LoginError {
    IncorrectCaptcha(String),
    IncorrectLogin(String),
    ErrorCode((String, i32)),
}

/// Classifies the portal's login state code: zero is success, dedicated
/// codes mark a wrong captcha or wrong credentials, and anything else is
/// carried as an unknown error code, each with the portal's message.
pub fn login_result_from_state(state: i32, msg: String) -> (r: Result<(), LoginError>)
    ensures
        (r is Ok) <==> (state == 0),
        match r {
            Ok(u) => state == 0,
            Err(e) => match e {
                LoginError::IncorrectCaptcha(m) => state == 1180038 && m == msg,
                LoginError::IncorrectLogin(m) => (state == 13 || state == 1010076) && m == msg,
                LoginError::ErrorCode((m, c)) => state != 0 && state != 1180038 && state != 13
                    && state != 1010076 && m == msg && c == state,
            },
        },
{
    if state == 0 {
        Ok(())
    } else if state == 1180038 {
        Err(LoginError::IncorrectCaptcha(msg))
    } else if state == 13 || state == 1010076 {
        Err(LoginError::IncorrectLogin(msg))
    } else {
        Err(LoginError::ErrorCode((msg, state)))
    }
}

/// `s` with every leading occurrence of `p` removed, as the captcha
/// data-URL prefix is stripped.
pub open spec fn spec_trim_start(s: Seq<char>, p: Seq<char>) -> Seq<char>
    decreases s.len(),
{
    if 0 < p.len() <= s.len() && s.subrange(0, p.len() as int) == p {
        spec_trim_start(s.skip(p.len() as int), p)
    } else {
        s
    }
}

/// Strips every leading occurrence of `p` from `s`.
pub fn trim_start_matches_str<'a>(s: &'a str, p: &str) -> (r: &'a str)
    ensures
        r@ == spec_trim_start(s@, p@),
{
    let n = s.unicode_len();
    let m = p.unicode_len();
    if m == 0 {
        return s;
    }
    if m > n {
        return s;
    }
    let mut start: usize = 0;
    proof {
        assert(s@.skip(0) =~= s@);
    }
    while start <= n - m
        invariant
            n == s@.len(),
            m == p@.len(),
            1 <= m <= n,
            start <= n,
            spec_trim_start(s@, p@) == spec_trim_start(s@.skip(start as int), p@),
        decreases n - start,
    {
        if occurs_at(s, p, start) {
            proof {
                let tail = s@.skip(start as int);
                assert(tail.subrange(0, m as int) =~= s@.subrange(start as int, start + m));
                assert(tail.skip(m as int) =~= s@.skip(start + m));
            }
            start += m;
        } else {
            proof {
                let tail = s@.skip(start as int);
                if m <= tail.len() {
                    assert(tail.subrange(0, m as int) =~= s@.subrange(start as int, start + m));
                }
                assert(spec_trim_start(tail, p@) == tail);
            }
            let r = s.substring_char(start, n);
            proof {
                assert(r@ =~= s@.skip(start as int));
            }
            return r;
        }
    }
    proof {
        let tail = s@.skip(start as int);
        assert(spec_trim_start(tail, p@) == tail);
    }
    let r = s.substring_char(start, n);
    proof {
        assert(r@ =~= s@.skip(start as int));
    }
    r
}

/// What the standard-alphabet, padded base64 decoding returns: determined
/// by the input characters alone.
pub uninterp spec fn b64_standard_decoded(s: Seq<char>) -> Option<Seq<u8>>;

/// Relies on base64's `Engine::decode` with the `STANDARD` engine: a
/// function of the input alone, `None` exactly on malformed input.
#[verifier::external_body]
fn base64_decode_standard(s: &str) -> (r: Option<Vec<u8>>)
    ensures
        match (r, b64_standard_decoded(s@)) {
            (Option::Some(v), Option::Some(g)) => v@ == g,
            (Option::None, Option::None) => true,
            _ => false,
        },
{
    base64::Engine::decode(&base64::engine::general_purpose::STANDARD, s).ok()
}

/// Decodes the captcha the portal sends as a PNG data URL: strips the
/// leading `data:image/png;base64,` marker and decodes the remainder;
/// `None` when the payload is not valid base64.
pub fn decode_captcha_png(data_url: &str) -> (r: Option<Vec<u8>>)
    ensures
        match (r, b64_standard_decoded(spec_trim_start(data_url@, "data:image/png;base64,"@))) {
            (Option::Some(v), Option::Some(g)) => v@ == g,
            (Option::None, Option::None) => true,
            _ => false,
        },
{
    let stripped = trim_start_matches_str(data_url, "data:image/png;base64,");
    base64_decode_standard(stripped)
}

} // verus!

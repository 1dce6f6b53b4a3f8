//! From a region code to the provider's host and endpoints.
//!
//! Region codes are case-insensitive. `cn` selects the fixed host of the
//! Chinese deployment; every other code is lower-cased and becomes the first
//! label of a `battle.net` host. Codes are not checked against a list: an
//! unknown code gives the address of a host that does not exist.

use vstd::prelude::*;
use vstd::string::*;
use vstd::utf8::*;

verus! {

/// The lower-case form of an ASCII character: `A` to `Z` map to `a` to `z`,
/// every other character stays.
pub open spec fn lower_ascii_char(c: char) -> char {
    if 'A' <= c && c <= 'Z' {
        ((c as u8) + 32) as char
    } else {
        c
    }
}

/// An ASCII text with each character in its lower-case form.
pub open spec fn lower_ascii(s: Seq<char>) -> Seq<char> {
    Seq::new(s.len(), |i: int| lower_ascii_char(s[i]))
}

/// The lower-case form that the standard library gives a text that is not
/// all ASCII.
pub uninterp spec fn unicode_lowercase(s: Seq<char>) -> Seq<char>;

/// The lower-case form of a region code.
pub open spec fn lowercase(s: Seq<char>) -> Seq<char> {
    if is_ascii_chars(s) {
        lower_ascii(s)
    } else {
        unicode_lowercase(s)
    }
}

/// The host that serves the region of a code in lower case: the fixed
/// Chinese host for `cn`, else the code before `.battle.net`.
pub open spec fn code_host(code: Seq<char>) -> Seq<char> {
    if code == "cn"@ {
        "www.battlenet.com.cn"@
    } else {
        code + ".battle.net"@
    }
}

/// The host that serves a region.
pub open spec fn region_host(region: Seq<char>) -> Seq<char> {
    code_host(lowercase(region))
}

/// The address of the token endpoint of a region.
pub open spec fn token_endpoint_of(region: Seq<char>) -> Seq<char> {
    "https://"@ + region_host(region) + "/oauth/token"@
}

/// The address of the introspection endpoint of a region.
pub open spec fn check_token_endpoint_of(region: Seq<char>) -> Seq<char> {
    "https://"@ + region_host(region) + "/oauth/check_token"@
}

/// `str::to_lowercase`, the Unicode lower-casing of the standard library.
#[verifier::external_body]
fn to_unicode_lowercase(s: &str) -> (r: String)
    ensures
        r@ == unicode_lowercase(s@),
{
    s.to_lowercase()
}

/// Lower-cases an ASCII text.
fn to_lower_ascii(s: &str) -> (r: String)
    requires
        is_ascii_chars(s@),
    ensures
        r@ == lower_ascii(s@),
{
    let bytes = s.as_bytes();
    proof {
        is_ascii_chars_encode_utf8(s@);
    }
    let mut out = String::new();
    let mut i: usize = 0;
    while i < bytes.len()
        invariant
            i <= bytes.len(),
            is_ascii_chars(s@),
            bytes@.len() == s@.len(),
            forall|k: int| 0 <= k < s@.len() ==> bytes@[k] == s@[k] as u8,
            out@ == lower_ascii(s@.subrange(0, i as int)),
        decreases bytes.len() - i,
    {
        let b: u8 = bytes[i];
        let c: char = if 65 <= b && b <= 90 {
            (b + 32) as char
        } else {
            b as char
        };
        out.push(c);
        i = i + 1;
    }
    out
}

/// Lower-cases a region code: ASCII text here, any other through the
/// standard library.
pub fn to_lowercase(s: &str) -> (r: String)
    ensures
        r@ == lowercase(s@),
{
    if s.is_ascii() {
        to_lower_ascii(s)
    } else {
        to_unicode_lowercase(s)
    }
}

/// Returns the host that serves the region of a code in lower case.
pub fn host_for_code(code: String) -> (host: String)
    ensures
        host@ == code_host(code@),
{
    if code == String::from_str("cn") {
        String::from_str("www.battlenet.com.cn")
    } else {
        code.concat(".battle.net")
    }
}

/// Returns the host that serves `region`: the fixed Chinese host when the
/// lower-cased code is `cn`, else the lower-cased code before `.battle.net`.
pub fn host_for_region(region: &str) -> (host: String)
    ensures
        host@ == region_host(region@),
{
    host_for_code(to_lowercase(region))
}

/// Returns the address of the token endpoint of `region`.
pub fn token_endpoint(region: &str) -> (url: String)
    ensures
        url@ == token_endpoint_of(region@),
{
    let host = host_for_region(region);
    String::from_str("https://").concat(host.as_str()).concat("/oauth/token")
}

/// Returns the address of the introspection endpoint of `region`.
pub fn check_token_endpoint(region: &str) -> (url: String)
    ensures
        url@ == check_token_endpoint_of(region@),
{
    let host = host_for_region(region);
    String::from_str("https://").concat(host.as_str()).concat("/oauth/check_token")
}

/// A region code is `cn` in some mix of upper and lower case.
pub open spec fn is_cn(region: Seq<char>) -> bool {
    &&& region.len() == 2
    &&& region[0] == 'c' || region[0] == 'C'
    &&& region[1] == 'n' || region[1] == 'N'
}

/// `cn` in any mix of upper and lower case selects the Chinese host.
pub proof fn lemma_cn_in_any_case(region: Seq<char>)
    requires
        is_cn(region),
    ensures
        region_host(region) == "www.battlenet.com.cn"@,
{
    reveal_strlit("cn");
    assert(lower_ascii(region) =~= "cn"@);
}

/// Every other region code of ASCII characters selects the host made of
/// the code in lower case and `.battle.net`.
pub proof fn lemma_regional_host(region: Seq<char>)
    requires
        is_ascii_chars(region),
        !is_cn(region),
    ensures
        region_host(region) == lower_ascii(region) + ".battle.net"@,
{
    reveal_strlit("cn");
    if lower_ascii(region) == "cn"@ {
        assert(lower_ascii(region).len() == region.len());
        assert(lower_ascii_char(region[0]) == lower_ascii(region)[0]);
        assert(lower_ascii_char(region[1]) == lower_ascii(region)[1]);
    }
}

} // verus!

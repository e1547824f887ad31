//! Request signing for the dictionary-lookup companion tool: an MD5 digest
//! in lowercase hex, and the six form parameters of one lookup request.
use vstd::prelude::*;

verus! {

/// The lowercase-hex MD5 digest of a string.
pub uninterp spec fn md5_hex(s: Seq<char>) -> Seq<char>;

/// Every character is a lowercase hexadecimal digit.
pub open spec fn is_hex_lower(s: Seq<char>) -> bool {
    forall|i: int|
        0 <= i < s.len() ==> (('0' <= #[trigger] s[i] && s[i] <= '9') || ('a' <= s[i] && s[i]
            <= 'f'))
}

/// Relies on `md5::compute` and the digest's lowercase-hex formatting (two
/// hex digits for each of the sixteen digest bytes): the digest depends on
/// the input characters alone.
#[verifier::external_body]
fn md5_digest(s: &str) -> (r: String)
    ensures
        r@ == md5_hex(s@),
        r@.len() == 32,
        is_hex_lower(r@),
{
    format!("{:x}", md5::compute(s))
}

/// MD5 digest of a string, as 32 lowercase hex characters.
pub fn md5(s: &str) -> (r: String)
    ensures
        r@ == md5_hex(s@),
        r@.len() == 32,
        is_hex_lower(r@),
{
    md5_digest(s)
}

/// The decimal digit character for a value below ten.
pub open spec fn digit_seq(t: int) -> Seq<char> {
    "0123456789"@.subrange(t, t + 1)
}

/// The one-digit time value of a word: the length of the word plus the
/// `webdict` suffix, modulo ten.
pub open spec fn time_digit(w: Seq<char>) -> Seq<char> {
    digit_seq(((w + "webdict"@).len() % 10) as int)
}

/// The request signature of a word: an MD5 over the word, its time digit,
/// a fixed key, and the digest of the word with the `webdict` suffix.
pub open spec fn sign_of(w: Seq<char>) -> Seq<char> {
    md5_hex(
        "web"@ + w + time_digit(w) + "Mk6hqtUp33DGGtoS63tTJbMUYjRrG1Lu"@ + md5_hex(
            w + "webdict"@,
        ),
    )
}

/// The six form parameters of one dictionary lookup.
pub fn sign_param(word: &str) -> (r: [(String, String); 6])
    ensures
        r@.len() == 6,
        r@[0].0@ == "q"@ && r@[0].1@ == word@,
        r@[1].0@ == "le"@ && r@[1].1@ == "en"@,
        r@[2].0@ == "t"@ && r@[2].1@ == time_digit(word@),
        r@[3].0@ == "client"@ && r@[3].1@ == "web"@,
        r@[4].0@ == "keyfrom"@ && r@[4].1@ == "webdict"@,
        r@[5].0@ == "sign"@ && r@[5].1@ == sign_of(word@),
        r@[5].1@.len() == 32 && is_hex_lower(r@[5].1@),
{
    let r_s = String::from_str(word).concat("webdict");
    let time = r_s.as_str().unicode_len() % 10;
    let o = md5(r_s.as_str());
    proof {
        reveal_strlit("0123456789");
    }
    let d = "0123456789".substring_char(time, time + 1);
    let mut n_s = String::from_str("web");
    n_s.append(word);
    n_s.append(d);
    n_s.append("Mk6hqtUp33DGGtoS63tTJbMUYjRrG1Lu");
    n_s.append(o.as_str());
    let sign = md5(n_s.as_str());
    [
        (String::from_str("q"), String::from_str(word)),
        (String::from_str("le"), String::from_str("en")),
        (String::from_str("t"), d.to_owned()),
        (String::from_str("client"), String::from_str("web")),
        (String::from_str("keyfrom"), String::from_str("webdict")),
        (String::from_str("sign"), sign),
    ]
}

} // verus!

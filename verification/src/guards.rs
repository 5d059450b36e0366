//! Internal redirects carried in URLs as Base64-URL text.

use vstd::prelude::*;
use vstd::utf8::{decode_utf8, encode_utf8, valid_utf8};

use crate::text::{has_prefix, owned, starts_with};

verus! {

#[verifier::external_type_specification]
#[verifier::external_body]
pub struct ExDecodeError(base64_url::base64::DecodeError);

/// The Base64-URL text (URL-safe alphabet, no `=` padding) that
/// `base64_url::encode` produces for `bytes`.
pub uninterp spec fn base64_url_text(bytes: Seq<u8>) -> Seq<char>;

/// A character of the URL-safe Base64 alphabet.
pub open spec fn is_base64_url_char(c: char) -> bool {
    ||| ('A' <= c && c <= 'Z')
    ||| ('a' <= c && c <= 'z')
    ||| ('0' <= c && c <= '9')
    ||| c == '-'
    ||| c == '_'
}

/// Trusted: `base64_url::encode`. The crate documents the URL-safe alphabet
/// without padding, which is what the second clause states; the encoding
/// itself is only named.
#[verifier::external_body]
pub(crate) fn encode_base64_url(bytes: &[u8]) -> (res: String)
    ensures
        res@ == base64_url_text(bytes@),
        forall|i: int| 0 <= i < res@.len() ==> is_base64_url_char(#[trigger] res@[i]),
{
    base64_url::encode(bytes)
}

/// Trusted: `base64_url::decode`, which uses the `URL_SAFE_NO_PAD` engine of
/// `base64` (no padding, no trailing bits): it accepts exactly the canonical
/// encodings and gives back the bytes they encode. The error value is
/// opaque.
#[verifier::external_body]
pub(crate) fn decode_base64_url(text: &str) -> (res: Result<Vec<u8>, base64_url::base64::DecodeError>)
    ensures
        res is Ok ==> base64_url_text(res.unwrap()@) == text@,
        forall|b: Seq<u8>| base64_url_text(b) == text@ ==> (res is Ok && res.unwrap()@ == b),
{
    base64_url::decode(text)
}

/// Trusted: `String::from_utf8`, which std documents to fail exactly when
/// the bytes are not valid UTF-8, and otherwise to hold the decoded text.
#[verifier::external_body]
pub(crate) fn string_from_utf8(bytes: Vec<u8>) -> (res: Option<String>)
    ensures
        res is Some <==> valid_utf8(bytes@),
        res matches Some(s) ==> s@ == decode_utf8(bytes@),
{
    String::from_utf8(bytes).ok()
}

/// No [InternalRedirect] was found in request.
#[derive(Debug, PartialEq, Eq, Structural)]
pub enum NoInternalRedirect {
    /// The redirect is to an external resource (does not start with `/`)
    ExternalRedirect,
    /// The query parameter `redirect` was empty
    NoRedirect,
    /// Invalid base64 `redirect` value
    InvalidBase64,
}

/// A redirect to another internal page in the query param `redirect`.
///
/// Cannot represent an external redirect ; it will produce [NoInternalRedirect::ExternalRedirect] instead.
pub struct InternalRedirect(String);

impl View for InternalRedirect {
    type V = Seq<char>;

    closed spec fn view(&self) -> Seq<char> {
        self.0@
    }
}

/// What [`InternalRedirect::from_str`] gives for the text `s`.
pub open spec fn redirect_from_text(s: Seq<char>) -> Result<Seq<char>, NoInternalRedirect> {
    if has_prefix(s, seq!['/']) {
        Ok(s)
    } else {
        Err(NoInternalRedirect::ExternalRedirect)
    }
}

/// What decoding the bytes `b` gives: invalid UTF-8 is an invalid Base64 value.
pub open spec fn redirect_from_bytes(b: Seq<u8>) -> Result<Seq<char>, NoInternalRedirect> {
    if valid_utf8(b) {
        redirect_from_text(decode_utf8(b))
    } else {
        Err(NoInternalRedirect::InvalidBase64)
    }
}

/// The view of a parsing result.
pub open spec fn redirect_result_view(r: Result<InternalRedirect, NoInternalRedirect>) -> Result<Seq<char>, NoInternalRedirect> {
    match r {
        Ok(v) => Ok(v@),
        Err(e) => Err(e),
    }
}

/// The contract of [`InternalRedirect::from_base64`] on the text `s`.
pub open spec fn from_base64_result(s: Seq<char>, res: Result<InternalRedirect, NoInternalRedirect>) -> bool {
    &&& (forall|b: Seq<u8>| base64_url_text(b) == s ==> redirect_result_view(res) == redirect_from_bytes(b))
    &&& (!(exists|b: Seq<u8>| base64_url_text(b) == s) ==> res == Err::<InternalRedirect, NoInternalRedirect>(NoInternalRedirect::InvalidBase64))
}

impl InternalRedirect {
    /// Every internal redirect starts with `/`.
    #[verifier::type_invariant]
    closed spec fn starts_with_slash(self) -> bool {
        has_prefix(self.0@, seq!['/'])
    }

    /// Accepts `s` when it is an internal path (starts with `/`).
    pub fn from_str(s: &str) -> (res: Result<InternalRedirect, NoInternalRedirect>)
        ensures
            redirect_result_view(res) == redirect_from_text(s@),
    {
        if starts_with(s, "/") {
            proof {
                reveal_strlit("/");
                assert("/"@ == seq!['/']);
            }
            Ok(InternalRedirect(owned(s)))
        } else {
            proof {
                reveal_strlit("/");
                assert("/"@ == seq!['/']);
            }
            Err(NoInternalRedirect::ExternalRedirect)
        }
    }

    /// Reads a redirect from its Base64-URL form.
    pub fn from_base64(s: &str) -> (res: Result<InternalRedirect, NoInternalRedirect>)
        ensures
            from_base64_result(s@, res),
    {
        match decode_base64_url(s) {
            Ok(bytes) => {
                let ghost b = bytes@;
                match string_from_utf8(bytes) {
                    Some(text) => {
                        let res = Self::from_str(text.as_str());
                        assert forall|b2: Seq<u8>| base64_url_text(b2) == s@ implies redirect_result_view(res)
                            == redirect_from_bytes(b2) by {
                            assert(b2 == b);
                        }
                        res
                    },
                    None => {
                        assert forall|b2: Seq<u8>| base64_url_text(b2) == s@ implies redirect_result_view(
                            Err::<InternalRedirect, NoInternalRedirect>(NoInternalRedirect::InvalidBase64),
                        ) == redirect_from_bytes(b2) by {
                            assert(b2 == b);
                        }
                        Err(NoInternalRedirect::InvalidBase64)
                    },
                }
            },
            Err(_) => {
                assert(!(exists|b: Seq<u8>| base64_url_text(b) == s@));
                Err(NoInternalRedirect::InvalidBase64)
            },
        }
    }

    /// The Base64-URL form of the redirect's UTF-8 bytes.
    pub fn as_base64(&self) -> (res: String)
        ensures
            res@ == base64_url_text(encode_utf8(self@)),
    {
        encode_base64_url(self.0.as_str().as_bytes())
    }

    /// The redirect path.
    pub fn to_string(&self) -> (res: String)
        ensures
            res@ == self@,
            has_prefix(res@, seq!['/']),
    {
        proof {
            use_type_invariant(self);
        }
        owned(self.0.as_str())
    }
}

/// The Base64-URL `redirect` parameter leading back to the internal page
/// `path` (given without its leading `/`).
pub fn redirect_param(path: &str) -> (res: String)
    ensures
        res@ == base64_url_text(encode_utf8(seq!['/'] + path@)),
{
    proof {
        reveal_strlit("/");
        assert("/"@ == seq!['/']);
    }
    let full = crate::text::concatenated("/", path);
    encode_base64_url(full.as_str().as_bytes())
}

/// Law: the redirect parameter made for a page reads back as that page.
pub proof fn lemma_redirect_param_roundtrip(path: Seq<char>, decoded: Result<InternalRedirect, NoInternalRedirect>)
    requires
        from_base64_result(base64_url_text(encode_utf8(seq!['/'] + path)), decoded),
    ensures
        decoded matches Ok(d) && d@ == seq!['/'] + path,
{
    let full = seq!['/'] + path;
    vstd::utf8::encode_utf8_valid_utf8(full);
    vstd::utf8::encode_utf8_decode_utf8(full);
    assert(full.subrange(0, 1) =~= seq!['/']);
    assert(base64_url_text(encode_utf8(full)) == base64_url_text(encode_utf8(full)));
}

/// Law: the Base64-URL form of a redirect reads back as the same redirect.
/// `decoded` is any result that [`InternalRedirect::from_base64`] may give
/// on the text that [`InternalRedirect::as_base64`] produced for `r`.
pub proof fn lemma_base64_roundtrip(r: InternalRedirect, decoded: Result<InternalRedirect, NoInternalRedirect>)
    requires
        has_prefix(r@, seq!['/']),
        from_base64_result(base64_url_text(encode_utf8(r@)), decoded),
    ensures
        decoded matches Ok(d) && d@ == r@,
{
    vstd::utf8::encode_utf8_valid_utf8(r@);
    vstd::utf8::encode_utf8_decode_utf8(r@);
    let b = encode_utf8(r@);
    assert(base64_url_text(b) == base64_url_text(encode_utf8(r@)));
}

/// Law: the text of a redirect reads back as the same redirect.
pub proof fn lemma_redirect_text_roundtrip(r: InternalRedirect)
    requires
        has_prefix(r@, seq!['/']),
    ensures
        redirect_from_text(r@) == Ok::<Seq<char>, NoInternalRedirect>(r@),
{
}

} // verus!

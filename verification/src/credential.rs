//! Access and secret key pair, and the signatures made with it.

use crate::base64::{encode, is_urlsafe_text, urlsafe_text};
use crate::digest::{hmac_sha1, hmac_sha1_code};
use crate::http::Header;
use crate::signed_headers::{header_lines, make_header_lines, pick_signed_headers, signed_headers};
use crate::string_map::Pairs;
use crate::text::str_equal;
use crate::uri::{split, url_parts};
use vstd::prelude::*;
use vstd::string::*;
use vstd::utf8::encode_utf8;

verus! {

/// The content type whose bodies take part in version 1 signatures.
pub open spec fn form_content_type() -> Seq<char> {
    "application/x-www-form-urlencoded"@
}

/// The URL-safe Base64 text of the HMAC-SHA1 code of `data` under the key
/// `secret_key`.
pub open spec fn digest_text(secret_key: Seq<char>, data: Seq<u8>) -> Seq<char> {
    urlsafe_text(hmac_sha1_code(encode_utf8(secret_key), data))
}

/// The signature of `data`: the access key, a colon, and the digest text.
pub open spec fn signature(access_key: Seq<char>, secret_key: Seq<char>, data: Seq<u8>) -> Seq<
    char,
> {
    access_key + seq![':'] + digest_text(secret_key, data)
}

/// The signature that carries its data: the signature of the Base64 text of
/// `data`, a colon, and that text.
pub open spec fn signature_with_data(
    access_key: Seq<char>,
    secret_key: Seq<char>,
    data: Seq<u8>,
) -> Seq<char> {
    signature(access_key, secret_key, encode_utf8(urlsafe_text(data))) + seq![':']
        + urlsafe_text(data)
}

/// What a version 1 authorization signs: the path, the query behind a `?`
/// when there is one, a line feed, and the body when it is a form.
pub open spec fn canonical_v1(
    path: Seq<char>,
    query: Option<Seq<char>>,
    content_type: Seq<char>,
    body: Seq<u8>,
) -> Seq<u8> {
    let target = match query {
        Some(q) => path + seq!['?'] + q,
        None => path,
    };
    let head = encode_utf8(target + seq!['\n']);
    if content_type == form_content_type() {
        head + body
    } else {
        head
    }
}

/// The content type whose bodies take no part in version 2 signatures.
pub open spec fn binary_content_type() -> Seq<char> {
    "application/octet-stream"@
}

/// What a version 2 authorization signs: the method, a space, the path with
/// the query behind a `?` when there is one, the line `Host: ` with the host,
/// the line `Content-Type: ` with the content type when there is one, the
/// lines of the headers that take part, an empty line, and the body when
/// there is a content type other than that of binary data.
pub open spec fn canonical_v2_with(
    method: Seq<char>,
    host: Seq<char>,
    path: Seq<char>,
    query: Option<Seq<char>>,
    content_type: Seq<char>,
    lines: Seq<char>,
    body: Seq<u8>,
) -> Seq<u8> {
    let target = match query {
        Some(q) => path + seq!['?'] + q,
        None => path,
    };
    let first = method + seq![' '] + target + "\nHost: "@ + host;
    let second = if content_type.len() > 0 {
        first + "\nContent-Type: "@ + content_type
    } else {
        first
    };
    let head = encode_utf8(second + lines + "\n\n"@);
    if content_type.len() > 0 && content_type != binary_content_type() {
        head + body
    } else {
        head
    }
}

/// What a version 2 authorization signs for a request without headers
/// that take part.
pub open spec fn canonical_v2(
    method: Seq<char>,
    host: Seq<char>,
    path: Seq<char>,
    query: Option<Seq<char>>,
    content_type: Seq<char>,
    body: Seq<u8>,
) -> Seq<u8> {
    canonical_v2_with(method, host, path, query, content_type, Seq::empty(), body)
}

/// What a version 2 authorization signs for a request with the given
/// headers: those whose names start with `X-Qiniu-` take part, in the order
/// of their names.
pub open spec fn canonical_v2_of(
    method: Seq<char>,
    host: Seq<char>,
    path: Seq<char>,
    query: Option<Seq<char>>,
    content_type: Seq<char>,
    headers: Pairs,
    body: Seq<u8>,
) -> Seq<u8> {
    canonical_v2_with(
        method,
        host,
        path,
        query,
        content_type,
        header_lines(signed_headers(headers)),
        body,
    )
}

/// An access key with its secret key. Immutable once made.
#[derive(Debug)]
pub struct Credential {
    access_key: String,
    secret_key: String,
}

impl Clone for Credential {
    fn clone(&self) -> (r: Self)
        ensures
            r.spec_access_key() == self.spec_access_key(),
            r.spec_secret_key() == self.spec_secret_key(),
    {
        Credential { access_key: self.access_key.clone(), secret_key: self.secret_key.clone() }
    }
}

impl Credential {
    /// The access key as text.
    pub closed spec fn spec_access_key(&self) -> Seq<char> {
        self.access_key@
    }

    /// The secret key as text.
    pub closed spec fn spec_secret_key(&self) -> Seq<char> {
        self.secret_key@
    }

    /// Pairs an access key with its secret key.
    pub fn new(access_key: &str, secret_key: &str) -> (r: Self)
        ensures
            r.spec_access_key() == access_key@,
            r.spec_secret_key() == secret_key@,
    {
        Credential { access_key: access_key.to_owned(), secret_key: secret_key.to_owned() }
    }

    /// The access key.
    pub fn access_key(&self) -> (r: &str)
        ensures
            r@ == self.spec_access_key(),
    {
        self.access_key.as_str()
    }

    /// The secret key.
    pub fn secret_key(&self) -> (r: &str)
        ensures
            r@ == self.spec_secret_key(),
    {
        self.secret_key.as_str()
    }

    /// The Base64 text of the HMAC-SHA1 code of `data` under the secret key.
    pub fn base64ed_hmac_digest(&self, data: &[u8]) -> (r: String)
        ensures
            r@ == digest_text(self.spec_secret_key(), data@),
            is_urlsafe_text(r@),
    {
        let code = hmac_sha1(self.secret_key.as_str().as_bytes(), data);
        encode(code.as_slice())
    }

    /// Signs `data`.
    pub fn sign(&self, data: &[u8]) -> (r: String)
        ensures
            r@ == signature(self.spec_access_key(), self.spec_secret_key(), data@),
            is_urlsafe_text(digest_text(self.spec_secret_key(), data@)),
    {
        let digest = self.base64ed_hmac_digest(data);
        let mut r = self.access_key.clone();
        proof {
            reveal_strlit(":");
            assert(":"@ =~= seq![':']);
        }
        r.append(":");
        r.append(digest.as_str());
        r
    }

    /// Signs the Base64 text of `data` and appends that text, as upload
    /// tokens need it.
    pub fn sign_with_data(&self, data: &[u8]) -> (r: String)
        ensures
            r@ == signature_with_data(self.spec_access_key(), self.spec_secret_key(), data@),
            is_urlsafe_text(urlsafe_text(data@)),
            is_urlsafe_text(
                digest_text(self.spec_secret_key(), encode_utf8(urlsafe_text(data@))),
            ),
    {
        let encoded = encode(data);
        let mut r = self.sign(encoded.as_str().as_bytes());
        proof {
            reveal_strlit(":");
            assert(":"@ =~= seq![':']);
        }
        r.append(":");
        r.append(encoded.as_str());
        r
    }

    /// The version 1 authorization for a request whose URL has been taken
    /// apart: `QBox `, then the signature of [`canonical_v1`].
    pub fn authorization_v1_for_parts(
        &self,
        path: &str,
        query: Option<&str>,
        content_type: &str,
        body: &[u8],
    ) -> (r: String)
        ensures
            r@ == "QBox "@ + signature(
                self.spec_access_key(),
                self.spec_secret_key(),
                canonical_v1(
                    path@,
                    match query {
                        Some(q) => Some(q@),
                        None => None,
                    },
                    content_type@,
                    body@,
                ),
            ),
    {
        let mut target = path.to_owned();
        proof {
            reveal_strlit("?");
            reveal_strlit("\n");
            assert("?"@ =~= seq!['?']);
            assert("\n"@ =~= seq!['\n']);
        }
        match query {
            Some(q) => {
                target.append("?");
                target.append(q);
            },
            None => {},
        }
        target.append("\n");
        let mut data = target.as_str().as_bytes_vec();
        if str_equal(content_type, "application/x-www-form-urlencoded") {
            let ghost head = data@;
            data.extend_from_slice(body);
            assert(data@ =~= head + body@);
        }
        let signed = self.sign(data.as_slice());
        let mut r = "QBox ".to_owned();
        r.append(signed.as_str());
        r
    }

    fn sign_v2(
        &self,
        method: &str,
        host: &str,
        path: &str,
        query: Option<&str>,
        content_type: &str,
        lines: &str,
        body: &[u8],
    ) -> (r: String)
        ensures
            r@ == "Qiniu "@ + signature(
                self.spec_access_key(),
                self.spec_secret_key(),
                canonical_v2_with(
                    method@,
                    host@,
                    path@,
                    query.deep_view(),
                    content_type@,
                    lines@,
                    body@,
                ),
            ),
    {
        let mut text = method.to_owned();
        proof {
            reveal_strlit("?");
            reveal_strlit(" ");
            assert("?"@ =~= seq!['?']);
            assert(" "@ =~= seq![' ']);
        }
        text.append(" ");
        text.append(path);
        match query {
            Some(q) => {
                text.append("?");
                text.append(q);
                assert(text@ =~= method@ + seq![' '] + (path@ + seq!['?'] + q@));
            },
            None => {},
        }
        text.append("\nHost: ");
        text.append(host);
        let with_type = !content_type.is_empty();
        if with_type {
            text.append("\nContent-Type: ");
            text.append(content_type);
        }
        text.append(lines);
        text.append("\n\n");
        let mut data = text.as_str().as_bytes_vec();
        if with_type && !str_equal(content_type, "application/octet-stream") {
            let ghost head = data@;
            data.extend_from_slice(body);
            assert(data@ =~= head + body@);
        }
        let signed = self.sign(data.as_slice());
        let mut r = "Qiniu ".to_owned();
        r.append(signed.as_str());
        r
    }

    /// The version 2 authorization for a request whose URL has been taken
    /// apart and that has no headers that take part: `Qiniu `, then the
    /// signature of [`canonical_v2`]. An empty content type stands for none.
    pub fn authorization_v2_for_parts(
        &self,
        method: &str,
        host: &str,
        path: &str,
        query: Option<&str>,
        content_type: &str,
        body: &[u8],
    ) -> (r: String)
        ensures
            r@ == "Qiniu "@ + signature(
                self.spec_access_key(),
                self.spec_secret_key(),
                canonical_v2(method@, host@, path@, query.deep_view(), content_type@, body@),
            ),
    {
        proof {
            reveal_strlit("");
            assert(""@ =~= Seq::<char>::empty());
        }
        self.sign_v2(method, host, path, query, content_type, "", body)
    }

    /// The version 2 authorization for a request with the given headers:
    /// `Qiniu `, then the signature of [`canonical_v2_of`].
    pub fn authorization_v2(
        &self,
        method: &str,
        host: &str,
        path: &str,
        query: Option<&str>,
        content_type: &str,
        headers: &Vec<Header>,
        body: &[u8],
    ) -> (r: String)
        ensures
            r@ == "Qiniu "@ + signature(
                self.spec_access_key(),
                self.spec_secret_key(),
                canonical_v2_of(
                    method@,
                    host@,
                    path@,
                    query.deep_view(),
                    content_type@,
                    headers.deep_view(),
                    body@,
                ),
            ),
    {
        let picked = pick_signed_headers(headers);
        let lines = make_header_lines(&picked);
        self.sign_v2(method, host, path, query, content_type, lines.as_str(), body)
    }

    /// The version 1 authorization for a request to `url`; `None` when `url`
    /// is no absolute URL.
    pub fn authorization_v1(&self, url: &str, content_type: &str, body: &[u8]) -> (r: Option<
        String,
    >)
        ensures
            match r {
                Some(text) => url_parts(url@) matches Some(parts) && text@ == "QBox "@
                    + signature(
                    self.spec_access_key(),
                    self.spec_secret_key(),
                    canonical_v1(parts.path, parts.query, content_type@, body@),
                ),
                None => url_parts(url@) is None,
            },
    {
        match split(url) {
            Some(parts) => {
                let query: Option<&str> = match &parts.query {
                    Some(q) => Some(q.as_str()),
                    None => None,
                };
                Some(self.authorization_v1_for_parts(parts.path.as_str(), query, content_type, body))
            },
            None => None,
        }
    }
}

} // verus!

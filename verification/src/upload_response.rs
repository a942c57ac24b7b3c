//! What the service answers to an upload.

use crate::json::{get_string, parse, string_at, text_nodes};
use vstd::prelude::*;
use vstd::string::*;

verus! {

/// The answer to an upload that succeeded: the body as it came, and the
/// object name and content hash where the body is a JSON document that
/// gives them.
#[derive(Debug)]
pub struct UploadResponse {
    key: Option<String>,
    hash: Option<String>,
    body: Vec<u8>,
    is_json: bool,
}

/// The mathematical value of an [`UploadResponse`].
pub struct UploadResponseView {
    pub key: Option<Seq<char>>,
    pub hash: Option<Seq<char>>,
    pub body: Seq<u8>,
    pub is_json: bool,
}

/// What an answer with the body `body` says.
pub open spec fn response_of_body(body: Seq<u8>) -> UploadResponseView {
    match text_nodes(body) {
        Some(nodes) => UploadResponseView {
            key: string_at(nodes, "/key"@),
            hash: string_at(nodes, "/hash"@),
            body,
            is_json: true,
        },
        None => UploadResponseView { key: None, hash: None, body, is_json: false },
    }
}

impl DeepView for UploadResponse {
    type V = UploadResponseView;

    closed spec fn deep_view(&self) -> UploadResponseView {
        UploadResponseView {
            key: self.key.deep_view(),
            hash: self.hash.deep_view(),
            body: self.body@,
            is_json: self.is_json,
        }
    }
}

impl UploadResponse {
    /// Reads the body of an answer. A body that is no JSON document is kept
    /// as it is, for answers that a callback of the uploader's own made.
    pub fn from_body(body: Vec<u8>) -> (r: Self)
        ensures
            r.deep_view() == response_of_body(body@),
    {
        match parse(body.as_slice()) {
            Some(document) => {
                let key = get_string(&document, "/key");
                let hash = get_string(&document, "/hash");
                UploadResponse { key, hash, body, is_json: true }
            },
            None => UploadResponse { key: None, hash: None, body, is_json: false },
        }
    }

    /// The name under which the object was stored, if the answer gives it.
    pub fn key(&self) -> (r: Option<&str>)
        ensures
            r.deep_view() == self.deep_view().key,
    {
        match &self.key {
            Some(key) => Some(key.as_str()),
            None => None,
        }
    }

    /// The hash of the stored content, if the answer gives it.
    pub fn hash(&self) -> (r: Option<&str>)
        ensures
            r.deep_view() == self.deep_view().hash,
    {
        match &self.hash {
            Some(hash) => Some(hash.as_str()),
            None => None,
        }
    }

    /// Whether the body is a JSON document.
    pub fn is_json(&self) -> (r: bool)
        ensures
            r == self.deep_view().is_json,
    {
        self.is_json
    }

    /// The body as it came.
    pub fn as_bytes(&self) -> (r: &[u8])
        ensures
            r@ == self.deep_view().body,
    {
        self.body.as_slice()
    }
}

} // verus!

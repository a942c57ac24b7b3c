//! The paths of the requests that manage objects.

use crate::base64::{encode, urlsafe_text};
use crate::string_map::{Pairs, StringMap};
use vstd::prelude::*;
use vstd::string::*;
use vstd::utf8::encode_utf8;

verus! {

/// The name by which the service knows an object in paths: the bucket, a
/// colon and the key, in URL-safe Base64.
pub open spec fn entry_uri(bucket: Seq<char>, key: Seq<char>) -> Seq<char> {
    urlsafe_text(encode_utf8(bucket + seq![':'] + key))
}

/// Builds the name by which the service knows an object in paths.
pub fn encode_entry_uri(bucket: &str, key: &str) -> (r: String)
    ensures
        r@ == entry_uri(bucket@, key@),
{
    let mut entry = bucket.to_owned();
    proof {
        reveal_strlit(":");
        assert(":"@ =~= seq![':']);
    }
    entry.append(":");
    entry.append(key);
    encode(entry.as_str().as_bytes())
}

/// What can be said as the path of a request.
pub trait ToURI {
    /// The path.
    spec fn uri(&self) -> Seq<char>;

    /// Builds the path.
    fn to_uri(&self) -> (r: String)
        ensures
            r@ == self.uri(),
    ;
}

/// The words `true` and `false`.
pub open spec fn bool_text(value: bool) -> Seq<char> {
    if value {
        "true"@
    } else {
        "false"@
    }
}

/// The metadata of an object in a path: for each pair in order
/// `/x-qn-meta-`, the name, a slash, and the value in URL-safe Base64.
pub open spec fn metadata_text(metadata: Pairs) -> Seq<char>
    decreases metadata.len(),
{
    if metadata.len() == 0 {
        Seq::empty()
    } else {
        metadata_text(metadata.drop_last()) + "/x-qn-meta-"@ + metadata.last().0 + seq!['/']
            + urlsafe_text(encode_utf8(metadata.last().1))
    }
}

fn append_metadata(uri: &mut String, metadata: &StringMap)
    ensures
        final(uri)@ == old(uri)@ + metadata_text(metadata.deep_view()),
{
    let ghost before = uri@;
    let ghost all = metadata.deep_view();
    let mut i: usize = 0;
    proof {
        reveal_strlit("/");
        assert("/"@ =~= seq!['/']);
        assert(all.take(0) =~= Pairs::empty());
        assert(uri@ =~= before + metadata_text(all.take(0)));
    }
    while i < metadata.len()
        invariant
            i <= all.len(),
            all == metadata.deep_view(),
            uri@ == before + metadata_text(all.take(i as int)),
            "/"@ == seq!['/'],
        decreases all.len() - i,
    {
        let entry = metadata.entry(i);
        uri.append("/x-qn-meta-");
        uri.append(entry.name.as_str());
        uri.append("/");
        let value = encode(entry.value.as_str().as_bytes());
        uri.append(value.as_str());
        proof {
            let next = all.take(i + 1);
            assert(next.drop_last() =~= all.take(i as int));
            assert(next.last() == all[i as int]);
            assert(uri@ =~= before + metadata_text(next));
        }
        i += 1;
    }
    assert(all.take(i as int) =~= all);
}

/// Asks what the service knows of an object.
pub struct Stat<'a> {
    entry: &'a str,
}

impl<'a> Stat<'a> {
    /// For the object with the given encoded name.
    pub fn new(entry: &'a str) -> (r: Self)
        ensures
            r.uri() == "/stat/"@ + entry@,
    {
        Stat { entry }
    }
}

impl ToURI for Stat<'_> {
    closed spec fn uri(&self) -> Seq<char> {
        "/stat/"@ + self.entry@
    }

    fn to_uri(&self) -> (r: String) {
        let mut uri = "/stat/".to_owned();
        uri.append(self.entry);
        uri
    }
}

/// Deletes an object.
pub struct Delete<'a> {
    entry: &'a str,
}

impl<'a> Delete<'a> {
    /// For the object with the given encoded name.
    pub fn new(entry: &'a str) -> (r: Self)
        ensures
            r.uri() == "/delete/"@ + entry@,
    {
        Delete { entry }
    }
}

impl ToURI for Delete<'_> {
    closed spec fn uri(&self) -> Seq<char> {
        "/delete/"@ + self.entry@
    }

    fn to_uri(&self) -> (r: String) {
        let mut uri = "/delete/".to_owned();
        uri.append(self.entry);
        uri
    }
}

/// The path of a request that takes an object to another name: the verb,
/// the two encoded names, and whether an object under the other name is
/// replaced.
pub open spec fn transfer_uri(verb: Seq<char>, src: Seq<char>, dest: Seq<char>, force: bool) -> Seq<
    char,
> {
    verb + src + seq!['/'] + dest + "/force/"@ + bool_text(force)
}

fn make_transfer_uri(verb: &str, src: &str, dest: &str, force: bool) -> (r: String)
    ensures
        r@ == transfer_uri(verb@, src@, dest@, force),
{
    let mut uri = verb.to_owned();
    proof {
        reveal_strlit("/");
        assert("/"@ =~= seq!['/']);
    }
    uri.append(src);
    uri.append("/");
    uri.append(dest);
    uri.append("/force/");
    if force {
        uri.append("true");
    } else {
        uri.append("false");
    }
    uri
}

/// Moves an object to another name.
pub struct Move<'a> {
    src: &'a str,
    dest: &'a str,
    force: bool,
}

impl<'a> Move<'a> {
    /// From the object with the encoded name `src` to `dest`.
    pub fn new(src: &'a str, dest: &'a str, force: bool) -> (r: Self)
        ensures
            r.uri() == transfer_uri("/move/"@, src@, dest@, force),
    {
        Move { src, dest, force }
    }
}

impl ToURI for Move<'_> {
    closed spec fn uri(&self) -> Seq<char> {
        transfer_uri("/move/"@, self.src@, self.dest@, self.force)
    }

    fn to_uri(&self) -> (r: String) {
        make_transfer_uri("/move/", self.src, self.dest, self.force)
    }
}

/// Copies an object to another name.
pub struct Copy<'a> {
    src: &'a str,
    dest: &'a str,
    force: bool,
}

impl<'a> Copy<'a> {
    /// From the object with the encoded name `src` to `dest`.
    pub fn new(src: &'a str, dest: &'a str, force: bool) -> (r: Self)
        ensures
            r.uri() == transfer_uri("/copy/"@, src@, dest@, force),
    {
        Copy { src, dest, force }
    }
}

impl ToURI for Copy<'_> {
    closed spec fn uri(&self) -> Seq<char> {
        transfer_uri("/copy/"@, self.src@, self.dest@, self.force)
    }

    fn to_uri(&self) -> (r: String) {
        make_transfer_uri("/copy/", self.src, self.dest, self.force)
    }
}

/// The path of a request that changes the content type and the metadata
/// of an object.
pub open spec fn chgm_uri(entry: Seq<char>, mime_type: Option<Seq<char>>, metadata: Pairs) -> Seq<
    char,
> {
    "/chgm/"@ + entry + (match mime_type {
        Some(mime_type) => "/mime/"@ + urlsafe_text(encode_utf8(mime_type)),
        None => Seq::empty(),
    }) + metadata_text(metadata)
}

/// Changes the content type and the metadata of an object.
pub struct Chgm<'a> {
    entry: &'a str,
    mime_type: Option<&'a str>,
    metadata: &'a StringMap,
}

impl<'a> Chgm<'a> {
    /// For the object with the given encoded name.
    pub fn new(entry: &'a str, mime_type: Option<&'a str>, metadata: &'a StringMap) -> (r: Self)
        ensures
            r.uri() == chgm_uri(entry@, mime_type.deep_view(), metadata.deep_view()),
    {
        Chgm { entry, mime_type, metadata }
    }
}

impl ToURI for Chgm<'_> {
    closed spec fn uri(&self) -> Seq<char> {
        chgm_uri(self.entry@, self.mime_type.deep_view(), self.metadata.deep_view())
    }

    fn to_uri(&self) -> (r: String) {
        let mut uri = "/chgm/".to_owned();
        uri.append(self.entry);
        match self.mime_type {
            Some(mime_type) => {
                uri.append("/mime/");
                let encoded = encode(mime_type.as_bytes());
                uri.append(encoded.as_str());
            },
            None => {},
        }
        let ghost before = uri@;
        append_metadata(&mut uri, self.metadata);
        assert(uri@ =~= self.uri());
        uri
    }
}

/// Changes the metadata of an object.
pub struct SetMeta<'a> {
    entry: &'a str,
    metadata: &'a StringMap,
}

impl<'a> SetMeta<'a> {
    /// For the object with the given encoded name.
    pub fn new(entry: &'a str, metadata: &'a StringMap) -> (r: Self)
        ensures
            r.uri() == chgm_uri(entry@, None, metadata.deep_view()),
    {
        SetMeta { entry, metadata }
    }
}

impl ToURI for SetMeta<'_> {
    closed spec fn uri(&self) -> Seq<char> {
        chgm_uri(self.entry@, None, self.metadata.deep_view())
    }

    fn to_uri(&self) -> (r: String) {
        let mut uri = "/chgm/".to_owned();
        uri.append(self.entry);
        append_metadata(&mut uri, self.metadata);
        assert(uri@ =~= self.uri());
        uri
    }
}

} // verus!

//! Bodies of the content type `multipart/form-data`.

use vstd::prelude::*;
use vstd::string::*;
use vstd::utf8::encode_utf8;

verus! {

/// One part of a form: a text field, or a file with its name and content
/// type.
#[derive(Debug)]
pub struct Part {
    /// The name of the field.
    pub name: String,
    /// The name of the file, for a part that is a file with a name.
    pub file_name: Option<String>,
    /// The content type of the part, if it states one.
    pub content_type: Option<String>,
    /// The content of the part.
    pub data: Vec<u8>,
}

/// The mathematical value of a [`Part`].
pub struct PartView {
    pub name: Seq<char>,
    pub file_name: Option<Seq<char>>,
    pub content_type: Option<Seq<char>>,
    pub data: Seq<u8>,
}

impl DeepView for Part {
    type V = PartView;

    open spec fn deep_view(&self) -> PartView {
        PartView {
            name: self.name@,
            file_name: self.file_name.deep_view(),
            content_type: self.content_type.deep_view(),
            data: self.data@,
        }
    }
}

/// The lines that head a part: the boundary line, the disposition with the
/// field's name and, for a named file, the file's name, the content type
/// where the part states one, and an empty line.
pub open spec fn part_head(part: PartView, boundary: Seq<char>) -> Seq<char> {
    let opening = "--"@ + boundary + "\r\nContent-Disposition: form-data; name=\""@ + part.name
        + "\""@;
    let named = match part.file_name {
        Some(file_name) => opening + "; filename=\""@ + file_name + "\""@,
        None => opening,
    };
    let typed = match part.content_type {
        Some(content_type) => named + "\r\nContent-Type: "@ + content_type,
        None => named,
    };
    typed + "\r\n\r\n"@
}

/// The bytes of a part: its head, its content, and a line break.
pub open spec fn part_bytes(part: PartView, boundary: Seq<char>) -> Seq<u8> {
    encode_utf8(part_head(part, boundary)) + part.data + encode_utf8("\r\n"@)
}

/// The bytes of the parts in order.
pub open spec fn parts_bytes(parts: Seq<PartView>, boundary: Seq<char>) -> Seq<u8>
    decreases parts.len(),
{
    if parts.len() == 0 {
        Seq::empty()
    } else {
        parts_bytes(parts.drop_last(), boundary) + part_bytes(parts.last(), boundary)
    }
}

/// The line that closes a form.
pub open spec fn closing_line(boundary: Seq<char>) -> Seq<char> {
    "--"@ + boundary + "--\r\n"@
}

/// The body of a form: its parts in order, then the closing line.
pub open spec fn form_body(parts: Seq<PartView>, boundary: Seq<char>) -> Seq<u8> {
    parts_bytes(parts, boundary) + encode_utf8(closing_line(boundary))
}

/// The content type of a form with the given boundary.
pub open spec fn form_content_type(boundary: Seq<char>) -> Seq<char> {
    "multipart/form-data; boundary="@ + boundary
}

/// A text field.
pub fn text_part(name: &str, value: &str) -> (r: Part)
    ensures
        r.deep_view() == (PartView {
            name: name@,
            file_name: None,
            content_type: None,
            data: value.spec_bytes(),
        }),
{
    Part {
        name: name.to_owned(),
        file_name: None,
        content_type: None,
        data: value.as_bytes_vec(),
    }
}

fn append_part(body: &mut Vec<u8>, part: &Part, boundary: &str)
    ensures
        final(body)@ == old(body)@ + part_bytes(part.deep_view(), boundary@),
{
    let ghost before = body@;
    let mut head = "--".to_owned();
    head.append(boundary);
    head.append("\r\nContent-Disposition: form-data; name=\"");
    head.append(part.name.as_str());
    head.append("\"");
    match &part.file_name {
        Some(file_name) => {
            head.append("; filename=\"");
            head.append(file_name.as_str());
            head.append("\"");
        },
        None => {},
    }
    match &part.content_type {
        Some(content_type) => {
            head.append("\r\nContent-Type: ");
            head.append(content_type.as_str());
        },
        None => {},
    }
    head.append("\r\n\r\n");
    assert(head@ =~= part_head(part.deep_view(), boundary@));
    body.extend_from_slice(head.as_str().as_bytes());
    body.extend_from_slice(part.data.as_slice());
    body.extend_from_slice("\r\n".as_bytes());
    assert(body@ =~= before + part_bytes(part.deep_view(), boundary@));
}

/// Writes the body of a form with the given parts and boundary.
pub fn encode_form(parts: &Vec<Part>, boundary: &str) -> (r: Vec<u8>)
    ensures
        r@ == form_body(parts.deep_view(), boundary@),
{
    let mut body: Vec<u8> = Vec::new();
    let mut i: usize = 0;
    assert(parts.deep_view().take(0) =~= Seq::<PartView>::empty());
    while i < parts.len()
        invariant
            i <= parts.len(),
            body@ == parts_bytes(parts.deep_view().take(i as int), boundary@),
        decreases parts.len() - i,
    {
        append_part(&mut body, &parts[i], boundary);
        proof {
            let next = parts.deep_view().take(i + 1);
            assert(next.drop_last() =~= parts.deep_view().take(i as int));
            assert(next.last() == parts[i as int].deep_view());
        }
        i += 1;
    }
    assert(parts.deep_view().take(i as int) =~= parts.deep_view());
    let mut closing = "--".to_owned();
    closing.append(boundary);
    closing.append("--\r\n");
    let ghost before = body@;
    body.extend_from_slice(closing.as_str().as_bytes());
    assert(body@ =~= before + encode_utf8(closing_line(boundary@)));
    body
}

/// The content type of a form with the given boundary.
pub fn make_content_type(boundary: &str) -> (r: String)
    ensures
        r@ == form_content_type(boundary@),
{
    let mut r = "multipart/form-data; boundary=".to_owned();
    r.append(boundary);
    r
}

} // verus!

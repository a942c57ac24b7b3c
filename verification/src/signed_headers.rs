//! The headers that take part in version 2 signatures: those whose names
//! start with `X-Qiniu-`, in the order of their names.

use crate::http::Header;
use crate::string_map::Pairs;
use vstd::prelude::*;
use vstd::string::*;
use vstd::utf8::encode_utf8;

verus! {

/// Whether `text` starts with `prefix`.
pub open spec fn starts_with(text: Seq<u8>, prefix: Seq<u8>) -> bool {
    prefix.len() <= text.len() && text.take(prefix.len() as int) == prefix
}

/// Whether a header of this name takes part in signatures.
pub open spec fn is_signed_name(name: Seq<char>) -> bool {
    starts_with(encode_utf8(name), "X-Qiniu-".spec_bytes())
}

/// Whether `a` stands before `b`, or is `b`, in the order of dictionaries,
/// byte by byte.
pub open spec fn bytes_le(a: Seq<u8>, b: Seq<u8>) -> bool
    decreases a.len(),
{
    if a.len() == 0 {
        true
    } else if b.len() == 0 {
        false
    } else if a[0] != b[0] {
        a[0] < b[0]
    } else {
        bytes_le(a.drop_first(), b.drop_first())
    }
}

/// Whether the name `a` stands before the name `b`, or is `b`.
pub open spec fn name_le(a: Seq<char>, b: Seq<char>) -> bool {
    bytes_le(encode_utf8(a), encode_utf8(b))
}

/// Of two byte strings one stands before the other, or they are the same.
pub proof fn lemma_bytes_le_total(a: Seq<u8>, b: Seq<u8>)
    ensures
        bytes_le(a, b) || bytes_le(b, a),
    decreases a.len(),
{
    if a.len() > 0 && b.len() > 0 && a[0] == b[0] {
        lemma_bytes_le_total(a.drop_first(), b.drop_first());
    }
}

/// What stands before a byte string stands before all that it stands
/// before.
pub proof fn lemma_bytes_le_transitive(a: Seq<u8>, b: Seq<u8>, c: Seq<u8>)
    requires
        bytes_le(a, b),
        bytes_le(b, c),
    ensures
        bytes_le(a, c),
    decreases a.len(),
{
    if a.len() > 0 && b.len() > 0 && c.len() > 0 && a[0] == b[0] && b[0] == c[0] {
        lemma_bytes_le_transitive(a.drop_first(), b.drop_first(), c.drop_first());
    }
}

/// The headers in order with `pair` put in: behind the last header whose
/// name does not stand behind that of `pair`.
pub open spec fn inserted(sorted: Pairs, pair: (Seq<char>, Seq<char>)) -> Pairs
    decreases sorted.len(),
{
    if sorted.len() == 0 {
        seq![pair]
    } else if name_le(sorted.last().0, pair.0) {
        sorted.push(pair)
    } else {
        inserted(sorted.drop_last(), pair).push(sorted.last())
    }
}

/// The headers that take part in signatures, in the order of their names;
/// headers of the same name keep the order in which they came.
pub open spec fn signed_headers(headers: Pairs) -> Pairs
    decreases headers.len(),
{
    if headers.len() == 0 {
        Seq::empty()
    } else {
        let before = signed_headers(headers.drop_last());
        if is_signed_name(headers.last().0) {
            inserted(before, headers.last())
        } else {
            before
        }
    }
}

/// Whether the names of the headers stand in order.
pub open spec fn is_ordered(headers: Pairs) -> bool {
    forall|i: int, j: int|
        0 <= i < j < headers.len() ==> name_le((#[trigger] headers[i]).0, (#[trigger] headers[j]).0)
}

/// Putting a header in at the place behind which every name stands behind
/// its own, and before which the last does not, is [`inserted`].
pub proof fn lemma_inserted_at(sorted: Pairs, pair: (Seq<char>, Seq<char>), at: int)
    requires
        0 <= at <= sorted.len(),
        forall|k: int| at <= k < sorted.len() ==> !name_le(sorted[k].0, pair.0),
        at > 0 ==> name_le(sorted[at - 1].0, pair.0),
    ensures
        inserted(sorted, pair) == sorted.take(at).push(pair) + sorted.skip(at),
    decreases sorted.len(),
{
    if sorted.len() == 0 {
        assert(sorted.take(at).push(pair) + sorted.skip(at) =~= seq![pair]);
    } else if at == sorted.len() {
        assert(sorted.take(at).push(pair) + sorted.skip(at) =~= sorted.push(pair));
    } else {
        let rest = sorted.drop_last();
        assert forall|k: int| at <= k < rest.len() implies !name_le(rest[k].0, pair.0) by {
            assert(rest[k] == sorted[k]);
        }
        if at > 0 {
            assert(rest[at - 1] == sorted[at - 1]);
        }
        lemma_inserted_at(rest, pair, at);
        assert((rest.take(at).push(pair) + rest.skip(at)).push(sorted.last()) =~= sorted.take(
            at,
        ).push(pair) + sorted.skip(at));
    }
}

/// Putting a header into headers that stand in order leaves them in order,
/// and one more.
pub proof fn lemma_inserted_is_ordered(sorted: Pairs, pair: (Seq<char>, Seq<char>))
    requires
        is_ordered(sorted),
    ensures
        is_ordered(inserted(sorted, pair)),
        inserted(sorted, pair).len() == sorted.len() + 1,
        forall|k: int|
            0 <= k < inserted(sorted, pair).len() ==> #[trigger] inserted(sorted, pair)[k] == pair
                || sorted.contains(inserted(sorted, pair)[k]),
    decreases sorted.len(),
{
    let after = inserted(sorted, pair);
    if sorted.len() == 0 {
    } else if name_le(sorted.last().0, pair.0) {
        assert forall|i: int, j: int| 0 <= i < j < after.len() implies name_le(
            (#[trigger] after[i]).0,
            (#[trigger] after[j]).0,
        ) by {
            if j == sorted.len() {
                if i < sorted.len() - 1 {
                    assert(name_le(sorted[i].0, sorted[sorted.len() - 1].0));
                    lemma_bytes_le_transitive(
                        encode_utf8(sorted[i].0),
                        encode_utf8(sorted.last().0),
                        encode_utf8(pair.0),
                    );
                }
            } else {
                assert(after[i] == sorted[i] && after[j] == sorted[j]);
            }
        }
        assert forall|k: int| 0 <= k < after.len() implies #[trigger] after[k] == pair
            || sorted.contains(after[k]) by {
            if k < sorted.len() {
                assert(after[k] == sorted[k]);
            }
        }
    } else {
        let rest = sorted.drop_last();
        assert(is_ordered(rest)) by {
            assert forall|i: int, j: int| 0 <= i < j < rest.len() implies name_le(
                (#[trigger] rest[i]).0,
                (#[trigger] rest[j]).0,
            ) by {
                assert(rest[i] == sorted[i] && rest[j] == sorted[j]);
            }
        }
        lemma_inserted_is_ordered(rest, pair);
        let inner = inserted(rest, pair);
        lemma_bytes_le_total(encode_utf8(sorted.last().0), encode_utf8(pair.0));
        assert forall|i: int, j: int| 0 <= i < j < after.len() implies name_le(
            (#[trigger] after[i]).0,
            (#[trigger] after[j]).0,
        ) by {
            if j == inner.len() {
                assert(after[i] == inner[i]);
                if inner[i] != pair {
                    assert(rest.contains(inner[i]));
                    let k = choose|k: int| 0 <= k < rest.len() && rest[k] == inner[i];
                    assert(sorted[k] == rest[k]);
                    assert(name_le(sorted[k].0, sorted[sorted.len() - 1].0));
                }
            } else {
                assert(after[i] == inner[i] && after[j] == inner[j]);
            }
        }
        assert forall|k: int| 0 <= k < after.len() implies #[trigger] after[k] == pair
            || sorted.contains(after[k]) by {
            if k < inner.len() {
                assert(after[k] == inner[k]);
                if inner[k] != pair {
                    let m = choose|m: int| 0 <= m < rest.len() && rest[m] == inner[k];
                    assert(sorted[m] == rest[m]);
                }
            } else {
                assert(after[k] == sorted[sorted.len() - 1]);
            }
        }
    }
}

/// The headers that take part in signatures stand in the order of their
/// names, and each of them is one of the headers and has a name that
/// starts with `X-Qiniu-`.
pub proof fn lemma_signed_headers_are_ordered(headers: Pairs)
    ensures
        is_ordered(signed_headers(headers)),
        forall|k: int|
            0 <= k < signed_headers(headers).len() ==> headers.contains(
                #[trigger] signed_headers(headers)[k],
            ) && is_signed_name(signed_headers(headers)[k].0),
    decreases headers.len(),
{
    if headers.len() > 0 {
        let rest = headers.drop_last();
        let before = signed_headers(rest);
        lemma_signed_headers_are_ordered(rest);
        let after = signed_headers(headers);
        if is_signed_name(headers.last().0) {
            lemma_inserted_is_ordered(before, headers.last());
        }
        assert forall|k: int| 0 <= k < after.len() implies headers.contains(#[trigger] after[k])
            && is_signed_name(after[k].0) by {
            if after[k] == headers.last() && is_signed_name(headers.last().0) {
                assert(headers[headers.len() - 1] == headers.last());
            } else {
                assert(before.contains(after[k]));
                let m = choose|m: int| 0 <= m < before.len() && before[m] == after[k];
                assert(rest.contains(before[m]));
                let n = choose|n: int| 0 <= n < rest.len() && rest[n] == before[m];
                assert(headers[n] == rest[n]);
            }
        }
    }
}

/// The lines of the headers: for each in order a line feed, the name, a
/// colon, a space and the value.
pub open spec fn header_lines(headers: Pairs) -> Seq<char>
    decreases headers.len(),
{
    if headers.len() == 0 {
        Seq::empty()
    } else {
        header_lines(headers.drop_last()) + seq!['\n'] + headers.last().0 + ": "@
            + headers.last().1
    }
}

/// Compares two byte strings in the order of dictionaries.
pub fn compare_bytes(a: &[u8], b: &[u8]) -> (r: bool)
    ensures
        r == bytes_le(a@, b@),
{
    let mut i: usize = 0;
    assert(a@.skip(0) =~= a@ && b@.skip(0) =~= b@);
    while i < a.len() && i < b.len()
        invariant
            i <= a@.len(),
            i <= b@.len(),
            bytes_le(a@, b@) == bytes_le(a@.skip(i as int), b@.skip(i as int)),
        decreases a@.len() - i,
    {
        proof {
            let x = a@.skip(i as int);
            let y = b@.skip(i as int);
            assert(x[0] == a@[i as int] && y[0] == b@[i as int]);
            assert(x.drop_first() =~= a@.skip(i + 1));
            assert(y.drop_first() =~= b@.skip(i + 1));
        }
        if a[i] != b[i] {
            return a[i] < b[i];
        }
        i += 1;
    }
    i == a.len()
}

/// Tells whether a header of this name takes part in signatures.
pub fn is_signed(name: &str) -> (r: bool)
    ensures
        r == is_signed_name(name@),
{
    let bytes = name.as_bytes();
    let prefix = "X-Qiniu-".as_bytes();
    if prefix.len() > bytes.len() {
        return false;
    }
    let mut i: usize = 0;
    while i < prefix.len()
        invariant
            i <= prefix@.len() <= bytes@.len(),
            bytes@ == encode_utf8(name@),
            prefix@ == "X-Qiniu-".spec_bytes(),
            forall|k: int| 0 <= k < i ==> bytes@[k] == prefix@[k],
        decreases prefix@.len() - i,
    {
        if bytes[i] != prefix[i] {
            assert(bytes@.take(prefix@.len() as int)[i as int] == bytes@[i as int]);
            assert(bytes@.take(prefix@.len() as int) != prefix@);
            return false;
        }
        i += 1;
    }
    assert(bytes@.take(prefix@.len() as int) =~= prefix@);
    true
}

/// Picks the headers that take part in signatures and puts them in the
/// order of their names.
pub fn pick_signed_headers(headers: &Vec<Header>) -> (r: Vec<Header>)
    ensures
        r.deep_view() == signed_headers(headers.deep_view()),
{
    let mut sorted: Vec<Header> = Vec::new();
    let ghost all = headers.deep_view();
    let mut i: usize = 0;
    proof {
        assert(all.take(0) =~= Pairs::empty());
        assert(sorted.deep_view() =~= Pairs::empty());
    }
    while i < headers.len()
        invariant
            i <= headers.len(),
            all == headers.deep_view(),
            sorted.deep_view() == signed_headers(all.take(i as int)),
        decreases headers.len() - i,
    {
        let header = &headers[i];
        proof {
            assert(all.take(i + 1).drop_last() =~= all.take(i as int));
            assert(all.take(i + 1).last() == header.deep_view());
        }
        if is_signed(header.name.as_str()) {
            let ghost before = sorted.deep_view();
            let mut at: usize = sorted.len();
            while at > 0 && !compare_bytes(
                sorted[at - 1].name.as_str().as_bytes(),
                header.name.as_str().as_bytes(),
            )
                invariant
                    at <= sorted.len(),
                    before == sorted.deep_view(),
                    forall|k: int|
                        at <= k < before.len() ==> !name_le(before[k].0, header.deep_view().0),
                decreases at,
            {
                proof {
                    assert(before[at - 1] == sorted[at - 1].deep_view());
                }
                at -= 1;
            }
            proof {
                if at > 0 {
                    assert(before[at - 1] == sorted[at - 1].deep_view());
                }
                lemma_inserted_at(before, header.deep_view(), at as int);
            }
            sorted.insert(
                at,
                Header { name: header.name.clone(), value: header.value.clone() },
            );
            assert(sorted.deep_view() =~= before.take(at as int).push(header.deep_view())
                + before.skip(at as int));
        }
        i += 1;
    }
    proof {
        assert(all.take(i as int) =~= all);
    }
    sorted
}

/// Writes the lines of the headers.
pub fn make_header_lines(headers: &Vec<Header>) -> (r: String)
    ensures
        r@ == header_lines(headers.deep_view()),
{
    let mut lines = String::new();
    let ghost all = headers.deep_view();
    let mut i: usize = 0;
    proof {
        reveal_strlit("\n");
        assert("\n"@ =~= seq!['\n']);
        assert(all.take(0) =~= Pairs::empty());
    }
    while i < headers.len()
        invariant
            i <= headers.len(),
            all == headers.deep_view(),
            lines@ == header_lines(all.take(i as int)),
            "\n"@ == seq!['\n'],
        decreases headers.len() - i,
    {
        lines.append("\n");
        lines.append(headers[i].name.as_str());
        lines.append(": ");
        lines.append(headers[i].value.as_str());
        proof {
            let next = all.take(i + 1);
            assert(next.drop_last() =~= all.take(i as int));
            assert(next.last() == headers[i as int].deep_view());
            assert(lines@ =~= header_lines(next));
        }
        i += 1;
    }
    proof {
        assert(all.take(i as int) =~= all);
    }
    lines
}

} // verus!

//! Upload policies: the named settings that an upload token carries.

use crate::config::Config;
use crate::json::{
    bool_at,
    get_bool,
    get_keys,
    get_string,
    get_unsigned,
    keys_at,
    Nodes,
    parse,
    quote,
    quoted_text,
    string_at,
    text_nodes,
    unsigned_at,
};
use crate::text::{
    concat,
    decimal,
    find,
    head_before,
    split_first,
    str_equal,
    tail_after,
    u64_to_decimal,
};
use vstd::prelude::*;
use vstd::string::*;

verus! {

/// The value of one policy field.
#[derive(Debug)]
pub enum PolicyValue {
    /// A text.
    Text(String),
    /// A non-negative whole number.
    Number(u64),
    /// A truth value.
    Flag(bool),
}

/// The mathematical value of a [`PolicyValue`].
pub enum FieldValue {
    Text(Seq<char>),
    Number(u64),
    Flag(bool),
}

impl DeepView for PolicyValue {
    type V = FieldValue;

    open spec fn deep_view(&self) -> FieldValue {
        match self {
            PolicyValue::Text(text) => FieldValue::Text(text@),
            PolicyValue::Number(n) => FieldValue::Number(*n),
            PolicyValue::Flag(b) => FieldValue::Flag(*b),
        }
    }
}

impl Clone for PolicyValue {
    fn clone(&self) -> (r: Self)
        ensures
            r.deep_view() == self.deep_view(),
    {
        match self {
            PolicyValue::Text(text) => PolicyValue::Text(text.clone()),
            PolicyValue::Number(n) => PolicyValue::Number(*n),
            PolicyValue::Flag(b) => PolicyValue::Flag(*b),
        }
    }
}

/// One named setting of a policy.
#[derive(Debug)]
pub struct PolicyField {
    /// The field's name, as it stands in the policy document.
    pub name: String,
    /// The field's value.
    pub value: PolicyValue,
}

/// The mathematical value of a [`PolicyField`].
pub struct Field {
    pub name: Seq<char>,
    pub value: FieldValue,
}

impl DeepView for PolicyField {
    type V = Field;

    open spec fn deep_view(&self) -> Field {
        Field { name: self.name@, value: self.value.deep_view() }
    }
}

/// The index of the first field named `name`, or the number of fields when
/// there is none.
pub open spec fn position(fields: Seq<Field>, name: Seq<char>) -> int
    decreases fields.len(),
{
    if fields.len() == 0 {
        0
    } else if fields[0].name == name {
        0
    } else {
        1 + position(fields.drop_first(), name)
    }
}

/// The value of the field named `name`, if there is one.
pub open spec fn lookup(fields: Seq<Field>, name: Seq<char>) -> Option<FieldValue> {
    if position(fields, name) < fields.len() {
        Some(fields[position(fields, name)].value)
    } else {
        None
    }
}

/// The fields with `name` set to `value`: in place where the name is there
/// already, at the end where it is new.
pub open spec fn put(fields: Seq<Field>, name: Seq<char>, value: FieldValue) -> Seq<Field> {
    if position(fields, name) < fields.len() {
        fields.update(position(fields, name), Field { name, value })
    } else {
        fields.push(Field { name, value })
    }
}

/// The text of `name`, if it is set to a text.
pub open spec fn lookup_text(fields: Seq<Field>, name: Seq<char>) -> Option<Seq<char>> {
    match lookup(fields, name) {
        Some(FieldValue::Text(text)) => Some(text),
        _ => None,
    }
}

/// The number of `name`, if it is set to a number.
pub open spec fn lookup_number(fields: Seq<Field>, name: Seq<char>) -> Option<u64> {
    match lookup(fields, name) {
        Some(FieldValue::Number(n)) => Some(n),
        _ => None,
    }
}

/// [`position`] is in range, no earlier field has the name, and the field
/// there has it.
pub proof fn lemma_position(fields: Seq<Field>, name: Seq<char>)
    ensures
        0 <= position(fields, name) <= fields.len(),
        forall|j: int| 0 <= j < position(fields, name) ==> fields[j].name != name,
        position(fields, name) < fields.len() ==> fields[position(fields, name)].name == name,
    decreases fields.len(),
{
    if fields.len() == 0 {
    } else if fields[0].name == name {
    } else {
        let rest = fields.drop_first();
        lemma_position(rest, name);
        assert forall|j: int| 0 <= j < position(fields, name) implies fields[j].name
            != name by {
            if j > 0 {
                assert(fields[j] == rest[j - 1]);
            }
        }
        if position(rest, name) < rest.len() {
            assert(fields[position(fields, name)] == rest[position(rest, name)]);
        }
    }
}

/// A place that no field of that name precedes, and where such a field
/// stands or the fields end, is the [`position`].
pub proof fn lemma_position_is(fields: Seq<Field>, name: Seq<char>, k: int)
    requires
        0 <= k <= fields.len(),
        forall|j: int| 0 <= j < k ==> fields[j].name != name,
        k < fields.len() ==> fields[k].name == name,
    ensures
        position(fields, name) == k,
{
    lemma_position(fields, name);
    let p = position(fields, name);
    if p < k {
        assert(fields[p].name == name);
    } else if p > k {
        assert(fields[k].name != name);
    }
}

/// After [`put`], looking the name up gives the value.
pub proof fn lemma_lookup_put_same(fields: Seq<Field>, name: Seq<char>, value: FieldValue)
    ensures
        lookup(put(fields, name, value), name) == Some(value),
{
    lemma_position(fields, name);
    let p = position(fields, name);
    let after = put(fields, name, value);
    assert forall|j: int| 0 <= j < p implies after[j].name != name by {
        assert(after[j] == fields[j]);
    }
    lemma_position_is(after, name, p);
}

/// [`put`] leaves every other name as it was.
pub proof fn lemma_lookup_put_other(
    fields: Seq<Field>,
    name: Seq<char>,
    value: FieldValue,
    other: Seq<char>,
)
    requires
        other != name,
    ensures
        lookup(put(fields, name, value), other) == lookup(fields, other),
{
    lemma_position(fields, name);
    lemma_position(fields, other);
    let q = position(fields, other);
    let after = put(fields, name, value);
    assert forall|j: int| 0 <= j < q implies after[j].name != other by {
        if j < fields.len() && j != position(fields, name) {
            assert(after[j] == fields[j]);
        }
    }
    if q < fields.len() {
        assert(q != position(fields, name));
        assert(after[q] == fields[q]);
        lemma_position_is(after, other, q);
    } else {
        lemma_position_is(after, other, after.len() as int);
    }
}

/// The JSON text of a field value.
pub open spec fn value_json(value: FieldValue) -> Seq<char> {
    match value {
        FieldValue::Text(text) => quoted_text(text),
        FieldValue::Number(n) => decimal(n as nat),
        FieldValue::Flag(b) => if b {
            "true"@
        } else {
            "false"@
        },
    }
}

/// The JSON text of one object member: the quoted name, a colon, the value.
pub open spec fn member_json(field: Field) -> Seq<char> {
    quoted_text(field.name) + seq![':'] + value_json(field.value)
}

/// The members of the fields in order, with commas between them.
pub open spec fn members_json(fields: Seq<Field>) -> Seq<char>
    decreases fields.len(),
{
    if fields.len() == 0 {
        Seq::empty()
    } else if fields.len() == 1 {
        member_json(fields[0])
    } else {
        members_json(fields.drop_last()) + seq![','] + member_json(fields.last())
    }
}

/// The compact JSON object of the fields, in their order.
pub open spec fn policy_json(fields: Seq<Field>) -> Seq<char> {
    seq!['{'] + members_json(fields) + seq!['}']
}

/// The bucket that a scope names: the scope up to its first colon.
pub open spec fn scope_bucket(scope: Seq<char>) -> Seq<char> {
    head_before(scope, ':')
}

/// The object name or prefix that a scope names, if it names one: what
/// follows its first colon.
pub open spec fn scope_key(scope: Seq<char>) -> Option<Seq<char>> {
    if find(scope, ':') < scope.len() {
        Some(tail_after(scope, ':'))
    } else {
        None
    }
}

/// The kind of value that a recognized field holds.
#[derive(Clone, Copy, Debug, PartialEq, Eq, Structural)]
pub enum FieldKind {
    Text,
    Number,
    Flag,
}

/// A field name that policy documents are read for, with the kind of its
/// value.
pub struct Recognized {
    pub name: &'static str,
    pub kind: FieldKind,
}

/// The mathematical value of a [`Recognized`].
pub struct RecognizedView {
    pub name: Seq<char>,
    pub kind: FieldKind,
}

impl DeepView for Recognized {
    type V = RecognizedView;

    open spec fn deep_view(&self) -> RecognizedView {
        RecognizedView { name: self.name@, kind: self.kind }
    }
}

/// The recognized fields, in the order in which a document is read for them.
pub open spec fn recognized_fields() -> Seq<RecognizedView> {
    seq![
        RecognizedView { name: "scope"@, kind: FieldKind::Text },
        RecognizedView { name: "isPrefixalScope"@, kind: FieldKind::Number },
        RecognizedView { name: "deadline"@, kind: FieldKind::Number },
        RecognizedView { name: "insertOnly"@, kind: FieldKind::Number },
        RecognizedView { name: "saveKey"@, kind: FieldKind::Text },
        RecognizedView { name: "forceSaveKey"@, kind: FieldKind::Flag },
        RecognizedView { name: "fsizeLimit"@, kind: FieldKind::Number },
        RecognizedView { name: "fsizeMin"@, kind: FieldKind::Number },
        RecognizedView { name: "mimeLimit"@, kind: FieldKind::Text },
        RecognizedView { name: "detectMime"@, kind: FieldKind::Number },
        RecognizedView { name: "callbackUrl"@, kind: FieldKind::Text },
        RecognizedView { name: "callbackHost"@, kind: FieldKind::Text },
        RecognizedView { name: "callbackBody"@, kind: FieldKind::Text },
        RecognizedView { name: "callbackBodyType"@, kind: FieldKind::Text },
        RecognizedView { name: "returnUrl"@, kind: FieldKind::Text },
        RecognizedView { name: "returnBody"@, kind: FieldKind::Text },
        RecognizedView { name: "persistentOps"@, kind: FieldKind::Text },
        RecognizedView { name: "persistentNotifyUrl"@, kind: FieldKind::Text },
        RecognizedView { name: "persistentPipeline"@, kind: FieldKind::Text },
        RecognizedView { name: "endUser"@, kind: FieldKind::Text },
        RecognizedView { name: "fileType"@, kind: FieldKind::Number },
    ]
}

fn recognized() -> (r: Vec<Recognized>)
    ensures
        r.deep_view() == recognized_fields(),
{
    let mut r: Vec<Recognized> = Vec::new();
    r.push(Recognized { name: "scope", kind: FieldKind::Text });
    r.push(Recognized { name: "isPrefixalScope", kind: FieldKind::Number });
    r.push(Recognized { name: "deadline", kind: FieldKind::Number });
    r.push(Recognized { name: "insertOnly", kind: FieldKind::Number });
    r.push(Recognized { name: "saveKey", kind: FieldKind::Text });
    r.push(Recognized { name: "forceSaveKey", kind: FieldKind::Flag });
    r.push(Recognized { name: "fsizeLimit", kind: FieldKind::Number });
    r.push(Recognized { name: "fsizeMin", kind: FieldKind::Number });
    r.push(Recognized { name: "mimeLimit", kind: FieldKind::Text });
    r.push(Recognized { name: "detectMime", kind: FieldKind::Number });
    r.push(Recognized { name: "callbackUrl", kind: FieldKind::Text });
    r.push(Recognized { name: "callbackHost", kind: FieldKind::Text });
    r.push(Recognized { name: "callbackBody", kind: FieldKind::Text });
    r.push(Recognized { name: "callbackBodyType", kind: FieldKind::Text });
    r.push(Recognized { name: "returnUrl", kind: FieldKind::Text });
    r.push(Recognized { name: "returnBody", kind: FieldKind::Text });
    r.push(Recognized { name: "persistentOps", kind: FieldKind::Text });
    r.push(Recognized { name: "persistentNotifyUrl", kind: FieldKind::Text });
    r.push(Recognized { name: "persistentPipeline", kind: FieldKind::Text });
    r.push(Recognized { name: "endUser", kind: FieldKind::Text });
    r.push(Recognized { name: "fileType", kind: FieldKind::Number });
    assert(r.deep_view() =~= recognized_fields());
    r
}

/// The JSON Pointer of a top-level member: a slash and the member's name.
pub open spec fn member_pointer(name: Seq<char>) -> Seq<char> {
    seq!['/'] + name
}

/// What a document holds for one recognized field: its value where the
/// member is there with the kind that the field has.
pub open spec fn member_value(nodes: Nodes, field: RecognizedView) -> Option<FieldValue> {
    let pointer = member_pointer(field.name);
    match field.kind {
        FieldKind::Text => match string_at(nodes, pointer) {
            Some(text) => Some(FieldValue::Text(text)),
            None => None,
        },
        FieldKind::Number => match unsigned_at(nodes, pointer) {
            Some(n) => Some(FieldValue::Number(n)),
            None => None,
        },
        FieldKind::Flag => match bool_at(nodes, pointer) {
            Some(b) => Some(FieldValue::Flag(b)),
            None => None,
        },
    }
}

/// The kind of the field named `name` in `table`, if the table has it.
pub open spec fn kind_in(table: Seq<RecognizedView>, name: Seq<char>) -> Option<FieldKind>
    decreases table.len(),
{
    if table.len() == 0 {
        None
    } else if table[0].name == name {
        Some(table[0].kind)
    } else {
        kind_in(table.drop_first(), name)
    }
}

/// What a document holds under the member `name`, if the name is that of
/// a recognized field and the value is of the field's kind.
pub open spec fn recognized_value(nodes: Nodes, name: Seq<char>) -> Option<FieldValue> {
    match kind_in(recognized_fields(), name) {
        Some(kind) => member_value(nodes, RecognizedView { name, kind }),
        None => None,
    }
}

/// The fields read from a document whose members are named `names`: in the
/// order of the document, each member that is a recognized field with a
/// value of the field's kind.
pub open spec fn fields_of_document(nodes: Nodes, names: Seq<Seq<char>>) -> Seq<Field>
    decreases names.len(),
{
    if names.len() == 0 {
        Seq::empty()
    } else {
        let before = fields_of_document(nodes, names.drop_last());
        match recognized_value(nodes, names.last()) {
            Some(value) => before.push(Field { name: names.last(), value }),
            None => before,
        }
    }
}

/// The policy that a document states, if the text is a JSON object.
pub open spec fn policy_of_document(text: Seq<u8>) -> Option<Seq<Field>> {
    match text_nodes(text) {
        Some(nodes) => match keys_at(nodes, Seq::empty()) {
            Some(names) => Some(fields_of_document(nodes, names)),
            None => None,
        },
        None => None,
    }
}

fn find_kind(table: &Vec<Recognized>, name: &str) -> (r: Option<FieldKind>)
    ensures
        r == kind_in(table.deep_view(), name@),
{
    let mut i: usize = 0;
    assert(table.deep_view().skip(0) =~= table.deep_view());
    while i < table.len()
        invariant
            i <= table.len(),
            kind_in(table.deep_view(), name@) == kind_in(table.deep_view().skip(i as int), name@),
        decreases table.len() - i,
    {
        let ghost rest = table.deep_view().skip(i as int);
        assert(rest[0] == table[i as int].deep_view());
        assert(rest.drop_first() =~= table.deep_view().skip(i + 1));
        if str_equal(table[i].name, name) {
            return Some(table[i].kind);
        }
        i += 1;
    }
    assert(table.deep_view().skip(i as int).len() == 0);
    None
}

/// An upload policy: named settings in the order in which they were set.
#[derive(Debug)]
pub struct UploadPolicy {
    fields: Vec<PolicyField>,
}

impl Clone for UploadPolicy {
    fn clone(&self) -> (r: Self)
        ensures
            r.deep_view() == self.deep_view(),
    {
        let mut fields: Vec<PolicyField> = Vec::new();
        let mut i: usize = 0;
        while i < self.fields.len()
            invariant
                i <= self.fields.len(),
                fields.len() == i,
                forall|k: int|
                    0 <= k < i ==> (#[trigger] fields[k]).deep_view() == self.fields[k].deep_view(),
            decreases self.fields.len() - i,
        {
            fields.push(
                PolicyField {
                    name: self.fields[i].name.clone(),
                    value: self.fields[i].value.clone(),
                },
            );
            i += 1;
        }
        assert(fields.deep_view() =~= self.fields.deep_view());
        UploadPolicy { fields }
    }
}

impl DeepView for UploadPolicy {
    type V = Seq<Field>;

    closed spec fn deep_view(&self) -> Seq<Field> {
        self.fields.deep_view()
    }
}

impl UploadPolicy {
    /// A policy without settings.
    pub fn empty() -> (r: Self)
        ensures
            r.deep_view() == Seq::<Field>::empty(),
    {
        let r = UploadPolicy { fields: Vec::new() };
        assert(r.fields.deep_view() =~= Seq::<Field>::empty());
        r
    }

    /// The number of settings.
    pub fn len(&self) -> (r: usize)
        ensures
            r == self.deep_view().len(),
    {
        self.fields.len()
    }

    fn index_of(&self, name: &str) -> (r: usize)
        ensures
            r == position(self.deep_view(), name@),
            r <= self.fields.len(),
    {
        let mut i: usize = 0;
        while i < self.fields.len()
            invariant
                i <= self.fields.len(),
                forall|j: int| 0 <= j < i ==> self.deep_view()[j].name != name@,
            decreases self.fields.len() - i,
        {
            if str_equal(self.fields[i].name.as_str(), name) {
                proof {
                    lemma_position_is(self.deep_view(), name@, i as int);
                }
                return i;
            }
            i += 1;
        }
        proof {
            lemma_position_is(self.deep_view(), name@, i as int);
        }
        i
    }

    /// The value of the setting named `name`, if it is set.
    pub fn get(&self, name: &str) -> (r: Option<&PolicyValue>)
        ensures
            r.deep_view() == lookup(self.deep_view(), name@),
    {
        let i = self.index_of(name);
        if i < self.fields.len() {
            Some(&self.fields[i].value)
        } else {
            None
        }
    }

    /// The text of the setting named `name`, if it is set to a text.
    pub fn get_text(&self, name: &str) -> (r: Option<&str>)
        ensures
            r.deep_view() == lookup_text(self.deep_view(), name@),
    {
        match self.get(name) {
            Some(PolicyValue::Text(text)) => Some(text.as_str()),
            _ => None,
        }
    }

    /// The number of the setting named `name`, if it is set to a number.
    pub fn get_number(&self, name: &str) -> (r: Option<u64>)
        ensures
            r == lookup_number(self.deep_view(), name@),
    {
        match self.get(name) {
            Some(PolicyValue::Number(n)) => Some(*n),
            _ => None,
        }
    }

    /// Sets `name` to `value`: in place where it was set before, as the last
    /// setting otherwise.
    pub fn set(&mut self, name: &str, value: PolicyValue)
        ensures
            final(self).deep_view() == put(old(self).deep_view(), name@, value.deep_view()),
    {
        let i = self.index_of(name);
        let field = PolicyField { name: name.to_owned(), value };
        let ghost before = self.deep_view();
        if i < self.fields.len() {
            self.fields.set(i, field);
            assert(self.fields.deep_view() =~= before.update(i as int, field.deep_view()));
        } else {
            self.fields.push(field);
            assert(self.fields.deep_view() =~= before.push(field.deep_view()));
        }
    }

    /// The scope: a bucket, or a bucket, a colon and an object name or prefix.
    pub fn scope(&self) -> (r: Option<&str>)
        ensures
            r.deep_view() == lookup_text(self.deep_view(), "scope"@),
    {
        self.get_text("scope")
    }

    /// The bucket that the policy is for, if it has a scope.
    pub fn bucket(&self) -> (r: Option<&str>)
        ensures
            r.deep_view() == match lookup_text(self.deep_view(), "scope"@) {
                Some(scope) => Some(scope_bucket(scope)),
                None => None,
            },
    {
        match self.scope() {
            Some(scope) => match split_first(scope, ':') {
                Some((bucket, _)) => Some(bucket),
                None => {
                    assert(scope@.take(scope@.len() as int) =~= scope@);
                    Some(scope)
                },
            },
            None => None,
        }
    }

    /// The object name or prefix that the policy is for, if its scope names
    /// one.
    pub fn key(&self) -> (r: Option<&str>)
        ensures
            r.deep_view() == match lookup_text(self.deep_view(), "scope"@) {
                Some(scope) => scope_key(scope),
                None => None,
            },
    {
        match self.scope() {
            Some(scope) => match split_first(scope, ':') {
                Some((_, key)) => Some(key),
                None => None,
            },
            None => None,
        }
    }

    /// The time at which tokens of this policy expire, in seconds since the
    /// Unix epoch, if it is set.
    pub fn token_deadline(&self) -> (r: Option<u64>)
        ensures
            r == lookup_number(self.deep_view(), "deadline"@),
    {
        self.get_number("deadline")
    }

    /// Whether the policy only lets new objects be made: `insertOnly` is set
    /// to a number other than zero.
    pub fn is_insert_only(&self) -> (r: bool)
        ensures
            r == match lookup_number(self.deep_view(), "insertOnly"@) {
                Some(n) => n != 0,
                None => false,
            },
    {
        match self.get_number("insertOnly") {
            Some(n) => n != 0,
            None => false,
        }
    }

    /// The policy as a compact JSON object with its settings in order.
    pub fn as_json(&self) -> (r: String)
        ensures
            r@ == policy_json(self.deep_view()),
    {
        let mut r = "{".to_owned();
        let mut i: usize = 0;
        proof {
            reveal_strlit("{");
            reveal_strlit("}");
            reveal_strlit(",");
            reveal_strlit(":");
            assert("{"@ =~= seq!['{']);
            assert("}"@ =~= seq!['}']);
            assert(","@ =~= seq![',']);
            assert(":"@ =~= seq![':']);
            assert(self.deep_view().take(0) =~= Seq::<Field>::empty());
            assert(r@ =~= seq!['{'] + members_json(self.deep_view().take(0)));
        }
        while i < self.fields.len()
            invariant
                i <= self.fields.len(),
                r@ == seq!['{'] + members_json(self.deep_view().take(i as int)),
                ","@ == seq![','],
                ":"@ == seq![':'],
            decreases self.fields.len() - i,
        {
            let ghost before = r@;
            let ghost fields = self.deep_view();
            if i > 0 {
                r.append(",");
            }
            let name = quote(self.fields[i].name.as_str());
            r.append(name.as_str());
            r.append(":");
            match &self.fields[i].value {
                PolicyValue::Text(text) => {
                    let quoted = quote(text.as_str());
                    r.append(quoted.as_str());
                },
                PolicyValue::Number(n) => {
                    let digits = u64_to_decimal(*n);
                    r.append(digits.as_str());
                },
                PolicyValue::Flag(b) => {
                    if *b {
                        r.append("true");
                    } else {
                        r.append("false");
                    }
                },
            }
            proof {
                let next = fields.take(i + 1);
                assert(next.drop_last() =~= fields.take(i as int));
                assert(next.last() == fields[i as int]);
                assert(fields[i as int] == self.fields[i as int].deep_view());
                if i == 0 {
                    assert(next.len() == 1);
                    assert(next[0] == fields[0]);
                    assert(fields.take(0).len() == 0);
                    assert(r@ =~= seq!['{'] + members_json(next));
                } else {
                    assert(r@ =~= seq!['{'] + members_json(next));
                }
            }
            i += 1;
        }
        proof {
            assert(self.deep_view().take(i as int) =~= self.deep_view());
        }
        r.append("}");
        r
    }

    /// Reads a policy from a JSON document: in the order of the document,
    /// each member that is a recognized field with a value of the field's
    /// kind. `None` when `text` is no JSON object.
    pub fn from_json(text: &[u8]) -> (r: Option<Self>)
        ensures
            r.deep_view() == policy_of_document(text@),
    {
        let document = match parse(text) {
            Some(document) => document,
            None => {
                return None;
            },
        };
        let ghost nodes = text_nodes(text@).unwrap();
        proof {
            reveal_strlit("");
            assert(""@ =~= Seq::<char>::empty());
        }
        let names = match get_keys(&document, "") {
            Some(names) => names,
            None => {
                return None;
            },
        };
        let table = recognized();
        let mut policy = UploadPolicy { fields: Vec::new() };
        let mut i: usize = 0;
        proof {
            assert(names.deep_view().take(0) =~= Seq::<Seq<char>>::empty());
            assert(policy.fields.deep_view() =~= Seq::<Field>::empty());
        }
        while i < names.len()
            invariant
                i <= names.len(),
                table.deep_view() == recognized_fields(),
                nodes == crate::json::nodes(document),
                policy.deep_view() == fields_of_document(nodes, names.deep_view().take(i as int)),
            decreases names.len() - i,
        {
            let ghost before = policy.deep_view();
            let name = names[i].as_str();
            proof {
                reveal_strlit("/");
                assert("/"@ =~= seq!['/']);
                let next = names.deep_view().take(i + 1);
                assert(next.drop_last() =~= names.deep_view().take(i as int));
                assert(next.last() == name@);
            }
            let value = match find_kind(&table, name) {
                Some(kind) => {
                    let pointer = concat("/", name);
                    match kind {
                        FieldKind::Text => match get_string(&document, pointer.as_str()) {
                            Some(text) => Some(PolicyValue::Text(text)),
                            None => None,
                        },
                        FieldKind::Number => match get_unsigned(&document, pointer.as_str()) {
                            Some(n) => Some(PolicyValue::Number(n)),
                            None => None,
                        },
                        FieldKind::Flag => match get_bool(&document, pointer.as_str()) {
                            Some(b) => Some(PolicyValue::Flag(b)),
                            None => None,
                        },
                    }
                },
                None => None,
            };
            assert(value.deep_view() == recognized_value(nodes, name@));
            match value {
                Some(value) => {
                    let field = PolicyField { name: name.to_owned(), value };
                    policy.fields.push(field);
                    assert(policy.fields.deep_view() =~= before.push(field.deep_view()));
                },
                None => {},
            }
            i += 1;
        }
        proof {
            assert(names.deep_view().take(i as int) =~= names.deep_view());
        }
        Some(policy)
    }
}

/// The deadline of a token made at `now` that lives for `lifetime` seconds:
/// their sum, or the largest time where the sum would pass it.
pub open spec fn deadline_after(now: u64, lifetime: u64) -> u64 {
    if now + lifetime > u64::MAX {
        u64::MAX
    } else {
        (now + lifetime) as u64
    }
}

/// The scope that names `key` in `bucket`.
pub open spec fn object_scope(bucket: Seq<char>, key: Seq<char>) -> Seq<char> {
    bucket + seq![':'] + key
}

/// The settings every new policy starts with: the scope and the deadline.
pub open spec fn initial_fields(scope: Seq<char>, deadline: u64) -> Seq<Field> {
    seq![
        Field { name: "scope"@, value: FieldValue::Text(scope) },
        Field { name: "deadline"@, value: FieldValue::Number(deadline) },
    ]
}

/// Whether a policy has what every policy must have: a scope that is a
/// text and a deadline that is a number.
pub open spec fn is_complete(fields: Seq<Field>) -> bool {
    lookup_text(fields, "scope"@) is Some && lookup_number(fields, "deadline"@) is Some
}

/// Builds an [`UploadPolicy`] setting by setting. A builder starts with a
/// scope and a deadline and keeps both.
pub struct UploadPolicyBuilder {
    policy: UploadPolicy,
}

impl UploadPolicyBuilder {
    /// The settings made so far.
    pub closed spec fn pending(&self) -> Seq<Field> {
        self.policy.deep_view()
    }

    fn start(scope: String, deadline: u64) -> (r: Self)
        ensures
            r.pending() == initial_fields(scope@, deadline),
    {
        let mut fields: Vec<PolicyField> = Vec::new();
        fields.push(PolicyField { name: "scope".to_owned(), value: PolicyValue::Text(scope) });
        fields.push(
            PolicyField { name: "deadline".to_owned(), value: PolicyValue::Number(deadline) },
        );
        assert(fields.deep_view() =~= initial_fields(scope@, deadline));
        UploadPolicyBuilder { policy: UploadPolicy { fields } }
    }

    fn deadline_from(now: u64, lifetime: u64) -> (r: u64)
        ensures
            r == deadline_after(now, lifetime),
    {
        if now > u64::MAX - lifetime {
            u64::MAX
        } else {
            now + lifetime
        }
    }

    /// A policy for uploads into `bucket`, made at `now` (seconds since the
    /// Unix epoch) and valid for the token lifetime of `config`.
    pub fn new_policy_for_bucket(bucket: &str, config: &Config, now: u64) -> (r: Self)
        ensures
            r.pending() == initial_fields(
                bucket@,
                deadline_after(now, config@.upload_token_lifetime),
            ),
    {
        Self::start(bucket.to_owned(), Self::deadline_from(now, config.upload_token_lifetime()))
    }

    /// A policy for uploading the object `key` of `bucket`.
    pub fn new_policy_for_object(bucket: &str, key: &str, config: &Config, now: u64) -> (r: Self)
        ensures
            r.pending() == initial_fields(
                object_scope(bucket@, key@),
                deadline_after(now, config@.upload_token_lifetime),
            ),
    {
        let mut scope = bucket.to_owned();
        proof {
            reveal_strlit(":");
            assert(":"@ =~= seq![':']);
        }
        scope.append(":");
        scope.append(key);
        Self::start(scope, Self::deadline_from(now, config.upload_token_lifetime()))
    }

    /// A policy for uploading objects of `bucket` whose names start with
    /// `prefix`.
    pub fn new_policy_for_objects_name_prefixed_with(
        bucket: &str,
        prefix: &str,
        config: &Config,
        now: u64,
    ) -> (r: Self)
        ensures
            r.pending() == put(
                initial_fields(
                    object_scope(bucket@, prefix@),
                    deadline_after(now, config@.upload_token_lifetime),
                ),
                "isPrefixalScope"@,
                FieldValue::Number(1),
            ),
    {
        let mut r = Self::new_policy_for_object(bucket, prefix, config, now);
        r.policy.set("isPrefixalScope", PolicyValue::Number(1));
        r
    }

    /// Sets the field `name` to a text.
    pub fn text(self, name: &str, value: &str) -> (r: Self)
        ensures
            r.pending() == put(self.pending(), name@, FieldValue::Text(value@)),
    {
        let mut policy = self.policy;
        policy.set(name, PolicyValue::Text(value.to_owned()));
        UploadPolicyBuilder { policy }
    }

    /// Sets the field `name` to a number.
    pub fn number(self, name: &str, value: u64) -> (r: Self)
        ensures
            r.pending() == put(self.pending(), name@, FieldValue::Number(value)),
    {
        let mut policy = self.policy;
        policy.set(name, PolicyValue::Number(value));
        UploadPolicyBuilder { policy }
    }

    /// Sets the field `name` to a truth value.
    pub fn flag(self, name: &str, value: bool) -> (r: Self)
        ensures
            r.pending() == put(self.pending(), name@, FieldValue::Flag(value)),
    {
        let mut policy = self.policy;
        policy.set(name, PolicyValue::Flag(value));
        UploadPolicyBuilder { policy }
    }

    /// Lets tokens expire `lifetime` seconds after `now`.
    pub fn token_lifetime(self, lifetime: u64, now: u64) -> (r: Self)
        ensures
            r.pending() == put(
                self.pending(),
                "deadline"@,
                FieldValue::Number(deadline_after(now, lifetime)),
            ),
    {
        self.number("deadline", Self::deadline_from(now, lifetime))
    }

    /// Lets tokens expire at `deadline`, in seconds since the Unix epoch.
    pub fn token_deadline(self, deadline: u64) -> (r: Self)
        ensures
            r.pending() == put(self.pending(), "deadline"@, FieldValue::Number(deadline)),
    {
        self.number("deadline", deadline)
    }

    /// Only lets new objects be made, never existing ones replaced.
    pub fn insert_only(self) -> (r: Self)
        ensures
            r.pending() == put(self.pending(), "insertOnly"@, FieldValue::Number(1)),
    {
        self.number("insertOnly", 1)
    }

    /// Lets the service find out the content type by itself.
    pub fn enable_mime_detection(self) -> (r: Self)
        ensures
            r.pending() == put(self.pending(), "detectMime"@, FieldValue::Number(1)),
    {
        self.number("detectMime", 1)
    }

    /// Stores uploads in the standard storage class.
    pub fn normal_storage(self) -> (r: Self)
        ensures
            r.pending() == put(self.pending(), "fileType"@, FieldValue::Number(0)),
    {
        self.number("fileType", 0)
    }

    /// Stores uploads in the infrequent-access storage class.
    pub fn infrequent_storage(self) -> (r: Self)
        ensures
            r.pending() == put(self.pending(), "fileType"@, FieldValue::Number(1)),
    {
        self.number("fileType", 1)
    }

    /// Names the object that uploads are saved as; with `force`, even where
    /// the upload names another.
    pub fn save_as(self, key: &str, force: bool) -> (r: Self)
        ensures
            r.pending() == if force {
                put(
                    put(self.pending(), "saveKey"@, FieldValue::Text(key@)),
                    "forceSaveKey"@,
                    FieldValue::Flag(true),
                )
            } else {
                put(self.pending(), "saveKey"@, FieldValue::Text(key@))
            },
    {
        let r = self.text("saveKey", key);
        if force {
            r.flag("forceSaveKey", true)
        } else {
            r
        }
    }

    /// Bounds the size of uploads from below, from above, or both.
    pub fn file_size_limitation(self, min: Option<u64>, max: Option<u64>) -> (r: Self)
        ensures
            r.pending() == ({
                let with_min = match min {
                    Some(n) => put(self.pending(), "fsizeMin"@, FieldValue::Number(n)),
                    None => self.pending(),
                };
                match max {
                    Some(n) => put(with_min, "fsizeLimit"@, FieldValue::Number(n)),
                    None => with_min,
                }
            }),
    {
        let r = match min {
            Some(n) => self.number("fsizeMin", n),
            None => self,
        };
        match max {
            Some(n) => r.number("fsizeLimit", n),
            None => r,
        }
    }

    /// Restricts the content types of uploads.
    pub fn mime_types(self, limit: &str) -> (r: Self)
        ensures
            r.pending() == put(self.pending(), "mimeLimit"@, FieldValue::Text(limit@)),
    {
        self.text("mimeLimit", limit)
    }

    /// Redirects the uploading browser to `url` after the upload.
    pub fn return_url(self, url: &str) -> (r: Self)
        ensures
            r.pending() == put(self.pending(), "returnUrl"@, FieldValue::Text(url@)),
    {
        self.text("returnUrl", url)
    }

    /// Sets the body that the service answers an upload with.
    pub fn return_body(self, body: &str) -> (r: Self)
        ensures
            r.pending() == put(self.pending(), "returnBody"@, FieldValue::Text(body@)),
    {
        self.text("returnBody", body)
    }

    /// Has the service call `url` with `body` after an upload.
    pub fn callback(self, url: &str, body: &str) -> (r: Self)
        ensures
            r.pending() == put(
                put(self.pending(), "callbackUrl"@, FieldValue::Text(url@)),
                "callbackBody"@,
                FieldValue::Text(body@),
            ),
    {
        self.text("callbackUrl", url).text("callbackBody", body)
    }

    /// Has the service run `operations` on what was uploaded.
    pub fn persistent_ops(self, operations: &str) -> (r: Self)
        ensures
            r.pending() == put(self.pending(), "persistentOps"@, FieldValue::Text(operations@)),
    {
        self.text("persistentOps", operations)
    }

    /// Names the end user on whose behalf tokens are made.
    pub fn end_user(self, user: &str) -> (r: Self)
        ensures
            r.pending() == put(self.pending(), "endUser"@, FieldValue::Text(user@)),
    {
        self.text("endUser", user)
    }

    /// The policy as set.
    pub fn build(self) -> (r: UploadPolicy)
        ensures
            r.deep_view() == self.pending(),
    {
        self.policy
    }
}

/// A new policy is complete, and setting a field keeps a policy complete
/// unless it puts a value of another kind in place of the scope or the
/// deadline.
pub proof fn lemma_builder_keeps_complete(
    fields: Seq<Field>,
    name: Seq<char>,
    value: FieldValue,
    scope: Seq<char>,
    deadline: u64,
)
    ensures
        is_complete(initial_fields(scope, deadline)),
        is_complete(fields) && name != "scope"@ && name != "deadline"@ ==> is_complete(
            put(fields, name, value),
        ),
        is_complete(fields) && name == "scope"@ && value is Text ==> is_complete(
            put(fields, name, value),
        ),
        is_complete(fields) && name == "deadline"@ && value is Number ==> is_complete(
            put(fields, name, value),
        ),
{
    reveal_strlit("scope");
    reveal_strlit("deadline");
    assert("scope"@.len() != "deadline"@.len());
    let initial = initial_fields(scope, deadline);
    lemma_position_is(initial, "scope"@, 0);
    lemma_position_is(initial, "deadline"@, 1);
    if name != "scope"@ {
        lemma_lookup_put_other(fields, name, value, "scope"@);
    } else {
        lemma_lookup_put_same(fields, name, value);
    }
    if name != "deadline"@ {
        lemma_lookup_put_other(fields, name, value, "deadline"@);
    } else {
        lemma_lookup_put_same(fields, name, value);
    }
}

} // verus!

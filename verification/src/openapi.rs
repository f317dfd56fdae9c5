//! Sample request bodies for OpenAPI schemas: the JSON value an importer
//! proposes for a schema, and its text as `serde_json`'s pretty printer
//! writes it.

use vstd::prelude::*;
use oas3::spec::SchemaType;

use crate::collection_types::opt_chars;
use crate::import::{BodyContent, OpenAPIImporter, OperationInfo, OperationParameter, ParameterLocation};
use crate::json::{json_quote, json_quoted};
use crate::text::{append_chars, chars_eq_str, chars_of, string_of};

verus! {

// ---------------------------------------------------------------------------
// Schemas
// ---------------------------------------------------------------------------

/// The `type` of an inline schema.
#[derive(Debug, Clone, Copy, PartialEq, Eq, Structural)]
pub enum SchemaKind {
    /// No `type` given.
    Untyped,
    /// A list of types.
    Several,
    String,
    Integer,
    Number,
    Boolean,
    Array,
    Object,
    Null,
}

/// A schema of an OpenAPI document, as far as samples are drawn from it.
#[derive(Debug, PartialEq)]
pub enum SchemaModel {
    /// A `true` or `false` schema.
    Boolean,
    /// A reference: its `$ref` path.
    Ref(String),
    /// An inline schema: its type, its format, its properties (in document
    /// order, each name once) and the schema of its array items.
    Inline {
        kind: SchemaKind,
        format: Option<String>,
        properties: Vec<(String, SchemaModel)>,
        items: Option<Box<SchemaModel>>,
    },
}

/// The named schemas of a document (`components.schemas`), when it has a
/// `components` section.
pub open spec fn components_view(c: Option<Vec<(String, SchemaModel)>>) -> Option<Seq<(String, SchemaModel)>> {
    match c {
        Some(v) => Some(v@),
        None => None,
    }
}

/// The part of a reference path after its last `/` (the whole path without one).
pub open spec fn last_segment(p: Seq<char>) -> Seq<char>
    decreases p.len(),
{
    if p.len() == 0 {
        p
    } else if p.last() == '/' {
        Seq::empty()
    } else {
        last_segment(p.drop_last()).push(p.last())
    }
}

/// The first named schema with the given name.
pub open spec fn lookup_schema(cs: Seq<(String, SchemaModel)>, name: Seq<char>) -> Option<SchemaModel>
    decreases cs.len(),
{
    if cs.len() == 0 {
        None
    } else if cs[0].0@ == name {
        Some(cs[0].1)
    } else {
        lookup_schema(cs.drop_first(), name)
    }
}

// ---------------------------------------------------------------------------
// Sample values
// ---------------------------------------------------------------------------

/// A sample JSON value.
pub enum Sample {
    Null,
    True,
    /// The integer 0.
    Zero,
    /// The floating-point number 0, written `0.0`.
    ZeroFloat,
    Text(Seq<char>),
    List(Seq<Sample>),
    /// An object: its members in order.
    Object(Seq<(Seq<char>, Sample)>),
}

/// The sample string for a string schema with the given format.
pub open spec fn format_sample(format: Option<String>) -> Seq<char> {
    match format {
        Some(f) => if f@ == "date"@ {
            "2024-01-01"@
        } else if f@ == "date-time"@ {
            "2024-01-01T00:00:00Z"@
        } else if f@ == "email"@ {
            "example@example.com"@
        } else if f@ == "uuid"@ {
            "550e8400-e29b-41d4-a716-446655440000"@
        } else if f@ == "uri"@ || f@ == "url"@ {
            "https://example.com"@
        } else if f@ == "hostname"@ {
            "example.com"@
        } else if f@ == "ipv4"@ {
            "192.168.1.1"@
        } else if f@ == "ipv6"@ {
            "::1"@
        } else if f@ == "byte"@ {
            "VGhpcyBpcyBhIGJhc2U2NCBleGFtcGxl"@
        } else {
            "string"@
        },
        None => "string"@,
    }
}

/// The sample for a schema, looking references up among the named schemas,
/// with at most `fuel` nested steps; `None` when a reference cannot be
/// resolved (no components, no such name, a `true`/`false` schema there) or
/// the nesting is deeper than `fuel`.
///
/// Strings get a sample by format, integers 0, numbers 0.0, booleans
/// `true`, `null` types and lists of types `null`; an array holds one
/// sample of its items (none for missing or `true`/`false` items); an
/// object holds a sample for each property; a schema without a type, or a
/// `true`/`false` schema, is the empty object. A reference stands for the
/// object of the named schema's properties.
pub open spec fn schema_sample(s: SchemaModel, comps: Option<Seq<(String, SchemaModel)>>, fuel: nat) -> Option<Sample>
    decreases fuel, 0int,
{
    if fuel == 0 {
        None
    } else {
        match s {
            SchemaModel::Boolean => Some(Sample::Object(Seq::empty())),
            SchemaModel::Ref(p) => named_sample(comps, last_segment(p@), (fuel - 1) as nat),
            SchemaModel::Inline { kind, format, properties, items } => match kind {
                SchemaKind::Untyped => Some(Sample::Object(Seq::empty())),
                SchemaKind::Several => Some(Sample::Null),
                SchemaKind::String => Some(Sample::Text(format_sample(format))),
                SchemaKind::Integer => Some(Sample::Zero),
                SchemaKind::Number => Some(Sample::ZeroFloat),
                SchemaKind::Boolean => Some(Sample::True),
                SchemaKind::Null => Some(Sample::Null),
                SchemaKind::Array => match items {
                    Some(b) => match *b {
                        SchemaModel::Boolean => Some(Sample::List(Seq::empty())),
                        _ => match schema_sample(*b, comps, (fuel - 1) as nat) {
                            Some(v) => Some(Sample::List(seq![v])),
                            None => None,
                        },
                    },
                    None => Some(Sample::List(Seq::empty())),
                },
                SchemaKind::Object => match props_sample(properties@, comps, (fuel - 1) as nat) {
                    Some(es) => Some(Sample::Object(es)),
                    None => None,
                },
            },
        }
    }
}

/// The samples of a list of properties, in order; `None` when one has none.
pub open spec fn props_sample(
    props: Seq<(String, SchemaModel)>,
    comps: Option<Seq<(String, SchemaModel)>>,
    fuel: nat,
) -> Option<Seq<(Seq<char>, Sample)>>
    decreases fuel, props.len(),
{
    if props.len() == 0 {
        Some(Seq::empty())
    } else {
        match props_sample(props.drop_last(), comps, fuel) {
            Some(es) => match schema_sample(props.last().1, comps, fuel) {
                Some(v) => Some(es.push((props.last().0@, v))),
                None => None,
            },
            None => None,
        }
    }
}

/// The sample for a named schema: the object of its properties.
pub open spec fn named_sample(comps: Option<Seq<(String, SchemaModel)>>, name: Seq<char>, fuel: nat) -> Option<Sample>
    decreases fuel, 0int,
{
    if fuel == 0 {
        None
    } else {
        match comps {
            None => None,
            Some(cs) => match lookup_schema(cs, name) {
                None => None,
                Some(SchemaModel::Boolean) => None,
                Some(SchemaModel::Ref(p)) => named_sample(comps, last_segment(p@), (fuel - 1) as nat),
                Some(SchemaModel::Inline { properties, .. }) => match props_sample(
                    properties@,
                    comps,
                    (fuel - 1) as nat,
                ) {
                    Some(es) => Some(Sample::Object(es)),
                    None => None,
                },
            },
        }
    }
}

// ---------------------------------------------------------------------------
// Pretty JSON text
// ---------------------------------------------------------------------------

/// `n` spaces.
pub open spec fn spaces(n: nat) -> Seq<char> {
    Seq::new(n, |i: int| ' ')
}

/// A sample as `serde_json::to_string_pretty` writes it, its nested lines
/// indented by `indent` spaces more: two spaces per level, each member or
/// element on a line of its own, `": "` after a key, and `{}` / `[]` for
/// empty objects and lists.
pub open spec fn pretty(v: Sample, indent: nat) -> Seq<char>
    decreases v,
{
    match v {
        Sample::Null => seq!['n', 'u', 'l', 'l'],
        Sample::True => seq!['t', 'r', 'u', 'e'],
        Sample::Zero => seq!['0'],
        Sample::ZeroFloat => seq!['0', '.', '0'],
        Sample::Text(t) => json_quoted(t),
        Sample::List(items) => if items.len() == 0 {
            seq!['[', ']']
        } else {
            seq!['[', '\n'] + items_text(items, indent + 2) + seq!['\n'] + spaces(indent) + seq![']']
        },
        Sample::Object(es) => if es.len() == 0 {
            seq!['{', '}']
        } else {
            seq!['{', '\n'] + entries_text(es, indent + 2) + seq!['\n'] + spaces(indent) + seq!['}']
        },
    }
}

/// The elements of a list, one per line, separated by commas.
pub open spec fn items_text(items: Seq<Sample>, indent: nat) -> Seq<char>
    decreases items,
{
    if items.len() == 0 {
        Seq::empty()
    } else if items.len() == 1 {
        spaces(indent) + pretty(items[0], indent)
    } else {
        items_text(items.subrange(0, items.len() - 1), indent) + seq![',', '\n'] + spaces(indent) + pretty(
            items[items.len() - 1],
            indent,
        )
    }
}

/// One member of an object: the quoted key, `": "` and the value.
pub open spec fn entry_text(e: (Seq<char>, Sample), indent: nat) -> Seq<char>
    decreases e,
{
    spaces(indent) + json_quoted(e.0) + seq![':', ' '] + pretty(e.1, indent)
}

/// The members of an object, one per line, separated by commas.
pub open spec fn entries_text(es: Seq<(Seq<char>, Sample)>, indent: nat) -> Seq<char>
    decreases es,
{
    if es.len() == 0 {
        Seq::empty()
    } else if es.len() == 1 {
        entry_text(es[0], indent)
    } else {
        entries_text(es.subrange(0, es.len() - 1), indent) + seq![',', '\n'] + entry_text(
            es[es.len() - 1],
            indent,
        )
    }
}

// ---------------------------------------------------------------------------
// Writing samples
// ---------------------------------------------------------------------------

/// Appends `n` spaces.
fn push_spaces(out: &mut Vec<char>, n: usize)
    ensures
        final(out)@ == old(out)@ + spaces(n as nat),
{
    let ghost start = out@;
    let mut i: usize = 0;
    assert(start + spaces(0) =~= start);
    while i < n
        invariant
            i <= n,
            out@ == start + spaces(i as nat),
        decreases n - i,
    {
        out.push(' ');
        assert(start + spaces((i + 1) as nat) =~= (start + spaces(i as nat)).push(' '));
        i = i + 1;
    }
}

/// Two characters.
fn two_chars(a: char, b: char) -> (r: Vec<char>)
    ensures
        r@ == seq![a, b],
{
    let mut r: Vec<char> = Vec::new();
    r.push(a);
    r.push(b);
    assert(r@ =~= seq![a, b]);
    r
}

/// The last segment of a reference path.
pub fn last_segment_of(p: &str) -> (r: Vec<char>)
    ensures
        r@ == last_segment(p@),
{
    let v = chars_of(p);
    let mut r: Vec<char> = Vec::new();
    let mut i: usize = 0;
    assert(v@.take(0) =~= Seq::<char>::empty());
    while i < v.len()
        invariant
            i <= v.len(),
            v@ == p@,
            r@ == last_segment(v@.take(i as int)),
        decreases v.len() - i,
    {
        assert(v@.take(i + 1).drop_last() =~= v@.take(i as int));
        assert(v@.take(i + 1).last() == v@[i as int]);
        if v[i] == '/' {
            r = Vec::new();
        } else {
            r.push(v[i]);
        }
        i = i + 1;
    }
    assert(v@.take(v@.len() as int) =~= v@);
    r
}

/// Finds the first named schema with the given name.
fn find_schema<'a>(cs: &'a Vec<(String, SchemaModel)>, name: &[char]) -> (r: Option<&'a SchemaModel>)
    ensures
        match lookup_schema(cs@, name@) {
            Some(x) => r matches Some(y) && *y == x,
            None => r is None,
        },
{
    let mut i: usize = 0;
    assert(cs@.skip(0) =~= cs@);
    while i < cs.len()
        invariant
            i <= cs.len(),
            lookup_schema(cs@, name@) == lookup_schema(cs@.skip(i as int), name@),
        decreases cs.len() - i,
    {
        assert(cs@.skip(i as int)[0] == cs@[i as int]);
        assert(cs@.skip(i as int).drop_first() =~= cs@.skip(i + 1));
        if chars_eq_str(name, cs[i].0.as_str()) {
            return Some(&cs[i].1);
        }
        i = i + 1;
    }
    None
}

/// The sample string for a string schema's format.
fn format_text(format: &Option<String>) -> (r: &'static str)
    ensures
        r@ == format_sample(*format),
{
    match format {
        Some(f) => {
            let fc = chars_of(f.as_str());
            let fs = fc.as_slice();
            if chars_eq_str(fs, "date") {
                "2024-01-01"
            } else if chars_eq_str(fs, "date-time") {
                "2024-01-01T00:00:00Z"
            } else if chars_eq_str(fs, "email") {
                "example@example.com"
            } else if chars_eq_str(fs, "uuid") {
                "550e8400-e29b-41d4-a716-446655440000"
            } else if chars_eq_str(fs, "uri") || chars_eq_str(fs, "url") {
                "https://example.com"
            } else if chars_eq_str(fs, "hostname") {
                "example.com"
            } else if chars_eq_str(fs, "ipv4") {
                "192.168.1.1"
            } else if chars_eq_str(fs, "ipv6") {
                "::1"
            } else if chars_eq_str(fs, "byte") {
                "VGhpcyBpcyBhIGJhc2U2NCBleGFtcGxl"
            } else {
                "string"
            }
        },
        None => "string",
    }
}

/// When the samples of some first properties cannot be drawn, neither can
/// those of all of them.
proof fn lemma_props_prefix_none(
    props: Seq<(String, SchemaModel)>,
    comps: Option<Seq<(String, SchemaModel)>>,
    fuel: nat,
    k: int,
)
    requires
        0 <= k <= props.len(),
        props_sample(props.take(k), comps, fuel) is None,
    ensures
        props_sample(props, comps, fuel) is None,
    decreases props.len() - k,
{
    if k < props.len() {
        assert(props.take(k + 1).drop_last() =~= props.take(k));
        lemma_props_prefix_none(props, comps, fuel, k + 1);
    } else {
        assert(props.take(k) =~= props);
    }
}

/// The text of a schema's sample, nested lines indented by `indent`.
fn schema_text(s: &SchemaModel, comps: &Option<Vec<(String, SchemaModel)>>, fuel: u32, indent: usize) -> (r: Option<Vec<char>>)
    requires
        indent + 2 * fuel + 2 <= usize::MAX,
    ensures
        match schema_sample(*s, components_view(*comps), fuel as nat) {
            Some(v) => r matches Some(t) && t@ == pretty(v, indent as nat),
            None => r is None,
        },
    decreases fuel, 0int,
{
    proof {
        reveal_strlit("null");
        reveal_strlit("0");
        reveal_strlit("0.0");
        reveal_strlit("true");
    }
    if fuel == 0 {
        return None;
    }
    match s {
        SchemaModel::Boolean => Some(two_chars('{', '}')),
        SchemaModel::Ref(p) => {
            let name = last_segment_of(p.as_str());
            named_text(comps, name.as_slice(), fuel - 1, indent)
        },
        SchemaModel::Inline { kind, format, properties, items } => match kind {
            SchemaKind::Untyped => Some(two_chars('{', '}')),
            SchemaKind::Several | SchemaKind::Null => Some(chars_of("null")),
            SchemaKind::String => {
                let q = json_quote(format_text(format));
                Some(chars_of(q.as_str()))
            },
            SchemaKind::Integer => Some(chars_of("0")),
            SchemaKind::Number => Some(chars_of("0.0")),
            SchemaKind::Boolean => Some(chars_of("true")),
            SchemaKind::Array => match items {
                Some(b) => match &**b {
                    SchemaModel::Boolean => Some(two_chars('[', ']')),
                    _ => match schema_text(&**b, comps, fuel - 1, indent + 2) {
                        Some(t) => {
                            let mut out = two_chars('[', '\n');
                            push_spaces(&mut out, indent + 2);
                            append_chars(&mut out, t.as_slice());
                            out.push('\n');
                            push_spaces(&mut out, indent);
                            out.push(']');
                            Some(out)
                        },
                        None => None,
                    },
                },
                None => Some(two_chars('[', ']')),
            },
            SchemaKind::Object => object_text(properties, comps, fuel - 1, indent),
        },
    }
}

/// The text of the object of the properties' samples.
fn object_text(
    props: &Vec<(String, SchemaModel)>,
    comps: &Option<Vec<(String, SchemaModel)>>,
    fuel: u32,
    indent: usize,
) -> (r: Option<Vec<char>>)
    requires
        indent + 2 * fuel + 4 <= usize::MAX,
    ensures
        match props_sample(props@, components_view(*comps), fuel as nat) {
            Some(es) => r matches Some(t) && t@ == pretty(Sample::Object(es), indent as nat),
            None => r is None,
        },
    decreases fuel, 1int,
{
    let ghost cv = components_view(*comps);
    if props.len() == 0 {
        return Some(two_chars('{', '}'));
    }
    let mut body: Vec<char> = Vec::new();
    let ghost mut es: Seq<(Seq<char>, Sample)> = Seq::empty();
    let mut i: usize = 0;
    assert(props@.take(0) =~= Seq::<(String, SchemaModel)>::empty());
    while i < props.len()
        invariant
            i <= props.len(),
            indent + 2 * fuel + 4 <= usize::MAX,
            cv == components_view(*comps),
            props_sample(props@.take(i as int), cv, fuel as nat) == Some(es),
            es.len() == i,
            body@ == entries_text(es, (indent + 2) as nat),
        decreases props.len() - i,
    {
        assert(props@.take(i + 1).drop_last() =~= props@.take(i as int));
        assert(props@.take(i + 1).last() == props@[i as int]);
        match schema_text(&props[i].1, comps, fuel, indent + 2) {
            None => {
                proof {
                    lemma_props_prefix_none(props@, cv, fuel as nat, i + 1);
                }
                return None;
            },
            Some(t) => {
                let ghost v = schema_sample(props@[i as int].1, cv, fuel as nat)->Some_0;
                let ghost before = body@;
                if i > 0 {
                    body.push(',');
                    body.push('\n');
                }
                push_spaces(&mut body, indent + 2);
                let k = json_quote(props[i].0.as_str());
                append_chars(&mut body, chars_of(k.as_str()).as_slice());
                body.push(':');
                body.push(' ');
                append_chars(&mut body, t.as_slice());
                proof {
                    let e = (props@[i as int].0@, v);
                    let es2 = es.push(e);
                    let ind = (indent + 2) as nat;
                    assert(t@ == pretty(v, ind));
                    let line = spaces(ind) + json_quoted(e.0) + seq![':', ' '] + pretty(v, ind);
                    assert(entry_text(e, ind) == line);
                    if i > 0 {
                        assert(body@ =~= before + seq![',', '\n'] + line);
                    } else {
                        assert(body@ =~= before + line);
                    }
                    assert(es2.subrange(0, es2.len() - 1) =~= es);
                    assert(es2[es2.len() - 1] == e);
                    if i == 0 {
                        assert(es2.len() == 1);
                        assert(es2[0] == e);
                    }
                    es = es2;
                }
                i = i + 1;
            },
        }
    }
    assert(props@.take(props@.len() as int) =~= props@);
    let mut out = two_chars('{', '\n');
    append_chars(&mut out, body.as_slice());
    out.push('\n');
    push_spaces(&mut out, indent);
    out.push('}');
    Some(out)
}

/// The text of a named schema's sample.
fn named_text(comps: &Option<Vec<(String, SchemaModel)>>, name: &[char], fuel: u32, indent: usize) -> (r: Option<Vec<char>>)
    requires
        indent + 2 * fuel + 4 <= usize::MAX,
    ensures
        match named_sample(components_view(*comps), name@, fuel as nat) {
            Some(v) => r matches Some(t) && t@ == pretty(v, indent as nat),
            None => r is None,
        },
    decreases fuel, 1int,
{
    if fuel == 0 {
        return None;
    }
    match comps {
        None => None,
        Some(cs) => match find_schema(cs, name) {
            None => None,
            Some(SchemaModel::Boolean) => None,
            Some(SchemaModel::Ref(p)) => {
                let n = last_segment_of(p.as_str());
                named_text(comps, n.as_slice(), fuel - 1, indent)
            },
            Some(SchemaModel::Inline { properties, .. }) => object_text(properties, comps, fuel - 1, indent),
        },
    }
}

/// The sample request body for a schema: its sample value written as
/// `serde_json::to_string_pretty` writes it, with at most `depth` nested
/// steps; `None` when no sample can be drawn (see `schema_sample`).
pub fn sample_json(schema: &SchemaModel, components: &Option<Vec<(String, SchemaModel)>>, depth: u16) -> (s: Option<String>)
    ensures
        match schema_sample(*schema, components_view(*components), depth as nat) {
            Some(v) => s matches Some(t) && t@ == pretty(v, 0),
            None => s is None,
        },
{
    match schema_text(schema, components, depth as u32, 0) {
        Some(t) => Some(string_of(t.as_slice())),
        None => None,
    }
}

// ---------------------------------------------------------------------------
// Reading a document
// ---------------------------------------------------------------------------

#[verifier::external_type_specification]
#[verifier::external_body]
pub struct ExOasSpec(oas3::spec::Spec);

#[verifier::external_type_specification]
#[verifier::external_body]
pub struct ExOasOperation(oas3::spec::Operation);

#[verifier::external_type_specification]
#[verifier::external_body]
pub struct ExOasSchema(oas3::spec::Schema);

#[verifier::external_type_specification]
#[verifier::external_body]
pub struct ExOasTypeSet(oas3::spec::SchemaTypeSet);

#[verifier::external_type_specification]
#[verifier::external_body]
pub struct ExOasParameterIn(oas3::spec::ParameterIn);

/// An operation of a document, as read.
#[derive(Debug)]
pub struct OperationModel {
    /// The method name, as `oas3` writes it.
    pub method: String,
    pub path: String,
    pub tags: Vec<String>,
    pub operation_id: Option<String>,
    /// Each parameter, resolved; `None` where its reference does not resolve.
    pub parameters: Vec<Option<OperationParameter>>,
    /// The contents of the request body (content type and schema), when
    /// there is one and it resolves.
    pub request_body: Option<Vec<(String, Option<SchemaModel>)>>,
}

/// What the importer reads of an OpenAPI document.
#[derive(Debug)]
pub struct OpenApiDoc {
    /// The servers' URLs, in order.
    pub servers: Vec<String>,
    /// The operations, path by path (in document order), and within a path in
    /// the order get, put, post, delete, options, head, patch, trace.
    pub operations: Vec<OperationModel>,
    /// The named schemas (`components.schemas`, in document order), when there
    /// is a `components` section.
    pub schemas: Option<Vec<(String, SchemaModel)>>,
}

/// What `oas3` reads from a document text (JSON when `is_json`, YAML
/// otherwise), as far as the importer reads it; `None` when the text is not
/// an OpenAPI document.
pub uninterp spec fn openapi_doc(text: Seq<char>, is_json: bool) -> Option<OpenApiDoc>;

/// `oas3::from_json` (or `serde_yaml_ng::from_str` into `oas3::spec::Spec`
/// for YAML), with the parsed document written into the library's model by
/// `document_model`. The result is named by `openapi_doc`.
#[verifier::external_body]
pub fn parse_openapi(text: &str, is_json: bool) -> (r: Option<OpenApiDoc>)
    ensures
        r == openapi_doc(text@, is_json),
{
    let spec: Option<oas3::spec::Spec> = if is_json {
        oas3::from_json(text).ok()
    } else {
        serde_yaml_ng::from_str(text).ok()
    };
    spec.map(|s| document_model(&s))
}

/// Writes a parsed document into the library's model: server URLs, the
/// operations of each path (`PathItem::methods`), and the named schemas.
/// A step of `parse_openapi`.
#[verifier::external_body]
fn document_model(spec: &oas3::spec::Spec) -> (r: OpenApiDoc) {
    let mut operations = Vec::new();
    for (path, item) in spec.paths.iter().flatten() {
        for (method, op) in item.methods() {
            operations.push(operation_model(spec, path, method.to_string(), op));
        }
    }
    let servers = spec.servers.iter().map(|s| s.url.clone()).collect();
    let schemas = spec.components.as_ref().map(|c| c.schemas.iter().map(|(k, v)| (k.clone(), schema_model(v))).collect());
    OpenApiDoc { servers, operations, schemas }
}

/// Writes one operation into the library's model; parameters and the
/// request body are resolved with `ObjectOrReference::resolve`. A step of
/// `parse_openapi`.
#[verifier::external_body]
fn operation_model(spec: &oas3::spec::Spec, path: &str, method: String, op: &oas3::spec::Operation) -> (r: OperationModel) {
    let parameters = op.parameters.iter().map(|p| p.resolve(spec).ok().map(|p| OperationParameter {
        name: p.name.clone(),
        location: parameter_location(&p.location),
    })).collect();
    let request_body = op.request_body.as_ref().and_then(|rb| rb.resolve(spec).ok()).map(|rb| {
        rb.content.iter().map(|(ct, m)| (ct.clone(), m.schema.as_ref().map(schema_model))).collect()
    });
    let (tags, operation_id) = (op.tags.clone(), op.operation_id.clone());
    OperationModel { method, path: path.to_string(), tags, operation_id, parameters, request_body }
}

/// Writes a schema into the library's model, one variant for one. A step
/// of `parse_openapi`.
#[verifier::external_body]
fn schema_model(s: &oas3::spec::Schema) -> (r: SchemaModel) {
    match s {
        oas3::spec::Schema::Boolean(_) => SchemaModel::Boolean,
        oas3::spec::Schema::Object(o) => match o.as_ref() {
            oas3::spec::ObjectOrReference::Ref { ref_path, .. } => SchemaModel::Ref(ref_path.clone()),
            oas3::spec::ObjectOrReference::Object(o) => SchemaModel::Inline {
                kind: schema_kind(&o.schema_type),
                format: o.format.clone(),
                properties: o.properties.iter().map(|(k, v)| (k.clone(), schema_model(v))).collect(),
                items: o.items.as_ref().map(|i| Box::new(schema_model(i))),
            },
        },
    }
}

/// The library's name for a schema's `type`, one variant for one. A step of
/// `parse_openapi`.
#[verifier::external_body]
fn schema_kind(t: &Option<oas3::spec::SchemaTypeSet>) -> (r: SchemaKind) {
    match t {
        None => SchemaKind::Untyped,
        Some(oas3::spec::SchemaTypeSet::Multiple(_)) => SchemaKind::Several,
        Some(oas3::spec::SchemaTypeSet::Single(t)) => match t {
            SchemaType::String => SchemaKind::String,
            SchemaType::Integer => SchemaKind::Integer,
            SchemaType::Number => SchemaKind::Number,
            SchemaType::Boolean => SchemaKind::Boolean,
            SchemaType::Array => SchemaKind::Array,
            SchemaType::Object => SchemaKind::Object,
            SchemaType::Null => SchemaKind::Null,
        },
    }
}

/// The library's name for a parameter's location, one variant for one. A
/// step of `parse_openapi`.
#[verifier::external_body]
fn parameter_location(l: &oas3::spec::ParameterIn) -> (r: ParameterLocation) {
    match l {
        oas3::spec::ParameterIn::Header => ParameterLocation::Header,
        oas3::spec::ParameterIn::Query => ParameterLocation::Query,
        oas3::spec::ParameterIn::Path => ParameterLocation::Path,
        oas3::spec::ParameterIn::Cookie => ParameterLocation::Cookie,
    }
}

// ---------------------------------------------------------------------------
// From a document to the importer's operations
// ---------------------------------------------------------------------------

/// How deep a sample body may nest.
pub const SAMPLE_DEPTH: u16 = 64;

/// The parameters that resolved, in order.
pub open spec fn resolved_params(ps: Seq<Option<OperationParameter>>) -> Seq<OperationParameter>
    decreases ps.len(),
{
    if ps.len() == 0 {
        Seq::empty()
    } else {
        let rest = resolved_params(ps.drop_last());
        match ps.last() {
            Some(p) => rest.push(p),
            None => rest,
        }
    }
}

/// The sample the importer proposes for a content's schema.
pub open spec fn body_sample(schema: Option<SchemaModel>, comps: Option<Seq<(String, SchemaModel)>>) -> Option<Seq<char>> {
    match schema {
        None => None,
        Some(s) => match schema_sample(s, comps, SAMPLE_DEPTH as nat) {
            Some(v) => Some(pretty(v, 0)),
            None => None,
        },
    }
}

/// The request body contents of an imported operation: each content type
/// with the sample drawn from its schema.
pub open spec fn imported_contents(
    cs: Seq<(String, Option<SchemaModel>)>,
    bs: Seq<BodyContent>,
    comps: Option<Seq<(String, SchemaModel)>>,
) -> bool {
    &&& bs.len() == cs.len()
    &&& forall|i: int|
        0 <= i < bs.len() ==> (#[trigger] bs[i]).content_type@ == cs[i].0@ && opt_chars(bs[i].sample)
            == body_sample(cs[i].1, comps)
}

/// `r` is the operation the importer reads from `op`.
pub open spec fn imported_operation(op: OperationModel, comps: Option<Seq<(String, SchemaModel)>>, r: OperationInfo) -> bool {
    &&& r.method == op.method
    &&& r.path == op.path
    &&& r.tags@ == op.tags@
    &&& r.operation_id == op.operation_id
    &&& r.parameters@ == resolved_params(op.parameters@)
    &&& match op.request_body {
        None => r.request_body is None,
        Some(cs) => r.request_body matches Some(bs) && imported_contents(cs@, bs@, comps),
    }
}

/// The operation the importer reads from an operation of the document.
pub fn import_operation(op: &OperationModel, comps: &Option<Vec<(String, SchemaModel)>>) -> (r: OperationInfo)
    ensures
        imported_operation(*op, components_view(*comps), r),
{
    let mut tags: Vec<String> = Vec::new();
    let mut i: usize = 0;
    while i < op.tags.len()
        invariant
            i <= op.tags.len(),
            tags@ == op.tags@.take(i as int),
        decreases op.tags.len() - i,
    {
        tags.push(op.tags[i].clone());
        assert(op.tags@.take(i + 1) =~= op.tags@.take(i as int).push(op.tags@[i as int]));
        i = i + 1;
    }
    assert(op.tags@.take(op.tags@.len() as int) =~= op.tags@);
    let mut parameters: Vec<OperationParameter> = Vec::new();
    let mut i: usize = 0;
    while i < op.parameters.len()
        invariant
            i <= op.parameters.len(),
            parameters@ == resolved_params(op.parameters@.take(i as int)),
        decreases op.parameters.len() - i,
    {
        assert(op.parameters@.take(i + 1).drop_last() =~= op.parameters@.take(i as int));
        assert(op.parameters@.take(i + 1).last() == op.parameters@[i as int]);
        match &op.parameters[i] {
            Some(p) => parameters.push(OperationParameter { name: p.name.clone(), location: p.location }),
            None => {},
        }
        i = i + 1;
    }
    assert(op.parameters@.take(op.parameters@.len() as int) =~= op.parameters@);
    let request_body = match &op.request_body {
        None => None,
        Some(cs) => {
            let mut bs: Vec<BodyContent> = Vec::new();
            let mut i: usize = 0;
            while i < cs.len()
                invariant
                    i <= cs.len(),
                    op.request_body == Some(*cs),
                    imported_contents(cs@.take(i as int), bs@, components_view(*comps)),
                decreases cs.len() - i,
            {
                let sample = match &cs[i].1 {
                    None => None,
                    Some(s) => sample_json(s, comps, SAMPLE_DEPTH),
                };
                let ghost before = bs@;
                bs.push(BodyContent { content_type: cs[i].0.clone(), sample });
                assert forall|j: int| 0 <= j < bs@.len() implies (#[trigger] bs@[j]).content_type@ == cs@.take(
                    i + 1,
                )[j].0@ && opt_chars(bs@[j].sample) == body_sample(cs@.take(i + 1)[j].1, components_view(*comps)) by {
                    if j < i {
                        assert(bs@[j] == before[j]);
                        assert(cs@.take(i + 1)[j] == cs@.take(i as int)[j]);
                    }
                }
                i = i + 1;
            }
            assert(cs@.take(cs@.len() as int) =~= cs@);
            Some(bs)
        },
    };
    let operation_id = match &op.operation_id {
        Some(id) => Some(id.clone()),
        None => None,
    };
    OperationInfo {
        method: op.method.clone(),
        path: op.path.clone(),
        tags,
        operation_id,
        parameters,
        request_body,
    }
}

impl OpenAPIImporter {
    /// An importer for a read document: its operations as the importer reads
    /// them (see `imported_operation`), and its first server's URL.
    pub fn from_document(doc: &OpenApiDoc) -> (r: OpenAPIImporter)
        ensures
            r.operations().len() == doc.operations@.len(),
            forall|i: int|
                0 <= i < doc.operations@.len() ==> imported_operation(
                    #[trigger] doc.operations@[i],
                    components_view(doc.schemas),
                    r.operations()[i],
                ),
            r.base_url()@ == if doc.servers@.len() > 0 {
                doc.servers@[0]@
            } else {
                "http://localhost"@
            },
    {
        let mut operations: Vec<OperationInfo> = Vec::new();
        let mut i: usize = 0;
        while i < doc.operations.len()
            invariant
                i <= doc.operations.len(),
                operations@.len() == i,
                forall|j: int|
                    0 <= j < i ==> imported_operation(
                        #[trigger] doc.operations@[j],
                        components_view(doc.schemas),
                        operations@[j],
                    ),
            decreases doc.operations.len() - i,
        {
            let op = import_operation(&doc.operations[i], &doc.schemas);
            operations.push(op);
            i = i + 1;
        }
        OpenAPIImporter::new(operations, &doc.servers)
    }

    /// Parse an OpenAPI document text (JSON when `is_json`, YAML otherwise)
    /// into an importer; `None` when the text is not an OpenAPI document.
    pub fn from_text(text: &str, is_json: bool) -> (r: Option<OpenAPIImporter>)
        ensures
            match openapi_doc(text@, is_json) {
                None => r is None,
                Some(d) => r matches Some(imp) && imp.operations().len() == d.operations@.len() && (forall|i: int|
                    0 <= i < d.operations@.len() ==> imported_operation(
                        #[trigger] d.operations@[i],
                        components_view(d.schemas),
                        imp.operations()[i],
                    )) && imp.base_url()@ == if d.servers@.len() > 0 {
                    d.servers@[0]@
                } else {
                    "http://localhost"@
                },
            },
    {
        match parse_openapi(text, is_json) {
            Some(doc) => Some(OpenAPIImporter::from_document(&doc)),
            None => None,
        }
    }
}

} // verus!

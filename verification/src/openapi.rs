//! OpenAPI specifications: their operations, the input schema of each, and the URL of a call.

use vstd::prelude::*;
use vstd::string::*;
use vstd::utf8::encode_utf8;

use crate::error::{is_error, AppError, ErrorKind};
use crate::http::{status_failure, status_failure_message};
use crate::output::{is_json_or_text, InputSchema, Payload, Protocol, Tool, ToolManifest};
use crate::outside::{json_parses, json_text_parses, percent_encoded, url_encode};
use crate::pairs::{
    distinct_keys, lemma_upsert_is_map_insert, pair_views, pairs_map, upsert, upsert_pair,
};
use crate::text::{
    contains, contains_char, contains_seq, has_prefix, lemma_precedes_irreflexive, replace,
    replace_all, seq_precedes, starts_with, str_eq, str_precedes, strip_trailing, trim_end_char,
};

verus! {

/// An OpenAPI document, as far as the tool reads it. Maps of the document are lists of
/// entries in key order; JSON schemas are kept as JSON text.
#[derive(Debug)]
pub struct OpenApiSpec {
    pub openapi: String,
    pub info: Info,
    pub servers: Option<Vec<Server>>,
    pub paths: Vec<(String, PathItem)>,
    pub components: Option<Components>,
}

#[derive(Debug)]
pub struct Info {
    pub title: String,
    pub description: Option<String>,
    pub version: String,
}

#[derive(Debug)]
pub struct Server {
    pub url: String,
    pub description: Option<String>,
}

/// The operations at one path, by HTTP method.
#[derive(Debug)]
pub struct PathItem {
    pub get: Option<Operation>,
    pub post: Option<Operation>,
    pub put: Option<Operation>,
    pub delete: Option<Operation>,
    pub patch: Option<Operation>,
    pub parameters: Option<Vec<Parameter>>,
}

#[derive(Debug)]
pub struct Operation {
    pub summary: Option<String>,
    pub description: Option<String>,
    pub operation_id: String,
    pub parameters: Option<Vec<Parameter>>,
    pub request_body: Option<RequestBody>,
    pub responses: Vec<(String, Response)>,
}

#[derive(Debug)]
pub struct Parameter {
    pub name: String,
    /// Where the parameter goes: `query`, `header` or `path`.
    pub location: String,
    pub description: Option<String>,
    pub required: Option<bool>,
    pub schema: Option<String>,
}

#[derive(Debug)]
pub struct RequestBody {
    pub description: Option<String>,
    pub content: Vec<(String, MediaType)>,
    pub required: Option<bool>,
}

#[derive(Debug)]
pub struct MediaType {
    pub schema: Option<String>,
}

#[derive(Debug)]
pub struct Response {
    pub description: Option<String>,
    pub content: Option<Vec<(String, MediaType)>>,
}

#[derive(Debug)]
pub struct Components {
    pub schemas: Option<Vec<(String, String)>>,
}

/// The input schema of an operation: an object whose properties are its parameters and,
/// where it takes a JSON body, `body`.
#[derive(Debug)]
pub struct OperationSchema {
    /// Each property with its JSON schema as text; no name occurs twice.
    pub properties: Vec<(String, String)>,
    /// The names of the required properties, in order.
    pub required: Vec<String>,
}

/// The keys of a list of map entries rise strictly, in the order of `String`, as the
/// entries of a `BTreeMap` come: no key occurs twice.
pub open spec fn keys_ascending<V>(ps: Seq<(String, V)>) -> bool {
    forall|i: int, j: int| 0 <= i < j < ps.len() ==> seq_precedes(ps[i].0@, ps[j].0@)
}

/// The media types of a response, if it lists any, have rising keys.
pub open spec fn media_well_formed(c: Option<Vec<(String, MediaType)>>) -> bool {
    match c {
        Some(v) => keys_ascending(v@),
        None => true,
    }
}

/// The maps of an operation, if there is one, have rising keys.
pub open spec fn operation_well_formed(o: Option<Operation>) -> bool {
    match o {
        Some(op) => {
            &&& keys_ascending(op.responses@)
            &&& forall|i: int|
                0 <= i < op.responses@.len() ==> media_well_formed((#[trigger] op.responses@[i]).1.content)
            &&& op.request_body matches Some(rb) ==> keys_ascending(rb.content@)
        },
        None => true,
    }
}

/// The maps of the operations at a path have rising keys.
pub open spec fn item_well_formed(item: PathItem) -> bool {
    &&& operation_well_formed(item.get)
    &&& operation_well_formed(item.post)
    &&& operation_well_formed(item.put)
    &&& operation_well_formed(item.delete)
    &&& operation_well_formed(item.patch)
}

impl OpenApiSpec {
    /// Every map of the document, paths first, has rising keys, as a document read into
    /// `BTreeMap`s has.
    pub open spec fn well_formed(self) -> bool {
        &&& keys_ascending(self.paths@)
        &&& forall|i: int| 0 <= i < self.paths@.len() ==> item_well_formed(#[trigger] self.paths@[i].1)
        &&& self.components matches Some(c) ==> (c.schemas matches Some(s) ==> keys_ascending(s@))
    }
}

/// Rising keys are distinct keys.
pub proof fn lemma_ascending_keys_are_distinct<V>(ps: Seq<(String, V)>)
    requires
        keys_ascending(ps),
    ensures
        forall|i: int, j: int| 0 <= i < j < ps.len() ==> ps[i].0@ != ps[j].0@,
{
    assert forall|i: int, j: int| 0 <= i < j < ps.len() implies ps[i].0@ != ps[j].0@ by {
        lemma_precedes_irreflexive(ps[i].0@);
    }
}

/// Whether the keys of a list of map entries rise strictly.
pub fn keys_are_ascending<V>(v: &Vec<(String, V)>) -> (r: bool)
    ensures
        r == keys_ascending(v@),
{
    let n = v.len();
    let mut i: usize = 0;
    while i < n
        invariant
            n == v@.len(),
            i <= n,
            forall|a: int, b: int| 0 <= a < b < n && a < i ==> seq_precedes(v@[a].0@, v@[b].0@),
        decreases n - i,
    {
        let mut j: usize = i + 1;
        while j < n
            invariant
                n == v@.len(),
                i < n,
                i + 1 <= j <= n,
                forall|a: int, b: int| 0 <= a < b < n && a < i ==> seq_precedes(v@[a].0@, v@[b].0@),
                forall|b: int| i < b < j ==> seq_precedes(v@[i as int].0@, v@[b].0@),
            decreases n - j,
        {
            if !str_precedes(v[i].0.as_str(), v[j].0.as_str()) {
                return false;
            }
            j = j + 1;
        }
        i = i + 1;
    }
    true
}

/// Whether the maps of an operation have rising keys.
fn operation_is_well_formed(o: &Option<Operation>) -> (r: bool)
    ensures
        r == operation_well_formed(*o),
{
    match o {
        None => true,
        Some(op) => {
            if !keys_are_ascending(&op.responses) {
                return false;
            }
            let mut i: usize = 0;
            while i < op.responses.len()
                invariant
                    *o == Some(*op),
                    i <= op.responses@.len(),
                    forall|k: int|
                        0 <= k < i ==> media_well_formed((#[trigger] op.responses@[k]).1.content),
                decreases op.responses@.len() - i,
            {
                let entry = &op.responses[i];
                assert(*entry == op.responses@[i as int]);
                if let Some(c) = &entry.1.content {
                    if !keys_are_ascending(c) {
                        assert(entry.1.content == Some(*c));
                        assert(!media_well_formed(op.responses@[i as int].1.content));

                        return false;
                    }
                }
                i = i + 1;
            }
            match &op.request_body {
                Some(rb) => keys_are_ascending(&rb.content),
                None => true,
            }
        },
    }
}

/// The base URL that a specification names: its first server's, else `http://localhost`.
pub open spec fn spec_base_url(s: OpenApiSpec) -> Seq<char> {
    match s.servers {
        Some(v) => if v@.len() > 0 {
            v@[0].url@
        } else {
            "http://localhost"@
        },
        None => "http://localhost"@,
    }
}

/// An operation with its path and method, as views.
pub type OperationAt = (Seq<char>, Seq<char>, Operation);

/// The operation `o` under `method` at `path`, if there is one.
pub open spec fn method_operation(path: Seq<char>, method: Seq<char>, o: Option<Operation>) -> Seq<
    OperationAt,
> {
    match o {
        Some(op) => seq![(path, method, op)],
        None => Seq::empty(),
    }
}

/// The operations at `path`, in the order GET, POST, PUT, DELETE, PATCH.
pub open spec fn item_operations(path: Seq<char>, item: PathItem) -> Seq<OperationAt> {
    method_operation(path, "GET"@, item.get) + method_operation(path, "POST"@, item.post)
        + method_operation(path, "PUT"@, item.put) + method_operation(path, "DELETE"@, item.delete)
        + method_operation(path, "PATCH"@, item.patch)
}

/// All operations of a specification, path by path in the order of `paths`.
pub open spec fn all_operations(paths: Seq<(String, PathItem)>) -> Seq<OperationAt>
    decreases paths.len(),
{
    if paths.len() == 0 {
        Seq::empty()
    } else {
        all_operations(paths.drop_last()) + item_operations(paths.last().0@, paths.last().1)
    }
}

/// The views of a list of operations found in a specification.
pub open spec fn operation_views(v: Seq<(String, String, &Operation)>) -> Seq<OperationAt> {
    v.map_values(|e: (String, String, &Operation)| (e.0@, e.1@, *e.2))
}

/// The description under which an operation is listed: its description, else its summary,
/// else its method and path.
pub open spec fn listed_description(e: OperationAt) -> Seq<char> {
    match e.2.description {
        Some(d) => d@,
        None => match e.2.summary {
            Some(s) => s@,
            None => e.1 + seq![' '] + e.0,
        },
    }
}

/// The position of the first operation whose id is `id`.
pub open spec fn first_with_id(ops: Seq<OperationAt>, id: Seq<char>) -> Option<int> {
    if exists|k: int| 0 <= k < ops.len() && ops[k].2.operation_id@ == id {
        Some(
            choose|k: int|
                0 <= k < ops.len() && ops[k].2.operation_id@ == id && forall|j: int|
                    0 <= j < k ==> ops[j].2.operation_id@ != id,
        )
    } else {
        None
    }
}

/// The message of the error for an unknown operation.
pub open spec fn not_found_message(id: Seq<char>) -> Seq<char> {
    "Operation '"@ + id + "' not found"@
}

/// `e` is the error for an unknown operation `id`.
pub open spec fn is_not_found_error(e: AppError, id: Seq<char>) -> bool {
    e matches AppError::Cli(m) && m@ == not_found_message(id)
}

/// The JSON schema text of a parameter: its own, else a string schema.
pub open spec fn parameter_schema(p: Parameter) -> Seq<char> {
    match p.schema {
        Some(s) => s@,
        None => "{\"type\":\"string\"}"@,
    }
}

/// The properties that the parameters give, a later parameter replacing an earlier one of
/// the same name.
pub open spec fn parameter_properties(ps: Seq<Parameter>) -> Seq<(Seq<char>, Seq<char>)>
    decreases ps.len(),
{
    if ps.len() == 0 {
        Seq::empty()
    } else {
        upsert(parameter_properties(ps.drop_last()), ps.last().name@, parameter_schema(ps.last()))
    }
}

/// The names of the parameters marked required, in order.
pub open spec fn required_parameters(ps: Seq<Parameter>) -> Seq<Seq<char>>
    decreases ps.len(),
{
    if ps.len() == 0 {
        Seq::empty()
    } else if ps.last().required == Some(true) {
        required_parameters(ps.drop_last()).push(ps.last().name@)
    } else {
        required_parameters(ps.drop_last())
    }
}

/// The media type that `content` has under `key`.
pub open spec fn media_type_for(content: Seq<(String, MediaType)>, key: Seq<char>) -> Option<
    MediaType,
>
    decreases content.len(),
{
    if content.len() == 0 {
        None
    } else if content[0].0@ == key {
        Some(content[0].1)
    } else {
        media_type_for(content.drop_first(), key)
    }
}

/// The schema text of an operation's JSON body, and whether the body is required.
pub open spec fn json_body_schema(op: Operation) -> Option<(Seq<char>, bool)> {
    match op.request_body {
        Some(rb) => match media_type_for(rb.content@, "application/json"@) {
            Some(mt) => match mt.schema {
                Some(s) => Some((s@, rb.required == Some(true))),
                None => None,
            },
            None => None,
        },
        None => None,
    }
}

/// The parameters of an operation, none where it lists none.
pub open spec fn operation_parameters(op: Operation) -> Seq<Parameter> {
    match op.parameters {
        Some(v) => v@,
        None => Seq::empty(),
    }
}

/// The properties of an operation's input schema.
pub open spec fn schema_properties(op: Operation) -> Seq<(Seq<char>, Seq<char>)> {
    let base = parameter_properties(operation_parameters(op));
    match json_body_schema(op) {
        Some((s, _)) => upsert(base, "body"@, s),
        None => base,
    }
}

/// The required properties of an operation's input schema.
pub open spec fn schema_required(op: Operation) -> Seq<Seq<char>> {
    let base = required_parameters(operation_parameters(op));
    match json_body_schema(op) {
        Some((_, true)) => base.push("body"@),
        _ => base,
    }
}

/// The path with `{key}` replaced by the value, for each parameter in turn.
pub open spec fn substituted_path(path: Seq<char>, params: Seq<(Seq<char>, Seq<char>)>) -> Seq<
    char,
>
    decreases params.len(),
{
    if params.len() == 0 {
        path
    } else {
        substituted_path(
            replace_all(path, placeholder(params[0].0), params[0].1),
            params.drop_first(),
        )
    }
}

/// One query parameter, percent-encoded: `key=value`.
pub open spec fn query_pair(p: (Seq<char>, Seq<char>)) -> Seq<char> {
    percent_encoded(encode_utf8(p.0)) + seq!['='] + percent_encoded(encode_utf8(p.1))
}

/// The query parameters joined by `&`.
pub open spec fn query_string(params: Seq<(Seq<char>, Seq<char>)>) -> Seq<char>
    decreases params.len(),
{
    if params.len() == 0 {
        Seq::empty()
    } else if params.len() == 1 {
        query_pair(params[0])
    } else {
        query_string(params.drop_last()) + seq!['&'] + query_pair(params.last())
    }
}

/// The URL of a call: the base URL without trailing `/`, the path with its parameters
/// filled in, and the query, where there is one, after `?`.
pub open spec fn call_url(
    base: Seq<char>,
    path: Seq<char>,
    path_params: Seq<(Seq<char>, Seq<char>)>,
    query_params: Seq<(Seq<char>, Seq<char>)>,
) -> Seq<char> {
    strip_trailing(base, '/') + substituted_path(path, path_params) + if query_params.len() == 0 {
        Seq::empty()
    } else {
        seq!['?'] + query_string(query_params)
    }
}

/// The placeholder of a path parameter: `{key}`.
pub open spec fn placeholder(k: Seq<char>) -> Seq<char> {
    seq!['{'] + k + seq!['}']
}

/// How the `--key value` arguments of a call of the operation at `path` are sent: the value
/// of `body`, where it is JSON, as the body (the last `body` decides); a key whose `{key}`
/// placeholder the path holds, or a value with `/` or `:`, as a path parameter; any other
/// as a query parameter. A later value replaces an earlier one of the same key.
pub open spec fn routed_params(path: Seq<char>, ps: Seq<(Seq<char>, Seq<char>)>) -> (
    Seq<(Seq<char>, Seq<char>)>,
    Seq<(Seq<char>, Seq<char>)>,
    Option<Seq<char>>,
)
    decreases ps.len(),
{
    if ps.len() == 0 {
        (Seq::empty(), Seq::empty(), None)
    } else {
        let prev = routed_params(path, ps.drop_last());
        let k = ps.last().0;
        let v = ps.last().1;
        if k == "body"@ {
            (prev.0, prev.1, if json_text_parses(v) { Some(v) } else { None })
        } else if contains_seq(path, placeholder(k)) || v.contains('/') || v.contains(':') {
            (upsert(prev.0, k, v), prev.1, prev.2)
        } else {
            (prev.0, upsert(prev.1, k, v), prev.2)
        }
    }
}

/// Adds the operation `o` under `method` at `path` to `out`.
fn push_operation<'a>(
    out: &mut Vec<(String, String, &'a Operation)>,
    path: &String,
    method: &str,
    o: &'a Option<Operation>,
)
    ensures
        operation_views(final(out)@) == operation_views(old(out)@) + method_operation(
            path@,
            method@,
            *o,
        ),
{
    match o {
        Some(op) => {
            out.push((path.clone(), String::from_str(method), op));
        },
        None => {},
    }
    assert(operation_views(out@) =~= operation_views(old(out)@) + method_operation(
        path@,
        method@,
        *o,
    ));
}

/// Adds the operations at `path` to `out`.
fn push_item_operations<'a>(
    out: &mut Vec<(String, String, &'a Operation)>,
    path: &String,
    item: &'a PathItem,
)
    ensures
        operation_views(final(out)@) == operation_views(old(out)@) + item_operations(path@, *item),
{
    push_operation(out, path, "GET", &item.get);
    push_operation(out, path, "POST", &item.post);
    push_operation(out, path, "PUT", &item.put);
    push_operation(out, path, "DELETE", &item.delete);
    push_operation(out, path, "PATCH", &item.patch);
    assert(operation_views(out@) =~= operation_views(old(out)@) + item_operations(path@, *item));
}

impl OpenApiSpec {
    /// Whether every map of the document has rising keys.
    pub fn is_well_formed(&self) -> (r: bool)
        ensures
            r == self.well_formed(),
    {
        if !keys_are_ascending(&self.paths) {
            return false;
        }
        let mut i: usize = 0;
        while i < self.paths.len()
            invariant
                i <= self.paths@.len(),
                forall|k: int| 0 <= k < i ==> item_well_formed(#[trigger] self.paths@[k].1),
            decreases self.paths@.len() - i,
        {
            let item = &self.paths[i].1;
            if !(operation_is_well_formed(&item.get) && operation_is_well_formed(&item.post)
                && operation_is_well_formed(&item.put) && operation_is_well_formed(&item.delete)
                && operation_is_well_formed(&item.patch)) {
                return false;
            }
            i = i + 1;
        }
        match &self.components {
            Some(c) => match &c.schemas {
                Some(s) => keys_are_ascending(s),
                None => true,
            },
            None => true,
        }
    }

    /// The base URL that the specification names: its first server's, else
    /// `http://localhost`.
    pub fn get_base_url(&self) -> (r: String)
        ensures
            r@ == spec_base_url(*self),
    {
        match &self.servers {
            Some(v) => if v.len() > 0 {
                v[0].url.clone()
            } else {
                String::from_str("http://localhost")
            },
            None => String::from_str("http://localhost"),
        }
    }

    /// Every operation with its path and method: path by path, and at each path in the
    /// order GET, POST, PUT, DELETE, PATCH.
    pub fn get_operations(&self) -> (r: Vec<(String, String, &Operation)>)
        ensures
            operation_views(r@) == all_operations(self.paths@),
    {
        let mut out: Vec<(String, String, &Operation)> = Vec::new();
        let mut i: usize = 0;
        while i < self.paths.len()
            invariant
                i <= self.paths@.len(),
                operation_views(out@) == all_operations(self.paths@.take(i as int)),
            decreases self.paths@.len() - i,
        {
            let (path, item) = &self.paths[i];
            push_item_operations(&mut out, path, item);
            assert(self.paths@.take(i + 1).drop_last() =~= self.paths@.take(i as int));
            assert(operation_views(out@) =~= all_operations(self.paths@.take(i + 1)));
            i = i + 1;
        }
        assert(self.paths@.take(i as int) =~= self.paths@);
        out
    }
}

/// Runs the operations of a specification against a base URL.
#[derive(Debug)]
pub struct OpenApiExecutor {
    pub base_url: String,
    pub spec: OpenApiSpec,
}

/// The properties after adding `name` with `schema` to `props`.
proof fn lemma_parameter_properties_step(ps: Seq<Parameter>, i: int)
    requires
        0 <= i < ps.len(),
    ensures
        parameter_properties(ps.take(i + 1)) == upsert(
            parameter_properties(ps.take(i)),
            ps[i].name@,
            parameter_schema(ps[i]),
        ),
        required_parameters(ps.take(i + 1)) == if ps[i].required == Some(true) {
            required_parameters(ps.take(i)).push(ps[i].name@)
        } else {
            required_parameters(ps.take(i))
        },
{
    assert(ps.take(i + 1).drop_last() =~= ps.take(i));
}

impl OpenApiExecutor {
    /// An executor for `spec` that calls `base_url`, or where none is given the base URL
    /// that the specification names.
    pub fn new(spec: OpenApiSpec, base_url: Option<String>) -> (r: Self)
        requires
            spec.well_formed(),
        ensures
            r.spec.well_formed(),
            r.spec == spec,
            r.base_url@ == match base_url {
                Some(b) => b@,
                None => spec_base_url(spec),
            },
    {
        let base_url = match base_url {
            Some(b) => b,
            None => spec.get_base_url(),
        };
        OpenApiExecutor { base_url, spec }
    }

    /// Each operation as its id, its method and the description it is listed under, in
    /// the order of `get_operations`.
    pub fn list_operations(&self) -> (r: Vec<(String, String, String)>)
        ensures
            r@.len() == all_operations(self.spec.paths@).len(),
            forall|i: int|
                0 <= i < r@.len() ==> {
                    let e = #[trigger] all_operations(self.spec.paths@)[i];
                    &&& r@[i].0@ == e.2.operation_id@
                    &&& r@[i].1@ == e.1
                    &&& r@[i].2@ == listed_description(e)
                },
    {
        let ops = self.spec.get_operations();
        let mut out: Vec<(String, String, String)> = Vec::new();
        let mut i: usize = 0;
        while i < ops.len()
            invariant
                i <= ops@.len(),
                operation_views(ops@) == all_operations(self.spec.paths@),
                out@.len() == i,
                forall|j: int|
                    0 <= j < i ==> {
                        let e = #[trigger] all_operations(self.spec.paths@)[j];
                        &&& out@[j].0@ == e.2.operation_id@
                        &&& out@[j].1@ == e.1
                        &&& out@[j].2@ == listed_description(e)
                    },
            decreases ops@.len() - i,
        {
            let (path, method, op) = &ops[i];
            assert(operation_views(ops@)[i as int] == (path@, method@, **op));
            let description = match &op.description {
                Some(d) => d.clone(),
                None => match &op.summary {
                    Some(s) => s.clone(),
                    None => {
                        proof {
                            reveal_strlit(" ");
                        }
                        method.clone().concat(" ").concat(path.as_str())
                    },
                },
            };
            out.push((op.operation_id.clone(), method.clone(), description));
            i = i + 1;
        }
        out
    }

    /// The first operation, in the order of `get_operations`, whose id is `operation_id`.
    pub fn find_operation(&self, operation_id: &str) -> (r: Result<(String, String, &Operation), AppError>)
        ensures
            match r {
                Ok((path, method, op)) => first_with_id(all_operations(self.spec.paths@), operation_id@)
                    matches Some(k) && all_operations(self.spec.paths@)[k] == (path@, method@, *op),
                Err(e) => first_with_id(all_operations(self.spec.paths@), operation_id@) is None
                    && is_not_found_error(e, operation_id@),
            },
    {
        let ops = self.spec.get_operations();
        let ghost all = all_operations(self.spec.paths@);
        let mut i: usize = 0;
        while i < ops.len()
            invariant
                i <= ops@.len(),
                operation_views(ops@) == all,
                all == all_operations(self.spec.paths@),
                forall|j: int| 0 <= j < i ==> all[j].2.operation_id@ != operation_id@,
            decreases ops@.len() - i,
        {
            let (path, method, op) = &ops[i];
            assert(all[i as int] == (path@, method@, **op));
            if str_eq(op.operation_id.as_str(), operation_id) {
                proof {
                    let k = i as int;
                    assert(0 <= k < all.len() && all[k].2.operation_id@ == operation_id@);
                    let c = choose|c: int|
                        0 <= c < all.len() && all[c].2.operation_id@ == operation_id@ && forall|j: int|
                            0 <= j < c ==> all[j].2.operation_id@ != operation_id@;
                    if c < k {
                    } else if c > k {
                        assert(all[k].2.operation_id@ != operation_id@);
                    }
                }
                return Ok((path.clone(), method.clone(), *op));
            }
            i = i + 1;
        }
        let msg = String::from_str("Operation '").concat(operation_id).concat("' not found");
        Err(AppError::Cli(msg))
    }

    /// The input schema of the first operation whose id is `operation_id`.
    #[verifier::rlimit(40)]
    pub fn get_operation_schema(&self, operation_id: &str) -> (r: Result<OperationSchema, AppError>)
        ensures
            match r {
                Ok(s) => first_with_id(all_operations(self.spec.paths@), operation_id@) matches Some(k)
                    && pair_views(s.properties@) == schema_properties(all_operations(self.spec.paths@)[k].2)
                    && s.required@.map_values(|n: String| n@) == schema_required(all_operations(self.spec.paths@)[k].2),
                Err(e) => first_with_id(all_operations(self.spec.paths@), operation_id@) is None
                    && is_not_found_error(e, operation_id@),
            },
    {
        let (_, _, op) = self.find_operation(operation_id)?;
        let mut properties: Vec<(String, String)> = Vec::new();
        let mut required: Vec<String> = Vec::new();
        let ghost params = operation_parameters(*op);
        match &op.parameters {
            Some(ps) => {
                let mut i: usize = 0;
                assert(ps@.take(0) =~= Seq::<Parameter>::empty());
                while i < ps.len()
                    invariant
                        params == ps@,
                        i <= ps@.len(),
                        pair_views(properties@) == parameter_properties(ps@.take(i as int)),
                        required@.map_values(|n: String| n@) == required_parameters(ps@.take(i as int)),
                    decreases ps@.len() - i,
                {
                    let p = &ps[i];
                    let schema = match &p.schema {
                        Some(s) => s.clone(),
                        None => String::from_str("{\"type\":\"string\"}"),
                    };
                    proof {
                        lemma_parameter_properties_step(ps@, i as int);
                    }
                    upsert_pair(&mut properties, p.name.clone(), schema);
                    if let Some(true) = p.required {
                        required.push(p.name.clone());
                        assert(required@.map_values(|n: String| n@) =~= required_parameters(ps@.take(i as int)).push(p.name@));
                    }
                    i = i + 1;
                }
                assert(ps@.take(i as int) =~= ps@);
            },
            None => {
                assert(required@.map_values(|n: String| n@) =~= Seq::<Seq<char>>::empty());
            },
        }
        assert(pair_views(properties@) == parameter_properties(params));
        assert(required@.map_values(|n: String| n@) == required_parameters(params));
        match &op.request_body {
            Some(rb) => {
                match media_type_lookup(&rb.content, "application/json") {
                    Some(mt) => match &mt.schema {
                        Some(s) => {
                            upsert_pair(&mut properties, String::from_str("body"), s.clone());
                            if let Some(true) = rb.required {
                                required.push(String::from_str("body"));
                                assert(required@.map_values(|n: String| n@) =~= required_parameters(params).push("body"@));
                            }
                        },
                        None => {},
                    },
                    None => {},
                }
            },
            None => {},
        }
        Ok(OperationSchema { properties, required })
    }

    /// The URL of a call of the operation at `path` with these parameters.
    pub fn build_url(
        &self,
        path: &str,
        path_params: &Vec<(String, String)>,
        query_params: &Vec<(String, String)>,
    ) -> (r: String)
        ensures
            r@ == call_url(self.base_url@, path@, pair_views(path_params@), pair_views(query_params@)),
    {
        let mut final_path = String::from_str(path);
        let mut i: usize = 0;
        assert(pair_views(path_params@).skip(0) =~= pair_views(path_params@));
        while i < path_params.len()
            invariant
                i <= path_params@.len(),
                substituted_path(path@, pair_views(path_params@)) == substituted_path(
                    final_path@,
                    pair_views(path_params@).skip(i as int),
                ),
            decreases path_params@.len() - i,
        {
            let (key, value) = &path_params[i];
            let pattern = placeholder_of(key.as_str());
            let ghost rest = pair_views(path_params@).skip(i as int);
            assert(rest[0] == (key@, value@));
            assert(rest.drop_first() =~= pair_views(path_params@).skip(i + 1));
            final_path = replace(final_path.as_str(), pattern.as_str(), value.as_str());
            i = i + 1;
        }
        assert(pair_views(path_params@).skip(i as int) =~= Seq::<(Seq<char>, Seq<char>)>::empty());
        let mut url = trim_end_char(self.base_url.as_str(), '/').concat(final_path.as_str());
        if query_params.len() > 0 {
            let mut query = String::new();
            let mut j: usize = 0;
            while j < query_params.len()
                invariant
                    j <= query_params@.len(),
                    query_params@.len() > 0,
                    query@ == query_string(pair_views(query_params@).take(j as int)),
                decreases query_params@.len() - j,
            {
                let (key, value) = &query_params[j];
                let ghost q = pair_views(query_params@).take(j + 1);
                assert(q.drop_last() =~= pair_views(query_params@).take(j as int));
                assert(q.last() == (key@, value@));
                if j > 0 {
                    proof {
                        reveal_strlit("&");
                    }
                    query.append("&");
                }
                proof {
                    reveal_strlit("=");
                }
                query.append(url_encode(key.as_str()).as_str());
                query.append("=");
                query.append(url_encode(value.as_str()).as_str());
                proof {
                    if j == 0 {
                        assert(q =~= seq![q[0]]);
                    }
                }
                assert(query@ =~= query_string(q));
                j = j + 1;
            }
            assert(pair_views(query_params@).take(j as int) =~= pair_views(query_params@));
            proof {
                reveal_strlit("?");
            }
            url.append("?");
            url.append(query.as_str());
        }
        url
    }

    /// The request of a call of `operation_id` with the `--key value` pairs that were read:
    /// its method, its URL with each `{key}` placeholder of the operation's path filled and
    /// the other parameters in the query, and its JSON body.
    pub fn request_target(&self, operation_id: &str, params: &Vec<(String, String)>) -> (r: Result<
        CallTarget,
        AppError,
    >)
        ensures
            match r {
                Ok(c) => first_with_id(all_operations(self.spec.paths@), operation_id@) matches Some(k)
                    && is_call_target(
                    c,
                    self.base_url@,
                    all_operations(self.spec.paths@)[k],
                    pair_views(params@),
                ),
                Err(e) => first_with_id(all_operations(self.spec.paths@), operation_id@) is None
                    && is_not_found_error(e, operation_id@),
            },
    {
        let (path, method, _) = self.find_operation(operation_id)?;
        let (path_params, query_params, body) = split_operation_params(path.as_str(), params);
        let url = self.build_url(path.as_str(), &path_params, &query_params);
        Ok(CallTarget { method, url, body })
    }
}

/// The request of an operation call.
#[derive(Debug)]
pub struct CallTarget {
    pub method: String,
    pub url: String,
    /// The JSON text of the body, where there is one.
    pub body: Option<String>,
}

/// `c` is the request of a call of the operation `e` on `base` with the pairs `ps`.
pub open spec fn is_call_target(
    c: CallTarget,
    base: Seq<char>,
    e: OperationAt,
    ps: Seq<(Seq<char>, Seq<char>)>,
) -> bool {
    let (p, q, b) = routed_params(e.0, ps);
    &&& c.method@ == e.1
    &&& c.url@ == call_url(base, e.0, p, q)
    &&& match c.body {
        Some(t) => b == Some(t@),
        None => b is None,
    }
}

/// The media type of `content` under `key`.
fn media_type_lookup<'a>(content: &'a Vec<(String, MediaType)>, key: &str) -> (r: Option<&'a MediaType>)
    ensures
        match r {
            Some(m) => media_type_for(content@, key@) == Some(*m),
            None => media_type_for(content@, key@) is None,
        },
{
    let mut i: usize = 0;
    assert(content@.skip(0) =~= content@);
    while i < content.len()
        invariant
            i <= content@.len(),
            media_type_for(content@, key@) == media_type_for(content@.skip(i as int), key@),
        decreases content@.len() - i,
    {
        assert(content@.skip(i as int)[0] == content@[i as int]);
        if str_eq(content[i].0.as_str(), key) {
            return Some(&content[i].1);
        }
        assert(content@.skip(i as int).drop_first() =~= content@.skip(i + 1));
        i = i + 1;
    }
    None
}

/// The placeholder `{key}` of a path parameter.
fn placeholder_of(key: &str) -> (r: String)
    ensures
        r@ == placeholder(key@),
{
    proof {
        reveal_strlit("{");
        reveal_strlit("}");
    }
    String::from_str("{").concat(key).concat("}")
}

/// Sorts the `--key value` arguments of a call of the operation at `path` into path
/// parameters, query parameters and the JSON body text.
pub fn split_operation_params(path: &str, params: &Vec<(String, String)>) -> (r: (
    Vec<(String, String)>,
    Vec<(String, String)>,
    Option<String>,
))
    ensures
        ({
            let (p, q, b) = routed_params(path@, pair_views(params@));
            &&& pair_views(r.0@) == p
            &&& pair_views(r.1@) == q
            &&& match r.2 {
                Some(t) => b == Some(t@),
                None => b is None,
            }
        }),
{
    let mut path_params: Vec<(String, String)> = Vec::new();
    let mut query_params: Vec<(String, String)> = Vec::new();
    let mut body: Option<String> = None;
    let mut i: usize = 0;
    assert(pair_views(params@).take(0) =~= Seq::<(Seq<char>, Seq<char>)>::empty());
    while i < params.len()
        invariant
            i <= params@.len(),
            ({
                let (p, q, b) = routed_params(path@, pair_views(params@).take(i as int));
                &&& pair_views(path_params@) == p
                &&& pair_views(query_params@) == q
                &&& match body {
                    Some(t) => b == Some(t@),
                    None => b is None,
                }
            }),
        decreases params@.len() - i,
    {
        let (key, value) = &params[i];
        let ghost s = pair_views(params@).take(i + 1);
        assert(s.drop_last() =~= pair_views(params@).take(i as int));
        assert(s.last() == (key@, value@));
        proof {
            reveal_strlit("body");
        }
        if str_eq(key.as_str(), "body") {
            body = if json_parses(value.as_str()) {
                Some(value.clone())
            } else {
                None
            };
        } else if contains(path, placeholder_of(key.as_str()).as_str()) || contains_char(
            value.as_str(),
            '/',
        ) || contains_char(value.as_str(), ':') {
            upsert_pair(&mut path_params, key.clone(), value.clone());
        } else {
            upsert_pair(&mut query_params, key.clone(), value.clone());
        }
        i = i + 1;
    }
    assert(pair_views(params@).take(i as int) =~= pair_views(params@));
    (path_params, query_params, body)
}

/// Every operation of a specification can be found by its id: the search stops at it or
/// at an earlier operation with the same id.
pub proof fn lemma_listed_operation_is_found(ops: Seq<OperationAt>, k: int)
    requires
        0 <= k < ops.len(),
    ensures
        first_with_id(ops, ops[k].2.operation_id@) matches Some(j) && 0 <= j <= k && ops[j].2.operation_id@
            == ops[k].2.operation_id@,
{
    let id = ops[k].2.operation_id@;
    assert(exists|i: int| 0 <= i < ops.len() && ops[i].2.operation_id@ == id);
    lemma_first_exists(ops, id, k);
    let j = choose|j: int|
        0 <= j < ops.len() && ops[j].2.operation_id@ == id && forall|m: int|
            0 <= m < j ==> ops[m].2.operation_id@ != id;
    if j > k {
        assert(ops[k].2.operation_id@ != id);
    }
}

/// Where an operation with id `id` exists, a first one exists.
proof fn lemma_first_exists(ops: Seq<OperationAt>, id: Seq<char>, k: int)
    requires
        0 <= k < ops.len(),
        ops[k].2.operation_id@ == id,
    ensures
        exists|j: int|
            0 <= j < ops.len() && ops[j].2.operation_id@ == id && forall|m: int|
                0 <= m < j ==> ops[m].2.operation_id@ != id,
    decreases k,
{
    if exists|m: int| 0 <= m < k && ops[m].2.operation_id@ == id {
        let m = choose|m: int| 0 <= m < k && ops[m].2.operation_id@ == id;
        lemma_first_exists(ops, id, m);
    } else {
        assert(forall|m: int| 0 <= m < k ==> ops[m].2.operation_id@ != id);
    }
}

/// With no parameters, the URL of a call is the base URL without trailing `/`, followed by
/// the path as it is.
pub proof fn lemma_url_without_parameters(base: Seq<char>, path: Seq<char>)
    ensures
        call_url(base, path, Seq::empty(), Seq::empty()) == strip_trailing(base, '/') + path,
{
    assert(strip_trailing(base, '/') + path + Seq::<char>::empty() =~= strip_trailing(base, '/') + path);
}

/// How an operation is listed as a tool: under its id, described by its method and listed
/// description, with the input schema of the operation that its id finds.
pub open spec fn listed_operation_tool(paths: Seq<(String, PathItem)>, e: OperationAt, t: Tool) -> bool {
    &&& t.name@ == e.2.operation_id@
    &&& t.original_name matches Some(n) && n@ == e.2.operation_id@
    &&& t.description@ == e.1 + seq![' '] + listed_description(e)
    &&& t.output_type is None
    &&& t.input_schema matches InputSchema::Operation(s) && first_with_id(
        all_operations(paths),
        e.2.operation_id@,
    ) matches Some(j) && pair_views(s.properties@) == schema_properties(all_operations(paths)[j].2)
        && s.required@.map_values(|n: String| n@) == schema_required(all_operations(paths)[j].2)
}

impl OpenApiExecutor {
    /// The tool that the operation `e`, listed as `name`, `method`, `description`, is
    /// shown as.
    fn operation_tool(
        &self,
        name: &String,
        method: &String,
        description: &String,
        Ghost(e): Ghost<OperationAt>,
    ) -> (r: Tool)
        requires
            name@ == e.2.operation_id@,
            method@ == e.1,
            description@ == listed_description(e),
            first_with_id(all_operations(self.spec.paths@), e.2.operation_id@) is Some,
        ensures
            listed_operation_tool(self.spec.paths@, e, r),
    {
        let schema = match self.get_operation_schema(name.as_str()) {
            Ok(s) => InputSchema::Operation(s),
            Err(_) => InputSchema::Json(String::from_str("{\"type\":\"object\"}")),
        };
        proof {
            reveal_strlit(" ");
        }
        let text = method.clone().concat(" ").concat(description.as_str());
        assert(text@ == e.1 + seq![' '] + listed_description(e));
        assert(schema matches InputSchema::Operation(s) && first_with_id(
            all_operations(self.spec.paths@),
            e.2.operation_id@,
        ) matches Some(j) && pair_views(s.properties@) == schema_properties(all_operations(self.spec.paths@)[j].2));
        Tool {
            name: name.clone(),
            original_name: Some(name.clone()),
            description: text,
            input_schema: schema,
            output_type: None,
        }
    }

    /// The manifest of the operations of the specification, read from `source`.
    pub fn tool_manifest(&self, source: String) -> (r: ToolManifest)
        ensures
            r.protocol == Protocol::OpenApi,
            r.source@ == source@,
            r.version matches Some(v) && v@ == "3.0"@,
            r.tools@.len() == all_operations(self.spec.paths@).len(),
            forall|i: int|
                0 <= i < r.tools@.len() ==> listed_operation_tool(
                    self.spec.paths@,
                    all_operations(self.spec.paths@)[i],
                    #[trigger] r.tools@[i],
                ),
    {
        let ops = self.list_operations();
        let ghost all = all_operations(self.spec.paths@);
        let mut tools: Vec<Tool> = Vec::new();
        let mut i: usize = 0;
        while i < ops.len()
            invariant
                i <= ops@.len(),
                all == all_operations(self.spec.paths@),
                ops@.len() == all.len(),
                forall|m: int|
                    0 <= m < ops@.len() ==> {
                        let e = #[trigger] all[m];
                        &&& ops@[m].0@ == e.2.operation_id@
                        &&& ops@[m].1@ == e.1
                        &&& ops@[m].2@ == listed_description(e)
                    },
                tools@.len() == i,
                forall|m: int|
                    0 <= m < i ==> listed_operation_tool(self.spec.paths@, all[m], #[trigger] tools@[m]),
            decreases ops@.len() - i,
        {
            let (name, method, description) = &ops[i];
            proof {
                lemma_listed_operation_is_found(all, i as int);
            }
            let tool = self.operation_tool(name, method, description, Ghost(all[i as int]));
            tools.push(tool);
            i = i + 1;
        }
        ToolManifest {
            protocol: Protocol::OpenApi,
            source,
            version: Some(String::from_str("3.0")),
            tools,
        }
    }
}

/// What the reply to an operation call gives: its body, as JSON where it parses and as a
/// string otherwise, or where its status is not a success an execution error with the
/// status and body.
pub fn response_payload(success: bool, status: &str, body: String) -> (r: Result<Payload, AppError>)
    ensures
        success ==> (r matches Ok(p) && is_json_or_text(p, body@)),
        !success ==> (r matches Err(e) && is_error(
            e,
            ErrorKind::Execution,
            status_failure_message(status@, body@),
        )),
{
    if !success {
        return Err(AppError::Execution(status_failure(status, body.as_str())));
    }
    Ok(Payload::json_or_text(body))
}

/// Whether a specification is fetched over the network rather than read from a file: its
/// source starts with `http://` or `https://`.
pub fn is_url_source(source: &str) -> (r: bool)
    ensures
        r == (has_prefix(source@, "http://"@) || has_prefix(source@, "https://"@)),
{
    starts_with(source, "http://") || starts_with(source, "https://")
}

/// No property name of an operation's input schema occurs twice.
pub proof fn lemma_schema_properties_distinct(op: Operation)
    ensures
        distinct_keys(schema_properties(op)),
{
    lemma_parameter_properties_distinct(operation_parameters(op));
    match json_body_schema(op) {
        Some((s, _)) => {
            lemma_upsert_is_map_insert(parameter_properties(operation_parameters(op)), "body"@, s);
        },
        None => {},
    }
}

/// No parameter name occurs twice among the properties that parameters give.
proof fn lemma_parameter_properties_distinct(ps: Seq<Parameter>)
    ensures
        distinct_keys(parameter_properties(ps)),
    decreases ps.len(),
{
    if ps.len() > 0 {
        lemma_parameter_properties_distinct(ps.drop_last());
        lemma_upsert_is_map_insert(
            parameter_properties(ps.drop_last()),
            ps.last().name@,
            parameter_schema(ps.last()),
        );
    }
}

/// Every argument whose key names a `{key}` placeholder of the operation's path (other than
/// `body`) fills that placeholder with its last value, whatever the value holds, and never
/// goes to the query; no key occurs twice among the path or the query parameters.
pub proof fn lemma_placeholders_are_filled(path: Seq<char>, ps: Seq<(Seq<char>, Seq<char>)>)
    ensures
        distinct_keys(routed_params(path, ps).0),
        distinct_keys(routed_params(path, ps).1),
        forall|k: Seq<char>|
            contains_seq(path, placeholder(k)) && k != "body"@ && #[trigger] pairs_map(ps).dom().contains(k)
                ==> pairs_map(routed_params(path, ps).0).dom().contains(k) && pairs_map(
                routed_params(path, ps).0,
            )[k] == pairs_map(ps)[k] && !pairs_map(routed_params(path, ps).1).dom().contains(k),
        forall|k: Seq<char>|
            contains_seq(path, placeholder(k)) && k != "body"@ ==> !#[trigger] pairs_map(
                routed_params(path, ps).1,
            ).dom().contains(k),
    decreases ps.len(),
{
    if ps.len() > 0 {
        let t = ps.drop_last();
        lemma_placeholders_are_filled(path, t);
        let prev = routed_params(path, t);
        let k1 = ps.last().0;
        let v1 = ps.last().1;
        let r = routed_params(path, ps);
        lemma_upsert_is_map_insert(prev.0, k1, v1);
        lemma_upsert_is_map_insert(prev.1, k1, v1);
        assert(ps.drop_last() == t);
        assert(pairs_map(ps) == pairs_map(t).insert(k1, v1));
        if k1 == "body"@ {
            assert(r.0 == prev.0 && r.1 == prev.1);
        } else if contains_seq(path, placeholder(k1)) || v1.contains('/') || v1.contains(':') {
            assert(r.0 == upsert(prev.0, k1, v1) && r.1 == prev.1);
        } else {
            assert(r.0 == prev.0 && r.1 == upsert(prev.1, k1, v1));
            assert(!contains_seq(path, placeholder(k1)));
        }
        assert forall|k: Seq<char>|
            contains_seq(path, placeholder(k)) && k != "body"@ && #[trigger] pairs_map(
                ps,
            ).dom().contains(k) implies pairs_map(r.0).dom().contains(k) && pairs_map(r.0)[k]
            == pairs_map(ps)[k] && !pairs_map(r.1).dom().contains(k) by {
            if k != k1 {
                assert(pairs_map(t).dom().contains(k));
            }
            assert(!pairs_map(prev.1).dom().contains(k));
        }
        assert forall|k: Seq<char>|
            contains_seq(path, placeholder(k)) && k != "body"@ implies !#[trigger] pairs_map(
                r.1,
            ).dom().contains(k) by {
            assert(!pairs_map(prev.1).dom().contains(k));
        }
    }
}

/// Substituting a list of parameters is substituting its first part and then the rest; a
/// single parameter `(k, v)` replaces every `{k}` of the path by `v`. So every parameter
/// of the list is substituted, each in its turn, the last one too.
pub proof fn lemma_every_path_parameter_is_substituted(
    path: Seq<char>,
    a: Seq<(Seq<char>, Seq<char>)>,
    b: Seq<(Seq<char>, Seq<char>)>,
    k: Seq<char>,
    v: Seq<char>,
)
    ensures
        substituted_path(path, seq![(k, v)]) == replace_all(path, placeholder(k), v),
        substituted_path(path, a + b) == substituted_path(substituted_path(path, a), b),
        substituted_path(path, a.push((k, v))) == replace_all(
            substituted_path(path, a),
            placeholder(k),
            v,
        ),
    decreases a.len(),
{
    let one = seq![(k, v)];
    assert(one.drop_first() =~= Seq::<(Seq<char>, Seq<char>)>::empty());
    assert(substituted_path(replace_all(path, placeholder(k), v), one.drop_first()) == replace_all(
        path,
        placeholder(k),
        v,
    ));
    assert(substituted_path(path, one) == replace_all(path, placeholder(k), v));
    if a.len() == 0 {
        assert(a + b =~= b);
        assert(a.push((k, v)) =~= one);
    } else {
        lemma_every_path_parameter_is_substituted(
            replace_all(path, placeholder(a[0].0), a[0].1),
            a.drop_first(),
            b,
            k,
            v,
        );
        assert((a + b).drop_first() =~= a.drop_first() + b);
        assert((a + b)[0] == a[0]);
        assert(a.push((k, v)).drop_first() =~= a.drop_first().push((k, v)));
        assert(a.push((k, v))[0] == a[0]);
    }
}

/// The URL of a call fills in the path parameters one after the other: with a single
/// parameter `(k, v)` it is the URL of the path whose every `{k}` is replaced by `v`, and
/// with the parameters `a + b` it is the URL of the path that `a` fills, filled by `b`.
pub proof fn lemma_call_url_fills_each_path_parameter(
    base: Seq<char>,
    path: Seq<char>,
    a: Seq<(Seq<char>, Seq<char>)>,
    b: Seq<(Seq<char>, Seq<char>)>,
    query: Seq<(Seq<char>, Seq<char>)>,
    k: Seq<char>,
    v: Seq<char>,
)
    ensures
        call_url(base, path, seq![(k, v)], query) == call_url(
            base,
            replace_all(path, placeholder(k), v),
            Seq::empty(),
            query,
        ),
        call_url(base, path, a + b, query) == call_url(base, substituted_path(path, a), b, query),
        call_url(base, path, Seq::empty(), Seq::empty()) == strip_trailing(base, '/') + path,
{
    lemma_every_path_parameter_is_substituted(path, a, b, k, v);
    lemma_url_without_parameters(base, path);
    assert(substituted_path(replace_all(path, placeholder(k), v), Seq::empty()) == replace_all(
        path,
        placeholder(k),
        v,
    ));
}

/// `x + y` holds `e` exactly where `x` or `y` does.
proof fn lemma_concat_contains<A>(x: Seq<A>, y: Seq<A>, e: A)
    ensures
        (x + y).contains(e) <==> (x.contains(e) || y.contains(e)),
{
    if x.contains(e) {
        let i = choose|i: int| 0 <= i < x.len() && x[i] == e;
        assert((x + y)[i] == e);
    }
    if y.contains(e) {
        let j = choose|j: int| 0 <= j < y.len() && y[j] == e;
        assert((x + y)[x.len() + j] == e);
    }
    if (x + y).contains(e) {
        let i = choose|i: int| 0 <= i < (x + y).len() && (x + y)[i] == e;
        if i < x.len() {
            assert(x[i] == e);
        } else {
            assert(y[i - x.len()] == e);
        }
    }
}

/// `e` is the operation that `item`, at `path`, has under its method.
pub open spec fn is_item_operation(path: Seq<char>, item: PathItem, e: OperationAt) -> bool {
    &&& e.0 == path
    &&& {
        ||| e.1 == "GET"@ && item.get == Some(e.2)
        ||| e.1 == "POST"@ && item.post == Some(e.2)
        ||| e.1 == "PUT"@ && item.put == Some(e.2)
        ||| e.1 == "DELETE"@ && item.delete == Some(e.2)
        ||| e.1 == "PATCH"@ && item.patch == Some(e.2)
    }
}

proof fn lemma_method_operation(path: Seq<char>, m: Seq<char>, o: Option<Operation>, e: OperationAt)
    ensures
        method_operation(path, m, o).contains(e) <==> (e.0 == path && e.1 == m && o == Some(e.2)),
{
    if o is Some {
        assert(method_operation(path, m, o)[0] == (path, m, o->0));
    }
}

/// The operations listed at a path are exactly those that the path item has, each under
/// its method.
proof fn lemma_item_operations(path: Seq<char>, item: PathItem, e: OperationAt)
    ensures
        item_operations(path, item).contains(e) <==> is_item_operation(path, item, e),
{
    let g = method_operation(path, "GET"@, item.get);
    let po = method_operation(path, "POST"@, item.post);
    let pu = method_operation(path, "PUT"@, item.put);
    let d = method_operation(path, "DELETE"@, item.delete);
    let pa = method_operation(path, "PATCH"@, item.patch);
    lemma_concat_contains(g, po, e);
    lemma_concat_contains(g + po, pu, e);
    lemma_concat_contains(g + po + pu, d, e);
    lemma_concat_contains(g + po + pu + d, pa, e);
    lemma_method_operation(path, "GET"@, item.get, e);
    lemma_method_operation(path, "POST"@, item.post, e);
    lemma_method_operation(path, "PUT"@, item.put, e);
    lemma_method_operation(path, "DELETE"@, item.delete, e);
    lemma_method_operation(path, "PATCH"@, item.patch, e);
}

/// The operations of a specification are exactly the operations of its path items: each
/// operation that a path has under GET, POST, PUT, DELETE or PATCH is listed with its path
/// and method, and nothing else is listed.
pub proof fn lemma_all_operations_are_listed(paths: Seq<(String, PathItem)>, e: OperationAt)
    ensures
        all_operations(paths).contains(e) <==> exists|i: int|
            0 <= i < paths.len() && is_item_operation(paths[i].0@, #[trigger] paths[i].1, e),
    decreases paths.len(),
{
    if paths.len() > 0 {
        let init = paths.drop_last();
        let last = paths.last();
        lemma_all_operations_are_listed(init, e);
        lemma_concat_contains(all_operations(init), item_operations(last.0@, last.1), e);
        lemma_item_operations(last.0@, last.1, e);
        if exists|i: int| 0 <= i < paths.len() && is_item_operation(paths[i].0@, #[trigger] paths[i].1, e) {
            let i = choose|i: int|
                0 <= i < paths.len() && is_item_operation(paths[i].0@, #[trigger] paths[i].1, e);
            if i < paths.len() - 1 {
                assert(init[i] == paths[i]);
            }
        }
        if exists|i: int| 0 <= i < init.len() && is_item_operation(init[i].0@, #[trigger] init[i].1, e) {
            let i = choose|i: int|
                0 <= i < init.len() && is_item_operation(init[i].0@, #[trigger] init[i].1, e);
            assert(init[i] == paths[i]);
        }
        if is_item_operation(last.0@, last.1, e) {
            assert(paths[paths.len() - 1] == last);
        }
    }
}

/// Each parameter of a list gives a property of its name, each property is named after a
/// parameter, and a parameter that no later one of the same name follows gives its name
/// its schema; each parameter marked required is listed as required, and only those.
proof fn lemma_parameter_names(ps: Seq<Parameter>)
    ensures
        distinct_keys(parameter_properties(ps)),
        forall|i: int|
            0 <= i < ps.len() ==> pairs_map(parameter_properties(ps)).dom().contains(
                #[trigger] ps[i].name@,
            ),
        forall|k: Seq<char>|
            #[trigger] pairs_map(parameter_properties(ps)).dom().contains(k) ==> exists|i: int|
                0 <= i < ps.len() && ps[i].name@ == k,
        forall|i: int|
            0 <= i < ps.len() && (forall|j: int| i < j < ps.len() ==> ps[j].name@ != ps[i].name@)
                ==> pairs_map(parameter_properties(ps))[#[trigger] ps[i].name@]
                == parameter_schema(ps[i]),
    decreases ps.len(),
{
    lemma_parameter_properties_distinct(ps);
    if ps.len() > 0 {
        let init = ps.drop_last();
        let last = ps.last();
        let n = ps.len() - 1;
        lemma_parameter_names(init);
        lemma_upsert_is_map_insert(parameter_properties(init), last.name@, parameter_schema(last));
        let m = pairs_map(parameter_properties(ps));
        assert(m == pairs_map(parameter_properties(init)).insert(last.name@, parameter_schema(last)));
        assert forall|i: int| 0 <= i < ps.len() implies m.dom().contains(#[trigger] ps[i].name@) by {
            if i < n {
                assert(init[i] == ps[i]);
            }
        }
        assert forall|k: Seq<char>| #[trigger] m.dom().contains(k) implies exists|i: int|
            0 <= i < ps.len() && ps[i].name@ == k by {
            if k == last.name@ {
                assert(ps[n].name@ == k);
            } else {
                assert(pairs_map(parameter_properties(init)).dom().contains(k));
                let i = choose|i: int| 0 <= i < init.len() && init[i].name@ == k;
                assert(ps[i] == init[i]);
            }
        }
        assert forall|i: int|
            0 <= i < ps.len() && (forall|j: int| i < j < ps.len() ==> ps[j].name@ != ps[i].name@)
                implies m[#[trigger] ps[i].name@] == parameter_schema(ps[i]) by {
            if i < n {
                assert(init[i] == ps[i]);
                assert(ps[n].name@ != ps[i].name@);
                assert forall|j: int| i < j < init.len() implies init[j].name@ != init[i].name@ by {
                    assert(init[j] == ps[j]);
                }
            }
        }
    }
}

/// Each parameter marked required is listed as required, and only those.
proof fn lemma_required_parameter_names(ps: Seq<Parameter>)
    ensures
        forall|i: int|
            0 <= i < ps.len() && ps[i].required == Some(true) ==> required_parameters(ps).contains(
                #[trigger] ps[i].name@,
            ),
        forall|k: Seq<char>|
            #[trigger] required_parameters(ps).contains(k) ==> exists|i: int|
                0 <= i < ps.len() && ps[i].name@ == k && ps[i].required == Some(true),
    decreases ps.len(),
{
    if ps.len() > 0 {
        let init = ps.drop_last();
        let last = ps.last();
        let n = ps.len() - 1;
        lemma_required_parameter_names(init);
        let r = required_parameters(ps);
        let ri = required_parameters(init);
        assert forall|i: int| 0 <= i < ps.len() && ps[i].required == Some(true) implies r.contains(
            #[trigger] ps[i].name@,
        ) by {
            if i < n {
                assert(init[i] == ps[i]);
                assert(ri.contains(init[i].name@));
                let j = choose|j: int| 0 <= j < ri.len() && ri[j] == init[i].name@;
                if last.required == Some(true) {
                    assert(r[j] == ri[j]);
                }
            } else {
                assert(r[r.len() - 1] == last.name@);
            }
        }
        assert forall|k: Seq<char>| #[trigger] r.contains(k) implies exists|i: int|
            0 <= i < ps.len() && ps[i].name@ == k && ps[i].required == Some(true) by {
            let j = choose|j: int| 0 <= j < r.len() && r[j] == k;
            if last.required == Some(true) && j == r.len() - 1 {
                assert(ps[n].name@ == k);
            } else {
                assert(ri[j] == k);
                assert(ri.contains(k));
                let i = choose|i: int|
                    0 <= i < init.len() && init[i].name@ == k && init[i].required == Some(true);
                assert(ps[i] == init[i]);
            }
        }
    }
}

/// The input schema of an operation has a property for each of its parameters, wherever
/// the parameter goes (path, query or header), and for `body` where the operation takes a
/// JSON body, and no other; a parameter that no later one of the same name follows gives
/// its property its schema, unless it is named `body` and the JSON body takes that name.
/// The required properties are the parameters marked required, and `body` where the body
/// is required.
pub proof fn lemma_every_parameter_is_a_property(op: Operation)
    ensures
        forall|v: Vec<Parameter>, i: int|
            op.parameters == Some(v) && 0 <= i < v@.len() ==> pairs_map(
                schema_properties(op),
            ).dom().contains(#[trigger] v@[i].name@),
        forall|v: Vec<Parameter>, i: int|
            op.parameters == Some(v) && 0 <= i < v@.len() && (forall|j: int|
                i < j < v@.len() ==> v@[j].name@ != v@[i].name@) && (v@[i].name@ != "body"@
                || json_body_schema(op) is None) ==> pairs_map(schema_properties(op))[#[trigger] v@[i].name@]
                == parameter_schema(v@[i]),
        forall|k: Seq<char>|
            #[trigger] pairs_map(schema_properties(op)).dom().contains(k) ==> (k == "body"@
                && json_body_schema(op) is Some) || (op.parameters matches Some(v) && exists|i: int|
                0 <= i < v@.len() && v@[i].name@ == k),
        json_body_schema(op) is Some ==> pairs_map(schema_properties(op)).dom().contains("body"@),
        forall|v: Vec<Parameter>, i: int|
            op.parameters == Some(v) && 0 <= i < v@.len() && v@[i].required == Some(true)
                ==> schema_required(op).contains(#[trigger] v@[i].name@),
        forall|k: Seq<char>|
            #[trigger] schema_required(op).contains(k) ==> (k == "body"@ && json_body_schema(op)
                matches Some((_, true))) || (op.parameters matches Some(v) && exists|i: int|
                0 <= i < v@.len() && v@[i].name@ == k && v@[i].required == Some(true)),
        json_body_schema(op) matches Some((_, true)) ==> schema_required(op).contains("body"@),
{
    let ps = operation_parameters(op);
    lemma_parameter_names(ps);
    lemma_required_parameter_names(ps);
    let base = parameter_properties(ps);
    let rb = required_parameters(ps);
    match json_body_schema(op) {
        Some((s, req)) => {
            lemma_upsert_is_map_insert(base, "body"@, s);
            if req {
                assert(schema_required(op) == rb.push("body"@));
                assert(rb.push("body"@)[rb.len() as int] == "body"@);
                assert forall|k: Seq<char>| #[trigger] schema_required(op).contains(k) && k != "body"@
                    implies rb.contains(k) by {
                    let j = choose|j: int| 0 <= j < rb.push("body"@).len() && rb.push("body"@)[j] == k;
                    assert(rb[j] == k);
                }
                assert forall|k: Seq<char>| #[trigger] rb.contains(k) implies schema_required(
                    op,
                ).contains(k) by {
                    let j = choose|j: int| 0 <= j < rb.len() && rb[j] == k;
                    assert(rb.push("body"@)[j] == k);
                }
            }
        },
        None => {},
    }
    match op.parameters {
        Some(v) => {
            assert(ps == v@);
        },
        None => {
            assert(ps.len() == 0);
        },
    }
}

} // verus!

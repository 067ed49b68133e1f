//! The command line: its modes and options, and how the words after a tool's name are read.

use vstd::prelude::*;
use vstd::string::*;

use crate::error::{is_error, AppError, ErrorKind};
use crate::output::{is_json_or_text, Payload};
use crate::pairs::{
    distinct_keys, lemma_upsert_is_map_insert, merge_pairs, pair_views, upsert, upsert_all,
    upsert_pair,
};
use crate::text::{
    opt_view,
    contains, ends_with, has_prefix, has_suffix, split_once_at, split_once_char, starts_with,
    str_eq, strip_prefixes, trim, trim_start_matches, trim_ws,
};

verus! {

/// The parsed command line.
#[derive(Debug)]
pub struct Cli {
    pub mode: Mode,
    /// Print JSON.
    pub json: bool,
    /// The timeout of each request, in seconds.
    pub timeout: u64,
}

/// What the tool talks to.
#[derive(Debug)]
pub enum Mode {
    /// An MCP server over HTTP or server-sent events.
    Mcp(McpArgs),
    /// An MCP server run as a child process.
    McpStdio(McpStdioArgs),
    /// A service that an OpenAPI specification describes.
    OpenApi(OpenApiArgs),
}

#[derive(Debug)]
pub struct McpArgs {
    pub url: String,
    pub list: bool,
    /// Headers as `Name:Value`.
    pub auth_headers: Vec<String>,
    pub tool_args: Vec<String>,
}

#[derive(Debug)]
pub struct McpStdioArgs {
    pub command: String,
    pub list: bool,
    pub args: Vec<String>,
    pub tool_args: Vec<String>,
}

#[derive(Debug)]
pub struct OpenApiArgs {
    pub spec: String,
    pub base_url: Option<String>,
    pub list: bool,
    pub operation_args: Vec<String>,
}

/// `--`, which starts a flag.
pub open spec fn dashes() -> Seq<char> {
    seq!['-', '-']
}

/// A word that starts with `--`.
pub open spec fn is_flag(a: Seq<char>) -> bool {
    has_prefix(a, dashes())
}

/// The views of a list of strings.
pub open spec fn views(v: Seq<String>) -> Seq<Seq<char>> {
    v.map_values(|s: String| s@)
}

/// The position of the first word at or after `i` that is not exactly `--`.
pub open spec fn skip_separators(args: Seq<Seq<char>>, i: int) -> int
    decreases args.len() - i,
{
    if 0 <= i < args.len() && args[i] == dashes() {
        skip_separators(args, i + 1)
    } else {
        i
    }
}

/// Reads the words from position `i` on, with the name and pairs read so far: the first
/// word that is not a flag names the tool; a flag followed by a word is a pair of the flag
/// without its leading dashes and that word; any other word is passed over.
pub open spec fn scan_tool_args(
    args: Seq<Seq<char>>,
    i: int,
    name: Option<Seq<char>>,
    params: Seq<(Seq<char>, Seq<char>)>,
) -> (Option<Seq<char>>, Seq<(Seq<char>, Seq<char>)>)
    decreases args.len() - i,
{
    if i < 0 || i >= args.len() {
        (name, params)
    } else if !is_flag(args[i]) && name is None {
        scan_tool_args(args, i + 1, Some(args[i]), params)
    } else if is_flag(args[i]) && i + 1 < args.len() {
        scan_tool_args(
            args,
            i + 2,
            name,
            params.push((strip_prefixes(args[i], dashes()), args[i + 1])),
        )
    } else {
        scan_tool_args(args, i + 1, name, params)
    }
}

/// The tool name and the `--key value` pairs of the words after a mode, leading `--`
/// words skipped.
pub open spec fn tool_args_of(args: Seq<Seq<char>>) -> (Option<Seq<char>>, Seq<(Seq<char>, Seq<char>)>) {
    scan_tool_args(args, skip_separators(args, 0), None, Seq::empty())
}

/// The words that a name and pairs are written as: the name, then each key as a flag
/// followed by its value.
pub open spec fn render_params(ps: Seq<(Seq<char>, Seq<char>)>) -> Seq<Seq<char>>
    decreases ps.len(),
{
    if ps.len() == 0 {
        Seq::empty()
    } else {
        seq![dashes() + ps[0].0, ps[0].1] + render_params(ps.drop_first())
    }
}

impl Cli {
    /// Reads the words after a mode as a tool name and `--key value` pairs.
    pub fn parse_tool_args(args: &[String]) -> (r: (Option<String>, Vec<(String, String)>))
        ensures
            tool_args_of(views(args@)) == (opt_view(r.0), pair_views(r.1@)),
    {
        let ghost a = views(args@);
        let mut tool_name: Option<String> = None;
        let mut params: Vec<(String, String)> = Vec::new();
        let mut i: usize = 0;
        proof {
            reveal_strlit("--");
            assert("--"@ =~= dashes());
        }
        while i < args.len() && str_eq(args[i].as_str(), "--")
            invariant
                a == views(args@),
                "--"@ == dashes(),
                i <= args@.len(),
                skip_separators(a, 0) == skip_separators(a, i as int),
            decreases args@.len() - i,
        {
            assert(a[i as int] == args@[i as int]@);
            assert(a[i as int] == dashes());
            i = i + 1;
        }
        assert(i < args@.len() ==> a[i as int] == args@[i as int]@);
        assert(skip_separators(a, 0) == i);
        assert(pair_views(params@) =~= Seq::<(Seq<char>, Seq<char>)>::empty());
        while i < args.len()
            invariant
                a == views(args@),
                "--"@ == dashes(),
                i <= args@.len() + 1,
                tool_args_of(a) == scan_tool_args(a, i as int, opt_view(tool_name), pair_views(params@)),
            decreases args@.len() + 1 - i,
        {
            let arg = &args[i];
            assert(a[i as int] == arg@);
            let flag = starts_with(arg.as_str(), "--");
            if !flag && tool_name.is_none() {
                tool_name = Some(arg.clone());
            } else if flag && i + 1 < args.len() {
                let key = trim_start_matches(arg.as_str(), "--");
                let value = args[i + 1].clone();
                assert(a[i + 1] == value@);
                let ghost prev = pair_views(params@);
                params.push((key, value));
                assert(pair_views(params@) =~= prev.push((key@, value@)));
                i = i + 1;
            }
            i = i + 1;
        }
        (tool_name, params)
    }
}

/// The tool name that was read, or where there is none a command-line error saying that
/// `what` is required.
pub fn require_name(name: Option<String>, what: &str) -> (r: Result<String, AppError>)
    ensures
        match name {
            Some(n) => r == Ok::<String, AppError>(n),
            None => r matches Err(e) && is_error(e, ErrorKind::Cli, what@ + " required"@),
        },
{
    match name {
        Some(n) => Ok(n),
        None => Err(AppError::Cli(String::from_str(what).concat(" required"))),
    }
}

/// The headers that `Name:Value` options give: each split at its first `:`, name and
/// value trimmed, an option without `:` passed over, and a later value replacing an
/// earlier one of the same name.
pub open spec fn header_pairs(hs: Seq<Seq<char>>) -> Seq<(Seq<char>, Seq<char>)>
    decreases hs.len(),
{
    if hs.len() == 0 {
        Seq::empty()
    } else {
        let prev = header_pairs(hs.drop_last());
        match split_once_at(hs.last(), ':') {
            Some((k, v)) => upsert(prev, trim_ws(k), trim_ws(v)),
            None => prev,
        }
    }
}

/// Reads `Name:Value` header options.
pub fn parse_header_args(headers: &Vec<String>) -> (r: Vec<(String, String)>)
    ensures
        pair_views(r@) == header_pairs(views(headers@)),
{
    let ghost hs = views(headers@);
    let mut out: Vec<(String, String)> = Vec::new();
    let mut i: usize = 0;
    assert(hs.take(0) =~= Seq::<Seq<char>>::empty());
    assert(pair_views(out@) =~= Seq::<(Seq<char>, Seq<char>)>::empty());
    while i < headers.len()
        invariant
            hs == views(headers@),
            i <= headers@.len(),
            pair_views(out@) == header_pairs(hs.take(i as int)),
        decreases headers@.len() - i,
    {
        assert(hs.take(i + 1).drop_last() =~= hs.take(i as int));
        assert(hs.take(i + 1).last() == headers@[i as int]@);
        match split_once_char(headers[i].as_str(), ':') {
            Some((k, v)) => {
                let k = trim(k.as_str());
                let v = trim(v.as_str());
                upsert_pair(&mut out, k, v);
            },
            None => {},
        }
        i = i + 1;
    }
    assert(hs.take(i as int) =~= hs);
    out
}

/// Whether an MCP URL names an event stream: it ends with `/sse` or holds `/sse?`.
pub fn is_sse_url(url: &str) -> (r: bool)
    ensures
        r == (has_suffix(url@, "/sse"@) || crate::text::contains_seq(url@, "/sse?"@)),
{
    ends_with(url, "/sse") || contains(url, "/sse?")
}

/// The arguments of a tool call: one per key, with the value of its last pair, read as JSON
/// where it parses and as a string otherwise.
pub fn tool_arguments(params: &Vec<(String, String)>) -> (r: Vec<(String, Payload)>)
    ensures
        r@.len() == upsert_all(pair_views(params@)).len(),
        forall|i: int|
            0 <= i < r@.len() ==> {
                let d = #[trigger] upsert_all(pair_views(params@))[i];
                r@[i].0@ == d.0 && is_json_or_text(r@[i].1, d.1)
            },
{
    let ghost ps = pair_views(params@);
    let merged = merge_pairs(params);
    let ghost d = pair_views(merged@);
    let mut out: Vec<(String, Payload)> = Vec::new();
    for e in it: merged
        invariant
            it.seq() == merged@,
            d == pair_views(merged@),
            d == upsert_all(ps),
            out@.len() == it.index(),
            forall|j: int|
                0 <= j < out@.len() ==> out@[j].0@ == d[j].0 && is_json_or_text(
                    out@[j].1,
                    d[j].1,
                ),
    {
        let ghost j = it.index() as int;
        assert(d[j] == (e.0@, e.1@));
        let (k, v) = e;
        out.push((k, Payload::json_or_text(v)));
    }
    out
}

/// `--` and a key read back as the key, where the key does not itself start with `--`.
proof fn lemma_strip_rendered_key(k: Seq<char>)
    requires
        !is_flag(k),
    ensures
        is_flag(dashes() + k),
        strip_prefixes(dashes() + k, dashes()) == k,
{
    let w = dashes() + k;
    assert(w.subrange(0, 2) =~= dashes());
    assert(w.skip(2) =~= k);
    assert(strip_prefixes(k, dashes()) == k);
    assert(strip_prefixes(w, dashes()) == strip_prefixes(w.skip(dashes().len() as int), dashes()));
}

/// Reading rendered pairs from position `i` adds exactly those pairs.
proof fn lemma_scan_rendered(
    args: Seq<Seq<char>>,
    i: int,
    name: Seq<char>,
    acc: Seq<(Seq<char>, Seq<char>)>,
    ps: Seq<(Seq<char>, Seq<char>)>,
)
    requires
        0 <= i <= args.len(),
        args.skip(i) == render_params(ps),
        forall|j: int| 0 <= j < ps.len() ==> !is_flag(#[trigger] ps[j].0),
    ensures
        scan_tool_args(args, i, Some(name), acc) == (Some(name), acc + ps),
    decreases ps.len(),
{
    if ps.len() == 0 {
        assert(args.skip(i).len() == 0);
        assert(acc + ps =~= acc);
    } else {
        lemma_strip_rendered_key(ps[0].0);
        assert(args.skip(i)[0] == dashes() + ps[0].0);
        assert(args.skip(i)[1] == ps[0].1);
        assert(args.skip(i + 2) =~= args.skip(i).skip(2));
        assert(args.skip(i).skip(2) =~= render_params(ps.drop_first()));
        assert forall|j: int| 0 <= j < ps.drop_first().len() implies !is_flag(
            #[trigger] ps.drop_first()[j].0,
        ) by {
            assert(ps.drop_first()[j] == ps[j + 1]);
        }
        lemma_scan_rendered(args, i + 2, name, acc.push(ps[0]), ps.drop_first());
        assert(acc.push(ps[0]) + ps.drop_first() =~= acc + ps);
    }
}

/// Writing a tool name and `--key value` pairs as words and reading them back gives the
/// same name and pairs, where the name and no key starts with `--`.
pub proof fn lemma_tool_args_round_trip(name: Seq<char>, ps: Seq<(Seq<char>, Seq<char>)>)
    requires
        !is_flag(name),
        forall|j: int| 0 <= j < ps.len() ==> !is_flag(#[trigger] ps[j].0),
    ensures
        tool_args_of(seq![name] + render_params(ps)) == (Some(name), ps),
{
    let args = seq![name] + render_params(ps);
    assert(args[0] == name);
    assert(name != dashes()) by {
        if name == dashes() {
            assert(name.subrange(0, 2) =~= dashes());
        }
    }
    assert(skip_separators(args, 0) == 0);
    assert(args.skip(1) =~= render_params(ps));
    lemma_scan_rendered(args, 1, name, Seq::empty(), ps);
    assert(Seq::<(Seq<char>, Seq<char>)>::empty() + ps =~= ps);
}

/// From position `i` on, the name that reading settles on is the one already read, or a
/// later word that is not a flag.
proof fn lemma_scan_name(
    args: Seq<Seq<char>>,
    i: int,
    name: Option<Seq<char>>,
    params: Seq<(Seq<char>, Seq<char>)>,
)
    requires
        name matches Some(n) ==> !is_flag(n),
    ensures
        scan_tool_args(args, i, name, params).0 matches Some(n) ==> !is_flag(n) && (name == Some(n)
            || exists|j: int| 0 <= j < args.len() && args[j] == n),
    decreases args.len() - i,
{
    if i < 0 || i >= args.len() {
    } else if !is_flag(args[i]) && name is None {
        lemma_scan_name(args, i + 1, Some(args[i]), params);
    } else if is_flag(args[i]) && i + 1 < args.len() {
        lemma_scan_name(
            args,
            i + 2,
            name,
            params.push((strip_prefixes(args[i], dashes()), args[i + 1])),
        );
    } else {
        lemma_scan_name(args, i + 1, name, params);
    }
}

/// The tool name that is read is one of the words, and it does not start with `--`.
pub proof fn lemma_tool_name_is_a_plain_word(args: Seq<Seq<char>>)
    ensures
        tool_args_of(args).0 matches Some(n) ==> !is_flag(n) && args.contains(n),
{
    lemma_scan_name(args, skip_separators(args, 0), None, Seq::empty());
}

/// No header name is sent twice.
pub proof fn lemma_header_names_distinct(hs: Seq<Seq<char>>)
    ensures
        distinct_keys(header_pairs(hs)),
    decreases hs.len(),
{
    if hs.len() > 0 {
        lemma_header_names_distinct(hs.drop_last());
        match split_once_at(hs.last(), ':') {
            Some((k, v)) => {
                lemma_upsert_is_map_insert(header_pairs(hs.drop_last()), trim_ws(k), trim_ws(v));
            },
            None => {},
        }
    }
}

} // verus!

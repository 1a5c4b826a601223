//! Splitters that flatten a JSON document into lines and merge them into
//! chunks, falling back to the text's lines when it is not JSON.

use crate::chunk_merge::{merge_with_overlap, overlap_merge};
use crate::errors::ChainError;
use crate::json::{json_parse, parse_json, JsonKind, JsonNode};
use crate::text::{cviews, lines, lines_chars, push_all, str_chars, strings_from_chars, views};
use vstd::prelude::*;

verus! {

broadcast use vstd::seq_lib::group_seq_properties;

/// Each string of `parts` prefixed with `prefix`.
pub open spec fn prefixed(prefix: Seq<char>, parts: Seq<Seq<char>>) -> Seq<Seq<char>> {
    parts.map_values(|s: Seq<char>| prefix + s)
}

/// The lines a JSON value flattens to: below `max` depth, an object gives
/// `key: line` for each line of each member, an array the lines of each
/// item; at `max` depth, or for any other value, its compact text.
pub open spec fn json_lines(n: JsonNode, depth: nat, max: nat) -> Seq<Seq<char>>
    decreases n,
{
    if depth >= max {
        seq![n.text@]
    } else {
        match n.kind {
            JsonKind::Object(es) => entry_lines(es@, depth + 1, max),
            JsonKind::Array(items) => item_lines(items@, depth + 1, max),
            _ => seq![n.text@],
        }
    }
}

/// The lines of object entries at a depth.
pub open spec fn entry_lines(es: Seq<(String, JsonNode)>, depth: nat, max: nat) -> Seq<Seq<char>>
    decreases es,
{
    if es.len() == 0 {
        Seq::empty()
    } else {
        entry_lines(es.drop_last(), depth, max) + prefixed(es.last().0@ + ": "@, json_lines(es.last().1, depth, max))
    }
}

/// The lines of array items at a depth.
pub open spec fn item_lines(items: Seq<JsonNode>, depth: nat, max: nat) -> Seq<Seq<char>>
    decreases items,
{
    if items.len() == 0 {
        Seq::empty()
    } else {
        item_lines(items.drop_last(), depth, max) + json_lines(items.last(), depth, max)
    }
}

/// Appends `prefix + s` for each `s` of `parts`.
fn push_prefixed(out: &mut Vec<Vec<char>>, prefix: &[char], parts: &Vec<Vec<char>>)
    ensures
        cviews(final(out)@) == cviews(old(out)@) + prefixed(prefix@, cviews(parts@)),
{
    let mut i: usize = 0;
    while i < parts.len()
        invariant
            i <= parts@.len(),
            cviews(out@) == cviews(old(out)@) + prefixed(prefix@, cviews(parts@).take(i as int)),
        decreases parts@.len() - i,
    {
        let mut x = vstd::slice::slice_to_vec(prefix);
        push_all(&mut x, parts[i].as_slice());
        proof {
            assert(cviews(out@.push(x)) =~= cviews(out@).push(x@));
            assert(cviews(parts@).take(i + 1) =~= cviews(parts@).take(i as int).push(parts@[i as int]@));
            assert(prefixed(prefix@, cviews(parts@).take(i + 1)) =~= prefixed(prefix@, cviews(parts@).take(i as int)).push(prefix@ + parts@[i as int]@));
        }
        out.push(x);
        i += 1;
    }
    assert(cviews(parts@).take(parts@.len() as int) =~= cviews(parts@));
}

/// Appends all of `parts`.
fn push_each(out: &mut Vec<Vec<char>>, parts: Vec<Vec<char>>)
    ensures
        cviews(final(out)@) == cviews(old(out)@) + cviews(parts@),
{
    let mut parts = parts;
    let ghost orig = cviews(parts@);
    let mut rest: Vec<Vec<char>> = Vec::new();
    let mut i: usize = 0;
    let n = parts.len();
    while i < n
        invariant
            n == parts@.len(),
            i <= n,
            orig == cviews(parts@),
            cviews(out@) == cviews(old(out)@) + orig.take(i as int),
        decreases n - i,
    {
        let x = vstd::slice::slice_to_vec(parts[i].as_slice());
        proof {
            assert(cviews(out@.push(x)) =~= cviews(out@).push(x@));
            assert(orig.take(i + 1) =~= orig.take(i as int).push(orig[i as int]));
        }
        out.push(x);
        i += 1;
    }
    assert(orig.take(n as int) =~= orig);
}

/// Flattens a JSON value into lines (see [`json_lines`]).
fn flatten_lines(n: &JsonNode, depth: usize, max: usize) -> (out: Vec<Vec<char>>)
    ensures
        cviews(out@) == json_lines(*n, depth as nat, max as nat),
    decreases n,
{
    if depth >= max {
        let v = vec![str_chars(n.text.as_str())];
        assert(cviews(v@) =~= seq![n.text@]);
        return v;
    }
    match &n.kind {
        JsonKind::Object(es) => {
            let mut out: Vec<Vec<char>> = Vec::new();
            let mut i: usize = 0;
            while i < es.len()
                invariant
                    i <= es@.len(),
                    depth < max,
                    n.kind == JsonKind::Object(*es),
                    cviews(out@) == entry_lines(es@.take(i as int), (depth + 1) as nat, max as nat),
                decreases es@.len() - i,
            {
                proof {
                    let e = es@[i as int];
                    assert(decreases_to!(*n => n.kind));
                    assert(decreases_to!(n.kind => n.kind->Object_0));
                    assert(decreases_to!(n.kind->Object_0 => n.kind->Object_0@));
                    assert(decreases_to!(n.kind->Object_0@ => e));
                    assert(decreases_to!(e => e.1));
                }
                let inner = flatten_lines(&es[i].1, depth + 1, max);
                let mut p = str_chars(es[i].0.as_str());
                p.push(':');
                p.push(' ');
                proof {
                    reveal_strlit(": ");
                    assert(p@ =~= es@[i as int].0@ + ": "@);
                    assert(es@.take(i + 1).drop_last() =~= es@.take(i as int));
                    assert(es@.take(i + 1).last() == es@[i as int]);
                }
                push_prefixed(&mut out, p.as_slice(), &inner);
                i += 1;
            }
            assert(es@.take(es@.len() as int) =~= es@);
            out
        },
        JsonKind::Array(items) => {
            let mut out: Vec<Vec<char>> = Vec::new();
            let mut i: usize = 0;
            while i < items.len()
                invariant
                    i <= items@.len(),
                    depth < max,
                    n.kind == JsonKind::Array(*items),
                    cviews(out@) == item_lines(items@.take(i as int), (depth + 1) as nat, max as nat),
                decreases items@.len() - i,
            {
                proof {
                    assert(decreases_to!(*n => n.kind));
                    assert(decreases_to!(n.kind => n.kind->Array_0));
                    assert(decreases_to!(n.kind->Array_0 => n.kind->Array_0@));
                    assert(decreases_to!(n.kind->Array_0@ => items@[i as int]));
                }
                let inner = flatten_lines(&items[i], depth + 1, max);
                proof {
                    assert(items@.take(i + 1).drop_last() =~= items@.take(i as int));
                    assert(items@.take(i + 1).last() == items@[i as int]);
                }
                push_each(&mut out, inner);
                i += 1;
            }
            assert(items@.take(items@.len() as int) =~= items@);
            out
        },
        _ => {
            let v = vec![str_chars(n.text.as_str())];
            assert(cviews(v@) =~= seq![n.text@]);
            v
        },
    }
}

/// The decimal digit for `d < 10`.
pub open spec fn digit_char(d: nat) -> char {
    ((d + 48) as u32) as char
}

/// The decimal representation of `n`.
pub open spec fn decimal(n: nat) -> Seq<char>
    decreases n,
{
    if n < 10 {
        seq![digit_char(n)]
    } else {
        decimal(n / 10).push(digit_char(n % 10))
    }
}

/// Writes `n` in decimal.
pub fn decimal_chars(n: usize) -> (out: Vec<char>)
    ensures
        out@ == decimal(n as nat),
    decreases n,
{
    let d = n % 10;
    let c: char = if d == 0 { '0' } else if d == 1 { '1' } else if d == 2 { '2' } else if d == 3 { '3' } else if d == 4 {
        '4'
    } else if d == 5 { '5' } else if d == 6 { '6' } else if d == 7 { '7' } else if d == 8 { '8' } else { '9' };
    assert(c == digit_char(d as nat));
    if n < 10 {
        vec![c]
    } else {
        let mut v = decimal_chars(n / 10);
        v.push(c);
        v
    }
}

/// Writes a 64-bit number in decimal.
pub fn decimal_chars_u64(n: u64) -> (out: Vec<char>)
    ensures
        out@ == decimal(n as nat),
    decreases n,
{
    let d = n % 10;
    let c: char = if d == 0 { '0' } else if d == 1 { '1' } else if d == 2 { '2' } else if d == 3 { '3' } else if d == 4 {
        '4'
    } else if d == 5 { '5' } else if d == 6 { '6' } else if d == 7 { '7' } else if d == 8 { '8' } else { '9' };
    assert(c == digit_char(d as nat));
    if n < 10 {
        vec![c]
    } else {
        let mut v = decimal_chars_u64(n / 10);
        v.push(c);
        v
    }
}

/// The lines a JSON value flattens to for [`RecursiveJsonSplitter`]: as
/// [`json_lines`], except that each line of array item `i` is prefixed with
/// `[i] `.
pub open spec fn flat_lines(n: JsonNode, depth: nat, max: nat) -> Seq<Seq<char>>
    decreases n,
{
    if depth >= max {
        seq![n.text@]
    } else {
        match n.kind {
            JsonKind::Object(es) => flat_entries(es@, depth + 1, max),
            JsonKind::Array(items) => flat_items(items@, depth + 1, max),
            _ => seq![n.text@],
        }
    }
}

/// The flattened lines of object entries at a depth.
pub open spec fn flat_entries(es: Seq<(String, JsonNode)>, depth: nat, max: nat) -> Seq<Seq<char>>
    decreases es,
{
    if es.len() == 0 {
        Seq::empty()
    } else {
        flat_entries(es.drop_last(), depth, max) + prefixed(es.last().0@ + ": "@, flat_lines(es.last().1, depth, max))
    }
}

/// The flattened lines of array items at a depth, each prefixed with its
/// index.
pub open spec fn flat_items(items: Seq<JsonNode>, depth: nat, max: nat) -> Seq<Seq<char>>
    decreases items,
{
    if items.len() == 0 {
        Seq::empty()
    } else {
        flat_items(items.drop_last(), depth, max) + prefixed(
            seq!['['] + decimal((items.len() - 1) as nat) + "] "@,
            flat_lines(items.last(), depth, max),
        )
    }
}

/// Flattens a JSON value into lines (see [`flat_lines`]).
fn flatten_indexed(n: &JsonNode, depth: usize, max: usize) -> (out: Vec<Vec<char>>)
    ensures
        cviews(out@) == flat_lines(*n, depth as nat, max as nat),
    decreases n,
{
    if depth >= max {
        let v = vec![str_chars(n.text.as_str())];
        assert(cviews(v@) =~= seq![n.text@]);
        return v;
    }
    match &n.kind {
        JsonKind::Object(es) => {
            let mut out: Vec<Vec<char>> = Vec::new();
            let mut i: usize = 0;
            while i < es.len()
                invariant
                    i <= es@.len(),
                    depth < max,
                    n.kind == JsonKind::Object(*es),
                    cviews(out@) == flat_entries(es@.take(i as int), (depth + 1) as nat, max as nat),
                decreases es@.len() - i,
            {
                proof {
                    let e = es@[i as int];
                    assert(decreases_to!(*n => n.kind));
                    assert(decreases_to!(n.kind => n.kind->Object_0));
                    assert(decreases_to!(n.kind->Object_0 => n.kind->Object_0@));
                    assert(decreases_to!(n.kind->Object_0@ => e));
                    assert(decreases_to!(e => e.1));
                }
                let inner = flatten_indexed(&es[i].1, depth + 1, max);
                let mut p = str_chars(es[i].0.as_str());
                p.push(':');
                p.push(' ');
                proof {
                    reveal_strlit(": ");
                    assert(p@ =~= es@[i as int].0@ + ": "@);
                    assert(es@.take(i + 1).drop_last() =~= es@.take(i as int));
                    assert(es@.take(i + 1).last() == es@[i as int]);
                }
                push_prefixed(&mut out, p.as_slice(), &inner);
                i += 1;
            }
            assert(es@.take(es@.len() as int) =~= es@);
            out
        },
        JsonKind::Array(items) => {
            let mut out: Vec<Vec<char>> = Vec::new();
            let mut i: usize = 0;
            while i < items.len()
                invariant
                    i <= items@.len(),
                    depth < max,
                    n.kind == JsonKind::Array(*items),
                    cviews(out@) == flat_items(items@.take(i as int), (depth + 1) as nat, max as nat),
                decreases items@.len() - i,
            {
                proof {
                    assert(decreases_to!(*n => n.kind));
                    assert(decreases_to!(n.kind => n.kind->Array_0));
                    assert(decreases_to!(n.kind->Array_0 => n.kind->Array_0@));
                    assert(decreases_to!(n.kind->Array_0@ => items@[i as int]));
                }
                let inner = flatten_indexed(&items[i], depth + 1, max);
                let mut p: Vec<char> = vec!['['];
                let ds = decimal_chars(i);
                push_all(&mut p, ds.as_slice());
                p.push(']');
                p.push(' ');
                proof {
                    reveal_strlit("] ");
                    assert(p@ =~= seq!['['] + decimal(i as nat) + "] "@);
                    assert(items@.take(i + 1).drop_last() =~= items@.take(i as int));
                    assert(items@.take(i + 1).last() == items@[i as int]);
                    assert(items@.take(i + 1).len() - 1 == i);
                }
                push_prefixed(&mut out, p.as_slice(), &inner);
                i += 1;
            }
            assert(items@.take(items@.len() as int) =~= items@);
            out
        },
        _ => {
            let v = vec![str_chars(n.text.as_str())];
            assert(cviews(v@) =~= seq![n.text@]);
            v
        },
    }
}

/// The chunks of a JSON splitter: the flattened lines when the text parses
/// as JSON, otherwise its lines, merged with newlines and an overlap
/// (`None` when an overlap cut falls inside a character).
pub open spec fn json_chunks(text: Seq<char>, size: int, overlap: nat, max: nat, indexed: bool) -> Option<Seq<Seq<char>>> {
    match json_parse(text) {
        Ok(tree) => overlap_merge(
            if indexed { flat_lines(tree, 0, max) } else { json_lines(tree, 0, max) },
            '\n',
            size,
            overlap,
        ),
        Err(_) => overlap_merge(lines(text), '\n', size, overlap),
    }
}

/// What a JSON splitter returns: the chunks, or a validation error when an
/// overlap cut would fall inside a character.
pub open spec fn json_split_result(text: Seq<char>, size: int, overlap: nat, max: nat, indexed: bool, res: Result<Vec<String>, ChainError>) -> bool {
    match json_chunks(text, size, overlap, max, indexed) {
        Some(c) => res matches Ok(v) && views(v@) == c,
        None => res matches Err(ChainError::ValidationError(_)),
    }
}

/// Splits a JSON text (or, failing to parse, its lines) into chunks.
fn split_json(text: &str, size: usize, overlap: usize, max: usize, indexed: bool) -> (res: Result<Vec<String>, ChainError>)
    ensures
        json_split_result(text@, size as int, overlap as nat, max as nat, indexed, res),
{
    let parts = match parse_json(text) {
        Ok(tree) => if indexed {
            flatten_indexed(&tree, 0, max)
        } else {
            flatten_lines(&tree, 0, max)
        },
        Err(_) => {
            let t = str_chars(text);
            lines_chars(t.as_slice())
        },
    };
    match merge_with_overlap(&parts, '\n', size, overlap) {
        Some(chunks) => {
            let out = strings_from_chars(&chunks);
            assert(views(out@) =~= cviews(chunks@));
            Ok(out)
        },
        None => Err(ChainError::ValidationError(String::from_str("chunk overlap does not end on a character boundary"))),
    }
}

/// Splits JSON text into `key: value` lines, falling back to the text's
/// lines when it is not valid JSON.
#[derive(Debug, Clone)]
pub struct JsonTextSplitter {
    /// Target chunk size in bytes.
    pub chunk_size: usize,
    /// Overlap between chunks in bytes.
    pub chunk_overlap: usize,
    /// How deep to descend into the JSON structure.
    pub max_depth: usize,
}

impl JsonTextSplitter {
    /// Creates a new `JsonTextSplitter`.
    pub fn new(chunk_size: usize, chunk_overlap: usize, max_depth: usize) -> (res: Self)
        ensures
            res.chunk_size == chunk_size,
            res.chunk_overlap == chunk_overlap,
            res.max_depth == max_depth,
    {
        JsonTextSplitter { chunk_size, chunk_overlap, max_depth }
    }

    /// The splitter with a chunk size of 4000, an overlap of 200 and a depth
    /// of 5.
    pub fn default() -> (res: Self)
        ensures
            res.chunk_size == 4000,
            res.chunk_overlap == 200,
            res.max_depth == 5,
    {
        JsonTextSplitter { chunk_size: 4000, chunk_overlap: 200, max_depth: 5 }
    }

    /// Splits `text`: a JSON document into its flattened lines, any other
    /// text into its lines, then merges them.
    pub fn split_text(&self, text: &str) -> (res: Result<Vec<String>, ChainError>)
        ensures
            json_split_result(text@, self.chunk_size as int, self.chunk_overlap as nat, self.max_depth as nat, false, res),
    {
        split_json(text, self.chunk_size, self.chunk_overlap, self.max_depth, false)
    }
}

/// Splits JSON text into `key: value` and `[index] value` lines, falling
/// back to the text's lines when it is not valid JSON.
#[derive(Debug, Clone)]
pub struct RecursiveJsonSplitter {
    /// Target chunk size in bytes.
    pub chunk_size: usize,
    /// Overlap between chunks in bytes.
    pub chunk_overlap: usize,
    /// How deep to descend into the JSON structure.
    pub max_depth: usize,
}

impl RecursiveJsonSplitter {
    /// Creates a new `RecursiveJsonSplitter`.
    pub fn new(chunk_size: usize, chunk_overlap: usize, max_depth: usize) -> (res: Self)
        ensures
            res.chunk_size == chunk_size,
            res.chunk_overlap == chunk_overlap,
            res.max_depth == max_depth,
    {
        RecursiveJsonSplitter { chunk_size, chunk_overlap, max_depth }
    }

    /// The splitter with a chunk size of 4000, an overlap of 200 and a depth
    /// of 10.
    pub fn default() -> (res: Self)
        ensures
            res.chunk_size == 4000,
            res.chunk_overlap == 200,
            res.max_depth == 10,
    {
        RecursiveJsonSplitter { chunk_size: 4000, chunk_overlap: 200, max_depth: 10 }
    }

    /// Splits `text`: a JSON document into its flattened, indexed lines,
    /// any other text into its lines, then merges them.
    pub fn split_text(&self, text: &str) -> (res: Result<Vec<String>, ChainError>)
        ensures
            json_split_result(text@, self.chunk_size as int, self.chunk_overlap as nat, self.max_depth as nat, true, res),
    {
        split_json(text, self.chunk_size, self.chunk_overlap, self.max_depth, true)
    }
}

} // verus!

//! Chat loaders that read chat sessions from files.

use crate::errors::ChainError;
use crate::messages::{BaseMessage, MessageType};
use crate::text::{str_chars, str_equal, views, IntoText};
use vstd::prelude::*;

verus! {

/// A chat loader that reads sessions from a JSON file.
#[derive(Debug, Clone)]
pub struct JsonChatLoader {
    /// Path to the JSON file.
    pub path: String,
}

impl JsonChatLoader {
    /// Creates a new `JsonChatLoader` for the given file path.
    pub fn new<S: IntoText>(path: S) -> (res: Self)
        ensures
            res.path@ == path.text_view(),
    {
        JsonChatLoader { path: path.into_text() }
    }
}

/// A chat loader that reads one message per CSV row.
#[derive(Debug, Clone)]
pub struct CsvChatLoader {
    /// Path to the CSV file.
    pub path: String,
    /// Column name containing the message content.
    pub content_column: String,
    /// Column name containing the message role.
    pub role_column: String,
}

/// `c` with ASCII upper-case letters mapped to lower case.
pub open spec fn ascii_lower(c: char) -> char {
    if 'A' <= c <= 'Z' {
        ((c as u32) + 32) as char
    } else {
        c
    }
}

/// `a` equals `b` once ASCII letters of `a` are lower-cased (`b` being a
/// lower-case ASCII word).
pub open spec fn lower_eq(a: Seq<char>, b: Seq<char>) -> bool {
    a.len() == b.len() && forall|i: int| 0 <= i < a.len() ==> ascii_lower(#[trigger] a[i]) == b[i]
}

/// The message type a role name denotes, compared case-insensitively:
/// `human`/`user`, `ai`/`assistant`, `system`, `tool`, `function`; any other
/// role is generic.
pub open spec fn role_type(r: Seq<char>) -> MessageType {
    if lower_eq(r, "human"@) || lower_eq(r, "user"@) {
        MessageType::Human
    } else if lower_eq(r, "ai"@) || lower_eq(r, "assistant"@) {
        MessageType::AI
    } else if lower_eq(r, "system"@) {
        MessageType::System
    } else if lower_eq(r, "tool"@) {
        MessageType::Tool
    } else if lower_eq(r, "function"@) {
        MessageType::Function
    } else {
        MessageType::Generic
    }
}

/// Whether `a` equals the lower-case ASCII word `b` ignoring ASCII case.
fn lower_equals(a: &[char], b: &str) -> (r: bool)
    ensures
        r == lower_eq(a@, b@),
{
    let bc = str_chars(b);
    if a.len() != bc.len() {
        return false;
    }
    let mut i: usize = 0;
    while i < a.len()
        invariant
            bc@ == b@,
            a@.len() == b@.len(),
            i <= a@.len(),
            forall|k: int| 0 <= k < i ==> ascii_lower(#[trigger] a@[k]) == b@[k],
        decreases a@.len() - i,
    {
        let c = a[i];
        let u = c as u32;
        let l = if 65 <= u && u <= 90 {
            let b: u8 = (u + 32) as u8;
            assert(b as nat == u + 32);
            b as char
        } else {
            c
        };
        if l != bc[i] {
            return false;
        }
        i += 1;
    }
    true
}

impl CsvChatLoader {
    /// Creates a new `CsvChatLoader`.
    pub fn new<A: IntoText, B: IntoText, C: IntoText>(path: A, content_column: B, role_column: C) -> (res: Self)
        ensures
            res.path@ == path.text_view(),
            res.content_column@ == content_column.text_view(),
            res.role_column@ == role_column.text_view(),
    {
        CsvChatLoader {
            path: path.into_text(),
            content_column: content_column.into_text(),
            role_column: role_column.into_text(),
        }
    }

    /// Loads chat sessions from CSV text read from this loader's file (see
    /// [`csv_sessions`]).
    pub fn load_text(&self, text: &str) -> (res: Result<Vec<Vec<BaseMessage>>, ChainError>)
        ensures
            csv_sessions_result(csv_table(text@), self.content_column@, self.role_column@, res),
    {
        csv_sessions(text, self.content_column.as_str(), self.role_column.as_str())
    }

    /// The message type named by a CSV role value (case-insensitive).
    pub fn parse_role(role: &str) -> (res: MessageType)
        ensures
            res == role_type(role@),
    {
        let r = str_chars(role);
        if lower_equals(r.as_slice(), "human") || lower_equals(r.as_slice(), "user") {
            MessageType::Human
        } else if lower_equals(r.as_slice(), "ai") || lower_equals(r.as_slice(), "assistant") {
            MessageType::AI
        } else if lower_equals(r.as_slice(), "system") {
            MessageType::System
        } else if lower_equals(r.as_slice(), "tool") {
            MessageType::Tool
        } else if lower_equals(r.as_slice(), "function") {
            MessageType::Function
        } else {
            MessageType::Generic
        }
    }
}

/// A CSV table as the `csv` crate reads it: the header fields and, for each
/// record, its fields or the error's message; or the message of an error
/// reading the header.
pub uninterp spec fn csv_table(text: Seq<char>) -> Result<(Seq<Seq<char>>, Seq<Result<Seq<Seq<char>>, Seq<char>>>), Seq<char>>;

/// The view of a table read from CSV text.
pub open spec fn table_view(r: Result<(Vec<String>, Vec<Result<Vec<String>, String>>), String>) -> Result<(Seq<Seq<char>>, Seq<Result<Seq<Seq<char>>, Seq<char>>>), Seq<char>> {
    match r {
        Ok(t) => Ok((views(t.0@), t.1@.map_values(|x: Result<Vec<String>, String>| match x {
            Ok(f) => Ok(views(f@)),
            Err(e) => Err(e@),
        }))),
        Err(e) => Err(e@),
    }
}

/// Reads CSV text with `csv::Reader` (headers on): the header fields, then
/// every record's fields or error message.
///
/// Claimed of the crate: the table is determined by the text (named
/// `csv_table`). How the text is tokenized into fields is left unstated.
#[verifier::external_body]
fn read_csv(text: &str) -> (r: Result<(Vec<String>, Vec<Result<Vec<String>, String>>), String>)
    ensures
        table_view(r) == csv_table(text@),
{
    let mut rdr = csv::Reader::from_reader(text.as_bytes());
    let headers: Vec<String> = match rdr.headers() {
        Ok(h) => h.iter().map(|x| x.to_string()).collect(),
        Err(e) => return Err(e.to_string()),
    };
    let rows = rdr.records().map(|r| r.map(|rec| rec.iter().map(|x| x.to_string()).collect()).map_err(|e| e.to_string())).collect();
    Ok((headers, rows))
}

/// The index of the first header equal to `name`.
pub open spec fn header_position(headers: Seq<Seq<char>>, name: Seq<char>) -> Option<int>
    decreases headers.len(),
{
    if headers.len() == 0 {
        None
    } else if headers[0] == name {
        Some(0)
    } else {
        match header_position(headers.drop_first(), name) {
            Some(i) => Some(i + 1),
            None => None,
        }
    }
}

/// The message for a column missing from the headers.
pub open spec fn missing_column_message(name: Seq<char>) -> Seq<char> {
    "Column '"@ + name + "' not found in CSV headers"@
}

/// Field `i` of a record, or `default` when the record is shorter.
pub open spec fn field_or(fields: Seq<Seq<char>>, i: int, default: Seq<char>) -> Seq<char> {
    if 0 <= i < fields.len() {
        fields[i]
    } else {
        default
    }
}

/// The message of each record (content and role), up to the first record
/// error.
pub open spec fn record_messages(rows: Seq<Result<Seq<Seq<char>>, Seq<char>>>, ci: int, ri: int) -> Result<Seq<(Seq<char>, MessageType)>, Seq<char>>
    decreases rows.len(),
{
    if rows.len() == 0 {
        Ok(Seq::empty())
    } else {
        match record_messages(rows.drop_last(), ci, ri) {
            Err(e) => Err(e),
            Ok(ms) => match rows.last() {
                Err(e) => Err(e),
                Ok(f) => Ok(ms.push((field_or(f, ci, Seq::empty()), role_type(field_or(f, ri, "human"@))))),
            },
        }
    }
}

/// What loading CSV text gives: one single-message session per record, the
/// message's content and role read from the named columns (missing fields
/// read as empty content and the `human` role).
pub open spec fn csv_sessions_result(
    table: Result<(Seq<Seq<char>>, Seq<Result<Seq<Seq<char>>, Seq<char>>>), Seq<char>>,
    content: Seq<char>,
    role: Seq<char>,
    res: Result<Vec<Vec<BaseMessage>>, ChainError>,
) -> bool {
    match table {
        Err(e) => res matches Err(ChainError::IOError(m)) && m@ == e,
        Ok(t) => match header_position(t.0, content) {
            None => res matches Err(ChainError::ValidationError(m)) && m@ == missing_column_message(content),
            Some(ci) => match header_position(t.0, role) {
                None => res matches Err(ChainError::ValidationError(m)) && m@ == missing_column_message(role),
                Some(ri) => match record_messages(t.1, ci, ri) {
                    Err(e) => res matches Err(ChainError::IOError(m)) && m@ == e,
                    Ok(ms) => res matches Ok(v) && v@.len() == ms.len() && forall|k: int| 0 <= k < ms.len() ==> {
                        &&& (#[trigger] v@[k])@.len() == 1
                        &&& v@[k]@[0].content@ == ms[k].0
                        &&& v@[k]@[0].message_type == ms[k].1
                    },
                },
            },
        },
    }
}

/// Finds the first header equal to `name`.
fn find_header(headers: &Vec<String>, name: &str) -> (r: Option<usize>)
    ensures
        match r {
            Some(i) => header_position(views(headers@), name@) == Some(i as int),
            None => header_position(views(headers@), name@) is None,
        },
{
    let mut i: usize = 0;
    assert(views(headers@).skip(0) =~= views(headers@));
    while i < headers.len()
        invariant
            i <= headers@.len(),
            header_position(views(headers@), name@) == match header_position(views(headers@).skip(i as int), name@) {
                Some(j) => Some(j + i),
                None => None::<int>,
            },
        decreases headers@.len() - i,
    {
        proof {
            assert(views(headers@).skip(i as int).drop_first() =~= views(headers@).skip(i + 1));
            assert(views(headers@).skip(i as int)[0] == headers@[i as int]@);
        }
        if str_equal(headers[i].as_str(), name) {
            assert(header_position(views(headers@).skip(i as int), name@) == Some(0int));
            return Some(i);
        }
        i += 1;
    }
    assert(views(headers@).skip(i as int) =~= Seq::<Seq<char>>::empty());
    None
}

/// The message for a column missing from the headers.
fn missing_column(name: &str) -> (res: String)
    ensures
        res@ == missing_column_message(name@),
{
    let mut m = String::from_str("Column '");
    m.append(name);
    m.append("' not found in CSV headers");
    m
}

/// Turns CSV text into chat sessions: one single-message session per
/// record, with the content and role read from the named columns.
pub fn csv_sessions(text: &str, content_column: &str, role_column: &str) -> (res: Result<Vec<Vec<BaseMessage>>, ChainError>)
    ensures
        csv_sessions_result(csv_table(text@), content_column@, role_column@, res),
{
    let table = match read_csv(text) {
        Ok(t) => t,
        Err(e) => {
            return Err(ChainError::IOError(e));
        },
    };
    let ghost tv = table_view(Ok::<(Vec<String>, Vec<Result<Vec<String>, String>>), String>(table));
    let (headers, rows) = table;
    let ci = match find_header(&headers, content_column) {
        Some(i) => i,
        None => {
            return Err(ChainError::ValidationError(missing_column(content_column)));
        },
    };
    let ri = match find_header(&headers, role_column) {
        Some(i) => i,
        None => {
            return Err(ChainError::ValidationError(missing_column(role_column)));
        },
    };
    let ghost rv = rows@.map_values(|x: Result<Vec<String>, String>| match x {
        Ok(f) => Ok(views(f@)),
        Err(e) => Err(e@),
    });
    let mut sessions: Vec<Vec<BaseMessage>> = Vec::new();
    let mut i: usize = 0;
    assert(rv.take(0) =~= Seq::<Result<Seq<Seq<char>>, Seq<char>>>::empty());
    assert(tv == Ok::<(Seq<Seq<char>>, Seq<Result<Seq<Seq<char>>, Seq<char>>>), Seq<char>>((views(headers@), rv)));
    while i < rows.len()
        invariant
            i <= rows@.len(),
            rv.len() == rows@.len(),
            tv == csv_table(text@),
            tv == Ok::<(Seq<Seq<char>>, Seq<Result<Seq<Seq<char>>, Seq<char>>>), Seq<char>>((views(headers@), rv)),
            header_position(views(headers@), content_column@) == Some(ci as int),
            header_position(views(headers@), role_column@) == Some(ri as int),
            rv == rows@.map_values(|x: Result<Vec<String>, String>| match x {
                Ok(f) => Ok(views(f@)),
                Err(e) => Err(e@),
            }),
            record_messages(rv.take(i as int), ci as int, ri as int) matches Ok(ms) && sessions@.len() == ms.len()
                && forall|k: int| 0 <= k < ms.len() ==> {
                    &&& (#[trigger] sessions@[k])@.len() == 1
                    &&& sessions@[k]@[0].content@ == ms[k].0
                    &&& sessions@[k]@[0].message_type == ms[k].1
                },
        decreases rows@.len() - i,
    {
        proof {
            assert(rv.take(i + 1).drop_last() =~= rv.take(i as int));
            assert(rv.take(i + 1).last() == rv[i as int]);
        }
        let ghost before = sessions@;
        match &rows[i] {
            Err(e) => {
                proof {
                    assert(rv[i as int] == Err::<Seq<Seq<char>>, Seq<char>>(e@));
                    lemma_record_messages_err(rv, i as int + 1, ci as int, ri as int);
                }
                return Err(ChainError::IOError(e.clone()));
            },
            Ok(fields) => {
                proof {
                    assert(rv[i as int] == Ok::<Seq<Seq<char>>, Seq<char>>(views(fields@)));
                }
                let content: &str = if ci < fields.len() { fields[ci].as_str() } else { "" };
                let role: &str = if ri < fields.len() { fields[ri].as_str() } else { "human" };
                assert(content@ == field_or(views(fields@), ci as int, Seq::empty())) by {
                    if ci >= fields.len() {
                        reveal_strlit("");
                    }
                };
                assert(role@ == field_or(views(fields@), ri as int, "human"@));
                let msg = BaseMessage::new(content, CsvChatLoader::parse_role(role));
                let one = vec![msg];
                sessions.push(one);
                proof {
                    assert forall|k: int| 0 <= k < before.len() implies #[trigger] sessions@[k] == before[k] by {}
                    assert(sessions@[before.len() as int] == one);
                }
            },
        }
        i += 1;
    }
    assert(rv.take(rows@.len() as int) =~= rv);
    assert(tv == csv_table(text@));
    Ok(sessions)
}

/// Once a prefix of the records fails, every longer prefix fails the same
/// way.
proof fn lemma_record_messages_err(rows: Seq<Result<Seq<Seq<char>>, Seq<char>>>, n: int, ci: int, ri: int)
    requires
        0 < n <= rows.len(),
        record_messages(rows.take(n), ci, ri) is Err,
    ensures
        record_messages(rows, ci, ri) == record_messages(rows.take(n), ci, ri),
    decreases rows.len() - n,
{
    if n < rows.len() {
        assert(rows.take(n + 1).drop_last() =~= rows.take(n));
        lemma_record_messages_err(rows, n + 1, ci, ri);
    } else {
        assert(rows.take(n) =~= rows);
    }
}

} // verus!

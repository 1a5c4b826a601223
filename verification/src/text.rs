//! Verified character-level text utilities: UTF-8 byte lengths, searching,
//! splitting, trimming, replacing and joining.

use vstd::prelude::*;
use vstd::utf8::*;

verus! {

broadcast use vstd::seq_lib::group_seq_properties;

/// The UTF-8 byte length of a character sequence (what `str::len` returns).
pub open spec fn blen(s: Seq<char>) -> nat {
    encode_utf8(s).len()
}

/// The number of bytes in the UTF-8 encoding of one character.
pub open spec fn cwidth(c: char) -> nat {
    encode_scalar(c as u32).len()
}

/// Encoding a concatenation concatenates the encodings.
pub proof fn lemma_encode_concat(a: Seq<char>, b: Seq<char>)
    ensures
        encode_utf8(a + b) == encode_utf8(a) + encode_utf8(b),
    decreases a.len(),
{
    if a.len() == 0 {
        assert(a + b =~= b);
    } else {
        lemma_encode_concat(a.drop_first(), b);
        assert((a + b).drop_first() =~= a.drop_first() + b);
        assert(encode_utf8(a + b) == encode_scalar((a + b)[0] as u32) + encode_utf8((a + b).drop_first()));
    }
}

/// Byte length is additive.
pub proof fn lemma_blen_concat(a: Seq<char>, b: Seq<char>)
    ensures
        blen(a + b) == blen(a) + blen(b),
{
    lemma_encode_concat(a, b);
}

/// Byte length of a sequence extended by one character.
pub proof fn lemma_blen_push(a: Seq<char>, c: char)
    ensures
        blen(a.push(c)) == blen(a) + cwidth(c),
{
    lemma_encode_concat(a, seq![c]);
    assert(a.push(c) =~= a + seq![c]);
    assert(seq![c].drop_first() =~= Seq::<char>::empty());
    assert(encode_utf8(seq![c]) == encode_scalar(seq![c][0] as u32) + encode_utf8(seq![c].drop_first()));
    assert(encode_utf8(Seq::<char>::empty()) =~= Seq::<u8>::empty());
}

/// The byte length of the empty sequence.
pub proof fn lemma_blen_empty()
    ensures
        blen(Seq::<char>::empty()) == 0,
{
}

/// A character takes between one and four bytes.
pub proof fn lemma_cwidth_bounds(c: char)
    ensures
        1 <= cwidth(c) <= 4,
        (c as u32) < 0x80 ==> cwidth(c) == 1,
{
    broadcast use vstd::utf8::char_is_scalar;
}

/// A sequence takes at least one byte per character and at most four.
pub proof fn lemma_blen_bounds(s: Seq<char>)
    ensures
        s.len() <= blen(s) <= 4 * s.len(),
    decreases s.len(),
{
    if s.len() > 0 {
        lemma_blen_bounds(s.drop_first());
        lemma_cwidth_bounds(s[0]);
    }
}

/// The number of UTF-8 bytes of `c`.
pub fn char_width(c: char) -> (w: usize)
    ensures
        w == cwidth(c),
{
    proof {
        broadcast use vstd::utf8::char_is_scalar;
    }
    let u = c as u32;
    if u < 0x80 {
        1
    } else if u < 0x800 {
        2
    } else if u < 0x10000 {
        3
    } else {
        4
    }
}

/// The characters of a string slice.
pub fn str_chars(s: &str) -> (v: Vec<char>)
    ensures
        v@ == s@,
{
    let mut v: Vec<char> = Vec::new();
    for c in it: s.chars()
        invariant
            v@ == it.seq().take(it.index() as int),
            it.seq() == s@,
    {
        v.push(c);
    }
    v
}


/// Whether two character sequences are equal.
pub fn chars_equal(a: &[char], b: &[char]) -> (r: bool)
    ensures
        r == (a@ == b@),
{
    if a.len() != b.len() {
        return false;
    }
    let mut i: usize = 0;
    while i < a.len()
        invariant
            a@.len() == b@.len(),
            i <= a@.len(),
            forall|k: int| 0 <= k < i ==> a@[k] == b@[k],
        decreases a@.len() - i,
    {
        if a[i] != b[i] {
            return false;
        }
        i += 1;
    }
    assert(a@ =~= b@);
    true
}

/// Whether two string slices hold the same text.
pub fn str_equal(a: &str, b: &str) -> (r: bool)
    ensures
        r == (a@ == b@),
{
    let x = str_chars(a);
    let y = str_chars(b);
    chars_equal(x.as_slice(), y.as_slice())
}

/// Appends a character to a string (`String::push`).
#[verifier::external_body]
fn string_push(s: &mut String, c: char)
    ensures
        final(s)@ == old(s)@.push(c),
{
    s.push(c);
}

/// Builds a string holding exactly the given characters.
pub fn string_from_chars(v: &[char]) -> (s: String)
    ensures
        s@ == v@,
{
    let mut s = String::new();
    let mut i: usize = 0;
    while i < v.len()
        invariant
            i <= v@.len(),
            s@ == v@.take(i as int),
        decreases v@.len() - i,
    {
        string_push(&mut s, v[i]);
        i += 1;
        assert(v@.take(i as int) =~= v@.take(i - 1).push(v@[i - 1]));
    }
    assert(v@.take(v@.len() as int) =~= v@);
    s
}

/// Builds the strings holding the given character sequences.
pub fn strings_from_chars(v: &Vec<Vec<char>>) -> (out: Vec<String>)
    ensures
        out@.len() == v@.len(),
        forall|k: int| 0 <= k < v@.len() ==> #[trigger] out@[k]@ == v@[k]@,
{
    let mut out: Vec<String> = Vec::new();
    let mut i: usize = 0;
    while i < v.len()
        invariant
            i <= v@.len(),
            out@.len() == i,
            forall|k: int| 0 <= k < i ==> #[trigger] out@[k]@ == v@[k]@,
        decreases v@.len() - i,
    {
        out.push(string_from_chars(v[i].as_slice()));
        i += 1;
    }
    out
}

/// The views of a sequence of strings.
pub open spec fn views(v: Seq<String>) -> Seq<Seq<char>> {
    v.map_values(|s: String| s@)
}

/// The views of a sequence of character vectors.
pub open spec fn cviews(v: Seq<Vec<char>>) -> Seq<Seq<char>> {
    v.map_values(|s: Vec<char>| s@)
}

/// The byte length of a string slice, computed from its characters.
pub fn text_blen(v: &[char]) -> (n: usize)
    requires
        4 * v@.len() <= usize::MAX,
    ensures
        n == blen(v@),
{
    let mut n: usize = 0;
    let mut i: usize = 0;
    while i < v.len()
        invariant
            i <= v@.len(),
            4 * v@.len() <= usize::MAX,
            n == blen(v@.take(i as int)),
            n <= 4 * i,
        decreases v@.len() - i,
    {
        let w = char_width(v[i]);
        proof {
            lemma_blen_push(v@.take(i as int), v@[i as int]);
            lemma_cwidth_bounds(v@[i as int]);
            assert(v@.take(i + 1) =~= v@.take(i as int).push(v@[i as int]));
        }
        n = n + w;
        i += 1;
    }
    assert(v@.take(v@.len() as int) =~= v@);
    n
}

/// `pat` occurs in `s` at index `i`.
pub open spec fn matches_at(s: Seq<char>, pat: Seq<char>, i: int) -> bool {
    0 <= i && i + pat.len() <= s.len() && s.subrange(i, i + pat.len()) == pat
}

/// The leftmost occurrence of `pat` in `s` at an index no smaller than `i`.
pub open spec fn find_from(s: Seq<char>, pat: Seq<char>, i: int) -> Option<int>
    decreases s.len() - i,
{
    if i < 0 || i + pat.len() > s.len() {
        None
    } else if matches_at(s, pat, i) {
        Some(i)
    } else if i >= s.len() {
        None
    } else {
        find_from(s, pat, i + 1)
    }
}

/// Properties of the leftmost occurrence.
pub proof fn lemma_find_from(s: Seq<char>, pat: Seq<char>, i: int)
    requires
        0 <= i,
    ensures
        find_from(s, pat, i) matches Some(j) ==> i <= j && matches_at(s, pat, j)
            && forall|k: int| i <= k < j ==> !matches_at(s, pat, k),
        find_from(s, pat, i) is None ==> forall|k: int| i <= k ==> !matches_at(s, pat, k),
    decreases s.len() - i,
{
    if i < 0 || i + pat.len() > s.len() {
    } else if matches_at(s, pat, i) {
    } else if i >= s.len() {
    } else {
        lemma_find_from(s, pat, i + 1);
    }
}

/// Whether `pat` occurs in `s` at index `i`.
pub fn chars_match_at(s: &[char], pat: &[char], i: usize) -> (b: bool)
    ensures
        b == matches_at(s@, pat@, i as int),
{
    if i > s.len() || pat.len() > s.len() - i {
        return false;
    }
    let mut k: usize = 0;
    while k < pat.len()
        invariant
            k <= pat@.len(),
            i + pat.len() <= s.len(),
            forall|m: int| 0 <= m < k ==> s@[i + m] == pat@[m],
        decreases pat@.len() - k,
    {
        if s[i + k] != pat[k] {
            assert(s@.subrange(i as int, i + pat@.len())[k as int] != pat@[k as int]);
            return false;
        }
        k += 1;
    }
    assert(s@.subrange(i as int, i + pat@.len()) =~= pat@);
    true
}

/// The leftmost occurrence of `pat` in `s` at or after `start`.
pub fn find_chars_from(s: &[char], pat: &[char], start: usize) -> (r: Option<usize>)
    ensures
        match r {
            Some(j) => find_from(s@, pat@, start as int) == Some(j as int),
            None => find_from(s@, pat@, start as int) is None,
        },
{
    let mut j = start;
    loop
        invariant
            start <= j,
            find_from(s@, pat@, start as int) == find_from(s@, pat@, j as int),
        decreases s@.len() + 1 - j,
    {
        if j > s.len() || pat.len() > s.len() - j {
            return None;
        }
        if chars_match_at(s, pat, j) {
            return Some(j);
        }
        if j >= s.len() {
            return None;
        }
        j += 1;
    }
}

/// The pieces of `s` separated by the non-overlapping, leftmost occurrences
/// of `sep`, starting at index `start` (what `str::split` yields).
pub open spec fn split_from(s: Seq<char>, sep: Seq<char>, start: int) -> Seq<Seq<char>>
    decreases s.len() - start,
{
    match find_from(s, sep, start) {
        Some(i) => if 0 <= start <= i && sep.len() > 0 && i + sep.len() <= s.len() {
            seq![s.subrange(start, i)] + split_from(s, sep, i + sep.len())
        } else {
            seq![s.subrange(start, s.len() as int)]
        },
        None => seq![s.subrange(start, s.len() as int)],
    }
}

/// The pieces of `s` separated by `sep`.
pub open spec fn split_all(s: Seq<char>, sep: Seq<char>) -> Seq<Seq<char>> {
    split_from(s, sep, 0)
}

/// Splits `s` on every leftmost, non-overlapping occurrence of the non-empty
/// separator `sep`.
pub fn split_chars(s: &[char], sep: &[char]) -> (out: Vec<Vec<char>>)
    requires
        sep@.len() > 0,
    ensures
        cviews(out@) == split_all(s@, sep@),
{
    let mut out: Vec<Vec<char>> = Vec::new();
    let mut start: usize = 0;
    loop
        invariant
            sep@.len() > 0,
            start <= s@.len(),
            cviews(out@) + split_from(s@, sep@, start as int) == split_all(s@, sep@),
        decreases s@.len() - start,
    {
        let found = find_chars_from(s, sep, start);
        proof {
            lemma_find_from(s@, sep@, start as int);
        }
        match found {
            Some(i) => {
                let piece = vstd::slice::slice_to_vec(vstd::slice::slice_subrange(s, start, i));
                proof {
                    assert(cviews(out@.push(piece)) =~= cviews(out@).push(piece@));
                    assert(cviews(out@) + split_from(s@, sep@, start as int) =~= cviews(out@.push(piece))
                        + split_from(s@, sep@, i + sep@.len()));
                }
                out.push(piece);
                assert(i + sep@.len() <= s@.len());
                assert(s@.len() == s.len());
                start = i + sep.len();
            },
            None => {
                let piece = vstd::slice::slice_to_vec(vstd::slice::slice_subrange(s, start, s.len()));
                proof {
                    assert(cviews(out@.push(piece)) =~= cviews(out@).push(piece@));
                    assert(cviews(out@) + split_from(s@, sep@, start as int) =~= cviews(out@.push(piece)));
                }
                out.push(piece);
                return out;
            },
        }
    }
}


/// The split of any text has at least one piece.
pub proof fn lemma_split_nonempty(s: Seq<char>, sep: Seq<char>, start: int)
    ensures
        split_from(s, sep, start).len() >= 1,
    decreases s.len() - start,
{
    match find_from(s, sep, start) {
        Some(i) => if 0 <= start <= i && sep.len() > 0 && i + sep.len() <= s.len() {
            lemma_split_nonempty(s, sep, i + sep.len());
        },
        None => {},
    }
}

/// Whether `c` has the Unicode `White_Space` property (`char::is_whitespace`).
pub open spec fn is_ws(c: char) -> bool {
    let u = c as u32;
    ||| 0x9 <= u <= 0xD
    ||| u == 0x20
    ||| u == 0x85
    ||| u == 0xA0
    ||| u == 0x1680
    ||| 0x2000 <= u <= 0x200A
    ||| u == 0x2028
    ||| u == 0x2029
    ||| u == 0x202F
    ||| u == 0x205F
    ||| u == 0x3000
}

/// Whether `c` is whitespace.
pub fn is_whitespace(c: char) -> (b: bool)
    ensures
        b == is_ws(c),
{
    let u = c as u32;
    (0x9 <= u && u <= 0xD) || u == 0x20 || u == 0x85 || u == 0xA0 || u == 0x1680 || (0x2000
        <= u && u <= 0x200A) || u == 0x2028 || u == 0x2029 || u == 0x202F || u == 0x205F || u
        == 0x3000
}

/// `s` without its leading whitespace.
pub open spec fn trim_start(s: Seq<char>) -> Seq<char>
    decreases s.len(),
{
    if s.len() > 0 && is_ws(s[0]) {
        trim_start(s.drop_first())
    } else {
        s
    }
}

/// `s` without its trailing whitespace.
pub open spec fn trim_end(s: Seq<char>) -> Seq<char>
    decreases s.len(),
{
    if s.len() > 0 && is_ws(s.last()) {
        trim_end(s.drop_last())
    } else {
        s
    }
}

/// `s` without leading and trailing whitespace (what `str::trim` returns).
pub open spec fn trim(s: Seq<char>) -> Seq<char> {
    trim_end(trim_start(s))
}

/// The index of the first non-whitespace character at or after `i`.
pub fn skip_ws_forward(s: &[char], i: usize) -> (j: usize)
    requires
        i <= s@.len(),
    ensures
        i <= j <= s@.len(),
        trim_start(s@.subrange(i as int, s@.len() as int)) == s@.subrange(j as int, s@.len() as int),
{
    let mut j = i;
    while j < s.len() && is_whitespace(s[j])
        invariant
            i <= j <= s@.len(),
            trim_start(s@.subrange(i as int, s@.len() as int)) == trim_start(
                s@.subrange(j as int, s@.len() as int),
            ),
        decreases s@.len() - j,
    {
        assert(s@.subrange(j as int, s@.len() as int).drop_first() =~= s@.subrange(
            j + 1,
            s@.len() as int,
        ));
        j += 1;
    }
    j
}

/// The end index of `s[lo..hi]` once trailing whitespace is removed.
pub fn skip_ws_backward(s: &[char], lo: usize, hi: usize) -> (j: usize)
    requires
        lo <= hi <= s@.len(),
    ensures
        lo <= j <= hi,
        trim_end(s@.subrange(lo as int, hi as int)) == s@.subrange(lo as int, j as int),
{
    let mut j = hi;
    while j > lo && is_whitespace(s[j - 1])
        invariant
            lo <= j <= hi <= s@.len(),
            trim_end(s@.subrange(lo as int, hi as int)) == trim_end(s@.subrange(lo as int, j as int)),
        decreases j,
    {
        assert(s@.subrange(lo as int, j as int).drop_last() =~= s@.subrange(lo as int, j - 1));
        j -= 1;
    }
    j
}

/// `s` with leading and trailing whitespace removed.
pub fn trim_chars(s: &[char]) -> (out: Vec<char>)
    ensures
        out@ == trim(s@),
{
    let a = skip_ws_forward(s, 0);
    let b = skip_ws_backward(s, a, s.len());
    assert(s@.subrange(0, s@.len() as int) =~= s@);
    vstd::slice::slice_to_vec(vstd::slice::slice_subrange(s, a, b))
}

/// The pieces of `parts` joined with `sep` between consecutive pieces.
pub open spec fn join(parts: Seq<Seq<char>>, sep: Seq<char>) -> Seq<char>
    decreases parts.len(),
{
    if parts.len() == 0 {
        Seq::empty()
    } else if parts.len() == 1 {
        parts[0]
    } else {
        join(parts.drop_last(), sep) + sep + parts.last()
    }
}

/// Appends characters to a buffer.
pub fn push_all(buf: &mut Vec<char>, x: &[char])
    ensures
        final(buf)@ == old(buf)@ + x@,
{
    let mut i: usize = 0;
    while i < x.len()
        invariant
            i <= x@.len(),
            buf@ == old(buf)@ + x@.take(i as int),
        decreases x@.len() - i,
    {
        buf.push(x[i]);
        i += 1;
        assert(x@.take(i as int) =~= x@.take(i - 1).push(x@[i - 1]));
    }
    assert(x@.take(x@.len() as int) =~= x@);
}

/// Joins character sequences with a separator.
pub fn join_chars(parts: &Vec<Vec<char>>, sep: &[char]) -> (out: Vec<char>)
    ensures
        out@ == join(cviews(parts@), sep@),
{
    let mut out: Vec<char> = Vec::new();
    let mut i: usize = 0;
    while i < parts.len()
        invariant
            i <= parts@.len(),
            out@ == join(cviews(parts@.take(i as int)), sep@),
        decreases parts@.len() - i,
    {
        proof {
            assert(cviews(parts@.take(i + 1)).drop_last() =~= cviews(parts@.take(i as int)));
        }
        if i > 0 {
            push_all(&mut out, sep);
        }
        push_all(&mut out, parts[i].as_slice());
        i += 1;
        proof {
            if i == 1 {
                assert(cviews(parts@.take(0)) =~= Seq::<Seq<char>>::empty());
            }
        }
    }
    assert(parts@.take(parts@.len() as int) =~= parts@);
    out
}

/// Joins strings with a separator.
pub fn join_strings(parts: &Vec<String>, sep: &str) -> (out: String)
    ensures
        out@ == join(views(parts@), sep@),
{
    let sepv = str_chars(sep);
    let mut out: Vec<char> = Vec::new();
    let mut i: usize = 0;
    while i < parts.len()
        invariant
            i <= parts@.len(),
            sepv@ == sep@,
            out@ == join(views(parts@.take(i as int)), sep@),
        decreases parts@.len() - i,
    {
        proof {
            assert(views(parts@.take(i + 1)).drop_last() =~= views(parts@.take(i as int)));
        }
        if i > 0 {
            push_all(&mut out, sepv.as_slice());
        }
        let pc = str_chars(parts[i].as_str());
        push_all(&mut out, pc.as_slice());
        i += 1;
        proof {
            if i == 1 {
                assert(views(parts@.take(0)) =~= Seq::<Seq<char>>::empty());
            }
        }
    }
    assert(parts@.take(parts@.len() as int) =~= parts@);
    string_from_chars(out.as_slice())
}

/// `s` with every leftmost, non-overlapping occurrence of the non-empty
/// pattern `from` replaced by `to` (what `str::replace` returns).
pub open spec fn replace_all(s: Seq<char>, from: Seq<char>, to: Seq<char>) -> Seq<char> {
    join(split_all(s, from), to)
}

/// Replaces every occurrence of the non-empty pattern `from` by `to`.
pub fn replace_chars(s: &[char], from: &[char], to: &[char]) -> (out: Vec<char>)
    requires
        from@.len() > 0,
    ensures
        out@ == replace_all(s@, from@, to@),
{
    let pieces = split_chars(s, from);
    join_chars(&pieces, to)
}

/// A line without its trailing carriage return.
pub open spec fn strip_cr(l: Seq<char>) -> Seq<char> {
    if l.len() > 0 && l.last() == '\r' {
        l.drop_last()
    } else {
        l
    }
}

/// The lines of `s` (what `str::lines` yields): the pieces between line
/// feeds, each line that ended with a line feed losing a trailing carriage
/// return, and no final empty line.
pub open spec fn lines(s: Seq<char>) -> Seq<Seq<char>> {
    let p = split_all(s, seq!['\n']);
    let body = p.drop_last().map_values(|l: Seq<char>| strip_cr(l));
    if p.last().len() == 0 {
        body
    } else {
        body.push(p.last())
    }
}

/// The lines of `s`.
pub fn lines_chars(s: &[char]) -> (out: Vec<Vec<char>>)
    ensures
        cviews(out@) == lines(s@),
{
    let nl: Vec<char> = vec!['\n'];
    assert(nl@ =~= seq!['\n']);
    let pieces = split_chars(s, nl.as_slice());
    proof {
        lemma_split_nonempty(s@, seq!['\n'], 0);
    }
    let n = pieces.len();
    let mut out: Vec<Vec<char>> = Vec::new();
    let mut i: usize = 0;
    while i + 1 < n
        invariant
            n == pieces@.len(),
            n >= 1,
            i + 1 <= n,
            out@.len() == i,
            cviews(pieces@) == split_all(s@, seq!['\n']),
            cviews(out@) == split_all(s@, seq!['\n']).take(i as int).map_values(
                |l: Seq<char>| strip_cr(l),
            ),
        decreases n - i,
    {
        let p = &pieces[i];
        let line = if p.len() > 0 && p[p.len() - 1] == '\r' {
            vstd::slice::slice_to_vec(vstd::slice::slice_subrange(p.as_slice(), 0, p.len() - 1))
        } else {
            p.clone()
        };
        proof {
            assert(cviews(pieces@)[i as int] == pieces@[i as int]@);
            assert(line@ == strip_cr(pieces@[i as int]@));
            let sp = split_all(s@, seq!['\n']);
            let lhs = cviews(out@.push(line));
            let rhs = sp.take(i + 1).map_values(|l: Seq<char>| strip_cr(l));
            assert(sp.len() == n);
            assert(lhs.len() == rhs.len());
            assert forall|k: int| 0 <= k < lhs.len() implies lhs[k] == rhs[k] by {
                if k < i {
                    assert(lhs[k] == cviews(out@)[k]);
                } else {
                    assert(lhs[k] == line@);
                    assert(sp[k] == pieces@[k]@);
                }
            }
            assert(lhs =~= rhs);
        }
        out.push(line);
        i += 1;
    }
    let last = &pieces[n - 1];
    proof {
        assert(cviews(pieces@)[n - 1] == pieces@[n - 1]@);
        assert(split_all(s@, seq!['\n']).take(n - 1) =~= split_all(s@, seq!['\n']).drop_last());
    }
    if last.len() > 0 {
        let l = last.clone();
        proof {
            assert(cviews(out@.push(l)) =~= cviews(out@).push(l@));
        }
        out.push(l);
    }
    out
}


/// Values that can be turned into an owned `String` (the text arguments that
/// constructors accept).
pub trait IntoText {
    /// The characters of the text.
    spec fn text_view(&self) -> Seq<char>;

    /// The text as an owned string.
    fn into_text(self) -> (res: String)
        ensures
            res@ == self.text_view(),
    ;
}

impl IntoText for String {
    open spec fn text_view(&self) -> Seq<char> {
        self@
    }

    fn into_text(self) -> (res: String) {
        self
    }
}

impl<'a> IntoText for &'a str {
    open spec fn text_view(&self) -> Seq<char> {
        (**self)@
    }

    fn into_text(self) -> (res: String) {
        self.to_owned()
    }
}

impl<'a> IntoText for &'a String {
    open spec fn text_view(&self) -> Seq<char> {
        (**self)@
    }

    fn into_text(self) -> (res: String) {
        self.clone()
    }
}


/// The byte length of a character sequence, as a `u128` (which cannot
/// overflow: a character takes at most four bytes).
pub fn blen_of(v: &[char]) -> (n: u128)
    ensures
        n == blen(v@),
{
    let mut n: u128 = 0;
    let mut i: usize = 0;
    let len = v.len();
    while i < len
        invariant
            len == v@.len(),
            i <= v@.len(),
            n == blen(v@.take(i as int)),
            n <= 4 * i,
        decreases v@.len() - i,
    {
        let w = char_width(v[i]);
        proof {
            lemma_blen_push(v@.take(i as int), v@[i as int]);
            lemma_cwidth_bounds(v@[i as int]);
            assert(v@.take(i + 1) =~= v@.take(i as int).push(v@[i as int]));
        }
        n = n + w as u128;
        i += 1;
    }
    assert(v@.take(v@.len() as int) =~= v@);
    n
}

/// The UTF-8 byte length of a string slice.
pub fn byte_len(s: &str) -> (n: usize)
    ensures
        n == blen(s@),
{
    let b = s.as_bytes();
    b.len()
}

/// The single-character pieces of `s`, in order.
pub open spec fn char_pieces(s: Seq<char>) -> Seq<Seq<char>> {
    Seq::new(s.len(), |i: int| seq![s[i]])
}

/// Each character of `s` as its own piece.
pub fn char_pieces_of(s: &[char]) -> (out: Vec<Vec<char>>)
    ensures
        cviews(out@) == char_pieces(s@),
{
    let mut out: Vec<Vec<char>> = Vec::new();
    let mut i: usize = 0;
    while i < s.len()
        invariant
            i <= s@.len(),
            cviews(out@) =~= char_pieces(s@).take(i as int),
        decreases s@.len() - i,
    {
        let v: Vec<char> = vec![s[i]];
        proof {
            assert(v@ =~= seq![s@[i as int]]);
            assert(cviews(out@.push(v)) =~= cviews(out@).push(v@));
            assert(char_pieces(s@).take(i + 1) =~= char_pieces(s@).take(i as int).push(seq![s@[i as int]]));
        }
        out.push(v);
        i += 1;
    }
    out
}

/// The pieces that `str::split` yields: for a non-empty separator the pieces
/// between its occurrences; for the empty separator an empty piece, each
/// character, and another empty piece.
pub open spec fn split_std(s: Seq<char>, sep: Seq<char>) -> Seq<Seq<char>> {
    if sep.len() == 0 {
        seq![Seq::<char>::empty()] + char_pieces(s) + seq![Seq::<char>::empty()]
    } else {
        split_all(s, sep)
    }
}

/// Splits `s` as `str::split` does, for any separator.
pub fn split_std_chars(s: &[char], sep: &[char]) -> (out: Vec<Vec<char>>)
    ensures
        cviews(out@) == split_std(s@, sep@),
{
    if sep.len() == 0 {
        let mut out: Vec<Vec<char>> = Vec::new();
        out.push(Vec::new());
        let mid = char_pieces_of(s);
        let mut i: usize = 0;
        while i < mid.len()
            invariant
                i <= mid@.len(),
                out@.len() == i + 1,
                cviews(out@) =~= seq![Seq::<char>::empty()] + cviews(mid@).take(i as int),
            decreases mid@.len() - i,
        {
            let v = mid[i].clone();
            proof {
                assert(cviews(out@.push(v)) =~= cviews(out@).push(v@));
                assert(cviews(mid@).take(i + 1) =~= cviews(mid@).take(i as int).push(mid@[i as int]@));
            }
            out.push(v);
            i += 1;
        }
        let e: Vec<char> = Vec::new();
        proof {
            assert(cviews(out@.push(e)) =~= cviews(out@).push(e@));
            assert(cviews(mid@).take(mid@.len() as int) =~= cviews(mid@));
        }
        out.push(e);
        out
    } else {
        split_chars(s, sep)
    }
}

} // verus!

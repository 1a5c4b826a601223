//! Example selection rules: the length-based selector's cut-off and the
//! n-gram overlap selector's ranking.
//!
//! Example selectors read examples as JSON maps. The library works on what
//! the rules read of them: their lengths, or their texts (the values of an
//! example joined with spaces). The length budget (a fifth of the input
//! length, computed in floating point) is computed by the application and
//! handed to the rule here.

use crate::chunk_merge::chars_between;
use crate::json::{JsonKind, JsonNode};
use crate::text::{blen, byte_len, chars_equal, cviews, join, join_strings, str_chars, string_from_chars, views, IntoText};
use vstd::prelude::*;

verus! {

/// The sum of the first `k` lengths.
pub open spec fn prefix_sum(lengths: Seq<usize>, k: int) -> int
    decreases k,
{
    if k <= 0 || k > lengths.len() {
        0
    } else {
        prefix_sum(lengths, k - 1) + lengths[k - 1]
    }
}

/// How many examples, taken in order, fit in `budget`: selection stops at
/// the first example that would overflow it.
pub open spec fn fitting_prefix(lengths: Seq<usize>, budget: int, k: int) -> bool {
    &&& 0 <= k <= lengths.len()
    &&& prefix_sum(lengths, k) <= budget
    &&& k < lengths.len() ==> prefix_sum(lengths, k + 1) > budget
}

/// The number of examples a length-based selector keeps: with `max_length`
/// reduced by the input's budget (not below zero), examples are taken in
/// order while their total length fits.
pub fn length_based_count(lengths: &Vec<usize>, max_length: usize, input_budget: usize) -> (k: usize)
    ensures
        fitting_prefix(lengths@, if input_budget > max_length { 0 } else { max_length - input_budget }, k as int),
{
    let budget: usize = if input_budget > max_length { 0 } else { max_length - input_budget };
    let mut total: u128 = 0;
    let mut k: usize = 0;
    while k < lengths.len()
        invariant
            k <= lengths@.len(),
            total == prefix_sum(lengths@, k as int),
            total <= budget,
            budget == (if input_budget > max_length { 0 } else { max_length - input_budget }),
        decreases lengths@.len() - k,
    {
        let next = total + lengths[k] as u128;
        assert(prefix_sum(lengths@, k + 1) == prefix_sum(lengths@, k as int) + lengths@[k as int]);
        if next <= budget as u128 {
            total = next;
            k += 1;
        } else {
            return k;
        }
    }
    k
}

/// The n-grams of a text: its windows of `n` characters, or the text itself
/// when it is shorter than `n`.
pub open spec fn ngrams(text: Seq<char>, n: nat) -> Seq<Seq<char>> {
    if text.len() < n {
        seq![text]
    } else {
        Seq::new((text.len() - n + 1) as nat, |i: int| text.subrange(i, i + n))
    }
}

/// The set of n-grams of a text.
pub open spec fn ngram_set(text: Seq<char>, n: nat) -> Set<Seq<char>> {
    ngrams(text, n).to_set()
}

/// The sizes of the intersection and of the union of the n-gram sets of two
/// texts; their ratio is the Jaccard similarity.
pub open spec fn overlap_counts(a: Seq<char>, b: Seq<char>, n: nat) -> (nat, nat) {
    (ngram_set(a, n).intersect(ngram_set(b, n)).len(), ngram_set(a, n).union(ngram_set(b, n)).len())
}

/// Whether example `i` ranks before example `j`: a higher similarity
/// `p / q` first, and the earlier example among equal similarities.
pub open spec fn ranks_before(scores: Seq<(nat, nat)>, i: int, j: int) -> bool {
    let (pi, qi) = scores[i];
    let (pj, qj) = scores[j];
    pi * qj > pj * qi || (pi * qj == pj * qi && i < j)
}

/// The n-gram selection of `k` examples: distinct example positions, as
/// many as `k` allows, in ranking order, each ranked before every example
/// left out.
pub open spec fn top_ranked(scores: Seq<(nat, nat)>, k: nat, out: Seq<usize>) -> bool {
    &&& out.len() == if k < scores.len() { k } else { scores.len() }
    &&& out.no_duplicates()
    &&& forall|a: int| 0 <= a < out.len() ==> (#[trigger] out[a]) < scores.len()
    &&& forall|a: int, b: int| 0 <= a < b < out.len() ==> ranks_before(scores, #[trigger] out[a] as int, #[trigger] out[b] as int)
    &&& forall|a: int, j: int|
        0 <= a < out.len() && 0 <= j < scores.len() && !out.contains(j as usize) ==> #[trigger] ranks_before(
            scores,
            out[a] as int,
            j,
        )
}

/// Comparing two ratios with positive denominators by cross-multiplying is
/// transitive.
proof fn lemma_ratio_trans(a: nat, b: nat, c: nat, d: nat, e: nat, f: nat)
    requires
        b > 0,
        d > 0,
        f > 0,
    ensures
        a * d > c * b && c * f >= e * d ==> a * f > e * b,
        a * d >= c * b && c * f > e * d ==> a * f > e * b,
        a * d == c * b && c * f == e * d ==> a * f == e * b,
{
    assert(a * d > c * b && c * f >= e * d ==> a * f > e * b) by (nonlinear_arith)
        requires b > 0, d > 0, f > 0;
    assert(a * d >= c * b && c * f > e * d ==> a * f > e * b) by (nonlinear_arith)
        requires b > 0, d > 0, f > 0;
    assert(a * d == c * b && c * f == e * d ==> a * f == e * b) by (nonlinear_arith)
        requires b > 0, d > 0, f > 0;
}

/// Ranking is transitive when every union count is positive.
proof fn lemma_ranks_trans(scores: Seq<(nat, nat)>, i: int, j: int, k: int)
    requires
        0 <= i < scores.len(),
        0 <= j < scores.len(),
        0 <= k < scores.len(),
        scores[i].1 > 0,
        scores[j].1 > 0,
        scores[k].1 > 0,
        ranks_before(scores, i, j),
        ranks_before(scores, j, k),
    ensures
        ranks_before(scores, i, k),
{
    lemma_ratio_trans(scores[i].0, scores[i].1, scores[j].0, scores[j].1, scores[k].0, scores[k].1);
}

/// The compact JSON texts of a list of values.
pub open spec fn value_texts(values: Seq<JsonNode>) -> Seq<Seq<char>>
    decreases values.len(),
{
    if values.len() == 0 {
        Seq::empty()
    } else {
        value_texts(values.drop_last()).push(values.last().text@)
    }
}

/// The text of an example: the compact JSON texts of its values joined with
/// spaces.
pub fn joined_texts(values: &Vec<JsonNode>) -> (res: String)
    ensures
        res@ == join(value_texts(values@), " "@),
{
    let mut parts: Vec<String> = Vec::new();
    let mut i: usize = 0;
    while i < values.len()
        invariant
            i <= values@.len(),
            views(parts@) == value_texts(values@.take(i as int)),
        decreases values@.len() - i,
    {
        let ghost before = views(parts@);
        parts.push(values[i].text.clone());
        proof {
            assert(values@.take(i + 1).drop_last() =~= values@.take(i as int));
            assert(views(parts@) =~= before.push(values@[i as int].text@));
        }
        i += 1;
    }
    assert(values@.take(values@.len() as int) =~= values@);
    join_strings(&parts, " ")
}

/// The length an example counts for: the byte length of each value's
/// content when it is a string, of its compact JSON text otherwise, summed.
pub open spec fn example_length(values: Seq<JsonNode>) -> nat
    decreases values.len(),
{
    if values.len() == 0 {
        0
    } else {
        example_length(values.drop_last()) + match values.last().kind {
            JsonKind::Str(s) => blen(s@),
            _ => blen(values.last().text@),
        }
    }
}

/// The length of an example's values (see [`example_length`]).
pub fn get_example_text_length(values: &Vec<JsonNode>) -> (n: usize)
    requires
        example_length(values@) <= usize::MAX,
    ensures
        n == example_length(values@),
{
    let mut n: usize = 0;
    let mut i: usize = 0;
    while i < values.len()
        invariant
            i <= values@.len(),
            n == example_length(values@.take(i as int)),
            example_length(values@) <= usize::MAX,
        decreases values@.len() - i,
    {
        proof {
            assert(values@.take(i + 1).drop_last() =~= values@.take(i as int));
            lemma_example_length_prefix(values@, i + 1);
        }
        let w = match &values[i].kind {
            JsonKind::Str(s) => byte_len(s.as_str()),
            _ => byte_len(values[i].text.as_str()),
        };
        n = n + w;
        i += 1;
    }
    assert(values@.take(values@.len() as int) =~= values@);
    n
}

/// A prefix of an example counts no more than the whole.
proof fn lemma_example_length_prefix(values: Seq<JsonNode>, k: int)
    requires
        0 <= k <= values.len(),
    ensures
        example_length(values.take(k)) <= example_length(values),
    decreases values.len() - k,
{
    if k < values.len() {
        lemma_example_length_prefix(values, k + 1);
        assert(values.take(k + 1).drop_last() =~= values.take(k));
    } else {
        assert(values.take(k) =~= values);
    }
}

/// Selects the examples whose n-grams overlap the input's most.
///
/// Each example is held as its text (see [`joined_texts`]); a selection is
/// a list of example positions.
#[derive(Debug, Clone)]
pub struct NGramExampleSelector {
    /// The texts of the examples.
    pub examples: Vec<String>,
    /// How many examples to select.
    pub k: usize,
    /// The n-gram size.
    pub n: usize,
}

/// Whether the character sequence `x` is one of `list`.
fn contains_chars(list: &Vec<Vec<char>>, x: &Vec<char>) -> (b: bool)
    ensures
        b == cviews(list@).contains(x@),
{
    let mut i: usize = 0;
    while i < list.len()
        invariant
            i <= list@.len(),
            forall|j: int| 0 <= j < i ==> (#[trigger] list@[j])@ != x@,
        decreases list@.len() - i,
    {
        if chars_equal(list[i].as_slice(), x.as_slice()) {
            assert(cviews(list@)[i as int] == x@);
            return true;
        }
        i += 1;
    }
    proof {
        if cviews(list@).contains(x@) {
            let j = choose|j: int| 0 <= j < cviews(list@).len() && cviews(list@)[j] == x@;
            assert(list@[j]@ == x@);
        }
    }
    false
}

/// The distinct members of `v`, in order of first occurrence.
fn distinct(v: &Vec<Vec<char>>) -> (out: Vec<Vec<char>>)
    ensures
        cviews(out@).no_duplicates(),
        cviews(out@).to_set() == cviews(v@).to_set(),
        out@.len() <= v@.len(),
{
    let mut out: Vec<Vec<char>> = Vec::new();
    let mut i: usize = 0;
    while i < v.len()
        invariant
            i <= v@.len(),
            cviews(out@).no_duplicates(),
            cviews(out@).to_set() == cviews(v@.take(i as int)).to_set(),
        decreases v@.len() - i,
    {
        let ghost before = cviews(out@);
        let ghost x = v@[i as int]@;
        proof {
            assert(cviews(v@.take(i + 1)) =~= cviews(v@.take(i as int)) + seq![x]);
            Seq::<Seq<char>>::lemma_to_set_insert_commutes(cviews(v@.take(i as int)), x);
        }
        if !contains_chars(&out, &v[i]) {
            out.push(v[i].clone());
            proof {
                assert(cviews(out@) =~= before + seq![x]);
                Seq::<Seq<char>>::lemma_to_set_insert_commutes(before, x);
                assert forall|a: int, b: int| 0 <= a < b < cviews(out@).len() implies cviews(out@)[a] != cviews(out@)[b] by {
                    if b == before.len() {
                        assert(before.contains(before[a]));
                    }
                }
            }
        } else {
            assert(before.to_set().contains(x));
            assert(before.to_set().insert(x) =~= before.to_set());
        }
        i += 1;
    }
    assert(v@.take(v@.len() as int) =~= v@);
    proof {
        cviews(out@).unique_seq_to_set();
        cviews(v@).lemma_cardinality_of_set();
    }
    out
}

impl NGramExampleSelector {
    /// A selector over the given example texts.
    pub fn new(examples: Vec<String>, k: usize, n: usize) -> (res: Self)
        ensures
            res.examples@ == examples@,
            res.k == k,
            res.n == n,
    {
        NGramExampleSelector { examples, k, n }
    }

    /// The selector with `k` replaced.
    pub fn with_k(self, k: usize) -> (res: Self)
        ensures
            res.examples@ == self.examples@,
            res.k == k,
            res.n == self.n,
    {
        NGramExampleSelector { k, ..self }
    }

    /// The selector with the n-gram size replaced.
    pub fn with_n(self, n: usize) -> (res: Self)
        ensures
            res.examples@ == self.examples@,
            res.k == self.k,
            res.n == n,
    {
        NGramExampleSelector { n, ..self }
    }

    /// Adds an example text.
    pub fn add_example<S: IntoText>(&mut self, example: S)
        ensures
            final(self).examples@.len() == old(self).examples@.len() + 1,
            final(self).examples@.drop_last() == old(self).examples@,
            final(self).examples@.last()@ == example.text_view(),
            final(self).k == old(self).k,
            final(self).n == old(self).n,
    {
        let e = example.into_text();
        self.examples.push(e);
        assert(self.examples@.drop_last() =~= old(self).examples@);
    }

    /// The n-grams of `text` as character vectors.
    fn ngram_chars(&self, text: &str) -> (out: Vec<Vec<char>>)
        requires
            self.n > 0,
        ensures
            cviews(out@) == ngrams(text@, self.n as nat),
            out@.len() <= text@.len() + 1,
    {
        let chars = str_chars(text);
        let n = self.n;
        if chars.len() < n {
            let out = vec![chars];
            assert(cviews(out@) =~= ngrams(text@, n as nat));
            return out;
        }
        let mut out: Vec<Vec<char>> = Vec::new();
        let mut i: usize = 0;
        let total = chars.len();
        let last = total - n;
        while i <= last
            invariant
                chars@ == text@,
                n == self.n,
                n > 0,
                chars@.len() >= n,
                total == chars@.len(),
                last + n == total,
                i <= last + 1,
                cviews(out@) == ngrams(text@, n as nat).take(i as int),
            decreases last + 1 - i,
        {
            let w = chars_between(chars.as_slice(), i, i + n);
            let ghost before = cviews(out@);
            out.push(w);
            proof {
                assert(ngrams(text@, n as nat)[i as int] == text@.subrange(i as int, i + n));
                assert(cviews(out@) =~= before.push(text@.subrange(i as int, i + n)));
                assert(ngrams(text@, n as nat).take(i + 1) =~= ngrams(text@, n as nat).take(i as int).push(text@.subrange(i as int, i + n)));
            }
            i += 1;
        }
        assert(ngrams(text@, n as nat).take(i as int) =~= ngrams(text@, n as nat));
        out
    }

    /// The n-grams of `text`: its windows of `n` characters, or the text
    /// itself when it is shorter. The size must not be zero.
    pub fn get_ngrams(&self, text: &str) -> (out: Vec<String>)
        requires
            self.n > 0,
        ensures
            views(out@) == ngrams(text@, self.n as nat),
    {
        let v = self.ngram_chars(text);
        let mut out: Vec<String> = Vec::new();
        let mut i: usize = 0;
        while i < v.len()
            invariant
                i <= v@.len(),
                views(out@) == cviews(v@).take(i as int),
            decreases v@.len() - i,
        {
            let ghost before = views(out@);
            let t = string_from_chars(v[i].as_slice());
            out.push(t);
            proof {
                assert(views(out@) =~= before.push(v@[i as int]@));
                assert(cviews(v@).take(i + 1) =~= cviews(v@).take(i as int).push(v@[i as int]@));
            }
            i += 1;
        }
        assert(cviews(v@).take(v@.len() as int) =~= cviews(v@));
        out
    }

    /// The sizes of the intersection and the union of the n-gram sets of
    /// `a` and `b`; the Jaccard similarity is their ratio (zero over an
    /// empty union).
    pub fn overlap(&self, a: &str, b: &str) -> (r: (usize, usize))
        requires
            self.n > 0,
            a@.len() + b@.len() + 2 <= usize::MAX,
        ensures
            r.0 == overlap_counts(a@, b@, self.n as nat).0,
            r.1 == overlap_counts(a@, b@, self.n as nat).1,
            r.1 > 0,
    {
        let va = self.ngram_chars(a);
        let vb = self.ngram_chars(b);
        let da = distinct(&va);
        let db = distinct(&vb);
        let ghost sa = ngram_set(a@, self.n as nat);
        let ghost sb = ngram_set(b@, self.n as nat);
        let mut inter: usize = 0;
        let ghost mut common: Seq<Seq<char>> = Seq::empty();
        let mut i: usize = 0;
        while i < da.len()
            invariant
                i <= da@.len(),
                cviews(da@).no_duplicates(),
                cviews(da@).to_set() == sa,
                cviews(db@).to_set() == sb,
                inter == common.len(),
                inter <= i,
                common.no_duplicates(),
                common.to_set() == cviews(da@).take(i as int).to_set().intersect(sb),
            decreases da@.len() - i,
        {
            let ghost common_before = common;
            let found = contains_chars(&db, &da[i]);
            if found {
                proof {
                    assert(!common.contains(da@[i as int]@)) by {
                        if common.contains(da@[i as int]@) {
                            assert(common.to_set().contains(da@[i as int]@));
                            let j = choose|j: int| 0 <= j < i && cviews(da@)[j] == da@[i as int]@;
                            assert(cviews(da@)[i as int] == da@[i as int]@);
                        }
                    }
                    common = common.push(da@[i as int]@);
                }
                inter = inter + 1;
            }
            proof {
                let y = da@[i as int]@;
                assert(cviews(da@).take(i + 1) =~= cviews(da@).take(i as int) + seq![y]);
                Seq::<Seq<char>>::lemma_to_set_insert_commutes(cviews(da@).take(i as int), y);
                if found {
                    assert(common =~= common_before + seq![y]);
                    Seq::<Seq<char>>::lemma_to_set_insert_commutes(common_before, y);
                    assert(sb.contains(y));
                } else {
                    assert(!sb.contains(y));
                }
                assert(common.to_set() =~= cviews(da@).take(i + 1).to_set().intersect(sb));
            }
            i += 1;
        }
        assert(cviews(da@).take(da@.len() as int) =~= cviews(da@));
        proof {
            common.unique_seq_to_set();
            cviews(da@).unique_seq_to_set();
        }
        let mut extra: usize = 0;
        let ghost mut rest: Seq<Seq<char>> = Seq::empty();
        let mut j: usize = 0;
        while j < db.len()
            invariant
                j <= db@.len(),
                cviews(da@).no_duplicates(),
                cviews(db@).no_duplicates(),
                cviews(da@).to_set() == sa,
                cviews(db@).to_set() == sb,
                extra == rest.len(),
                extra <= j,
                da@.len() <= a@.len() + 1,
                db@.len() <= b@.len() + 1,
                a@.len() + b@.len() + 2 <= usize::MAX,
                (cviews(da@) + rest).no_duplicates(),
                (cviews(da@) + rest).to_set() == sa.union(cviews(db@).take(j as int).to_set()),
            decreases db@.len() - j,
        {
            if !contains_chars(&da, &db[j]) {
                proof {
                    let x = db@[j as int]@;
                    assert(!(cviews(da@) + rest).contains(x)) by {
                        if (cviews(da@) + rest).contains(x) {
                            assert((cviews(da@) + rest).to_set().contains(x));
                            let m = choose|m: int| 0 <= m < j && cviews(db@)[m] == x;
                            assert(cviews(db@)[j as int] == x);
                        }
                    }
                    assert(cviews(da@) + rest.push(x) =~= (cviews(da@) + rest) + seq![x]);
                    Seq::<Seq<char>>::lemma_to_set_insert_commutes(cviews(da@) + rest, x);
                    rest = rest.push(x);
                }
                extra = extra + 1;
            }
            proof {
                let y = db@[j as int]@;
                assert(cviews(db@).take(j + 1) =~= cviews(db@).take(j as int) + seq![y]);
                Seq::<Seq<char>>::lemma_to_set_insert_commutes(cviews(db@).take(j as int), y);
                assert((cviews(da@) + rest).to_set() =~= sa.union(cviews(db@).take(j + 1).to_set()));
            }
            j += 1;
        }
        assert(cviews(db@).take(db@.len() as int) =~= cviews(db@));
        proof {
            (cviews(da@) + rest).unique_seq_to_set();
            assert(common.to_set() =~= sa.intersect(sb));
            assert((cviews(da@) + rest).to_set() =~= sa.union(sb));
            assert(ngrams(a@, self.n as nat).len() > 0);
            assert(sa.contains(ngrams(a@, self.n as nat)[0]));
            assert(cviews(da@).len() > 0);
        }
        (inter, da.len() + extra)
    }
}

/// The number of set flags.
pub open spec fn count_set(flags: Seq<bool>) -> nat
    decreases flags.len(),
{
    if flags.len() == 0 {
        0
    } else {
        count_set(flags.drop_last()) + if flags.last() {
            1nat
        } else {
            0nat
        }
    }
}

/// Setting a clear flag adds one to the count.
proof fn lemma_count_set_update(flags: Seq<bool>, i: int)
    requires
        0 <= i < flags.len(),
        !flags[i],
    ensures
        count_set(flags.update(i, true)) == count_set(flags) + 1,
    decreases flags.len(),
{
    if i < flags.len() - 1 {
        lemma_count_set_update(flags.drop_last(), i);
        assert(flags.update(i, true).drop_last() =~= flags.drop_last().update(i, true));
    } else {
        assert(flags.update(i, true).drop_last() =~= flags.drop_last());
    }
}

/// Fewer set flags than flags leaves one clear; no flag set counts zero.
proof fn lemma_count_set_bounds(flags: Seq<bool>)
    ensures
        count_set(flags) <= flags.len(),
        count_set(flags) < flags.len() ==> exists|i: int| 0 <= i < flags.len() && !flags[i],
        (forall|i: int| 0 <= i < flags.len() ==> !flags[i]) ==> count_set(flags) == 0,
    decreases flags.len(),
{
    if flags.len() > 0 {
        lemma_count_set_bounds(flags.drop_last());
        if count_set(flags) < flags.len() {
            if count_set(flags.drop_last()) < flags.drop_last().len() {
                let i = choose|i: int| 0 <= i < flags.drop_last().len() && !flags.drop_last()[i];
                assert(!flags[i]);
            } else {
                assert(!flags[flags.len() - 1]);
            }
        }
        if forall|i: int| 0 <= i < flags.len() ==> !flags[i] {
            assert forall|i: int| 0 <= i < flags.drop_last().len() implies !flags.drop_last()[i] by {
                assert(!flags[i]);
            }
            assert(!flags[flags.len() - 1]);
        }
    }
}

/// Whether `p1 / q1` exceeds `p2 / q2`, compared by cross-multiplying.
fn ratio_greater(p1: usize, q1: usize, p2: usize, q2: usize) -> (b: bool)
    ensures
        b == (p1 * q2 > p2 * q1),
{
    let x: u128 = p1 as u128;
    let y: u128 = q2 as u128;
    let z: u128 = p2 as u128;
    let w: u128 = q1 as u128;
    proof {
        assert(x * y <= 0xffff_ffff_ffff_ffffu128 * 0xffff_ffff_ffff_ffffu128) by (nonlinear_arith)
            requires x <= 0xffff_ffff_ffff_ffffu128, y <= 0xffff_ffff_ffff_ffffu128;
        assert(z * w <= 0xffff_ffff_ffff_ffffu128 * 0xffff_ffff_ffff_ffffu128) by (nonlinear_arith)
            requires z <= 0xffff_ffff_ffff_ffffu128, w <= 0xffff_ffff_ffff_ffffu128;
    }
    x * y > z * w
}

/// The view of a list of count pairs.
pub open spec fn score_view(v: Seq<(usize, usize)>) -> Seq<(nat, nat)> {
    v.map_values(|p: (usize, usize)| (p.0 as nat, p.1 as nat))
}

impl NGramExampleSelector {
    /// The overlap counts of the input with each example, in example order.
    pub open spec fn scores_for(self, input: Seq<char>) -> Seq<(nat, nat)> {
        Seq::new(self.examples@.len(), |i: int| overlap_counts(input, self.examples@[i]@, self.n as nat))
    }

    /// The positions of the examples to use: the `k` (or all, if fewer)
    /// whose n-grams overlap the input's the most by Jaccard similarity,
    /// most similar first, the earlier example first among equals.
    pub fn select_positions(&self, input_text: &str) -> (out: Vec<usize>)
        requires
            self.examples@.len() > 0 ==> self.n > 0,
            forall|i: int| 0 <= i < self.examples@.len() ==> input_text@.len() + (#[trigger] self.examples@[i])@.len() + 2 <= usize::MAX,
        ensures
            top_ranked(self.scores_for(input_text@), self.k as nat, out@),
    {
        let m = self.examples.len();
        if m == 0 {
            let out: Vec<usize> = Vec::new();
            return out;
        }
        let ghost sc = self.scores_for(input_text@);
        let mut scores: Vec<(usize, usize)> = Vec::new();
        let mut i: usize = 0;
        while i < m
            invariant
                m == self.examples@.len(),
                self.n > 0,
                sc == self.scores_for(input_text@),
                forall|x: int| 0 <= x < self.examples@.len() ==> input_text@.len() + (#[trigger] self.examples@[x])@.len() + 2 <= usize::MAX,
                i <= m,
                scores@.len() == i,
                forall|x: int| 0 <= x < i ==> score_view(scores@)[x] == sc[x] && (#[trigger] scores@[x]).1 > 0,
            decreases m - i,
        {
            let r = self.overlap(input_text, self.examples[i].as_str());
            scores.push(r);
            i += 1;
        }
        assert(score_view(scores@) =~= sc);
        let limit = if self.k < m {
            self.k
        } else {
            m
        };
        let mut chosen: Vec<bool> = Vec::new();
        let mut i: usize = 0;
        while i < m
            invariant
                i <= m,
                chosen@.len() == i,
                forall|x: int| 0 <= x < i ==> !(#[trigger] chosen@[x]),
            decreases m - i,
        {
            chosen.push(false);
            i += 1;
        }
        proof {
            lemma_count_set_bounds(chosen@);
        }
        let mut out: Vec<usize> = Vec::new();
        while out.len() < limit
            invariant
                m == self.examples@.len(),
                m > 0,
                limit <= m,
                limit == if self.k < m { self.k as nat } else { m as nat },
                sc == score_view(scores@),
                scores@.len() == m,
                chosen@.len() == m,
                forall|x: int| 0 <= x < m ==> (#[trigger] scores@[x]).1 > 0,
                out@.len() <= limit,
                count_set(chosen@) == out@.len(),
                out@.no_duplicates(),
                forall|a: int| 0 <= a < out@.len() ==> (#[trigger] out@[a]) < m,
                forall|x: int| 0 <= x < m ==> (#[trigger] chosen@[x] <==> out@.contains(x as usize)),
                forall|a: int, b: int| 0 <= a < b < out@.len() ==> ranks_before(sc, #[trigger] out@[a] as int, #[trigger] out@[b] as int),
                forall|a: int, j: int|
                    0 <= a < out@.len() && 0 <= j < m && !chosen@[j] ==> #[trigger] ranks_before(sc, out@[a] as int, j),
            decreases limit - out@.len(),
        {
            proof {
                lemma_count_set_bounds(chosen@);
            }
            let mut best: usize = m;
            let mut j: usize = 0;
            while j < m
                invariant
                    m == scores@.len(),
                    chosen@.len() == m,
                    sc == score_view(scores@),
                    forall|x: int| 0 <= x < m ==> (#[trigger] scores@[x]).1 > 0,
                    j <= m,
                    best == m || (best < j && !chosen@[best as int]),
                    best == m ==> forall|x: int| 0 <= x < j ==> #[trigger] chosen@[x],
                    best < m ==> forall|x: int| 0 <= x < j && !chosen@[x] && x != best ==> #[trigger] ranks_before(sc, best as int, x),
                decreases m - j,
            {
                if !chosen[j] {
                    if best == m {
                        best = j;
                    } else if ratio_greater(scores[j].0, scores[j].1, scores[best].0, scores[best].1) {
                        proof {
                            assert forall|x: int| 0 <= x < j + 1 && !chosen@[x] && x != j implies #[trigger] ranks_before(sc, j as int, x) by {
                                if x != best {
                                    lemma_ranks_trans(sc, j as int, best as int, x);
                                }
                            }
                        }
                        best = j;
                    } else {
                        proof {
                            let (pb, qb) = sc[best as int];
                            let (pj, qj) = sc[j as int];
                            assert(!(pj * qb > pb * qj));
                            assert(ranks_before(sc, best as int, j as int));
                        }
                    }
                }
                j += 1;
            }
            proof {
                assert(best < m);
            }
            let ghost old_chosen = chosen@;
            let ghost old_out = out@;
            proof {
                lemma_count_set_update(chosen@, best as int);
            }
            chosen.set(best, true);
            out.push(best);
            proof {
                assert forall|x: int| 0 <= x < m implies (#[trigger] chosen@[x] <==> out@.contains(x as usize)) by {
                    if x == best {
                        assert(out@[out@.len() - 1] == best);
                    } else {
                        if old_out.contains(x as usize) {
                            let a = choose|a: int| 0 <= a < old_out.len() && old_out[a] == x as usize;
                            assert(out@[a] == x as usize);
                        }
                        if out@.contains(x as usize) {
                            let a = choose|a: int| 0 <= a < out@.len() && out@[a] == x as usize;
                            assert(a < old_out.len());
                            assert(old_out[a] == x as usize);
                        }
                    }
                }
                assert forall|a: int, b: int| 0 <= a < b < out@.len() implies ranks_before(sc, #[trigger] out@[a] as int, #[trigger] out@[b] as int) by {
                    if b == out@.len() - 1 {
                        assert(old_out[a] == out@[a]);
                        assert(!old_chosen[best as int]);
                    } else {
                        assert(old_out[a] == out@[a] && old_out[b] == out@[b]);
                    }
                }
                assert forall|a: int, j: int|
                    0 <= a < out@.len() && 0 <= j < m && !chosen@[j] implies #[trigger] ranks_before(sc, out@[a] as int, j) by {
                    if a < out@.len() - 1 {
                        assert(old_out[a] == out@[a]);
                        assert(!old_chosen[j]);
                    } else {
                        assert(j != best);
                    }
                }
                assert forall|p: int, q: int| 0 <= p < q < out@.len() implies out@[p] != out@[q] by {
                    if q == out@.len() - 1 {
                        assert(old_chosen[old_out[p] as int]) by {
                            assert(old_out.contains(old_out[p]));
                        }
                    }
                }
            }
        }
        proof {
            assert forall|a: int, j: int|
                0 <= a < out@.len() && 0 <= j < sc.len() && !out@.contains(j as usize) implies #[trigger] ranks_before(sc, out@[a] as int, j) by {
                assert(!chosen@[j]);
            }
        }
        out
    }
}

/// Jaccard overlap is symmetric: swapping the texts keeps both counts.
pub proof fn law_overlap_symmetric(a: Seq<char>, b: Seq<char>, n: nat)
    ensures
        overlap_counts(a, b, n) == overlap_counts(b, a, n),
{
    assert(ngram_set(a, n).intersect(ngram_set(b, n)) =~= ngram_set(b, n).intersect(ngram_set(a, n)));
    assert(ngram_set(a, n).union(ngram_set(b, n)) =~= ngram_set(b, n).union(ngram_set(a, n)));
}

/// A text overlaps itself completely: the intersection is the union, so
/// the similarity is one.
pub proof fn law_overlap_self(a: Seq<char>, n: nat)
    ensures
        overlap_counts(a, a, n).0 == overlap_counts(a, a, n).1,
        overlap_counts(a, a, n).1 > 0,
{
    let s = ngram_set(a, n);
    assert(s.intersect(s) =~= s);
    assert(s.union(s) =~= s);
    assert(s.contains(ngrams(a, n)[0]));
    ngrams(a, n).lemma_cardinality_of_empty_set_is_0();
}

} // verus!

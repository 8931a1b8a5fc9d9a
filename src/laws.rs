//! Properties of the grammar, stated over its spec functions and proved.
use vstd::prelude::*;
use crate::data::{EntityModel, PlaneModel, PointModel, pairs_to_map};
use crate::grammar::{brush, brushes, document, entities_rest, entity, keypair, keypair_list, keypairs_rest, keys, opt_linesep, point_far, whole_far, CharClass, at, commentline, linebreak, linesep, numeral, point, run_end, sep_item, sep_run};

verus! {

/// No key occurs twice in `ps`.
pub open spec fn distinct_keys(ps: Seq<(Seq<char>, Seq<char>)>) -> bool {
    forall|i: int, j: int| 0 <= i < j < ps.len() ==> ps[i].0 != ps[j].0
}

/// Every pair of a key block with distinct keys is in the mapping it builds,
/// and the mapping holds no other key.
pub proof fn lemma_keys_hold_every_pair(ps: Seq<(Seq<char>, Seq<char>)>)
    requires
        distinct_keys(ps),
    ensures
        forall|i: int|
            0 <= i < ps.len() ==> #[trigger] pairs_to_map(ps).contains_key(ps[i].0)
                && pairs_to_map(ps)[ps[i].0] == ps[i].1,
        forall|k: Seq<char>|
            #[trigger] pairs_to_map(ps).contains_key(k) ==> exists|i: int|
                0 <= i < ps.len() && ps[i].0 == k,
    decreases ps.len(),
{
    if ps.len() > 0 {
        let init = ps.drop_last();
        assert(distinct_keys(init));
        lemma_keys_hold_every_pair(init);
        assert forall|i: int| 0 <= i < ps.len() implies #[trigger] pairs_to_map(ps).contains_key(
            ps[i].0,
        ) && pairs_to_map(ps)[ps[i].0] == ps[i].1 by {
            if i < ps.len() - 1 {
                assert(init[i] == ps[i]);
                assert(pairs_to_map(init).contains_key(init[i].0));
            }
        }
        assert forall|k: Seq<char>| #[trigger] pairs_to_map(ps).contains_key(k) implies exists|
            i: int,
        | 0 <= i < ps.len() && ps[i].0 == k by {
            if k != ps.last().0 {
                assert(pairs_to_map(init).contains_key(k));
                let i = choose|i: int| 0 <= i < init.len() && init[i].0 == k;
                assert(ps[i] == init[i]);
            } else {
                assert(ps[ps.len() - 1].0 == k);
            }
        }
    }
}

/// Two key blocks with distinct keys that hold the same pairs, in whatever
/// order, build the same mapping.
pub proof fn lemma_keys_order_free(
    ps: Seq<(Seq<char>, Seq<char>)>,
    qs: Seq<(Seq<char>, Seq<char>)>,
)
    requires
        distinct_keys(ps),
        distinct_keys(qs),
        ps.to_set() == qs.to_set(),
    ensures
        pairs_to_map(ps) == pairs_to_map(qs),
{
    lemma_keys_hold_every_pair(ps);
    lemma_keys_hold_every_pair(qs);
    assert forall|k: Seq<char>| #[trigger] pairs_to_map(ps).contains_key(k) implies pairs_to_map(
        qs,
    ).contains_key(k) && pairs_to_map(ps)[k] == pairs_to_map(qs)[k] by {
        let i = choose|i: int| 0 <= i < ps.len() && ps[i].0 == k;
        assert(ps.to_set().contains(ps[i]));
        assert(qs.to_set().contains(ps[i]));
        let j = choose|j: int| 0 <= j < qs.len() && qs[j] == ps[i];
        assert(pairs_to_map(qs).contains_key(qs[j].0));
    }
    assert forall|k: Seq<char>| #[trigger] pairs_to_map(qs).contains_key(k) implies pairs_to_map(
        ps,
    ).contains_key(k) by {
        let j = choose|j: int| 0 <= j < qs.len() && qs[j].0 == k;
        assert(qs.to_set().contains(qs[j]));
        assert(ps.to_set().contains(qs[j]));
        let i = choose|i: int| 0 <= i < ps.len() && ps[i] == qs[j];
        assert(pairs_to_map(ps).contains_key(ps[i].0));
    }
    assert(pairs_to_map(ps) =~= pairs_to_map(qs));
}

/// A run of `cls` inside a copy of `x` placed at `a` in `s` ends where it
/// ends in `x`, when the character after the copy is not of `cls`.
proof fn lemma_run_in_copy(s: Seq<char>, a: int, x: Seq<char>, j: int, cls: CharClass)
    requires
        0 <= a,
        a + x.len() < s.len(),
        s.subrange(a, a + x.len()) == x,
        !cls.has(s[a + x.len()]),
        0 <= j <= x.len(),
    ensures
        run_end(s, a + j, cls) == a + run_end(x, j, cls),
    decreases x.len() - j,
{
    if j < x.len() {
        assert(s[a + j] == s.subrange(a, a + x.len())[j]);
        lemma_run_in_copy(s, a, x, j + 1, cls);
    }
}

/// A numeral `x` copied into `s` at `a` and followed by a space reads as
/// that numeral.
proof fn lemma_numeral_in_copy(s: Seq<char>, a: int, x: Seq<char>)
    requires
        numeral(x, 0) == Some(x.len() as int),
        0 <= a,
        a + x.len() < s.len(),
        s.subrange(a, a + x.len()) == x,
        s[a + x.len()] == ' ',
    ensures
        numeral(s, a) == Some(a + x.len()),
{
    let n = x.len() as int;
    assert(n > 0) by {
        if n == 0 {
            assert(run_end(x, 0, CharClass::Digit) == 0);
        }
    }
    assert(s[a] == x[0]) by {
        assert(s.subrange(a, a + n)[0] == s[a]);
    }
    let d = if x[0] == '-' { 1int } else { 0int };
    lemma_run_in_copy(s, a, x, d, CharClass::Digit);
    let b = run_end(x, d, CharClass::Digit);
    if b < n {
        assert(s[a + b] == x[b]) by {
            assert(s.subrange(a, a + n)[b] == s[a + b]);
        }
        if x[b] == '.' {
            lemma_run_in_copy(s, a, x, b + 1, CharClass::Digit);
        }
    }
}

/// The point literal with the given numerals as coordinates.
pub open spec fn point_text(x: Seq<char>, y: Seq<char>, z: Seq<char>) -> Seq<char> {
    seq!['(', ' '] + x + seq![' '] + y + seq![' '] + z + seq![' ', ')']
}

/// A point literal `( x y z )` built from three numerals reads as exactly
/// those three numerals, and the reading takes the whole literal.
pub proof fn lemma_point_reads_its_numerals(x: Seq<char>, y: Seq<char>, z: Seq<char>)
    requires
        numeral(x, 0) == Some(x.len() as int),
        numeral(y, 0) == Some(y.len() as int),
        numeral(z, 0) == Some(z.len() as int),
    ensures
        point(point_text(x, y, z), 0) == Some(
            (PointModel { x, y, z }, point_text(x, y, z).len() as int),
        ),
{
    let s = point_text(x, y, z);
    let e1: int = 2 + x.len() as int;
    let e2: int = e1 + 1 + y.len() as int;
    let e3: int = e2 + 1 + z.len() as int;
    assert(s.len() == e3 + 2);
    assert(s.subrange(2, e1) =~= x);
    assert(s.subrange(e1 + 1, e2) =~= y);
    assert(s.subrange(e2 + 1, e3) =~= z);
    assert(s[0] == '(' && s[1] == ' ' && s[e1] == ' ' && s[e2] == ' ' && s[e3] == ' ' && s[e3
        + 1] == ')');
    lemma_numeral_in_copy(s, 2, x);
    lemma_numeral_in_copy(s, e1 + 1, y);
    lemma_numeral_in_copy(s, e2 + 1, z);
}

/// The point literal without its closing parenthesis.
pub open spec fn unclosed_point_text(x: Seq<char>, y: Seq<char>, z: Seq<char>) -> Seq<char> {
    seq!['(', ' '] + x + seq![' '] + y + seq![' '] + z + seq![' ']
}

/// A point literal whose closing parenthesis is missing does not read as a
/// point, and the failure is placed where the parenthesis belongs.
pub proof fn lemma_unclosed_point_fails(x: Seq<char>, y: Seq<char>, z: Seq<char>)
    requires
        numeral(x, 0) == Some(x.len() as int),
        numeral(y, 0) == Some(y.len() as int),
        numeral(z, 0) == Some(z.len() as int),
    ensures
        point(unclosed_point_text(x, y, z), 0) is None,
        point_far(unclosed_point_text(x, y, z), 0) == unclosed_point_text(x, y, z).len(),
        whole_far(
            point(unclosed_point_text(x, y, z), 0),
            point_far(unclosed_point_text(x, y, z), 0),
            unclosed_point_text(x, y, z).len() as int,
        ) == unclosed_point_text(x, y, z).len(),
{
    let s = unclosed_point_text(x, y, z);
    let e1: int = 2 + x.len() as int;
    let e2: int = e1 + 1 + y.len() as int;
    let e3: int = e2 + 1 + z.len() as int;
    assert(s.len() == e3 + 1);
    assert(s.subrange(2, e1) =~= x);
    assert(s.subrange(e1 + 1, e2) =~= y);
    assert(s.subrange(e2 + 1, e3) =~= z);
    assert(s[0] == '(' && s[1] == ' ' && s[e1] == ' ' && s[e2] == ' ' && s[e3] == ' ');
    lemma_numeral_in_copy(s, 2, x);
    lemma_numeral_in_copy(s, e1 + 1, y);
    lemma_numeral_in_copy(s, e2 + 1, z);
}

proof fn lemma_run_all(x: Seq<char>, j: int, cls: CharClass)
    requires
        0 <= j <= x.len(),
        forall|k: int| j <= k < x.len() ==> cls.has(#[trigger] x[k]),
    ensures
        run_end(x, j, cls) == x.len(),
    decreases x.len() - j,
{
    if j < x.len() {
        lemma_run_all(x, j + 1, cls);
    }
}

/// Runs read the same on two texts from two positions after which they agree.
proof fn lemma_run_shift(s: Seq<char>, i: int, t: Seq<char>, m: int, cls: CharClass)
    requires
        0 <= i <= s.len(),
        0 <= m <= t.len(),
        t.subrange(m, t.len() as int) == s.subrange(i, s.len() as int),
    ensures
        run_end(t, m, cls) - m == run_end(s, i, cls) - i,
    decreases s.len() - i,
{
    lemma_suffix_len(s, i, t, m);
    if i < s.len() {
        assert(t[m] == s[i]);
        lemma_skip_more(s, i, t, m, 1);
        lemma_run_shift(s, i + 1, t, m + 1, cls);
    }
}

proof fn lemma_suffix_len(s: Seq<char>, i: int, t: Seq<char>, m: int)
    requires
        0 <= i <= s.len(),
        0 <= m <= t.len(),
        t.subrange(m, t.len() as int) == s.subrange(i, s.len() as int),
    ensures
        t.len() - m == s.len() - i,
        forall|k: int| m <= k < t.len() ==> #[trigger] t[k] == s[k - m + i],
{
    let a = t.subrange(m, t.len() as int);
    let b = s.subrange(i, s.len() as int);
    assert(a.len() == t.len() - m);
    assert(b.len() == s.len() - i);
    assert forall|k: int| m <= k < t.len() implies #[trigger] t[k] == s[k - m + i] by {
        assert(a[k - m] == t[k]);
        assert(b[k - m] == s[k - m + i]);
    }
}

proof fn lemma_skip_more(s: Seq<char>, i: int, t: Seq<char>, m: int, d: int)
    requires
        0 <= i <= s.len(),
        0 <= m <= t.len(),
        t.subrange(m, t.len() as int) == s.subrange(i, s.len() as int),
        0 <= d <= s.len() - i,
    ensures
        t.subrange(m + d, t.len() as int) == s.subrange(i + d, s.len() as int),
{
    lemma_suffix_len(s, i, t, m);
    assert(t.subrange(m + d, t.len() as int) =~= s.subrange(i + d, s.len() as int));
}

/// One separator item reads the same on two texts from two positions after
/// which they agree.
proof fn lemma_sep_item_shift(s: Seq<char>, i: int, t: Seq<char>, m: int)
    requires
        0 <= i <= s.len(),
        0 <= m <= t.len(),
        t.subrange(m, t.len() as int) == s.subrange(i, s.len() as int),
    ensures
        sep_item(s, i) is Some <==> sep_item(t, m) is Some,
        sep_item(s, i) is Some ==> sep_item(t, m)->0 - m == sep_item(s, i)->0 - i,
{
    let n = s.len() - i;
    lemma_suffix_len(s, i, t, m);
    if n > 0 {
        assert(t[m] == s[i]);
    }
    if n > 1 {
        assert(t[m + 1] == s[i + 1]);
    }
    if at(s, i, '/') && at(s, i + 1, '/') {
        assert(at(t, m, '/') && at(t, m + 1, '/'));
        lemma_skip_more(s, i, t, m, 2);
        lemma_run_shift(s, i + 2, t, m + 2, CharClass::Space);
        let j = run_end(s, i + 2, CharClass::Space);
        assert(i + 2 <= j <= s.len()) by {
            lemma_run_bounds(s, i + 2, CharClass::Space);
        }
        lemma_skip_more(s, i, t, m, j - i);
        lemma_run_shift(s, j, t, m + (j - i), CharClass::Inline);
    }
    if at(t, m, '/') && at(t, m + 1, '/') {
        assert(at(s, i, '/') && at(s, i + 1, '/'));
    }
    if at(s, i, '\r') {
        assert(at(t, m, '\r'));
        if i + 1 < s.len() {
            assert(t[m + 1] == s[i + 1]);
        }
    }
    if at(t, m, '\r') {
        assert(at(s, i, '\r'));
    }
    if at(s, i, '\n') || at(s, i, ' ') || at(s, i, '\t') {
        assert(t[m] == s[i]);
    }
    if at(t, m, '\n') || at(t, m, ' ') || at(t, m, '\t') {
        assert(t[m] == s[i]);
    }
}

proof fn lemma_run_bounds(s: Seq<char>, i: int, cls: CharClass)
    requires
        0 <= i <= s.len(),
    ensures
        i <= run_end(s, i, cls) <= s.len(),
    decreases s.len() - i,
{
    if i < s.len() {
        lemma_run_bounds(s, i + 1, cls);
    }
}

/// A run of separators reads the same on two texts from two positions after
/// which they agree.
proof fn lemma_sep_run_shift(s: Seq<char>, i: int, t: Seq<char>, m: int)
    requires
        0 <= i <= s.len(),
        0 <= m <= t.len(),
        t.subrange(m, t.len() as int) == s.subrange(i, s.len() as int),
    ensures
        sep_run(t, m) - m == sep_run(s, i) - i,
    decreases s.len() - i,
{
    lemma_suffix_len(s, i, t, m);
    lemma_sep_item_shift(s, i, t, m);
    if let Some(k) = sep_item(s, i) {
        if i < k <= s.len() {
            lemma_skip_more(s, i, t, m, k - i);
            lemma_sep_run_shift(s, k, t, m + (k - i));
        }
    }
}

/// A comment line: `//`, text without line breaks (possibly empty), and a
/// line break.
pub open spec fn comment_line_text(body: Seq<char>) -> Seq<char> {
    seq!['/', '/'] + body + seq!['\n']
}

pub open spec fn is_comment_body(body: Seq<char>) -> bool {
    forall|k: int| 0 <= k < body.len() ==> #[trigger] body[k] != '\n' && body[k] != '\r'
}

/// A comment line put into a text where a separator begins becomes part of
/// that separator: the separator then ends after the same text as before,
/// so what is read after it is unchanged.
pub proof fn lemma_comment_joins_separator(s: Seq<char>, i: int, body: Seq<char>)
    requires
        0 <= i <= s.len(),
        linesep(s, i) is Some,
        is_comment_body(body),
    ensures
        ({
            let c = comment_line_text(body);
            let t = s.take(i) + c + s.subrange(i, s.len() as int);
            &&& linesep(t, i) == Some(linesep(s, i)->0 + c.len())
            &&& t.subrange(linesep(t, i)->0, t.len() as int) == s.subrange(linesep(s, i)->0, s.len() as int)
            &&& t.take(i) == s.take(i)
        }),
{
    let c = comment_line_text(body);
    let t = s.take(i) + c + s.subrange(i, s.len() as int);
    let n = body.len() as int;
    let a = i + 2;
    assert(t.len() == s.len() + n + 3);
    assert(t.subrange(a, a + n) =~= body);
    assert(t[a + n] == '\n');
    assert(t[i] == '/' && t[i + 1] == '/');
    assert(linebreak(t, i) is None);
    lemma_run_in_copy(t, a, body, 0, CharClass::Space);
    lemma_run_bounds(body, 0, CharClass::Space);
    let j = run_end(body, 0, CharClass::Space);
    lemma_run_in_copy(t, a, body, j, CharClass::Inline);
    lemma_run_all(body, j, CharClass::Inline);
    assert(commentline(t, i) == Some(a + n));
    assert(sep_item(t, i) == Some(a + n));
    assert(sep_item(t, a + n) == Some(a + n + 1));
    assert(t.subrange(a + n + 1, t.len() as int) =~= s.subrange(i, s.len() as int));
    lemma_sep_run_shift(s, i, t, a + n + 1);
    assert(sep_run(t, i) == sep_run(t, a + n));
    assert(sep_run(t, a + n) == sep_run(t, a + n + 1));
    let e = sep_run(s, i);
    lemma_sep_run_bounds(s, i);
    lemma_skip_more(s, i, t, a + n + 1, e - i);
    assert(t.take(i) =~= s.take(i));
}

proof fn lemma_sep_run_bounds(s: Seq<char>, i: int)
    requires
        0 <= i <= s.len(),
    ensures
        i <= sep_run(s, i) <= s.len(),
    decreases s.len() - i,
{
    if let Some(k) = sep_item(s, i) {
        if i < k <= s.len() {
            lemma_sep_run_bounds(s, k);
        }
    }
}

/// One key line: `"k" "v"`.
pub open spec fn pair_line(kv: (Seq<char>, Seq<char>)) -> Seq<char> {
    seq!['"'] + kv.0 + seq!['"', ' ', '"'] + kv.1 + seq!['"']
}

/// Each pair on a line of its own, each line after a line break.
pub open spec fn later_lines(ps: Seq<(Seq<char>, Seq<char>)>) -> Seq<char>
    decreases ps.len(),
{
    if ps.len() == 0 {
        seq![]
    } else {
        seq!['\n'] + pair_line(ps[0]) + later_lines(ps.drop_first())
    }
}

/// A point entity whose key block holds the pairs `ps`, one per line.
pub open spec fn entity_text(ps: Seq<(Seq<char>, Seq<char>)>) -> Seq<char> {
    seq!['{', '\n'] + pair_line(ps[0]) + later_lines(ps.drop_first()) + seq!['\n', '}']
}

/// Keys and values are not empty and hold no `"`.
pub open spec fn plain_pairs(ps: Seq<(Seq<char>, Seq<char>)>) -> bool {
    forall|i: int|
        0 <= i < ps.len() ==> {
            &&& (#[trigger] ps[i]).0.len() > 0
            &&& ps[i].1.len() > 0
            &&& forall|k: int| 0 <= k < ps[i].0.len() ==> ps[i].0[k] != '"'
            &&& forall|k: int| 0 <= k < ps[i].1.len() ==> ps[i].1[k] != '"'
        }
}

proof fn lemma_copy_index(s: Seq<char>, a: int, x: Seq<char>, k: int)
    requires
        0 <= a,
        a + x.len() <= s.len(),
        s.subrange(a, a + x.len()) == x,
        0 <= k < x.len(),
    ensures
        s[a + k] == x[k],
{
    assert(s.subrange(a, a + x.len())[k] == s[a + k]);
}

proof fn lemma_copy_part(s: Seq<char>, a: int, x: Seq<char>, lo: int, hi: int)
    requires
        0 <= a,
        a + x.len() <= s.len(),
        s.subrange(a, a + x.len()) == x,
        0 <= lo <= hi <= x.len(),
    ensures
        s.subrange(a + lo, a + hi) == x.subrange(lo, hi),
{
    assert forall|j: int| 0 <= j < hi - lo implies s.subrange(a + lo, a + hi)[j] == #[trigger] x.subrange(lo, hi)[j] by {
        lemma_copy_index(s, a, x, lo + j);
    }
    assert(s.subrange(a + lo, a + hi) =~= x.subrange(lo, hi));
}

proof fn lemma_quoted_run(s: Seq<char>, a: int, x: Seq<char>)
    requires
        forall|k: int| 0 <= k < x.len() ==> x[k] != '"',
        0 <= a,
        a + x.len() < s.len(),
        s.subrange(a, a + x.len()) == x,
        s[a + x.len()] == '"',
    ensures
        run_end(s, a, CharClass::NotQuote) == a + x.len(),
{
    lemma_run_in_copy(s, a, x, 0, CharClass::NotQuote);
    lemma_run_all(x, 0, CharClass::NotQuote);
}

/// A key line copied into `s` at `a` reads as its pair.
proof fn lemma_pair_line_in_copy(s: Seq<char>, a: int, kv: (Seq<char>, Seq<char>))
    requires
        kv.0.len() > 0,
        kv.1.len() > 0,
        forall|k: int| 0 <= k < kv.0.len() ==> kv.0[k] != '"',
        forall|k: int| 0 <= k < kv.1.len() ==> kv.1[k] != '"',
        0 <= a,
        a + pair_line(kv).len() <= s.len(),
        s.subrange(a, a + pair_line(kv).len()) == pair_line(kv),
    ensures
        keypair(s, a) == Some((kv, a + pair_line(kv).len())),
{
    let line = pair_line(kv);
    let n0 = kv.0.len() as int;
    let n1 = kv.1.len() as int;
    assert(line.len() == n0 + n1 + 5);
    lemma_copy_index(s, a, line, 0);
    lemma_copy_index(s, a, line, 1 + n0);
    lemma_copy_index(s, a, line, 2 + n0);
    lemma_copy_index(s, a, line, 3 + n0);
    lemma_copy_index(s, a, line, 4 + n0 + n1);
    lemma_copy_part(s, a, line, 1, 1 + n0);
    lemma_copy_part(s, a, line, 4 + n0, 4 + n0 + n1);
    assert(line.subrange(1, 1 + n0) =~= kv.0);
    assert(line.subrange(4 + n0, 4 + n0 + n1) =~= kv.1);
    lemma_quoted_run(s, a + 1, kv.0);
    lemma_quoted_run(s, a + 4 + n0, kv.1);
    assert(run_end(s, a + 3 + n0, CharClass::Space) == a + 3 + n0);
    assert(run_end(s, a + 2 + n0, CharClass::Space) == a + 3 + n0);
}

proof fn lemma_later_lines_read(s: Seq<char>, a: int, ps: Seq<(Seq<char>, Seq<char>)>)
    requires
        plain_pairs(ps),
        0 <= a,
        a + later_lines(ps).len() + 2 == s.len(),
        s.subrange(a, a + later_lines(ps).len()) == later_lines(ps),
        s[s.len() - 2] == '\n',
        s[s.len() - 1] == '}',
    ensures
        keypairs_rest(s, a) == (ps, a + later_lines(ps).len()),
    decreases ps.len(),
{
    if ps.len() == 0 {
        assert(s[a] == '\n' && s[a + 1] == '}');
        assert(sep_item(s, a + 1) is None);
        assert(sep_run(s, a + 1) == a + 1);
        assert(sep_run(s, a) == a + 1);
        assert(ps =~= seq![]);
    } else {
        let line = pair_line(ps[0]);
        let rest = ps.drop_first();
        let t = later_lines(ps);
        assert(t == seq!['\n'] + line + later_lines(rest));
        let b: int = a + 1 + line.len() as int as int;
        lemma_copy_index(s, a, t, 0);
        lemma_copy_index(s, a, t, 1);
        assert(s[a + 1] == '"');
        assert(sep_item(s, a + 1) is None);
        assert(sep_run(s, a + 1) == a + 1);
        assert(sep_run(s, a) == a + 1);
        lemma_copy_part(s, a, t, 1, 1 + line.len() as int);
        assert(t.subrange(1, 1 + line.len() as int) =~= line);
        assert(plain_pairs(rest)) by {
            assert forall|i: int| 0 <= i < rest.len() implies #[trigger] rest[i] == ps[i + 1] by {}
        }
        assert(ps[0] == ps[0]);
        lemma_pair_line_in_copy(s, a + 1, ps[0]);
        lemma_copy_part(s, a, t, 1 + line.len() as int, t.len() as int);
        assert(t.subrange(1 + line.len() as int, t.len() as int) =~= later_lines(rest));
        lemma_later_lines_read(s, b, rest);
        assert(seq![ps[0]] + rest =~= ps);
    }
}

/// A point entity written with one `"key" "value"` line per pair, keys
/// distinct, reads as a document of one entity with no brushes whose
/// properties hold exactly those pairs; the same lines in another order give
/// the same properties.
pub proof fn lemma_entity_keys_read(
    ps: Seq<(Seq<char>, Seq<char>)>,
    qs: Seq<(Seq<char>, Seq<char>)>,
)
    requires
        ps.len() > 0,
        plain_pairs(ps),
        distinct_keys(ps),
        plain_pairs(qs),
        distinct_keys(qs),
        qs.len() > 0,
        qs.to_set() == ps.to_set(),
    ensures
        document(entity_text(ps)) == Some(
            seq![EntityModel { keys: pairs_to_map(ps), brushes: seq![] }],
        ),
        forall|i: int|
            0 <= i < ps.len() ==> #[trigger] pairs_to_map(ps).contains_key(ps[i].0)
                && pairs_to_map(ps)[ps[i].0] == ps[i].1,
        forall|k: Seq<char>|
            #[trigger] pairs_to_map(ps).contains_key(k) ==> exists|i: int|
                0 <= i < ps.len() && ps[i].0 == k,
        document(entity_text(qs)) == document(entity_text(ps)),
{
    lemma_entity_text_reads(ps);
    lemma_entity_text_reads(qs);
    lemma_keys_hold_every_pair(ps);
    lemma_keys_order_free(ps, qs);
}

#[verifier::rlimit(100)]
proof fn lemma_entity_text_reads(ps: Seq<(Seq<char>, Seq<char>)>)
    requires
        ps.len() > 0,
        plain_pairs(ps),
    ensures
        document(entity_text(ps)) == Some(
            seq![EntityModel { keys: pairs_to_map(ps), brushes: seq![] }],
        ),
{
    let s = entity_text(ps);
    let line = pair_line(ps[0]);
    let rest = ps.drop_first();
    let t = later_lines(rest);
    let b: int = 2 + line.len() as int;
    let e: int = b + t.len() as int;
    assert(s.len() == e + 2);
    assert(s[0] == '{' && s[1] == '\n' && s[e] == '\n' && s[e + 1] == '}');
    assert(s[2] == line[0]);
    assert(s.subrange(2, b) =~= line);
    assert(s.subrange(b, e) =~= t);
    assert(plain_pairs(rest)) by {
        assert forall|i: int| 0 <= i < rest.len() implies #[trigger] rest[i] == ps[i + 1] by {}
    }
    assert(ps[0] == ps[0]);
    lemma_pair_line_in_copy(s, 2, ps[0]);
    lemma_later_lines_read(s, b, rest);
    assert(seq![ps[0]] + rest =~= ps);
    assert(line[0] == '"');
    assert(s[2] == '"');
    assert(sep_item(s, 0) is None);
    assert(sep_item(s, 2) is None);
    assert(sep_run(s, 2) == 2);
    assert(sep_item(s, 1) == Some(2int));
    assert(sep_run(s, 1) == 2);
    assert(linesep(s, 1) == Some(2int));
    assert(keypair_list(s, 2) == Some((ps, e)));
    assert(sep_item(s, e + 1) is None);
    assert(sep_run(s, e + 1) == e + 1);
    assert(sep_run(s, e) == e + 1);
    assert(linesep(s, e) == Some(e + 1));
    assert(brush(s, e + 1) is None);
    assert(brushes(s, e + 1) == (Seq::<Seq<PlaneModel>>::empty(), e + 1));
    assert(linesep(s, e + 1) is None);
    assert(opt_linesep(s, e + 1) == e + 1);
    assert(keys(s, 2) == Some((pairs_to_map(ps), e)));
    assert(entity(s, 0) == Some((EntityModel { keys: pairs_to_map(ps), brushes: seq![] }, e + 2)));
    assert(sep_item(s, e + 2) is None);
    assert(linesep(s, e + 2) is None);
    assert(entities_rest(s, e + 2).0 =~= seq![]);
    assert(opt_linesep(s, 0) == 0);
}

} // verus!

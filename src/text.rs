use vstd::prelude::*;
use vstd::std_specs::iter::IteratorSpec;

verus! {

/// The characters of `s`, one element each.
pub fn chars_of(s: &str) -> (r: Vec<char>)
    ensures
        r@ == s@,
{
    let mut it = s.chars();
    let mut out: Vec<char> = Vec::new();
    loop
        invariant
            out@ + it.remaining() == s@,
            it.obeys_prophetic_iter_laws(),
            it.decrease() is Some,
        ensures
            out@ == s@,
        decreases it.decrease()->0,
    {
        match it.next() {
            Some(c) => {
                let ghost before = out@;
                out.push(c);
                assert(before + seq![c] + it.remaining() =~= before + (seq![c] + it.remaining()));
            },
            None => {
                assert(out@ + it.remaining() =~= out@);
                break;
            },
        }
    }
    out
}

} // verus!

verus! {

/// Relies on String::push: appends one character.
#[verifier::external_body]
pub(crate) fn push_char(t: &mut String, c: char)
    ensures
        final(t)@ == old(t)@.push(c),
{
    t.push(c)
}

/// The characters `s[a..b]` as a new string.
pub fn slice_string(s: &Vec<char>, a: usize, b: usize) -> (r: String)
    requires
        a <= b <= s.len(),
    ensures
        r@ == s@.subrange(a as int, b as int),
{
    let mut t = String::new();
    let mut k: usize = a;
    while k < b
        invariant
            a <= k <= b <= s.len(),
            t@ == s@.subrange(a as int, k as int),
        decreases b - k,
    {
        push_char(&mut t, s[k]);
        k = k + 1;
        assert(t@ =~= s@.subrange(a as int, k as int));
    }
    t
}

} // verus!

verus! {

/// The 1-based line of position `n`.
pub open spec fn line_of(s: Seq<char>, n: int) -> int
    decreases n,
{
    if n <= 0 {
        1
    } else if s[n - 1] == '\n' {
        line_of(s, n - 1) + 1
    } else {
        line_of(s, n - 1)
    }
}

/// The 1-based column of position `n`, counted in characters.
pub open spec fn column_of(s: Seq<char>, n: int) -> int
    decreases n,
{
    if n <= 0 {
        1
    } else if s[n - 1] == '\n' {
        1
    } else {
        column_of(s, n - 1) + 1
    }
}

/// Line and column of position `off`.
pub fn line_col(s: &Vec<char>, off: usize) -> (r: (usize, usize))
    requires
        off <= s.len(),
        off < usize::MAX,
    ensures
        r.0 == line_of(s@, off as int),
        r.1 == column_of(s@, off as int),
{
    let mut line: usize = 1;
    let mut col: usize = 1;
    let mut k: usize = 0;
    while k < off
        invariant
            k <= off <= s.len(),
            off < usize::MAX,
            1 <= line <= k + 1,
            1 <= col <= k + 1,
            line == line_of(s@, k as int),
            col == column_of(s@, k as int),
        decreases off - k,
    {
        if s[k] == '\n' {
            line = line + 1;
            col = 1;
        } else {
            col = col + 1;
        }
        k = k + 1;
    }
    (line, col)
}

} // verus!

verus! {

/// Whether two strings hold the same characters.
pub fn same_text(a: &str, b: &Vec<char>) -> (r: bool)
    ensures
        r == (a@ == b@),
{
    let av = chars_of(a);
    if av.len() != b.len() {
        return false;
    }
    let mut k: usize = 0;
    while k < av.len()
        invariant
            av@ == a@,
            av.len() == b.len(),
            k <= av.len(),
            av@.subrange(0, k as int) == b@.subrange(0, k as int),
        decreases av.len() - k,
    {
        if av[k] != b[k] {
            assert(av@[k as int] != b@[k as int]);
            return false;
        }
        assert(av@.subrange(0, k + 1) =~= av@.subrange(0, k as int).push(av@[k as int]));
        assert(b@.subrange(0, k + 1) =~= b@.subrange(0, k as int).push(b@[k as int]));
        k = k + 1;
    }
    assert(av@ =~= av@.subrange(0, k as int));
    assert(b@ =~= b@.subrange(0, k as int));
    true
}

} // verus!

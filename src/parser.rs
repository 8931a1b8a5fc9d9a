//! A recursive-descent reader for level sources. Each reader mirrors the
//! grammar function of the same name and is proved to agree with it.
use vstd::prelude::*;
use crate::data::{
    Brush, BrushPlane, Entity, KeyValues, LevelMap, Numeral, Point3, TexParams, Vec2,
    brushes_view, entities_view, pair_view, pairs_view, planes_view,
};
use crate::grammar::{
    CharClass, at, brush, brush_far, brushes_far, brushes_rest_far, brushline_far,
    brushlines_rest_far, document_far, entities_rest_far, entity_far, keypair_far,
    keypair_list_far, keypairs_rest_far, linesep_far, mx, numeral_far, point_far, quoted_far,
    sep_brush_far, sep_brushline_far, sep_entity_far, sep_item_far, sep_keypair_far,
    spaced_numeral_far, spaced_point_far, tex_params_far, brushes, brushes_rest, brushline, brushlines_rest, document, entities_rest,
    entity, keypair, keypair_list, keypairs_rest, keys, linesep, numeral, opt_linesep, point,
    quoted, run_end, sep_brush, sep_brushline, sep_entity, sep_item, sep_keypair, sep_run,
    spaced_numeral, spaced_point, tex_params,
};
use crate::text::slice_string;

verus! {

/// The furthest position at which a rule failed, and what was expected there.
pub(crate) struct Failure {
    pub pos: usize,
    pub expected: Vec<&'static str>,
}

impl Failure {
    /// Once a failure has been recorded past the start, an expectation is
    /// recorded with it.
    pub(crate) open spec fn wf(&self) -> bool {
        self.pos > 0 ==> self.expected.len() > 0
    }
}

/// The failure record went from `old` to `new` while reading something that
/// fails furthest at `far`; it holds an expectation if it did before or if
/// the reading failed.
pub(crate) open spec fn moved(old: Failure, new: Failure, far: int, failed: bool) -> bool {
    &&& new.pos == mx(old.pos as int, far)
    &&& new.wf()
    &&& (failed || old.expected.len() > 0) ==> new.expected.len() > 0
}

/// Records that `what` was expected at `pos`.
pub(crate) fn note(f: &mut Failure, pos: usize, what: &'static str)
    requires
        old(f).wf(),
    ensures
        final(f).wf(),
        final(f).pos == mx(old(f).pos as int, pos as int),
        final(f).expected.len() > 0,
{
    if pos > f.pos {
        f.pos = pos;
        f.expected = Vec::new();
        f.expected.push(what);
    } else if pos == f.pos {
        let mut k: usize = 0;
        while k < f.expected.len()
            invariant
                k <= f.expected.len(),
                f.pos == pos,
            decreases f.expected.len() - k,
        {
            if f.expected[k] == what {
                assert(f.expected.len() > 0);
                return;
            }
            k = k + 1;
        }
        f.expected.push(what);
    }
}

fn is_at(s: &Vec<char>, i: usize, c: char) -> (r: bool)
    ensures
        r == at(s@, i as int, c),
{
    i < s.len() && s[i] == c
}

/// Like `is_at`, recording a failure when the character is not there.
fn expect(s: &Vec<char>, i: usize, c: char, what: &'static str, f: &mut Failure) -> (r: bool)
    requires
        i <= s.len(),
        old(f).pos <= s.len(),
        old(f).wf(),
    ensures
        r == at(s@, i as int, c),
        final(f).pos <= s.len(),
        moved(*old(f), *final(f), if at(s@, i as int, c) { 0 } else { i as int }, !r),
{
    let r = is_at(s, i, c);
    if !r {
        note(f, i, what);
    }
    r
}

fn in_class(c: char, cls: CharClass) -> (r: bool)
    ensures
        r == cls.has(c),
{
    match cls {
        CharClass::Digit => '0' <= c && c <= '9',
        CharClass::Space => c == ' ',
        CharClass::Inline => c != '\n' && c != '\r',
        CharClass::NotQuote => c != '"',
        CharClass::TexChar => ('a' <= c && c <= 'z') || ('A' <= c && c <= 'Z') || c == '_',
    }
}

fn scan(s: &Vec<char>, i: usize, cls: CharClass) -> (r: usize)
    requires
        i <= s.len(),
    ensures
        r == run_end(s@, i as int, cls),
        i <= r <= s.len(),
{
    let mut j: usize = i;
    while j < s.len() && in_class(s[j], cls)
        invariant
            i <= j <= s.len(),
            run_end(s@, i as int, cls) == run_end(s@, j as int, cls),
        decreases s.len() - j,
    {
        j = j + 1;
    }
    j
}

pub(crate) fn read_sep_item(s: &Vec<char>, i: usize, f: &mut Failure) -> (r: Option<usize>)
    requires
        i <= s.len(),
        old(f).pos <= s.len(),
        old(f).wf(),
    ensures
        r matches Some(k) ==> i < k <= s.len() && sep_item(s@, i as int) == Some(k as int),
        r is None ==> sep_item(s@, i as int) is None,
        final(f).pos <= s.len(),
        moved(*old(f), *final(f), sep_item_far(s@, i as int), r is None),
{
    if is_at(s, i, '\n') {
        return Some(i + 1);
    }
    if is_at(s, i, '\r') && is_at(s, i + 1, '\n') {
        return Some(i + 2);
    }
    if is_at(s, i, '/') && is_at(s, i + 1, '/') {
        let j = scan(s, i + 2, CharClass::Space);
        return Some(scan(s, j, CharClass::Inline));
    }
    if is_at(s, i, ' ') || is_at(s, i, '\t') {
        Some(i + 1)
    } else {
        note(f, i, "line separator");
        None
    }
}

pub(crate) fn read_linesep(s: &Vec<char>, i: usize, f: &mut Failure) -> (r: Option<usize>)
    requires
        i <= s.len(),
        old(f).pos <= s.len(),
        old(f).wf(),
    ensures
        r matches Some(k) ==> i < k <= s.len() && linesep(s@, i as int) == Some(k as int),
        r is None ==> linesep(s@, i as int) is None,
        final(f).pos <= s.len(),
        moved(*old(f), *final(f), linesep_far(s@, i as int), r is None),
{
    let mut j: usize = match read_sep_item(s, i, f) {
        None => {
            return None;
        },
        Some(k) => k,
    };
    assert(sep_run(s@, i as int) == sep_run(s@, j as int));
    let ghost p0 = f.pos as int;
    let ghost x0 = f.expected.len() > 0;
    loop
        invariant_except_break
            f.pos == p0,
        invariant
            i < j <= s.len(),
            sep_run(s@, i as int) == sep_run(s@, j as int),
            f.pos <= s.len(),
            f.wf(),
            x0 ==> f.expected.len() > 0,
        ensures
            i < j <= s.len(),
            sep_run(s@, i as int) == j,
            f.pos <= s.len(),
            f.pos == mx(p0, j as int),
            f.wf(),
            f.expected.len() > 0,
        decreases s.len() - j,
    {
        match read_sep_item(s, j, f) {
            None => {
                break;
            },
            Some(k) => {
                j = k;
            },
        }
    }
    Some(j)
}

pub(crate) fn read_opt_linesep(s: &Vec<char>, i: usize, f: &mut Failure) -> (r: usize)
    requires
        i <= s.len(),
        old(f).pos <= s.len(),
        old(f).wf(),
    ensures
        r == opt_linesep(s@, i as int),
        i <= r <= s.len(),
        final(f).pos <= s.len(),
        moved(*old(f), *final(f), linesep_far(s@, i as int), false),
{
    match read_linesep(s, i, f) {
        Some(k) => k,
        None => i,
    }
}

pub(crate) fn read_numeral(s: &Vec<char>, i: usize, f: &mut Failure) -> (r: Option<(Numeral, usize)>)
    requires
        i <= s.len(),
        old(f).pos <= s.len(),
        old(f).wf(),
    ensures
        r matches Some((n, e)) ==> i < e <= s.len() && numeral(s@, i as int) == Some(e as int)
            && n@ == s@.subrange(i as int, e as int),
        r is None ==> numeral(s@, i as int) is None,
        final(f).pos <= s.len(),
        moved(*old(f), *final(f), numeral_far(s@, i as int), r is None),
{
    let a = if is_at(s, i, '-') { i + 1 } else { i };
    let b = scan(s, a, CharClass::Digit);
    if b == a {
        note(f, i, "float");
        return None;
    }
    let e = if is_at(s, b, '.') { scan(s, b + 1, CharClass::Digit) } else { b };
    Some((Numeral { text: slice_string(s, i, e) }, e))
}

pub(crate) fn read_spaced_numeral(s: &Vec<char>, i: usize, f: &mut Failure) -> (r: Option<(Numeral, usize)>)
    requires
        i <= s.len(),
        old(f).pos <= s.len(),
        old(f).wf(),
    ensures
        r matches Some((n, e)) ==> i < e <= s.len() && spaced_numeral(s@, i as int) == Some(
            e as int,
        ) && n@ == s@.subrange(i + 1, e as int),
        r is None ==> spaced_numeral(s@, i as int) is None,
        final(f).pos <= s.len(),
        moved(*old(f), *final(f), spaced_numeral_far(s@, i as int), r is None),
{
    if !expect(s, i, ' ', "\" \"", f) {
        return None;
    }
    read_numeral(s, i + 1, f)
}

pub(crate) fn read_point(s: &Vec<char>, i: usize, f: &mut Failure) -> (r: Option<(Point3, usize)>)
    requires
        i <= s.len(),
        old(f).pos <= s.len(),
        old(f).wf(),
    ensures
        r matches Some((pt, e)) ==> i < e <= s.len() && point(s@, i as int) == Some(
            (pt@, e as int),
        ),
        r is None ==> point(s@, i as int) is None,
        final(f).pos <= s.len(),
        moved(*old(f), *final(f), point_far(s@, i as int), r is None),
{
    if !expect(s, i, '(', "\"(\"", f) {
        return None;
    }
    let (x, e1) = match read_spaced_numeral(s, i + 1, f) {
        None => {
            return None;
        },
        Some(v) => v,
    };
    let (y, e2) = match read_spaced_numeral(s, e1, f) {
        None => {
            return None;
        },
        Some(v) => v,
    };
    let (z, e3) = match read_spaced_numeral(s, e2, f) {
        None => {
            return None;
        },
        Some(v) => v,
    };
    if expect(s, e3, ' ', "\" )\"", f) && expect(s, e3 + 1, ')', "\" )\"", f) {
        Some((Point3 { x, y, z }, e3 + 2))
    } else {
        None
    }
}

pub(crate) fn read_spaced_point(s: &Vec<char>, i: usize, f: &mut Failure) -> (r: Option<(Point3, usize)>)
    requires
        i <= s.len(),
        old(f).pos <= s.len(),
        old(f).wf(),
    ensures
        r matches Some((pt, e)) ==> i < e <= s.len() && spaced_point(s@, i as int) == Some(
            (pt@, e as int),
        ),
        r is None ==> spaced_point(s@, i as int) is None,
        final(f).pos <= s.len(),
        moved(*old(f), *final(f), spaced_point_far(s@, i as int), r is None),
{
    if !expect(s, i, ' ', "\" \"", f) {
        return None;
    }
    read_point(s, i + 1, f)
}

pub(crate) fn read_tex_params(s: &Vec<char>, i: usize, f: &mut Failure) -> (r: Option<(TexParams, usize)>)
    requires
        i <= s.len(),
        old(f).pos <= s.len(),
        old(f).wf(),
    ensures
        r matches Some((tp, e)) ==> i < e <= s.len() && tex_params(s@, i as int) == Some(
            (tp@, e as int),
        ),
        r is None ==> tex_params(s@, i as int) is None,
        final(f).pos <= s.len(),
        moved(*old(f), *final(f), tex_params_far(s@, i as int), r is None),
{
    let (ox, e1) = match read_spaced_numeral(s, i, f) {
        None => {
            return None;
        },
        Some(v) => v,
    };
    let (oy, e2) = match read_spaced_numeral(s, e1, f) {
        None => {
            return None;
        },
        Some(v) => v,
    };
    let (rot, e3) = match read_spaced_numeral(s, e2, f) {
        None => {
            return None;
        },
        Some(v) => v,
    };
    let (sx, e4) = match read_spaced_numeral(s, e3, f) {
        None => {
            return None;
        },
        Some(v) => v,
    };
    let (sy, e5) = match read_spaced_numeral(s, e4, f) {
        None => {
            return None;
        },
        Some(v) => v,
    };
    Some((TexParams { off: Vec2 { x: ox, y: oy }, rot, scale: Vec2 { x: sx, y: sy } }, e5))
}

pub(crate) fn read_brushline(s: &Vec<char>, i: usize, f: &mut Failure) -> (r: Option<(BrushPlane, usize)>)
    requires
        i <= s.len(),
        old(f).pos <= s.len(),
        old(f).wf(),
    ensures
        r matches Some((pl, e)) ==> i < e <= s.len() && brushline(s@, i as int) == Some(
            (pl@, e as int),
        ),
        r is None ==> brushline(s@, i as int) is None,
        final(f).pos <= s.len(),
        moved(*old(f), *final(f), brushline_far(s@, i as int), r is None),
{
    let (p, e1) = match read_point(s, i, f) {
        None => {
            return None;
        },
        Some(v) => v,
    };
    let (q, e2) = match read_spaced_point(s, e1, f) {
        None => {
            return None;
        },
        Some(v) => v,
    };
    let (r, e3) = match read_spaced_point(s, e2, f) {
        None => {
            return None;
        },
        Some(v) => v,
    };
    if !expect(s, e3, ' ', "\" \"", f) {
        return None;
    }
    let t = scan(s, e3 + 1, CharClass::TexChar);
    if t == e3 + 1 {
        note(f, t, "texture name");
        return None;
    }
    let texname = slice_string(s, e3 + 1, t);
    match read_tex_params(s, t, f) {
        None => None,
        Some((texparams, e)) => Some((BrushPlane { p, q, r, texname, texparams }, e)),
    }
}

pub(crate) fn read_quoted(s: &Vec<char>, i: usize, f: &mut Failure) -> (r: Option<(String, usize)>)
    requires
        i <= s.len(),
        old(f).pos <= s.len(),
        old(f).wf(),
    ensures
        r matches Some((t, e)) ==> i + 2 < e <= s.len() && quoted(s@, i as int) == Some(e as int)
            && t@ == s@.subrange(i + 1, e - 1),
        r is None ==> quoted(s@, i as int) is None,
        final(f).pos <= s.len(),
        moved(*old(f), *final(f), quoted_far(s@, i as int), r is None),
{
    if !expect(s, i, '"', "\"\\\"\"", f) {
        return None;
    }
    let j = scan(s, i + 1, CharClass::NotQuote);
    if j == i + 1 {
        note(f, j, "[^\\\"]");
        return None;
    }
    if !expect(s, j, '"', "\"\\\"\"", f) {
        return None;
    }
    Some((slice_string(s, i + 1, j), j + 1))
}

pub(crate) fn read_keypair(s: &Vec<char>, i: usize, f: &mut Failure) -> (r: Option<((String, String), usize)>)
    requires
        i <= s.len(),
        old(f).pos <= s.len(),
        old(f).wf(),
    ensures
        r matches Some((kv, e)) ==> i < e <= s.len() && keypair(s@, i as int) == Some(
            (pair_view(kv), e as int),
        ),
        r is None ==> keypair(s@, i as int) is None,
        final(f).pos <= s.len(),
        moved(*old(f), *final(f), keypair_far(s@, i as int), r is None),
{
    let (k, e1) = match read_quoted(s, i, f) {
        None => {
            return None;
        },
        Some(v) => v,
    };
    let j = scan(s, e1, CharClass::Space);
    if j == e1 {
        note(f, j, "\" \"");
        return None;
    }
    match read_quoted(s, j, f) {
        None => None,
        Some((v, e2)) => Some(((k, v), e2)),
    }
}

pub(crate) fn read_sep_keypair(s: &Vec<char>, i: usize, f: &mut Failure) -> (r: Option<((String, String), usize)>)
    requires
        i <= s.len(),
        old(f).pos <= s.len(),
        old(f).wf(),
    ensures
        r matches Some((kv, e)) ==> i < e <= s.len() && sep_keypair(s@, i as int) == Some(
            (pair_view(kv), e as int),
        ),
        r is None ==> sep_keypair(s@, i as int) is None,
        final(f).pos <= s.len(),
        moved(*old(f), *final(f), sep_keypair_far(s@, i as int), r is None),
{
    match read_linesep(s, i, f) {
        None => None,
        Some(j) => read_keypair(s, j, f),
    }
}

pub(crate) fn read_keypair_list(s: &Vec<char>, i: usize, f: &mut Failure) -> (r: Option<(Vec<(String, String)>, usize)>)
    requires
        i <= s.len(),
        old(f).pos <= s.len(),
        old(f).wf(),
    ensures
        r matches Some((ps, e)) ==> i < e <= s.len() && keypair_list(s@, i as int) == Some(
            (pairs_view(ps@), e as int),
        ),
        r is None ==> keypair_list(s@, i as int) is None,
        final(f).pos <= s.len(),
        moved(*old(f), *final(f), keypair_list_far(s@, i as int), r is None),
{
    let (kv, e) = match read_keypair(s, i, f) {
        None => {
            return None;
        },
        Some(v) => v,
    };
    let ghost first = pair_view(kv);
    let mut out: Vec<(String, String)> = Vec::new();
    out.push(kv);
    let mut j: usize = e;
    assert(pairs_view(out@) =~= seq![first]);
    let ghost p0 = f.pos as int;
    let ghost x0 = f.expected.len() > 0;
    loop
        invariant
            i < e <= j <= s.len(),
            pairs_view(out@) + keypairs_rest(s@, j as int).0 == seq![first] + keypairs_rest(
                s@,
                e as int,
            ).0,
            keypairs_rest(s@, j as int).1 == keypairs_rest(s@, e as int).1,
            f.pos <= s.len(),
            mx(f.pos as int, keypairs_rest_far(s@, j as int)) == mx(p0, keypairs_rest_far(s@, e as int)),
            f.wf(),
            x0 ==> f.expected.len() > 0,
        ensures
            i < j <= s.len(),
            pairs_view(out@) == seq![first] + keypairs_rest(s@, e as int).0,
            j == keypairs_rest(s@, e as int).1,
            f.pos <= s.len(),
            f.pos == mx(p0, keypairs_rest_far(s@, e as int)),
            f.wf(),
            x0 ==> f.expected.len() > 0,
        decreases s.len() - j,
    {
        match read_sep_keypair(s, j, f) {
            None => {
                assert(pairs_view(out@) + seq![] =~= pairs_view(out@));
                break;
            },
            Some((kv2, e2)) => {
                let ghost before = pairs_view(out@);
                let ghost rest = keypairs_rest(s@, e2 as int).0;
                out.push(kv2);
                assert(pairs_view(out@) =~= before.push(pair_view(kv2)));
                assert(before + (seq![pair_view(kv2)] + rest) =~= pairs_view(out@) + rest);
                j = e2;
            },
        }
    }
    Some((out, j))
}

pub(crate) fn read_sep_brushline(s: &Vec<char>, i: usize, f: &mut Failure) -> (r: Option<(BrushPlane, usize)>)
    requires
        i <= s.len(),
        old(f).pos <= s.len(),
        old(f).wf(),
    ensures
        r matches Some((pl, e)) ==> i < e <= s.len() && sep_brushline(s@, i as int) == Some(
            (pl@, e as int),
        ),
        r is None ==> sep_brushline(s@, i as int) is None,
        final(f).pos <= s.len(),
        moved(*old(f), *final(f), sep_brushline_far(s@, i as int), r is None),
{
    match read_linesep(s, i, f) {
        None => None,
        Some(j) => read_brushline(s, j, f),
    }
}

pub(crate) fn read_brush(s: &Vec<char>, i: usize, f: &mut Failure) -> (r: Option<(Brush, usize)>)
    requires
        i <= s.len(),
        old(f).pos <= s.len(),
        old(f).wf(),
    ensures
        r matches Some((b, e)) ==> i < e <= s.len() && brush(s@, i as int) == Some(
            (b@, e as int),
        ),
        r is None ==> brush(s@, i as int) is None,
        final(f).pos <= s.len(),
        moved(*old(f), *final(f), brush_far(s@, i as int), r is None),
{
    if !expect(s, i, '{', "\"{\"", f) {
        return None;
    }
    let j = match read_linesep(s, i + 1, f) {
        None => {
            return None;
        },
        Some(j) => j,
    };
    let (pl, e) = match read_brushline(s, j, f) {
        None => {
            return None;
        },
        Some(v) => v,
    };
    let ghost first = pl@;
    let mut out: Vec<BrushPlane> = Vec::new();
    out.push(pl);
    let mut m: usize = e;
    assert(planes_view(out@) =~= seq![first]);
    let ghost p0 = f.pos as int;
    let ghost x0 = f.expected.len() > 0;
    loop
        invariant
            i < e <= m <= s.len(),
            planes_view(out@) + brushlines_rest(s@, m as int).0 == seq![first] + brushlines_rest(
                s@,
                e as int,
            ).0,
            brushlines_rest(s@, m as int).1 == brushlines_rest(s@, e as int).1,
            f.pos <= s.len(),
            mx(f.pos as int, brushlines_rest_far(s@, m as int)) == mx(p0, brushlines_rest_far(s@, e as int)),
            f.wf(),
            x0 ==> f.expected.len() > 0,
        ensures
            i < m <= s.len(),
            planes_view(out@) == seq![first] + brushlines_rest(s@, e as int).0,
            m == brushlines_rest(s@, e as int).1,
            f.pos <= s.len(),
            f.pos == mx(p0, brushlines_rest_far(s@, e as int)),
            f.wf(),
            x0 ==> f.expected.len() > 0,
        decreases s.len() - m,
    {
        match read_sep_brushline(s, m, f) {
            None => {
                assert(planes_view(out@) + seq![] =~= planes_view(out@));
                break;
            },
            Some((pl2, e2)) => {
                let ghost before = planes_view(out@);
                let ghost rest = brushlines_rest(s@, e2 as int).0;
                out.push(pl2);
                assert(planes_view(out@) =~= before.push(pl2@));
                assert(before + (seq![pl2@] + rest) =~= planes_view(out@) + rest);
                m = e2;
            },
        }
    }
    let k = match read_linesep(s, m, f) {
        None => {
            return None;
        },
        Some(k) => k,
    };
    if !expect(s, k, '}', "\"}\"", f) {
        return None;
    }
    Some((Brush { planes: out }, k + 1))
}

pub(crate) fn read_sep_brush(s: &Vec<char>, i: usize, f: &mut Failure) -> (r: Option<(Brush, usize)>)
    requires
        i <= s.len(),
        old(f).pos <= s.len(),
        old(f).wf(),
    ensures
        r matches Some((b, e)) ==> i < e <= s.len() && sep_brush(s@, i as int) == Some(
            (b@, e as int),
        ),
        r is None ==> sep_brush(s@, i as int) is None,
        final(f).pos <= s.len(),
        moved(*old(f), *final(f), sep_brush_far(s@, i as int), r is None),
{
    match read_linesep(s, i, f) {
        None => None,
        Some(j) => read_brush(s, j, f),
    }
}

pub(crate) fn read_brushes(s: &Vec<char>, i: usize, f: &mut Failure) -> (r: (Vec<Brush>, usize))
    requires
        i <= s.len(),
        old(f).pos <= s.len(),
        old(f).wf(),
    ensures
        i <= r.1 <= s.len(),
        brushes(s@, i as int) == (brushes_view(r.0@), r.1 as int),
        final(f).pos <= s.len(),
        moved(*old(f), *final(f), brushes_far(s@, i as int), false),
{
    let mut out: Vec<Brush> = Vec::new();
    let (b, e) = match read_brush(s, i, f) {
        None => {
            assert(brushes_view(out@) =~= seq![]);
            return (out, i);
        },
        Some(v) => v,
    };
    let ghost first = b@;
    out.push(b);
    let mut m: usize = e;
    assert(brushes_view(out@) =~= seq![first]);
    let ghost p0 = f.pos as int;
    let ghost x0 = f.expected.len() > 0;
    loop
        invariant
            i < e <= m <= s.len(),
            brushes_view(out@) + brushes_rest(s@, m as int).0 == seq![first] + brushes_rest(
                s@,
                e as int,
            ).0,
            brushes_rest(s@, m as int).1 == brushes_rest(s@, e as int).1,
            f.pos <= s.len(),
            mx(f.pos as int, brushes_rest_far(s@, m as int)) == mx(p0, brushes_rest_far(s@, e as int)),
            f.wf(),
            x0 ==> f.expected.len() > 0,
        ensures
            i < m <= s.len(),
            brushes_view(out@) == seq![first] + brushes_rest(s@, e as int).0,
            m == brushes_rest(s@, e as int).1,
            f.pos <= s.len(),
            f.pos == mx(p0, brushes_rest_far(s@, e as int)),
            f.wf(),
            x0 ==> f.expected.len() > 0,
        decreases s.len() - m,
    {
        match read_sep_brush(s, m, f) {
            None => {
                assert(brushes_view(out@) + seq![] =~= brushes_view(out@));
                break;
            },
            Some((b2, e2)) => {
                let ghost before = brushes_view(out@);
                let ghost rest = brushes_rest(s@, e2 as int).0;
                out.push(b2);
                assert(brushes_view(out@) =~= before.push(b2@));
                assert(before + (seq![b2@] + rest) =~= brushes_view(out@) + rest);
                m = e2;
            },
        }
    }
    (out, m)
}

pub(crate) fn read_entity(s: &Vec<char>, i: usize, f: &mut Failure) -> (r: Option<(Entity, usize)>)
    requires
        i <= s.len(),
        old(f).pos <= s.len(),
        old(f).wf(),
    ensures
        r matches Some((en, e)) ==> i < e <= s.len() && entity(s@, i as int) == Some(
            (en@, e as int),
        ),
        r is None ==> entity(s@, i as int) is None,
        final(f).pos <= s.len(),
        moved(*old(f), *final(f), entity_far(s@, i as int), r is None),
{
    if !expect(s, i, '{', "\"{\"", f) {
        return None;
    }
    let j = match read_linesep(s, i + 1, f) {
        None => {
            return None;
        },
        Some(j) => j,
    };
    let (pairs, e) = match read_keypair_list(s, j, f) {
        None => {
            return None;
        },
        Some(v) => v,
    };
    let k = match read_linesep(s, e, f) {
        None => {
            return None;
        },
        Some(k) => k,
    };
    let (bs, end) = read_brushes(s, k, f);
    let l = read_opt_linesep(s, end, f);
    if !expect(s, l, '}', "\"}\"", f) {
        return None;
    }
    Some((Entity { keys: KeyValues { pairs }, brushes: bs }, l + 1))
}

pub(crate) fn read_sep_entity(s: &Vec<char>, i: usize, f: &mut Failure) -> (r: Option<(Entity, usize)>)
    requires
        i <= s.len(),
        old(f).pos <= s.len(),
        old(f).wf(),
    ensures
        r matches Some((en, e)) ==> i < e <= s.len() && sep_entity(s@, i as int) == Some(
            (en@, e as int),
        ),
        r is None ==> sep_entity(s@, i as int) is None,
        final(f).pos <= s.len(),
        moved(*old(f), *final(f), sep_entity_far(s@, i as int), r is None),
{
    match read_linesep(s, i, f) {
        None => None,
        Some(j) => read_entity(s, j, f),
    }
}

pub(crate) fn read_document(s: &Vec<char>, f: &mut Failure) -> (r: Option<LevelMap>)
    requires
        old(f).pos <= s.len(),
        old(f).wf(),
    ensures
        r matches Some(m) ==> document(s@) == Some(m@),
        r is None ==> document(s@) is None,
        final(f).pos <= s.len(),
        moved(*old(f), *final(f), document_far(s@), r is None),
{
    let a = read_opt_linesep(s, 0, f);
    let (en, e) = match read_entity(s, a, f) {
        None => {
            return None;
        },
        Some(v) => v,
    };
    let ghost first = en@;
    let mut out: Vec<Entity> = Vec::new();
    out.push(en);
    let mut m: usize = e;
    assert(entities_view(out@) =~= seq![first]);
    let ghost p0 = f.pos as int;
    let ghost x0 = f.expected.len() > 0;
    loop
        invariant
            e <= m <= s.len(),
            entities_view(out@) + entities_rest(s@, m as int).0 == seq![first] + entities_rest(
                s@,
                e as int,
            ).0,
            entities_rest(s@, m as int).1 == entities_rest(s@, e as int).1,
            f.pos <= s.len(),
            mx(f.pos as int, entities_rest_far(s@, m as int)) == mx(p0, entities_rest_far(s@, e as int)),
            f.wf(),
            x0 ==> f.expected.len() > 0,
        ensures
            m <= s.len(),
            entities_view(out@) == seq![first] + entities_rest(s@, e as int).0,
            m == entities_rest(s@, e as int).1,
            f.pos <= s.len(),
            f.pos == mx(p0, entities_rest_far(s@, e as int)),
            f.wf(),
            x0 ==> f.expected.len() > 0,
        decreases s.len() - m,
    {
        match read_sep_entity(s, m, f) {
            None => {
                assert(entities_view(out@) + seq![] =~= entities_view(out@));
                break;
            },
            Some((en2, e2)) => {
                let ghost before = entities_view(out@);
                let ghost rest = entities_rest(s@, e2 as int).0;
                out.push(en2);
                assert(entities_view(out@) =~= before.push(en2@));
                assert(before + (seq![en2@] + rest) =~= entities_view(out@) + rest);
                m = e2;
            },
        }
    }
    let z = read_opt_linesep(s, m, f);
    if z != s.len() {
        note(f, z, "end of input");
        return None;
    }
    Some(LevelMap { entities: out })
}

} // verus!

//! The meaning of the level-source grammar, as functions from a text and a
//! start position to the value read and the position after it. Alternatives
//! are tried in order and repetitions are greedy, as in a PEG.
use vstd::prelude::*;
use crate::data::{EntityModel, PlaneModel, PointModel, TexModel, pairs_to_map};

verus! {

/// The classes of characters that the grammar repeats.
#[derive(Clone, Copy, PartialEq, Eq, Structural)]
pub enum CharClass {
    Digit,
    Space,
    /// Anything but a line break character.
    Inline,
    NotQuote,
    /// ASCII letters and `_`.
    TexChar,
}

impl CharClass {
    pub open spec fn has(self, c: char) -> bool {
        match self {
            CharClass::Digit => '0' <= c && c <= '9',
            CharClass::Space => c == ' ',
            CharClass::Inline => c != '\n' && c != '\r',
            CharClass::NotQuote => c != '"',
            CharClass::TexChar => ('a' <= c && c <= 'z') || ('A' <= c && c <= 'Z') || c == '_',
        }
    }
}

pub open spec fn at(s: Seq<char>, i: int, c: char) -> bool {
    0 <= i < s.len() && s[i] == c
}

/// The end of the longest run of characters of `cls` that starts at `i`.
pub open spec fn run_end(s: Seq<char>, i: int, cls: CharClass) -> int
    decreases s.len() - i,
{
    if 0 <= i < s.len() && cls.has(s[i]) {
        run_end(s, i + 1, cls)
    } else {
        i
    }
}

/// `"\n"` or `"\r\n"`.
pub open spec fn linebreak(s: Seq<char>, i: int) -> Option<int> {
    if at(s, i, '\n') {
        Some(i + 1)
    } else if at(s, i, '\r') && at(s, i + 1, '\n') {
        Some(i + 2)
    } else {
        None
    }
}

/// `//`, spaces, then every character up to a line break (possibly none).
pub open spec fn commentline(s: Seq<char>, i: int) -> Option<int> {
    if at(s, i, '/') && at(s, i + 1, '/') {
        let j = run_end(s, i + 2, CharClass::Space);
        Some(run_end(s, j, CharClass::Inline))
    } else {
        None
    }
}

/// One line break, comment line, space or tab.
pub open spec fn sep_item(s: Seq<char>, i: int) -> Option<int> {
    if linebreak(s, i) is Some {
        linebreak(s, i)
    } else if commentline(s, i) is Some {
        commentline(s, i)
    } else if at(s, i, ' ') || at(s, i, '\t') {
        Some(i + 1)
    } else {
        None
    }
}

/// Where a greedy run of separator items starting at `i` ends.
pub open spec fn sep_run(s: Seq<char>, i: int) -> int
    decreases s.len() - i,
{
    match sep_item(s, i) {
        Some(k) => if i < k <= s.len() {
            sep_run(s, k)
        } else {
            i
        },
        None => i,
    }
}

/// One or more separator items.
pub open spec fn linesep(s: Seq<char>, i: int) -> Option<int> {
    if sep_item(s, i) is Some {
        Some(sep_run(s, i))
    } else {
        None
    }
}

/// A separator if there is one, else nothing.
pub open spec fn opt_linesep(s: Seq<char>, i: int) -> int {
    match linesep(s, i) {
        Some(k) => k,
        None => i,
    }
}

/// `-`?, digits, then `.` and digits optionally; its text is `s[i..end]`.
pub open spec fn numeral(s: Seq<char>, i: int) -> Option<int> {
    let a = if at(s, i, '-') { i + 1 } else { i };
    let b = run_end(s, a, CharClass::Digit);
    if b == a {
        None
    } else if at(s, b, '.') {
        Some(run_end(s, b + 1, CharClass::Digit))
    } else {
        Some(b)
    }
}

/// A single space, then a numeral, whose text is `s[i + 1..end]`.
pub open spec fn spaced_numeral(s: Seq<char>, i: int) -> Option<int> {
    if at(s, i, ' ') {
        numeral(s, i + 1)
    } else {
        None
    }
}

/// `( x y z )`, spaced by exactly one space.
pub open spec fn point(s: Seq<char>, i: int) -> Option<(PointModel, int)> {
    if !at(s, i, '(') {
        None
    } else {
        match spaced_numeral(s, i + 1) {
            None => None,
            Some(e1) => match spaced_numeral(s, e1) {
                None => None,
                Some(e2) => match spaced_numeral(s, e2) {
                    None => None,
                    Some(e3) => if at(s, e3, ' ') && at(s, e3 + 1, ')') {
                        Some(
                            (
                                PointModel {
                                    x: s.subrange(i + 2, e1),
                                    y: s.subrange(e1 + 1, e2),
                                    z: s.subrange(e2 + 1, e3),
                                },
                                e3 + 2,
                            ),
                        )
                    } else {
                        None
                    },
                },
            },
        }
    }
}

/// A single space, then a point.
pub open spec fn spaced_point(s: Seq<char>, i: int) -> Option<(PointModel, int)> {
    if at(s, i, ' ') {
        point(s, i + 1)
    } else {
        None
    }
}

/// Five spaced numerals: offset x and y, rotation, scale x and y.
pub open spec fn tex_params(s: Seq<char>, i: int) -> Option<(TexModel, int)> {
    match spaced_numeral(s, i) {
        None => None,
        Some(e1) => match spaced_numeral(s, e1) {
            None => None,
            Some(e2) => match spaced_numeral(s, e2) {
                None => None,
                Some(e3) => match spaced_numeral(s, e3) {
                    None => None,
                    Some(e4) => match spaced_numeral(s, e4) {
                        None => None,
                        Some(e5) => Some(
                            (
                                TexModel {
                                    off_x: s.subrange(i + 1, e1),
                                    off_y: s.subrange(e1 + 1, e2),
                                    rot: s.subrange(e2 + 1, e3),
                                    scale_x: s.subrange(e3 + 1, e4),
                                    scale_y: s.subrange(e4 + 1, e5),
                                },
                                e5,
                            ),
                        ),
                    },
                },
            },
        },
    }
}

/// One face: three points, a texture name and its alignment, single-spaced.
pub open spec fn brushline(s: Seq<char>, i: int) -> Option<(PlaneModel, int)> {
    match point(s, i) {
        None => None,
        Some((p, e1)) => match spaced_point(s, e1) {
            None => None,
            Some((q, e2)) => match spaced_point(s, e2) {
                None => None,
                Some((r, e3)) => if !at(s, e3, ' ') {
                    None
                } else {
                    let t = run_end(s, e3 + 1, CharClass::TexChar);
                    if t == e3 + 1 {
                        None
                    } else {
                        match tex_params(s, t) {
                            None => None,
                            Some((tex, e)) => Some(
                                (PlaneModel { p, q, r, texname: s.subrange(e3 + 1, t), tex }, e),
                            ),
                        }
                    }
                },
            },
        },
    }
}

/// `"`, at least one character other than `"`, `"`; its content is
/// `s[i + 1..end - 1]`.
pub open spec fn quoted(s: Seq<char>, i: int) -> Option<int> {
    if at(s, i, '"') {
        let j = run_end(s, i + 1, CharClass::NotQuote);
        if j > i + 1 && at(s, j, '"') {
            Some(j + 1)
        } else {
            None
        }
    } else {
        None
    }
}

/// A quoted key, one or more spaces, a quoted value.
pub open spec fn keypair(s: Seq<char>, i: int) -> Option<((Seq<char>, Seq<char>), int)> {
    match quoted(s, i) {
        None => None,
        Some(e1) => {
            let j = run_end(s, e1, CharClass::Space);
            if j == e1 {
                None
            } else {
                match quoted(s, j) {
                    None => None,
                    Some(e2) => Some(((s.subrange(i + 1, e1 - 1), s.subrange(j + 1, e2 - 1)), e2)),
                }
            }
        },
    }
}

/// A separator, then a key/value pair.
pub open spec fn sep_keypair(s: Seq<char>, i: int) -> Option<((Seq<char>, Seq<char>), int)> {
    match linesep(s, i) {
        None => None,
        Some(j) => keypair(s, j),
    }
}

/// The further pairs after a first one, each after a separator; a separator
/// not followed by a pair is left unread.
pub open spec fn keypairs_rest(s: Seq<char>, i: int) -> (Seq<(Seq<char>, Seq<char>)>, int)
    decreases s.len() - i,
{
    match sep_keypair(s, i) {
        Some((kv, e)) => if i < e <= s.len() {
            let (rest, end) = keypairs_rest(s, e);
            (seq![kv] + rest, end)
        } else {
            (seq![], i)
        },
        None => (seq![], i),
    }
}

/// The pairs of a key block, in input order.
pub open spec fn keypair_list(s: Seq<char>, i: int) -> Option<(Seq<(Seq<char>, Seq<char>)>, int)> {
    match keypair(s, i) {
        None => None,
        Some((kv, e)) => Some((seq![kv] + keypairs_rest(s, e).0, keypairs_rest(s, e).1)),
    }
}

/// One or more pairs separated by separators, gathered into a mapping.
pub open spec fn keys(s: Seq<char>, i: int) -> Option<(Map<Seq<char>, Seq<char>>, int)> {
    match keypair_list(s, i) {
        None => None,
        Some((ps, e)) => Some((pairs_to_map(ps), e)),
    }
}

/// A separator, then a face.
pub open spec fn sep_brushline(s: Seq<char>, i: int) -> Option<(PlaneModel, int)> {
    match linesep(s, i) {
        None => None,
        Some(j) => brushline(s, j),
    }
}

pub open spec fn brushlines_rest(s: Seq<char>, i: int) -> (Seq<PlaneModel>, int)
    decreases s.len() - i,
{
    match sep_brushline(s, i) {
        Some((pl, e)) => if i < e <= s.len() {
            let (rest, end) = brushlines_rest(s, e);
            (seq![pl] + rest, end)
        } else {
            (seq![], i)
        },
        None => (seq![], i),
    }
}

/// `{`, a separator, one or more faces separated by separators, a
/// separator, `}`.
pub open spec fn brush(s: Seq<char>, i: int) -> Option<(Seq<PlaneModel>, int)> {
    if !at(s, i, '{') {
        None
    } else {
        match linesep(s, i + 1) {
            None => None,
            Some(j) => match brushline(s, j) {
                None => None,
                Some((pl, e)) => {
                    let (rest, end) = brushlines_rest(s, e);
                    match linesep(s, end) {
                        None => None,
                        Some(k) => if at(s, k, '}') {
                            Some((seq![pl] + rest, k + 1))
                        } else {
                            None
                        },
                    }
                },
            },
        }
    }
}

/// A separator, then a brush.
pub open spec fn sep_brush(s: Seq<char>, i: int) -> Option<(Seq<PlaneModel>, int)> {
    match linesep(s, i) {
        None => None,
        Some(j) => brush(s, j),
    }
}

pub open spec fn brushes_rest(s: Seq<char>, i: int) -> (Seq<Seq<PlaneModel>>, int)
    decreases s.len() - i,
{
    match sep_brush(s, i) {
        Some((b, e)) => if i < e <= s.len() {
            let (rest, end) = brushes_rest(s, e);
            (seq![b] + rest, end)
        } else {
            (seq![], i)
        },
        None => (seq![], i),
    }
}

/// Zero or more brushes separated by separators.
pub open spec fn brushes(s: Seq<char>, i: int) -> (Seq<Seq<PlaneModel>>, int) {
    match brush(s, i) {
        None => (seq![], i),
        Some((b, e)) => (seq![b] + brushes_rest(s, e).0, brushes_rest(s, e).1),
    }
}

/// `{`, a separator, a key block, a separator, zero or more brushes, an
/// optional separator, `}`.
pub open spec fn entity(s: Seq<char>, i: int) -> Option<(EntityModel, int)> {
    if !at(s, i, '{') {
        None
    } else {
        match linesep(s, i + 1) {
            None => None,
            Some(j) => match keys(s, j) {
                None => None,
                Some((m, e)) => match linesep(s, e) {
                    None => None,
                    Some(k) => {
                        let (bs, end) = brushes(s, k);
                        let l = opt_linesep(s, end);
                        if at(s, l, '}') {
                            Some((EntityModel { keys: m, brushes: bs }, l + 1))
                        } else {
                            None
                        }
                    },
                },
            },
        }
    }
}

/// A separator, then an entity.
pub open spec fn sep_entity(s: Seq<char>, i: int) -> Option<(EntityModel, int)> {
    match linesep(s, i) {
        None => None,
        Some(j) => entity(s, j),
    }
}

pub open spec fn entities_rest(s: Seq<char>, i: int) -> (Seq<EntityModel>, int)
    decreases s.len() - i,
{
    match sep_entity(s, i) {
        Some((en, e)) => if i < e <= s.len() {
            let (rest, end) = entities_rest(s, e);
            (seq![en] + rest, end)
        } else {
            (seq![], i)
        },
        None => (seq![], i),
    }
}

/// A whole document: an optional separator, one or more entities separated
/// by separators, an optional separator, and nothing after it.
pub open spec fn document(s: Seq<char>) -> Option<Seq<EntityModel>> {
    let a = opt_linesep(s, 0);
    match entity(s, a) {
        None => None,
        Some((en, e)) => {
            let (rest, end) = entities_rest(s, e);
            if opt_linesep(s, end) == s.len() {
                Some(seq![en] + rest)
            } else {
                None
            }
        },
    }
}

/// The larger of two positions.
pub open spec fn mx(a: int, b: int) -> int {
    if a >= b { a } else { b }
}

// Where a rule that fails stops. Each `*_far` function gives the furthest
// position at which reading the rule found a character it could not take
// (0 where there is none); the readers report that position on failure.

pub open spec fn sep_item_far(s: Seq<char>, i: int) -> int {
    if sep_item(s, i) is Some { 0 } else { i }
}

/// A separator run stops at the first character that continues no
/// separator.
pub open spec fn linesep_far(s: Seq<char>, i: int) -> int {
    opt_linesep(s, i)
}

pub open spec fn numeral_far(s: Seq<char>, i: int) -> int {
    if numeral(s, i) is Some { 0 } else { i }
}

pub open spec fn spaced_numeral_far(s: Seq<char>, i: int) -> int {
    if !at(s, i, ' ') { i } else { numeral_far(s, i + 1) }
}

pub open spec fn point_far(s: Seq<char>, i: int) -> int {
    if !at(s, i, '(') {
        i
    } else {
        match spaced_numeral(s, i + 1) {
            None => spaced_numeral_far(s, i + 1),
            Some(e1) => match spaced_numeral(s, e1) {
                None => spaced_numeral_far(s, e1),
                Some(e2) => match spaced_numeral(s, e2) {
                    None => spaced_numeral_far(s, e2),
                    Some(e3) => if !at(s, e3, ' ') {
                        e3
                    } else if !at(s, e3 + 1, ')') {
                        e3 + 1
                    } else {
                        0
                    },
                },
            },
        }
    }
}

pub open spec fn spaced_point_far(s: Seq<char>, i: int) -> int {
    if !at(s, i, ' ') { i } else { point_far(s, i + 1) }
}

pub open spec fn tex_params_far(s: Seq<char>, i: int) -> int {
    match spaced_numeral(s, i) {
        None => spaced_numeral_far(s, i),
        Some(e1) => match spaced_numeral(s, e1) {
            None => spaced_numeral_far(s, e1),
            Some(e2) => match spaced_numeral(s, e2) {
                None => spaced_numeral_far(s, e2),
                Some(e3) => match spaced_numeral(s, e3) {
                    None => spaced_numeral_far(s, e3),
                    Some(e4) => spaced_numeral_far(s, e4),
                },
            },
        },
    }
}

pub open spec fn brushline_far(s: Seq<char>, i: int) -> int {
    match point(s, i) {
        None => point_far(s, i),
        Some((_, e1)) => match spaced_point(s, e1) {
            None => spaced_point_far(s, e1),
            Some((_, e2)) => match spaced_point(s, e2) {
                None => spaced_point_far(s, e2),
                Some((_, e3)) => if !at(s, e3, ' ') {
                    e3
                } else {
                    let t = run_end(s, e3 + 1, CharClass::TexChar);
                    if t == e3 + 1 { t } else { tex_params_far(s, t) }
                },
            },
        },
    }
}

pub open spec fn quoted_far(s: Seq<char>, i: int) -> int {
    if !at(s, i, '"') {
        i
    } else {
        let j = run_end(s, i + 1, CharClass::NotQuote);
        if j == i + 1 || !at(s, j, '"') { j } else { 0 }
    }
}

pub open spec fn keypair_far(s: Seq<char>, i: int) -> int {
    match quoted(s, i) {
        None => quoted_far(s, i),
        Some(e1) => {
            let j = run_end(s, e1, CharClass::Space);
            if j == e1 { j } else { quoted_far(s, j) }
        },
    }
}

pub open spec fn sep_keypair_far(s: Seq<char>, i: int) -> int {
    match linesep(s, i) {
        None => i,
        Some(j) => mx(j, keypair_far(s, j)),
    }
}

pub open spec fn keypairs_rest_far(s: Seq<char>, i: int) -> int
    decreases s.len() - i,
{
    match sep_keypair(s, i) {
        Some((_, e)) => if i < e <= s.len() {
            mx(sep_keypair_far(s, i), keypairs_rest_far(s, e))
        } else {
            sep_keypair_far(s, i)
        },
        None => sep_keypair_far(s, i),
    }
}

pub open spec fn keypair_list_far(s: Seq<char>, i: int) -> int {
    match keypair(s, i) {
        None => keypair_far(s, i),
        Some((_, e)) => keypairs_rest_far(s, e),
    }
}

pub open spec fn sep_brushline_far(s: Seq<char>, i: int) -> int {
    match linesep(s, i) {
        None => i,
        Some(j) => mx(j, brushline_far(s, j)),
    }
}

pub open spec fn brushlines_rest_far(s: Seq<char>, i: int) -> int
    decreases s.len() - i,
{
    match sep_brushline(s, i) {
        Some((_, e)) => if i < e <= s.len() {
            mx(sep_brushline_far(s, i), brushlines_rest_far(s, e))
        } else {
            sep_brushline_far(s, i)
        },
        None => sep_brushline_far(s, i),
    }
}

pub open spec fn brush_far(s: Seq<char>, i: int) -> int {
    if !at(s, i, '{') {
        i
    } else {
        match linesep(s, i + 1) {
            None => i + 1,
            Some(j) => match brushline(s, j) {
                None => mx(j, brushline_far(s, j)),
                Some((_, e)) => mx(
                    mx(j, brushlines_rest_far(s, e)),
                    opt_linesep(s, brushlines_rest(s, e).1),
                ),
            },
        }
    }
}

pub open spec fn sep_brush_far(s: Seq<char>, i: int) -> int {
    match linesep(s, i) {
        None => i,
        Some(j) => mx(j, brush_far(s, j)),
    }
}

pub open spec fn brushes_rest_far(s: Seq<char>, i: int) -> int
    decreases s.len() - i,
{
    match sep_brush(s, i) {
        Some((_, e)) => if i < e <= s.len() {
            mx(sep_brush_far(s, i), brushes_rest_far(s, e))
        } else {
            sep_brush_far(s, i)
        },
        None => sep_brush_far(s, i),
    }
}

pub open spec fn brushes_far(s: Seq<char>, i: int) -> int {
    match brush(s, i) {
        None => brush_far(s, i),
        Some((_, e)) => mx(brush_far(s, i), brushes_rest_far(s, e)),
    }
}

pub open spec fn entity_far(s: Seq<char>, i: int) -> int {
    if !at(s, i, '{') {
        i
    } else {
        match linesep(s, i + 1) {
            None => i + 1,
            Some(j) => {
                let a = mx(j, keypair_list_far(s, j));
                match keypair_list(s, j) {
                    None => a,
                    Some((_, e)) => match linesep(s, e) {
                        None => mx(a, e),
                        Some(k) => mx(
                            mx(mx(a, k), brushes_far(s, k)),
                            opt_linesep(s, brushes(s, k).1),
                        ),
                    },
                }
            },
        }
    }
}

pub open spec fn sep_entity_far(s: Seq<char>, i: int) -> int {
    match linesep(s, i) {
        None => i,
        Some(j) => mx(j, entity_far(s, j)),
    }
}

pub open spec fn entities_rest_far(s: Seq<char>, i: int) -> int
    decreases s.len() - i,
{
    match sep_entity(s, i) {
        Some((_, e)) => if i < e <= s.len() {
            mx(sep_entity_far(s, i), entities_rest_far(s, e))
        } else {
            sep_entity_far(s, i)
        },
        None => sep_entity_far(s, i),
    }
}

/// Where reading a whole document fails, when it does.
pub open spec fn document_far(s: Seq<char>) -> int {
    let a = opt_linesep(s, 0);
    let b = mx(a, entity_far(s, a));
    match entity(s, a) {
        None => b,
        Some((_, e)) => mx(mx(b, entities_rest_far(s, e)), opt_linesep(s, entities_rest(s, e).1)),
    }
}

/// Where reading a rule as the whole text fails: the rule's own furthest
/// failure `far`, or the end of what it read when text is left after it.
pub open spec fn whole_far<V>(r: Option<(V, int)>, far: int, n: int) -> int {
    match r {
        Some((_, e)) => if e == n { mx(0, far) } else { mx(mx(0, far), e) },
        None => mx(0, far),
    }
}

} // verus!

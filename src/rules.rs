//! Entry points that read a whole text as one grammar rule: the rule must
//! match from the first character to the last.
use vstd::prelude::*;
use crate::data::{Brush, BrushPlane, Entity, KeyValues, LevelMap, Point3, pair_view, pairs_view};
use crate::grammar;
use crate::grammar::{mx, whole_far};
use crate::parser::{
    Failure, moved, note, read_brush, read_brushline, read_document, read_entity, read_keypair,
    read_keypair_list, read_linesep, read_point,
};
use crate::text::{chars_of, column_of, line_col, line_of};

verus! {

/// Why a text was not accepted: the furthest position that a rule reached
/// before failing, where it stands, and what would have been accepted there.
#[derive(Debug)]
pub struct ParseError {
    /// Position in characters from the start of the text.
    pub offset: usize,
    /// 1-based line of `offset`.
    pub line: usize,
    /// 1-based column of `offset`, in characters.
    pub column: usize,
    /// Descriptions of what was expected at `offset`.
    pub expected: Vec<&'static str>,
}

impl ParseError {
    /// The error points into `s`, and its line and column are those of its
    /// offset (where the text is short enough to count them).
    pub open spec fn locates(&self, s: Seq<char>) -> bool {
        &&& self.offset <= s.len()
        &&& s.len() < usize::MAX ==> self.line == line_of(s, self.offset as int) && self.column
            == column_of(s, self.offset as int)
    }
}

/// A rule's result that ends exactly at the end of the text.
pub open spec fn whole<V>(r: Option<(V, int)>, s: Seq<char>) -> bool {
    r matches Some((_, e)) && e == s.len()
}

fn error_at(s: &Vec<char>, f: Failure) -> (r: ParseError)
    requires
        f.pos <= s.len(),
    ensures
        r.locates(s@),
        r.offset == f.pos,
        r.expected@ == f.expected@,
{
    let (line, column) = if f.pos < usize::MAX {
        line_col(s, f.pos)
    } else {
        (0, 0)
    };
    ParseError { offset: f.pos, line, column, expected: f.expected }
}

/// Records that the text should have ended at `e`.
fn expect_end(s: &Vec<char>, e: usize, f: &mut Failure) -> (r: bool)
    requires
        e <= s.len(),
        old(f).pos <= s.len(),
        old(f).wf(),
    ensures
        r == (e == s.len()),
        final(f).pos <= s.len(),
        moved(*old(f), *final(f), if r { 0 } else { e as int }, !r),
{
    if e == s.len() {
        true
    } else {
        note(f, e, "EOF");
        false
    }
}

/// Reads one or more line separators: line breaks, comment lines, spaces
/// and tabs.
pub fn linesep(input: &str) -> (r: Result<(), ParseError>)
    ensures
        r is Ok <==> grammar::linesep(input@, 0) == Some(input@.len() as int),
        r matches Err(e) ==> e.locates(input@) && e.expected@.len() > 0 && e.offset == mx(0, grammar::linesep_far(input@, 0)),
{
    let s = chars_of(input);
    let mut f = Failure { pos: 0, expected: Vec::new() };
    if let Some(e) = read_linesep(&s, 0, &mut f) {
        if expect_end(&s, e, &mut f) {
            return Ok(());
        }
    }
    Err(error_at(&s, f))
}

/// Reads a point literal `( x y z )`.
pub fn point(input: &str) -> (r: Result<Point3, ParseError>)
    ensures
        r is Ok <==> whole(grammar::point(input@, 0), input@),
        r matches Ok(p) ==> grammar::point(input@, 0) == Some((p@, input@.len() as int)),
        r matches Err(e) ==> e.locates(input@) && e.expected@.len() > 0 && e.offset == whole_far(grammar::point(input@, 0), grammar::point_far(input@, 0), input@.len() as int),
{
    let s = chars_of(input);
    let mut f = Failure { pos: 0, expected: Vec::new() };
    if let Some((v, e)) = read_point(&s, 0, &mut f) {
        if expect_end(&s, e, &mut f) {
            return Ok(v);
        }
    }
    Err(error_at(&s, f))
}

/// Reads one `"key" "value"` pair.
pub fn keypair(input: &str) -> (r: Result<(String, String), ParseError>)
    ensures
        r is Ok <==> whole(grammar::keypair(input@, 0), input@),
        r matches Ok(kv) ==> grammar::keypair(input@, 0) == Some(
            (pair_view(kv), input@.len() as int),
        ),
        r matches Err(e) ==> e.locates(input@) && e.expected@.len() > 0 && e.offset == whole_far(grammar::keypair(input@, 0), grammar::keypair_far(input@, 0), input@.len() as int),
{
    let s = chars_of(input);
    let mut f = Failure { pos: 0, expected: Vec::new() };
    if let Some((v, e)) = read_keypair(&s, 0, &mut f) {
        if expect_end(&s, e, &mut f) {
            return Ok(v);
        }
    }
    Err(error_at(&s, f))
}

/// Reads a block of key/value pairs separated by line separators. A later
/// pair overrides an earlier one with the same key.
pub fn keys(input: &str) -> (r: Result<KeyValues, ParseError>)
    ensures
        r is Ok <==> whole(grammar::keys(input@, 0), input@),
        r matches Ok(kv) ==> grammar::keypair_list(input@, 0) == Some(
            (kv.pair_seq(), input@.len() as int),
        ) && grammar::keys(input@, 0) == Some((kv@, input@.len() as int)),
        r matches Err(e) ==> e.locates(input@) && e.expected@.len() > 0 && e.offset == whole_far(grammar::keypair_list(input@, 0), grammar::keypair_list_far(input@, 0), input@.len() as int),
{
    let s = chars_of(input);
    let mut f = Failure { pos: 0, expected: Vec::new() };
    if let Some((pairs, e)) = read_keypair_list(&s, 0, &mut f) {
        if expect_end(&s, e, &mut f) {
            return Ok(KeyValues { pairs });
        }
    }
    Err(error_at(&s, f))
}

/// Reads one face line of a brush.
pub fn brushline(input: &str) -> (r: Result<BrushPlane, ParseError>)
    ensures
        r is Ok <==> whole(grammar::brushline(input@, 0), input@),
        r matches Ok(pl) ==> grammar::brushline(input@, 0) == Some((pl@, input@.len() as int)),
        r matches Err(e) ==> e.locates(input@) && e.expected@.len() > 0 && e.offset == whole_far(grammar::brushline(input@, 0), grammar::brushline_far(input@, 0), input@.len() as int),
{
    let s = chars_of(input);
    let mut f = Failure { pos: 0, expected: Vec::new() };
    if let Some((v, e)) = read_brushline(&s, 0, &mut f) {
        if expect_end(&s, e, &mut f) {
            return Ok(v);
        }
    }
    Err(error_at(&s, f))
}

/// Reads a brace-delimited brush of one or more faces.
pub fn brush(input: &str) -> (r: Result<Brush, ParseError>)
    ensures
        r is Ok <==> whole(grammar::brush(input@, 0), input@),
        r matches Ok(b) ==> grammar::brush(input@, 0) == Some((b@, input@.len() as int)),
        r matches Err(e) ==> e.locates(input@) && e.expected@.len() > 0 && e.offset == whole_far(grammar::brush(input@, 0), grammar::brush_far(input@, 0), input@.len() as int),
{
    let s = chars_of(input);
    let mut f = Failure { pos: 0, expected: Vec::new() };
    if let Some((v, e)) = read_brush(&s, 0, &mut f) {
        if expect_end(&s, e, &mut f) {
            return Ok(v);
        }
    }
    Err(error_at(&s, f))
}

/// Reads a brace-delimited entity: its key block, then zero or more brushes.
pub fn entity(input: &str) -> (r: Result<Entity, ParseError>)
    ensures
        r is Ok <==> whole(grammar::entity(input@, 0), input@),
        r matches Ok(en) ==> grammar::entity(input@, 0) == Some((en@, input@.len() as int)),
        r matches Err(e) ==> e.locates(input@) && e.expected@.len() > 0 && e.offset == whole_far(grammar::entity(input@, 0), grammar::entity_far(input@, 0), input@.len() as int),
{
    let s = chars_of(input);
    let mut f = Failure { pos: 0, expected: Vec::new() };
    if let Some((v, e)) = read_entity(&s, 0, &mut f) {
        if expect_end(&s, e, &mut f) {
            return Ok(v);
        }
    }
    Err(error_at(&s, f))
}

/// Reads a whole level source: its entities, with separators and comment
/// lines before, between and after them.
pub fn parse(input: &str) -> (r: Result<LevelMap, ParseError>)
    ensures
        r is Ok <==> grammar::document(input@) is Some,
        r matches Ok(m) ==> grammar::document(input@) == Some(m@),
        r matches Err(e) ==> e.locates(input@) && e.expected@.len() > 0 && e.offset == mx(0, grammar::document_far(input@)),
{
    let s = chars_of(input);
    let mut f = Failure { pos: 0, expected: Vec::new() };
    match read_document(&s, &mut f) {
        Some(m) => Ok(m),
        None => Err(error_at(&s, f)),
    }
}

} // verus!

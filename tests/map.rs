use petratools::data::Point3;
use petratools::rules;

fn coords(p: &Point3) -> (f32, f32, f32) {
    (
        p.x.text.parse::<f32>().unwrap(),
        p.y.text.parse::<f32>().unwrap(),
        p.z.text.parse::<f32>().unwrap(),
    )
}

fn num(t: &str) -> f32 {
    t.parse::<f32>().unwrap()
}

const CUBE: &str = "{
( -16 0 -48 ) ( -16 1 -48 ) ( -16 0 -47 ) __TB_empty 0 0 0 1 1
( -16 0 -48 ) ( -16 0 -47 ) ( -15 0 -48 ) __TB_empty 0 0 0 1 1
( -16 0 -48 ) ( -15 0 -48 ) ( -16 1 -48 ) __TB_empty 0 0 0 1 1
( 80 80 -32 ) ( 80 81 -32 ) ( 81 80 -32 ) __TB_empty 0 0 0 1 1
( 80 96 -32 ) ( 81 96 -32 ) ( 80 96 -31 ) __TB_empty 0 0 0 1 1
( 80 80 -32 ) ( 80 80 -31 ) ( 80 81 -32 ) __TB_empty 0 0 0 1 1
}";

const FULL: &str = r#"// Game: Quake
// Format: Valve
// entity 0
{
"mapversion" "220"
"classname" "worldspawn"
// brush 0
{
( -64 -64 -16 ) ( -64 -63 -16 ) ( -64 -64 -15 ) __TB_empty 0 0 0 1 1
( -64 -64 -16 ) ( -64 -64 -15 ) ( -63 -64 -16 ) __TB_empty 0 0 0 1 1
( -64 -64 -16 ) ( -63 -64 -16 ) ( -64 -63 -16 ) __TB_empty 0 0 0 1 1
( 64 64 16 ) ( 64 65 16 ) ( 65 64 16 ) __TB_empty 0 0 0 1 1
( 64 64 16 ) ( 65 64 16 ) ( 64 64 17 ) __TB_empty 0 0 0 1 1
( 64 64 16 ) ( 64 64 17 ) ( 64 65 16 ) __TB_empty 0 0 0 1 1
}
// brush 1
{
( -16 0 -16 ) ( -16 1 -16 ) ( -16 0 -15 ) __TB_empty 0 0 0 1 1
( -16 0 -16 ) ( -16 0 -15 ) ( -15 0 -16 ) __TB_empty 0 0 0 1 1
( -16 0 -16 ) ( -15 0 -16 ) ( -16 1 -16 ) __TB_empty 0 0 0 1 1
( 80 80 0 ) ( 80 81 0 ) ( 81 80 0 ) __TB_empty 0 0 0 1 1
( 80 96 0 ) ( 81 96 0 ) ( 80 96 1 ) __TB_empty 0 0 0 1 1
( 80 80 0 ) ( 80 80 1 ) ( 80 81 0 ) __TB_empty 0 0 0 1 1
}
}
// entity 1
{
"classname" "monster_dog"
"origin" "-16 -32 40"
"angle" "50"
}
// entity 2
{
"classname" "weapon_supershotgun"
"origin" "48 -32 16"
"angle" "270"
}"#;

#[test]
fn keypair() {
    let x = rules::keypair("\"k\" \"v\"");
    assert_eq!(x.unwrap(), ("k".to_owned(), "v".to_owned()));
}

#[test]
fn linesep() {
    let x = rules::linesep("\n    ");
    assert!(x.is_ok());
}

#[test]
fn keys() {
    let inp = r#""spawnflags" "0"
"classname" "worldspawn"
"wad" "E:\q1maps\Q.wad""#;

    let x = rules::keys(inp).unwrap();
    assert_eq!(x.get("classname").unwrap(), "worldspawn");
    assert_eq!(x.get("wad").unwrap(), "E:\\q1maps\\Q.wad");
    assert_eq!(x.get("spawnflags").unwrap(), "0");
}

#[test]
fn brushline() {
    let inp = "( -64 -64 -16 ) ( -64 -63 -16 ) ( -64 -64 -15 ) __TB_empty 0 0 0 1 1";
    let x = rules::brushline(inp).unwrap();
    assert_eq!(coords(&x.p), (-64., -64., -16.));
    assert_eq!(coords(&x.q), (-64., -63., -16.));
    assert_eq!(coords(&x.r), (-64., -64., -15.));
    assert_eq!(x.texname, "__TB_empty");
    assert_eq!((num(&x.texparams.off.x.text), num(&x.texparams.off.y.text)), (0., 0.));
    assert_eq!((num(&x.texparams.scale.x.text), num(&x.texparams.scale.y.text)), (1., 1.));
    assert_eq!(num(&x.texparams.rot.text), 0.);
}

#[test]
fn brush() {
    let x = rules::brush(CUBE).unwrap();
    assert_eq!(coords(&x.planes[0].q), (-16., 1., -48.));
    assert_eq!(coords(&x.planes[3].r), (81., 80., -32.));
    assert_eq!(coords(&x.planes[5].p), (80., 80., -32.));
}

#[test]
fn entity() {
    let inp = format!("{{\n\"classname\" \"worldspawn\"\n{}\n}}", CUBE);
    let x = rules::entity(&inp).unwrap();
    assert_eq!(x.keys.get("classname").unwrap(), "worldspawn");
    let brush = &x.brushes[0];
    assert_eq!(coords(&brush.planes[0].q), (-16., 1., -48.));
    assert_eq!(coords(&brush.planes[3].r), (81., 80., -32.));
    assert_eq!(coords(&brush.planes[5].p), (80., 80., -32.));

    let inp = r#"{
"classname" "monster_dog"
"origin" "-16 -32 40"
"angle" "50"
}"#;
    let x = rules::entity(inp).unwrap();
    assert_eq!(x.keys.get("classname").unwrap(), "monster_dog");
    assert_eq!(x.keys.get("origin").unwrap(), "-16 -32 40");
    assert_eq!(x.keys.get("angle").unwrap(), "50");
}

#[test]
fn fullmap() {
    let map = rules::parse(FULL).unwrap();
    assert_eq!(map.entities[0].keys.get("mapversion").unwrap(), "220");
    assert_eq!(coords(&map.entities[0].brushes[1].planes[0].p), (-16., 0., -16.));
    assert_eq!(map.entities[2].keys.get("classname").unwrap(), "weapon_supershotgun");
    assert_eq!(map.entities[2].keys.get("origin").unwrap(), "48 -32 16");
}

#[test]
fn point_literal_values() {
    let p = rules::point("( 1.5 -2 3. )").unwrap();
    assert_eq!(p.x.text, "1.5");
    assert_eq!(p.y.text, "-2");
    assert_eq!(p.z.text, "3.");
    assert_eq!(coords(&p), (1.5, -2., 3.));
}

#[test]
fn point_needs_single_spaces() {
    assert!(rules::point("(  1 2 3 )").is_err());
    assert!(rules::point("( 1 2  3 )").is_err());
    assert!(rules::point("( 1 2 3)").is_err());
}

#[test]
fn point_missing_paren_fails_at_end() {
    let inp = "( 1 2 3 ";
    let e = rules::point(inp).unwrap_err();
    assert!(e.offset <= inp.chars().count());
    assert_eq!(e.offset, 8);
    assert_eq!(e.line, 1);
    assert_eq!(e.column, 9);
    assert!(!e.expected.is_empty());
}

#[test]
fn numeral_rejects_bare_point() {
    assert!(rules::point("( .5 2 3 )").is_err());
    assert!(rules::point("( - 2 3 )").is_err());
}

#[test]
fn keypair_classname() {
    let (k, v) = rules::keypair("\"classname\" \"worldspawn\"").unwrap();
    assert_eq!(k, "classname");
    assert_eq!(v, "worldspawn");
}

#[test]
fn keypair_several_spaces_and_empty_value() {
    assert_eq!(rules::keypair("\"a\"    \"b c\"").unwrap(), ("a".to_owned(), "b c".to_owned()));
    assert!(rules::keypair("\"a\" \"\"").is_err());
    assert!(rules::keypair("\"a\"\"b\"").is_err());
}

#[test]
fn keys_any_order() {
    let a = rules::keys("\"x\" \"1\"\n\"y\" \"2\"").unwrap();
    let b = rules::keys("\"y\" \"2\"\n\"x\" \"1\"").unwrap();
    for m in [&a, &b] {
        assert_eq!(m.get("x").unwrap(), "1");
        assert_eq!(m.get("y").unwrap(), "2");
        assert!(m.get("z").is_none());
    }
}

#[test]
fn keys_later_duplicate_wins() {
    let m = rules::keys("\"k\" \"first\"\r\n\"k\" \"second\"").unwrap();
    assert_eq!(m.get("k").unwrap(), "second");
}

#[test]
fn brushline_rejects_digit_in_texture() {
    let inp = "( 0 0 0 ) ( 1 0 0 ) ( 0 1 0 ) tex1 0 0 0 1 1";
    assert!(rules::brushline(inp).is_err());
    assert!(rules::brushline("( 0 0 0 ) ( 1 0 0 ) ( 0 1 0 ) tex 0 0 0 1").is_err());
}

#[test]
fn cube_brush_has_six_planes_in_order() {
    let b = rules::brush(CUBE).unwrap();
    assert_eq!(b.planes.len(), 6);
    assert_eq!(coords(&b.planes[0].p), (-16., 0., -48.));
    assert_eq!(coords(&b.planes[1].q), (-16., 0., -47.));
    assert_eq!(coords(&b.planes[4].q), (81., 96., -32.));
}

#[test]
fn empty_brush_is_rejected() {
    assert!(rules::brush("{\n}").is_err());
}

#[test]
fn point_entity_has_no_brushes() {
    let inp = "{\n\"classname\" \"monster_dog\"\n\"origin\" \"-16 -32 40\"\n\"angle\" \"50\"\n}";
    let x = rules::entity(inp).unwrap();
    assert!(x.brushes.is_empty());
    assert_eq!(x.keys.get("origin").unwrap(), "-16 -32 40");
}

#[test]
fn comments_do_not_change_the_tree() {
    let stripped: String = FULL
        .lines()
        .filter(|l| !l.starts_with("//"))
        .collect::<Vec<_>>()
        .join("\n");
    let a = rules::parse(FULL).unwrap();
    let b = rules::parse(&stripped).unwrap();
    assert_eq!(format!("{:?}", a), format!("{:?}", b));
    assert_eq!(a.entities.len(), 3);
}

#[test]
fn bare_comment_lines_are_separators() {
    let plain = "{\n\"a\" \"b\"\n}";
    let commented = "//\n{\n\"a\" \"b\"\n//\n// \n}\n//";
    let a = rules::parse(plain).unwrap();
    let b = rules::parse(commented).unwrap();
    assert_eq!(format!("{:?}", a), format!("{:?}", b));
}

#[test]
fn trailing_garbage_is_an_error() {
    let inp = format!("{}\nx", FULL);
    let e = rules::parse(&inp).unwrap_err();
    assert_eq!(e.line, 38);
    assert_eq!(e.column, 1);
}

#[test]
fn empty_document_is_an_error() {
    assert!(rules::parse("").is_err());
    assert!(rules::parse("\n// nothing\n").is_err());
}

#[test]
fn linesep_needs_something() {
    assert!(rules::linesep("").is_err());
    assert!(rules::linesep("// c\r\n\t ").is_ok());
    assert!(rules::linesep("//\n").is_ok());
    assert!(rules::linesep("// \n").is_ok());
    assert!(rules::linesep("/\n").is_err());
}

#[test]
fn unclosed_point_in_document_fails_where_paren_belongs() {
    let inp = "{\n\"classname\" \"worldspawn\"\n{\n( 0 0 0 ( 1 0 0 ) ( 0 1 0 ) t 0 0 0 1 1\n}\n}";
    let e = rules::parse(inp).unwrap_err();
    let o = inp.find("0 ( 1").unwrap() + 2;
    assert_eq!(e.offset, o);
    assert_eq!((e.line, e.column), (4, 9));
    assert!(!e.expected.is_empty());
    let again = rules::parse(inp).unwrap_err();
    assert_eq!((again.offset, again.line, again.column), (e.offset, e.line, e.column));
    assert_eq!(again.expected, e.expected);
}

#[test]
fn entity_keys_any_line_order_in_document() {
    let a = rules::parse("{\n\"classname\" \"light\"\n\"wad\" \"E:\\q\\Q.wad\"\n\"angle\" \"90\"\n}").unwrap();
    let b = rules::parse("{\n\"angle\" \"90\"\n\"classname\" \"light\"\n\"wad\" \"E:\\q\\Q.wad\"\n}").unwrap();
    for m in [&a, &b] {
        assert_eq!(m.entities.len(), 1);
        assert!(m.entities[0].brushes.is_empty());
        let k = &m.entities[0].keys;
        assert_eq!(k.get("classname").unwrap(), "light");
        assert_eq!(k.get("wad").unwrap(), "E:\\q\\Q.wad");
        assert_eq!(k.get("angle").unwrap(), "90");
    }
}

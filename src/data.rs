use vstd::prelude::*;
use crate::text::{chars_of, same_text};

verus! {

/// A decimal numeral as written in the source: optional `-`, digits, and an
/// optional `.` followed by digits. It is kept as text; turning it into a
/// machine float is left to the consumer.
#[derive(Debug)]
pub struct Numeral {
    pub text: String,
}

impl View for Numeral {
    type V = Seq<char>;

    open spec fn view(&self) -> Seq<char> {
        self.text@
    }
}

/// A point in space, one numeral per axis.
#[derive(Debug)]
pub struct Point3 {
    pub x: Numeral,
    pub y: Numeral,
    pub z: Numeral,
}

/// A two-component vector of numerals.
#[derive(Debug)]
pub struct Vec2 {
    pub x: Numeral,
    pub y: Numeral,
}

/// Texture alignment of one face: offset, rotation in degrees, and scale.
#[derive(Debug)]
pub struct TexParams {
    pub off: Vec2,
    pub rot: Numeral,
    pub scale: Vec2,
}

/// One face of a brush: three points spanning its plane, a texture name
/// and the texture's alignment.
#[derive(Debug)]
pub struct BrushPlane {
    pub p: Point3,
    pub q: Point3,
    pub r: Point3,
    pub texname: String,
    pub texparams: TexParams,
}

/// A convex solid, given by its faces in input order.
#[derive(Debug)]
pub struct Brush {
    pub planes: Vec<BrushPlane>,
}

/// The properties of an entity, as the pairs were read. A key that occurs
/// more than once takes the value of its last occurrence.
#[derive(Debug)]
pub struct KeyValues {
    pub pairs: Vec<(String, String)>,
}

/// A map object: its properties and its brushes (none for a point entity).
#[derive(Debug)]
pub struct Entity {
    pub keys: KeyValues,
    pub brushes: Vec<Brush>,
}

/// A whole level source: its entities in input order.
#[derive(Debug)]
pub struct LevelMap {
    pub entities: Vec<Entity>,
}

/// The three coordinates of a point, as text.
pub struct PointModel {
    pub x: Seq<char>,
    pub y: Seq<char>,
    pub z: Seq<char>,
}

/// The texture alignment of a face, as text.
pub struct TexModel {
    pub off_x: Seq<char>,
    pub off_y: Seq<char>,
    pub rot: Seq<char>,
    pub scale_x: Seq<char>,
    pub scale_y: Seq<char>,
}

/// The abstract value of a face.
pub struct PlaneModel {
    pub p: PointModel,
    pub q: PointModel,
    pub r: PointModel,
    pub texname: Seq<char>,
    pub tex: TexModel,
}

/// The abstract value of an entity.
pub struct EntityModel {
    pub keys: Map<Seq<char>, Seq<char>>,
    pub brushes: Seq<Seq<PlaneModel>>,
}

/// The mapping that a list of pairs builds when they are inserted in order.
pub open spec fn pairs_to_map(ps: Seq<(Seq<char>, Seq<char>)>) -> Map<Seq<char>, Seq<char>>
    decreases ps.len(),
{
    if ps.len() == 0 {
        Map::empty()
    } else {
        pairs_to_map(ps.drop_last()).insert(ps.last().0, ps.last().1)
    }
}

pub open spec fn pair_view(kv: (String, String)) -> (Seq<char>, Seq<char>) {
    (kv.0@, kv.1@)
}

pub open spec fn pairs_view(ps: Seq<(String, String)>) -> Seq<(Seq<char>, Seq<char>)> {
    ps.map_values(|kv: (String, String)| pair_view(kv))
}

pub open spec fn planes_view(ps: Seq<BrushPlane>) -> Seq<PlaneModel> {
    ps.map_values(|pl: BrushPlane| pl@)
}

pub open spec fn brushes_view(bs: Seq<Brush>) -> Seq<Seq<PlaneModel>> {
    bs.map_values(|b: Brush| b@)
}

pub open spec fn entities_view(es: Seq<Entity>) -> Seq<EntityModel> {
    es.map_values(|e: Entity| e@)
}

impl View for Point3 {
    type V = PointModel;

    open spec fn view(&self) -> PointModel {
        PointModel { x: self.x@, y: self.y@, z: self.z@ }
    }
}

impl View for TexParams {
    type V = TexModel;

    open spec fn view(&self) -> TexModel {
        TexModel {
            off_x: self.off.x@,
            off_y: self.off.y@,
            rot: self.rot@,
            scale_x: self.scale.x@,
            scale_y: self.scale.y@,
        }
    }
}

impl View for BrushPlane {
    type V = PlaneModel;

    open spec fn view(&self) -> PlaneModel {
        PlaneModel {
            p: self.p@,
            q: self.q@,
            r: self.r@,
            texname: self.texname@,
            tex: self.texparams@,
        }
    }
}

impl View for Brush {
    type V = Seq<PlaneModel>;

    open spec fn view(&self) -> Seq<PlaneModel> {
        planes_view(self.planes@)
    }
}

impl KeyValues {
    /// The pairs in input order, as text.
    pub open spec fn pair_seq(&self) -> Seq<(Seq<char>, Seq<char>)> {
        pairs_view(self.pairs@)
    }
}

impl KeyValues {
    /// The value of `key`, taken from its last occurrence.
    pub fn get(&self, key: &str) -> (r: Option<&String>)
        ensures
            r matches Some(v) ==> self@.contains_key(key@) && self@[key@] == v@,
            r is None ==> !self@.contains_key(key@),
    {
        let kc = chars_of(key);
        let ghost ps = self.pair_seq();
        let mut j: usize = self.pairs.len();
        assert(ps.subrange(0, j as int) =~= ps);
        while j > 0
            invariant
                j <= self.pairs.len(),
                ps == self.pair_seq(),
                kc@ == key@,
                pairs_to_map(ps).contains_key(key@) == pairs_to_map(ps.subrange(0, j as int)).contains_key(key@),
                pairs_to_map(ps).contains_key(key@) ==> pairs_to_map(ps)[key@] == pairs_to_map(ps.subrange(0, j as int))[key@],
            decreases j,
        {
            let ghost sub = ps.subrange(0, j as int);
            assert(sub.drop_last() =~= ps.subrange(0, j - 1));
            if same_text(self.pairs[j - 1].0.as_str(), &kc) {
                return Some(&self.pairs[j - 1].1);
            }
            j = j - 1;
        }
        assert(ps.subrange(0, 0) =~= Seq::<(Seq<char>, Seq<char>)>::empty());
        None
    }
}

impl View for KeyValues {
    type V = Map<Seq<char>, Seq<char>>;

    open spec fn view(&self) -> Map<Seq<char>, Seq<char>> {
        pairs_to_map(self.pair_seq())
    }
}

impl View for Entity {
    type V = EntityModel;

    open spec fn view(&self) -> EntityModel {
        EntityModel { keys: self.keys@, brushes: brushes_view(self.brushes@) }
    }
}

impl View for LevelMap {
    type V = Seq<EntityModel>;

    open spec fn view(&self) -> Seq<EntityModel> {
        entities_view(self.entities@)
    }
}

} // verus!

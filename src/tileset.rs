//! Tilesets and templates: what makes one invalid is found as soon as it
//! is read.

use crate::error::{Error, InvalidTilesetError};
use crate::text::{split_fields, split_on};
use vstd::prelude::*;

verus! {

/// The part of a tileset that tile lookups depend on.
#[derive(Clone, Debug, PartialEq, Eq)]
pub struct Tileset {
    /// The name of the tileset.
    pub name: String,
    /// The width of each tile, in pixels; never 0.
    pub tile_width: u32,
    /// The height of each tile, in pixels; never 0.
    pub tile_height: u32,
    /// The spacing between tiles in the image, in pixels.
    pub spacing: u32,
    /// The margin around the tiles in the image, in pixels.
    pub margin: u32,
    /// The number of tiles.
    pub tilecount: u32,
    /// The number of tile columns in the image.
    pub columns: u32,
}

impl Tileset {
    /// A tileset from its parsed attributes. A tile width or height of 0 is an
    /// `InvalidTileDimensions` error, found before any tile is indexed.
    pub fn new(
        name: String,
        tile_width: u32,
        tile_height: u32,
        spacing: u32,
        margin: u32,
        tilecount: u32,
        columns: u32,
    ) -> (r: Result<Tileset, Error>)
        ensures
            r is Err <==> tile_width == 0 || tile_height == 0,
            r matches Err(e) ==> e == Error::InvalidTileset(InvalidTilesetError::InvalidTileDimensions),
            r matches Ok(t) ==> t.name == name && t.tile_width == tile_width && t.tile_height
                == tile_height && t.spacing == spacing && t.margin == margin && t.tilecount
                == tilecount && t.columns == columns,
    {
        if tile_width == 0 || tile_height == 0 {
            return Err(Error::InvalidTileset(InvalidTilesetError::InvalidTileDimensions));
        }
        Ok(Tileset { name, tile_width, tile_height, spacing, margin, tilecount, columns })
    }
}

/// A reusable object definition, bound to at most one tileset through a
/// handle of the resource cache.
#[derive(Clone, Debug, PartialEq, Eq)]
pub struct Template<O> {
    /// The object that the template defines.
    pub object: O,
    /// The cache handle of the tileset the object's tile comes from, if any.
    pub tileset: Option<usize>,
}

impl<O> Template<O> {
    /// A template from its parsed parts. One without an object element is a
    /// `TemplateHasNoObject` error.
    pub fn new(object: Option<O>, tileset: Option<usize>) -> (r: Result<Template<O>, Error>)
        ensures
            r is Err <==> object is None,
            r matches Err(e) ==> e is TemplateHasNoObject,
            r matches Ok(t) ==> Some(t.object) == object && t.tileset == tileset,
    {
        match object {
            Some(object) => Ok(Template { object, tileset }),
            None => Err(Error::TemplateHasNoObject),
        }
    }
}

/// `p` up to and including its last `/`; empty where it has none.
pub open spec fn parent_prefix(p: Seq<char>) -> Seq<char>
    decreases p.len(),
{
    if p.len() == 0 {
        p
    } else if p.last() == '/' {
        p
    } else {
        parent_prefix(p.drop_last())
    }
}

/// The path that `source`, as written in the file at `referrer`, stands for:
/// an absolute `source` as it is, else `source` in the referrer's directory.
pub open spec fn joined_path(referrer: Seq<char>, source: Seq<char>) -> Seq<char> {
    if source.len() > 0 && source[0] == '/' {
        source
    } else {
        parent_prefix(referrer) + source
    }
}

/// A segment that a following `..` removes: not empty and not `..`.
pub open spec fn is_name_segment(seg: Seq<char>) -> bool {
    seg.len() > 0 && seg != ".."@
}

/// The segments after `seg` is added: `.` is dropped, and `..` removes the
/// segment before it where that is a name.
pub open spec fn push_segment(acc: Seq<Seq<char>>, seg: Seq<char>) -> Seq<Seq<char>> {
    if seg == "."@ {
        acc
    } else if seg == ".."@ && acc.len() > 0 && is_name_segment(acc.last()) {
        acc.drop_last()
    } else {
        acc.push(seg)
    }
}

/// Path segments with every `.` dropped and every `..` that follows a name
/// removed together with it.
pub open spec fn normalized(segs: Seq<Seq<char>>) -> Seq<Seq<char>>
    decreases segs.len(),
{
    if segs.len() == 0 {
        Seq::empty()
    } else {
        push_segment(normalized(segs.drop_last()), segs.last())
    }
}

/// Segments joined by `/`.
pub open spec fn join_segments(segs: Seq<Seq<char>>) -> Seq<char>
    decreases segs.len(),
{
    if segs.len() == 0 {
        Seq::empty()
    } else if segs.len() == 1 {
        segs[0]
    } else {
        join_segments(segs.drop_last()) + seq!['/'] + segs.last()
    }
}

/// The canonical form of a path: its `/`-separated segments, normalized.
pub open spec fn canonical_path(p: Seq<char>) -> Seq<char> {
    join_segments(normalized(split_fields(p, '/')))
}

pub open spec fn segments_view(v: Seq<&str>) -> Seq<Seq<char>> {
    Seq::new(v.len(), |i: int| v[i]@)
}

fn text_is(s: &str, lit: &str) -> (r: bool)
    ensures
        r == (s@ == lit@),
{
    String::from_str(s) == String::from_str(lit)
}

/// The canonical form of `path`: `.` segments dropped, and each `..` that
/// follows a name removed together with that name.
pub fn canonicalize(path: &str) -> (r: String)
    ensures
        r@ == canonical_path(path@),
{
    let parts = split_on(path, '/');
    let ghost fields = split_fields(path@, '/');
    let mut acc: Vec<&str> = Vec::new();
    let mut i: usize = 0;
    while i < parts.len()
        invariant
            parts@.len() == fields.len(),
            fields == split_fields(path@, '/'),
            forall|j: int| 0 <= j < parts@.len() ==> (#[trigger] parts@[j])@ == fields[j],
            i <= parts@.len(),
            segments_view(acc@) == normalized(fields.take(i as int)),
        decreases parts@.len() - i,
    {
        let seg = parts[i];
        proof {
            assert(fields.take(i + 1).drop_last() =~= fields.take(i as int));
            assert(fields.take(i + 1).last() == seg@);
        }
        let ghost before = segments_view(acc@);
        if text_is(seg, ".") {
        } else if text_is(seg, "..") && acc.len() > 0 && acc[acc.len() - 1].unicode_len() > 0
            && !text_is(acc[acc.len() - 1], "..") {
            acc.pop();
            assert(segments_view(acc@) =~= before.drop_last());
        } else {
            acc.push(seg);
            assert(segments_view(acc@) =~= before.push(seg@));
        }
        i += 1;
    }
    assert(fields.take(parts@.len() as int) =~= fields);
    let ghost segs = segments_view(acc@);
    let mut out = String::new();
    let mut k: usize = 0;
    while k < acc.len()
        invariant
            segs == segments_view(acc@),
            k <= acc@.len(),
            out@ == join_segments(segs.take(k as int)),
        decreases acc@.len() - k,
    {
        proof {
            reveal_strlit("/");
            assert(segs.take(k + 1).drop_last() =~= segs.take(k as int));
            assert(segs.take(k + 1).last() == acc@[k as int]@);
            if k == 0 {
                assert(out@ =~= Seq::<char>::empty());
                assert(Seq::<char>::empty() + acc@[0]@ =~= acc@[0]@);
            }
        }
        if k > 0 {
            out = out.concat("/");
        }
        out = out.concat(acc[k]);
        k += 1;
    }
    assert(segs.take(acc@.len() as int) =~= segs);
    out
}

/// The cache key of a resource that the file at `referrer` references as
/// `source`: the canonical form of the joined path.
pub fn resolve_path(referrer: &str, source: &str) -> (r: String)
    ensures
        r@ == canonical_path(joined_path(referrer@, source@)),
{
    let joined = joined_path_of(referrer, source);
    canonicalize(joined.as_str())
}

/// The path that `source`, as written in the file at `referrer`, stands for.
fn joined_path_of(referrer: &str, source: &str) -> (r: String)
    ensures
        r@ == joined_path(referrer@, source@),
{
    if source.unicode_len() > 0 && source.get_char(0) == '/' {
        return String::from_str(source);
    }
    let n = referrer.unicode_len();
    let mut i: usize = n;
    assert(referrer@.subrange(0, n as int) =~= referrer@);
    while i > 0 && referrer.get_char(i - 1) != '/'
        invariant
            n == referrer@.len(),
            i <= n,
            parent_prefix(referrer@) == parent_prefix(referrer@.subrange(0, i as int)),
        decreases i,
    {
        proof {
            let s = referrer@.subrange(0, i as int);
            assert(s.drop_last() =~= referrer@.subrange(0, i - 1));
        }
        i -= 1;
    }
    let dir = String::from_str(referrer.substring_char(0, i));
    dir.concat(source)
}

} // verus!

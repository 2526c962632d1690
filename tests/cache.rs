use std::cell::Cell;
use tiled::{canonicalize, resolve_path, Error, InvalidTilesetError, ResourceCache, Template, Tileset};

fn tileset(name: &str) -> Result<Tileset, Error> {
    Tileset::new(name.to_string(), 16, 16, 0, 0, 4, 2)
}

#[test]
fn same_tileset_from_two_maps_is_loaded_once() {
    let mut cache: ResourceCache<Tileset> = ResourceCache::new();
    let loads = Cell::new(0);
    let load = || {
        loads.set(loads.get() + 1);
        tileset("terrain")
    };
    let first = resolve_path("maps/a.tmx", "tiles/terrain.tsx");
    let second = resolve_path("maps/b.tmx", "tiles/terrain.tsx");
    assert_eq!(first, second);
    let h1 = cache.get_or_load(&first, load).unwrap();
    let h2 = cache
        .get_or_load(&second, || {
            loads.set(loads.get() + 1);
            tileset("terrain")
        })
        .unwrap();
    assert_eq!(h1, h2);
    assert_eq!(loads.get(), 1);
    assert_eq!(cache.len(), 1);
    assert!(std::ptr::eq(cache.resource(h1), cache.resource(h2)));
}

#[test]
fn failed_load_leaves_cache_empty() {
    let mut cache: ResourceCache<Tileset> = ResourceCache::new();
    let r = cache.get_or_load("x.tsx", || Tileset::new("bad".to_string(), 0, 8, 0, 0, 0, 0));
    assert!(matches!(
        r,
        Err(Error::InvalidTileset(InvalidTilesetError::InvalidTileDimensions))
    ));
    assert_eq!(cache.len(), 0);
    assert_eq!(cache.get("x.tsx"), None);
}

#[test]
fn first_insert_wins() {
    let mut cache: ResourceCache<u32> = ResourceCache::new();
    let a = cache.insert("a.tsx", 1);
    let b = cache.insert("b.tsx", 2);
    let again = cache.insert("a.tsx", 3);
    assert_eq!((a, b, again), (0, 1, 0));
    assert_eq!(*cache.resource(a), 1);
    assert_eq!(cache.get("b.tsx"), Some(1));
    assert_eq!(cache.len(), 2);
}

#[test]
fn zero_tile_width_is_rejected() {
    for (w, h) in [(0, 0), (0, 16), (16, 0)] {
        let r = Tileset::new("t".to_string(), w, h, 0, 0, 0, 0);
        assert!(matches!(r, Err(Error::InvalidTileset(InvalidTilesetError::InvalidTileDimensions))));
    }
    let e = Tileset::new("t".to_string(), 0, 16, 0, 0, 0, 0).unwrap_err();
    assert_eq!(e.message(), "An invalid width or height (0) dimension was found in the input.");
    let t = tileset("ok").unwrap();
    assert_eq!((t.tile_width, t.tile_height, t.columns), (16, 16, 2));
}

#[test]
fn paths_resolve_against_the_referrer() {
    assert_eq!(resolve_path("maps/level1.tmx", "tiles.tsx"), "maps/tiles.tsx");
    assert_eq!(resolve_path("level1.tmx", "tiles.tsx"), "tiles.tsx");
    assert_eq!(resolve_path("maps/level1.tmx", "/abs/tiles.tsx"), "/abs/tiles.tsx");
    assert_eq!(resolve_path("a/b/c.tmx", "../t.tsx"), "a/t.tsx");
    assert_eq!(resolve_path("a/b/c.tmx", "./t.tsx"), "a/b/t.tsx");
    assert_eq!(resolve_path("c.tmx", "../t.tsx"), "../t.tsx");
}

#[test]
fn template_needs_an_object() {
    let r = Template::<u32>::new(None, Some(0));
    assert!(matches!(r, Err(Error::TemplateHasNoObject)));
    assert_eq!(r.unwrap_err().message(), "A template was found with no object element");
    let t = Template::new(Some(7u32), None).unwrap();
    assert_eq!((t.object, t.tileset), (7, None));
}

#[test]
fn canonical_paths_drop_dot_segments() {
    assert_eq!(canonicalize("a/../ts/x.tsx"), "ts/x.tsx");
    assert_eq!(canonicalize("ts/./x.tsx"), "ts/x.tsx");
    assert_eq!(canonicalize("../../x.tsx"), "../../x.tsx");
    assert_eq!(canonicalize("/a/b/../c"), "/a/c");
    assert_eq!(canonicalize("/../c"), "/../c");
    assert_eq!(canonicalize(""), "");
}

#[test]
fn spellings_of_one_path_share_one_entry() {
    let mut cache: ResourceCache<u32> = ResourceCache::new();
    let a = cache.insert(&resolve_path("maps/a.tmx", "../ts/x.tsx"), 1);
    let b = cache.insert(&resolve_path("ts/sub/b.tmx", "../x.tsx"), 2);
    assert_eq!(a, b);
    assert_eq!(cache.len(), 1);
    assert_eq!(*cache.resource(a), 1);
}

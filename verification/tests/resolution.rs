use std::rc::Rc;

use resvg_compose::cache::Cache;
use resvg_compose::clip::{convert as convert_clip, ClipPathSource};
use resvg_compose::geom::{Rect, ScreenSize};
use resvg_compose::mask::{convert, MaskSource};
use resvg_compose::surface::Color;
use resvg_compose::tree::{Group, Node, Path, Units};

fn vp() -> ScreenSize {
    ScreenSize { width: 100, height: 100 }
}

fn content_root() -> Rc<Node> {
    let mut g = Group::default();
    g.children = vec![Node::Path(Path {
        rect: Rect { x: 0, y: 0, w: 10, h: 10 },
        fill: Color { red: 255, green: 255, blue: 255 },
        opacity: 255,
    })];
    Rc::new(Node::Group(g))
}

fn empty_root() -> Rc<Node> {
    Rc::new(Node::Group(Group::default()))
}

fn source(id: u64, link: Option<u64>) -> MaskSource {
    MaskSource {
        id,
        name: format!("mask{}", id),
        units: None,
        content_units: None,
        x: None,
        y: None,
        width: None,
        height: None,
        mask: link,
        root: content_root(),
    }
}

#[test]
fn resolve_twice_returns_same_instance() {
    let defs = vec![source(1, None)];
    let mut cache = Cache::new();
    let m1 = convert(&defs, 1, vp(), &mut cache).expect("first resolution succeeds");
    let m2 = convert(&defs, 1, vp(), &mut cache).expect("second resolution succeeds");
    assert!(Rc::ptr_eq(&m1, &m2));
    assert_eq!(cache.masks.len(), 1);
}

#[test]
fn self_referential_mask_resolves_absent() {
    let defs = vec![source(1, Some(1))];
    let mut cache = Cache::new();
    assert!(convert(&defs, 1, vp(), &mut cache).is_none());
    assert!(convert(&defs, 1, vp(), &mut cache).is_none());
    assert_eq!(cache.masks.len(), 0);
}

#[test]
fn cyclic_mask_chain_resolves_absent() {
    let defs = vec![source(1, Some(2)), source(2, Some(3)), source(3, Some(1))];
    let mut cache = Cache::new();
    assert!(convert(&defs, 1, vp(), &mut cache).is_none());
    assert!(convert(&defs, 2, vp(), &mut cache).is_none());
    assert_eq!(cache.masks.len(), 0);
}

#[test]
fn empty_content_mask_resolves_absent() {
    let mut d = source(1, None);
    d.root = empty_root();
    let defs = vec![d];
    let mut cache = Cache::new();
    assert!(convert(&defs, 1, vp(), &mut cache).is_none());
}

#[test]
fn missing_definition_resolves_absent() {
    let defs = vec![source(1, None)];
    let mut cache = Cache::new();
    assert!(convert(&defs, 42, vp(), &mut cache).is_none());
}

#[test]
fn failed_chain_fails_whole_resolution() {
    // 1 links to 2, whose content is empty: the outer resolution fails too.
    let mut d2 = source(2, None);
    d2.root = empty_root();
    let defs = vec![source(1, Some(2)), d2];
    let mut cache = Cache::new();
    assert!(convert(&defs, 1, vp(), &mut cache).is_none());
    assert_eq!(cache.masks.len(), 0);
}

#[test]
fn default_rect_is_minus_ten_to_one_ten_percent() {
    let defs = vec![source(1, None)];
    let mut cache = Cache::new();
    let m = convert(&defs, 1, vp(), &mut cache).unwrap();
    assert_eq!(m.units, Units::ObjectBoundingBox);
    assert_eq!(m.content_units, Units::UserSpaceOnUse);
    assert_eq!(m.rect, Rect { x: -10, y: -10, w: 120, h: 120 });
    assert_eq!(m.id, "mask1");
}

#[test]
fn default_rect_user_space_scales_viewport() {
    let mut d = source(1, None);
    d.units = Some(Units::UserSpaceOnUse);
    let defs = vec![d];
    let mut cache = Cache::new();
    let m = convert(&defs, 1, ScreenSize { width: 200, height: 100 }, &mut cache).unwrap();
    assert_eq!(m.rect, Rect { x: -20, y: -10, w: 240, h: 120 });
}

#[test]
fn invalid_rect_resolves_absent() {
    let mut d = source(1, None);
    d.width = Some(0);
    let defs = vec![d];
    let mut cache = Cache::new();
    assert!(convert(&defs, 1, vp(), &mut cache).is_none());
}

#[test]
fn chained_mask_resolves_and_is_shared() {
    let defs = vec![source(1, Some(2)), source(2, None)];
    let mut cache = Cache::new();
    let m1 = convert(&defs, 1, vp(), &mut cache).expect("chain resolves");
    let linked = m1.mask.as_ref().expect("chain link present");
    let m2 = convert(&defs, 2, vp(), &mut cache).expect("inner resolves");
    assert!(Rc::ptr_eq(linked, &m2));
    assert_eq!(cache.masks.len(), 2);
}

fn clip_source(id: u64, link: Option<u64>) -> ClipPathSource {
    ClipPathSource {
        id,
        name: format!("clip{}", id),
        units: None,
        x: None,
        y: None,
        width: None,
        height: None,
        clip_path: link,
        root: content_root(),
    }
}

#[test]
fn clip_resolve_twice_returns_same_instance() {
    let defs = vec![clip_source(7, None)];
    let mut cache = Cache::new();
    let c1 = convert_clip(&defs, 7, vp(), &mut cache).unwrap();
    let c2 = convert_clip(&defs, 7, vp(), &mut cache).unwrap();
    assert!(Rc::ptr_eq(&c1, &c2));
    assert_eq!(cache.clip_paths.len(), 1);
    assert_eq!(cache.masks.len(), 0);
}

#[test]
fn clip_cyclic_chain_resolves_absent() {
    let defs = vec![clip_source(1, Some(2)), clip_source(2, Some(1))];
    let mut cache = Cache::new();
    assert!(convert_clip(&defs, 1, vp(), &mut cache).is_none());
}

#[test]
fn clip_default_rect_matches_mask_default() {
    let defs = vec![clip_source(1, None)];
    let mut cache = Cache::new();
    let c = convert_clip(&defs, 1, vp(), &mut cache).unwrap();
    assert_eq!(c.rect, Rect { x: -10, y: -10, w: 120, h: 120 });
    assert_eq!(c.units, Units::ObjectBoundingBox);
}

#[test]
fn clip_empty_content_resolves_absent() {
    let mut d = clip_source(1, None);
    d.root = empty_root();
    let defs = vec![d];
    let mut cache = Cache::new();
    assert!(convert_clip(&defs, 1, vp(), &mut cache).is_none());
}

use std::rc::Rc;

use resvg_compose::geom::{FitTo, Rect, ScreenSize, ViewBox};
use resvg_compose::mask::Mask;
use resvg_compose::render::{create_root_image, requires_isolation};
use resvg_compose::surface::{Color, Pixel, Surface};
use resvg_compose::clip::ClipPath;
use resvg_compose::tree::{Group, Image, Node, Path, Units};
use resvg_compose::{render_node_to_canvas, render_node_to_image, render_to_image, Options, Tree};

const RED: Color = Color { red: 255, green: 0, blue: 0 };
const BLUE: Color = Color { red: 0, green: 0, blue: 255 };
const WHITE: Color = Color { red: 255, green: 255, blue: 255 };
const BLACK: Color = Color { red: 0, green: 0, blue: 0 };

fn leaf(rect: Rect, fill: Color) -> Node {
    Node::Path(Path { rect, fill, opacity: 255 })
}

fn group_of(children: Vec<Node>) -> Group {
    let mut g = Group::default();
    g.children = children;
    g
}

fn px(s: &Surface, x: u32, y: u32) -> Pixel {
    s.pixels[(y * s.width + x) as usize]
}

#[test]
fn zero_intrinsic_size_yields_no_image() {
    assert!(create_root_image(0, 0, FitTo::Original, None).is_none());
    assert!(create_root_image(0, 0, FitTo::Width(100), None).is_none());
    assert!(create_root_image(0, 0, FitTo::Height(100), None).is_none());
    assert!(create_root_image(0, 0, FitTo::Zoom(100), None).is_none());
    assert!(create_root_image(0, 10, FitTo::Original, None).is_none());
    assert!(create_root_image(10, 0, FitTo::Original, None).is_none());
}

#[test]
fn fit_policies_produce_expected_sizes() {
    let (_, sz) = create_root_image(100, 50, FitTo::Original, None).unwrap();
    assert_eq!((sz.width, sz.height), (100, 50));
    let (_, sz) = create_root_image(100, 50, FitTo::Width(200), None).unwrap();
    assert_eq!((sz.width, sz.height), (200, 100));
    let (_, sz) = create_root_image(100, 50, FitTo::Height(25), None).unwrap();
    assert_eq!((sz.width, sz.height), (50, 25));
    let (_, sz) = create_root_image(100, 50, FitTo::Zoom(50), None).unwrap();
    assert_eq!((sz.width, sz.height), (50, 25));
    assert!(create_root_image(100, 50, FitTo::Zoom(0), None).is_none());
}

#[test]
fn background_fills_root_image() {
    let (img, _) = create_root_image(4, 4, FitTo::Original, Some(BLUE)).unwrap();
    for p in &img.pixels {
        assert_eq!(*p, Pixel { r: 0, g: 0, b: 255, a: 255 });
    }
}

#[test]
fn red_rectangle_covers_whole_viewport() {
    // One fully opaque red rectangle over the whole view box, fit
    // policy keeping the original size, no background.
    let tree = Tree {
        width: 8,
        height: 8,
        view_box: ViewBox { rect: Rect { x: 0, y: 0, w: 8, h: 8 } },
        root: Node::Group(group_of(vec![leaf(Rect { x: 0, y: 0, w: 8, h: 8 }, RED)])),
    };
    let img = render_to_image(&tree, &Options::default()).unwrap();
    assert_eq!(img.width, 8);
    assert_eq!(img.height, 8);
    for p in &img.pixels {
        assert_eq!(*p, Pixel { r: 255, g: 0, b: 0, a: 255 });
    }
}

#[test]
fn painters_algorithm_last_child_wins() {
    // Three overlapping fully opaque children: the last one painted
    // decides every pixel it covers.
    let c1 = leaf(Rect { x: 0, y: 0, w: 8, h: 8 }, RED);
    let c2 = leaf(Rect { x: 0, y: 0, w: 8, h: 8 }, WHITE);
    let c3 = leaf(Rect { x: 0, y: 0, w: 6, h: 6 }, BLUE);
    let root = Node::Group(group_of(vec![c1, c2, c3]));
    let mut canvas = Surface::new(ScreenSize { width: 8, height: 8 }, None);
    render_node_to_canvas(
        &root,
        &Options::default(),
        ViewBox { rect: Rect { x: 0, y: 0, w: 8, h: 8 } },
        ScreenSize { width: 8, height: 8 },
        &mut canvas,
    );
    assert_eq!(px(&canvas, 3, 3), Pixel { r: 0, g: 0, b: 255, a: 255 });
    assert_eq!(px(&canvas, 7, 7), Pixel { r: 255, g: 255, b: 255, a: 255 });
}

#[test]
fn group_opacity_scales_alpha() {
    let mut g = group_of(vec![leaf(Rect { x: 0, y: 0, w: 4, h: 4 }, RED)]);
    g.opacity = 128;
    let root = Node::Group(g);
    let mut canvas = Surface::new(ScreenSize { width: 4, height: 4 }, None);
    render_node_to_canvas(
        &root,
        &Options::default(),
        ViewBox { rect: Rect { x: 0, y: 0, w: 4, h: 4 } },
        ScreenSize { width: 4, height: 4 },
        &mut canvas,
    );
    // 255 * 128 / 255 == 128, premultiplied.
    assert_eq!(px(&canvas, 1, 1), Pixel { r: 128, g: 0, b: 0, a: 128 });
}

fn mask_of(content_fill: Color, rect: Rect) -> Rc<Mask> {
    let mut content = Group::default();
    content.children = vec![leaf(Rect { x: 0, y: 0, w: 100, h: 100 }, content_fill)];
    Rc::new(Mask {
        id: String::from("m"),
        units: Units::UserSpaceOnUse,
        content_units: Units::UserSpaceOnUse,
        rect,
        mask: None,
        root: Rc::new(Node::Group(content)),
    })
}

fn render_masked(mask: Option<Rc<Mask>>) -> Surface {
    let mut g = group_of(vec![leaf(Rect { x: 0, y: 0, w: 8, h: 8 }, RED)]);
    g.mask = mask;
    let root = Node::Group(g);
    let mut canvas = Surface::new(ScreenSize { width: 8, height: 8 }, None);
    render_node_to_canvas(
        &root,
        &Options::default(),
        ViewBox { rect: Rect { x: 0, y: 0, w: 8, h: 8 } },
        ScreenSize { width: 8, height: 8 },
        &mut canvas,
    );
    canvas
}

#[test]
fn all_white_mask_is_a_no_op() {
    let plain = render_masked(None);
    let masked = render_masked(Some(mask_of(WHITE, Rect { x: 0, y: 0, w: 100, h: 100 })));
    assert_eq!(plain.pixels, masked.pixels);
}

#[test]
fn all_black_mask_clears_everything() {
    let masked = render_masked(Some(mask_of(BLACK, Rect { x: 0, y: 0, w: 100, h: 100 })));
    for p in &masked.pixels {
        assert_eq!(*p, Pixel { r: 0, g: 0, b: 0, a: 0 });
    }
}

#[test]
fn mask_region_confines_the_mask() {
    // A white mask whose region covers only the left half: the right
    // half of the group becomes transparent.
    let masked = render_masked(Some(mask_of(WHITE, Rect { x: 0, y: 0, w: 4, h: 8 })));
    assert_eq!(px(&masked, 1, 1), Pixel { r: 255, g: 0, b: 0, a: 255 });
    assert_eq!(px(&masked, 6, 1), Pixel { r: 0, g: 0, b: 0, a: 0 });
}

#[test]
fn exhausted_layer_budget_skips_later_siblings() {
    // A nest of isolating groups deeper than the layer budget turns the
    // render state fatal partway through the parent's children: the
    // earlier sibling stays on the target, the later one is skipped.
    let mut nested = leaf(Rect { x: 0, y: 0, w: 1, h: 1 }, WHITE);
    let mut depth = 0;
    while depth < 20 {
        let mut g = group_of(vec![nested]);
        g.opacity = 254;
        nested = Node::Group(g);
        depth += 1;
    }
    let c1 = leaf(Rect { x: 0, y: 0, w: 4, h: 8 }, BLUE);
    let c3 = leaf(Rect { x: 4, y: 0, w: 4, h: 8 }, RED);
    let root = Node::Group(group_of(vec![c1, nested, c3]));
    let mut canvas = Surface::new(ScreenSize { width: 8, height: 8 }, None);
    render_node_to_canvas(
        &root,
        &Options::default(),
        ViewBox { rect: Rect { x: 0, y: 0, w: 8, h: 8 } },
        ScreenSize { width: 8, height: 8 },
        &mut canvas,
    );
    assert_eq!(px(&canvas, 1, 1), Pixel { r: 0, g: 0, b: 255, a: 255 });
    assert_eq!(px(&canvas, 6, 1), Pixel { r: 0, g: 0, b: 0, a: 0 });
}

#[test]
fn isolation_not_required_without_attributes() {
    let g = group_of(vec![]);
    assert!(!requires_isolation(&g));
    let mut g1 = group_of(vec![]);
    g1.opacity = 254;
    assert!(requires_isolation(&g1));
    let mut g2 = group_of(vec![]);
    g2.filters = vec![9];
    assert!(requires_isolation(&g2));
    let mut g3 = group_of(vec![]);
    g3.mask = Some(mask_of(WHITE, Rect { x: 0, y: 0, w: 1, h: 1 }));
    assert!(requires_isolation(&g3));
}

#[test]
fn isolation_path_matches_direct_path_for_opaque_children() {
    // The same two fully opaque children painted directly and painted
    // through an extra non-isolating group must land identically: the
    // grouping is transparent to the painter's algorithm.
    let children = || vec![
        leaf(Rect { x: 0, y: 0, w: 8, h: 8 }, RED),
        leaf(Rect { x: 2, y: 2, w: 3, h: 3 }, BLUE),
    ];
    let direct = Node::Group(group_of(children()));
    let wrapped = Node::Group(group_of(vec![Node::Group(group_of(children()))]));
    let mut c1 = Surface::new(ScreenSize { width: 8, height: 8 }, None);
    let mut c2 = Surface::new(ScreenSize { width: 8, height: 8 }, None);
    let vb = ViewBox { rect: Rect { x: 0, y: 0, w: 8, h: 8 } };
    let sz = ScreenSize { width: 8, height: 8 };
    render_node_to_canvas(&direct, &Options::default(), vb, sz, &mut c1);
    render_node_to_canvas(&wrapped, &Options::default(), vb, sz, &mut c2);
    assert_eq!(c1.pixels, c2.pixels);
}

#[test]
fn transform_translates_children() {
    let mut g = group_of(vec![leaf(Rect { x: 0, y: 0, w: 2, h: 2 }, RED)]);
    g.transform = resvg_compose::tree::Transform { tx: 3, ty: 3 };
    let root = Node::Group(group_of(vec![Node::Group(g)]));
    let mut canvas = Surface::new(ScreenSize { width: 8, height: 8 }, None);
    render_node_to_canvas(
        &root,
        &Options::default(),
        ViewBox { rect: Rect { x: 0, y: 0, w: 8, h: 8 } },
        ScreenSize { width: 8, height: 8 },
        &mut canvas,
    );
    assert_eq!(px(&canvas, 0, 0), Pixel { r: 0, g: 0, b: 0, a: 0 });
    assert_eq!(px(&canvas, 4, 4), Pixel { r: 255, g: 0, b: 0, a: 255 });
}

#[test]
fn clip_path_confines_the_group() {
    let mut stencil_content = Group::default();
    stencil_content.children = vec![leaf(Rect { x: 0, y: 0, w: 100, h: 100 }, WHITE)];
    let clip = Rc::new(ClipPath {
        id: String::from("c"),
        units: Units::UserSpaceOnUse,
        rect: Rect { x: 0, y: 0, w: 4, h: 8 },
        clip_path: None,
        root: Rc::new(Node::Group(stencil_content)),
    });
    let mut g = group_of(vec![leaf(Rect { x: 0, y: 0, w: 8, h: 8 }, RED)]);
    g.clip_path = Some(clip);
    let root = Node::Group(g);
    let mut canvas = Surface::new(ScreenSize { width: 8, height: 8 }, None);
    render_node_to_canvas(
        &root,
        &Options::default(),
        ViewBox { rect: Rect { x: 0, y: 0, w: 8, h: 8 } },
        ScreenSize { width: 8, height: 8 },
        &mut canvas,
    );
    assert_eq!(px(&canvas, 1, 1), Pixel { r: 255, g: 0, b: 0, a: 255 });
    assert_eq!(px(&canvas, 6, 1), Pixel { r: 0, g: 0, b: 0, a: 0 });
}

#[test]
fn chained_mask_multiplies_further() {
    // A fully white mask chained to a fully black one: the chain
    // multiplies, so everything still ends transparent.
    let black_link = mask_of(BLACK, Rect { x: 0, y: 0, w: 100, h: 100 });
    let mut white = mask_of(WHITE, Rect { x: 0, y: 0, w: 100, h: 100 });
    Rc::get_mut(&mut white).unwrap().mask = Some(black_link);
    let masked = render_masked(Some(white));
    for p in &masked.pixels {
        assert_eq!(*p, Pixel { r: 0, g: 0, b: 0, a: 0 });
    }
}

#[test]
fn image_leaf_draws_opaque() {
    let root = Node::Group(group_of(vec![Node::Image(Image {
        rect: Rect { x: 0, y: 0, w: 2, h: 2 },
        fill: BLUE,
    })]));
    let mut canvas = Surface::new(ScreenSize { width: 4, height: 4 }, None);
    render_node_to_canvas(
        &root,
        &Options::default(),
        ViewBox { rect: Rect { x: 0, y: 0, w: 4, h: 4 } },
        ScreenSize { width: 4, height: 4 },
        &mut canvas,
    );
    assert_eq!(px(&canvas, 1, 1), Pixel { r: 0, g: 0, b: 255, a: 255 });
    assert_eq!(px(&canvas, 3, 3), Pixel { r: 0, g: 0, b: 0, a: 0 });
}

#[test]
fn bounding_box_relative_mask_region_defaults_cover_the_element() {
    // A mask with the default −10 %..110 % bounding-box region and
    // white user-space content keeps the whole element visible.
    let mut content = Group::default();
    content.children = vec![leaf(Rect { x: 0, y: 0, w: 100, h: 100 }, WHITE)];
    let mask = Rc::new(Mask {
        id: String::from("m"),
        units: Units::ObjectBoundingBox,
        content_units: Units::UserSpaceOnUse,
        rect: Rect { x: -10, y: -10, w: 120, h: 120 },
        mask: None,
        root: Rc::new(Node::Group(content)),
    });
    let masked = render_masked(Some(mask));
    let plain = render_masked(None);
    assert_eq!(masked.pixels, plain.pixels);
}

#[test]
fn node_bbox_unions_children() {
    let root = Node::Group(group_of(vec![
        leaf(Rect { x: 1, y: 2, w: 3, h: 4 }, RED),
        leaf(Rect { x: 5, y: 1, w: 2, h: 2 }, BLUE),
    ]));
    let b = root.calculate_bbox().unwrap();
    assert_eq!(b, Rect { x: 1, y: 1, w: 6, h: 5 });
    let empty = Node::Group(group_of(vec![]));
    assert!(empty.calculate_bbox().is_none());
}

#[test]
fn render_node_to_image_uses_bounding_box() {
    let node = Node::Group(group_of(vec![leaf(Rect { x: 10, y: 10, w: 4, h: 4 }, RED)]));
    let img = render_node_to_image(&node, &Options::default()).unwrap();
    assert_eq!((img.width, img.height), (4, 4));
    for p in &img.pixels {
        assert_eq!(*p, Pixel { r: 255, g: 0, b: 0, a: 255 });
    }
    let empty = Node::Group(group_of(vec![]));
    assert!(render_node_to_image(&empty, &Options::default()).is_none());
}

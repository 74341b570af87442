use three::texture::{CubeMap, CubeMapPath, Sampler, Texture};
use three::transform::{Rotation, Transform, COMPONENT_LIMIT};

#[test]
fn translations_concatenate_by_adding() {
    let a = Transform::translation(1, 2, 3);
    let b = Transform::translation(10, 20, 30);
    let c = a.concat(&b);
    assert_eq!((c.dx, c.dy, c.dz), (11, 22, 33));
    assert_eq!(c.scale, 1);
    assert_eq!(c.rot, Rotation::identity());
}

#[test]
fn identity_is_neutral_for_concatenation() {
    let t = Transform { scale: 3, rot: Rotation::new(0, -1, 0, 1, 0, 0, 0, 0, 1), dx: 5, dy: -7, dz: 2 };
    assert_eq!(Transform::identity().concat(&t), t);
    assert_eq!(t.concat(&Transform::identity()), t);
}

#[test]
fn scales_multiply_and_carry_child_displacement() {
    let parent = Transform::scaling(4);
    let child = Transform::translation(2, 0, -1);
    let c = parent.concat(&child);
    assert_eq!(c.scale, 4);
    assert_eq!((c.dx, c.dy, c.dz), (8, 0, -4));
}

#[test]
fn quarter_turns_compose_to_a_half_turn() {
    let quarter = Transform {
        scale: 1,
        rot: Rotation::new(0, -1, 0, 1, 0, 0, 0, 0, 1),
        dx: 0,
        dy: 0,
        dz: 0,
    };
    let half = quarter.concat(&quarter);
    assert_eq!(half.rot, Rotation::new(-1, 0, 0, 0, -1, 0, 0, 0, 1));
}

#[test]
fn concatenation_saturates_at_the_component_limit() {
    let big = Transform::scaling(COMPONENT_LIMIT);
    let c = big.concat(&Transform::scaling(2));
    assert_eq!(c.scale, COMPONENT_LIMIT);
    let far = Transform::translation(COMPONENT_LIMIT, 0, 0);
    let farther = far.concat(&far);
    assert_eq!(farther.dx, COMPONENT_LIMIT);
    let back = Transform::translation(-COMPONENT_LIMIT, 0, 0);
    let way_back = back.concat(&back);
    assert_eq!(way_back.dx, -COMPONENT_LIMIT);
}

#[test]
fn fresh_texture_spans_the_whole_image() {
    let t = Texture::new(7, Sampler { id: 1 }, 128, 32);
    assert_eq!((t.tex0_x, t.tex0_y), (0, 0));
    assert_eq!((t.tex1_x, t.tex1_y), (128, 32));
}

#[test]
fn texel_range_flips_the_vertical_axis() {
    let mut t = Texture::new(7, Sampler { id: 1 }, 64, 64);
    t.set_texel_range(8, 8, 16, 16);
    assert_eq!((t.tex0_x, t.tex0_y), (8, 40));
    assert_eq!((t.tex1_x, t.tex1_y), (24, 56));
}

#[test]
fn cube_map_faces_come_in_layer_order() {
    let path = CubeMapPath {
        front: String::from("front"),
        back: String::from("back"),
        left: String::from("left"),
        right: String::from("right"),
        up: String::from("up"),
        down: String::from("down"),
    };
    let faces = path.as_array();
    assert_eq!(*faces[0], String::from("right"));
    assert_eq!(*faces[1], String::from("left"));
    assert_eq!(*faces[2], String::from("up"));
    assert_eq!(*faces[3], String::from("down"));
    assert_eq!(*faces[4], String::from("front"));
    assert_eq!(*faces[5], String::from("back"));
}

#[test]
fn cube_map_exposes_its_backend_pair() {
    let cube = CubeMap::new(11, Sampler { id: 4 });
    assert_eq!(cube.to_param(), (11, Sampler { id: 4 }));
}

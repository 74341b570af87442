use three::hub::{Hub, LightOperation, Operation, TextOperation};
use three::mesh::DynamicMesh;
use three::node::{
    GpuData, LightData, Material, Projection, ShadowMap, SubLight, SubNode, TextData, TextLayout,
};
use three::texture::{Sampler, Texture};

fn gpu(buffer_id: u64) -> GpuData {
    GpuData { buffer_id, w0: 0, w1: 0, w2: 0, w3: 0, pending: None }
}

fn text() -> TextData {
    TextData {
        text: String::new(),
        font_id: 0,
        color: 0xffffff,
        opacity: 1,
        pos_x: 0,
        pos_y: 0,
        size_x: 0,
        size_y: 0,
        layout: TextLayout::Left,
    }
}

#[test]
fn set_name_labels_the_node() {
    let mut hub = Hub::new();
    let h = hub.spawn(SubNode::Group { first_child: None });
    hub.send(&h, Operation::SetName(String::from("torso")));
    hub.process_messages();
    assert_eq!(hub.index(&h).name, Some(String::from("torso")));
}

#[test]
fn partial_transform_updates_leave_other_parts() {
    let mut hub = Hub::new();
    let h = hub.spawn(SubNode::Group { first_child: None });
    hub.send(&h, Operation::SetTransform(Some((7, 8, 9)), None, None));
    hub.process_messages();
    let t = hub.index(&h).transform;
    assert_eq!((t.dx, t.dy, t.dz), (7, 8, 9));
    assert_eq!(t.scale, 1);

    hub.send(&h, Operation::SetTransform(None, None, Some(3)));
    hub.process_messages();
    let t = hub.index(&h).transform;
    assert_eq!((t.dx, t.dy, t.dz), (7, 8, 9));
    assert_eq!(t.scale, 3);
}

#[test]
fn light_updates_apply_to_light_nodes_only() {
    let mut hub = Hub::new();
    let light = hub.spawn_light(LightData {
        color: 0xff0000,
        intensity: 10,
        sub_light: SubLight::Point,
        shadow: None,
    });
    hub.send(&light, Operation::SetLight(LightOperation::Intensity(25)));
    hub.send(&light, Operation::SetLight(LightOperation::Color(0x00ff00)));
    hub.process_messages();
    match &hub.index(&light).sub_node {
        SubNode::Light(d) => {
            assert_eq!(d.intensity, 25);
            assert_eq!(d.color, 0x00ff00);
            assert!(matches!(d.sub_light, SubLight::Point));
        },
        _ => panic!("expected a light"),
    }

    let group = hub.spawn(SubNode::Group { first_child: None });
    hub.send(&group, Operation::SetLight(LightOperation::Intensity(5)));
    hub.process_messages();
    assert!(matches!(
        hub.index(&group).sub_node,
        SubNode::Group { first_child: None }
    ));
}

#[test]
fn shadow_map_attaches_to_a_light() {
    let mut hub = Hub::new();
    let light = hub.spawn_light(LightData {
        color: 0xffffff,
        intensity: 1,
        sub_light: SubLight::Directional,
        shadow: None,
    });
    let proj = Projection::Orthographic { center_x: 0, center_y: 0, extent_y: 16, near: 0, far: 100 };
    hub.send(&light, Operation::SetShadow(ShadowMap { id: 9 }, proj));
    hub.process_messages();
    match &hub.index(&light).sub_node {
        SubNode::Light(d) => assert_eq!(d.shadow, Some((ShadowMap { id: 9 }, proj))),
        _ => panic!("expected a light"),
    }
}

#[test]
fn text_updates_apply_field_by_field() {
    let mut hub = Hub::new();
    let label = hub.spawn(SubNode::UiText(text()));
    hub.send(&label, Operation::SetText(TextOperation::Text(String::from("fps"))));
    hub.send(&label, Operation::SetText(TextOperation::Pos(12, 34)));
    hub.send(&label, Operation::SetText(TextOperation::Layout(TextLayout::Center)));
    hub.send(&label, Operation::SetText(TextOperation::Opacity(7)));
    hub.process_messages();
    match &hub.index(&label).sub_node {
        SubNode::UiText(d) => {
            assert_eq!(d.text, String::from("fps"));
            assert_eq!((d.pos_x, d.pos_y), (12, 34));
            assert_eq!(d.layout, TextLayout::Center);
            assert_eq!(d.opacity, 7);
            assert_eq!(d.color, 0xffffff);
        },
        _ => panic!("expected a text node"),
    }
}

#[test]
fn projection_replaces_on_cameras_and_is_ignored_elsewhere() {
    let mut hub = Hub::new();
    let cam = hub.spawn(SubNode::Camera(Projection::Perspective { fov_y: 60, near: 1, far: 1000 }));
    let next = Projection::Perspective { fov_y: 45, near: 1, far: 500 };
    hub.send(&cam, Operation::SetProjection(next));
    hub.process_messages();
    match &hub.index(&cam).sub_node {
        SubNode::Camera(p) => assert_eq!(*p, next),
        _ => panic!("expected a camera"),
    }

    let group = hub.spawn(SubNode::Group { first_child: None });
    hub.send(&group, Operation::SetProjection(next));
    hub.process_messages();
    assert!(matches!(hub.index(&group).sub_node, SubNode::Group { .. }));
}

#[test]
fn material_replaces_on_renderables() {
    let mut hub = Hub::new();
    let mesh = hub.spawn_visual(Material::Wireframe { color: 1 }, gpu(1), None);
    hub.send(&mesh, Operation::SetMaterial(Material::Phong { color: 0x123456, glossiness: 30 }));
    hub.process_messages();
    match &hub.index(&mesh).sub_node {
        SubNode::Visual(Material::Phong { color, glossiness }, _, _) => {
            assert_eq!(*color, 0x123456);
            assert_eq!(*glossiness, 30);
        },
        _ => panic!("expected the phong material"),
    }
}

#[test]
fn texel_range_updates_a_sprite_atlas() {
    let mut hub = Hub::new();
    let map = Texture::new(1, Sampler { id: 2 }, 64, 64);
    let sprite = hub.spawn_visual(Material::Sprite { map }, gpu(2), None);
    hub.send(&sprite, Operation::SetTexelRange(8, 8, 16, 16));
    hub.process_messages();
    match &hub.index(&sprite).sub_node {
        SubNode::Visual(Material::Sprite { map }, _, _) => {
            assert_eq!((map.tex0_x, map.tex0_y), (8, 40));
            assert_eq!((map.tex1_x, map.tex1_y), (24, 56));
        },
        _ => panic!("expected a sprite"),
    }
}

#[test]
fn weights_fill_channels_and_clear_the_rest() {
    let mut hub = Hub::new();
    let mesh = hub.spawn_visual(
        Material::Wireframe { color: 1 },
        GpuData { buffer_id: 3, w0: 9, w1: 9, w2: 9, w3: 9, pending: None },
        None,
    );
    hub.send(&mesh, Operation::SetWeights(vec![4, 5]));
    hub.process_messages();
    match &hub.index(&mesh).sub_node {
        SubNode::Visual(_, g, _) => assert_eq!((g.w0, g.w1, g.w2, g.w3), (4, 5, 0, 0)),
        _ => panic!("expected a renderable"),
    }
}

#[test]
fn weights_on_a_group_reach_immediate_children_only() {
    let mut hub = Hub::new();
    let g = hub.spawn(SubNode::Group { first_child: None });
    let a = hub.spawn_visual(Material::Wireframe { color: 1 }, gpu(4), None);
    let b = hub.spawn_visual(Material::Wireframe { color: 2 }, gpu(5), None);
    let inner = hub.spawn(SubNode::Group { first_child: None });
    let deep = hub.spawn_visual(Material::Wireframe { color: 3 }, gpu(6), None);
    hub.send(&g, Operation::AddChild(a.pointer()));
    hub.send(&g, Operation::AddChild(b.pointer()));
    hub.send(&g, Operation::AddChild(inner.pointer()));
    hub.send(&inner, Operation::AddChild(deep.pointer()));
    hub.process_messages();

    hub.send(&g, Operation::SetWeights(vec![7]));
    hub.process_messages();
    match &hub.index(&a).sub_node {
        SubNode::Visual(_, gd, _) => assert_eq!((gd.w0, gd.w1), (7, 0)),
        _ => panic!("expected a renderable"),
    }
    match &hub.index(&b).sub_node {
        SubNode::Visual(_, gd, _) => assert_eq!((gd.w0, gd.w1), (7, 0)),
        _ => panic!("expected a renderable"),
    }
    // The nested renderable is one level down and stays untouched.
    match &hub.index(&deep).sub_node {
        SubNode::Visual(_, gd, _) => assert_eq!(gd.w0, 0),
        _ => panic!("expected a renderable"),
    }
}

#[test]
fn removing_a_middle_child_splices_the_chain() {
    let mut hub = Hub::new();
    let g = hub.spawn(SubNode::Group { first_child: None });
    let c1 = hub.spawn_visual(Material::Wireframe { color: 1 }, gpu(7), None);
    let c2 = hub.spawn_visual(Material::Wireframe { color: 2 }, gpu(8), None);
    let c3 = hub.spawn_visual(Material::Wireframe { color: 3 }, gpu(9), None);
    hub.send(&g, Operation::AddChild(c1.pointer()));
    hub.send(&g, Operation::AddChild(c2.pointer()));
    hub.send(&g, Operation::AddChild(c3.pointer()));
    hub.process_messages();
    // Children prepend: the chain is c3, c2, c1.
    hub.send(&g, Operation::RemoveChild(c2.pointer()));
    hub.process_messages();
    match &hub.index(&g).sub_node {
        SubNode::Group { first_child } => assert_eq!(*first_child, Some(c3.pointer())),
        _ => panic!("expected a group"),
    }
    assert_eq!(hub.index(&c3).next_sibling, Some(c1.pointer()));
    assert_eq!(hub.index(&c1).next_sibling, None);
}

#[test]
fn removing_an_unlinked_child_is_a_no_op() {
    let mut hub = Hub::new();
    let g = hub.spawn(SubNode::Group { first_child: None });
    let c1 = hub.spawn_visual(Material::Wireframe { color: 1 }, gpu(10), None);
    let stray = hub.spawn_visual(Material::Wireframe { color: 2 }, gpu(11), None);
    hub.send(&g, Operation::AddChild(c1.pointer()));
    hub.process_messages();
    hub.send(&g, Operation::RemoveChild(stray.pointer()));
    hub.process_messages();
    match &hub.index(&g).sub_node {
        SubNode::Group { first_child } => assert_eq!(*first_child, Some(c1.pointer())),
        _ => panic!("expected a group"),
    }
}

#[test]
fn add_child_to_non_group_is_ignored() {
    let mut hub = Hub::new();
    let mesh = hub.spawn_visual(Material::Wireframe { color: 1 }, gpu(12), None);
    let c = hub.spawn_visual(Material::Wireframe { color: 2 }, gpu(13), None);
    hub.send(&mesh, Operation::AddChild(c.pointer()));
    hub.process_messages();
    assert!(hub.can_resolve(c.pointer()));
    assert_eq!(hub.index(&c).next_sibling, None);
}

#[test]
fn update_mesh_marks_pending_geometry() {
    let mut hub = Hub::new();
    let object = hub.spawn_visual(Material::Wireframe { color: 1 }, gpu(14), None);
    let mesh = DynamicMesh { object, vertex_count: 8, dynamic_id: 42 };
    assert_eq!(mesh.vertex_count(), 8);
    hub.update_mesh(&mesh);
    match &hub.index(&mesh.object).sub_node {
        SubNode::Visual(_, g, _) => assert_eq!(g.pending, Some(42)),
        _ => panic!("expected a renderable"),
    }
}

#[test]
fn relinking_a_linked_child_leaves_the_old_chain_stale() {
    let mut hub = Hub::new();
    let g1 = hub.spawn(SubNode::Group { first_child: None });
    let g2 = hub.spawn(SubNode::Group { first_child: None });
    let c = hub.spawn_visual(Material::Wireframe { color: 1 }, gpu(20), None);
    hub.send(&g1, Operation::AddChild(c.pointer()));
    hub.process_messages();
    // Relocating the still-linked child rewires it under the new group,
    // while the first group keeps its now-misleading head link.
    hub.send(&g2, Operation::AddChild(c.pointer()));
    hub.process_messages();
    match &hub.index(&g2).sub_node {
        SubNode::Group { first_child } => assert_eq!(*first_child, Some(c.pointer())),
        _ => panic!("expected a group"),
    }
    match &hub.index(&g1).sub_node {
        SubNode::Group { first_child } => assert_eq!(*first_child, Some(c.pointer())),
        _ => panic!("expected a group"),
    }
}

#[test]
fn meshes_compare_by_node_identity() {
    let mut hub = Hub::new();
    let object = hub.spawn_visual(Material::Wireframe { color: 1 }, gpu(21), None);
    let twin = hub.clone_handle(&object).expect("live node is upgradable");
    let other = hub.spawn_visual(Material::Wireframe { color: 1 }, gpu(21), None);
    assert!(object == twin);
    assert!(object != other);
    let m1 = DynamicMesh { object, vertex_count: 3, dynamic_id: 1 };
    let m2 = DynamicMesh { object: twin, vertex_count: 99, dynamic_id: 2 };
    assert!(m1 == m2);
}

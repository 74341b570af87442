use three::hub::{Hub, Operation};
use three::node::{GpuData, Material, SubNode};
use three::transform::{Rotation, Transform};

fn gpu(buffer_id: u64) -> GpuData {
    GpuData { buffer_id, w0: 0, w1: 0, w2: 0, w3: 0, pending: None }
}

#[test]
fn world_values_extend_parent_values() {
    let mut hub = Hub::new();
    let root = hub.spawn(SubNode::Group { first_child: None });
    let child = hub.spawn_visual(Material::Wireframe { color: 0x00ff00 }, gpu(1), None);
    hub.send(&root, Operation::SetTransform(Some((2, 3, 4)), None, Some(2)));
    hub.send(&child, Operation::SetTransform(Some((10, 0, 0)), None, None));
    hub.send(&root, Operation::AddChild(child.pointer()));
    hub.process_messages();

    // The walker pops the deepest frame first: the child is yielded
    // before its parent.
    let mut walker = hub.walk_all(Some(root.pointer()));
    let child_frame = walker.next().expect("child frame");
    let root_frame = walker.next().expect("root frame");
    assert!(walker.next().is_none());

    assert_eq!(root_frame.node_ptr, root.pointer());
    assert_eq!(child_frame.node_ptr, child.pointer());
    let child_local = hub.index(&child).transform;
    assert_eq!(
        child_frame.world_transform,
        root_frame.world_transform.concat(&child_local)
    );
    assert_eq!(
        child_frame.world_visible,
        root_frame.world_visible && hub.index(&child).visible
    );
    // The scale-2 parent carries the child translation twice as far.
    assert_eq!(child_frame.world_transform.dx, 22);
    assert_eq!(child_frame.world_transform.dy, 3);
    assert_eq!(child_frame.world_transform.dz, 4);
    assert_eq!(child_frame.world_transform.scale, 2);
}

#[test]
fn rotated_parent_turns_child_displacement() {
    let mut hub = Hub::new();
    let root = hub.spawn(SubNode::Group { first_child: None });
    let child = hub.spawn(SubNode::Group { first_child: None });
    // A quarter turn around the z axis.
    let quarter = Rotation::new(0, -1, 0, 1, 0, 0, 0, 0, 1);
    hub.send(&root, Operation::SetTransform(None, Some(quarter), None));
    hub.send(&child, Operation::SetTransform(Some((5, 0, 0)), None, None));
    hub.send(&root, Operation::AddChild(child.pointer()));
    hub.process_messages();

    let mut walker = hub.walk_all(Some(root.pointer()));
    let child_frame = walker.next().expect("child frame");
    let _root_frame = walker.next().expect("root frame");
    assert_eq!(child_frame.world_transform.dx, 0);
    assert_eq!(child_frame.world_transform.dy, 5);
    assert_eq!(child_frame.world_transform.dz, 0);
    assert_eq!(child_frame.world_transform.rot, quarter);
}

#[test]
fn invisible_root_hides_visible_descendants() {
    let mut hub = Hub::new();
    let root = hub.spawn(SubNode::Group { first_child: None });
    let b = hub.spawn_visual(Material::Basic { color: 0xffffff, map: None }, gpu(2), None);
    hub.send(&root, Operation::SetVisible(false));
    hub.send(&root, Operation::AddChild(b.pointer()));
    hub.process_messages();
    assert!(hub.index(&b).visible);

    let mut walker = hub.walk(Some(root.pointer()));
    let mut yielded: usize = 0;
    loop {
        match walker.next() {
            Some(_) => yielded += 1,
            None => break,
        }
    }
    assert_eq!(yielded, 0);
}

#[test]
fn gated_walk_yields_single_translated_renderable() {
    let mut hub = Hub::new();
    let root = hub.spawn(SubNode::Group { first_child: None });
    let a = hub.spawn_visual(Material::Wireframe { color: 0xff0000 }, gpu(3), None);
    hub.send(&a, Operation::SetTransform(Some((1, 0, 0)), None, None));
    hub.send(&root, Operation::AddChild(a.pointer()));
    hub.process_messages();

    let mut walker = hub.walk(Some(root.pointer()));
    let mut total: usize = 0;
    let mut renderables: usize = 0;
    loop {
        let frame = match walker.next() {
            Some(f) => f,
            None => break,
        };
        total += 1;
        let node = hub.index_ptr(frame.node_ptr);
        if matches!(node.sub_node, SubNode::Visual(..)) {
            renderables += 1;
            assert_eq!(frame.node_ptr, a.pointer());
            assert_eq!(frame.world_transform, Transform::translation(1, 0, 0));
            assert!(frame.world_visible);
        }
    }
    // The pass visits the group root and the renderable; exactly one
    // renderable comes out, posed at translate(1,0,0).
    assert_eq!(renderables, 1);
    assert_eq!(total, 2);
}

#[test]
fn walk_of_missing_root_is_empty() {
    let mut hub = Hub::new();
    let h = hub.spawn(SubNode::Group { first_child: None });
    let p = h.pointer();
    hub.drop_handle(h);
    hub.process_messages();
    let mut walker = hub.walk_all(Some(p));
    assert!(walker.next().is_none());
    let mut walker2 = hub.walk_all(None);
    assert!(walker2.next().is_none());
}

#[test]
fn invisible_leaf_is_skipped_but_siblings_walk_on() {
    let mut hub = Hub::new();
    let root = hub.spawn(SubNode::Group { first_child: None });
    let hidden = hub.spawn_visual(Material::Wireframe { color: 1 }, gpu(4), None);
    let shown = hub.spawn_visual(Material::Wireframe { color: 2 }, gpu(5), None);
    hub.send(&hidden, Operation::SetVisible(false));
    hub.send(&root, Operation::AddChild(hidden.pointer()));
    hub.send(&root, Operation::AddChild(shown.pointer()));
    hub.process_messages();

    let mut walker = hub.walk(Some(root.pointer()));
    let mut seen_hidden: usize = 0;
    let mut seen_shown: usize = 0;
    loop {
        let frame = match walker.next() {
            Some(f) => f,
            None => break,
        };
        if frame.node_ptr == hidden.pointer() {
            seen_hidden += 1;
        }
        if frame.node_ptr == shown.pointer() {
            seen_shown += 1;
        }
    }
    assert_eq!(seen_hidden, 0);
    assert_eq!(seen_shown, 1);
}

use three::hub::{Hub, Operation};
use three::node::{GpuData, Material, SubNode};

fn gpu(buffer_id: u64) -> GpuData {
    GpuData { buffer_id, w0: 0, w1: 0, w2: 0, w3: 0, pending: None }
}

#[test]
fn last_visibility_write_wins() {
    let mut hub = Hub::new();
    let h = hub.spawn(SubNode::Group { first_child: None });
    hub.send(&h, Operation::SetVisible(true));
    hub.send(&h, Operation::SetVisible(false));
    hub.process_messages();
    assert!(!hub.index(&h).visible);

    hub.send(&h, Operation::SetVisible(false));
    hub.send(&h, Operation::SetVisible(true));
    hub.process_messages();
    assert!(hub.index(&h).visible);
}

#[test]
fn add_then_remove_restores_child_list_head() {
    let mut hub = Hub::new();
    let g = hub.spawn(SubNode::Group { first_child: None });
    let c0 = hub.spawn_visual(Material::Wireframe { color: 1 }, gpu(1), None);
    hub.send(&g, Operation::AddChild(c0.pointer()));
    hub.process_messages();
    match &hub.index(&g).sub_node {
        SubNode::Group { first_child } => assert_eq!(*first_child, Some(c0.pointer())),
        _ => panic!("expected a group"),
    }

    let c = hub.spawn_visual(Material::Wireframe { color: 2 }, gpu(2), None);
    hub.send(&g, Operation::AddChild(c.pointer()));
    hub.send(&g, Operation::RemoveChild(c.pointer()));
    hub.process_messages();
    match &hub.index(&g).sub_node {
        SubNode::Group { first_child } => assert_eq!(*first_child, Some(c0.pointer())),
        _ => panic!("expected a group"),
    }
}

#[test]
fn dropping_every_handle_reclaims_the_node() {
    let mut hub = Hub::new();
    let h = hub.spawn(SubNode::Group { first_child: None });
    let p = h.pointer();
    assert!(hub.can_resolve(p));
    hub.drop_handle(h);
    hub.process_messages();
    assert!(!hub.can_resolve(p));
    assert!(hub.upgrade_ptr(p).is_none());
}

#[test]
fn cloned_handle_keeps_the_node_alive() {
    let mut hub = Hub::new();
    let h = hub.spawn(SubNode::Group { first_child: None });
    let p = h.pointer();
    let h2 = hub.clone_handle(&h).expect("live node is upgradable");
    hub.drop_handle(h);
    hub.process_messages();
    assert!(hub.can_resolve(p));
    hub.drop_handle(h2);
    hub.process_messages();
    assert!(!hub.can_resolve(p));
}

#[test]
fn child_link_keeps_the_node_alive_until_removed() {
    let mut hub = Hub::new();
    let g = hub.spawn(SubNode::Group { first_child: None });
    let c = hub.spawn_visual(Material::Wireframe { color: 3 }, gpu(3), None);
    let cp = c.pointer();
    hub.send(&g, Operation::AddChild(cp));
    hub.process_messages();
    hub.drop_handle(c);
    hub.process_messages();
    // The group's child link still references the node.
    assert!(hub.can_resolve(cp));
    hub.send(&g, Operation::RemoveChild(cp));
    hub.process_messages();
    assert!(!hub.can_resolve(cp));
}

#[test]
fn reclaiming_a_group_cascades_to_its_children() {
    let mut hub = Hub::new();
    let g = hub.spawn(SubNode::Group { first_child: None });
    let c = hub.spawn_visual(Material::Wireframe { color: 4 }, gpu(4), None);
    let gp = g.pointer();
    let cp = c.pointer();
    hub.send(&g, Operation::AddChild(cp));
    hub.process_messages();
    hub.drop_handle(c);
    hub.drop_handle(g);
    hub.process_messages();
    assert!(!hub.can_resolve(gp));
    assert!(!hub.can_resolve(cp));
}

#[test]
fn reused_slot_does_not_resurrect_old_pointers() {
    let mut hub = Hub::new();
    let h = hub.spawn(SubNode::Group { first_child: None });
    let stale = h.pointer();
    hub.drop_handle(h);
    hub.process_messages();
    // The next spawn reuses the slot under a fresh generation.
    let fresh = hub.spawn(SubNode::Group { first_child: None });
    assert_eq!(fresh.pointer().index, stale.index);
    assert!(hub.can_resolve(fresh.pointer()));
    assert!(!hub.can_resolve(stale));
}

#[test]
fn message_to_reclaimed_target_is_dropped_silently() {
    let mut hub = Hub::new();
    let g = hub.spawn(SubNode::Group { first_child: None });
    let x = hub.spawn_visual(Material::Wireframe { color: 5 }, gpu(5), None);
    let xp = x.pointer();
    hub.drop_handle(x);
    hub.process_messages();
    assert!(!hub.can_resolve(xp));
    // Linking a reclaimed child is discarded without touching the group.
    hub.send(&g, Operation::AddChild(xp));
    hub.process_messages();
    match &hub.index(&g).sub_node {
        SubNode::Group { first_child } => assert_eq!(*first_child, None),
        _ => panic!("expected a group"),
    }
    assert!(hub.can_resolve(g.pointer()));
}

#[test]
fn skeleton_binding_keeps_the_skeleton_alive() {
    let mut hub = Hub::new();
    let mesh = hub.spawn_visual(Material::Wireframe { color: 6 }, gpu(6), None);
    let skel = hub.spawn_skeleton();
    let sp = skel.pointer();
    hub.send(&mesh, Operation::SetSkeleton(sp));
    hub.process_messages();
    hub.drop_handle(skel);
    hub.process_messages();
    assert!(hub.can_resolve(sp));
    match &hub.index(&mesh).sub_node {
        SubNode::Visual(_, _, skeleton) => assert_eq!(*skeleton, Some(sp)),
        _ => panic!("expected a renderable"),
    }
    // Dropping the mesh releases the binding and the skeleton follows.
    hub.drop_handle(mesh);
    hub.process_messages();
    assert!(!hub.can_resolve(sp));
}

#[test]
fn processing_drains_the_queue_to_exhaustion() {
    let mut hub = Hub::new();
    let h = hub.spawn(SubNode::Group { first_child: None });
    hub.send(&h, Operation::SetVisible(false));
    hub.process_messages();
    assert!(!hub.index(&h).visible);
    // The queue was drained: nothing is re-applied on the next pass.
    hub.send(&h, Operation::SetVisible(true));
    hub.process_messages();
    assert!(hub.index(&h).visible);
    hub.process_messages();
    assert!(hub.index(&h).visible);
}

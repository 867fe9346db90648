use shadertoy::binding::{layout_for, BindGroup, BindingKind, StageTexture};
use shadertoy::dispatch::{dispatch_size, workgroup_count};
use shadertoy::driver::{Dispatch, FrameDriver, UNIFORM_BUFFER_ID};
use shadertoy::graph::{topological_order, DependencyGraph, SetupError};
use shadertoy::node::{MainNode, PipelineStatus, Program, ShadertoyState};
use shadertoy::pipeline::PipelineRegistry;
use shadertoy::uniform::CommonUniform;

fn layouts(producers: &Vec<Vec<usize>>) -> Vec<Vec<BindingKind>> {
    producers.iter().map(|p| layout_for(p.len())).collect()
}

fn driver(producers: Vec<Vec<usize>>, width: u32, height: u32, size: u32) -> FrameDriver {
    let l = layouts(&producers);
    FrameDriver::new(producers, l, width, height, size).unwrap()
}

fn ready_all(d: &mut FrameDriver) {
    for v in 0..d.len() {
        let (i, u) = d.pipelines(v);
        d.report(i, PipelineStatus::Ready);
        d.report(u, PipelineStatus::Ready);
    }
}

fn stages_of(ds: &Vec<Dispatch>) -> Vec<usize> {
    ds.iter().map(|d| d.stage).collect()
}

#[test]
fn three_stage_chain_dispatch_counts() {
    // A = 0, B = 1, Image = 2: A -> B -> Image
    let mut d = driver(vec![vec![], vec![0], vec![1]], 16, 16, 8);
    ready_all(&mut d);
    let frame = d.drive();
    assert_eq!(stages_of(&frame), vec![0, 1, 2]);
    for x in frame.iter() {
        assert_eq!((x.x, x.y, x.z), (2, 2, 1));
        assert_eq!(x.program, Program::Init);
    }
    let frame = d.drive();
    for x in frame.iter() {
        assert_eq!(x.program, Program::Update);
    }
}

#[test]
fn misconfigured_texture_rounds_up() {
    assert_eq!(dispatch_size(15, 15, 8), (2, 2, 1));
    assert_eq!(dispatch_size(16, 16, 8), (2, 2, 1));
    assert_eq!(workgroup_count(15, 8), 2);
    assert_eq!(workgroup_count(17, 8), 3);
    assert_eq!(workgroup_count(0, 8), 0);
    assert_eq!(workgroup_count(1280, 8), 160);
    assert_eq!(workgroup_count(u32::MAX, 2), 2147483648);
    let mut d = driver(vec![vec![], vec![0], vec![1]], 15, 15, 8);
    ready_all(&mut d);
    let frame = d.drive();
    assert_eq!(frame.len(), 3);
    for x in frame.iter() {
        assert_eq!((x.x, x.y, x.z), (2, 2, 1));
    }
}

#[test]
fn failed_init_degrades_stage_and_sole_dependents() {
    // A = 0 fails; B = 1 reads only A; C = 2 is independent;
    // Image = 3 reads B and C.
    let mut d = driver(vec![vec![], vec![0], vec![], vec![1, 2]], 16, 16, 8);
    ready_all(&mut d);
    let mut d2 = driver(vec![vec![], vec![0], vec![], vec![1, 2]], 16, 16, 8);
    let (a_init, _) = d2.pipelines(0);
    for v in 1..4 {
        let (i, u) = d2.pipelines(v);
        d2.report(i, PipelineStatus::Ready);
        d2.report(u, PipelineStatus::Ready);
    }
    d2.report(a_init, PipelineStatus::Failed);
    for _ in 0..3 {
        let frame = d2.drive();
        assert_eq!(d2.state(0), ShadertoyState::Error);
        assert!(d2.is_degraded(0));
        assert!(d2.is_degraded(1));
        assert!(!d2.is_degraded(2));
        assert!(!d2.is_degraded(3));
        assert_eq!(stages_of(&frame).contains(&0), false);
        assert_eq!(stages_of(&frame).contains(&1), false);
        assert!(stages_of(&frame).contains(&2));
        assert!(stages_of(&frame).contains(&3));
    }
    // a later ready report does not revive A
    d2.report(a_init, PipelineStatus::Ready);
    d2.drive();
    assert_eq!(d2.state(0), ShadertoyState::Error);
    assert_eq!(d2.registry().poll(a_init), PipelineStatus::Failed);
    // and the healthy driver dispatches everything
    assert_eq!(d.drive().len(), 4);
}

#[test]
fn failure_propagates_along_a_chain() {
    let mut d = driver(vec![vec![], vec![0], vec![1]], 16, 16, 8);
    ready_all(&mut d);
    let mut f = driver(vec![vec![], vec![0], vec![1]], 16, 16, 8);
    let (ai, _) = f.pipelines(0);
    f.report(ai, PipelineStatus::Failed);
    for v in 1..3 {
        let (i, u) = f.pipelines(v);
        f.report(i, PipelineStatus::Ready);
        f.report(u, PipelineStatus::Ready);
    }
    assert!(f.drive().is_empty());
    assert!(f.is_degraded(2));
    assert_eq!(d.drive().len(), 3);
}

#[test]
fn cyclic_edges_rejected_at_setup() {
    let p = vec![vec![1], vec![0]];
    let l = layouts(&p);
    assert_eq!(FrameDriver::new(p, l, 16, 16, 8).err(), Some(SetupError::CyclicDependency));
    let p = vec![vec![0]];
    let l = layouts(&p);
    assert_eq!(FrameDriver::new(p, l, 16, 16, 8).err(), Some(SetupError::CyclicDependency));
    assert!(matches!(DependencyGraph::new(vec![vec![2], vec![0], vec![1]]), Err(SetupError::CyclicDependency)));
    assert!(topological_order(&vec![vec![1], vec![0]]).is_none());
}

#[test]
fn other_setup_errors() {
    assert_eq!(FrameDriver::new(vec![], vec![], 16, 16, 8).err(), Some(SetupError::NoStages));
    let p = vec![vec![], vec![5]];
    let l = layouts(&p);
    assert_eq!(FrameDriver::new(p, l, 16, 16, 8).err(), Some(SetupError::UnknownStage));
    let p = vec![vec![], vec![0]];
    let l = layouts(&p);
    assert_eq!(FrameDriver::new(p, l, 16, 16, 0).err(), Some(SetupError::ZeroWorkgroupSize));
    let p = vec![vec![], vec![0]];
    let l = vec![layout_for(0), layout_for(0)];
    assert_eq!(FrameDriver::new(p, l, 16, 16, 8).err(), Some(SetupError::BindingMismatch));
    let p = vec![vec![], vec![0]];
    let l = vec![layout_for(0)];
    assert_eq!(FrameDriver::new(p, l, 16, 16, 8).err(), Some(SetupError::BindingMismatch));
    let p = vec![vec![]];
    let l = vec![vec![BindingKind::StorageTexture, BindingKind::StorageTexture]];
    assert_eq!(FrameDriver::new(p, l, 16, 16, 8).err(), Some(SetupError::BindingMismatch));
}

#[test]
fn topological_order_follows_edges() {
    // 0 reads 3, 3 reads 1 and 2, 2 reads 1
    let p = vec![vec![3], vec![], vec![1], vec![1, 2]];
    let g = DependencyGraph::new(p.clone()).unwrap();
    let order = g.order().clone();
    assert_eq!(order.len(), 4);
    let at = |v: usize| order.iter().position(|&x| x == v).unwrap();
    for v in 0..4 {
        for &u in p[v].iter() {
            assert!(at(u) < at(v));
        }
    }
    assert_eq!(g.presentation_stage(), 0);
    let mut d = driver(p.clone(), 16, 16, 8);
    ready_all(&mut d);
    let frame = stages_of(&d.drive());
    assert_eq!(frame, order);
    assert_eq!(d.presentation_texture(), d.texture(0));
}

#[test]
fn loading_stages_do_not_dispatch() {
    let mut d = driver(vec![vec![], vec![0]], 16, 16, 8);
    assert!(d.drive().is_empty());
    assert_eq!(d.state(0), ShadertoyState::Loading);
    let (i0, u0) = d.pipelines(0);
    d.report(i0, PipelineStatus::Compiling);
    assert!(d.drive().is_empty());
    d.report(i0, PipelineStatus::Ready);
    let f = d.drive();
    assert_eq!(f.len(), 1);
    assert_eq!(f[0].stage, 0);
    assert_eq!(f[0].program, Program::Init);
    // update still compiling: init keeps running
    d.report(u0, PipelineStatus::Compiling);
    let f = d.drive();
    assert_eq!(f[0].program, Program::Init);
    assert_eq!(d.state(0), ShadertoyState::Init);
    d.report(u0, PipelineStatus::Ready);
    let f = d.drive();
    assert_eq!(f[0].program, Program::Update);
    assert_eq!(d.state(0), ShadertoyState::Update);
    // update is terminal even if the registry reports something else
    d.report(u0, PipelineStatus::Queued);
    d.report(i0, PipelineStatus::Failed);
    let f = d.drive();
    assert_eq!(f[0].program, Program::Update);
    assert_eq!(d.state(0), ShadertoyState::Update);
}

#[test]
fn node_state_machine_steps() {
    let mut n = MainNode::new();
    assert_eq!(n.state, ShadertoyState::Loading);
    assert_eq!(MainNode::default().state, ShadertoyState::Loading);
    assert_eq!(n.run(), None);
    n.update(PipelineStatus::Queued, PipelineStatus::Ready);
    assert_eq!(n.state, ShadertoyState::Loading);
    n.update(PipelineStatus::Ready, PipelineStatus::Compiling);
    assert_eq!(n.state, ShadertoyState::Init);
    assert_eq!(n.run(), Some(Program::Init));
    n.update(PipelineStatus::Ready, PipelineStatus::Failed);
    assert_eq!(n.state, ShadertoyState::Init);
    n.update(PipelineStatus::Ready, PipelineStatus::Ready);
    assert_eq!(n.state, ShadertoyState::Update);
    assert_eq!(n.run(), Some(Program::Update));
    n.update(PipelineStatus::Failed, PipelineStatus::Failed);
    assert_eq!(n.state, ShadertoyState::Update);
    let mut e = MainNode::new();
    e.update(PipelineStatus::Failed, PipelineStatus::Ready);
    assert_eq!(e.state, ShadertoyState::Error);
    assert_eq!(e.run(), None);
    e.update(PipelineStatus::Ready, PipelineStatus::Ready);
    assert_eq!(e.state, ShadertoyState::Error);
}

#[test]
fn registry_requests_and_polls() {
    let mut r = PipelineRegistry::new();
    assert_eq!(r.len(), 0);
    let a = r.request(0, Program::Init);
    let b = r.request(0, Program::Update);
    assert_eq!((a, b), (0, 1));
    assert_eq!(r.poll(a), PipelineStatus::Queued);
    assert!(!r.is_ready(b));
    r.report(b, PipelineStatus::Ready);
    assert!(r.is_ready(b));
    assert_eq!(r.poll(a), PipelineStatus::Queued);
    r.report(a, PipelineStatus::Failed);
    r.report(a, PipelineStatus::Ready);
    assert_eq!(r.poll(a), PipelineStatus::Failed);
}

#[test]
fn bind_group_slots_in_declared_order() {
    let t = |id: u64| StageTexture { id, width: 4, height: 4 };
    let g = BindGroup::build(2, 0, &vec![t(7), t(5)], t(9));
    assert_eq!(g.stage(), 2);
    assert_eq!(g.len(), 4);
    assert_eq!((g.binding(0), g.binding(1), g.binding(2), g.binding(3)), (0, 7, 5, 9));
    assert_eq!(layout_for(2), vec![
        BindingKind::Uniform,
        BindingKind::StorageTexture,
        BindingKind::StorageTexture,
        BindingKind::StorageTexture,
    ]);
    let d = driver(vec![vec![], vec![], vec![0, 1]], 16, 16, 8);
    let g = d.bind_group(2);
    assert_eq!(g.len(), 4);
    assert_eq!(g.binding(0), UNIFORM_BUFFER_ID);
    assert_eq!(g.binding(1), d.texture(0).id);
    assert_eq!(g.binding(2), d.texture(1).id);
    assert_eq!(g.binding(3), d.texture(2).id);
}

#[test]
fn resize_rebuilds_bind_groups_with_new_textures() {
    let mut d = driver(vec![vec![], vec![0], vec![1]], 16, 16, 8);
    let old: Vec<u64> = (0..3).map(|v| d.texture(v).id).collect();
    assert!(d.can_resize());
    d.stage(1000, 16, 1, Some((32, 24)));
    assert_eq!(d.uniform().width, 32);
    assert_eq!(d.uniform().height, 24);
    for v in 0..3 {
        let t = d.texture(v);
        assert_eq!((t.width, t.height), (32, 24));
        assert!(!old.contains(&t.id));
        let g = d.bind_group(v);
        for i in 0..g.len() {
            assert!(!old.contains(&g.binding(i)));
        }
        assert_eq!(g.binding(g.len() - 1), t.id);
    }
    assert_eq!(d.bind_group(1).binding(1), d.texture(0).id);
    ready_all(&mut d);
    let f = d.drive();
    assert_eq!((f[0].x, f[0].y, f[0].z), (4, 3, 1));
}

#[test]
fn staging_without_resize_keeps_textures_and_bindings() {
    let mut d = driver(vec![vec![], vec![0], vec![1]], 16, 16, 8);
    let before: Vec<(StageTexture, Vec<u64>)> = (0..3)
        .map(|v| (d.texture(v), (0..d.bind_group(v).len()).map(|i| d.bind_group(v).binding(i)).collect()))
        .collect();
    for f in 1..5u64 {
        d.stage(f * 16_000, 16_000, f, None);
        let after: Vec<(StageTexture, Vec<u64>)> = (0..3)
            .map(|v| (d.texture(v), (0..d.bind_group(v).len()).map(|i| d.bind_group(v).binding(i)).collect()))
            .collect();
        assert_eq!(before, after);
        assert_eq!(d.uniform().time_us, f * 16_000);
        assert_eq!(d.uniform().frame, f);
        assert_eq!((d.uniform().width, d.uniform().height), (16, 16));
    }
}

#[test]
fn uniform_staging() {
    let mut u = CommonUniform::new(1280, 720);
    assert_eq!((u.time_us, u.time_delta_us, u.frame), (0, 0, 0));
    u.point(3, -4);
    u.stage(5, 2, 7, None);
    assert_eq!((u.time_us, u.time_delta_us, u.frame), (5, 2, 7));
    assert_eq!((u.width, u.height, u.pointer_x, u.pointer_y), (1280, 720, 3, -4));
    u.stage(9, 4, 8, Some((800, 600)));
    assert_eq!((u.width, u.height), (800, 600));
    let mut d = driver(vec![vec![]], 8, 8, 8);
    d.point(10, 20);
    assert_eq!((d.uniform().pointer_x, d.uniform().pointer_y), (10, 20));
}

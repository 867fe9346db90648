use vstd::prelude::*;
use crate::binding::{binding_ids, expected_layout, layout_matches, BindGroup, BindingKind, StageTexture};
use crate::dispatch::{dispatch_size, groups_for};
use crate::graph::{acyclic, edges_in_range, DependencyGraph, SetupError};
use crate::node::{next_state, program_of, MainNode, PipelineStatus, Program, ShadertoyState};
use crate::pipeline::{PipelineEntry, PipelineRegistry};
use crate::uniform::CommonUniform;

verus! {

/// Resource id of the frame uniform buffer; texture ids start above it.
pub const UNIFORM_BUFFER_ID: u64 = 0;

/// One compute dispatch: the stage, the program it runs and its workgroup
/// counts.
#[derive(Clone, Copy, Debug, PartialEq, Eq, Structural)]
pub struct Dispatch {
    pub stage: usize,
    pub program: Program,
    pub x: u32,
    pub y: u32,
    pub z: u32,
}

/// A stage is degraded when it is in Error, or when it has producers and
/// every one of them is degraded.
pub open spec fn degraded_rule(
    p: Seq<Seq<usize>>,
    states: Seq<ShadertoyState>,
    degraded: Seq<bool>,
    v: int,
) -> bool {
    degraded[v] == (states[v] == ShadertoyState::Error || (p[v].len() > 0 && forall|k: int|
        0 <= k < p[v].len() ==> #[trigger] degraded[p[v][k] as int]))
}

/// Whether stage `v` dispatches: its state has a program and it is not
/// degraded.
pub open spec fn dispatches(states: Seq<ShadertoyState>, degraded: Seq<bool>, v: int) -> bool {
    program_of(states[v]) is Some && !degraded[v]
}

/// The dispatch issued for stage `v`.
pub open spec fn dispatch_of(
    states: Seq<ShadertoyState>,
    textures: Seq<StageTexture>,
    size: u32,
    v: int,
) -> Dispatch {
    Dispatch {
        stage: v as usize,
        program: program_of(states[v])->Some_0,
        x: groups_for(textures[v].width as nat, size as nat) as u32,
        y: groups_for(textures[v].height as nat, size as nat) as u32,
        z: 1,
    }
}

/// The dispatches of the first `k` stages of `order`, in that order.
pub open spec fn plan(
    order: Seq<usize>,
    states: Seq<ShadertoyState>,
    degraded: Seq<bool>,
    textures: Seq<StageTexture>,
    size: u32,
    k: nat,
) -> Seq<Dispatch>
    decreases k,
{
    if k == 0 {
        seq![]
    } else {
        let prev = plan(order, states, degraded, textures, size, (k - 1) as nat);
        let v = order[k - 1] as int;
        if dispatches(states, degraded, v) {
            prev.push(dispatch_of(states, textures, size, v))
        } else {
            prev
        }
    }
}

/// The textures a stage reads, in its declared producer order.
pub open spec fn inputs_of(ps: Seq<usize>, textures: Seq<StageTexture>) -> Seq<StageTexture> {
    ps.map_values(|u: usize| textures[u as int])
}

/// The textures stage `v` reads, in declared producer order.
fn inputs_for(graph: &DependencyGraph, textures: &Vec<StageTexture>, v: usize) -> (r: Vec<StageTexture>)
    requires
        graph.wf(),
        textures@.len() == graph.producers_view().len(),
        v < graph.producers_view().len(),
    ensures
        r@ == inputs_of(graph.producers_view()[v as int], textures@),
{
    let ps = graph.producers(v);
    let ghost p = graph.producers_view();
    let mut r: Vec<StageTexture> = Vec::new();
    let mut k: usize = 0;
    while k < ps.len()
        invariant
            ps@ == p[v as int],
            edges_in_range(p),
            textures@.len() == p.len(),
            0 <= v < p.len(),
            0 <= k <= ps@.len(),
            r@ =~= inputs_of(ps@.subrange(0, k as int), textures@),
        decreases ps@.len() - k,
    {
        assert(ps@[k as int] < p.len());
        r.push(textures[ps[k]]);
        k = k + 1;
        assert(r@ =~= inputs_of(ps@.subrange(0, k as int), textures@));
    }
    assert(ps@.subrange(0, ps@.len() as int) =~= ps@);
    r
}

/// One bind group per stage, built from the current textures.
fn bind_groups_for(graph: &DependencyGraph, textures: &Vec<StageTexture>) -> (r: Vec<BindGroup>)
    requires
        graph.wf(),
        textures@.len() == graph.producers_view().len(),
    ensures
        r@.len() == textures@.len(),
        forall|v: int| 0 <= v < r@.len() ==> {
            &&& (#[trigger] r@[v]).stage_view() == v
            &&& r@[v].view() == binding_ids(
                UNIFORM_BUFFER_ID,
                inputs_of(graph.producers_view()[v], textures@),
                textures@[v],
            )
        },
{
    let n = graph.len();
    let mut r: Vec<BindGroup> = Vec::new();
    let mut v: usize = 0;
    while v < n
        invariant
            graph.wf(),
            n == graph.producers_view().len(),
            textures@.len() == n,
            0 <= v <= n,
            r@.len() == v,
            forall|w: int| 0 <= w < v ==> {
                &&& (#[trigger] r@[w]).stage_view() == w
                &&& r@[w].view() == binding_ids(
                    UNIFORM_BUFFER_ID,
                    inputs_of(graph.producers_view()[w], textures@),
                    textures@[w],
                )
            },
        decreases n - v,
    {
        let deps = inputs_for(graph, textures, v);
        let g = BindGroup::build(v, UNIFORM_BUFFER_ID, &deps, textures[v]);
        r.push(g);
        v = v + 1;
    }
    r
}

/// The producer lists as sequences.
pub open spec fn nested(producers: Seq<Vec<usize>>) -> Seq<Seq<usize>> {
    producers.map_values(|v: Vec<usize>| v@)
}

/// At least one stage, every edge in range, no cycle.
pub open spec fn graph_ok(p: Seq<Seq<usize>>) -> bool {
    p.len() > 0 && edges_in_range(p) && acyclic(p)
}

/// One declared layout per stage, each the one its producers call for.
pub open spec fn layouts_match(p: Seq<Seq<usize>>, layouts: Seq<Vec<BindingKind>>) -> bool {
    layouts.len() == p.len() && forall|v: int| 0 <= v < p.len() ==> (#[trigger] layouts[v])@
        == expected_layout(p[v].len())
}

/// Owns the graph, the stage nodes, their textures and bind groups, the
/// pipeline registry and the frame uniform, and drives them frame by frame.
pub struct FrameDriver {
    graph: DependencyGraph,
    nodes: Vec<MainNode>,
    init_pipelines: Vec<usize>,
    update_pipelines: Vec<usize>,
    registry: PipelineRegistry,
    textures: Vec<StageTexture>,
    bind_groups: Vec<BindGroup>,
    degraded: Vec<bool>,
    uniform: CommonUniform,
    next_texture_id: u64,
    workgroup_size: u32,
}

impl FrameDriver {
    pub closed spec fn producers_view(&self) -> Seq<Seq<usize>> {
        self.graph.producers_view()
    }

    pub closed spec fn order_view(&self) -> Seq<usize> {
        self.graph.order_view()
    }

    pub closed spec fn states_view(&self) -> Seq<ShadertoyState> {
        self.nodes@.map_values(|n: MainNode| n.state)
    }

    pub closed spec fn init_view(&self) -> Seq<usize> {
        self.init_pipelines@
    }

    pub closed spec fn update_view(&self) -> Seq<usize> {
        self.update_pipelines@
    }

    pub closed spec fn registry_view(&self) -> Seq<PipelineEntry> {
        self.registry.view()
    }

    pub closed spec fn textures_view(&self) -> Seq<StageTexture> {
        self.textures@
    }

    pub closed spec fn bind_groups_view(&self) -> Seq<Seq<u64>> {
        self.bind_groups@.map_values(|g: BindGroup| g.view())
    }

    pub closed spec fn degraded_view(&self) -> Seq<bool> {
        self.degraded@
    }

    pub closed spec fn uniform_view(&self) -> CommonUniform {
        self.uniform
    }

    pub closed spec fn next_id_view(&self) -> u64 {
        self.next_texture_id
    }

    pub closed spec fn workgroup_view(&self) -> u32 {
        self.workgroup_size
    }

    /// Every stage's bind group holds, slot by slot, the uniform buffer, its
    /// producers' current textures and its own current texture.
    pub open spec fn bindings_current(&self) -> bool {
        &&& self.bind_groups_view().len() == self.producers_view().len()
        &&& forall|v: int| 0 <= v < self.producers_view().len() ==> #[trigger] self.bind_groups_view()[v]
            == binding_ids(
            UNIFORM_BUFFER_ID,
            inputs_of(self.producers_view()[v], self.textures_view()),
            self.textures_view()[v],
        )
    }

    pub closed spec fn wf(&self) -> bool {
        let n = self.producers_view().len();
        let p = self.producers_view();
        &&& self.graph.wf()
        &&& self.nodes@.len() == n
        &&& self.init_pipelines@.len() == n
        &&& self.update_pipelines@.len() == n
        &&& self.textures@.len() == n
        &&& self.bind_groups@.len() == n
        &&& self.degraded@.len() == n
        &&& self.workgroup_size > 0
        &&& forall|v: int| 0 <= v < n ==> {
            &&& #[trigger] self.init_pipelines@[v] < self.registry.view().len()
            &&& self.update_pipelines@[v] < self.registry.view().len()
            &&& self.registry.view()[self.init_pipelines@[v] as int].stage == v
            &&& self.registry.view()[self.init_pipelines@[v] as int].program == Program::Init
            &&& self.registry.view()[self.update_pipelines@[v] as int].stage == v
            &&& self.registry.view()[self.update_pipelines@[v] as int].program == Program::Update
        }
        &&& forall|v: int| 0 <= v < n ==> {
            &&& UNIFORM_BUFFER_ID < (#[trigger] self.textures@[v]).id
            &&& self.textures@[v].id < self.next_texture_id
        }
        &&& forall|v: int| 0 <= v < n ==> {
            &&& (#[trigger] self.bind_groups@[v]).stage_view() == v
            &&& self.bind_groups@[v].view() == binding_ids(
                UNIFORM_BUFFER_ID,
                inputs_of(p[v], self.textures@),
                self.textures@[v],
            )
        }
        &&& forall|v: int| 0 <= v < n ==> #[trigger] degraded_rule(p, self.states_view(), self.degraded@, v)
    }

    /// Wires the stages. `producers[v]` lists the stages whose textures
    /// stage `v` reads, in binding order, and `layouts[v]` the binding
    /// layout its program declares. Every texture is `width` × `height` and
    /// is tiled by workgroups of side `workgroup_size`. Configuration errors
    /// are reported here, before any frame is driven.
    pub fn new(
        producers: Vec<Vec<usize>>,
        layouts: Vec<Vec<BindingKind>>,
        width: u32,
        height: u32,
        workgroup_size: u32,
    ) -> (r: Result<FrameDriver, SetupError>)
        requires
            producers@.len() < usize::MAX / 2,
        ensures
            r == Err::<FrameDriver, SetupError>(SetupError::ZeroWorkgroupSize) <==> workgroup_size == 0,
            r == Err::<FrameDriver, SetupError>(SetupError::NoStages) <==> workgroup_size > 0
                && producers@.len() == 0,
            r == Err::<FrameDriver, SetupError>(SetupError::UnknownStage) <==> workgroup_size > 0
                && producers@.len() > 0 && !edges_in_range(nested(producers@)),
            r == Err::<FrameDriver, SetupError>(SetupError::CyclicDependency) <==> workgroup_size > 0
                && producers@.len() > 0 && edges_in_range(nested(producers@)) && !acyclic(nested(producers@)),
            r == Err::<FrameDriver, SetupError>(SetupError::BindingMismatch) <==> workgroup_size > 0
                && graph_ok(nested(producers@)) && !layouts_match(nested(producers@), layouts@),
            r is Ok <==> workgroup_size > 0 && graph_ok(nested(producers@)) && layouts_match(
                nested(producers@),
                layouts@,
            ),
            r matches Ok(d) ==> {
                let n = producers@.len();
                &&& d.wf()
                &&& d.bindings_current()
                &&& d.producers_view() == nested(producers@)
                &&& d.workgroup_view() == workgroup_size
                &&& d.uniform_view() == CommonUniform::new_spec(width, height)
                &&& d.next_id_view() == n + 1
                &&& d.registry_view().len() == 2 * n
                &&& forall|v: int| 0 <= v < n ==> #[trigger] d.states_view()[v] == ShadertoyState::Loading
                &&& forall|v: int| 0 <= v < n ==> !#[trigger] d.degraded_view()[v]
                &&& forall|v: int| 0 <= v < n ==> #[trigger] d.textures_view()[v] == (StageTexture { id: (v + 1) as u64, width, height })
                &&& forall|v: int| 0 <= v < n ==> #[trigger] d.init_view()[v] == 2 * v
                &&& forall|v: int| 0 <= v < n ==> #[trigger] d.update_view()[v] == 2 * v + 1
                &&& forall|v: int| 0 <= v < n ==> #[trigger] d.registry_view()[2 * v] == (PipelineEntry { stage: v as usize, program: Program::Init, status: PipelineStatus::Queued })
                &&& forall|v: int| 0 <= v < n ==> #[trigger] d.registry_view()[2 * v + 1] == (PipelineEntry { stage: v as usize, program: Program::Update, status: PipelineStatus::Queued })
            },
    {
        if workgroup_size == 0 {
            return Err(SetupError::ZeroWorkgroupSize);
        }
        let ghost p = nested(producers@);
        let graph = match DependencyGraph::new(producers) {
            Ok(g) => g,
            Err(e) => {
                return Err(e);
            },
        };
        let n = graph.len();
        assert(graph.producers_view() == p);
        assert(n > 0 && edges_in_range(p) && acyclic(p));
        if layouts.len() != n {
            return Err(SetupError::BindingMismatch);
        }
        let mut v: usize = 0;
        while v < n
            invariant
                graph.wf(),
                graph.producers_view() == p,
                p == nested(producers@),
                graph_ok(p),
                workgroup_size > 0,
                n == p.len(),
                layouts@.len() == n,
                0 <= v <= n,
                forall|w: int| 0 <= w < v ==> (#[trigger] layouts@[w])@ == expected_layout(p[w].len()),
            decreases n - v,
        {
            if !layout_matches(&layouts[v], graph.producers(v).len()) {
                assert(layouts@[v as int]@ != expected_layout(p[v as int].len()));
                return Err(SetupError::BindingMismatch);
            }
            v = v + 1;
        }
        let mut registry = PipelineRegistry::new();
        let mut nodes: Vec<MainNode> = Vec::new();
        let mut init_pipelines: Vec<usize> = Vec::new();
        let mut update_pipelines: Vec<usize> = Vec::new();
        let mut textures: Vec<StageTexture> = Vec::new();
        let mut degraded: Vec<bool> = Vec::new();
        let mut v: usize = 0;
        while v < n
            invariant
                n == p.len(),
                n < usize::MAX / 2,
                0 <= v <= n,
                registry.view().len() == 2 * v,
                nodes@.len() == v,
                init_pipelines@.len() == v,
                update_pipelines@.len() == v,
                textures@.len() == v,
                degraded@.len() == v,
                forall|w: int| 0 <= w < v ==> (#[trigger] nodes@[w]).state == ShadertoyState::Loading,
                forall|w: int| 0 <= w < v ==> !#[trigger] degraded@[w],
                forall|w: int| 0 <= w < v ==> #[trigger] textures@[w] == (StageTexture { id: (w + 1) as u64, width, height }),
                forall|w: int| 0 <= w < v ==> #[trigger] init_pipelines@[w] == 2 * w,
                forall|w: int| 0 <= w < v ==> #[trigger] update_pipelines@[w] == 2 * w + 1,
                forall|w: int| 0 <= w < v ==> #[trigger] registry.view()[2 * w] == (PipelineEntry { stage: w as usize, program: Program::Init, status: PipelineStatus::Queued }),
                forall|w: int| 0 <= w < v ==> #[trigger] registry.view()[2 * w + 1] == (PipelineEntry { stage: w as usize, program: Program::Update, status: PipelineStatus::Queued }),
            decreases n - v,
        {
            let i = registry.request(v, Program::Init);
            let u = registry.request(v, Program::Update);
            init_pipelines.push(i);
            update_pipelines.push(u);
            nodes.push(MainNode::new());
            degraded.push(false);
            textures.push(StageTexture { id: v as u64 + 1, width, height });
            v = v + 1;
        }
        let bind_groups = bind_groups_for(&graph, &textures);
        let d = FrameDriver {
            graph,
            nodes,
            init_pipelines,
            update_pipelines,
            registry,
            textures,
            bind_groups,
            degraded,
            uniform: CommonUniform::new(width, height),
            next_texture_id: n as u64 + 1,
            workgroup_size,
        };
        assert forall|w: int| 0 <= w < n implies #[trigger] degraded_rule(p, d.states_view(), d.degraded@, w) by {
            if p[w].len() > 0 {
                assert(!d.degraded@[p[w][0] as int]);
            }
        }
        assert(d.states_view() =~= Seq::new(n as nat, |w: int| ShadertoyState::Loading));
        Ok(d)
    }

    /// Advances every stage's state machine from the registry's latest
    /// statuses, recomputes which stages are degraded, and returns the
    /// frame's dispatches in topological order. A stage dispatches when its
    /// state has a program and it is not degraded.
    pub fn drive(&mut self) -> (r: Vec<Dispatch>)
        requires
            old(self).wf(),
        ensures
            final(self).wf(),
            final(self).producers_view() == old(self).producers_view(),
            final(self).order_view() == old(self).order_view(),
            final(self).init_view() == old(self).init_view(),
            final(self).update_view() == old(self).update_view(),
            final(self).registry_view() == old(self).registry_view(),
            final(self).textures_view() == old(self).textures_view(),
            final(self).bind_groups_view() == old(self).bind_groups_view(),
            final(self).uniform_view() == old(self).uniform_view(),
            final(self).next_id_view() == old(self).next_id_view(),
            final(self).workgroup_view() == old(self).workgroup_view(),
            final(self).states_view().len() == old(self).states_view().len(),
            forall|v: int| 0 <= v < old(self).states_view().len() ==> #[trigger] final(self).states_view()[v]
                == next_state(
                    old(self).states_view()[v],
                    old(self).registry_view()[old(self).init_view()[v] as int].status,
                    old(self).registry_view()[old(self).update_view()[v] as int].status,
                ),
            final(self).degraded_view().len() == old(self).states_view().len(),
            forall|v: int| 0 <= v < old(self).states_view().len() ==> #[trigger] degraded_rule(
                final(self).producers_view(),
                final(self).states_view(),
                final(self).degraded_view(),
                v,
            ),
            r@ == plan(
                final(self).order_view(),
                final(self).states_view(),
                final(self).degraded_view(),
                final(self).textures_view(),
                final(self).workgroup_view(),
                final(self).order_view().len(),
            ),
    {
        let n = self.graph.len();
        let ghost p = self.producers_view();
        let ghost old_states = self.states_view();
        let mut nodes: Vec<MainNode> = Vec::new();
        let mut v: usize = 0;
        while v < n
            invariant
                self.wf(),
                n == self.producers_view().len(),
                old_states == self.states_view(),
                0 <= v <= n,
                nodes@.len() == v,
                forall|w: int| 0 <= w < v ==> (#[trigger] nodes@[w]).state == next_state(
                    old_states[w],
                    self.registry.view()[self.init_pipelines@[w] as int].status,
                    self.registry.view()[self.update_pipelines@[w] as int].status,
                ),
            decreases n - v,
        {
            let init = self.registry.poll(self.init_pipelines[v]);
            let update = self.registry.poll(self.update_pipelines[v]);
            let mut node = self.nodes[v];
            node.update(init, update);
            nodes.push(node);
            v = v + 1;
        }
        let ghost states = nodes@.map_values(|n: MainNode| n.state);
        let ghost order = self.graph.order_view();
        let ghost pos = self.graph.pos_view();
        let order_ref = self.graph.order();
        let mut flags: Vec<bool> = Vec::new();
        let mut v: usize = 0;
        while v < n
            invariant
                0 <= v <= n,
                flags@.len() == v,
            decreases n - v,
        {
            flags.push(false);
            v = v + 1;
        }
        let mut i: usize = 0;
        while i < n
            invariant
                self.wf(),
                n == p.len(),
                p == self.producers_view(),
                order == self.graph.order_view(),
                pos == self.graph.pos_view(),
                order_ref@ == order,
                states == nodes@.map_values(|n: MainNode| n.state),
                nodes@.len() == n,
                flags@.len() == n,
                0 <= i <= n,
                forall|w: int| 0 <= w < n && pos[w] < i ==> #[trigger] degraded_rule(p, states, flags@, w),
            decreases n - i,
        {
            let v = order_ref[i];
            let ps = self.graph.producers(v);
            let mut all = ps.len() > 0;
            let mut k: usize = 0;
            while k < ps.len()
                invariant
                    self.wf(),
                    n == p.len(),
                    p == self.producers_view(),
                    flags@.len() == n,
                    v < n,
                    ps@ == p[v as int],
                    0 <= k <= ps@.len(),
                    all == (ps@.len() > 0 && forall|j: int| 0 <= j < k ==> flags@[#[trigger] ps@[j] as int]),
                decreases ps@.len() - k,
            {
                assert(ps@[k as int] < n);
                all = all && flags[ps[k]];
                k = k + 1;
            }
            let val = nodes[v].state == ShadertoyState::Error || all;
            let ghost before = flags@;
            flags.set(v, val);
            proof {
                assert(pos[v as int] == i);
                assert forall|w: int| 0 <= w < n && pos[w] < i + 1 implies #[trigger] degraded_rule(p, states, flags@, w) by {
                    assert forall|k: int| 0 <= k < p[w].len() implies flags@[p[w][k] as int] == before[p[w][k] as int] by {
                        assert(pos[p[w][k] as int] < pos[w]);
                    }
                    if w != v {
                        assert(degraded_rule(p, states, before, w));
                    }
                }
            }
            i = i + 1;
        }
        let mut r: Vec<Dispatch> = Vec::new();
        let mut i: usize = 0;
        while i < n
            invariant
                self.wf(),
                n == p.len(),
                p == self.producers_view(),
                order == self.graph.order_view(),
                order_ref@ == order,
                states == nodes@.map_values(|n: MainNode| n.state),
                nodes@.len() == n,
                flags@.len() == n,
                0 <= i <= n,
                r@ == plan(order, states, flags@, self.textures@, self.workgroup_size, i as nat),
            decreases n - i,
        {
            let v = order_ref[i];
            assert(states[v as int] == nodes@[v as int].state);
            match nodes[v].run() {
                Some(program) => {
                    if !flags[v] {
                        let (x, y, z) = dispatch_size(self.textures[v].width, self.textures[v].height, self.workgroup_size);
                        r.push(Dispatch { stage: v, program, x, y, z });
                    }
                },
                None => {},
            }
            assert(r@ == plan(order, states, flags@, self.textures@, self.workgroup_size, (i + 1) as nat));
            i = i + 1;
        }
        self.nodes = nodes;
        self.degraded = flags;
        r
    }

    /// Frame start: updates the uniform record and, on a resize, replaces
    /// every stage texture by a new one of the new size and rebuilds every
    /// bind group from the new textures.
    pub fn stage(&mut self, time_us: u64, time_delta_us: u64, frame: u64, resize: Option<(u32, u32)>)
        requires
            old(self).wf(),
            resize is Some ==> old(self).next_id_view() + old(self).producers_view().len() <= u64::MAX,
        ensures
            final(self).wf(),
            final(self).bindings_current(),
            final(self).producers_view() == old(self).producers_view(),
            final(self).order_view() == old(self).order_view(),
            final(self).states_view() == old(self).states_view(),
            final(self).degraded_view() == old(self).degraded_view(),
            final(self).init_view() == old(self).init_view(),
            final(self).update_view() == old(self).update_view(),
            final(self).registry_view() == old(self).registry_view(),
            final(self).workgroup_view() == old(self).workgroup_view(),
            final(self).uniform_view() == (CommonUniform {
                time_us,
                time_delta_us,
                frame,
                width: match resize {
                    Some(r) => r.0,
                    None => old(self).uniform_view().width,
                },
                height: match resize {
                    Some(r) => r.1,
                    None => old(self).uniform_view().height,
                },
                ..old(self).uniform_view()
            }),
            resize is None ==> {
                &&& final(self).textures_view() == old(self).textures_view()
                &&& final(self).bind_groups_view() == old(self).bind_groups_view()
                &&& final(self).next_id_view() == old(self).next_id_view()
            },
            resize matches Some((w, h)) ==> {
                &&& final(self).next_id_view() == old(self).next_id_view() + old(self).producers_view().len()
                &&& final(self).textures_view().len() == old(self).textures_view().len()
                &&& forall|v: int| 0 <= v < old(self).textures_view().len() ==> #[trigger] final(self).textures_view()[v]
                    == (StageTexture { id: (old(self).next_id_view() + v) as u64, width: w, height: h })
            },
            resize is Some ==> forall|v: int, i: int, u: int|
                0 <= v < final(self).bind_groups_view().len() && 0 <= i < final(self).bind_groups_view()[v].len()
                    && 0 <= u < old(self).textures_view().len() ==> #[trigger] final(self).bind_groups_view()[v][i]
                    != #[trigger] old(self).textures_view()[u].id,
    {
        self.uniform.stage(time_us, time_delta_us, frame, resize);
        assert(self.states_view() == old(self).states_view());
        assert forall|v: int| 0 <= v < self.producers_view().len() implies #[trigger] degraded_rule(
            self.producers_view(),
            self.states_view(),
            self.degraded@,
            v,
        ) by {
            assert(degraded_rule(old(self).producers_view(), old(self).states_view(), old(self).degraded@, v));
        }
        if let Some((w, h)) = resize {
            let n = self.graph.len();
            let ghost old_textures = self.textures@;
            let lo = self.next_texture_id;
            let mut textures: Vec<StageTexture> = Vec::new();
            let mut v: usize = 0;
            while v < n
                invariant
                    0 <= v <= n,
                    lo + n <= u64::MAX,
                    n == self.producers_view().len(),
                    textures@.len() == v,
                    forall|x: int| 0 <= x < v ==> #[trigger] textures@[x] == (StageTexture { id: (lo + x) as u64, width: w, height: h }),
                decreases n - v,
            {
                textures.push(StageTexture { id: lo + v as u64, width: w, height: h });
                v = v + 1;
            }
            let groups = bind_groups_for(&self.graph, &textures);
            self.textures = textures;
            self.bind_groups = groups;
            self.next_texture_id = lo + n as u64;
            proof {
                let p = self.producers_view();
                assert(old_textures[0].id < lo);
                assert(self.states_view() == old(self).states_view());
                assert forall|v: int| 0 <= v < n implies #[trigger] degraded_rule(p, self.states_view(), self.degraded@, v) by {
                    assert(degraded_rule(p, old(self).states_view(), old(self).degraded@, v));
                }
                assert forall|v: int, i: int, u: int|
                    0 <= v < n && 0 <= i < self.bind_groups_view()[v].len()
                        && 0 <= u < n implies #[trigger] self.bind_groups_view()[v][i]
                        != #[trigger] old_textures[u].id by {
                    lemma_binding_ids_floor(p[v], self.textures@, v, lo, i);
                }
            }
        }
    }

    /// Whether the texture id space still has room for one more resize.
    pub fn can_resize(&self) -> (r: bool)
        requires
            self.wf(),
        ensures
            r == (self.next_id_view() + self.producers_view().len() <= u64::MAX),
    {
        let n = self.graph.len() as u64;
        self.next_texture_id <= u64::MAX - n
    }

    /// Records a status reported by the compiler for pipeline `h`.
    pub fn report(&mut self, h: usize, status: PipelineStatus)
        requires
            old(self).wf(),
            h < old(self).registry_view().len(),
        ensures
            final(self).wf(),
            final(self).registry_view() == old(self).registry_view().update(
                h as int,
                PipelineEntry { status: crate::pipeline::absorb(old(self).registry_view()[h as int].status, status), ..old(self).registry_view()[h as int] },
            ),
            final(self).producers_view() == old(self).producers_view(),
            final(self).order_view() == old(self).order_view(),
            final(self).states_view() == old(self).states_view(),
            final(self).degraded_view() == old(self).degraded_view(),
            final(self).init_view() == old(self).init_view(),
            final(self).update_view() == old(self).update_view(),
            final(self).textures_view() == old(self).textures_view(),
            final(self).bind_groups_view() == old(self).bind_groups_view(),
            final(self).uniform_view() == old(self).uniform_view(),
            final(self).next_id_view() == old(self).next_id_view(),
            final(self).workgroup_view() == old(self).workgroup_view(),
    {
        self.registry.report(h, status);
        assert forall|v: int| 0 <= v < self.producers_view().len() implies #[trigger] degraded_rule(
            self.producers_view(),
            self.states_view(),
            self.degraded@,
            v,
        ) by {
            assert(degraded_rule(old(self).producers_view(), old(self).states_view(), old(self).degraded@, v));
        }
        assert forall|v: int| 0 <= v < self.producers_view().len() implies #[trigger] self.init_pipelines@[v]
            < self.registry.view().len() && self.registry.view()[self.init_pipelines@[v] as int].stage == v
            && self.registry.view()[self.init_pipelines@[v] as int].program == Program::Init
            && self.registry.view()[self.update_pipelines@[v] as int].stage == v
            && self.registry.view()[self.update_pipelines@[v] as int].program == Program::Update by {
            assert(old(self).init_pipelines@[v] < old(self).registry.view().len());
        }
    }

    /// Records the latest pointer position in the uniform record.
    pub fn point(&mut self, x: i32, y: i32)
        requires
            old(self).wf(),
        ensures
            final(self).wf(),
            final(self).uniform_view() == (CommonUniform { pointer_x: x, pointer_y: y, ..old(self).uniform_view() }),
            final(self).producers_view() == old(self).producers_view(),
            final(self).order_view() == old(self).order_view(),
            final(self).states_view() == old(self).states_view(),
            final(self).degraded_view() == old(self).degraded_view(),
            final(self).registry_view() == old(self).registry_view(),
            final(self).textures_view() == old(self).textures_view(),
            final(self).bind_groups_view() == old(self).bind_groups_view(),
    {
        self.uniform.point(x, y);
        assert forall|v: int| 0 <= v < self.producers_view().len() implies #[trigger] degraded_rule(
            self.producers_view(),
            self.states_view(),
            self.degraded@,
            v,
        ) by {
            assert(degraded_rule(old(self).producers_view(), old(self).states_view(), old(self).degraded@, v));
        }
    }

    /// Number of stages.
    pub fn len(&self) -> (r: usize)
        ensures
            r == self.producers_view().len(),
    {
        self.graph.len()
    }

    /// The walk order of the stages.
    pub fn order(&self) -> (r: &Vec<usize>)
        requires
            self.wf(),
        ensures
            r@ == self.order_view(),
            crate::graph::is_topological_order(self.producers_view(), r@),
    {
        self.graph.order()
    }

    /// The state of stage `v`.
    pub fn state(&self, v: usize) -> (r: ShadertoyState)
        requires
            self.wf(),
            v < self.producers_view().len(),
        ensures
            r == self.states_view()[v as int],
    {
        self.nodes[v].state
    }

    /// Whether stage `v` is degraded.
    pub fn is_degraded(&self, v: usize) -> (r: bool)
        requires
            self.wf(),
            v < self.producers_view().len(),
        ensures
            r == self.degraded_view()[v as int],
    {
        self.degraded[v]
    }

    /// The output texture of stage `v`.
    pub fn texture(&self, v: usize) -> (r: StageTexture)
        requires
            self.wf(),
            v < self.producers_view().len(),
        ensures
            r == self.textures_view()[v as int],
    {
        self.textures[v]
    }

    /// The current bind group of stage `v`.
    pub fn bind_group(&self, v: usize) -> (r: &BindGroup)
        requires
            self.wf(),
            v < self.producers_view().len(),
        ensures
            r.view() == self.bind_groups_view()[v as int],
            r.stage_view() == v,
    {
        &self.bind_groups[v]
    }

    /// Handles of stage `v`'s "init" and "update" pipelines.
    pub fn pipelines(&self, v: usize) -> (r: (usize, usize))
        requires
            self.wf(),
            v < self.producers_view().len(),
        ensures
            r == (self.init_view()[v as int], self.update_view()[v as int]),
    {
        (self.init_pipelines[v], self.update_pipelines[v])
    }

    /// The pipeline registry.
    pub fn registry(&self) -> (r: &PipelineRegistry)
        ensures
            r.view() == self.registry_view(),
    {
        &self.registry
    }

    /// The current uniform record.
    pub fn uniform(&self) -> (r: CommonUniform)
        ensures
            r == self.uniform_view(),
    {
        self.uniform
    }

    /// The texture handed to presentation: the output of the last stage in
    /// the walk order.
    pub fn presentation_texture(&self) -> (r: StageTexture)
        requires
            self.wf(),
        ensures
            r == self.textures_view()[self.order_view().last() as int],
    {
        self.textures[self.graph.presentation_stage()]
    }
}

/// Every slot of a bind group built over textures whose ids are all at
/// least `lo` holds the uniform buffer or an id of at least `lo`.
proof fn lemma_binding_ids_floor(ps: Seq<usize>, textures: Seq<StageTexture>, v: int, lo: u64, i: int)
    requires
        0 <= v < textures.len(),
        forall|j: int| 0 <= j < ps.len() ==> ps[j] < textures.len(),
        forall|x: int| 0 <= x < textures.len() ==> #[trigger] textures[x].id >= lo,
        0 <= i < binding_ids(UNIFORM_BUFFER_ID, inputs_of(ps, textures), textures[v]).len(),
    ensures
        ({
            let b = binding_ids(UNIFORM_BUFFER_ID, inputs_of(ps, textures), textures[v])[i];
            b == UNIFORM_BUFFER_ID || b >= lo
        }),
{
    let ins = inputs_of(ps, textures);
    let b = binding_ids(UNIFORM_BUFFER_ID, ins, textures[v]);
    if 1 <= i <= ins.len() {
        assert(b[i] == ins[i - 1].id);
        assert(ins[i - 1] == textures[ps[i - 1] as int]);
    }
}

/// The walk position of each dispatch of `plan` over the first `k` stages.
pub open spec fn plan_positions(
    order: Seq<usize>,
    states: Seq<ShadertoyState>,
    degraded: Seq<bool>,
    k: nat,
) -> Seq<int>
    decreases k,
{
    if k == 0 {
        seq![]
    } else {
        let prev = plan_positions(order, states, degraded, (k - 1) as nat);
        if dispatches(states, degraded, order[k - 1] as int) {
            prev.push(k - 1)
        } else {
            prev
        }
    }
}

proof fn lemma_plan_positions(
    order: Seq<usize>,
    states: Seq<ShadertoyState>,
    degraded: Seq<bool>,
    textures: Seq<StageTexture>,
    size: u32,
    k: nat,
)
    ensures
        ({
            let d = plan(order, states, degraded, textures, size, k);
            let pp = plan_positions(order, states, degraded, k);
            &&& pp.len() == d.len()
            &&& forall|m: int| 0 <= m < pp.len() ==> 0 <= #[trigger] pp[m] < k && order[pp[m]] as int
                == d[m].stage as int
            &&& forall|m1: int, m2: int| 0 <= m1 < m2 < pp.len() ==> #[trigger] pp[m1] < #[trigger] pp[m2]
        }),
    decreases k,
{
    if k > 0 {
        lemma_plan_positions(order, states, degraded, textures, size, (k - 1) as nat);
    }
}

/// Each stage's dispatch comes after the dispatch of every one of its
/// producers that dispatches in the same frame: a frame's dispatches follow
/// the producer → consumer edges.
pub proof fn lemma_dispatch_order_follows_edges(
    p: Seq<Seq<usize>>,
    order: Seq<usize>,
    states: Seq<ShadertoyState>,
    degraded: Seq<bool>,
    textures: Seq<StageTexture>,
    size: u32,
    a: int,
    b: int,
    k: int,
)
    requires
        crate::graph::is_topological_order(p, order),
        0 <= a < plan(order, states, degraded, textures, size, order.len()).len(),
        0 <= b < plan(order, states, degraded, textures, size, order.len()).len(),
        0 <= k < p[plan(order, states, degraded, textures, size, order.len())[b].stage as int].len(),
        plan(order, states, degraded, textures, size, order.len())[a].stage == p[plan(
            order,
            states,
            degraded,
            textures,
            size,
            order.len(),
        )[b].stage as int][k],
    ensures
        a < b,
{
    let d = plan(order, states, degraded, textures, size, order.len());
    let pp = plan_positions(order, states, degraded, order.len());
    lemma_plan_positions(order, states, degraded, textures, size, order.len());
    let i1 = pp[a];
    let i2 = pp[b];
    assert(order[i1] == d[a].stage);
    assert(order[i2] == d[b].stage);
    assert(i1 < i2);
    if a > b {
        assert(pp[b] < pp[a]);
    }
}

} // verus!

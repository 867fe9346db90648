use vstd::prelude::*;

verus! {

/// A stage's persistent output texture: four 8-bit normalized channels,
/// readable, writable and copyable. `id` names this allocation; a texture
/// that replaces it gets a new one.
#[derive(Clone, Copy, Debug, PartialEq, Eq, Structural)]
pub struct StageTexture {
    pub id: u64,
    pub width: u32,
    pub height: u32,
}

/// The kind of one slot of a stage's declared binding layout.
#[derive(Clone, Copy, Debug, PartialEq, Eq, Structural)]
pub enum BindingKind {
    /// The per-frame uniform buffer.
    Uniform,
    /// A 2-D storage texture, read-write.
    StorageTexture,
}

/// The layout a stage with `deps` producers must declare: the uniform
/// buffer, one texture per producer, then its own output texture.
pub open spec fn expected_layout(deps: nat) -> Seq<BindingKind> {
    Seq::new(deps + 2, |i: int| if i == 0 {
        BindingKind::Uniform
    } else {
        BindingKind::StorageTexture
    })
}

/// The resource ids bound, slot by slot, for a stage reading `deps` and
/// writing `own`.
pub open spec fn binding_ids(uniform: u64, deps: Seq<StageTexture>, own: StageTexture) -> Seq<u64> {
    seq![uniform] + deps.map_values(|t: StageTexture| t.id) + seq![own.id]
}

/// The layout a stage with `deps` producers must declare.
pub fn layout_for(deps: usize) -> (r: Vec<BindingKind>)
    requires
        deps + 2 <= usize::MAX,
    ensures
        r@ == expected_layout(deps as nat),
{
    let mut r: Vec<BindingKind> = Vec::new();
    r.push(BindingKind::Uniform);
    let mut i: usize = 0;
    while i <= deps
        invariant
            0 <= i <= deps + 1,
            deps + 2 <= usize::MAX,
            r@.len() == i + 1,
            forall|j: int| 0 <= j < r@.len() ==> r@[j] == expected_layout(deps as nat)[j],
        decreases deps + 1 - i,
    {
        r.push(BindingKind::StorageTexture);
        i = i + 1;
    }
    assert(r@ =~= expected_layout(deps as nat));
    r
}

/// Whether `layout` is the one a stage with `deps` producers must declare.
pub fn layout_matches(layout: &Vec<BindingKind>, deps: usize) -> (r: bool)
    ensures
        r == (layout@ == expected_layout(deps as nat)),
{
    if layout.len() < 2 || layout.len() - 2 != deps {
        proof {
            assert(layout@.len() != expected_layout(deps as nat).len());
        }
        return false;
    }
    let mut i: usize = 0;
    while i < layout.len()
        invariant
            layout@.len() == deps + 2,
            0 <= i <= layout@.len(),
            forall|j: int| 0 <= j < i ==> layout@[j] == expected_layout(deps as nat)[j],
        decreases layout@.len() - i,
    {
        let want = if i == 0 {
            BindingKind::Uniform
        } else {
            BindingKind::StorageTexture
        };
        if layout[i] != want {
            return false;
        }
        i = i + 1;
    }
    assert(layout@ =~= expected_layout(deps as nat));
    true
}

/// A bind group: the resources bound to a stage's layout, slot by slot. It
/// is valid only for the handles it was built from.
pub struct BindGroup {
    stage: usize,
    bindings: Vec<u64>,
}

impl BindGroup {
    pub closed spec fn view(&self) -> Seq<u64> {
        self.bindings@
    }

    pub closed spec fn stage_view(&self) -> usize {
        self.stage
    }

    /// The stage this group was built for.
    pub fn stage(&self) -> (r: usize)
        ensures
            r == self.stage_view(),
    {
        self.stage
    }

    /// Builds the group for `stage`: binding 0 the uniform buffer, bindings
    /// 1..=k the producers' textures in declared order, last the stage's own
    /// output texture.
    pub fn build(stage: usize, uniform: u64, deps: &Vec<StageTexture>, own: StageTexture) -> (r: BindGroup)
        ensures
            r.stage_view() == stage,
            r.view() == binding_ids(uniform, deps@, own),
    {
        let mut bindings: Vec<u64> = Vec::new();
        bindings.push(uniform);
        let mut i: usize = 0;
        while i < deps.len()
            invariant
                0 <= i <= deps@.len(),
                bindings@ == seq![uniform] + deps@.subrange(0, i as int).map_values(|t: StageTexture| t.id),
            decreases deps@.len() - i,
        {
            bindings.push(deps[i].id);
            proof {
                assert(deps@.subrange(0, i + 1).map_values(|t: StageTexture| t.id) =~= deps@.subrange(0, i as int).map_values(|t: StageTexture| t.id).push(deps@[i as int].id));
            }
            i = i + 1;
            assert(bindings@ =~= seq![uniform] + deps@.subrange(0, i as int).map_values(|t: StageTexture| t.id));
        }
        bindings.push(own.id);
        assert(deps@.subrange(0, deps@.len() as int) =~= deps@);
        assert(bindings@ =~= binding_ids(uniform, deps@, own));
        BindGroup { stage, bindings }
    }

    /// The resource id bound at slot `i`.
    pub fn binding(&self, i: usize) -> (r: u64)
        requires
            i < self.view().len(),
        ensures
            r == self.view()[i as int],
    {
        self.bindings[i]
    }

    /// Number of bound slots.
    pub fn len(&self) -> (r: usize)
        ensures
            r == self.view().len(),
    {
        self.bindings.len()
    }
}

} // verus!

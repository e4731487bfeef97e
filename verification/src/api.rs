use vstd::prelude::*;
use vstd::string::StringExecFns;

use crate::error::SceneError;

verus! {

/// The map that a list of `(name, index)` registrations denotes: a later registration of a
/// name replaces an earlier one.
pub open spec fn registrations_map(s: Seq<(String, usize)>) -> Map<Seq<char>, usize>
    decreases s.len(),
{
    if s.len() == 0 {
        Map::empty()
    } else {
        registrations_map(s.drop_last()).insert(s.last().0@, s.last().1)
    }
}

/// Replacing the last registration of a name changes only what that name refers to.
proof fn lemma_update_last(s: Seq<(String, usize)>, j: int, name: Seq<char>, e: (String, usize))
    requires
        0 <= j < s.len(),
        s[j].0@ == name,
        e.0@ == name,
        forall|k: int| j < k < s.len() ==> #[trigger] s[k].0@ != name,
    ensures
        registrations_map(s.update(j, e)) == registrations_map(s).insert(name, e.1),
    decreases s.len(),
{
    let u = s.update(j, e);
    if j == s.len() - 1 {
        assert(u.drop_last() =~= s.drop_last());
        assert(registrations_map(s.drop_last()).insert(s.last().0@, s.last().1).insert(name, e.1)
            =~= registrations_map(s.drop_last()).insert(name, e.1));
    } else {
        let p = s.drop_last();
        assert forall|k: int| j < k < p.len() implies #[trigger] p[k].0@ != name by {
            assert(p[k] == s[k]);
        }
        lemma_update_last(p, j, name, e);
        assert(u.drop_last() =~= p.update(j, e));
        assert(u.last() == s.last());
        assert(s.last().0@ != name);
        assert(registrations_map(p).insert(name, e.1).insert(s.last().0@, s.last().1)
            =~= registrations_map(p).insert(s.last().0@, s.last().1).insert(name, e.1));
    }
}

/// A library of named materials: each name refers to the index of a material.
pub struct MaterialLib {
    entries: Vec<(String, usize)>,
}

impl View for MaterialLib {
    type V = Map<Seq<char>, usize>;

    closed spec fn view(&self) -> Map<Seq<char>, usize> {
        registrations_map(self.entries@)
    }
}

impl MaterialLib {
    /// The empty library.
    pub fn new() -> (lib: Self)
        ensures
            lib@ == Map::<Seq<char>, usize>::empty(),
    {
        MaterialLib { entries: Vec::new() }
    }

    /// The position of the last registration of `name`, if any.
    fn find_last(&self, name: &String) -> (r: Option<usize>)
        ensures
            r matches Some(j) ==> j < self.entries@.len() && self.entries@[j as int].0@ == name@
                && forall|k: int| j < k < self.entries@.len() ==> #[trigger] self.entries@[k].0@
                != name@,
            r is None ==> forall|k: int|
                0 <= k < self.entries@.len() ==> #[trigger] self.entries@[k].0@ != name@,
    {
        let mut i: usize = self.entries.len();
        while i > 0
            invariant
                i <= self.entries@.len(),
                forall|k: int| i <= k < self.entries@.len() ==> #[trigger] self.entries@[k].0@ != name@,
            decreases i,
        {
            if self.entries[i - 1].0 == *name {
                return Some(i - 1);
            }
            i = i - 1;
        }
        None
    }

    /// Makes `name` refer to the material `index`, replacing what it referred to before.
    pub fn insert(&mut self, name: String, index: usize)
        ensures
            final(self)@ == old(self)@.insert(name@, index),
    {
        match self.find_last(&name) {
            Some(j) => {
                let ghost n = name@;
                self.entries.set(j, (name, index));
                proof {
                    lemma_update_last(old(self).entries@, j as int, n, self.entries@[j as int]);
                }
            },
            None => {
                self.entries.push((name, index));
                proof {
                    assert(self.entries@.drop_last() == old(self).entries@);
                }
            },
        }
    }

    /// The material that `name` refers to, if any.
    pub fn get(&self, name: &String) -> (r: Option<usize>)
        ensures
            r == (if self@.contains_key(name@) {
                Some(self@[name@])
            } else {
                None::<usize>
            }),
    {
        let mut i: usize = self.entries.len();
        proof {
            assert(self.entries@.take(i as int) == self.entries@);
        }
        while i > 0
            invariant
                i <= self.entries@.len(),
                forall|j: int|
                    i <= j < self.entries@.len() ==> #[trigger] self.entries@[j].0@ != name@,
                registrations_map(self.entries@).contains_key(name@) == registrations_map(
                    self.entries@.take(i as int),
                ).contains_key(name@),
                registrations_map(self.entries@).contains_key(name@) ==> registrations_map(
                    self.entries@,
                )[name@] == registrations_map(self.entries@.take(i as int))[name@],
            decreases i,
        {
            let ghost prefix = self.entries@.take(i as int);
            assert(prefix.drop_last() == self.entries@.take(i - 1));
            if self.entries[i - 1].0 == *name {
                return Some(self.entries[i - 1].1);
            }
            i = i - 1;
        }
        proof {
            assert(self.entries@.take(0) == Seq::<(String, usize)>::empty());
        }
        None
    }

    /// A copy of the library that names the same materials.
    pub fn duplicate(&self) -> (copy: Self)
        ensures
            copy@ == self@,
    {
        let mut entries: Vec<(String, usize)> = Vec::new();
        let mut i: usize = 0;
        while i < self.entries.len()
            invariant
                i <= self.entries@.len(),
                entries@ == self.entries@.take(i as int),
            decreases self.entries@.len() - i,
        {
            let name = self.entries[i].0.clone();
            entries.push((name, self.entries[i].1));
            proof {
                assert(entries@ == self.entries@.take(i + 1));
            }
            i = i + 1;
        }
        proof {
            assert(self.entries@.take(self.entries@.len() as int) == self.entries@);
        }
        MaterialLib { entries }
    }
}

/// The graphics state: the material that new objects receive, and the named materials.
pub struct GraphicsState {
    pub current_material: Option<usize>,
    pub material_lib: MaterialLib,
}

/// What a graphics state denotes.
pub struct GraphicsStateView {
    pub current_material: Option<usize>,
    pub material_lib: Map<Seq<char>, usize>,
}

impl View for GraphicsState {
    type V = GraphicsStateView;

    open spec fn view(&self) -> GraphicsStateView {
        GraphicsStateView {
            current_material: self.current_material,
            material_lib: self.material_lib@,
        }
    }
}

impl GraphicsState {
    /// No current material and no named materials.
    pub fn new() -> (gs: Self)
        ensures
            gs@.current_material == None::<usize>,
            gs@.material_lib == Map::<Seq<char>, usize>::empty(),
    {
        GraphicsState { current_material: None, material_lib: MaterialLib::new() }
    }

    /// A copy of the graphics state.
    pub fn duplicate(&self) -> (copy: Self)
        ensures
            copy@ == self@,
    {
        GraphicsState {
            current_material: self.current_material,
            material_lib: self.material_lib.duplicate(),
        }
    }
}

/// The handle of the identity transform.
pub const IDENTITY_TRANSFORM: usize = 0;

/// What the scene bookkeeping denotes.
pub struct SceneStateView<M> {
    pub materials: Seq<M>,
    pub gs: GraphicsStateView,
    pub gs_stack: Seq<GraphicsStateView>,
    pub tm: usize,
    pub tm_stack: Seq<usize>,
}

/// Every material index that the graphics state holds refers to one of `n` materials.
pub open spec fn gs_refers_within(gs: GraphicsStateView, n: nat) -> bool {
    &&& (gs.current_material matches Some(m) ==> m < n)
    &&& forall|name: Seq<char>| #[trigger]
        gs.material_lib.contains_key(name) ==> gs.material_lib[name] < n
}

/// Every material index that the bookkeeping holds, saved graphics states included, refers
/// to a registered material.
pub open spec fn state_wf<M>(v: SceneStateView<M>) -> bool {
    &&& gs_refers_within(v.gs, v.materials.len())
    &&& forall|i: int|
        0 <= i < v.gs_stack.len() ==> gs_refers_within(#[trigger] v.gs_stack[i], v.materials.len())
}

/// The bookkeeping after a material is defined: it is registered and becomes current.
pub open spec fn add_material_spec<M>(v: SceneStateView<M>, m: M) -> SceneStateView<M> {
    SceneStateView {
        materials: v.materials.push(m),
        gs: GraphicsStateView {
            current_material: Some(v.materials.len() as usize),
            material_lib: v.gs.material_lib,
        },
        ..v
    }
}

/// The bookkeeping after a named material is defined: it is registered under its name; the
/// current material stays.
pub open spec fn make_named_material_spec<M>(
    v: SceneStateView<M>,
    name: Seq<char>,
    m: M,
) -> SceneStateView<M> {
    SceneStateView {
        materials: v.materials.push(m),
        gs: GraphicsStateView {
            current_material: v.gs.current_material,
            material_lib: v.gs.material_lib.insert(name, v.materials.len() as usize),
        },
        ..v
    }
}

/// The bookkeeping after the named material `name` is selected, where that name is known.
pub open spec fn use_named_material_spec<M>(
    v: SceneStateView<M>,
    name: Seq<char>,
) -> SceneStateView<M> {
    SceneStateView {
        gs: GraphicsStateView {
            current_material: Some(v.gs.material_lib[name]),
            material_lib: v.gs.material_lib,
        },
        ..v
    }
}

/// The bookkeeping after the graphics state is saved: the graphics state and the transform
/// are both pushed.
pub open spec fn push_graphics_state_spec<M>(v: SceneStateView<M>) -> SceneStateView<M> {
    SceneStateView { gs_stack: v.gs_stack.push(v.gs), tm_stack: v.tm_stack.push(v.tm), ..v }
}

/// The bookkeeping after the graphics state is restored: both stacks are popped.
pub open spec fn pop_graphics_state_spec<M>(v: SceneStateView<M>) -> SceneStateView<M> {
    SceneStateView {
        gs: v.gs_stack.last(),
        gs_stack: v.gs_stack.drop_last(),
        tm: v.tm_stack.last(),
        tm_stack: v.tm_stack.drop_last(),
        ..v
    }
}

/// The bookkeeping after the current transform alone is saved.
pub open spec fn push_transform_spec<M>(v: SceneStateView<M>) -> SceneStateView<M> {
    SceneStateView { tm_stack: v.tm_stack.push(v.tm), ..v }
}

/// The bookkeeping after the current transform alone is restored.
pub open spec fn pop_transform_spec<M>(v: SceneStateView<M>) -> SceneStateView<M> {
    SceneStateView { tm: v.tm_stack.last(), tm_stack: v.tm_stack.drop_last(), ..v }
}

/// The bookkeeping after the current transform is replaced by the transform `tm`.
pub open spec fn set_transform_spec<M>(v: SceneStateView<M>, tm: usize) -> SceneStateView<M> {
    SceneStateView { tm, ..v }
}

/// The bookkeeping of a scene file as its commands are read: the materials, the graphics
/// state with its saved copies, and the current transform (by handle) with its saved copies.
pub struct SceneState<M> {
    materials: Vec<M>,
    current_gs: GraphicsState,
    gs_stack: Vec<GraphicsState>,
    current_tm: usize,
    tm_stack: Vec<usize>,
}

/// What the parts of the bookkeeping denote together.
spec fn assembled<M>(
    materials: Seq<M>,
    gs: GraphicsState,
    gs_stack: Seq<GraphicsState>,
    tm: usize,
    tm_stack: Seq<usize>,
) -> SceneStateView<M> {
    SceneStateView {
        materials,
        gs: gs@,
        gs_stack: gs_stack.map_values(|g: GraphicsState| g@),
        tm,
        tm_stack,
    }
}

impl<M> View for SceneState<M> {
    type V = SceneStateView<M>;

    closed spec fn view(&self) -> SceneStateView<M> {
        assembled(self.materials@, self.current_gs, self.gs_stack@, self.current_tm, self.tm_stack@)
    }
}

impl<M> SceneState<M> {
    /// Every material index that the bookkeeping holds refers to a registered material.
    #[verifier::type_invariant]
    closed spec fn references_valid(self) -> bool {
        state_wf(self@)
    }

    /// Takes the bookkeeping apart, leaving the empty bookkeeping behind; the parts are
    /// assembled again with the type's invariant checked.
    fn take_parts(&mut self) -> (parts: (Vec<M>, GraphicsState, Vec<GraphicsState>, usize, Vec<usize>))
        ensures
            assembled(parts.0@, parts.1, parts.2@, parts.3, parts.4@) == old(self)@,
            state_wf(old(self)@),
    {
        proof {
            use_type_invariant(&*self);
        }
        let mut taken = SceneState::new();
        std::mem::swap(self, &mut taken);
        let SceneState { materials, current_gs, gs_stack, current_tm, tm_stack } = taken;
        (materials, current_gs, gs_stack, current_tm, tm_stack)
    }

    /// The bookkeeping before any command: no materials, an empty graphics state, the
    /// identity transform, and nothing saved.
    pub fn new() -> (s: Self)
        ensures
            s@.materials == Seq::<M>::empty(),
            s@.gs.current_material == None::<usize>,
            s@.gs.material_lib == Map::<Seq<char>, usize>::empty(),
            s@.gs_stack == Seq::<GraphicsStateView>::empty(),
            s@.tm == IDENTITY_TRANSFORM,
            s@.tm_stack == Seq::<usize>::empty(),
            state_wf(s@),
    {
        let s = SceneState {
            materials: Vec::new(),
            current_gs: GraphicsState::new(),
            gs_stack: Vec::new(),
            current_tm: IDENTITY_TRANSFORM,
            tm_stack: Vec::new(),
        };
        proof {
            assert(s@.gs_stack =~= Seq::<GraphicsStateView>::empty());
        }
        s
    }

    /// The registered materials, in the order of their definition.
    pub fn materials(&self) -> (r: &Vec<M>)
        ensures
            r@ == self@.materials,
    {
        &self.materials
    }

    /// The handle of the current transform.
    pub fn current_transform(&self) -> (r: usize)
        ensures
            r == self@.tm,
    {
        self.current_tm
    }

    /// The material of the current graphics state, if one was chosen.
    pub fn current_material(&self) -> (r: Option<usize>)
        ensures
            r == self@.gs.current_material,
    {
        self.current_gs.current_material
    }

    /// How many graphics states are saved.
    pub fn saved_graphics_states(&self) -> (r: usize)
        ensures
            r == self@.gs_stack.len(),
    {
        self.gs_stack.len()
    }

    /// How many transforms are saved.
    pub fn saved_transforms(&self) -> (r: usize)
        ensures
            r == self@.tm_stack.len(),
    {
        self.tm_stack.len()
    }

    /// Registers a material and makes it the current one; returns its index.
    pub fn add_material(&mut self, m: M) -> (index: usize)
        requires
            old(self)@.materials.len() < usize::MAX,
        ensures
            index == old(self)@.materials.len(),
            final(self)@ == add_material_spec(old(self)@, m),
            state_wf(final(self)@),
    {
        let (mut materials, mut current_gs, gs_stack, current_tm, tm_stack) = self.take_parts();
        let index: usize = materials.len();
        materials.push(m);
        current_gs.current_material = Some(index);
        proof {
            let after = assembled(materials@, current_gs, gs_stack@, current_tm, tm_stack@);
            assert(after == add_material_spec(old(self)@, m));
            lemma_wf_grow(old(self)@, after);
        }
        *self = SceneState { materials, current_gs, gs_stack, current_tm, tm_stack };
        index
    }

    /// Registers a material under `name`, replacing what the name referred to; the current
    /// material stays. Returns the new material's index.
    pub fn make_named_material(&mut self, name: String, m: M) -> (index: usize)
        requires
            old(self)@.materials.len() < usize::MAX,
        ensures
            index == old(self)@.materials.len(),
            final(self)@ == make_named_material_spec(old(self)@, name@, m),
            state_wf(final(self)@),
    {
        let (mut materials, mut current_gs, gs_stack, current_tm, tm_stack) = self.take_parts();
        let index: usize = materials.len();
        let ghost n = name@;
        materials.push(m);
        current_gs.material_lib.insert(name, index);
        proof {
            let after = assembled(materials@, current_gs, gs_stack@, current_tm, tm_stack@);
            assert(after == make_named_material_spec(old(self)@, n, m));
            lemma_wf_grow(old(self)@, after);
        }
        *self = SceneState { materials, current_gs, gs_stack, current_tm, tm_stack };
        index
    }

    /// Makes the material named `name` the current one. Where no material has that name, the
    /// bookkeeping stays and the error says so.
    pub fn use_named_material(&mut self, name: &String) -> (r: Result<(), SceneError>)
        ensures
            state_wf(final(self)@),
            old(self)@.gs.material_lib.contains_key(name@) ==> r is Ok && final(self)@
                == use_named_material_spec(old(self)@, name@),
            !old(self)@.gs.material_lib.contains_key(name@) ==> final(self)@ == old(self)@ && (
            r matches Err(SceneError::MissingComponent(msg)) && msg@ == "material `"@ + name@
                + "` does not exist"@),
    {
        proof {
            use_type_invariant(&*self);
        }
        match self.current_gs.material_lib.get(name) {
            Some(index) => {
                self.current_gs.current_material = Some(index);
                proof {
                    assert(self@.gs_stack == old(self)@.gs_stack);
                    assert(self@ == use_named_material_spec(old(self)@, name@));
                }
                Ok(())
            },
            None => {
                let mut msg = String::from_str("material `");
                msg.append(name.as_str());
                msg.append("` does not exist");
                Err(SceneError::MissingComponent(msg))
            },
        }
    }

    /// The material that a new object receives: the current one. Where none was chosen, the
    /// error says so.
    pub fn object_material(&self) -> (r: Result<usize, SceneError>)
        ensures
            self@.gs.current_material matches Some(m) ==> r == Ok::<usize, SceneError>(m) && m
                < self@.materials.len(),
            self@.gs.current_material is None ==> (r matches Err(SceneError::MissingComponent(msg))
                && msg@ == "missing material for object"@),
    {
        proof {
            use_type_invariant(self);
        }
        match self.current_gs.current_material {
            Some(index) => Ok(index),
            None => Err(SceneError::MissingComponent(String::from_str("missing material for object"))),
        }
    }

    /// Saves the graphics state and the current transform.
    pub fn push_graphics_state(&mut self)
        ensures
            final(self)@ == push_graphics_state_spec(old(self)@),
            state_wf(final(self)@),
    {
        let (materials, current_gs, mut gs_stack, current_tm, mut tm_stack) = self.take_parts();
        let copy = current_gs.duplicate();
        gs_stack.push(copy);
        tm_stack.push(current_tm);
        proof {
            let after = assembled(materials@, current_gs, gs_stack@, current_tm, tm_stack@);
            assert(after.gs_stack =~= old(self)@.gs_stack.push(old(self)@.gs));
            assert(after == push_graphics_state_spec(old(self)@));
            assert forall|i: int| 0 <= i < after.gs_stack.len() implies gs_refers_within(
                #[trigger] after.gs_stack[i],
                after.materials.len(),
            ) by {
                if i < old(self)@.gs_stack.len() {
                    assert(after.gs_stack[i] == old(self)@.gs_stack[i]);
                }
            }
        }
        *self = SceneState { materials, current_gs, gs_stack, current_tm, tm_stack };
    }

    /// Restores the last saved graphics state and the last saved transform.
    pub fn pop_graphics_state(&mut self)
        requires
            old(self)@.gs_stack.len() > 0,
            old(self)@.tm_stack.len() > 0,
        ensures
            final(self)@ == pop_graphics_state_spec(old(self)@),
            state_wf(final(self)@),
    {
        let (materials, _, mut gs_stack, _, mut tm_stack) = self.take_parts();
        let current_gs = gs_stack.pop().unwrap();
        let current_tm = tm_stack.pop().unwrap();
        proof {
            let after = assembled(materials@, current_gs, gs_stack@, current_tm, tm_stack@);
            assert(after.gs_stack =~= old(self)@.gs_stack.drop_last());
            assert(after == pop_graphics_state_spec(old(self)@));
            assert(gs_refers_within(
                old(self)@.gs_stack[old(self)@.gs_stack.len() - 1],
                old(self)@.materials.len(),
            ));
            assert forall|i: int| 0 <= i < after.gs_stack.len() implies gs_refers_within(
                #[trigger] after.gs_stack[i],
                after.materials.len(),
            ) by {
                assert(after.gs_stack[i] == old(self)@.gs_stack[i]);
            }
        }
        *self = SceneState { materials, current_gs, gs_stack, current_tm, tm_stack };
    }

    /// Saves the current transform.
    pub fn push_transform(&mut self)
        ensures
            final(self)@ == push_transform_spec(old(self)@),
            state_wf(final(self)@),
    {
        let (materials, current_gs, gs_stack, current_tm, mut tm_stack) = self.take_parts();
        tm_stack.push(current_tm);
        proof {
            let after = assembled(materials@, current_gs, gs_stack@, current_tm, tm_stack@);
            assert(after == push_transform_spec(old(self)@));
        }
        *self = SceneState { materials, current_gs, gs_stack, current_tm, tm_stack };
    }

    /// Restores the last saved transform.
    pub fn pop_transform(&mut self)
        requires
            old(self)@.tm_stack.len() > 0,
        ensures
            final(self)@ == pop_transform_spec(old(self)@),
            state_wf(final(self)@),
    {
        let (materials, current_gs, gs_stack, _, mut tm_stack) = self.take_parts();
        let current_tm = tm_stack.pop().unwrap();
        proof {
            let after = assembled(materials@, current_gs, gs_stack@, current_tm, tm_stack@);
            assert(after == pop_transform_spec(old(self)@));
        }
        *self = SceneState { materials, current_gs, gs_stack, current_tm, tm_stack };
    }

    /// Makes `tm` the current transform.
    pub fn set_transform(&mut self, tm: usize)
        ensures
            final(self)@ == set_transform_spec(old(self)@, tm),
            state_wf(final(self)@),
    {
        proof {
            use_type_invariant(&*self);
        }
        self.current_tm = tm;
        proof {
            assert(self@.gs_stack == old(self)@.gs_stack);
            assert(self@ == set_transform_spec(old(self)@, tm));
        }
    }

    /// Makes the identity the current transform.
    pub fn reset_transform(&mut self)
        ensures
            final(self)@ == set_transform_spec(old(self)@, IDENTITY_TRANSFORM),
            state_wf(final(self)@),
    {
        self.set_transform(IDENTITY_TRANSFORM);
    }
}

/// Registering one more material keeps every reference valid.
proof fn lemma_wf_grow<M>(before: SceneStateView<M>, after: SceneStateView<M>)
    requires
        state_wf(before),
        after.materials.len() == before.materials.len() + 1,
        after.gs_stack == before.gs_stack,
        after.gs.current_material is Some ==> after.gs.current_material->0
            <= before.materials.len(),
        forall|name: Seq<char>| #[trigger]
            after.gs.material_lib.contains_key(name) ==> (after.gs.material_lib[name]
                == before.materials.len() || (before.gs.material_lib.contains_key(name)
                && after.gs.material_lib[name] == before.gs.material_lib[name])),
    ensures
        state_wf(after),
{
    assert forall|i: int|
        0 <= i < after.gs_stack.len() implies gs_refers_within(
        #[trigger] after.gs_stack[i],
        after.materials.len(),
    ) by {
        assert(gs_refers_within(before.gs_stack[i], before.materials.len()));
    }
}

/// Saving and then restoring the graphics state gives back the bookkeeping as it was.
pub proof fn law_push_pop_graphics_state<M>(v: SceneStateView<M>)
    ensures
        pop_graphics_state_spec(push_graphics_state_spec(v)) == v,
{
    assert(pop_graphics_state_spec(push_graphics_state_spec(v)).gs_stack =~= v.gs_stack);
    assert(pop_graphics_state_spec(push_graphics_state_spec(v)).tm_stack =~= v.tm_stack);
}

/// Saving and then restoring the transform gives back the bookkeeping as it was.
pub proof fn law_push_pop_transform<M>(v: SceneStateView<M>)
    ensures
        pop_transform_spec(push_transform_spec(v)) == v,
{
    assert(pop_transform_spec(push_transform_spec(v)).tm_stack =~= v.tm_stack);
}

/// Transform commands leave the materials and the graphics state alone.
pub proof fn law_transforms_keep_graphics_state<M>(v: SceneStateView<M>, tm: usize)
    ensures
        push_transform_spec(v).materials == v.materials && push_transform_spec(v).gs == v.gs
            && push_transform_spec(v).gs_stack == v.gs_stack,
        v.tm_stack.len() > 0 ==> pop_transform_spec(v).materials == v.materials
            && pop_transform_spec(v).gs == v.gs && pop_transform_spec(v).gs_stack == v.gs_stack,
        set_transform_spec(v, tm).materials == v.materials && set_transform_spec(v, tm).gs
            == v.gs && set_transform_spec(v, tm).gs_stack == v.gs_stack,
{
}

/// Selecting a name right after defining a material under it makes that material current.
pub proof fn law_named_material_selects_latest<M>(v: SceneStateView<M>, name: Seq<char>, m: M)
    ensures
        make_named_material_spec(v, name, m).gs.material_lib.contains_key(name),
        use_named_material_spec(make_named_material_spec(v, name, m), name).gs.current_material
            == Some(v.materials.len() as usize),
        use_named_material_spec(make_named_material_spec(v, name, m), name).materials.last()
            == m,
{
}

/// Defining a material under a name does not change what other names refer to.
pub proof fn law_named_material_keeps_other_names<M>(
    v: SceneStateView<M>,
    name: Seq<char>,
    other: Seq<char>,
    m: M,
)
    requires
        name != other,
    ensures
        make_named_material_spec(v, name, m).gs.material_lib.contains_key(other)
            == v.gs.material_lib.contains_key(other),
        v.gs.material_lib.contains_key(other) ==> make_named_material_spec(
            v,
            name,
            m,
        ).gs.material_lib[other] == v.gs.material_lib[other],
{
}

/// Restoring a graphics state brings back the material that was current when it was saved,
/// even if materials were defined or selected in between.
pub proof fn law_restore_brings_back_material<M>(v: SceneStateView<M>, name: Seq<char>, m: M)
    ensures
        pop_graphics_state_spec(
            use_named_material_spec(
                make_named_material_spec(push_graphics_state_spec(v), name, m),
                name,
            ),
        ).gs == v.gs,
{
}

/// A command of a scene file that changes the bookkeeping.
pub enum BookkeepingCommand<M> {
    /// Defines a material and selects it.
    Material(M),
    /// Defines a material under a name.
    MakeNamedMaterial { name: String, material: M },
    /// Selects the material defined under a name.
    NamedMaterial { name: String },
    /// Saves the graphics state and the transform.
    PushGraphicsState,
    /// Restores the graphics state and the transform.
    PopGraphicsState,
    /// Saves the transform.
    PushTransform,
    /// Restores the transform.
    PopTransform,
    /// Makes the identity the current transform.
    ResetTransform,
    /// Makes the transform with this handle the current one.
    SetTransform(usize),
}

/// Whether the bookkeeping `v` refuses the command `c`: a named material whose name is not
/// defined.
pub open spec fn command_refused<M>(v: SceneStateView<M>, c: BookkeepingCommand<M>) -> bool {
    c matches BookkeepingCommand::NamedMaterial { name } && !v.gs.material_lib.contains_key(
        name@,
    )
}

/// The bookkeeping after the command `c`; a refused command leaves it as it was.
pub open spec fn command_spec<M>(v: SceneStateView<M>, c: BookkeepingCommand<M>) -> SceneStateView<
    M,
> {
    match c {
        BookkeepingCommand::Material(m) => add_material_spec(v, m),
        BookkeepingCommand::MakeNamedMaterial { name, material } => make_named_material_spec(
            v,
            name@,
            material,
        ),
        BookkeepingCommand::NamedMaterial { name } => if v.gs.material_lib.contains_key(name@) {
            use_named_material_spec(v, name@)
        } else {
            v
        },
        BookkeepingCommand::PushGraphicsState => push_graphics_state_spec(v),
        BookkeepingCommand::PopGraphicsState => pop_graphics_state_spec(v),
        BookkeepingCommand::PushTransform => push_transform_spec(v),
        BookkeepingCommand::PopTransform => pop_transform_spec(v),
        BookkeepingCommand::ResetTransform => set_transform_spec(v, IDENTITY_TRANSFORM),
        BookkeepingCommand::SetTransform(tm) => set_transform_spec(v, tm),
    }
}

/// A restoring command finds something saved to restore.
pub open spec fn pops_fit<M>(v: SceneStateView<M>, c: BookkeepingCommand<M>) -> bool {
    match c {
        BookkeepingCommand::PopGraphicsState => v.gs_stack.len() > 0 && v.tm_stack.len() > 0,
        BookkeepingCommand::PopTransform => v.tm_stack.len() > 0,
        _ => true,
    }
}

/// The command `c` can be carried out on `v`: what it restores was saved, and a material it
/// defines still gets an index.
pub open spec fn command_fits<M>(v: SceneStateView<M>, c: BookkeepingCommand<M>) -> bool {
    &&& pops_fit(v, c)
    &&& (c is Material || c is MakeNamedMaterial) ==> v.materials.len() < usize::MAX
}

impl<M> SceneState<M> {
    /// Carries out one bookkeeping command. A named material whose name is not defined is
    /// refused with an error, and the bookkeeping stays.
    pub fn apply_command(&mut self, c: BookkeepingCommand<M>) -> (r: Result<(), SceneError>)
        requires
            command_fits(old(self)@, c),
        ensures
            final(self)@ == command_spec(old(self)@, c),
            !command_refused(old(self)@, c) ==> r is Ok,
            command_refused(old(self)@, c) ==> (r matches Err(SceneError::MissingComponent(msg))
                && c matches BookkeepingCommand::NamedMaterial { name } && msg@ == "material `"@
                + name@ + "` does not exist"@),
    {
        match c {
            BookkeepingCommand::Material(m) => {
                self.add_material(m);
                Ok(())
            },
            BookkeepingCommand::MakeNamedMaterial { name, material } => {
                self.make_named_material(name, material);
                Ok(())
            },
            BookkeepingCommand::NamedMaterial { name } => self.use_named_material(&name),
            BookkeepingCommand::PushGraphicsState => {
                self.push_graphics_state();
                Ok(())
            },
            BookkeepingCommand::PopGraphicsState => {
                self.pop_graphics_state();
                Ok(())
            },
            BookkeepingCommand::PushTransform => {
                self.push_transform();
                Ok(())
            },
            BookkeepingCommand::PopTransform => {
                self.pop_transform();
                Ok(())
            },
            BookkeepingCommand::ResetTransform => {
                self.reset_transform();
                Ok(())
            },
            BookkeepingCommand::SetTransform(tm) => {
                self.set_transform(tm);
                Ok(())
            },
        }
    }
}

/// The bookkeeping after the commands `cs`, in order.
pub open spec fn apply_commands<M>(
    v: SceneStateView<M>,
    cs: Seq<BookkeepingCommand<M>>,
) -> SceneStateView<M>
    decreases cs.len(),
{
    if cs.len() == 0 {
        v
    } else {
        command_spec(apply_commands(v, cs.drop_last()), cs.last())
    }
}

/// How many more graphics states the commands `cs` save than they restore.
pub open spec fn gs_depth<M>(cs: Seq<BookkeepingCommand<M>>) -> int
    decreases cs.len(),
{
    if cs.len() == 0 {
        0
    } else {
        gs_depth(cs.drop_last()) + match cs.last() {
            BookkeepingCommand::PushGraphicsState => 1int,
            BookkeepingCommand::PopGraphicsState => -1int,
            _ => 0int,
        }
    }
}

/// How many more transforms the commands `cs` save than they restore, those saved and
/// restored with the graphics state included.
pub open spec fn tm_depth<M>(cs: Seq<BookkeepingCommand<M>>) -> int
    decreases cs.len(),
{
    if cs.len() == 0 {
        0
    } else {
        tm_depth(cs.drop_last()) + match cs.last() {
            BookkeepingCommand::PushGraphicsState => 1int,
            BookkeepingCommand::PushTransform => 1int,
            BookkeepingCommand::PopGraphicsState => -1int,
            BookkeepingCommand::PopTransform => -1int,
            _ => 0int,
        }
    }
}

/// No prefix of `cs` restores more than it saved.
pub open spec fn never_below<M>(cs: Seq<BookkeepingCommand<M>>) -> bool {
    forall|k: int|
        0 <= k <= cs.len() ==> gs_depth(#[trigger] cs.take(k)) >= 0 && tm_depth(cs.take(k)) >= 0
}

/// The commands `cs` restore everything they save, and never more than they saved.
pub open spec fn balanced<M>(cs: Seq<BookkeepingCommand<M>>) -> bool {
    &&& never_below(cs)
    &&& gs_depth(cs) == 0
    &&& tm_depth(cs) == 0
}

/// Commands that never restore more than they saved leave what was saved before them in
/// place, on top of which lie as many entries as they saved net; materials are only added.
proof fn lemma_stacks_kept<M>(w: SceneStateView<M>, cs: Seq<BookkeepingCommand<M>>)
    requires
        never_below(cs),
    ensures
        apply_commands(w, cs).gs_stack.len() == w.gs_stack.len() + gs_depth(cs),
        apply_commands(w, cs).gs_stack.take(w.gs_stack.len() as int) == w.gs_stack,
        apply_commands(w, cs).tm_stack.len() == w.tm_stack.len() + tm_depth(cs),
        apply_commands(w, cs).tm_stack.take(w.tm_stack.len() as int) == w.tm_stack,
        apply_commands(w, cs).materials.len() >= w.materials.len(),
        apply_commands(w, cs).materials.take(w.materials.len() as int) == w.materials,
    decreases cs.len(),
{
    if cs.len() == 0 {
        assert(w.gs_stack.take(w.gs_stack.len() as int) =~= w.gs_stack);
        assert(w.tm_stack.take(w.tm_stack.len() as int) =~= w.tm_stack);
        assert(w.materials.take(w.materials.len() as int) =~= w.materials);
    } else {
        let p = cs.drop_last();
        assert forall|k: int| 0 <= k <= p.len() implies gs_depth(#[trigger] p.take(k)) >= 0
            && tm_depth(p.take(k)) >= 0 by {
            assert(p.take(k) =~= cs.take(k));
        }
        lemma_stacks_kept(w, p);
        assert(cs.take(cs.len() as int) =~= cs);
        let u = apply_commands(w, p);
        let g = w.gs_stack.len() as int;
        let t = w.tm_stack.len() as int;
        let n = w.materials.len() as int;
        match cs.last() {
            BookkeepingCommand::Material(m) => {
                assert(u.materials.push(m).take(n) =~= u.materials.take(n));
            },
            BookkeepingCommand::MakeNamedMaterial { name, material } => {
                assert(u.materials.push(material).take(n) =~= u.materials.take(n));
            },
            BookkeepingCommand::PushGraphicsState => {
                assert(u.gs_stack.push(u.gs).take(g) =~= u.gs_stack.take(g));
                assert(u.tm_stack.push(u.tm).take(t) =~= u.tm_stack.take(t));
            },
            BookkeepingCommand::PopGraphicsState => {
                assert(u.gs_stack.drop_last().take(g) =~= u.gs_stack.take(g));
                assert(u.tm_stack.drop_last().take(t) =~= u.tm_stack.take(t));
            },
            BookkeepingCommand::PushTransform => {
                assert(u.tm_stack.push(u.tm).take(t) =~= u.tm_stack.take(t));
            },
            BookkeepingCommand::PopTransform => {
                assert(u.tm_stack.drop_last().take(t) =~= u.tm_stack.take(t));
            },
            _ => {},
        }
    }
}

proof fn lemma_apply_concat<M>(
    v: SceneStateView<M>,
    a: Seq<BookkeepingCommand<M>>,
    b: Seq<BookkeepingCommand<M>>,
)
    ensures
        apply_commands(v, a + b) == apply_commands(apply_commands(v, a), b),
    decreases b.len(),
{
    if b.len() == 0 {
        assert(a + b =~= a);
    } else {
        lemma_apply_concat(v, a, b.drop_last());
        assert((a + b).drop_last() =~= a + b.drop_last());
        assert((a + b).last() == b.last());
    }
}

/// A block of commands between saving and restoring the graphics state, which itself
/// restores all it saves, gives back the selected material, the material names, the
/// transform and both stacks of saved states; materials defined in the block stay defined.
/// Nothing in the block, nor the final restore, finds its stack empty.
pub proof fn law_balanced_block_restores<M>(v: SceneStateView<M>, cs: Seq<BookkeepingCommand<M>>)
    requires
        balanced(cs),
    ensures
        ({
            let full = seq![BookkeepingCommand::PushGraphicsState] + cs + seq![
                BookkeepingCommand::PopGraphicsState,
            ];
            let w = apply_commands(v, full);
            &&& w.gs == v.gs
            &&& w.tm == v.tm
            &&& w.gs_stack == v.gs_stack
            &&& w.tm_stack == v.tm_stack
            &&& w.materials.len() >= v.materials.len()
            &&& w.materials.take(v.materials.len() as int) == v.materials
            &&& forall|k: int|
                0 <= k < full.len() ==> pops_fit(apply_commands(v, full.take(k)), #[trigger] full[k])
        }),
{
    let push = seq![BookkeepingCommand::<M>::PushGraphicsState];
    let pop = seq![BookkeepingCommand::<M>::PopGraphicsState];
    let full = push + cs + pop;
    let v1 = push_graphics_state_spec(v);
    assert(push.drop_last() =~= Seq::<BookkeepingCommand<M>>::empty());
    assert(apply_commands(v, push.drop_last()) == v);
    assert(push.last() == BookkeepingCommand::<M>::PushGraphicsState);
    assert(apply_commands(v, push) == v1);
    lemma_stacks_kept(v1, cs);
    let v2 = apply_commands(v1, cs);
    lemma_apply_concat(v, push, cs);
    assert(v2.gs_stack =~= v1.gs_stack);
    assert(v2.tm_stack =~= v1.tm_stack);
    assert(pop.drop_last() =~= Seq::<BookkeepingCommand<M>>::empty());
    assert(apply_commands(v2, pop.drop_last()) == v2);
    assert(pop.last() == BookkeepingCommand::<M>::PopGraphicsState);
    lemma_apply_concat(v, push + cs, pop);
    assert(apply_commands(v2, pop) == pop_graphics_state_spec(v2));
    let w = apply_commands(v, full);
    assert(w.gs_stack =~= v.gs_stack);
    assert(w.tm_stack =~= v.tm_stack);
    assert(v1.materials.take(v.materials.len() as int) =~= v.materials);
    assert(w.materials.take(v.materials.len() as int) =~= v2.materials.take(
        v.materials.len() as int,
    ));
    assert forall|k: int| 0 <= k < full.len() implies pops_fit(
        apply_commands(v, full.take(k)),
        #[trigger] full[k],
    ) by {
        if k == 0 {
        } else if k <= cs.len() {
            let pre = cs.take(k - 1);
            assert(full.take(k) =~= push + pre);
            lemma_apply_concat(v, push, pre);
            assert forall|j: int| 0 <= j <= pre.len() implies gs_depth(#[trigger] pre.take(j))
                >= 0 && tm_depth(pre.take(j)) >= 0 by {
                assert(pre.take(j) =~= cs.take(j));
            }
            lemma_stacks_kept(v1, pre);
            assert(full[k] == cs[k - 1]);
            assert(cs.take(k).drop_last() =~= pre);
            assert(cs.take(k).last() == cs[k - 1]);
            assert(gs_depth(cs.take(k)) >= 0 && tm_depth(cs.take(k)) >= 0);
        } else {
            assert(full.take(k) =~= push + cs);
            assert(full[k] == BookkeepingCommand::<M>::PopGraphicsState);
        }
    }
}

/// A `Material` command registers its material after all others and makes it the current
/// one, whatever was current before; names, transform and saved states stay.
pub proof fn law_material_selects_what_it_defines<M>(v: SceneStateView<M>, m: M)
    ensures
        ({
            let w = command_spec(v, BookkeepingCommand::Material(m));
            &&& w.materials == v.materials.push(m)
            &&& w.gs.current_material == Some(v.materials.len() as usize)
            &&& w.gs.material_lib == v.gs.material_lib
            &&& w.tm == v.tm
            &&& w.gs_stack == v.gs_stack
            &&& w.tm_stack == v.tm_stack
        }),
{
}

/// A `MakeNamedMaterial` command registers its material after all others under its name,
/// leaves every other name and the current material as they were.
pub proof fn law_named_definition_registers<M>(
    v: SceneStateView<M>,
    name: String,
    m: M,
    other: Seq<char>,
)
    requires
        other != name@,
        v.materials.len() < usize::MAX,
    ensures
        ({
            let w = command_spec(v, BookkeepingCommand::MakeNamedMaterial { name, material: m });
            &&& w.materials == v.materials.push(m)
            &&& w.gs.material_lib.contains_key(name@)
            &&& w.gs.material_lib[name@] == v.materials.len()
            &&& w.gs.material_lib.contains_key(other) == v.gs.material_lib.contains_key(other)
            &&& (v.gs.material_lib.contains_key(other) ==> w.gs.material_lib[other]
                == v.gs.material_lib[other])
            &&& w.gs.current_material == v.gs.current_material
            &&& w.tm == v.tm
            &&& w.gs_stack == v.gs_stack
            &&& w.tm_stack == v.tm_stack
        }),
{
}

/// A `NamedMaterial` command makes the material registered under its name current and
/// changes nothing else; an unknown name changes nothing at all and is refused.
pub proof fn law_named_selection_selects<M>(v: SceneStateView<M>, name: String)
    ensures
        ({
            let c = BookkeepingCommand::<M>::NamedMaterial { name };
            let w = command_spec(v, c);
            &&& v.gs.material_lib.contains_key(name@) ==> w.gs.current_material == Some(
                v.gs.material_lib[name@],
            ) && !command_refused(v, c)
            &&& !v.gs.material_lib.contains_key(name@) ==> w == v && command_refused(v, c)
            &&& w.materials == v.materials
            &&& w.gs.material_lib == v.gs.material_lib
            &&& w.tm == v.tm
            &&& w.gs_stack == v.gs_stack
            &&& w.tm_stack == v.tm_stack
        }),
{
}

/// Saving the transform puts the current transform on top of the saved ones and changes
/// nothing else; restoring makes the last saved transform current again and takes it off.
pub proof fn law_transform_save_and_restore<M>(v: SceneStateView<M>)
    ensures
        ({
            let w = command_spec(v, BookkeepingCommand::PushTransform);
            &&& w.tm_stack == v.tm_stack.push(v.tm)
            &&& w.tm == v.tm
            &&& w.gs == v.gs
            &&& w.gs_stack == v.gs_stack
            &&& w.materials == v.materials
        }),
        v.tm_stack.len() > 0 ==> ({
            let w = command_spec(v, BookkeepingCommand::PopTransform);
            &&& w.tm == v.tm_stack[v.tm_stack.len() - 1]
            &&& w.tm_stack == v.tm_stack.subrange(0, v.tm_stack.len() - 1)
            &&& w.gs == v.gs
            &&& w.gs_stack == v.gs_stack
            &&& w.materials == v.materials
        }),
{
}

/// Saving the graphics state saves the transform with it; restoring it makes the last saved
/// graphics state and the last saved transform current again and takes both off.
pub proof fn law_graphics_state_save_and_restore<M>(v: SceneStateView<M>)
    ensures
        ({
            let w = command_spec(v, BookkeepingCommand::PushGraphicsState);
            &&& w.gs_stack == v.gs_stack.push(v.gs)
            &&& w.tm_stack == v.tm_stack.push(v.tm)
            &&& w.gs == v.gs
            &&& w.tm == v.tm
            &&& w.materials == v.materials
        }),
        v.gs_stack.len() > 0 && v.tm_stack.len() > 0 ==> ({
            let w = command_spec(v, BookkeepingCommand::PopGraphicsState);
            &&& w.gs == v.gs_stack[v.gs_stack.len() - 1]
            &&& w.gs_stack == v.gs_stack.subrange(0, v.gs_stack.len() - 1)
            &&& w.tm == v.tm_stack[v.tm_stack.len() - 1]
            &&& w.tm_stack == v.tm_stack.subrange(0, v.tm_stack.len() - 1)
            &&& w.materials == v.materials
        }),
{
}

/// Setting a transform makes it current and changes nothing else; resetting makes the
/// identity current.
pub proof fn law_set_transform_sets<M>(v: SceneStateView<M>, tm: usize)
    ensures
        ({
            let w = command_spec(v, BookkeepingCommand::SetTransform(tm));
            &&& w.tm == tm
            &&& w.tm_stack == v.tm_stack
            &&& w.gs == v.gs
            &&& w.gs_stack == v.gs_stack
            &&& w.materials == v.materials
        }),
        ({
            let w = command_spec(v, BookkeepingCommand::ResetTransform);
            &&& w.tm == IDENTITY_TRANSFORM
            &&& w.tm_stack == v.tm_stack
            &&& w.gs == v.gs
            &&& w.gs_stack == v.gs_stack
            &&& w.materials == v.materials
        }),
{
}

/// A block of commands between saving and restoring the transform, which itself restores
/// all it saves, gives back the transform and both stacks of saved states.
pub proof fn law_transform_block_restores<M>(v: SceneStateView<M>, cs: Seq<BookkeepingCommand<M>>)
    requires
        balanced(cs),
    ensures
        ({
            let full = seq![BookkeepingCommand::PushTransform] + cs + seq![
                BookkeepingCommand::PopTransform,
            ];
            let w = apply_commands(v, full);
            &&& w.tm == v.tm
            &&& w.tm_stack == v.tm_stack
            &&& w.gs_stack == v.gs_stack
        }),
{
    let push = seq![BookkeepingCommand::<M>::PushTransform];
    let pop = seq![BookkeepingCommand::<M>::PopTransform];
    let full = push + cs + pop;
    let v1 = push_transform_spec(v);
    assert(push.drop_last() =~= Seq::<BookkeepingCommand<M>>::empty());
    assert(apply_commands(v, push.drop_last()) == v);
    assert(push.last() == BookkeepingCommand::<M>::PushTransform);
    assert(apply_commands(v, push) == v1);
    lemma_stacks_kept(v1, cs);
    let v2 = apply_commands(v1, cs);
    lemma_apply_concat(v, push, cs);
    assert(v2.gs_stack =~= v1.gs_stack);
    assert(v2.tm_stack =~= v1.tm_stack);
    assert(pop.drop_last() =~= Seq::<BookkeepingCommand<M>>::empty());
    assert(apply_commands(v2, pop.drop_last()) == v2);
    assert(pop.last() == BookkeepingCommand::<M>::PopTransform);
    lemma_apply_concat(v, push + cs, pop);
    assert(apply_commands(v2, pop) == pop_transform_spec(v2));
    let w = apply_commands(v, full);
    assert(w.tm_stack =~= v.tm_stack);
    assert(w.gs_stack =~= v.gs_stack);
}

/// Which of the parts that a render needs the scene has defined so far.
#[derive(Clone, Copy)]
pub struct RenderSetup {
    pub film: bool,
    pub background: bool,
    pub lookat: bool,
    pub camera: bool,
    pub integrator: bool,
    pub aggregator: bool,
}

/// The complaint about the first missing part, in the order film, background, lookat,
/// camera, integrator, aggregator; `None` when nothing is missing.
pub open spec fn render_setup_complaint(s: RenderSetup) -> Option<Seq<char>> {
    if !s.film {
        Some("cannot render without a film"@)
    } else if !s.background {
        Some("cannot render without a background"@)
    } else if !s.lookat {
        Some("cannot render without lookat"@)
    } else if !s.camera {
        Some("cannot render without a camera"@)
    } else if !s.integrator {
        Some("cannot render without an integrator"@)
    } else if !s.aggregator {
        Some("cannot render without an object aggregator"@)
    } else {
        None
    }
}

/// Whether a render may start: `Ok` when every part is defined, else the render error that
/// names the first missing part.
pub fn check_render_setup(s: RenderSetup) -> (r: Result<(), SceneError>)
    ensures
        render_setup_complaint(s) is None ==> r is Ok,
        render_setup_complaint(s) matches Some(c) ==> (r matches Err(SceneError::Render(msg))
            && msg@ == c),
{
    let msg = if !s.film {
        "cannot render without a film"
    } else if !s.background {
        "cannot render without a background"
    } else if !s.lookat {
        "cannot render without lookat"
    } else if !s.camera {
        "cannot render without a camera"
    } else if !s.integrator {
        "cannot render without an integrator"
    } else if !s.aggregator {
        "cannot render without an object aggregator"
    } else {
        return Ok(());
    };
    Err(SceneError::Render(String::from_str(msg)))
}

} // verus!

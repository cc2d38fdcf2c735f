//! The render-instance slot store: a growable, densely packed array of
//! per-instance records, one per live cell. Slot `i` is position `i` of the
//! array; the GPU buffer that mirrors it is managed by the caller from the
//! plan that `draw` returns.

use vstd::prelude::*;

use crate::cell::{GridPos, Rgba};

verus! {

/// Placement of one instance: the grid cell it covers and its size in world
/// units.
#[derive(Debug, Clone, Copy, PartialEq, Eq)]
pub struct Transform {
    pub translation: GridPos,
    pub scale: u32,
}

impl Transform {
    pub fn from_translation(translation: GridPos) -> (t: Transform)
        ensures
            t == (Transform { translation, scale: 1 }),
    {
        Transform { translation, scale: 1 }
    }

    pub fn with_scale(self, scale: u32) -> (t: Transform)
        ensures
            t == (Transform { scale, ..self }),
    {
        Transform { scale, ..self }
    }
}

/// One render record.
#[derive(Debug, Clone, Copy, PartialEq, Eq)]
pub struct InstanceData {
    pub transform: Transform,
    pub color: Rgba,
}

impl InstanceData {
    pub fn new(transform: Transform, color: &Rgba) -> (d: InstanceData)
        ensures
            d == (InstanceData { transform, color: *color }),
    {
        InstanceData { transform, color: *color }
    }

    pub fn set_transform(&mut self, transform: Transform)
        ensures
            *final(self) == (InstanceData { transform, ..*old(self) }),
    {
        self.transform = transform;
    }

    pub fn as_transform(&self) -> (t: Transform)
        ensures
            t == self.transform,
    {
        self.transform
    }
}

/// What the caller must do with the GPU buffer before drawing.
#[derive(Debug, Clone, Copy, PartialEq, Eq)]
pub struct DrawPlan {
    /// Reallocate the buffer for this many records (it grew since the last draw).
    pub realloc: Option<usize>,
    /// Upload the records (they changed since the last draw).
    pub upload: bool,
    /// How many instances to draw.
    pub instance_count: usize,
}

/// The capacity after one growth step: doubled (one for an empty store),
/// saturating at `usize::MAX`.
pub open spec fn grown(cap: usize) -> usize {
    if cap == 0 {
        1
    } else if cap <= usize::MAX / 2 {
        (2 * cap) as usize
    } else {
        usize::MAX
    }
}

pub struct Instance {
    instance_size: usize,
    instances: Vec<InstanceData>,
    update: bool,
    resized: bool,
}

impl View for Instance {
    type V = Seq<InstanceData>;

    closed spec fn view(&self) -> Seq<InstanceData> {
        self.instances@
    }
}

impl Instance {
    /// The number of records the buffer can hold.
    pub closed spec fn capacity_spec(&self) -> usize {
        self.instance_size
    }

    /// Whether records changed since the last draw.
    pub closed spec fn dirty(&self) -> bool {
        self.update
    }

    /// Whether the capacity grew since the last draw.
    pub closed spec fn pending_resize(&self) -> bool {
        self.resized
    }

    /// The records never outnumber the capacity.
    pub open spec fn wf(&self) -> bool {
        self@.len() <= self.capacity_spec()
    }

    pub fn new(base_size: usize) -> (r: Instance)
        ensures
            r.wf(),
            r@ == Seq::<InstanceData>::empty(),
            r.capacity_spec() == base_size,
            !r.dirty(),
            !r.pending_resize(),
    {
        Instance {
            instance_size: base_size,
            instances: Vec::new(),
            update: false,
            resized: false,
        }
    }

    pub fn instance_count(&self) -> (r: usize)
        ensures
            r == self@.len(),
    {
        self.instances.len()
    }

    pub fn capacity(&self) -> (r: usize)
        ensures
            r == self.capacity_spec(),
    {
        self.instance_size
    }

    /// Appends a record and returns its slot; a full store doubles its
    /// capacity first. Existing slots keep their index and contents.
    pub fn add_instance(&mut self, instance: InstanceData) -> (r: usize)
        requires
            old(self).wf(),
            old(self)@.len() < usize::MAX,
        ensures
            final(self).wf(),
            r == old(self)@.len(),
            final(self)@ == old(self)@.push(instance),
            final(self).capacity_spec() == if old(self)@.len() >= old(self).capacity_spec() {
                grown(old(self).capacity_spec())
            } else {
                old(self).capacity_spec()
            },
            final(self).dirty(),
            final(self).pending_resize() == (old(self).pending_resize() || old(self)@.len()
                >= old(self).capacity_spec()),
    {
        if self.instances.len() >= self.instance_size {
            let new_capacity = if self.instance_size == 0 {
                1
            } else if self.instance_size <= usize::MAX / 2 {
                self.instance_size * 2
            } else {
                usize::MAX
            };
            self.resize_instance_buffer(new_capacity);
        }
        self.instances.push(instance);
        self.update = true;
        self.instances.len() - 1
    }

    /// Deletes the record at `index`; every later record moves down one slot.
    pub fn remove_instance(&mut self, index: usize)
        requires
            old(self).wf(),
            index < old(self)@.len(),
        ensures
            final(self).wf(),
            final(self)@ == old(self)@.remove(index as int),
            final(self).capacity_spec() == old(self).capacity_spec(),
            final(self).dirty(),
            final(self).pending_resize() == old(self).pending_resize(),
    {
        self.instances.remove(index);
        self.update = true;
    }

    pub fn get_instance(&self, index: usize) -> (r: Option<InstanceData>)
        ensures
            r == (if index < self@.len() {
                Some(self@[index as int])
            } else {
                None
            }),
    {
        if index < self.instances.len() {
            Some(self.instances[index])
        } else {
            None
        }
    }

    /// Takes the transform of `instance` into the record at `index`.
    pub fn update_instance(&mut self, index: usize, instance: InstanceData)
        requires
            old(self).wf(),
            index < old(self)@.len(),
        ensures
            final(self).wf(),
            final(self)@ == old(self)@.update(
                index as int,
                InstanceData { transform: instance.transform, ..old(self)@[index as int] },
            ),
            final(self).capacity_spec() == old(self).capacity_spec(),
            final(self).dirty(),
            final(self).pending_resize() == old(self).pending_resize(),
    {
        self.update_instance_transform(index, instance.as_transform());
    }

    pub fn update_instance_transform(&mut self, index: usize, transform: Transform)
        requires
            old(self).wf(),
            index < old(self)@.len(),
        ensures
            final(self).wf(),
            final(self)@ == old(self)@.update(
                index as int,
                InstanceData { transform, ..old(self)@[index as int] },
            ),
            final(self).capacity_spec() == old(self).capacity_spec(),
            final(self).dirty(),
            final(self).pending_resize() == old(self).pending_resize(),
    {
        let mut d = self.instances[index];
        d.set_transform(transform);
        self.instances.set(index, d);
        self.update = true;
    }

    pub fn update_instance_color(&mut self, index: usize, color: &Rgba)
        requires
            old(self).wf(),
            index < old(self)@.len(),
        ensures
            final(self).wf(),
            final(self)@ == old(self)@.update(
                index as int,
                InstanceData { color: *color, ..old(self)@[index as int] },
            ),
            final(self).capacity_spec() == old(self).capacity_spec(),
            final(self).dirty(),
            final(self).pending_resize() == old(self).pending_resize(),
    {
        let mut d = self.instances[index];
        d.color = *color;
        self.instances.set(index, d);
        self.update = true;
    }

    /// Decides the buffer work for this frame: reallocate when the capacity
    /// grew, upload only when a record changed, then draw every record.
    pub fn draw(&mut self) -> (r: DrawPlan)
        requires
            old(self).wf(),
        ensures
            final(self).wf(),
            final(self)@ == old(self)@,
            final(self).capacity_spec() == old(self).capacity_spec(),
            r.realloc == (if old(self).pending_resize() {
                Some(old(self).capacity_spec())
            } else {
                None
            }),
            r.upload == old(self).dirty(),
            r.instance_count == old(self)@.len(),
            !final(self).dirty(),
            !final(self).pending_resize(),
    {
        let realloc = if self.resized {
            Some(self.instance_size)
        } else {
            None
        };
        let plan = DrawPlan { realloc, upload: self.update, instance_count: self.instances.len() };
        self.update = false;
        self.resized = false;
        plan
    }

    fn resize_instance_buffer(&mut self, new_capacity: usize)
        ensures
            final(self)@ == old(self)@,
            final(self).capacity_spec() == new_capacity,
            final(self).dirty(),
            final(self).pending_resize(),
    {
        self.instance_size = new_capacity;
        self.resized = true;
        self.update = true;
    }
}

} // verus!

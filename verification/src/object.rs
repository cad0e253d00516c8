//! Foreign-compatible object layers.
//!
//! [`PythonBaseObject`] is the contract every allocatable layer satisfies: a
//! byte footprint, an allocation operation that initializes the layer inside a
//! fresh block, and a deallocation operation that destroys the layer's inline
//! payloads (outermost first) before freeing the block.
//!
//! [`PyObject`] is the minimal base: the bare object header. [`PyRustObject`]
//! embeds a native payload value immediately after a base layer's bytes, at
//! the smallest correctly aligned offset, and implements the same contract, so
//! composites nest to any depth.

use vstd::prelude::*;
use vstd::pervasive::unreached;
use core::marker::PhantomData;
use crate::layout::{spec_round_up, lemma_round_up_properties, round_up};
use crate::payload::InlineValue;
use crate::runtime::{Runtime, Event, PyErr, ObjSlot, OBJECT_HEADER_SIZE};

verus! {

/// Where the payload of a composite over base `B` sits: the base's byte
/// footprint rounded up to the payload's alignment.
pub open spec fn spec_payload_offset<T: InlineValue, B: PythonBaseObject>() -> nat {
    spec_round_up(B::spec_size(), T::spec_align())
}

/// Byte footprint of a composite: the payload offset plus the payload size.
pub open spec fn spec_composite_size<T: InlineValue, B: PythonBaseObject>() -> nat {
    spec_payload_offset::<T, B>() + T::spec_size()
}

/// The contract of every foreign-compatible object layer that can serve as a
/// base type.
///
/// `alloc` may be handed a descriptor of this type or of a type derived from
/// it, whose declared size is then larger than `spec_size()`; the layer only
/// claims the prefix `[0, spec_size())` of the block. `dealloc` is the
/// finalizer: it destroys the layer's inline payloads at
/// `spec_drop_offsets()`, in order, and then frees the block. The runtime
/// invokes it exactly once per object, when the last reference is dropped.
pub trait PythonBaseObject: Sized {
    /// The initializer value `alloc` consumes.
    type InitType;

    /// Byte footprint of this layer, bases and payloads included.
    spec fn spec_size() -> nat;

    /// Offsets of the inline payloads destroyed by `dealloc`, outermost
    /// layer first.
    spec fn spec_drop_offsets() -> Seq<usize>;

    /// The object this handle refers to.
    spec fn spec_obj_id(&self) -> int;

    /// What `alloc` establishes in a fresh block for a given initializer.
    /// Only the prefix `[0, spec_size())` of the block is constrained.
    spec fn init_frame(bytes: Seq<u8>, init: Self::InitType) -> bool;

    /// `init_frame` depends only on the prefix `[0, spec_size())`, so writes
    /// past this layer's footprint preserve it.
    proof fn lemma_frame_prefix(b1: Seq<u8>, b2: Seq<u8>, init: Self::InitType)
        requires
            b1.len() >= Self::spec_size(),
            b2.len() >= Self::spec_size(),
            (b2.subrange(0, Self::spec_size() as int) == b1.subrange(
                0,
                Self::spec_size() as int,
            )),
            Self::init_frame(b1, init),
        ensures
            Self::init_frame(b2, init),
    ;

    /// Byte footprint of this layer.
    fn size() -> (r: usize)
        requires
            Self::spec_size() <= usize::MAX,
        ensures
            r as nat == Self::spec_size(),
    ;

    /// The object this handle refers to.
    fn obj_index(&self) -> (r: usize)
        ensures
            r as int == self.spec_obj_id(),
    ;

    /// The same handle as a plain object handle.
    fn into_object(self) -> (r: PyObject)
        ensures
            r.view_id() == self.spec_obj_id(),
    ;

    /// Reinterprets a plain object handle as this layer. The caller is
    /// responsible for the object having been allocated through this layer's
    /// own allocation path; the handle is only as valid as that claim.
    fn unchecked_downcast_from(obj: PyObject) -> (r: Self)
        ensures
            r.spec_obj_id() == obj.view_id(),
    ;

    /// The payload offsets `dealloc` destroys, as a value a type descriptor
    /// can store in its finalizer slot.
    fn drop_offsets_vec() -> (v: Vec<usize>)
        requires
            Self::spec_size() <= usize::MAX,
        ensures
            v@ == Self::spec_drop_offsets(),
    ;

    /// Allocates a block of `ty`'s declared size (which must cover this
    /// layer) and initializes this layer in it from `init`. The modeled
    /// allocator does not fail, so the result is always a fresh handle
    /// holding the block's one reference.
    fn allocate(rt: &mut Runtime, ty: usize, init: Self::InitType) -> (r: Result<Self, PyErr>)
        requires
            old(rt).wf(),
            ty < old(rt).types@.len(),
            old(rt).types@[ty as int].ready,
            old(rt).types@[ty as int].basicsize >= Self::spec_size(),
        ensures
            final(rt).wf(),
            r is Ok,
            (r matches Ok(h) ==> {
                let id = old(rt).objs@.len() as int;
                &&& h.spec_obj_id() == id
                &&& final(rt).objs@.len() == old(rt).objs@.len() + 1
                &&& final(rt).objs@.subrange(0, id) == old(rt).objs@
                &&& final(rt).objs@[id].live
                &&& final(rt).objs@[id].refcount == 1
                &&& final(rt).objs@[id].ty == ty
                &&& final(rt).objs@[id].bytes@.len() == old(rt).types@[ty as int].basicsize
                &&& Self::init_frame(final(rt).objs@[id].bytes@, init)
                &&& final(rt).log@ == old(rt).log@.push(
                    Event::Allocated { obj: old(rt).objs@.len() as usize },
                )
            }),
            final(rt).types@ == old(rt).types@,
            final(rt).dicts@ == old(rt).dicts@,
            final(rt).modules@ == old(rt).modules@,
            final(rt).doc_allocs == old(rt).doc_allocs,
            final(rt).doc_frees == old(rt).doc_frees,
    ;

    /// The finalizer: destroys this layer's inline payloads at
    /// `spec_drop_offsets()`, in order, then frees the block. Called exactly
    /// once per object; a handle to the object must not be used afterwards.
    fn dealloc(rt: &mut Runtime, obj: usize)
        requires
            old(rt).wf(),
            obj < old(rt).objs@.len(),
            old(rt).objs@[obj as int].live,
            old(rt).objs@[obj as int].bytes@.len() >= Self::spec_size(),
        ensures
            final(rt).wf(),
            final(rt).objs@.len() == old(rt).objs@.len(),
            forall|j: int|
                0 <= j < old(rt).objs@.len() && j != obj ==> final(rt).objs@[j]
                    == old(rt).objs@[j],
            !final(rt).objs@[obj as int].live,
            (final(rt).log@ == old(rt).log@ + Self::spec_drop_offsets().map_values(
                |o: usize| Event::PayloadDropped { obj, offset: o },
            ) + seq![Event::Freed { obj }]),
            final(rt).types@ == old(rt).types@,
            final(rt).dicts@ == old(rt).dicts@,
            final(rt).modules@ == old(rt).modules@,
            final(rt).doc_allocs == old(rt).doc_allocs,
            final(rt).doc_frees == old(rt).doc_frees,
    ;
}

/// A handle to a bare foreign object: the minimal base layer, just the
/// object header.
pub struct PyObject {
    id: usize,
}

impl PyObject {
    /// The object this handle refers to.
    pub closed spec fn view_id(&self) -> int {
        self.id as int
    }
}

impl PythonBaseObject for PyObject {
    type InitType = ();

    open spec fn spec_size() -> nat {
        OBJECT_HEADER_SIZE as nat
    }

    open spec fn spec_drop_offsets() -> Seq<usize> {
        Seq::empty()
    }

    closed spec fn spec_obj_id(&self) -> int {
        self.view_id()
    }

    open spec fn init_frame(bytes: Seq<u8>, init: ()) -> bool {
        true
    }

    proof fn lemma_frame_prefix(b1: Seq<u8>, b2: Seq<u8>, init: ()) {
    }

    fn size() -> usize {
        OBJECT_HEADER_SIZE
    }

    fn obj_index(&self) -> usize {
        self.id
    }

    fn into_object(self) -> PyObject {
        self
    }

    fn unchecked_downcast_from(obj: PyObject) -> Self {
        obj
    }

    fn drop_offsets_vec() -> Vec<usize> {
        Vec::new()
    }

    /// Delegates to the runtime's standard allocation routine.
    fn allocate(rt: &mut Runtime, ty: usize, init: ()) -> Result<Self, PyErr> {
        let id = rt.tp_alloc(ty);
        Ok(PyObject { id })
    }

    /// Delegates to the runtime's standard freeing routine; the bare header
    /// holds no inline payloads.
    fn dealloc(rt: &mut Runtime, obj: usize) {
        rt.tp_free(obj);
        proof {
            let drops = Seq::<usize>::empty().map_values(
                |o: usize| Event::PayloadDropped { obj, offset: o },
            );
            assert(final(rt).log@ =~= old(rt).log@ + drops + seq![Event::Freed { obj }]);
        }
    }
}

/// A foreign object that embeds a native value of type `T` immediately after
/// a base layer `B`. The handle acts like a shared, reference-counted view of
/// the stored value; the counting is done by the foreign runtime.
pub struct PyRustObject<T: InlineValue, B: PythonBaseObject> {
    obj: PyObject,
    t: PhantomData<T>,
    b: PhantomData<B>,
}

impl<T: InlineValue, B: PythonBaseObject> PyRustObject<T, B> {
    /// Where this composite's payload sits in the block: the base's size
    /// rounded up to the payload's alignment.
    pub fn offset() -> (r: usize)
        requires
            spec_composite_size::<T, B>() <= usize::MAX,
        ensures
            r as nat == spec_payload_offset::<T, B>(),
    {
        proof {
            T::lemma_laws();
            lemma_round_up_properties(B::spec_size(), T::spec_align());
        }
        let bsize = B::size();
        let align = T::align();
        round_up(bsize, align)
    }

    /// The handle refers to a live block big enough to hold this composite:
    /// what the composite's own allocation path establishes.
    pub open spec fn valid(&self, rt: Runtime) -> bool {
        &&& 0 <= self.spec_obj_id() < rt.objs@.len()
        &&& rt.objs@[self.spec_obj_id()].live
        &&& rt.objs@[self.spec_obj_id()].bytes@.len() >= spec_composite_size::<T, B>()
    }

    /// The bytes of the payload slot inside the referenced block.
    pub open spec fn stored_payload(&self, rt: Runtime) -> Seq<u8> {
        rt.objs@[self.spec_obj_id()].bytes@.subrange(
            spec_payload_offset::<T, B>() as int,
            spec_composite_size::<T, B>() as int,
        )
    }

    /// Reads the native value stored in this object's payload slot.
    pub fn get(&self, rt: &Runtime) -> (r: T)
        requires
            rt.wf(),
            self.valid(*rt),
        ensures
            r == T::spec_decode(self.stored_payload(*rt)),
    {
        proof {
            T::lemma_laws();
            lemma_round_up_properties(B::spec_size(), T::spec_align());
        }
        let id = self.obj.id;
        let _block_len = rt.objs[id].bytes.len();
        let off = Self::offset();
        T::read_from(&rt.objs[id].bytes, off)
    }

    /// This object as a plain object handle, borrowing this handle's
    /// reference.
    pub fn as_object(&self) -> (r: &PyObject)
        ensures
            r.view_id() == self.spec_obj_id(),
    {
        &self.obj
    }

    /// This object viewed as its base layer. The composite's layout is a
    /// strict extension of the base's, so the same block serves both; the
    /// returned handle borrows the composite's reference.
    pub fn base(&self) -> (r: B)
        ensures
            r.spec_obj_id() == self.spec_obj_id(),
    {
        B::unchecked_downcast_from(PyObject { id: self.obj.id })
    }

    /// A new handle to the same object, holding one more foreign reference.
    pub fn clone_ref(&self, rt: &mut Runtime) -> (r: Self)
        requires
            old(rt).wf(),
            self.valid(*old(rt)),
            old(rt).objs@[self.spec_obj_id()].refcount < usize::MAX,
        ensures
            final(rt).wf(),
            r.spec_obj_id() == self.spec_obj_id(),
            r.valid(*final(rt)),
            self.valid(*final(rt)),
            final(rt).objs@.len() == old(rt).objs@.len(),
            forall|j: int|
                0 <= j < old(rt).objs@.len() && j != self.spec_obj_id() ==> final(rt).objs@[j]
                    == old(rt).objs@[j],
            final(rt).objs@[self.spec_obj_id()].refcount == old(rt).objs@[
                self.spec_obj_id()
            ].refcount + 1,
            final(rt).objs@[self.spec_obj_id()].live,
            (final(rt).objs@[self.spec_obj_id()].bytes == old(rt).objs@[
                self.spec_obj_id()
            ].bytes),
            final(rt).objs@[self.spec_obj_id()].ty == old(rt).objs@[self.spec_obj_id()].ty,
            final(rt).log@ == old(rt).log@,
            final(rt).types@ == old(rt).types@,
            final(rt).dicts@ == old(rt).dicts@,
            final(rt).modules@ == old(rt).modules@,
            final(rt).doc_allocs == old(rt).doc_allocs,
            final(rt).doc_frees == old(rt).doc_frees,
    {
        rt.incref(self.obj.id);
        PyRustObject { obj: PyObject { id: self.obj.id }, t: PhantomData, b: PhantomData }
    }

    /// Gives up this handle's foreign reference. Dropping the last reference
    /// runs the composite's finalizer: the inline payloads are destroyed,
    /// outermost first, and the block is freed.
    ///
    /// The handle must have been produced by this composite's own allocation
    /// path; the requirement that the object's type carries exactly this
    /// composite's finalizer offsets expresses that.
    pub fn release(self, rt: &mut Runtime)
        requires
            old(rt).wf(),
            self.valid(*old(rt)),
            old(rt).objs@[self.spec_obj_id()].refcount >= 1,
            ({
                let ty = old(rt).objs@[self.spec_obj_id()].ty as int;
                old(rt).types@[ty].dealloc_offsets matches Some(offs)
                    && offs@ == <Self as PythonBaseObject>::spec_drop_offsets()
            }),
        ensures
            final(rt).wf(),
            final(rt).objs@.len() == old(rt).objs@.len(),
            forall|j: int|
                0 <= j < old(rt).objs@.len() && j != self.spec_obj_id() ==> final(rt).objs@[j]
                    == old(rt).objs@[j],
            final(rt).types@ == old(rt).types@,
            final(rt).dicts@ == old(rt).dicts@,
            final(rt).modules@ == old(rt).modules@,
            final(rt).doc_allocs == old(rt).doc_allocs,
            final(rt).doc_frees == old(rt).doc_frees,
            (old(rt).objs@[self.spec_obj_id()].refcount > 1 ==> {
                &&& final(rt).objs@[self.spec_obj_id()] == ObjSlot {
                    refcount: (old(rt).objs@[self.spec_obj_id()].refcount - 1) as usize,
                    ..old(rt).objs@[self.spec_obj_id()]
                }
                &&& final(rt).log@ == old(rt).log@
            }),
            (old(rt).objs@[self.spec_obj_id()].refcount == 1 ==> {
                &&& !final(rt).objs@[self.spec_obj_id()].live
                &&& final(rt).log@ == old(rt).log@
                    + <Self as PythonBaseObject>::spec_drop_offsets().map_values(
                    |o: usize| Event::PayloadDropped {
                        obj: self.spec_obj_id() as usize,
                        offset: o,
                    },
                ) + seq![Event::Freed { obj: self.spec_obj_id() as usize }]
            }),
    {
        let id = self.obj.id;
        let rc = rt.objs[id].refcount;
        if rc == 1 {
            <Self as PythonBaseObject>::dealloc(rt, id);
        } else {
            rt.decref(id);
        }
    }
}

impl<T: InlineValue, B: PythonBaseObject> PythonBaseObject for PyRustObject<T, B> {
    /// The payload value, then the base's own initializer.
    type InitType = (T, B::InitType);

    open spec fn spec_size() -> nat {
        spec_composite_size::<T, B>()
    }

    open spec fn spec_drop_offsets() -> Seq<usize> {
        seq![(spec_payload_offset::<T, B>() as usize)] + B::spec_drop_offsets()
    }

    closed spec fn spec_obj_id(&self) -> int {
        self.obj.id as int
    }

    open spec fn init_frame(bytes: Seq<u8>, init: (T, B::InitType)) -> bool {
        &&& B::init_frame(bytes, init.1)
        &&& bytes.subrange(
            spec_payload_offset::<T, B>() as int,
            spec_composite_size::<T, B>() as int,
        ) == init.0.spec_encode()
    }

    proof fn lemma_frame_prefix(b1: Seq<u8>, b2: Seq<u8>, init: (T, B::InitType)) {
        T::lemma_laws();
        lemma_round_up_properties(B::spec_size(), T::spec_align());
        let size = spec_composite_size::<T, B>() as int;
        let bsize = B::spec_size() as int;
        let off = spec_payload_offset::<T, B>() as int;
        let p1 = b1.subrange(0, size);
        let p2 = b2.subrange(0, size);
        assert(forall|i: int| 0 <= i < size ==> b1[i] == b2[i]) by {
            assert(forall|i: int|
                0 <= i < size ==> #[trigger] b1[i] == p1[i] && b2[i] == p2[i]);
        }
        assert(b2.subrange(0, bsize) =~= b1.subrange(0, bsize));
        B::lemma_frame_prefix(b1, b2, init.1);
        assert(b2.subrange(off, size) =~= b1.subrange(off, size));
    }

    fn size() -> usize {
        proof {
            T::lemma_laws();
            lemma_round_up_properties(B::spec_size(), T::spec_align());
        }
        let off = Self::offset();
        let tsize = T::size();
        off + tsize
    }

    fn obj_index(&self) -> usize {
        self.obj.id
    }

    fn into_object(self) -> PyObject {
        self.obj
    }

    fn unchecked_downcast_from(obj: PyObject) -> Self {
        PyRustObject { obj, t: PhantomData, b: PhantomData }
    }

    fn drop_offsets_vec() -> Vec<usize> {
        proof {
            T::lemma_laws();
            lemma_round_up_properties(B::spec_size(), T::spec_align());
        }
        let off = Self::offset();
        let mut v: Vec<usize> = Vec::new();
        v.push(off);
        let mut rest = B::drop_offsets_vec();
        v.append(&mut rest);
        proof {
            assert(v@ =~= seq![(spec_payload_offset::<T, B>() as usize)]
                + B::spec_drop_offsets());
        }
        v
    }

    /// Allocates through the base first, so base-level state is established,
    /// then moves the payload into its slot; the move touches nothing below
    /// the base's footprint.
    fn allocate(rt: &mut Runtime, ty: usize, init: (T, B::InitType)) -> Result<Self, PyErr> {
        proof {
            T::lemma_laws();
            lemma_round_up_properties(B::spec_size(), T::spec_align());
        }
        let (val, base_init) = init;
        let r = B::allocate(rt, ty, base_init);
        match r {
            Ok(bh) => {
                let ghost rt_after_base = *rt;
                let id = bh.obj_index();
                let off = Self::offset();
                let ghost bytes_before = rt.objs@[id as int].bytes@;
                val.write_into(&mut rt.objs[id].bytes, off);
                proof {
                    let gid = id as int;
                    let bytes_after = final(rt).objs@[gid].bytes@;
                    let bsize = B::spec_size() as int;
                    assert(bytes_after.subrange(0, bsize) =~= bytes_before.subrange(0, bsize));
                    B::lemma_frame_prefix(bytes_before, bytes_after, base_init);
                    assert(final(rt).objs@.subrange(0, gid) =~= old(rt).objs@);
                    assert(final(rt).wf()) by {
                        assert(forall|i: int|
                            0 <= i < final(rt).objs@.len() && i != gid
                                ==> final(rt).objs@[i] == rt_after_base.objs@[i]);
                    }
                }
                Ok(Self::unchecked_downcast_from(bh.into_object()))
            },
            Err(e) => unreached(),
        }
    }

    /// Destroys the payload at this composite's offset, then defers to the
    /// base's finalizer, so nested payloads are destroyed from the outermost
    /// layer inwards and the block is freed last.
    fn dealloc(rt: &mut Runtime, obj: usize) {
        proof {
            T::lemma_laws();
            lemma_round_up_properties(B::spec_size(), T::spec_align());
        }
        let _block_len = rt.objs[obj].bytes.len();
        let off = Self::offset();
        rt.log.push(Event::PayloadDropped { obj, offset: off });
        B::dealloc(rt, obj);
        proof {
            let f = |o: usize| Event::PayloadDropped { obj, offset: o };
            assert(Self::spec_drop_offsets().map_values(f)
                =~= seq![Event::PayloadDropped { obj, offset: off }]
                    + B::spec_drop_offsets().map_values(f));
            assert(final(rt).log@ =~= old(rt).log@ + Self::spec_drop_offsets().map_values(f)
                + seq![Event::Freed { obj }]);
        }
    }
}

} // verus!

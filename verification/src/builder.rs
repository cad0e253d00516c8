//! Building foreign-runtime type descriptors for composite objects.
//!
//! [`PyRustTypeBuilder`] stages a heap-allocated type descriptor: stamping in
//! the name, optionally declaring an already-finished base type, attaching
//! documentation and an attribute dictionary, and finally finishing the
//! descriptor: its size and finalizer slots are wired to the composite's
//! layout, the runtime readies the type, and the type is registered in its
//! target module. Finishing consumes the builder, so a second `finish` (or a
//! mutation after finishing) is unrepresentable. [`PyRustType`] is the
//! finished, immutable handle that stamps out instances.

use vstd::prelude::*;
use vstd::pervasive::unreached;
use vstd::string::StringSliceAdditionalSpecFns;
use core::marker::PhantomData;
use crate::payload::InlineValue;
use crate::object::{
    PythonBaseObject, PyObject, PyRustObject, spec_composite_size, spec_payload_offset,
};
use crate::runtime::{
    Runtime, Event, PyErr, DictValue, TypeDescriptor, doc_count, lemma_doc_count_push,
    lemma_doc_count_update,
};

verus! {

/// A finished foreign-runtime type whose instances are composites carrying a
/// native `T` over base layer `B`.
pub struct PyRustType<T: InlineValue, B: PythonBaseObject> {
    ty: usize,
    t: PhantomData<T>,
    b: PhantomData<B>,
}

impl<T: InlineValue, B: PythonBaseObject> PyRustType<T, B> {
    /// The descriptor this handle refers to.
    pub closed spec fn spec_ty_id(&self) -> int {
        self.ty as int
    }

    /// What `finish` establishes and every later operation preserves: the
    /// descriptor is ready, its declared size is exactly the composite's
    /// footprint, and its finalizer slot holds the composite's payload
    /// offsets.
    pub open spec fn valid(&self, rt: Runtime) -> bool {
        &&& 0 <= self.spec_ty_id() < rt.types@.len()
        &&& rt.types@[self.spec_ty_id()].ready
        &&& rt.types@[self.spec_ty_id()].basicsize == spec_composite_size::<T, B>()
        &&& (rt.types@[self.spec_ty_id()].dealloc_offsets matches Some(offs)
            && offs@ == <PyRustObject<T, B> as PythonBaseObject>::spec_drop_offsets())
    }

    /// The descriptor this handle refers to.
    pub fn type_index(&self) -> (r: usize)
        ensures
            r as int == self.spec_ty_id(),
    {
        self.ty
    }

    /// Creates one instance: allocates a block of the type's declared size,
    /// establishes the base layer from `base_val`, and moves `val` into the
    /// payload slot. Allocation failure in the modeled runtime is fatal
    /// rather than surfaced, matching the foreign allocator's convention.
    pub fn create_instance(&self, rt: &mut Runtime, val: T, base_val: B::InitType) -> (h:
        PyRustObject<T, B>)
        requires
            old(rt).wf(),
            self.valid(*old(rt)),
        ensures
            final(rt).wf(),
            self.valid(*final(rt)),
            h.spec_obj_id() == old(rt).objs@.len(),
            h.valid(*final(rt)),
            final(rt).objs@.len() == old(rt).objs@.len() + 1,
            final(rt).objs@.subrange(0, old(rt).objs@.len() as int) == old(rt).objs@,
            final(rt).objs@[h.spec_obj_id()].live,
            final(rt).objs@[h.spec_obj_id()].refcount == 1,
            final(rt).objs@[h.spec_obj_id()].ty as int == self.spec_ty_id(),
            h.stored_payload(*final(rt)) == val.spec_encode(),
            B::init_frame(final(rt).objs@[h.spec_obj_id()].bytes@, base_val),
            (final(rt).log@ == old(rt).log@.push(
                Event::Allocated { obj: old(rt).objs@.len() as usize },
            )),
            final(rt).types@ == old(rt).types@,
            final(rt).dicts@ == old(rt).dicts@,
            final(rt).modules@ == old(rt).modules@,
            final(rt).doc_allocs == old(rt).doc_allocs,
            final(rt).doc_frees == old(rt).doc_frees,
    {
        let r = <PyRustObject<T, B> as PythonBaseObject>::allocate(rt, self.ty, (val, base_val));
        match r {
            Ok(h) => h,
            Err(_) => unreached(),
        }
    }

    /// A new handle to the same type, holding one more reference to the
    /// descriptor.
    pub fn clone_ref(&self, rt: &mut Runtime) -> (r: Self)
        requires
            old(rt).wf(),
            self.valid(*old(rt)),
            old(rt).types@[self.spec_ty_id()].refcount < usize::MAX,
        ensures
            final(rt).wf(),
            r.spec_ty_id() == self.spec_ty_id(),
            r.valid(*final(rt)),
            self.valid(*final(rt)),
            final(rt).types@.len() == old(rt).types@.len(),
            forall|t: int|
                0 <= t < old(rt).types@.len() && t != self.spec_ty_id() ==> final(rt).types@[t]
                    == old(rt).types@[t],
            (final(rt).types@[self.spec_ty_id()] == TypeDescriptor {
                refcount: (old(rt).types@[self.spec_ty_id()].refcount + 1) as usize,
                ..old(rt).types@[self.spec_ty_id()]
            }),
            final(rt).objs@ == old(rt).objs@,
            final(rt).dicts@ == old(rt).dicts@,
            final(rt).modules@ == old(rt).modules@,
            final(rt).log@ == old(rt).log@,
            final(rt).doc_allocs == old(rt).doc_allocs,
            final(rt).doc_frees == old(rt).doc_frees,
    {
        let rc = rt.types[self.ty].refcount;
        rt.types[self.ty].refcount = rc + 1;
        proof {
            let tyid = self.ty as int;
            assert(rt.types@ =~= old(rt).types@.update(tyid, rt.types@[tyid]));
            lemma_doc_count_update(old(rt).types@, tyid, rt.types@[tyid]);
        }
        PyRustType { ty: self.ty, t: PhantomData, b: PhantomData }
    }
}

/// A transient, single-owner staging value for one type descriptor. Every
/// mutating step consumes the builder and returns a new one, and `finish`
/// consumes it for good, so the staging state is never aliased and a type can
/// be finished only once.
#[must_use]
pub struct PyRustTypeBuilder<T: InlineValue, B: PythonBaseObject> {
    ty: usize,
    target_module: Option<usize>,
    t: PhantomData<T>,
    b: PhantomData<B>,
}

impl<T: InlineValue, B: PythonBaseObject> PyRustTypeBuilder<T, B> {
    /// The descriptor being staged.
    pub closed spec fn spec_ty_id(&self) -> int {
        self.ty as int
    }

    /// The module the finished type will be registered in, if any.
    pub closed spec fn spec_target(&self) -> Option<usize> {
        self.target_module
    }

    /// The descriptor being staged.
    pub fn type_index(&self) -> (r: usize)
        ensures
            r as int == self.spec_ty_id(),
    {
        self.ty
    }

    /// The staging invariant: the descriptor exists and is not yet ready,
    /// any declared base is a ready type on which the descriptor holds a
    /// reference, and any target module exists.
    pub open spec fn staged(&self, rt: Runtime) -> bool {
        &&& 0 <= self.spec_ty_id() < rt.types@.len()
        &&& !rt.types@[self.spec_ty_id()].ready
        &&& (rt.types@[self.spec_ty_id()].base matches Some(b0) ==> b0 < rt.types@.len()
            && rt.types@[b0 as int].ready && rt.types@[b0 as int].refcount >= 1)
        &&& (self.spec_target() matches Some(m) ==> m < rt.modules@.len())
    }

    /// Declares an already-finished type as the base, replacing any earlier
    /// declaration: the descriptor takes a reference on the new base and
    /// gives up its reference on the old one. The builder's static nesting
    /// changes accordingly, so the inheritance chain is mirrored in the
    /// composite's layout.
    pub fn base<T2: InlineValue, B2: PythonBaseObject>(
        self,
        rt: &mut Runtime,
        base_type: &PyRustType<T2, B2>,
    ) -> (b: PyRustTypeBuilder<T, PyRustObject<T2, B2>>)
        requires
            old(rt).wf(),
            self.staged(*old(rt)),
            base_type.valid(*old(rt)),
            old(rt).types@[base_type.spec_ty_id()].refcount < usize::MAX,
        ensures
            final(rt).wf(),
            b.spec_ty_id() == self.spec_ty_id(),
            b.spec_target() == self.spec_target(),
            b.staged(*final(rt)),
            base_type.valid(*final(rt)),
            final(rt).types@.len() == old(rt).types@.len(),
            (final(rt).types@[self.spec_ty_id()] == TypeDescriptor {
                base: Some(base_type.spec_ty_id() as usize),
                ..old(rt).types@[self.spec_ty_id()]
            }),
            forall|t: int|
                0 <= t < old(rt).types@.len() && t != self.spec_ty_id()
                    && t != base_type.spec_ty_id()
                    && !(old(rt).types@[self.spec_ty_id()].base matches Some(b0) && b0 == t)
                    ==> final(rt).types@[t] == old(rt).types@[t],
            (match old(rt).types@[self.spec_ty_id()].base {
                None => final(rt).types@[base_type.spec_ty_id()] == TypeDescriptor {
                    refcount: (old(rt).types@[base_type.spec_ty_id()].refcount + 1) as usize,
                    ..old(rt).types@[base_type.spec_ty_id()]
                },
                Some(b0) => if b0 as int == base_type.spec_ty_id() {
                    final(rt).types@[base_type.spec_ty_id()] == old(rt).types@[
                        base_type.spec_ty_id()
                    ]
                } else {
                    final(rt).types@[base_type.spec_ty_id()] == TypeDescriptor {
                        refcount: (old(rt).types@[base_type.spec_ty_id()].refcount
                            + 1) as usize,
                        ..old(rt).types@[base_type.spec_ty_id()]
                    } && final(rt).types@[b0 as int] == TypeDescriptor {
                        refcount: (old(rt).types@[b0 as int].refcount - 1) as usize,
                        ..old(rt).types@[b0 as int]
                    }
                },
            }),
            final(rt).objs@ == old(rt).objs@,
            final(rt).dicts@ == old(rt).dicts@,
            final(rt).modules@ == old(rt).modules@,
            final(rt).log@ == old(rt).log@,
            final(rt).doc_allocs == old(rt).doc_allocs,
            final(rt).doc_frees == old(rt).doc_frees,
    {
        let old_base = rt.types[self.ty].base;
        let bid = base_type.type_index();
        // Take the reference on the new base first, then give up the old
        // one, so replacing a base with itself stays counted.
        let rc = rt.types[bid].refcount;
        rt.types[bid].refcount = rc + 1;
        let ghost s1 = rt.types@;
        proof {
            assert(s1 =~= old(rt).types@.update(bid as int, s1[bid as int]));
            lemma_doc_count_update(old(rt).types@, bid as int, s1[bid as int]);
        }
        if let Some(b0) = old_base {
            let rc0 = rt.types[b0].refcount;
            rt.types[b0].refcount = rc0 - 1;
        }
        let ghost s2 = rt.types@;
        proof {
            if old_base is Some {
                let b0 = old_base->0 as int;
                assert(s2 =~= s1.update(b0, s2[b0]));
                lemma_doc_count_update(s1, b0, s2[b0]);
            }
        }
        rt.types[self.ty].base = Some(bid);
        proof {
            let tyid = self.ty as int;
            assert(rt.types@ =~= s2.update(tyid, rt.types@[tyid]));
            lemma_doc_count_update(s2, tyid, rt.types@[tyid]);
        }
        PyRustTypeBuilder { ty: self.ty, target_module: self.target_module, t: PhantomData, b: PhantomData }
    }

    /// The type's attribute dictionary, created on first use, for direct
    /// population by the surrounding declaration code.
    pub fn dict(&self, rt: &mut Runtime) -> (d: usize)
        requires
            old(rt).wf(),
            self.staged(*old(rt)),
        ensures
            final(rt).wf(),
            self.staged(*final(rt)),
            d < final(rt).dicts@.len(),
            final(rt).types@[self.spec_ty_id()].dict == Some(d),
            (match old(rt).types@[self.spec_ty_id()].dict {
                Some(d0) => d == d0 && *final(rt) == *old(rt),
                None => {
                    &&& d == old(rt).dicts@.len()
                    &&& final(rt).dicts@.len() == old(rt).dicts@.len() + 1
                    &&& final(rt).dicts@.subrange(0, old(rt).dicts@.len() as int) == old(
                        rt,
                    ).dicts@
                    &&& final(rt).dicts@[d as int].as_map() == Map::<Seq<char>, DictValue>::empty()
                    &&& final(rt).types@.len() == old(rt).types@.len()
                    &&& final(rt).types@[self.spec_ty_id()] == TypeDescriptor {
                        dict: Some(d),
                        ..old(rt).types@[self.spec_ty_id()]
                    }
                    &&& forall|t: int|
                        0 <= t < old(rt).types@.len() && t != self.spec_ty_id()
                            ==> final(rt).types@[t] == old(rt).types@[t]
                    &&& final(rt).objs@ == old(rt).objs@
                    &&& final(rt).modules@ == old(rt).modules@
                    &&& final(rt).log@ == old(rt).log@
                    &&& final(rt).doc_allocs == old(rt).doc_allocs
                    &&& final(rt).doc_frees == old(rt).doc_frees
                },
            }),
    {
        let cur = rt.types[self.ty].dict;
        match cur {
            Some(d0) => d0,
            None => {
                let d = rt.new_dict();
                let ghost s1 = rt.types@;
                rt.types[self.ty].dict = Some(d);
                proof {
                    let tyid = self.ty as int;
                    assert(rt.types@ =~= s1.update(tyid, rt.types@[tyid]));
                    lemma_doc_count_update(s1, tyid, rt.types@[tyid]);
                }
                d
            },
        }
    }

    /// Installs `doc_str` as the type's documentation: a zero-terminated
    /// copy of the text in one runtime-owned buffer. Any previously
    /// installed buffer is freed first, so the type holds at most one.
    pub fn doc(self, rt: &mut Runtime, doc_str: &str) -> (b: Self)
        requires
            old(rt).wf(),
            self.staged(*old(rt)),
            doc_str@.len() < usize::MAX,
            old(rt).doc_allocs < usize::MAX,
            old(rt).doc_frees < usize::MAX,
        ensures
            final(rt).wf(),
            b.spec_ty_id() == self.spec_ty_id(),
            b.spec_target() == self.spec_target(),
            b.staged(*final(rt)),
            final(rt).types@.len() == old(rt).types@.len(),
            final(rt).types@[self.spec_ty_id()].doc is Some,
            (final(rt).types@[self.spec_ty_id()].doc matches Some(buf) ==> buf@
                == doc_str.spec_bytes().push(0u8)),
            (final(rt).types@[self.spec_ty_id()] == TypeDescriptor {
                doc: final(rt).types@[self.spec_ty_id()].doc,
                ..old(rt).types@[self.spec_ty_id()]
            }),
            forall|t: int|
                0 <= t < old(rt).types@.len() && t != self.spec_ty_id() ==> final(rt).types@[t]
                    == old(rt).types@[t],
            final(rt).doc_allocs == old(rt).doc_allocs + 1,
            (final(rt).doc_frees == old(rt).doc_frees + (if old(rt).types@[
                self.spec_ty_id()
            ].doc is Some {
                1int
            } else {
                0int
            })),
            final(rt).objs@ == old(rt).objs@,
            final(rt).dicts@ == old(rt).dicts@,
            final(rt).modules@ == old(rt).modules@,
            final(rt).log@ == old(rt).log@,
    {
        let had = rt.types[self.ty].doc.is_some();
        if had {
            // The old buffer goes back to the runtime's allocator before the
            // new one is installed.
            rt.doc_frees = rt.doc_frees + 1;
        }
        let bs = doc_str.as_bytes();
        let n = bs.len();
        let mut buf: Vec<u8> = Vec::new();
        let mut i: usize = 0;
        while i < n
            invariant
                i <= n,
                n == bs@.len(),
                buf@ == bs@.subrange(0, i as int),
            decreases n - i,
        {
            buf.push(bs[i]);
            i = i + 1;
            proof {
                assert(buf@ =~= bs@.subrange(0, i as int));
            }
        }
        buf.push(0u8);
        proof {
            assert(buf@ =~= doc_str.spec_bytes().push(0u8));
        }
        rt.doc_allocs = rt.doc_allocs + 1;
        let ghost s1 = rt.types@;
        rt.types[self.ty].doc = Some(buf);
        proof {
            let tyid = self.ty as int;
            assert(rt.types@ =~= s1.update(tyid, rt.types@[tyid]));
            lemma_doc_count_update(s1, tyid, rt.types@[tyid]);
        }
        self
    }

    /// Finishes the type: stores the composite's size in the descriptor,
    /// installs the composite's finalizer offsets, has the runtime ready the
    /// type, and registers it under its name in the target module, if one
    /// was associated. Consumes the builder, so a type is finished at most
    /// once.
    pub fn finish(self, rt: &mut Runtime) -> (r: Result<PyRustType<T, B>, PyErr>)
        requires
            old(rt).wf(),
            self.staged(*old(rt)),
            spec_composite_size::<T, B>() <= usize::MAX,
        ensures
            final(rt).wf(),
            r is Ok,
            (r matches Ok(t) ==> {
                &&& t.spec_ty_id() == self.spec_ty_id()
                &&& t.valid(*final(rt))
                &&& final(rt).types@.len() == old(rt).types@.len()
                &&& final(rt).types@[self.spec_ty_id()] == TypeDescriptor {
                    basicsize: spec_composite_size::<T, B>() as usize,
                    ready: true,
                    dealloc_offsets: final(rt).types@[self.spec_ty_id()].dealloc_offsets,
                    ..old(rt).types@[self.spec_ty_id()]
                }
                &&& (final(rt).types@[self.spec_ty_id()].dealloc_offsets matches Some(offs)
                    && offs@ == <PyRustObject<T, B> as PythonBaseObject>::spec_drop_offsets())
                &&& forall|t2: int|
                    0 <= t2 < old(rt).types@.len() && t2 != self.spec_ty_id()
                        ==> final(rt).types@[t2] == old(rt).types@[t2]
                &&& match self.spec_target() {
                    None => final(rt).dicts@ == old(rt).dicts@,
                    Some(m) => {
                        let d = old(rt).modules@[m as int].dict as int;
                        &&& final(rt).dicts@.len() == old(rt).dicts@.len()
                        &&& forall|j: int|
                            0 <= j < old(rt).dicts@.len() && j != d ==> final(rt).dicts@[j]
                                == old(rt).dicts@[j]
                        &&& final(rt).dicts@[d].as_map() == old(rt).dicts@[d].as_map().insert(
                            old(rt).types@[self.spec_ty_id()].name@,
                            DictValue::TypeObj(self.spec_ty_id() as usize),
                        )
                    },
                }
            }),
            final(rt).objs@ == old(rt).objs@,
            final(rt).modules@ == old(rt).modules@,
            final(rt).log@ == old(rt).log@,
            final(rt).doc_allocs == old(rt).doc_allocs,
            final(rt).doc_frees == old(rt).doc_frees,
    {
        let size = <PyRustObject<T, B> as PythonBaseObject>::size();
        let offs = <PyRustObject<T, B> as PythonBaseObject>::drop_offsets_vec();
        rt.types[self.ty].basicsize = size;
        let ghost s1 = rt.types@;
        rt.types[self.ty].dealloc_offsets = Some(offs);
        let ghost s2 = rt.types@;
        // The runtime's own type-initialization step (slot and layout
        // inheritance); in the modeled runtime it does not fail, so no
        // failure is surfaced here.
        rt.types[self.ty].ready = true;
        proof {
            let tyid = self.ty as int;
            assert(s1 =~= old(rt).types@.update(tyid, s1[tyid]));
            lemma_doc_count_update(old(rt).types@, tyid, s1[tyid]);
            assert(s2 =~= s1.update(tyid, s2[tyid]));
            lemma_doc_count_update(s1, tyid, s2[tyid]);
            assert(rt.types@ =~= s2.update(tyid, rt.types@[tyid]));
            lemma_doc_count_update(s2, tyid, rt.types@[tyid]);
        }
        if let Some(m) = self.target_module {
            let name = rt.types[self.ty].name.clone();
            let d = rt.module_dict(m);
            rt.dict_set_item(d, name, DictValue::TypeObj(self.ty));
        }
        Ok(PyRustType { ty: self.ty, t: PhantomData, b: PhantomData })
    }
}

impl<T: InlineValue> PyRustTypeBuilder<T, PyObject> {
    /// Stages a new heap type: a fresh descriptor carrying the supplied
    /// name, default flags, no documentation, no dictionary, the minimal
    /// object base, and the runtime's generic construction entry disabled,
    /// so instances can only come from `create_instance`.
    pub fn new(rt: &mut Runtime, name: &str) -> (b: Self)
        requires
            old(rt).wf(),
        ensures
            final(rt).wf(),
            b.spec_ty_id() == old(rt).types@.len(),
            b.spec_target() is None,
            b.staged(*final(rt)),
            final(rt).types@.len() == old(rt).types@.len() + 1,
            final(rt).types@.subrange(0, old(rt).types@.len() as int) == old(rt).types@,
            ({
                let t = final(rt).types@[b.spec_ty_id()];
                &&& t.name@ == name@
                &&& t.basicsize == 0
                &&& t.refcount == 1
                &&& t.base is None
                &&& t.doc is None
                &&& t.dict is None
                &&& !t.constructible_from_foreign
                &&& !t.ready
                &&& t.dealloc_offsets is None
            }),
            final(rt).objs@ == old(rt).objs@,
            final(rt).dicts@ == old(rt).dicts@,
            final(rt).modules@ == old(rt).modules@,
            final(rt).log@ == old(rt).log@,
            final(rt).doc_allocs == old(rt).doc_allocs,
            final(rt).doc_frees == old(rt).doc_frees,
    {
        let ty = rt.types.len();
        rt.types.push(
            TypeDescriptor {
                name: name.to_owned(),
                basicsize: 0,
                refcount: 1,
                base: None,
                doc: None,
                dict: None,
                constructible_from_foreign: false,
                ready: false,
                dealloc_offsets: None,
            },
        );
        proof {
            assert(final(rt).types@.subrange(0, old(rt).types@.len() as int)
                =~= old(rt).types@);
            assert(final(rt).types@ =~= old(rt).types@.push(final(rt).types@.last()));
            lemma_doc_count_push(old(rt).types@, final(rt).types@.last());
        }
        PyRustTypeBuilder { ty, target_module: None, t: PhantomData, b: PhantomData }
    }
}

/// Stages a new type that, once finished, is registered in module `m`: the
/// builder's dictionary records the module it belongs to, and the finished
/// type is bound under its name in the module's namespace.
pub fn new_typebuilder_for_module<T: InlineValue>(rt: &mut Runtime, m: usize, name: &str) -> (b:
    PyRustTypeBuilder<T, PyObject>)
    requires
        old(rt).wf(),
        m < old(rt).modules@.len(),
    ensures
        final(rt).wf(),
        b.spec_ty_id() == old(rt).types@.len(),
        b.spec_target() == Some(m),
        b.staged(*final(rt)),
        final(rt).types@.len() == old(rt).types@.len() + 1,
        final(rt).types@.subrange(0, old(rt).types@.len() as int) == old(rt).types@,
        ({
            let t = final(rt).types@[b.spec_ty_id()];
            &&& t.name@ == name@
            &&& t.basicsize == 0
            &&& !t.ready
            &&& t.dealloc_offsets is None
            &&& (t.dict matches Some(d) && {
                &&& d == old(rt).dicts@.len()
                &&& final(rt).dicts@[d as int].as_map() == Map::<Seq<char>, DictValue>::empty()
                    .insert("__module__"@, DictValue::Str(old(rt).modules@[m as int].name))
            })
        }),
        final(rt).dicts@.len() == old(rt).dicts@.len() + 1,
        final(rt).dicts@.subrange(0, old(rt).dicts@.len() as int) == old(rt).dicts@,
        final(rt).objs@ == old(rt).objs@,
        final(rt).modules@ == old(rt).modules@,
        final(rt).log@ == old(rt).log@,
        final(rt).doc_allocs == old(rt).doc_allocs,
        final(rt).doc_frees == old(rt).doc_frees,
{
    let b = PyRustTypeBuilder::<T, PyObject>::new(rt, name);
    let d = b.dict(rt);
    let mod_name = rt.module_name(m).clone();
    rt.dict_set_item(d, "__module__".to_owned(), DictValue::Str(mod_name));
    PyRustTypeBuilder { target_module: Some(m), ..b }
}

/// The runtime's generic object-construction entry point, as installed for
/// every builder-created type: construction from the foreign language is
/// rejected, so instances can only come from `create_instance`.
pub fn foreign_new(rt: &Runtime, ty: usize) -> (r: Result<usize, PyErr>)
    requires
        rt.wf(),
        ty < rt.types@.len(),
        !rt.types@[ty as int].constructible_from_foreign,
    ensures
        (r matches Err(e) && e.message@ == "Cannot initialize rust object from python."@),
{
    Err(PyErr { message: "Cannot initialize rust object from python.".to_owned() })
}

} // verus!

//! An explicit model of the foreign runtime that owns every object this
//! library touches: a reference-counted object heap, heap-allocated type
//! descriptors, attribute dictionaries, modules, and an event log that records
//! allocation, payload destruction and freeing in the order they happen.
//!
//! The real runtime serializes entry through a global lock and performs these
//! steps through its C allocator; here each step is a verified state change,
//! so the layout and lifecycle rules proved against this model are exactly the
//! rules the adapter layer must respect.

use vstd::prelude::*;

verus! {

/// Size in bytes of the fixed object header that prefixes every foreign
/// allocation (a reference count word and a type pointer word).
pub const OBJECT_HEADER_SIZE: usize = 16;

/// One entry of the runtime's lifecycle log.
#[derive(Clone, Copy, PartialEq, Eq, Structural, Debug)]
pub enum Event {
    /// A fresh object block was handed out by the allocator.
    Allocated { obj: usize },
    /// The inline native payload stored at `offset` inside `obj` was read
    /// back and destructed.
    PayloadDropped { obj: usize, offset: usize },
    /// The object block itself was returned to the allocator.
    Freed { obj: usize },
}

/// A value stored in an attribute dictionary.
#[derive(PartialEq, Eq, Debug)]
pub enum DictValue {
    /// A runtime string.
    Str(String),
    /// A reference to a type descriptor, by its index.
    TypeObj(usize),
}

/// An attribute dictionary: an insertion log of key/value pairs whose
/// abstract value is the map where the latest binding of a key wins.
pub struct Dict {
    pub entries: Vec<(String, DictValue)>,
}

/// The map described by a sequence of bindings, later entries shadowing
/// earlier ones.
pub open spec fn entries_as_map(s: Seq<(String, DictValue)>) -> Map<Seq<char>, DictValue>
    decreases s.len(),
{
    if s.len() == 0 {
        Map::empty()
    } else {
        entries_as_map(s.drop_last()).insert(s.last().0@, s.last().1)
    }
}

/// The latest binding of `key` in `s`, if any.
pub open spec fn entries_lookup(s: Seq<(String, DictValue)>, key: Seq<char>) -> Option<DictValue>
    decreases s.len(),
{
    if s.len() == 0 {
        None
    } else if s.last().0@ == key {
        Some(s.last().1)
    } else {
        entries_lookup(s.drop_last(), key)
    }
}

/// The positional lookup agrees with the abstract map.
pub proof fn lemma_entries_lookup_matches_map(s: Seq<(String, DictValue)>, key: Seq<char>)
    ensures
        entries_lookup(s, key) matches Some(v) ==> entries_as_map(s).dom().contains(key)
            && entries_as_map(s)[key] == v,
        entries_lookup(s, key) is None ==> !entries_as_map(s).dom().contains(key),
    decreases s.len(),
{
    if s.len() > 0 {
        lemma_entries_lookup_matches_map(s.drop_last(), key);
    }
}

impl Dict {
    /// The dictionary as a map from key characters to values.
    pub open spec fn as_map(self) -> Map<Seq<char>, DictValue> {
        entries_as_map(self.entries@)
    }
}

/// A heap-allocated type descriptor: a type object extended with the slots
/// the builder fills in (name, documentation, attribute dictionary, declared
/// base, instance size, and the finalizer's payload offsets).
pub struct TypeDescriptor {
    /// The type's name, stamped in at construction.
    pub name: String,
    /// Declared size of one instance, in bytes; zero until finished.
    pub basicsize: usize,
    /// Reference count of the descriptor itself.
    pub refcount: usize,
    /// Declared base type, by descriptor index; `None` means the minimal
    /// foreign object base.
    pub base: Option<usize>,
    /// The documentation buffer: the doc text followed by one terminating
    /// zero byte, or `None` while no documentation is installed.
    pub doc: Option<Vec<u8>>,
    /// The type's attribute dictionary, by index, created lazily.
    pub dict: Option<usize>,
    /// Whether the runtime's generic object-construction entry point may
    /// instantiate this type; builder-created types keep this disabled.
    pub constructible_from_foreign: bool,
    /// Set once the runtime has finished initializing the type; only ready
    /// types can allocate instances.
    pub ready: bool,
    /// The finalizer installed for this type: the offsets of the inline
    /// payloads it destroys, outermost layer first. `None` until finished.
    pub dealloc_offsets: Option<Vec<usize>>,
}

/// One object block of the foreign heap.
pub struct ObjSlot {
    /// Whether the block is currently allocated.
    pub live: bool,
    /// The foreign reference count of the block.
    pub refcount: usize,
    /// The object's dynamic type, as a descriptor index.
    pub ty: usize,
    /// The block's memory. Its length equals the type's declared size.
    pub bytes: Vec<u8>,
}

/// A module: a named namespace backed by an attribute dictionary.
pub struct Module {
    pub name: String,
    pub dict: usize,
}

/// A surfaced foreign failure, carrying the message the runtime reported.
#[derive(PartialEq, Eq, Debug)]
pub struct PyErr {
    pub message: String,
}

/// How many of the descriptors hold a documentation buffer.
pub open spec fn doc_count(s: Seq<TypeDescriptor>) -> int
    decreases s.len(),
{
    if s.len() == 0 {
        0
    } else {
        doc_count(s.drop_last()) + if s.last().doc is Some {
            1int
        } else {
            0int
        }
    }
}

/// Appending a descriptor adds its buffer, if any, to the count.
pub proof fn lemma_doc_count_push(s: Seq<TypeDescriptor>, t: TypeDescriptor)
    ensures
        doc_count(s.push(t)) == doc_count(s) + if t.doc is Some {
            1int
        } else {
            0int
        },
{
    assert(s.push(t).drop_last() =~= s);
}

/// Replacing one descriptor swaps its buffer's contribution for the new one's.
pub proof fn lemma_doc_count_update(s: Seq<TypeDescriptor>, i: int, t: TypeDescriptor)
    requires
        0 <= i < s.len(),
    ensures
        doc_count(s.update(i, t)) == doc_count(s) - (if s[i].doc is Some {
            1int
        } else {
            0int
        }) + (if t.doc is Some {
            1int
        } else {
            0int
        }),
    decreases s.len(),
{
    if i == s.len() - 1 {
        assert(s.update(i, t).drop_last() =~= s.drop_last());
        assert(s.update(i, t).last() == t);
    } else {
        assert(s.update(i, t).drop_last() =~= s.drop_last().update(i, t));
        assert(s.update(i, t).last() == s.last());
        lemma_doc_count_update(s.drop_last(), i, t);
    }
}

/// The count of live buffers is never negative.
pub proof fn lemma_doc_count_nonneg(s: Seq<TypeDescriptor>)
    ensures
        doc_count(s) >= 0,
    decreases s.len(),
{
    if s.len() > 0 {
        lemma_doc_count_nonneg(s.drop_last());
    }
}

/// The foreign runtime's state.
pub struct Runtime {
    pub objs: Vec<ObjSlot>,
    pub types: Vec<TypeDescriptor>,
    pub dicts: Vec<Dict>,
    pub modules: Vec<Module>,
    /// Lifecycle log, in the order the events happened.
    pub log: Vec<Event>,
    /// How many documentation buffers were handed out by the allocator.
    pub doc_allocs: usize,
    /// How many documentation buffers were returned to the allocator.
    pub doc_frees: usize,
}

impl Runtime {
    /// Well-formedness of the modeled runtime: every index stored anywhere
    /// is in bounds, live objects have ready types and blocks of exactly the
    /// declared size, and every installed doc buffer is zero-terminated.
    pub open spec fn wf(self) -> bool {
        &&& forall|i: int|
            0 <= i < self.objs@.len() ==> {
                &&& (#[trigger] self.objs@[i]).ty < self.types@.len()
                &&& (self.objs@[i].live ==> self.types@[self.objs@[i].ty as int].ready
                    && self.objs@[i].bytes@.len() == self.types@[self.objs@[i].ty as int].basicsize)
            }
        &&& forall|t: int|
            0 <= t < self.types@.len() ==> {
                &&& ((#[trigger] self.types@[t]).dict matches Some(d) ==> d < self.dicts@.len())
                &&& (self.types@[t].base matches Some(b) ==> b < self.types@.len())
                &&& (self.types@[t].doc matches Some(buf) ==> buf@.len() >= 1
                    && buf@.last() == 0u8)
            }
        &&& forall|m: int|
            0 <= m < self.modules@.len() ==> (#[trigger] self.modules@[m]).dict
                < self.dicts@.len()
        &&& self.doc_allocs - self.doc_frees == doc_count(self.types@)
    }

    /// A fresh runtime with nothing allocated.
    pub fn new() -> (rt: Runtime)
        ensures
            rt.wf(),
            rt.objs@.len() == 0,
            rt.types@.len() == 0,
            rt.dicts@.len() == 0,
            rt.modules@.len() == 0,
            rt.log@.len() == 0,
            rt.doc_allocs == 0,
            rt.doc_frees == 0,
    {
        Runtime {
            objs: Vec::new(),
            types: Vec::new(),
            dicts: Vec::new(),
            modules: Vec::new(),
            log: Vec::new(),
            doc_allocs: 0,
            doc_frees: 0,
        }
    }

    /// The standard allocation routine: hands out a zero-filled block of the
    /// descriptor's declared size, with one reference held by the caller.
    pub fn tp_alloc(&mut self, ty: usize) -> (id: usize)
        requires
            old(self).wf(),
            ty < old(self).types@.len(),
            old(self).types@[ty as int].ready,
        ensures
            final(self).wf(),
            id == old(self).objs@.len(),
            final(self).objs@.len() == old(self).objs@.len() + 1,
            final(self).objs@.subrange(0, old(self).objs@.len() as int) == old(self).objs@,
            final(self).objs@[id as int].live,
            final(self).objs@[id as int].refcount == 1,
            final(self).objs@[id as int].ty == ty,
            final(self).objs@[id as int].bytes@ == Seq::new(
                old(self).types@[ty as int].basicsize as nat,
                |i: int| 0u8,
            ),
            final(self).log@ == old(self).log@.push(Event::Allocated { obj: id }),
            final(self).types@ == old(self).types@,
            final(self).dicts@ == old(self).dicts@,
            final(self).modules@ == old(self).modules@,
            final(self).doc_allocs == old(self).doc_allocs,
            final(self).doc_frees == old(self).doc_frees,
    {
        let id = self.objs.len();
        let n = self.types[ty].basicsize;
        let bytes = zeroed_vec(n);
        self.objs.push(ObjSlot { live: true, refcount: 1, ty, bytes });
        self.log.push(Event::Allocated { obj: id });
        proof {
            assert(final(self).objs@.subrange(0, old(self).objs@.len() as int)
                =~= old(self).objs@);
        }
        id
    }

    /// The standard freeing routine: returns the block to the allocator.
    pub fn tp_free(&mut self, obj: usize)
        requires
            old(self).wf(),
            obj < old(self).objs@.len(),
            old(self).objs@[obj as int].live,
        ensures
            final(self).wf(),
            final(self).objs@.len() == old(self).objs@.len(),
            forall|j: int|
                0 <= j < old(self).objs@.len() && j != obj ==> final(self).objs@[j]
                    == old(self).objs@[j],
            !final(self).objs@[obj as int].live,
            final(self).objs@[obj as int].ty == old(self).objs@[obj as int].ty,
            final(self).log@ == old(self).log@.push(Event::Freed { obj }),
            final(self).types@ == old(self).types@,
            final(self).dicts@ == old(self).dicts@,
            final(self).modules@ == old(self).modules@,
            final(self).doc_allocs == old(self).doc_allocs,
            final(self).doc_frees == old(self).doc_frees,
    {
        self.objs[obj].live = false;
        self.log.push(Event::Freed { obj });
    }

    /// Takes one more reference to a live object.
    pub fn incref(&mut self, obj: usize)
        requires
            old(self).wf(),
            obj < old(self).objs@.len(),
            old(self).objs@[obj as int].live,
            old(self).objs@[obj as int].refcount < usize::MAX,
        ensures
            final(self).wf(),
            final(self).objs@.len() == old(self).objs@.len(),
            forall|j: int|
                0 <= j < old(self).objs@.len() && j != obj ==> final(self).objs@[j]
                    == old(self).objs@[j],
            (final(self).objs@[obj as int] == ObjSlot {
                refcount: (old(self).objs@[obj as int].refcount + 1) as usize,
                ..old(self).objs@[obj as int]
            }),
            final(self).log@ == old(self).log@,
            final(self).types@ == old(self).types@,
            final(self).dicts@ == old(self).dicts@,
            final(self).modules@ == old(self).modules@,
            final(self).doc_allocs == old(self).doc_allocs,
            final(self).doc_frees == old(self).doc_frees,
    {
        let rc = self.objs[obj].refcount;
        self.objs[obj].refcount = rc + 1;
    }

    /// Gives up one of at least two references to a live object. Dropping
    /// the last reference instead goes through the type's finalizer.
    pub fn decref(&mut self, obj: usize)
        requires
            old(self).wf(),
            obj < old(self).objs@.len(),
            old(self).objs@[obj as int].live,
            old(self).objs@[obj as int].refcount >= 2,
        ensures
            final(self).wf(),
            final(self).objs@.len() == old(self).objs@.len(),
            forall|j: int|
                0 <= j < old(self).objs@.len() && j != obj ==> final(self).objs@[j]
                    == old(self).objs@[j],
            (final(self).objs@[obj as int] == ObjSlot {
                refcount: (old(self).objs@[obj as int].refcount - 1) as usize,
                ..old(self).objs@[obj as int]
            }),
            final(self).log@ == old(self).log@,
            final(self).types@ == old(self).types@,
            final(self).dicts@ == old(self).dicts@,
            final(self).modules@ == old(self).modules@,
            final(self).doc_allocs == old(self).doc_allocs,
            final(self).doc_frees == old(self).doc_frees,
    {
        let rc = self.objs[obj].refcount;
        self.objs[obj].refcount = rc - 1;
    }

    /// Creates a fresh, empty attribute dictionary.
    pub fn new_dict(&mut self) -> (d: usize)
        requires
            old(self).wf(),
        ensures
            final(self).wf(),
            d == old(self).dicts@.len(),
            final(self).dicts@.len() == old(self).dicts@.len() + 1,
            final(self).dicts@.subrange(0, old(self).dicts@.len() as int) == old(self).dicts@,
            (final(self).dicts@[d as int].as_map() == Map::<Seq<char>, DictValue>::empty()),
            final(self).objs@ == old(self).objs@,
            final(self).types@ == old(self).types@,
            final(self).modules@ == old(self).modules@,
            final(self).log@ == old(self).log@,
            final(self).doc_allocs == old(self).doc_allocs,
            final(self).doc_frees == old(self).doc_frees,
    {
        let d = self.dicts.len();
        self.dicts.push(Dict { entries: Vec::new() });
        proof {
            assert(final(self).dicts@.subrange(0, old(self).dicts@.len() as int)
                =~= old(self).dicts@);
        }
        d
    }

    /// Binds `key` to `value` in dictionary `d`, replacing any earlier
    /// binding of the same key.
    pub fn dict_set_item(&mut self, d: usize, key: String, value: DictValue)
        requires
            old(self).wf(),
            d < old(self).dicts@.len(),
        ensures
            final(self).wf(),
            final(self).dicts@.len() == old(self).dicts@.len(),
            forall|j: int|
                0 <= j < old(self).dicts@.len() && j != d ==> final(self).dicts@[j]
                    == old(self).dicts@[j],
            final(self).dicts@[d as int].as_map() == old(self).dicts@[d as int].as_map()
                .insert(key@, value),
            final(self).objs@ == old(self).objs@,
            final(self).types@ == old(self).types@,
            final(self).modules@ == old(self).modules@,
            final(self).log@ == old(self).log@,
            final(self).doc_allocs == old(self).doc_allocs,
            final(self).doc_frees == old(self).doc_frees,
    {
        let ghost gkey = key@;
        let ghost gvalue = value;
        self.dicts[d].entries.push((key, value));
        proof {
            let s = final(self).dicts@[d as int].entries@;
            assert(s.drop_last() =~= old(self).dicts@[d as int].entries@);
            assert(s.last().0@ == gkey && s.last().1 == gvalue);
        }
    }

    /// Looks `key` up in dictionary `d`.
    pub fn dict_get<'a>(&'a self, d: usize, key: &String) -> (r: Option<&'a DictValue>)
        requires
            self.wf(),
            d < self.dicts@.len(),
        ensures
            match r {
                Some(v) => self.dicts@[d as int].as_map().dom().contains(key@)
                    && *v == self.dicts@[d as int].as_map()[key@],
                None => !self.dicts@[d as int].as_map().dom().contains(key@),
            },
    {
        let entries = &self.dicts[d].entries;
        let ghost full = entries@;
        let mut i: usize = entries.len();
        proof {
            assert(full.take(full.len() as int) =~= full);
        }
        while i > 0
            invariant
                i <= full.len(),
                entries@ == full,
                d < self.dicts@.len(),
                full == self.dicts@[d as int].entries@,
                entries_lookup(full, key@) == entries_lookup(full.take(i as int), key@),
            decreases i,
        {
            i = i - 1;
            proof {
                assert(full.take(i as int + 1).drop_last() =~= full.take(i as int));
                assert(full.take(i as int + 1).last() == full[i as int]);
            }
            if entries[i].0 == *key {
                proof {
                    assert(full.take(i as int + 1).last().0@ == key@);
                    assert(entries_lookup(full, key@) == Some(full[i as int].1));
                    lemma_entries_lookup_matches_map(full, key@);
                }
                return Some(&entries[i].1);
            }
        }
        proof {
            assert(full.take(0).len() == 0);
            lemma_entries_lookup_matches_map(full, key@);
        }
        None
    }

    /// Creates a module with the given name and a fresh attribute dictionary.
    pub fn new_module(&mut self, name: &str) -> (m: usize)
        requires
            old(self).wf(),
        ensures
            final(self).wf(),
            m == old(self).modules@.len(),
            final(self).modules@.len() == old(self).modules@.len() + 1,
            final(self).modules@.subrange(0, old(self).modules@.len() as int)
                == old(self).modules@,
            final(self).modules@[m as int].name@ == name@,
            final(self).modules@[m as int].dict == old(self).dicts@.len(),
            final(self).dicts@.len() == old(self).dicts@.len() + 1,
            final(self).dicts@.subrange(0, old(self).dicts@.len() as int) == old(self).dicts@,
            (final(self).dicts@[old(self).dicts@.len() as int].as_map()
                == Map::<Seq<char>, DictValue>::empty()),
            final(self).objs@ == old(self).objs@,
            final(self).types@ == old(self).types@,
            final(self).log@ == old(self).log@,
            final(self).doc_allocs == old(self).doc_allocs,
            final(self).doc_frees == old(self).doc_frees,
    {
        let d = self.new_dict();
        let m = self.modules.len();
        self.modules.push(Module { name: name.to_owned(), dict: d });
        proof {
            assert(final(self).modules@.subrange(0, old(self).modules@.len() as int)
                =~= old(self).modules@);
        }
        m
    }

    /// The module's name.
    pub fn module_name<'a>(&'a self, m: usize) -> (r: &'a String)
        requires
            self.wf(),
            m < self.modules@.len(),
        ensures
            *r == self.modules@[m as int].name,
    {
        &self.modules[m].name
    }

    /// The module's attribute dictionary.
    pub fn module_dict(&self, m: usize) -> (d: usize)
        requires
            self.wf(),
            m < self.modules@.len(),
        ensures
            d == self.modules@[m as int].dict,
            d < self.dicts@.len(),
    {
        self.modules[m].dict
    }
}

/// A zero-filled byte vector of the given length.
pub fn zeroed_vec(n: usize) -> (v: Vec<u8>)
    ensures
        v@ == Seq::new(n as nat, |i: int| 0u8),
{
    let mut v: Vec<u8> = Vec::new();
    let mut i: usize = 0;
    while i < n
        invariant
            i <= n,
            v@ == Seq::new(i as nat, |j: int| 0u8),
        decreases n - i,
    {
        v.push(0u8);
        i = i + 1;
        proof {
            assert(v@ =~= Seq::new(i as nat, |j: int| 0u8));
        }
    }
    v
}

} // verus!

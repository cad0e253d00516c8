//! The library-wide laws, stated over the same spec functions the public
//! contracts use.

use vstd::prelude::*;
use crate::layout::lemma_round_up_properties;
use crate::payload::InlineValue;
use crate::object::{
    PythonBaseObject, PyObject, PyRustObject, spec_payload_offset, spec_composite_size,
};
use crate::runtime::{Runtime, Event, doc_count, lemma_doc_count_nonneg};

verus! {

/// Round trip: a payload value read back from the slot it was stored into is
/// the value itself. `create_instance` ensures the slot holds
/// `v.spec_encode()`, and `get` returns the slot's decoding, so the two
/// contracts and this law together say that `get()` right after allocation
/// returns the allocated value.
pub proof fn lemma_get_returns_allocated<T: InlineValue, B: PythonBaseObject>(
    h: PyRustObject<T, B>,
    rt: Runtime,
    v: T,
)
    requires
        h.stored_payload(rt) == v.spec_encode(),
    ensures
        T::spec_decode(h.stored_payload(rt)) == v,
{
    T::lemma_laws();
}

/// Destruction order for a two-level composite over the minimal base: the
/// finalizer's event sequence destroys the outer payload, then the inner
/// payload, and frees the block last — construction order reversed.
pub proof fn lemma_nested_drop_order<T: InlineValue, T2: InlineValue>(obj: usize)
    ensures
        (<PyRustObject<T, PyRustObject<T2, PyObject>> as PythonBaseObject>::spec_drop_offsets()
            .map_values(|o: usize| Event::PayloadDropped { obj, offset: o })
            + seq![Event::Freed { obj }] == seq![
            Event::PayloadDropped {
                obj,
                offset: (spec_payload_offset::<T, PyRustObject<T2, PyObject>>() as usize),
            },
            Event::PayloadDropped { obj, offset: (spec_payload_offset::<T2, PyObject>() as usize) },
            Event::Freed { obj },
        ]),
        spec_payload_offset::<T2, PyObject>() <= spec_payload_offset::<
            T,
            PyRustObject<T2, PyObject>,
        >(),
{
    T::lemma_laws();
    T2::lemma_laws();
    lemma_round_up_properties(<PyObject as PythonBaseObject>::spec_size(), T2::spec_align());
    lemma_round_up_properties(
        spec_composite_size::<T2, PyObject>(),
        T::spec_align(),
    );
    assert(<PyRustObject<T, PyRustObject<T2, PyObject>> as PythonBaseObject>::spec_drop_offsets()
        .map_values(|o: usize| Event::PayloadDropped { obj, offset: o })
        + seq![Event::Freed { obj }] =~= seq![
        Event::PayloadDropped {
            obj,
            offset: (spec_payload_offset::<T, PyRustObject<T2, PyObject>>() as usize),
        },
        Event::PayloadDropped { obj, offset: (spec_payload_offset::<T2, PyObject>() as usize) },
        Event::Freed { obj },
    ]);
}

/// A composite's footprint covers its base's: the payload sits at or past
/// the base's end, so the base's layout claim on the block's prefix is never
/// disturbed by the payload.
pub proof fn lemma_composite_extends_base<T: InlineValue, B: PythonBaseObject>()
    ensures
        B::spec_size() <= spec_payload_offset::<T, B>(),
        spec_payload_offset::<T, B>() + T::spec_size() == spec_composite_size::<T, B>(),
{
    T::lemma_laws();
    lemma_round_up_properties(B::spec_size(), T::spec_align());
}

/// Documentation buffers never leak: in a well-formed runtime the number
/// of buffers handed out and not yet returned equals the number of live
/// buffers installed on descriptors, and it is never negative.
pub proof fn lemma_doc_buffers_accounted(rt: Runtime)
    requires
        rt.wf(),
    ensures
        rt.doc_allocs - rt.doc_frees == doc_count(rt.types@),
        rt.doc_frees <= rt.doc_allocs,
{
    lemma_doc_count_nonneg(rt.types@);
}

} // verus!

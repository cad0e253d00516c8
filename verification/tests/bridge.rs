//! End-to-end exercises of the typed bridge against the modeled runtime.

use rustobject::builder::{foreign_new, new_typebuilder_for_module, PyRustType, PyRustTypeBuilder};
use rustobject::layout::round_up;
use rustobject::object::{PyObject, PyRustObject, PythonBaseObject};
use rustobject::payload::I64Pair;
use rustobject::runtime::{DictValue, Event, Runtime};

fn point_type(rt: &mut Runtime) -> PyRustType<I64Pair, PyObject> {
    let b = PyRustTypeBuilder::<I64Pair, PyObject>::new(rt, "Point");
    b.finish(rt).unwrap()
}

#[test]
fn offset_is_smallest_aligned_multiple() {
    assert_eq!(round_up(16, 8), 16);
    assert_eq!(round_up(17, 8), 24);
    assert_eq!(round_up(23, 8), 24);
    assert_eq!(round_up(16, 1), 16);
    assert_eq!(round_up(0, 4), 0);
    assert_eq!(round_up(1, 4), 4);
}

#[test]
fn composite_offset_and_size() {
    // The header is 16 bytes; a word-aligned payload lands right after it.
    assert_eq!(PyRustObject::<u64, PyObject>::offset(), 16);
    assert_eq!(<PyRustObject<u64, PyObject> as PythonBaseObject>::size(), 24);
    assert_eq!(PyRustObject::<I64Pair, PyObject>::offset(), 16);
    assert_eq!(<PyRustObject<I64Pair, PyObject> as PythonBaseObject>::size(), 32);
}

#[test]
fn roundtrip_get_returns_value() {
    let mut rt = Runtime::new();
    let b = PyRustTypeBuilder::<u64, PyObject>::new(&mut rt, "Cell");
    let ty = b.finish(&mut rt).unwrap();
    let h = ty.create_instance(&mut rt, 0xdead_beef_0042_1137, ());
    assert_eq!(h.get(&rt), 0xdead_beef_0042_1137);
    // The base view shares the same underlying object.
    let base = h.base();
    assert_eq!(base.obj_index(), h.obj_index());
}

#[test]
fn point_end_to_end() {
    let mut rt = Runtime::new();
    let ty = point_type(&mut rt);
    let h = ty.create_instance(&mut rt, I64Pair { x: 3, y: 4 }, ());
    let obj = h.obj_index();
    assert_eq!(h.get(&rt), I64Pair { x: 3, y: 4 });
    // Dropping the last handle destroys the payload exactly once and frees
    // the block exactly once.
    h.release(&mut rt);
    assert_eq!(
        rt.log,
        vec![
            Event::Allocated { obj },
            Event::PayloadDropped { obj, offset: 16 },
            Event::Freed { obj },
        ]
    );
}

#[test]
fn colored_point_inherits() {
    let mut rt = Runtime::new();
    let point = point_type(&mut rt);
    let b = PyRustTypeBuilder::<u8, PyObject>::new(&mut rt, "ColoredPoint");
    let b = b.base(&mut rt, &point);
    let colored = b.finish(&mut rt).unwrap();
    let h = colored.create_instance(&mut rt, 7, (I64Pair { x: 3, y: 4 }, ()));
    assert_eq!(h.get(&rt), 7);
    // Reading through the base accessor yields the point fields.
    let as_point = h.base();
    assert_eq!(as_point.get(&rt), I64Pair { x: 3, y: 4 });
    // The colored payload sits at the point-composite's size rounded up to
    // the byte payload's alignment.
    let point_size = <PyRustObject<I64Pair, PyObject> as PythonBaseObject>::size();
    assert_eq!(
        PyRustObject::<u8, PyRustObject<I64Pair, PyObject>>::offset(),
        round_up(point_size, 1)
    );
}

#[test]
fn nested_destruction_order() {
    let mut rt = Runtime::new();
    let inner = point_type(&mut rt);
    let b = PyRustTypeBuilder::<u8, PyObject>::new(&mut rt, "Outer");
    let b = b.base(&mut rt, &inner);
    let outer = b.finish(&mut rt).unwrap();
    let h = outer.create_instance(&mut rt, 9, (I64Pair { x: 1, y: 2 }, ()));
    let obj = h.obj_index();
    let before = rt.log.len();
    h.release(&mut rt);
    // The outer payload is destroyed first, then the inner one, and the
    // block is freed last: construction order reversed, strictly ordered.
    assert_eq!(
        &rt.log[before..],
        &[
            Event::PayloadDropped { obj, offset: 32 },
            Event::PayloadDropped { obj, offset: 16 },
            Event::Freed { obj },
        ]
    );
}

#[test]
fn dealloc_runs_exactly_once() {
    // A second deallocation of the same object is a precondition violation
    // of `release` (the object is no longer live), not a case the library
    // must tolerate: the runtime invokes the finalizer exactly once, when
    // the last reference drops. This test documents that by checking the
    // single run, not by attempting a second one.
    let mut rt = Runtime::new();
    let ty = point_type(&mut rt);
    let h = ty.create_instance(&mut rt, I64Pair { x: 5, y: 6 }, ());
    let obj = h.obj_index();
    h.release(&mut rt);
    let freed = rt
        .log
        .iter()
        .filter(|e| matches!(e, Event::Freed { obj: o } if *o == obj))
        .count();
    assert_eq!(freed, 1);
}

#[test]
fn finish_is_single_shot() {
    // `finish` consumes the builder by value, so a second `finish` (or any
    // staging step after finishing) does not compile; single-shot
    // finalization is enforced by the type system, not by a runtime check.
    // What remains observable is that the one finish yields a usable type.
    let mut rt = Runtime::new();
    let b = PyRustTypeBuilder::<u64, PyObject>::new(&mut rt, "Once");
    let ty = b.finish(&mut rt).unwrap();
    let h = ty.create_instance(&mut rt, 11, ());
    assert_eq!(h.get(&rt), 11);
}

#[test]
fn doc_buffer_replaced_not_leaked() {
    let mut rt = Runtime::new();
    let b = PyRustTypeBuilder::<u64, PyObject>::new(&mut rt, "Documented");
    let ty = b.type_index();
    let b = b.doc(&mut rt, "hello");
    let b = b.doc(&mut rt, "hello");
    // Two installations, one replacement: exactly one buffer is live and it
    // holds the text with its terminating zero byte.
    assert_eq!(rt.doc_allocs, 2);
    assert_eq!(rt.doc_frees, 1);
    // One buffer handed out and not returned: exactly the one installed.
    assert_eq!(rt.doc_allocs - rt.doc_frees, 1);
    let buf = rt.types[ty].doc.as_ref().unwrap();
    assert_eq!(buf.as_slice(), b"hello\0");
    let _ = b.finish(&mut rt).unwrap();
}

#[test]
fn type_registered_in_module() {
    let mut rt = Runtime::new();
    let m = rt.new_module("shapes");
    let b = new_typebuilder_for_module::<I64Pair>(&mut rt, m, "Point");
    let ty = b.type_index();
    let d = rt.types[ty].dict.unwrap();
    let key = "__module__".to_owned();
    match rt.dict_get(d, &key) {
        Some(DictValue::Str(s)) => assert_eq!(s, "shapes"),
        other => panic!("missing __module__ entry: {:?}", other),
    }
    let _ = b.finish(&mut rt).unwrap();
    let module_dict = rt.module_dict(m);
    let name = "Point".to_owned();
    assert_eq!(
        rt.dict_get(module_dict, &name),
        Some(&DictValue::TypeObj(ty))
    );
}

#[test]
fn foreign_construction_rejected() {
    let mut rt = Runtime::new();
    let b = PyRustTypeBuilder::<u64, PyObject>::new(&mut rt, "Sealed");
    let ty = b.type_index();
    let err = foreign_new(&rt, ty).unwrap_err();
    assert_eq!(err.message, "Cannot initialize rust object from python.");
    let _ = b.finish(&mut rt).unwrap();
}

#[test]
fn clone_ref_shares_until_last_release() {
    let mut rt = Runtime::new();
    let ty = point_type(&mut rt);
    let h = ty.create_instance(&mut rt, I64Pair { x: 8, y: 9 }, ());
    let obj = h.obj_index();
    let h2 = h.clone_ref(&mut rt);
    assert_eq!(rt.objs[obj].refcount, 2);
    h.release(&mut rt);
    // The object stays live while a reference remains; no destruction ran.
    assert_eq!(rt.objs[obj].refcount, 1);
    assert!(rt.objs[obj].live);
    assert_eq!(h2.get(&rt), I64Pair { x: 8, y: 9 });
    h2.release(&mut rt);
    assert!(!rt.objs[obj].live);
    let dropped = rt
        .log
        .iter()
        .filter(|e| matches!(e, Event::PayloadDropped { obj: o, .. } if *o == obj))
        .count();
    assert_eq!(dropped, 1);
}

#[test]
fn dict_created_once() {
    let mut rt = Runtime::new();
    let b = PyRustTypeBuilder::<u64, PyObject>::new(&mut rt, "WithDict");
    let d1 = b.dict(&mut rt);
    let d2 = b.dict(&mut rt);
    assert_eq!(d1, d2);
    let _ = b.finish(&mut rt).unwrap();
}

#[test]
fn base_replacement_swaps_type_references() {
    let mut rt = Runtime::new();
    let first = point_type(&mut rt);
    let first_idx = first.type_index();
    let second = point_type(&mut rt);
    let second_idx = second.type_index();
    let b = PyRustTypeBuilder::<u8, PyObject>::new(&mut rt, "Child");
    let b = b.base(&mut rt, &first);
    assert_eq!(rt.types[first_idx].refcount, 2);
    let b = b.base(&mut rt, &second);
    // The new base is referenced and the old base's reference is released.
    assert_eq!(rt.types[first_idx].refcount, 1);
    assert_eq!(rt.types[second_idx].refcount, 2);
    let _ = b.finish(&mut rt).unwrap();
}

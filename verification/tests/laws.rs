use starlark::call::Parameters;
use starlark::errors::ErrorKind;
use starlark::heap::{Memory, ValueMem};
use starlark::object::Object;
use starlark::params::{ParametersSpec, ParametersSpecBuilder};
use starlark::slots::ValueRef;
use starlark::state::Evaluator;
use starlark::value::{FrozenValue, Value};

fn text(mem: &mut Memory, s: &str) -> Value {
    mem.alloc_str(s.to_owned())
}

fn signature() -> ParametersSpec {
    // def f(a, b=7, *args, c, **kwargs)
    let mut b = ParametersSpecBuilder::with_capacity("f".to_owned(), 5);
    b.required("a");
    b.defaulted("b", Value::Int(7));
    b.args();
    b.required("c");
    b.kwargs();
    b.build()
}

fn call(
    mem: &mut Memory,
    pos: Vec<Value>,
    named: Vec<(&str, Value)>,
) -> Result<Vec<Option<Value>>, ErrorKind> {
    let names = named.iter().map(|(n, _)| ((*n).to_owned(), text(mem, n))).collect();
    let p = Parameters {
        this: None,
        pos,
        named: named.iter().map(|(_, v)| *v).collect(),
        names,
        args: None,
        kwargs: None,
    };
    let bound = mem.bind(&signature(), &p).map_err(|e| e.kind)?;
    mem.finish(bound).map_err(|e| e.kind)
}

#[test]
fn values_are_tagged_words() {
    assert_eq!(Value::new_none().ptr_value() % 4, 2);
    assert_eq!(Value::new_bool(false).ptr_value() % 4, 3);
    assert_eq!(Value::new_bool(true).ptr_value() % 4, 3);
    assert_eq!(Value::Frozen(5).ptr_value() % 4, 0);
    assert_eq!(Value::Heap(5).ptr_value() % 4, 1);
    assert_ne!(Value::Heap(5).ptr_value(), Value::Cell(5).ptr_value());
    assert_ne!(Value::new_int(0).ptr_value(), Value::new_none().ptr_value());
    assert_ne!(Value::new_int(-1).ptr_value(), Value::new_int(1).ptr_value());
    assert_eq!(Value::new_int(i32::MIN).ptr_value(), 6);
    assert!(Value::new_int(3).ptr_eq(Value::new_int(3)));
    assert!(!Value::Heap(1).ptr_eq(Value::Frozen(1)));
    assert_eq!(Value::new_int(3).unpack_int(), Some(3));
    assert_eq!(Value::new_bool(true).unpack_bool(), Some(true));
    assert_eq!(Value::new_none().unpack_int(), None);
    assert!(Value::new_none().is_none());
    assert!(FrozenValue::new_none().is_none());
    assert_eq!(FrozenValue::new_int(4).unpack_int(), Some(4));
    assert_eq!(FrozenValue::new_bool(true).unpack_bool(), Some(true));
}

#[test]
fn frozen_values_are_values() {
    for f in [
        FrozenValue::new_none(),
        FrozenValue::new_bool(true),
        FrozenValue::new_int(-3),
        FrozenValue::Ptr(9),
    ] {
        assert_eq!(Value::new_frozen(f).unpack_frozen(), Some(f));
    }
    assert_eq!(Value::Heap(0).unpack_frozen(), None);
    assert_eq!(Value::Cell(0).unpack_frozen(), None);
}

#[test]
fn writes_through_a_cell_are_seen_by_all() {
    let mut mem = Memory::new();
    let mut outer = ValueRef::new_unassigned();
    outer.set(&mut mem, Value::Int(1));
    assert_eq!(outer.get_direct(), Some(Value::Int(1)));
    let mut inner = outer.clone_reference(&mut mem);
    assert!(outer.is_ref() && inner.is_ref());
    assert_eq!(inner.get(&mem), Some(Value::Int(1)));
    inner.set(&mut mem, Value::Int(2));
    assert_eq!(outer.get(&mem), Some(Value::Int(2)));
    outer.set(&mut mem, Value::Int(3));
    assert_eq!(inner.get(&mem), Some(Value::Int(3)));
    let third = inner.dupe_reference();
    assert_eq!(third.get(&mem), Some(Value::Int(3)));
    let again = outer.clone_reference(&mut mem);
    assert_eq!(again, outer);
    // A variable that is not captured is not affected.
    let mut other = ValueRef::new_frozen(Some(FrozenValue::Int(9)));
    other.set_direct(Value::Int(10));
    assert_eq!(other.get(&mem), Some(Value::Int(10)));
    assert_eq!(outer.get(&mem), Some(Value::Int(3)));
}

#[test]
fn freezing_is_idempotent() {
    let mut mem = Memory::new();
    let s = text(&mut mem, "shared");
    let inner = mem.alloc_object(Object::List(vec![Value::Int(1), s]));
    let outer = mem.alloc_object(Object::Tuple(vec![inner, inner, s]));
    let before = mem.to_repr(outer).unwrap();
    let frozen = mem.freeze(outer).unwrap();
    let frozen_len = mem.frozen.arena.len();
    // Freezing again gives the same frozen value, and changes nothing.
    assert_eq!(mem.freeze(outer).unwrap(), frozen);
    assert_eq!(mem.freeze(frozen.to_value()).unwrap(), frozen);
    assert_eq!(mem.frozen.arena.len(), frozen_len);
    // The frozen value looks as the value did.
    assert_eq!(mem.to_repr(frozen.to_value()).unwrap(), before);
    // Sharing is kept: the list was frozen once.
    match mem.get_aref(frozen.to_value()) {
        starlark::heap::ARef::Object(Object::Tuple(items)) => {
            assert!(items[0].ptr_eq(items[1]));
            assert!(items.iter().all(|v| v.unpack_frozen().is_some()));
        }
        other => panic!("not a tuple: {:?}", other),
    }
    // The entries that moved are forward markers now.
    assert!(matches!(mem.heap.arena[0], ValueMem::Forward(_)));
    // Inline values are their own frozen values.
    assert_eq!(mem.freeze(Value::Int(5)).unwrap(), FrozenValue::Int(5));
    assert_eq!(mem.freeze(Value::Cell(0)).unwrap_err().kind, ErrorKind::NotSupported);
}

#[test]
fn freezing_ends_on_cycles() {
    let mut mem = Memory::new();
    let l = mem.alloc_object(Object::List(vec![]));
    let mut slots = vec![Some(l)];
    mem.list_append(Some(l), &slots).unwrap();
    slots[0] = Some(Value::Int(1));
    let frozen = mem.freeze(l).unwrap();
    match mem.get_aref(frozen.to_value()) {
        starlark::heap::ARef::Object(Object::List(items)) => {
            assert_eq!(items.len(), 1);
            assert!(items[0].ptr_eq(frozen.to_value()));
        }
        other => panic!("not a list: {:?}", other),
    }
    // A value that refers to itself has no finite representation.
    assert_eq!(mem.to_repr(frozen.to_value()).unwrap_err().kind, ErrorKind::StackOverflow);
}

#[test]
fn frozen_modules_export_public_names() {
    let mut mem = Memory::new();
    let v = mem.alloc_object(Object::List(vec![Value::Int(1)]));
    let mut ev = Evaluator::new(mem, 3);
    ev.set_slot_module(0, "x", v).unwrap();
    ev.set_slot_module(1, "_hidden", Value::Int(2)).unwrap();
    let names = vec!["x".to_owned(), "_hidden".to_owned(), "unset".to_owned()];
    let module = ev.freeze(names).unwrap();
    let x = module.get("x").unwrap();
    assert_eq!(module.mem.to_repr(x.to_value()).unwrap(), "[1]");
    assert_eq!(module.get("_hidden").unwrap_err().kind, ErrorKind::CannotImportPrivate);
    assert_eq!(module.get("unset").unwrap_err().kind, ErrorKind::VariableNotFound);
    assert_eq!(module.get("nowhere").unwrap_err().kind, ErrorKind::VariableNotFound);
    // A frozen list cannot change.
    assert_eq!(
        module.mem.get_ref_mut(x.to_value()).unwrap_err().kind,
        ErrorKind::CannotMutateImmutable
    );
}

#[test]
fn unassigned_variables_fail_when_read() {
    let ev = Evaluator::new(Memory::new(), 1);
    assert_eq!(
        ev.get_slot_module(0, "x").unwrap_err().kind,
        ErrorKind::LocalReferencedBeforeAssignment
    );
    assert_eq!(
        ev.get_slot_local(0, "y").unwrap_err().kind,
        ErrorKind::LocalReferencedBeforeAssignment
    );
    assert!(ev.get_slot_module(0, "x").unwrap_err().to_string().contains("referenced before"));
}

#[test]
fn equal_values_hash_equally() {
    let mut mem = Memory::new();
    let a = text(&mut mem, "te");
    let b = text(&mut mem, "te");
    let t1 = mem.alloc_object(Object::Tuple(vec![Value::Int(1), a]));
    let t2 = mem.alloc_object(Object::Tuple(vec![Value::Int(1), b]));
    assert!(!t1.ptr_eq(t2));
    assert!(mem.equals(t1, t2).unwrap());
    assert_eq!(mem.get_hash(t1).unwrap(), mem.get_hash(t2).unwrap());
    assert_eq!(mem.get_hash(a).unwrap(), 3697);
    let slots = vec![Some(a)];
    let members = mem.items_of(&slots, 0);
    assert!(members.is_err());
    let e1 = mem.new_enum(&vec![a, Value::Int(1)]).unwrap();
    let e2 = mem.new_enum(&vec![b, Value::Int(1)]).unwrap();
    let v1 = mem.enum_value(Some(e1), a).unwrap();
    let v2 = mem.enum_value(Some(e2), b).unwrap();
    assert!(mem.equals(v1, v2).unwrap());
    assert_eq!(mem.get_hash(v1).unwrap(), mem.get_hash(v2).unwrap());
    let l = mem.alloc_object(Object::List(vec![]));
    assert_eq!(mem.get_hash(l).unwrap_err().kind, ErrorKind::NotSupported);
}

#[test]
fn iteration_locks_the_container() {
    let mut mem = Memory::new();
    let l = mem.alloc_object(Object::List(vec![Value::Int(1)]));
    let x = vec![Some(Value::Int(2))];
    mem.lock_read(l);
    mem.lock_read(l);
    assert_eq!(mem.list_append(Some(l), &x).unwrap_err().kind, ErrorKind::MutationDuringIteration);
    mem.unlock_read(l);
    assert_eq!(mem.get_ref_mut(l).unwrap_err().kind, ErrorKind::MutationDuringIteration);
    assert_eq!(mem.to_repr(l).unwrap(), "[1]");
    mem.unlock_read(l);
    assert!(mem.list_append(Some(l), &x).is_ok());
    assert_eq!(mem.to_repr(l).unwrap(), "[1, 2]");
    let t = mem.alloc_object(Object::Tuple(vec![]));
    assert_eq!(mem.list_append(Some(t), &x).unwrap_err().kind, ErrorKind::CannotMutateImmutable);
}

#[test]
fn calls_that_fit_fill_every_slot_once() {
    let mut mem = Memory::new();
    let i = Value::Int;
    // f(1, c=3): b takes its default, the sinks are empty.
    let slots = call(&mut mem, vec![i(1)], vec![("c", i(3))]).unwrap();
    assert_eq!(slots.len(), 5);
    assert_eq!(slots[0], Some(i(1)));
    assert_eq!(slots[1], Some(i(7)));
    assert_eq!(mem.to_repr(slots[2].unwrap()).unwrap(), "()");
    assert_eq!(slots[3], Some(i(3)));
    assert_eq!(mem.to_repr(slots[4].unwrap()).unwrap(), "{}");
    // f(1, 2, 3, 4, c=5, d=6): the rest goes to the sinks.
    let slots = call(&mut mem, vec![i(1), i(2), i(3), i(4)], vec![("c", i(5)), ("d", i(6))]).unwrap();
    assert_eq!(slots[0], Some(i(1)));
    assert_eq!(slots[1], Some(i(2)));
    assert_eq!(mem.to_repr(slots[2].unwrap()).unwrap(), "(3, 4)");
    assert_eq!(slots[3], Some(i(5)));
    assert_eq!(mem.to_repr(slots[4].unwrap()).unwrap(), "{\"d\": 6}");
    // f(c=1, a=2): by name only.
    let slots = call(&mut mem, vec![], vec![("c", i(1)), ("a", i(2))]).unwrap();
    assert_eq!(slots[0], Some(i(2)));
    assert_eq!(slots[3], Some(i(1)));
    // Calls that do not fit.
    assert_eq!(call(&mut mem, vec![i(1)], vec![]), Err(ErrorKind::MissingRequired));
    assert_eq!(call(&mut mem, vec![i(1)], vec![("a", i(2)), ("c", i(3))]), Err(ErrorKind::DuplicateNamedArgument));
    assert_eq!(
        call(&mut mem, vec![i(1)], vec![("c", i(2)), ("d", i(3)), ("d", i(4))]),
        Err(ErrorKind::DuplicateNamedArgument)
    );
}

#[test]
fn unexpected_entries_have_a_message() {
    let entry = ValueMem::Blackhole;
    assert_eq!(entry.unexpected("get_ref"), "ValueMem::get_ref, unexpected variant Blackhole");
    assert_eq!(ValueMem::Ref(None).variant_name(), "Ref");
}

#[test]
fn freezing_fails_on_what_cannot_be_frozen() {
    let mut mem = Memory::new();
    // A cell is no value, and neither is a pointer to nowhere.
    assert_eq!(mem.freeze(Value::Cell(0)).unwrap_err().kind, ErrorKind::NotSupported);
    assert_eq!(mem.freeze(Value::Heap(99)).unwrap_err().kind, ErrorKind::NotSupported);
    // A list that is fine by itself, but holds a pointer to nowhere two levels down.
    let inner = mem.alloc_object(Object::Tuple(vec![Value::Int(1), Value::Heap(99)]));
    let outer = mem.alloc_object(Object::List(vec![Value::Int(0), inner]));
    assert_eq!(mem.freeze(outer).unwrap_err().kind, ErrorKind::NotSupported);
    // Its neighbour, which reaches nothing of the kind, freezes.
    let fine = mem.alloc_object(Object::List(vec![Value::Int(0), Value::Bool(true)]));
    let frozen = mem.freeze(fine).unwrap();
    assert_eq!(mem.to_repr(frozen.to_value()).unwrap(), "[0, True]");
    // Freezing it again gives the same frozen value.
    assert_eq!(mem.freeze(fine).unwrap(), frozen);
}

#[test]
fn freezing_keeps_sharing() {
    let mut mem = Memory::new();
    let shared = mem.alloc_object(Object::List(vec![Value::Int(1)]));
    let pair = mem.alloc_object(Object::Tuple(vec![shared, shared]));
    let frozen = mem.freeze(pair).unwrap();
    match mem.get_aref(frozen.to_value()) {
        starlark::heap::ARef::Object(Object::Tuple(items)) => {
            assert_eq!(items.len(), 2);
            assert!(items[0].ptr_eq(items[1]));
            assert!(items[0].unpack_frozen().is_some());
        }
        other => panic!("not a tuple: {:?}", other),
    }
    assert_eq!(mem.to_repr(frozen.to_value()).unwrap(), "([1], [1])");
}

#[test]
fn a_module_freezes_only_if_each_variable_does() {
    let mut mem = Memory::new();
    let bad = mem.alloc_object(Object::List(vec![Value::Heap(99)]));
    let mut ev = Evaluator::new(mem, 2);
    ev.set_slot_module(0, "fine", Value::Int(1)).unwrap();
    ev.set_slot_module(1, "bad", bad).unwrap();
    let names = vec!["fine".to_owned(), "bad".to_owned()];
    assert_eq!(ev.freeze(names).unwrap_err().kind, ErrorKind::NotSupported);
    // Without values, a module freezes to unassigned variables.
    let ev = Evaluator::new(Memory::new(), 2);
    let module = ev.freeze(vec!["a".to_owned(), "b".to_owned()]).unwrap();
    assert_eq!(module.slots, vec![None, None]);
}

#[test]
fn variables_freeze_through_their_cells() {
    let mut mem = Memory::new();
    let v = mem.alloc_object(Object::List(vec![Value::Int(5)]));
    let mut slot = ValueRef::new_unassigned();
    assert_eq!(slot.freeze(&mut mem).unwrap(), None);
    slot.set(&mut mem, v);
    let shared = slot.clone_reference(&mut mem);
    let a = slot.freeze(&mut mem).unwrap().unwrap();
    let b = shared.freeze(&mut mem).unwrap().unwrap();
    assert_eq!(a, b);
    assert_eq!(mem.to_repr(a.to_value()).unwrap(), "[5]");
    let mut dangling = ValueRef::new_unassigned();
    dangling.set(&mut mem, Value::Heap(99));
    assert_eq!(dangling.freeze(&mut mem).unwrap_err().kind, ErrorKind::NotSupported);
}

#[test]
fn a_variable_that_holds_a_frozen_value_freezes_to_it() {
    let mut mem = Memory::new();
    let text = mem.alloc_frozen_str("kept".to_owned());
    let other = mem.alloc_object(Object::List(vec![Value::Int(1)]));
    let mut slot = ValueRef::new_unassigned();
    slot.set(&mut mem, text.to_value());
    let shared = slot.clone_reference(&mut mem);
    let heap = mem.heap.arena.len();
    let frozen = mem.frozen.arena.len();
    assert_eq!(slot.freeze(&mut mem).unwrap(), Some(text));
    assert_eq!(shared.freeze(&mut mem).unwrap(), Some(text));
    assert_eq!(ValueRef(Some(Value::Int(3))).freeze(&mut mem).unwrap(), Some(FrozenValue::Int(3)));
    // Nothing was allocated, and nothing moved.
    assert_eq!(mem.heap.arena.len(), heap);
    assert_eq!(mem.frozen.arena.len(), frozen);
    assert!(mem.get_ref_mut(other).is_ok());
}

use call_by_need::{ap, force_expect_i32, i32, lambda, succ};
use call_by_need::{Closure, EvalError, Heap, HeapObj, HeapPtr, Term, Value};

const FUEL: u64 = 1000;

// λx.x
fn identity(heap: &mut Heap) -> HeapPtr {
    let x = heap.add_term(Term::Var(0));
    lambda(heap, x)
}

// λx.λy.x
fn fst(heap: &mut Heap) -> HeapPtr {
    let x = heap.add_term(Term::Var(1));
    let inner = heap.add_term(Term::Lam(x));
    lambda(heap, inner)
}

// λx.λy.y
fn snd(heap: &mut Heap) -> HeapPtr {
    let y = heap.add_term(Term::Var(0));
    let inner = heap.add_term(Term::Lam(y));
    lambda(heap, inner)
}

// λa.λb.λc.a
fn first_of_three(heap: &mut Heap) -> HeapPtr {
    let a = heap.add_term(Term::Var(2));
    let c = heap.add_term(Term::Lam(a));
    let b = heap.add_term(Term::Lam(c));
    lambda(heap, b)
}

#[test]
fn identity_applied() {
    let mut heap = Heap::new();
    let id = identity(&mut heap);
    let five = i32(&mut heap, 5);
    let t = ap(&mut heap, &id, &five);
    assert_eq!(force_expect_i32(&mut heap, &t, FUEL), Ok(5));
}

#[test]
fn fst_and_snd() {
    let mut heap = Heap::new();
    let fst = fst(&mut heap);
    let snd = snd(&mut heap);
    let five = i32(&mut heap, 5);
    let six = i32(&mut heap, 6);
    let fst5 = ap(&mut heap, &fst, &five);
    let fst56 = ap(&mut heap, &fst5, &six);
    assert_eq!(force_expect_i32(&mut heap, &fst56, FUEL), Ok(5));
    let snd5 = ap(&mut heap, &snd, &five);
    let snd56 = ap(&mut heap, &snd5, &six);
    assert_eq!(force_expect_i32(&mut heap, &snd56, FUEL), Ok(6));
}

#[test]
fn verify_call_by_need() {
    let mut heap = Heap::new();
    let inc = succ(&mut heap);
    // inc_twice = (λi.λn.i (i n)) inc
    let n = heap.add_term(Term::Var(0));
    let i = heap.add_term(Term::Var(1));
    let i_n = heap.add_term(Term::App(i, n));
    let i_i_n = heap.add_term(Term::App(i, i_n));
    let body = heap.add_term(Term::Lam(i_i_n));
    let make = lambda(&mut heap, body);
    let inc_twice = ap(&mut heap, &make, &inc);
    let ten = i32(&mut heap, 10);
    let hopefully_12 = ap(&mut heap, &inc_twice, &ten);

    assert_eq!(heap.succ_calls(), 0);
    assert_eq!(force_expect_i32(&mut heap, &hopefully_12, FUEL), Ok(12));
    assert_eq!(heap.succ_calls(), 2);
    assert_eq!(force_expect_i32(&mut heap, &hopefully_12, FUEL), Ok(12));
    assert_eq!(heap.succ_calls(), 2);
}

#[test]
fn deep_curring_is_awkward() {
    let mut heap = Heap::new();
    let f = first_of_three(&mut heap);
    assert!(matches!(
        f.get(&heap),
        HeapObj::Value(Value::Closure(Closure::Lambda { env: None, .. }))
    ));
}

#[test]
fn deep_currying_keeps_each_capture() {
    let mut heap = Heap::new();
    let f = first_of_three(&mut heap);
    let one = i32(&mut heap, 1);
    let two = i32(&mut heap, 2);
    let three = i32(&mut heap, 3);
    let four = i32(&mut heap, 4);
    let five = i32(&mut heap, 5);
    let seven = i32(&mut heap, 7);
    let g = ap(&mut heap, &f, &one);
    let g2 = ap(&mut heap, &g, &two);
    let g23 = ap(&mut heap, &g2, &three);
    let g4 = ap(&mut heap, &g, &four);
    let g45 = ap(&mut heap, &g4, &five);
    let h = ap(&mut heap, &f, &seven);
    let h2 = ap(&mut heap, &h, &two);
    let h23 = ap(&mut heap, &h2, &three);
    assert_eq!(force_expect_i32(&mut heap, &g23, FUEL), Ok(1));
    assert_eq!(force_expect_i32(&mut heap, &g45, FUEL), Ok(1));
    assert_eq!(force_expect_i32(&mut heap, &h23, FUEL), Ok(7));
    assert_eq!(force_expect_i32(&mut heap, &g23, FUEL), Ok(1));
}

#[test]
fn applying_an_integer_is_a_type_mismatch() {
    let mut heap = Heap::new();
    let five = i32(&mut heap, 5);
    let one = i32(&mut heap, 1);
    let t = ap(&mut heap, &five, &one);
    assert_eq!(t.force(&mut heap, FUEL), Err(EvalError::TypeMismatch));
    assert_eq!(force_expect_i32(&mut heap, &t, FUEL), Err(EvalError::TypeMismatch));
    assert_eq!(t.get(&heap), HeapObj::App(five, one));
}

#[test]
fn a_closure_result_is_not_an_integer() {
    let mut heap = Heap::new();
    let id = identity(&mut heap);
    let t = ap(&mut heap, &id, &id);
    assert_eq!(force_expect_i32(&mut heap, &t, FUEL), Err(EvalError::TypeMismatch));
    assert!(t.expect_value(&heap).expect_closure() == Closure::Lambda { body: 0, env: None });
}

#[test]
fn force_twice_changes_nothing() {
    let mut heap = Heap::new();
    let id = identity(&mut heap);
    let five = i32(&mut heap, 5);
    let t = ap(&mut heap, &id, &five);
    assert_eq!(t.force(&mut heap, FUEL), Ok(()));
    assert_eq!(t.get(&heap), HeapObj::Value(Value::I32(5)));
    assert_eq!(t.force(&mut heap, 0), Ok(()));
    assert_eq!(t.expect_value(&heap).expect_i32(), 5);
}

#[test]
fn shared_thunk_is_evaluated_once() {
    let mut heap = Heap::new();
    let inc = succ(&mut heap);
    let ten = i32(&mut heap, 10);
    let thunk = ap(&mut heap, &inc, &ten);
    let again = ap(&mut heap, &inc, &thunk);
    let other = ap(&mut heap, &inc, &thunk);
    assert_eq!(force_expect_i32(&mut heap, &again, FUEL), Ok(12));
    assert_eq!(heap.succ_calls(), 2);
    assert_eq!(force_expect_i32(&mut heap, &other, FUEL), Ok(12));
    assert_eq!(heap.succ_calls(), 3);
    assert_eq!(thunk.get(&heap), HeapObj::Value(Value::I32(11)));
}

#[test]
fn argument_is_not_forced() {
    let mut heap = Heap::new();
    let fst = fst(&mut heap);
    let five = i32(&mut heap, 5);
    let one = i32(&mut heap, 1);
    let broken = ap(&mut heap, &five, &one);
    let fst5 = ap(&mut heap, &fst, &five);
    let t = ap(&mut heap, &fst5, &broken);
    assert_eq!(force_expect_i32(&mut heap, &t, FUEL), Ok(5));
    assert_eq!(broken.get(&heap), HeapObj::App(five, one));
}

#[test]
fn out_of_fuel() {
    let mut heap = Heap::new();
    let id = identity(&mut heap);
    let five = i32(&mut heap, 5);
    let t = ap(&mut heap, &id, &five);
    assert_eq!(t.force(&mut heap, 0), Err(EvalError::OutOfFuel));
    assert_eq!(t.force(&mut heap, 1), Ok(()));
}

#[test]
fn unbound_variable() {
    let mut heap = Heap::new();
    let free = heap.add_term(Term::Var(1));
    let f = lambda(&mut heap, free);
    let five = i32(&mut heap, 5);
    let t = ap(&mut heap, &f, &five);
    assert_eq!(t.force(&mut heap, FUEL), Err(EvalError::UnboundVariable));
}

#[test]
fn successor_of_largest_overflows() {
    let mut heap = Heap::new();
    let inc = succ(&mut heap);
    let max = i32(&mut heap, i32::MAX);
    let t = ap(&mut heap, &inc, &max);
    assert_eq!(force_expect_i32(&mut heap, &t, FUEL), Err(EvalError::Overflow));
    let min = i32(&mut heap, -1);
    let u = ap(&mut heap, &inc, &min);
    assert_eq!(force_expect_i32(&mut heap, &u, FUEL), Ok(0));
}

#[test]
fn successor_of_closure_is_a_type_mismatch() {
    let mut heap = Heap::new();
    let inc = succ(&mut heap);
    let id = identity(&mut heap);
    let t = ap(&mut heap, &inc, &id);
    assert_eq!(t.force(&mut heap, FUEL), Err(EvalError::TypeMismatch));
    assert_eq!(heap.succ_calls(), 1);
}

#[test]
fn integer_literal_in_body() {
    let mut heap = Heap::new();
    let seven = heap.add_term(Term::Int(7));
    let k = lambda(&mut heap, seven);
    let five = i32(&mut heap, 5);
    let t = ap(&mut heap, &k, &five);
    assert_eq!(force_expect_i32(&mut heap, &t, FUEL), Ok(7));
    let node = HeapPtr::new(&mut heap, HeapObj::Value(Value::I32(3)));
    assert_eq!(node.index, 4);
    assert_eq!(force_expect_i32(&mut heap, &node, FUEL), Ok(3));
}

use std::cell::RefCell;
use std::rc::Rc;

use indexed_state::{from_fn, gets, gots, new, IndexedState};

fn counter() -> impl FnOnce(u32) -> (u32, u32) {
    |s: u32| (s * 10, s + 1)
}

#[test]
fn run_of_function_adapter() {
    assert_eq!(from_fn(|s: u32| (s + 1, s * 2)).run(3), (4, 6));
}

#[test]
fn plain_closure_is_a_computation() {
    assert_eq!((|s: u32| (s, s + 1)).run(5), (5, 6));
}

#[test]
fn evaluate_keeps_the_value() {
    assert_eq!(counter().evaluate(4), 40);
}

#[test]
fn execute_keeps_the_output_state() {
    assert_eq!(counter().execute(4), 5);
}

#[test]
fn map_with_identity_changes_nothing() {
    for s in [0u32, 1, 7, 1000] {
        assert_eq!(counter().map(|x| x).run(s), counter().run(s));
    }
}

#[test]
fn map_twice_equals_map_of_composition() {
    let f = |x: u32| x + 3;
    let g = |y: u32| format!("<{}>", y);
    for s in [0u32, 2, 9] {
        let chained = counter().map(f).map(g).run(s);
        let fused = counter().map(move |x| g(f(x))).run(s);
        assert_eq!(chained, fused);
    }
    assert_eq!(counter().map(f).map(g).run(2), ("<23>".to_string(), 3));
}

#[test]
fn map_leaves_the_output_state_alone() {
    for s in [0u32, 5, 41] {
        let (_, mapped) = counter().map(|x| x.to_string()).run(s);
        let (_, plain) = counter().run(s);
        assert_eq!(mapped, plain);
    }
}

#[test]
fn map_state_transforms_only_the_state() {
    let c = counter().map_state(|o: u32| format!("state {}", o));
    assert_eq!(c.run(6), (60, "state 7".to_string()));
}

fn step(x: u32) -> impl FnOnce(u32) -> (u32, u32) {
    move |s: u32| (x + s, s * 2)
}

fn last(y: u32) -> impl FnOnce(u32) -> (String, u64) {
    move |s: u32| (format!("{}:{}", y, s), (s as u64) + 100)
}

#[test]
fn and_then_is_associative() {
    for s in [0u32, 1, 3, 12] {
        let nested = counter().and_then(step).and_then(last).run(s);
        let fused = counter().and_then(|x| step(x).and_then(last)).run(s);
        assert_eq!(nested, fused);
    }
    // 3 -> (30, 4) -> (34, 8) -> ("34:8", 108)
    assert_eq!(counter().and_then(step).and_then(last).run(3), ("34:8".to_string(), 108));
}

#[test]
fn and_then_from_a_trivial_producer_is_the_next_step() {
    let v: u32 = 9;
    for s in [0u32, 4, 50] {
        let bound = (move |s: u32| (v, s)).and_then(step).run(s);
        assert_eq!(bound, step(v).run(s));
    }
}

#[test]
fn and_then_chooses_the_next_computation_from_the_value() {
    let c = (|s: i32| (s < 0, s)).and_then(|negative: bool| {
        move |s: i32| {
            if negative {
                ("negated".to_string(), -s)
            } else {
                ("kept".to_string(), s)
            }
        }
    });
    assert_eq!(c.run(-5), ("negated".to_string(), 5));
    let c = (|s: i32| (s < 0, s)).and_then(|negative: bool| {
        move |s: i32| {
            if negative {
                ("negated".to_string(), -s)
            } else {
                ("kept".to_string(), s)
            }
        }
    });
    assert_eq!(c.run(8), ("kept".to_string(), 8));
}

#[test]
fn contramap_state_converts_the_input_first() {
    let f = |text: &str| text.len() as u32;
    for text in ["", "a", "abcd"] {
        assert_eq!(counter().contramap_state(f).run(text), counter().run(f(text)));
    }
    assert_eq!(counter().contramap_state(f).run("abcd"), (40, 5));
}

#[test]
fn new_observes_without_changing_the_state() {
    assert_eq!(new::<String>().run("abc".to_string()), ("abc".to_string(), "abc".to_string()));
    assert_eq!(new::<u32>().run(0), (0, 0));
    assert_eq!(new::<Vec<u8>>().run(vec![]), (vec![], vec![]));
}

#[test]
fn gets_installs_and_reports_the_derived_state() {
    let f = |s: u32| vec![s; 3];
    assert_eq!(gets(f).run(2), (vec![2, 2, 2], vec![2, 2, 2]));
    assert_eq!(gets(f).run(2), (f(2).clone(), f(2)));
}

#[test]
fn gots_reports_a_value_and_keeps_the_state() {
    let f = |s: String| s.len();
    let s = "hello".to_string();
    assert_eq!(gots(f).run(s.clone()), (f(s.clone()), s.clone()));
    assert_eq!(gots(f).run(String::new()), (0, String::new()));
}

#[test]
fn apply_combines_values_and_threads_the_state() {
    let first = |s: u32| (move |a: u32| a * 100 + s, s + 1);
    let second = |mid: u32| (mid + 5, format!("fin {}", mid));
    // first from 2 gives (g, 3); second from 3 gives (8, "fin 3"); g(8) = 802
    let applied = first.apply(second);
    assert_eq!(applied.run(2), (802, "fin 3".to_string()));
}

#[test]
fn apply_equals_running_the_two_by_hand() {
    let first = |s: u32| (move |a: u32| a + s, s * 3);
    let second = |mid: u32| (mid * 2, mid + 1);
    for s in [0u32, 1, 6] {
        let (g, mid) = first(s);
        let (a, fin) = second(mid);
        let applied = first.apply(second);
        assert_eq!(applied.run(s), (g(a), fin));
    }
}

#[test]
fn each_function_runs_once_in_order() {
    let log: Rc<RefCell<Vec<&'static str>>> = Rc::new(RefCell::new(Vec::new()));
    let (l1, l2, l3, l4, l5) = (log.clone(), log.clone(), log.clone(), log.clone(), log.clone());
    let c = (move |s: u32| {
        l1.borrow_mut().push("inner");
        (s, s)
    })
        .map(move |x: u32| {
            l2.borrow_mut().push("map");
            x + 1
        })
        .map_state(move |o: u32| {
            l3.borrow_mut().push("map_state");
            o * 2
        })
        .and_then(move |x: u32| {
            l4.borrow_mut().push("kleisli");
            move |s: u32| {
                l5.borrow_mut().push("second");
                (x + s, s)
            }
        });
    let l0 = log.clone();
    let c = c.contramap_state(move |k: u32| {
        l0.borrow_mut().push("contramap");
        k + 1
    });
    assert!(log.borrow().is_empty());
    // 1 -> 2 -> (2, 2) -> (3, 2) -> (3, 4) -> (3 + 4, 4)
    assert_eq!(c.run(1), (7, 4));
    assert_eq!(
        *log.borrow(),
        vec!["contramap", "inner", "map", "map_state", "kleisli", "second"]
    );
}

#[test]
fn apply_runs_first_then_second_then_the_function() {
    let log: Rc<RefCell<Vec<&'static str>>> = Rc::new(RefCell::new(Vec::new()));
    let (l1, l2, l3) = (log.clone(), log.clone(), log.clone());
    let first = move |s: u32| {
        l1.borrow_mut().push("first");
        (
            move |a: u32| {
                l3.borrow_mut().push("function");
                a + 1
            },
            s,
        )
    };
    let second = move |s: u32| {
        l2.borrow_mut().push("second");
        (s * 2, s)
    };
    let applied = first.apply(second);
    assert_eq!(applied.run(5), (11, 5));
    assert_eq!(*log.borrow(), vec!["first", "second", "function"]);
}

#[test]
fn state_type_changes_along_a_chain() {
    let c = from_fn(|s: &str| (s.len(), s.to_string()))
        .map_state(|o: String| o.into_bytes())
        .and_then(|n: usize| move |bytes: Vec<u8>| (bytes.len() == n, bytes.first().copied()));
    assert_eq!(c.run("xyz"), (true, Some(b'x')));
    let c = from_fn(|s: &str| (s.len(), s.to_string()))
        .map_state(|o: String| o.into_bytes())
        .and_then(|n: usize| move |bytes: Vec<u8>| (bytes.len() == n, bytes.first().copied()));
    assert_eq!(c.run(""), (true, None));
}

use collar::{try_from_fn, CollectArray, CollectorError, Error, OnDrop};
use std::cell::Cell;
use std::rc::Rc;

#[test]
fn doubling_sequence_fills_eight() {
    let array = (0usize..).map(|x| x * 2).collect_array::<8>();
    assert_eq!(array, [0, 2, 4, 6, 8, 10, 12, 14]);
}

#[test]
fn checked_reports_count_on_shortfall() {
    let array: Result<[u8; 10], usize> = std::iter::repeat(5).take(3).collect_array_checked();
    assert_eq!(array, Err(3));
}

#[test]
fn checked_leaves_rest_in_iterator() {
    let mut it = 1u32..10;
    let array: Result<[u32; 3], usize> = it.collect_array_checked();
    assert_eq!(array, Ok([1, 2, 3]));
    assert_eq!(it.next(), Some(4));
}

#[test]
fn narrowing_fails_at_128() {
    let array: Result<[i8; 200], _> = (0..).map(|x: i32| x.try_into()).try_collect_array();
    let err = array.unwrap_err();
    assert_eq!(err.at, 128);
    assert!(err.error.is_some());
    assert_eq!(err.error, Some(i8::try_from(128i32).unwrap_err()));
}

#[test]
fn checked_add_collects() {
    let array: Option<[_; 4]> = (0usize..).map(|i| i.checked_add(100)).try_collect_array().ok();
    assert_eq!(array, Some([100, 101, 102, 103]));
}

#[test]
fn checked_sub_fails_at_zero() {
    let array: Result<[usize; 4], _> = (0usize..).map(|i| i.checked_sub(100)).try_collect_array();
    let err = array.unwrap_err();
    assert_eq!(err.at, 0);
    assert_eq!(err.error, Some(()));
    let again: Option<[_; 4]> = (0usize..).map(|i| i.checked_sub(100)).try_collect_array().ok();
    assert_eq!(again, None);
}

#[test]
fn exhaustion_has_no_payload() {
    let items: Vec<Result<u8, u8>> = vec![Ok(1), Ok(2)];
    let array: Result<[u8; 4], Error<4, u8>> = items.into_iter().try_collect_array();
    let err = array.unwrap_err();
    assert_eq!(err.at, 2);
    assert_eq!(err.error, None);
}

#[test]
fn element_failure_carries_payload() {
    let items: Vec<Result<u8, u8>> = vec![Ok(1), Ok(2), Err(9), Ok(4)];
    let mut it = items.into_iter();
    let array: Result<[u8; 4], Error<4, u8>> = it.try_collect_array();
    let err = array.unwrap_err();
    assert_eq!(err.at, 2);
    assert_eq!(err.error, Some(9));
    assert_eq!(it.next(), Some(Ok(4)));
}

#[test]
fn exhaustion_and_failure_differ() {
    let ran_out: Vec<Result<u8, ()>> = vec![Ok(1)];
    let failed: Vec<Result<u8, ()>> = vec![Ok(1), Err(())];
    let a: Result<[u8; 2], Error<2, ()>> = ran_out.into_iter().try_collect_array();
    let b: Result<[u8; 2], Error<2, ()>> = failed.into_iter().try_collect_array();
    let a = a.unwrap_err();
    let b = b.unwrap_err();
    assert_eq!(a.at, 1);
    assert_eq!(b.at, 1);
    assert_ne!(a, b);
}

#[test]
fn items_pads_with_none() {
    let v = vec![1u8, 2];
    assert_eq!(v.into_iter().items::<4>(), [Some(1), Some(2), None, None]);
}

#[test]
fn items_matches_mapped_collect() {
    assert_eq!((0..).items::<5>(), (0..).map(Some).collect_array::<5>());
}

#[test]
fn from_fn_narrowing_to_u8() {
    let array: Result<[u8; 5], _> = try_from_fn(|i| u8::try_from(i));
    assert_eq!(array, Ok([0, 1, 2, 3, 4]));
}

#[test]
fn from_fn_narrowing_to_i8_fails() {
    let array: Result<[i8; 200], _> = try_from_fn(|i| i8::try_from(i));
    assert!(array.is_err());
}

#[test]
fn from_fn_checked_add_and_sub() {
    let array: Option<[_; 4]> = try_from_fn(|i: usize| i.checked_add(100)).ok();
    assert_eq!(array, Some([100, 101, 102, 103]));
    let array: Option<[_; 4]> = try_from_fn(|i: usize| i.checked_sub(100)).ok();
    assert_eq!(array, None);
}

#[test]
fn from_fn_keeps_call_order() {
    let mut calls: Vec<usize> = Vec::new();
    let array: Result<[usize; 5], ()> = try_from_fn(|i| {
        calls.push(i);
        Ok(i * i)
    });
    assert_eq!(array, Ok([0, 1, 4, 9, 16]));
    assert_eq!(calls, vec![0, 1, 2, 3, 4]);
}

#[test]
fn from_fn_stops_at_first_failure() {
    let mut calls: usize = 0;
    let array: Result<[usize; 8], usize> = try_from_fn(|i| {
        calls += 1;
        if i == 3 { Err(i) } else { Ok(i) }
    });
    assert_eq!(array, Err(3));
    assert_eq!(calls, 4);
}

#[test]
fn zero_length_never_calls() {
    let array: Result<[u8; 0], ()> = try_from_fn(|_| -> Result<u8, ()> { panic!("called") });
    assert_eq!(array, Ok([]));
    let mut it = 5u8..7;
    let a: [u8; 0] = it.collect_array();
    assert_eq!(a, []);
    let b: Result<[u8; 0], usize> = it.collect_array_checked();
    assert_eq!(b, Ok([]));
    let c: [Option<u8>; 0] = it.items();
    assert_eq!(c, []);
    let mut failing = vec![Err::<u8, u8>(1)].into_iter();
    let d: Result<[u8; 0], Error<0, u8>> = failing.try_collect_array();
    assert_eq!(d, Ok([]));
    assert_eq!(it.next(), Some(5));
    assert_eq!(failing.next(), Some(Err(1)));
}

struct Counted {
    drops: Rc<Cell<usize>>,
}

impl Drop for Counted {
    fn drop(&mut self) {
        self.drops.set(self.drops.get() + 1);
    }
}

#[test]
fn failure_drops_each_built_element_once() {
    for k in 0..8usize {
        let drops = Rc::new(Cell::new(0usize));
        let made = Rc::new(Cell::new(0usize));
        let array: Result<[Counted; 8], ()> = try_from_fn(|i| {
            if i == k {
                Err(())
            } else {
                made.set(made.get() + 1);
                Ok(Counted { drops: drops.clone() })
            }
        });
        assert!(array.is_err());
        assert_eq!(made.get(), k);
        assert_eq!(drops.get(), k);
    }
}

#[test]
fn success_drops_nothing_until_array_drops() {
    let drops = Rc::new(Cell::new(0usize));
    let array: Result<[Counted; 4], ()> = try_from_fn(|_| Ok(Counted { drops: drops.clone() }));
    assert_eq!(drops.get(), 0);
    drop(array);
    assert_eq!(drops.get(), 4);
}

#[test]
fn equality_ignores_declared_length() {
    let a: CollectorError<3, u8> = Error { error: Some(1), at: 2 };
    let b: Error<5, u8> = Error { error: Some(1), at: 2 };
    assert!(a == b);
    let c: Error<5, u8> = Error { error: Some(1), at: 1 };
    assert!(a != c);
    let d: Error<7, u8> = Error { error: None, at: 2 };
    assert!(a != d);
}

#[test]
fn guard_fires_once() {
    let runs = Cell::new(0usize);
    let mut g = OnDrop::guard(|| runs.set(runs.get() + 1));
    g.fire();
    g.fire();
    assert_eq!(runs.get(), 1);
}

#[test]
fn disarmed_guard_never_fires() {
    let runs = Cell::new(0usize);
    let mut g = OnDrop::guard(|| runs.set(runs.get() + 1));
    g.disarm();
    g.fire();
    drop(g);
    assert_eq!(runs.get(), 0);
}

#[test]
fn describe_with_payload() {
    let e: Error<4, u8> = Error { error: Some(9), at: 2 };
    assert_eq!(e.describe(), "9 @ 2 of 4");
    let wide: Error<1200, u32> = Error { error: Some(70), at: 1105 };
    assert_eq!(wide.describe(), "70 @ 1105 of 1200");
}

#[test]
fn describe_without_payload() {
    let e: Error<10, u8> = Error { error: None, at: 3 };
    assert_eq!(e.describe(), "couldnt fill array of length 10, only had 3 elements.");
    let z: Error<0, u8> = Error { error: None, at: 0 };
    assert_eq!(z.describe(), "couldnt fill array of length 0, only had 0 elements.");
}

#[test]
fn describe_debug_forms() {
    let e: Error<4, &str> = Error { error: Some("bad"), at: 2 };
    assert_eq!(e.describe_debug(), "\"bad\" @ 2 of 4");
    let n: Error<16, &str> = Error { error: None, at: 12 };
    assert_eq!(n.describe_debug(), "Size(wanted 16, had 12)");
}

#[test]
fn source_exposes_payload() {
    let e: Error<4, u8> = Error { error: Some(9), at: 2 };
    assert_eq!(e.source(), Some(&9));
    let n: Error<4, u8> = Error { error: None, at: 2 };
    assert_eq!(n.source(), None);
}

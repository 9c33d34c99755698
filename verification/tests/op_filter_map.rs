//! The filter and map operators, through subjects and cold sources.

use std::cell::{Cell, RefCell};
use std::rc::Rc;

use rxcore::fac::Of;
use rxcore::noti::RxNoti;
use rxcore::observable::{ObservableSubNotiHelper, SubFHelper, NO};
use rxcore::op::filter::ObservableFilterOp;
use rxcore::op::map::{MapOp, ObsMapOp};
use rxcore::subject::Subject;
use rxcore::unsub::Unsub;

#[test]
fn filter_smoke() {
    let n = Rc::new(Cell::new(0i32));
    let n2 = n.clone();

    let subj = Subject::<NO, i32, u8, _, fn()>::new();
    let (mut input, _id) = subj
        .filter(|v: &i32| *v % 2 == 0)
        .subf(move |v: i32| n2.set(n2.get() + v));

    for i in 0..10i32 {
        input.next(i);
    }

    assert_eq!(n.get(), 20);
}

#[test]
fn filter_terminal_once_scenario() {
    // even with several terminal events thrown at the chain, the observer
    // sees termination exactly once
    let n = Rc::new(Cell::new(0i32));
    let n2 = n.clone();

    let subj = Subject::<NO, i32, u8, _, fn()>::new();
    let (mut input, _id) = subj
        .filter(|v: &i32| *v % 2 == 0)
        .sub_noti(move |ev: RxNoti<i32, u8>| match ev {
            RxNoti::Next(v) => n2.set(n2.get() + v),
            RxNoti::Comp => n2.set(n2.get() + 1000),
            RxNoti::Error(_) => n2.set(n2.get() + 100000),
        });

    input.next(2);
    input.complete();
    input.complete();
    input.err(9);

    assert_eq!(n.get(), 1002);
}

#[test]
fn map_smoke() {
    let n = Rc::new(Cell::new(0i32));
    let n2 = n.clone();

    let o = Of::value(123i32);
    let chain: MapOp<NO, i32, _, _> = o.map(|v: i32| v * 2);
    SubFHelper::<NO, i32, u8, _>::subf(chain, move |v: i32| n2.set(v));
    assert_eq!(n.get(), 246);

    let o = Of::value("B".to_owned());

    let result = Rc::new(RefCell::new(String::new()));
    let r2 = result.clone();
    let first: MapOp<NO, String, _, _> = o.map(|s: String| format!("A{}", s));
    let mapped: MapOp<NO, String, _, _> = first.map(|s: String| format!("{}C", s));
    SubFHelper::<NO, String, u8, _>::subf(mapped, move |v: String| r2.borrow_mut().push_str(&v));

    assert_eq!(result.borrow().as_str(), "ABC");
}

#[test]
fn map_unsub() {
    let n = Rc::new(Cell::new(0i32));
    let n2 = n.clone();

    let subj = Subject::<NO, i32, u8, _, fn()>::new();
    let chain: MapOp<NO, i32, _, _> = subj.map(|v: i32| v + 1);
    let (mut i, id) = chain.subf(move |v: i32| n2.set(v));

    i.next(1);
    assert_eq!(n.get(), 2);

    i.unsub(id);
    i.next(2);
    assert_eq!(n.get(), 2);
}

#[test]
fn drops_closure() {
    let r = Rc::new(0i32);
    let r1 = r.clone();

    assert_eq!(Rc::strong_count(&r), 2);

    let o = Of::value(123i32);

    let chain: MapOp<NO, i32, _, _> = o.map(move |_: i32| Rc::strong_count(&r1));
    let spent = SubFHelper::<NO, usize, u8, _>::subf(chain, |_: usize| {});
    drop(spent);

    assert_eq!(Rc::strong_count(&r), 1);
}

#[test]
fn should_complete() {
    let n = Rc::new(Cell::new(0i32));
    let n3 = n.clone();

    let subj = Subject::<NO, i32, u8, _, fn()>::new();
    let chain: MapOp<NO, i32, _, _> = subj.map(|v: i32| v);
    let (mut input, _id) = chain.sub_noti(move |ev: RxNoti<i32, u8>| match ev {
        RxNoti::Next(v) => n3.set(n3.get() + v),
        _ => n3.set(n3.get() + 1),
    });

    input.next(1);
    input.next(2);

    assert_eq!(n.get(), 3);

    input.complete();

    assert_eq!(n.get(), 4);
}

#[test]
fn filter_side_effect_dispose_scenario() {
    // ten sequential values, where the predicate also disposes a companion
    // resource on its first call: downstream still receives complete exactly
    // once, and the companion teardown runs exactly once
    let ran = Rc::new(Cell::new(0i32));
    let r2 = ran.clone();
    let mut companion = Unsub::new();
    companion.add(move || r2.set(r2.get() + 1));
    let companion = Rc::new(RefCell::new(companion));

    let comps = Rc::new(Cell::new(0i32));
    let c2 = comps.clone();

    let subj = Subject::<NO, i32, u8, _, fn()>::new();
    let (mut input, _id) = subj
        .filter(move |v: &i32| {
            companion.borrow_mut().dispose();
            *v % 2 == 0
        })
        .sub_noti(move |ev: RxNoti<i32, u8>| match ev {
            RxNoti::Comp => c2.set(c2.get() + 1),
            _ => {}
        });

    for i in 0..10i32 {
        input.next(i);
    }
    input.complete();

    assert_eq!(comps.get(), 1);
    assert_eq!(ran.get(), 1);
}

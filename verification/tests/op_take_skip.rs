//! The take and skip operators, driven through a subject or a cold range.

use std::cell::Cell;
use std::rc::Rc;

use rxcore::fac::range;
use rxcore::noti::RxNoti;
use rxcore::observable::{ObservableSubNotiHelper, SubFHelper, NO};
use rxcore::op::skip::ObservableSkip;
use rxcore::op::take::{ObservableTake, TakeSubOut};
use rxcore::subject::Subject;

#[test]
fn skip_basic() {
    let result = Rc::new(Cell::new(0i32));
    let r = result.clone();

    let s = Subject::<NO, i32, u8, _, fn()>::new();
    let (mut s, _id) = s.skip(1).sub_noti(move |n: RxNoti<i32, u8>| match n {
        RxNoti::Next(v) => r.set(r.get() + v),
        RxNoti::Comp => r.set(r.get() + 100),
        _ => {}
    });
    s.next(1);
    s.next(2);
    s.complete();

    assert_eq!(result.get(), 102);
}

#[test]
fn take_basic() {
    let result = Rc::new(Cell::new(0i32));
    let r = result.clone();

    let subj = Subject::<NO, i32, u8, _, fn()>::new();
    let out = subj.take(2).sub_noti(move |n: RxNoti<i32, u8>| match n {
        RxNoti::Next(_) => r.set(r.get() + 1),
        RxNoti::Comp => r.set(r.get() + 1000),
        _ => {}
    });
    let mut subj = match out {
        TakeSubOut::Subscribed((s, _id)) => s,
        TakeSubOut::Completed(_) => panic!("take(2) must subscribe upstream"),
    };
    subj.next(1);
    subj.next(1);
    subj.next(1);

    assert_eq!(result.get(), 1002);
}

#[test]
fn take_over() {
    let result = Rc::new(Cell::new(0i32));
    let a = result.clone();
    let c = result.clone();

    let subj = Subject::<NO, i32, u8, _, fn()>::new();
    let out = subj.take(100).subf((
        move |v: i32| a.set(a.get() + v),
        (),
        move || c.set(c.get() + 1000),
    ));
    let mut subj = match out {
        TakeSubOut::Subscribed((s, _id)) => s,
        TakeSubOut::Completed(_) => panic!("take(100) must subscribe upstream"),
    };
    subj.next(1);
    subj.next(1);
    subj.next(1);
    subj.complete();

    assert_eq!(result.get(), 1003);
}

#[test]
fn unstoppable_source() {
    let result = Rc::new(Cell::new(0i32));
    let a = result.clone();
    let b = result.clone();

    let chain = range(0, 100).take(2);
    let out = SubFHelper::<NO, i32, u8, _>::subf(
        chain,
        (move |_v: i32| a.set(a.get() + 1), (), move || b.set(b.get() + 1000)),
    );
    match out {
        TakeSubOut::Subscribed(_) => {}
        TakeSubOut::Completed(_) => panic!("take(2) must subscribe upstream"),
    }

    assert_eq!(result.get(), 1002);
}

#[test]
fn take_unsub() {
    let result = Rc::new(Cell::new(0i32));
    let a = result.clone();
    let b = result.clone();
    let c = result.clone();

    let subj = Subject::<NO, i32, u8, _, _>::new();
    let out = subj.take(2).subf((
        move |_v: i32| a.set(a.get() + 1),
        (),
        move || b.set(b.get() + 1000),
    ));
    let (mut subj, id) = match out {
        TakeSubOut::Subscribed((s, id)) => (s, id),
        TakeSubOut::Completed(_) => panic!("take(2) must subscribe upstream"),
    };
    subj.add_teardown(id, move || c.set(c.get() + 10000));

    subj.next(1);
    // the second value exhausts take(2): complete and teardown run here
    subj.next(1);

    subj.next(1);

    assert_eq!(result.get(), 11002);
}

#[test]
fn take_zero_completes_without_subscribing() {
    let result = Rc::new(Cell::new(0i32));
    let r = result.clone();

    let subj = Subject::<NO, i32, u8, _, fn()>::new();
    let out = subj.take(0).sub_noti(move |n: RxNoti<i32, u8>| match n {
        RxNoti::Comp => r.set(r.get() + 1),
        _ => r.set(r.get() + 100),
    });
    match out {
        TakeSubOut::Completed(_) => {}
        TakeSubOut::Subscribed(_) => panic!("take(0) must not subscribe upstream"),
    }

    assert_eq!(result.get(), 1);
}

#[test]
fn skip_negative_drops_nothing() {
    let result = Rc::new(Cell::new(0i32));
    let r = result.clone();

    let s = Subject::<NO, i32, u8, _, fn()>::new();
    let (mut s, _id) = s.skip(-3).sub_noti(move |n: RxNoti<i32, u8>| match n {
        RxNoti::Next(v) => r.set(r.get() + v),
        RxNoti::Comp => r.set(r.get() + 100),
        _ => {}
    });
    s.next(7);
    s.next(8);
    s.complete();

    assert_eq!(result.get(), 115);
}

#[test]
fn skip_exact_count_scenario() {
    // skip(3) over five values drops exactly the first three
    let result = Rc::new(Cell::new(0i32));
    let r = result.clone();

    let s = Subject::<NO, i32, u8, _, fn()>::new();
    let (mut s, _id) = s.skip(3).sub_noti(move |n: RxNoti<i32, u8>| match n {
        RxNoti::Next(v) => r.set(r.get() * 10 + v),
        _ => {}
    });
    for i in 1..6i32 {
        s.next(i);
    }
    s.complete();

    assert_eq!(result.get(), 45);
}

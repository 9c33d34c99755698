//! The disposal token: idempotent disposal and teardown composition.

use std::cell::Cell;
use std::rc::Rc;

use rxcore::noti::RxNoti;
use rxcore::observable::{ObservableSubNotiHelper, NO};
use rxcore::subject::Subject;
use rxcore::unsub::Unsub;

fn teardown(c: Rc<Cell<i32>>, d: i32) -> impl Fn() {
    move || c.set(c.get() + d)
}

#[test]
fn dispose_runs_each_teardown_exactly_once() {
    let ran = Rc::new(Cell::new(0i32));

    let mut u = Unsub::new();
    u.add(teardown(ran.clone(), 1));
    u.add(teardown(ran.clone(), 10));

    assert!(!u.is_disposed());
    u.dispose();
    assert_eq!(ran.get(), 11);

    // a second disposal runs nothing more
    u.dispose();
    assert_eq!(ran.get(), 11);
    assert!(u.is_disposed());
}

#[test]
fn dispose_many_times_still_once_in_total() {
    let ran = Rc::new(Cell::new(0i32));

    let mut u = Unsub::new();
    u.add(teardown(ran.clone(), 1));
    for _i in 0..5i32 {
        u.dispose();
    }

    assert_eq!(ran.get(), 1);
}

#[test]
fn add_after_dispose_runs_immediately() {
    let ran = Rc::new(Cell::new(0i32));

    let mut u = Unsub::new();
    u.dispose();
    u.add(teardown(ran.clone(), 7));

    assert_eq!(ran.get(), 7);
}

#[test]
fn added_each_shares_one_disposal() {
    let ran = Rc::new(Cell::new(0i32));

    let mut parent = Unsub::new();
    parent.add(teardown(ran.clone(), 1));

    let mut child = Unsub::new();
    child.add(teardown(ran.clone(), 100));

    parent.added_each(child);
    parent.dispose();

    assert_eq!(ran.get(), 101);
}

#[test]
fn added_each_to_disposed_parent_runs_now() {
    let ran = Rc::new(Cell::new(0i32));

    let mut parent = Unsub::new();
    parent.dispose();

    let mut child = Unsub::new();
    child.add(teardown(ran.clone(), 5));

    parent.added_each(child);

    assert_eq!(ran.get(), 5);
}

#[test]
fn subject_unsub_is_idempotent() {
    let ran = Rc::new(Cell::new(0i32));
    let seen = Rc::new(Cell::new(0i32));
    let s2 = seen.clone();

    let s = Subject::<NO, i32, u8, _, _>::new();
    let (mut s, id) = s.sub_noti(move |n: RxNoti<i32, u8>| match n {
        RxNoti::Next(v) => s2.set(s2.get() + v),
        _ => {}
    });
    s.add_teardown(id, teardown(ran.clone(), 1));

    s.next(1);
    s.unsub(id);
    s.unsub(id);
    s.next(2);

    assert_eq!(seen.get(), 1);
    assert_eq!(ran.get(), 1);
}

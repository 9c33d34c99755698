//! The take_until and tap operators.

use std::cell::Cell;
use std::rc::Rc;

use rxcore::fac::{range, Of};
use rxcore::noti::RxNoti;
use rxcore::observable::{FnObserver, MatchObserver, Observable, SubFHelper, NO};
use rxcore::observer::{Collector, Observer};
use rxcore::op::filter::ObservableFilterOp;
use rxcore::op::take::{ObservableTake, TakeSubOut};
use rxcore::op::take_until::{ObservableTakeUntil, TakeUntilState, TakeUntilSubOut};
use rxcore::op::tap::{ObservableTap, TapOp};
use rxcore::subject::Subject;

#[test]
fn take_until_basic() {
    // the source emits, the notifier fires, the source emits again: only
    // the first value arrives
    let r = Rc::new(Cell::new(0i32));
    let r2 = r.clone();

    let mut sub: TakeUntilState<i32, u8, _> =
        TakeUntilState::new(FnObserver::new(move |_: i32| r2.set(r2.get() + 1)));

    sub.next(1);
    sub.notify();
    sub.next(1);

    assert_eq!(r.get(), 1);
}

#[test]
fn take_until_ordering_scenario() {
    // source.next(1); notifier fires; source.next(2)  =>  [Next(1), Comp]
    let mut sub: TakeUntilState<i32, u8, Collector<i32, u8>> =
        TakeUntilState::new(Collector::new());

    sub.next(1);
    sub.notify();
    // the completion fires upon the notification itself
    assert_eq!(sub.dest.log, vec![RxNoti::Next(1), RxNoti::Comp]);
    sub.next(2);

    assert_eq!(sub.dest.log, vec![RxNoti::Next(1), RxNoti::Comp]);

    // later source events change nothing further
    sub.next(3);
    sub.complete();
    assert_eq!(sub.dest.log, vec![RxNoti::Next(1), RxNoti::Comp]);
}

#[test]
fn take_until_notifier_complete_is_no_stop() {
    let mut sub: TakeUntilState<i32, u8, Collector<i32, u8>> =
        TakeUntilState::new(Collector::new());

    // a notifier that completes without emitting never calls notify
    sub.next(1);
    sub.next(2);

    assert_eq!(sub.dest.log, vec![RxNoti::Next(1), RxNoti::Next(2)]);
}

#[test]
fn take_until_cold_notifier_already_fired() {
    // a notifier that emits during its own subscription means the source is
    // never subscribed at all
    let src = Of::value(1i32);
    let noti = Of::value(9i32);
    let chain = ObservableTakeUntil::<i32, u8>::take_until(src, noti);
    let out = Observable::<NO, i32, u8, Collector<i32, u8>>::sub(chain, Collector::new());
    match out {
        TakeUntilSubOut::NotSubscribed(probe, o) => {
            assert!(probe.notified);
            assert_eq!(o.log, vec![]);
        }
        TakeUntilSubOut::Subscribed(_, _) => panic!("source must not be subscribed"),
    }
}

#[test]
fn tap_basic() {
    let seen = Rc::new(Cell::new(0i32));
    let s2 = seen.clone();

    let chain = range(0, 10).take(5).tap(FnObserver::<i32, u8, _>::new(move |v: i32| {
        s2.set(s2.get() + v)
    }));
    let out = SubFHelper::<NO, i32, u8, _>::subf(chain.take(100), |_: i32| {});
    match out {
        TakeSubOut::Subscribed(_) => {}
        TakeSubOut::Completed(_) => panic!("take(100) must subscribe upstream"),
    }

    assert_eq!(seen.get(), 10);
}

#[test]
fn tap_passthrough_counts() {
    // evenness filter over 0..10, then tap: the side effect runs exactly 5
    // times and the tapped-through values sum to 20
    let count = Rc::new(Cell::new(0i32));
    let c2 = count.clone();
    let sum = Rc::new(Cell::new(0i32));
    let s2 = sum.clone();

    let filtered = ObservableFilterOp::<NO>::filter(range(0, 10), |v: &i32| *v % 2 == 0);
    let tapped: TapOp<_, FnObserver<i32, u8, _>> =
        filtered.tap(FnObserver::new(move |_: i32| c2.set(c2.get() + 1)));
    SubFHelper::<NO, i32, u8, _>::subf(tapped, move |v: i32| s2.set(s2.get() + v));

    assert_eq!(count.get(), 5);
    assert_eq!(sum.get(), 20);
}

#[test]
fn take_until_cold_notifier_only_completes() {
    // a notifier that completes without emitting is no stop signal: the
    // source is subscribed and delivers in full
    let src = Of::value(1i32);
    let noti = range(5, 5);
    let chain = ObservableTakeUntil::<i32, u8>::take_until(src, noti);
    let out = Observable::<NO, i32, u8, Collector<i32, u8>>::sub(chain, Collector::new());
    match out {
        TakeUntilSubOut::Subscribed(probe, t) => {
            assert!(!probe.notified);
            assert_eq!(t.dest.log, vec![RxNoti::Next(1), RxNoti::Comp]);
        }
        TakeUntilSubOut::NotSubscribed(_, _) => panic!("source must be subscribed"),
    }
}

#[test]
fn take_until_hot_notifier_via_subject() {
    // a live notifier routed by the driver: the source emits, the notifier
    // fires, the source emits again — downstream sees the first value, then
    // the completion synthesized upon notification, and nothing more
    let nexts = Rc::new(Cell::new(0i32));
    let comps = Rc::new(Cell::new(0i32));
    let n2 = nexts.clone();
    let c2 = comps.clone();

    let s = Subject::<NO, i32, u8, _, fn()>::new();
    let cb = move |n: RxNoti<i32, u8>| match n {
        RxNoti::Next(_) => n2.set(n2.get() + 1),
        RxNoti::Comp => c2.set(c2.get() + 1),
        _ => {}
    };
    let (mut s, id) =
        Observable::<NO, i32, u8, _>::sub(s, TakeUntilState::new(MatchObserver::new(cb)));

    s.next(1);
    assert_eq!((nexts.get(), comps.get()), (1, 0));

    s.notify_take_until(id);
    assert_eq!((nexts.get(), comps.get()), (1, 1));

    s.next(2);
    s.notify_take_until(id);

    assert_eq!((nexts.get(), comps.get()), (1, 1));
}

//! The observable/observer contract, the notification adapter, and the
//! cold sources.

use std::cell::Cell;
use std::rc::Rc;

use rxcore::fac::{range, Of};
use rxcore::noti::{IsClosed, RxNoti};
use rxcore::observable::{FnObserver, MatchObserver, Observable, ObservableSubNotiHelper,
    SubFHelper, NO};
use rxcore::observer::{Collector, Observer};
use rxcore::subject::Subject;

#[test]
fn hello_world() {
    {
        let s = Of::value(123i32);
        let o = FnObserver::<i32, u8, _>::new(|_: i32| {});
        Observable::<NO, i32, u8, _>::sub(s, o);
    }

    {
        let i: i32 = 123;
        let s = Of::value(i);
        let spent = Observable::<NO, i32, u8, _>::sub(s, Collector::new());
        assert_eq!(spent.log, vec![RxNoti::Next(123), RxNoti::Comp]);
    }

    {
        let ts = Subject::<NO, i32, u8, _, fn()>::new();
        let (_subj, _id) = ts.sub_noti(|_n: RxNoti<i32, u8>| println!("noti"));
    }
}

#[test]
fn of_value_delivers_once_then_completes() {
    let spent = Observable::<NO, i32, u8, _>::sub(Of::value(7i32), Collector::new());
    assert_eq!(spent.log, vec![RxNoti::Next(7), RxNoti::Comp]);
}

#[test]
fn range_delivers_in_order() {
    let spent = Observable::<NO, i32, u8, _>::sub(range(3, 6), Collector::new());
    assert_eq!(
        spent.log,
        vec![RxNoti::Next(3), RxNoti::Next(4), RxNoti::Next(5), RxNoti::Comp]
    );
}

#[test]
fn range_empty_completes_immediately() {
    let spent = Observable::<NO, i32, u8, _>::sub(range(5, 5), Collector::new());
    assert_eq!(spent.log, vec![RxNoti::Comp]);
}

#[test]
fn match_observer_terminal_exactly_once() {
    let terminals = Rc::new(Cell::new(0i32));
    let values = Rc::new(Cell::new(0i32));
    let t2 = terminals.clone();
    let v2 = values.clone();

    let mut m: MatchObserver<i32, u8, (), _> = MatchObserver::new(move |n: RxNoti<i32, u8>| {
        match n {
            RxNoti::Next(v) => v2.set(v2.get() + v),
            _ => t2.set(t2.get() + 1),
        }
    });

    m.next(5);
    m.err(1);
    m.complete();
    m.err(2);
    m.next(6);

    assert_eq!(values.get(), 5);
    assert_eq!(terminals.get(), 1);
}

#[test]
fn match_observer_callback_closes_early() {
    let values = Rc::new(Cell::new(0i32));
    let v2 = values.clone();

    let mut m: MatchObserver<i32, u8, IsClosed, _> =
        MatchObserver::new(move |n: RxNoti<i32, u8>| match n {
            RxNoti::Next(v) => {
                v2.set(v2.get() + v);
                if v >= 2 {
                    IsClosed::True
                } else {
                    IsClosed::Default
                }
            }
            _ => IsClosed::Default,
        });

    m.next(1);
    m.next(2);
    // closed by the callback's directive: nothing more arrives
    m.next(4);
    m.complete();

    assert_eq!(values.get(), 3);
    assert!(m._is_closed());
}

#[test]
fn match_observer_reopen_edge() {
    // the documented sharp edge: a callback that answers False to a
    // terminal clears the closed flag, so a later terminal is delivered too
    let terminals = Rc::new(Cell::new(0i32));
    let t2 = terminals.clone();

    let mut m: MatchObserver<i32, u8, IsClosed, _> =
        MatchObserver::new(move |n: RxNoti<i32, u8>| match n {
            RxNoti::Next(_) => IsClosed::Default,
            _ => {
                t2.set(t2.get() + 1);
                IsClosed::False
            }
        });

    m.complete();
    m.complete();

    assert_eq!(terminals.get(), 2);
    assert!(!m._is_closed());
}

#[test]
fn subject_fans_out_to_all_subscribers() {
    let total = Rc::new(Cell::new(0i32));
    let mk = |c: Rc<Cell<i32>>, w: i32| move |n: RxNoti<i32, u8>| match n {
        RxNoti::Next(v) => c.set(c.get() + w * v),
        _ => {}
    };

    let s = Subject::<NO, i32, u8, _, fn()>::new();
    let (s, _a) = s.sub_noti(mk(total.clone(), 1));
    let (mut s, _b) = s.sub_noti(mk(total.clone(), 100));

    s.next(3);

    assert_eq!(total.get(), 303);
}

#[test]
fn subject_stops_after_terminal() {
    let log = Rc::new(Cell::new(0i32));
    let l2 = log.clone();

    let s = Subject::<NO, i32, u8, _, fn()>::new();
    let (mut s, _id) = s.sub_noti(move |n: RxNoti<i32, u8>| match n {
        RxNoti::Next(v) => l2.set(l2.get() + v),
        RxNoti::Comp => l2.set(l2.get() + 100),
        _ => {}
    });

    s.next(1);
    s.complete();
    s.next(2);
    s.complete();

    assert!(s.is_stopped());
    assert_eq!(log.get(), 101);
}

#[test]
fn subf_full_callbacks() {
    // all three callback slots: values, error and completion each reach
    // their own callback; the error ends the subject, so the completion
    // callback never fires
    let log = Rc::new(Cell::new(0i32));
    let a = log.clone();
    let b = log.clone();
    let c = log.clone();

    let subj = Subject::<NO, i32, u8, _, fn()>::new();
    let (mut subj, _id) = subj.subf((
        move |v: i32| a.set(a.get() + v),
        move |e: u8| b.set(b.get() + 100 * e as i32),
        move || c.set(c.get() + 10000),
    ));

    subj.next(5);
    subj.err(3);
    subj.complete();

    assert_eq!(log.get(), 305);
}

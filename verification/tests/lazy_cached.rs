use std::cell::RefCell;
use std::rc::Rc;

use resonix::lazy_cached::LazyCached;

#[test]
fn should_accept_initial_value() {
    let num_times_called = Rc::new(RefCell::new(0));
    let f = || {
        *num_times_called.borrow_mut() += 1;
        String::from("new value")
    };

    let mut cached = LazyCached::new_cached(String::from("example"));

    // not called at first
    assert_eq!(*num_times_called.borrow(), 0);

    // data stored correctly
    assert_eq!(cached.get(f), "example");
}

#[test]
fn should_not_rerun_function_while_cache_is_valid() {
    let num_times_called = Rc::new(RefCell::new(0));
    let f = || {
        *num_times_called.borrow_mut() += 1;
        String::from("new value")
    };

    let mut cached = LazyCached::new_cached(String::from("example"));

    // not called at first
    assert_eq!(*num_times_called.borrow(), 0);

    // data stored correctly
    assert_eq!(cached.get(f), "example");

    // calling a second time should not cause function to get rerun
    assert_eq!(cached.get(f), "example");

    // still not called
    assert_eq!(*num_times_called.borrow(), 0);
}

#[test]
fn should_rerun_fn_after_cached_invalidated() {
    let num_times_called = Rc::new(RefCell::new(0));
    let f = || {
        *num_times_called.borrow_mut() += 1;
        String::from("new value")
    };

    let mut cached = LazyCached::new_cached(String::from("example"));

    // not called at first
    assert_eq!(*num_times_called.borrow(), 0);

    // data stored correctly
    assert_eq!(cached.get(f), "example");

    // calling a second time should not cause function to get rerun
    assert_eq!(cached.get(f), "example");

    // still not called
    assert_eq!(*num_times_called.borrow(), 0);

    cached.invalidate();

    // now new value calculated
    assert_eq!(cached.get(f), "new value");

    assert_eq!(*num_times_called.borrow(), 1);
}

#[test]
fn should_run_callback_on_first_get() {
    let num_times_called = Rc::new(RefCell::new(0));
    let f = || {
        *num_times_called.borrow_mut() += 1;
        String::from("example")
    };

    let mut cached = LazyCached::new_uncached();

    // not called at first
    assert_eq!(*num_times_called.borrow(), 0);

    // first `get`
    // data is correct
    assert_eq!(cached.get(f), "example");
    // function run once
    assert_eq!(*num_times_called.borrow(), 1);
}

#[test]
fn lazy_cached_should_not_rerun_function_while_cache_is_valid() {
    let num_times_called = Rc::new(RefCell::new(0));
    let f = || {
        *num_times_called.borrow_mut() += 1;
        String::from("example")
    };

    let mut cached = LazyCached::new_uncached();

    // not called at first
    assert_eq!(*num_times_called.borrow(), 0);

    // first `get`
    // data is correct
    assert_eq!(cached.get(f), "example");
    // function run once
    assert_eq!(*num_times_called.borrow(), 1);

    // calling a second time should not cause function to get rerun
    assert_eq!(cached.get(f), "example");

    // still not called
    assert_eq!(*num_times_called.borrow(), 1);
}

#[test]
fn lazy_cached_should_rerun_fn_after_cached_invalidated() {
    let num_times_called = Rc::new(RefCell::new(0));
    let f = || {
        *num_times_called.borrow_mut() += 1;
        if *num_times_called.borrow() > 1 {
            return String::from("new example");
        }

        String::from("example")
    };

    let mut cached = LazyCached::new_uncached();

    // not called at first
    assert_eq!(*num_times_called.borrow(), 0);

    // first `get`
    // data is correct
    assert_eq!(cached.get(f), "example");
    // function run once
    assert_eq!(*num_times_called.borrow(), 1);

    // calling a second time should not cause function to get rerun
    assert_eq!(cached.get(f), "example");

    // still only called once
    assert_eq!(*num_times_called.borrow(), 1);

    // cache is now invalid
    cached.invalidate();

    // now new value calculated
    assert_eq!(cached.get(f), "new example");

    assert_eq!(*num_times_called.borrow(), 2);
}

#[test]
fn get_mut_hands_out_the_cached_value_for_change() {
    let mut cached = LazyCached::new_uncached();
    *cached.get_mut(|| 3u32) += 4;
    assert_eq!(*cached.get(|| 100u32), 7);
}

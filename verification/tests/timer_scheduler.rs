//! Timer scheduler tests: one-shot firing, repeating catch-up,
//! cancellation, and reentrant registration from a callback.

use std::cell::RefCell;
use std::rc::Rc;

use resource_runtime::resource_impl::{timers_create, ResourceImpl};
use resource_runtime::timers::TimerId;

type Cb = Box<dyn FnMut()>;
type Ctx = ResourceImpl<Cb, Box<dyn FnMut()>, Box<dyn FnMut()>>;

/// Runs one tick the way the embedding loop does: compute the plan,
/// then take, invoke and restore each callback with no borrow of the
/// context held while it runs.
fn run_tick(ctx: &Rc<RefCell<Ctx>>, now: u64) -> Vec<TimerId> {
    let fired = ctx.borrow_mut().__on_tick(now);
    for id in &fired {
        let cb = ctx.borrow_mut().timers.take_callback(*id);
        if let Some(mut cb) = cb {
            cb();
            ctx.borrow_mut().timers.restore_callback(*id, cb);
        }
    }
    fired
}

#[test]
fn one_shot_fires_exactly_once() {
    let ctx: Rc<RefCell<Ctx>> = Rc::new(RefCell::new(ResourceImpl::new()));
    let log: Rc<RefCell<Vec<u32>>> = Rc::new(RefCell::new(Vec::new()));
    let l = Rc::clone(&log);
    let id = timers_create(
        &mut ctx.borrow_mut(),
        Box::new(move || l.borrow_mut().push(1)) as Cb,
        100,
        true,
    );
    assert_eq!(id, 0);

    // Zero fires strictly before the scheduled time is reached.
    assert!(run_tick(&ctx, 0).is_empty());
    assert!(run_tick(&ctx, 99).is_empty());
    assert!(log.borrow().is_empty());

    // Exactly one fire at the first tick with now >= scheduled + 100.
    assert_eq!(run_tick(&ctx, 150), vec![0]);
    assert_eq!(*log.borrow(), vec![1]);

    // And never again.
    assert!(run_tick(&ctx, 150).is_empty());
    assert!(run_tick(&ctx, 10_000).is_empty());
    assert_eq!(*log.borrow(), vec![1]);
}

#[test]
fn repeating_timer_catches_up_without_storm() {
    let ctx: Rc<RefCell<Ctx>> = Rc::new(RefCell::new(ResourceImpl::new()));
    let log: Rc<RefCell<Vec<u32>>> = Rc::new(RefCell::new(Vec::new()));
    let l = Rc::clone(&log);
    timers_create(&mut ctx.borrow_mut(), Box::new(move || l.borrow_mut().push(1)) as Cb, 50, false);

    // Not processed for 1000 ms: the overdue timer fires once, not
    // twenty times.
    assert_eq!(run_tick(&ctx, 1000).len(), 1);
    assert_eq!(log.borrow().len(), 1);

    // Its next fire time lands strictly after the tick it caught up
    // to: an immediate tick at the same clock fires nothing.
    assert!(run_tick(&ctx, 1000).is_empty());
    assert_eq!(log.borrow().len(), 1);

    // It keeps repeating afterwards.
    assert_eq!(run_tick(&ctx, 1050).len(), 1);
    assert_eq!(log.borrow().len(), 2);
}

#[test]
fn zero_interval_fires_on_next_tick_only() {
    let ctx: Rc<RefCell<Ctx>> = Rc::new(RefCell::new(ResourceImpl::new()));
    let log: Rc<RefCell<Vec<u32>>> = Rc::new(RefCell::new(Vec::new()));
    let l = Rc::clone(&log);
    // Registered as repeating, but a zero interval means "fire on the
    // next tick only".
    timers_create(&mut ctx.borrow_mut(), Box::new(move || l.borrow_mut().push(1)) as Cb, 0, false);
    assert_eq!(run_tick(&ctx, 0).len(), 1);
    assert!(run_tick(&ctx, 1).is_empty());
    assert!(run_tick(&ctx, 100).is_empty());
    assert_eq!(log.borrow().len(), 1);
}

#[test]
fn cancel_before_firing() {
    let ctx: Rc<RefCell<Ctx>> = Rc::new(RefCell::new(ResourceImpl::new()));
    let log: Rc<RefCell<Vec<u32>>> = Rc::new(RefCell::new(Vec::new()));
    let l = Rc::clone(&log);
    let id = timers_create(
        &mut ctx.borrow_mut(),
        Box::new(move || l.borrow_mut().push(1)) as Cb,
        10,
        false,
    );
    ctx.borrow_mut().cancel_timer(id);
    assert!(run_tick(&ctx, 100).is_empty());
    assert!(run_tick(&ctx, 200).is_empty());
    assert!(log.borrow().is_empty());
}

#[test]
fn cancel_from_within_own_callback() {
    let ctx: Rc<RefCell<Ctx>> = Rc::new(RefCell::new(ResourceImpl::new()));
    let log: Rc<RefCell<Vec<u32>>> = Rc::new(RefCell::new(Vec::new()));
    let ctx2 = Rc::clone(&ctx);
    let l = Rc::clone(&log);
    // The repeating callback cancels its own timer on first fire; the
    // removal takes effect after the call completes.
    timers_create(
        &mut ctx.borrow_mut(),
        Box::new(move || {
            l.borrow_mut().push(1);
            ctx2.borrow_mut().cancel_timer(0);
        }) as Cb,
        50,
        false,
    );
    assert_eq!(run_tick(&ctx, 50).len(), 1);
    assert_eq!(log.borrow().len(), 1);
    assert!(run_tick(&ctx, 100).is_empty());
    assert!(run_tick(&ctx, 150).is_empty());
    assert_eq!(log.borrow().len(), 1);
}

#[test]
fn callback_registers_another_timer() {
    let ctx: Rc<RefCell<Ctx>> = Rc::new(RefCell::new(ResourceImpl::new()));
    let log: Rc<RefCell<Vec<u32>>> = Rc::new(RefCell::new(Vec::new()));
    let ctx2 = Rc::clone(&ctx);
    let l = Rc::clone(&log);
    let l2 = Rc::clone(&log);
    // A one-shot whose callback schedules a second one-shot; the new
    // timer is queued and joins the scheduler at the next tick.
    timers_create(
        &mut ctx.borrow_mut(),
        Box::new(move || {
            l.borrow_mut().push(1);
            let inner = Rc::clone(&l2);
            timers_create(
                &mut ctx2.borrow_mut(),
                Box::new(move || inner.borrow_mut().push(2)) as Cb,
                10,
                true,
            );
        }) as Cb,
        10,
        true,
    );
    assert_eq!(run_tick(&ctx, 10), vec![0]);
    assert_eq!(*log.borrow(), vec![1]);
    // The second timer was created at clock 10, so it fires at 20.
    assert!(run_tick(&ctx, 15).is_empty());
    assert_eq!(run_tick(&ctx, 25), vec![1]);
    assert_eq!(*log.borrow(), vec![1, 2]);
}

#[test]
fn fired_ids_come_in_registration_order() {
    let ctx: Rc<RefCell<Ctx>> = Rc::new(RefCell::new(ResourceImpl::new()));
    for _ in 0..3 {
        timers_create(&mut ctx.borrow_mut(), Box::new(|| ()) as Cb, 5, true);
    }
    assert_eq!(run_tick(&ctx, 100), vec![0, 1, 2]);
}

#[test]
fn clock_is_monotonic() {
    let ctx: Rc<RefCell<Ctx>> = Rc::new(RefCell::new(ResourceImpl::new()));
    let log: Rc<RefCell<Vec<u32>>> = Rc::new(RefCell::new(Vec::new()));
    let l = Rc::clone(&log);
    run_tick(&ctx, 1000);
    // A timer created after the clock reached 1000 fires relative to
    // that clock, even if the engine hands in a smaller reading.
    timers_create(&mut ctx.borrow_mut(), Box::new(move || l.borrow_mut().push(1)) as Cb, 50, true);
    assert!(run_tick(&ctx, 400).is_empty());
    assert_eq!(run_tick(&ctx, 1050).len(), 1);
}

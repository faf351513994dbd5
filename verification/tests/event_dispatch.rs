//! Event dispatch tests: handler isolation, native event delivery,
//! and broadcast with no listeners.

use std::cell::RefCell;
use std::rc::Rc;

use resource_runtime::events::SdkEventType;
use resource_runtime::local_script_events::add_handler;
use resource_runtime::resource_impl::{emit_local_event, on, ResourceImpl};
use resource_runtime::types::ScriptValue;

type LocalHandler = Box<dyn FnMut(&Vec<ScriptValue>) -> anyhow::Result<()>>;

/// The typed view a native PlayerConnect payload decodes to.
struct PlayerConnectPayload {
    player_id: u32,
}

type NativeHandler = Box<dyn FnMut(&PlayerConnectPayload)>;

type Ctx = ResourceImpl<Box<dyn FnMut()>, LocalHandler, NativeHandler>;

/// Dispatches one local event the way the embedding loop does:
/// take the plan, run every handler on the shared argument list,
/// record failures without stopping, and restore the handlers.
fn dispatch_local(ctx: &mut Ctx, name: &String, args: &Vec<ScriptValue>) -> Vec<String> {
    let mut plan = emit_local_event(ctx, name);
    let mut failures = Vec::new();
    for h in plan.iter_mut() {
        if let Err(error) = h(args) {
            failures.push(format!("handler of event {:?} failed: {}", name, error));
        }
    }
    ctx.local_script_events.restore_handlers(name, plan);
    failures
}

#[test]
fn failing_handler_does_not_stop_the_others() {
    let mut ctx: Ctx = ResourceImpl::new();
    let log: Rc<RefCell<Vec<u32>>> = Rc::new(RefCell::new(Vec::new()));
    let (l1, l2, l3) = (Rc::clone(&log), Rc::clone(&log), Rc::clone(&log));
    let name = String::from("boom");
    on(&mut ctx, name.clone(), Box::new(move |_args: &Vec<ScriptValue>| {
        l1.borrow_mut().push(1);
        Ok(())
    }) as LocalHandler);
    on(&mut ctx, name.clone(), Box::new(move |_args: &Vec<ScriptValue>| {
        l2.borrow_mut().push(2);
        Err(anyhow::Error::msg("second handler failed"))
    }) as LocalHandler);
    on(&mut ctx, name.clone(), Box::new(move |_args: &Vec<ScriptValue>| {
        l3.borrow_mut().push(3);
        Ok(())
    }) as LocalHandler);

    let failures = dispatch_local(&mut ctx, &name, &vec![]);

    // All three handlers ran, in registration order; the one failure
    // was reported and did not keep the third from running.
    assert_eq!(*log.borrow(), vec![1, 2, 3]);
    assert_eq!(failures.len(), 1);
    assert!(failures[0].contains("second handler failed"));

    // The handlers survive dispatch: a second emit runs all three
    // again.
    let failures = dispatch_local(&mut ctx, &name, &vec![]);
    assert_eq!(*log.borrow(), vec![1, 2, 3, 1, 2, 3]);
    assert_eq!(failures.len(), 1);
}

#[test]
fn native_event_delivered_once_with_decoded_payload() {
    let mut ctx: Ctx = ResourceImpl::new();
    let seen: Rc<RefCell<Vec<u32>>> = Rc::new(RefCell::new(Vec::new()));
    let s = Rc::clone(&seen);
    ctx.add_event_handler(
        SdkEventType::PlayerConnect,
        Box::new(move |payload: &PlayerConnectPayload| s.borrow_mut().push(payload.player_id))
            as NativeHandler,
    );

    // The engine fires PlayerConnect with a raw payload; it decodes
    // to player id 7. Decoding happens once, only because the plan is
    // non-empty, and the view is shared by every handler.
    let raw: Vec<u8> = vec![7, 0, 0, 0];
    let mut plan = ctx.__on_sdk_event(SdkEventType::PlayerConnect);
    if !plan.is_empty() {
        let payload = PlayerConnectPayload {
            player_id: u32::from_le_bytes([raw[0], raw[1], raw[2], raw[3]]),
        };
        for h in plan.iter_mut() {
            h(&payload);
        }
    }
    ctx.events.restore_handlers(SdkEventType::PlayerConnect, plan);

    assert_eq!(*seen.borrow(), vec![7]);

    // An event kind with no registered handlers is dropped: empty
    // plan, nothing decoded, nothing delivered.
    let plan = ctx.__on_sdk_event(SdkEventType::PlayerDisconnect);
    assert!(plan.is_empty());
    ctx.events.restore_handlers(SdkEventType::PlayerDisconnect, plan);
    assert_eq!(*seen.borrow(), vec![7]);
}

#[test]
fn emit_with_no_listeners_is_a_quiet_no_op() {
    let mut ctx: Ctx = ResourceImpl::new();
    let name = String::from("score");
    let args = vec![ScriptValue::Int(42)];
    let failures = dispatch_local(&mut ctx, &name, &args);
    assert!(failures.is_empty());
    assert_eq!(ctx.local_script_events.handler_count(&name), 0);
}

#[test]
fn handler_registered_during_dispatch_joins_at_the_end() {
    let ctx: Rc<RefCell<Ctx>> = Rc::new(RefCell::new(ResourceImpl::new()));
    let log: Rc<RefCell<Vec<u32>>> = Rc::new(RefCell::new(Vec::new()));
    let name = String::from("grow");
    let ctx2 = Rc::clone(&ctx);
    let l1 = Rc::clone(&log);
    let l2 = Rc::clone(&log);
    let n2 = name.clone();
    add_handler(
        &mut ctx.borrow_mut().local_script_events,
        name.clone(),
        Box::new(move |_args: &Vec<ScriptValue>| {
            l1.borrow_mut().push(1);
            let inner = Rc::clone(&l2);
            on(&mut ctx2.borrow_mut(), n2.clone(), Box::new(
                move |_args: &Vec<ScriptValue>| {
                    inner.borrow_mut().push(2);
                    Ok(())
                },
            ) as LocalHandler);
            Ok(())
        }) as LocalHandler,
    );

    // First dispatch runs the original handler, which registers a
    // second one mid-dispatch.
    let mut plan = emit_local_event(&mut ctx.borrow_mut(), &name);
    assert_eq!(plan.len(), 1);
    for h in plan.iter_mut() {
        let _ = h(&vec![]);
    }
    ctx.borrow_mut().local_script_events.restore_handlers(&name, plan);
    assert_eq!(*log.borrow(), vec![1]);

    // Registration order is preserved across the restore: the next
    // dispatch runs the original handler first, then the new one.
    let mut plan = emit_local_event(&mut ctx.borrow_mut(), &name);
    assert_eq!(plan.len(), 2);
    for h in plan.iter_mut() {
        let _ = h(&vec![]);
    }
    ctx.borrow_mut().local_script_events.restore_handlers(&name, plan);
    assert_eq!(*log.borrow(), vec![1, 1, 2]);
}

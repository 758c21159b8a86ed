use ani_rs::async_callback::{AniAsyncCallback, AniErrorCallback};
use ani_rs::callback::{Callback, Holders};
use ani_rs::env::{AniEnv, ManagedValue};
use ani_rs::error::BusinessError;
use ani_rs::objects::AniFnObject;
use ani_rs::ser::Primitive;
use ani_rs::showcase_callbacks::{
    execute_callback1, execute_callback2, execute_callback3, execute_multi_callbacks, Runtime,
};
use ani_rs::vm::AniVm;
use ani_rs::worker::{execute_spawned, Job, WorkerQueue};

fn int_arg(env: &AniEnv, call: usize, arg: usize) -> i32 {
    let h = env.calls[call].args[arg];
    match env.value_of(&h).unwrap() {
        ManagedValue::Int(i) => *i,
        other => panic!("not an int: {:?}", other),
    }
}

#[test]
fn local_invocation_runs_once() {
    let mut env = AniEnv::new();
    let f = env.new_function(1).unwrap();
    execute_callback1(&mut env, f).unwrap();
    assert_eq!(env.calls.len(), 1);
    assert_eq!(env.calls[0].function, f.as_raw());
    assert_eq!(int_arg(&env, 0, 0), 1);
}

#[test]
fn current_thread_invocation_attaches_once() {
    let mut env = AniEnv::new();
    let mut vm = AniVm::new();
    let f = env.new_function(2).unwrap();
    execute_callback2(&mut vm, 7, &mut env, f).unwrap();
    execute_callback2(&mut vm, 7, &mut env, f).unwrap();
    assert_eq!(vm.attached, vec![7]);
    assert_eq!(env.calls.len(), 2);
    assert_eq!(int_arg(&env, 1, 0), 2);
}

#[test]
fn callback_current_thread_detaches_after() {
    let mut env = AniEnv::new();
    let mut vm = AniVm::new();
    let f = env.new_function(3).unwrap();
    let cb = Callback::new(f);
    cb.execute_current_thread(&mut vm, 9, &mut env, &Primitive::Int(4)).unwrap();
    assert!(vm.attached.is_empty());
    assert_eq!(env.calls.len(), 1);
}

#[test]
fn attach_is_not_idempotent() {
    let mut vm = AniVm::new();
    assert!(vm.attach_current_thread(1).is_ok());
    assert!(vm.attach_current_thread(1).is_err());
    assert!(vm.get_env(1).is_ok());
    assert!(vm.detach_current_thread(1).is_ok());
    assert!(vm.get_env(1).is_err());
    assert!(vm.detach_current_thread(1).is_err());
}

#[test]
fn spawned_thread_invocation_runs_once() {
    let mut rt = Runtime::new();
    let f = rt.env.new_function(5).unwrap();
    execute_callback3(&mut rt, 11, f).unwrap();
    assert_eq!(rt.env.calls.len(), 1);
    assert_eq!(int_arg(&rt.env, 0, 0), 3);
    assert_eq!(rt.vm.attached, vec![11]);
}

#[test]
fn worker_runs_three_listeners_in_order() {
    let mut env = AniEnv::new();
    let mut holders = Holders::new();
    let mut queue: WorkerQueue<Primitive> = WorkerQueue::new();
    let mut functions = Vec::new();
    for id in 0..3 {
        let f = env.new_function(id).unwrap();
        let g = f.into_global_callback(&mut env, &mut holders).unwrap();
        functions.push(holders.global_of(&g).as_raw());
        g.execute_collective(&holders, &mut queue, Primitive::Int(id as i32));
    }
    assert_eq!(queue.drain(&mut env), 0);
    assert_eq!(env.calls.len(), 3);
    for i in 0..3 {
        assert_eq!(env.calls[i].function, functions[i]);
        assert_eq!(int_arg(&env, i, 0), i as i32);
    }
}

#[test]
fn worker_keeps_going_after_a_failure() {
    let mut env = AniEnv::new();
    let mut holders = Holders::new();
    let mut queue: WorkerQueue<Primitive> = WorkerQueue::new();
    let f = env.new_function(1).unwrap();
    let g = f.into_global_callback(&mut env, &mut holders).unwrap();
    let released = holders.global_of(&g);
    let h = env.new_function(2).unwrap();
    let good = h.into_global_callback(&mut env, &mut holders).unwrap();
    queue.submit(Job { callback: released, input: Primitive::Int(1) });
    good.execute_collective(&holders, &mut queue, Primitive::Int(2));
    holders.drop_callback(&mut env, g);
    assert_eq!(queue.drain(&mut env), 1);
    assert_eq!(env.calls.len(), 1);
    assert_eq!(int_arg(&env, 0, 0), 2);
    assert!(queue.run_next(&mut env).is_none());
}

#[test]
fn clones_keep_registration_until_last_drop() {
    let mut env = AniEnv::new();
    let mut holders = Holders::new();
    let f = env.new_function(1).unwrap();
    let first = f.into_global_callback(&mut env, &mut holders).unwrap();
    let global = holders.global_of(&first);
    let clones: Vec<_> = (0..4).map(|_| holders.clone_callback(&first)).collect();
    for c in clones {
        holders.drop_callback(&mut env, c);
        assert!(env.value_of(&global).is_ok());
    }
    assert_eq!(holders.slots[first.slot].count, 1);
    holders.drop_callback(&mut env, first);
    assert!(env.value_of(&global).is_err());
}

#[test]
fn released_global_cannot_be_used_again() {
    let mut env = AniEnv::new();
    let f = env.new_function(1).unwrap();
    let g = f.into_global(&mut env).unwrap();
    let raw = g.as_raw();
    g.release(&mut env).unwrap();
    let stale = AniFnObject::from_raw(raw);
    assert!(stale.execute_local(&mut env, &Primitive::Int(1)).is_err());
    assert!(env.calls.is_empty());
    assert!(env.delete_global_ref(&stale.0 .0).is_err());
}

#[test]
fn local_references_cannot_be_released_as_globals() {
    let mut env = AniEnv::new();
    let f = env.new_function(1).unwrap();
    assert!(env.delete_global_ref(&f.0 .0).is_err());
}

#[test]
fn async_callback_gets_error_then_value() {
    let mut env = AniEnv::new();
    let f = env.new_function(1).unwrap();
    let cb = AniAsyncCallback(f);
    let err = BusinessError::new(401, "failed1".to_string());
    cb.execute_local(&mut env, Some(err), &Primitive::Int(1)).unwrap();
    let call = &env.calls[0];
    assert_eq!(call.args.len(), 2);
    match env.value_of(&call.args[0]).unwrap() {
        ManagedValue::Object { class, fields } => {
            assert_eq!(class, "@ohos.base.BusinessError");
            assert!(matches!(env.value_of(&fields[0]).unwrap(), ManagedValue::Int(401)));
        }
        other => panic!("not an error object: {:?}", other),
    }
    assert_eq!(int_arg(&env, 0, 1), 1);
}

#[test]
fn async_callback_without_error_gets_undefined() {
    let mut env = AniEnv::new();
    let f = env.new_function(1).unwrap();
    AniAsyncCallback(f).execute_local(&mut env, None, &Primitive::Int(2)).unwrap();
    let first = env.calls[0].args[0];
    assert!(env.is_undefined(&first).unwrap());
}

#[test]
fn multi_callbacks_in_order() {
    let mut env = AniEnv::new();
    let a = env.new_function(1).unwrap();
    let b = env.new_function(2).unwrap();
    let c = env.new_function(3).unwrap();
    execute_multi_callbacks(&mut env, a, AniAsyncCallback(b), AniErrorCallback(c)).unwrap();
    let order: Vec<u64> = env.calls.iter().map(|c| c.function).collect();
    assert_eq!(order, vec![a.as_raw(), b.as_raw(), c.as_raw()]);
}

#[test]
fn calling_a_non_function_fails() {
    let mut env = AniEnv::new();
    let s = env.serialize_string("x".to_string()).unwrap();
    let f = AniFnObject::from_raw(s.as_raw());
    assert!(execute_callback1(&mut env, f).is_err());
    assert!(env.calls.is_empty());
}

#[test]
fn spawned_job_on_attached_thread_keeps_attachment() {
    let mut env = AniEnv::new();
    let mut vm = AniVm::new();
    vm.attach_current_thread(3).unwrap();
    let f = env.new_function(1).unwrap();
    let g = f.into_global(&mut env).unwrap();
    assert!(execute_spawned(&mut vm, 3, &mut env, &Job { callback: ani_rs::env::AniRef::from_raw(g.as_raw()), input: () }));
    assert_eq!(vm.attached, vec![3]);
    assert_eq!(env.calls.len(), 1);
    assert!(env.calls[0].args.is_empty());
}

#[test]
fn queued_call_receives_its_input() {
    let mut env = AniEnv::new();
    let mut holders = Holders::new();
    let mut queue: WorkerQueue<Primitive> = WorkerQueue::new();
    let f = env.new_function(1).unwrap();
    let g = f.into_global_callback(&mut env, &mut holders).unwrap();
    g.execute_collective(&holders, &mut queue, Primitive::Int(42));
    assert_eq!(queue.run_next(&mut env), Some(true));
    assert_eq!(env.calls[0].args.len(), 1);
    assert_eq!(int_arg(&env, 0, 0), 42);
}

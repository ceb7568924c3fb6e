use planner_core::commands::CommandType;
use planner_core::sim::controlflow::{
    call_function, define_function, func_key, ControlContext, MAX_ITER, MAX_WHILE_LOOPS,
};

#[test]
fn function_storage_uses_func_prefix() {
    let mut ctx = ControlContext::new();
    let body = vec![("f1".to_string(), CommandType::Hover)];
    define_function(&mut ctx, "hop", body);
    assert!(ctx.functions.iter().any(|(key, _)| key == "__func_hop"));
    assert!(call_function(&ctx, "hop").is_some());
    assert!(call_function(&ctx, "missing").is_none());
    assert_eq!(call_function(&ctx, "hop").unwrap().len(), 1);
}

#[test]
fn function_keys() {
    assert_eq!(func_key("hop"), "__func_hop");
    assert_ne!(func_key("hop"), func_key("missing"));
    assert_eq!(func_key(""), "__func_");
}

#[test]
fn redefining_replaces_only_that_function() {
    let mut ctx: ControlContext<Vec<u32>> = ControlContext::new();
    define_function(&mut ctx, "a", vec![1]);
    define_function(&mut ctx, "b", vec![2, 2]);
    define_function(&mut ctx, "a", vec![3, 3, 3]);
    assert_eq!(ctx.functions.len(), 2);
    assert_eq!(call_function(&ctx, "a"), Some(&vec![3, 3, 3]));
    assert_eq!(call_function(&ctx, "b"), Some(&vec![2, 2]));
    assert_eq!(ctx.iter_count, 0);
    let fresh: ControlContext<u8> = Default::default();
    assert!(fresh.functions.is_empty());
}

#[test]
fn interpreter_limits() {
    assert_eq!(MAX_ITER, 10000);
    assert_eq!(MAX_WHILE_LOOPS, 500);
}

use ext_php_rs::zend::zend_extension::{
    compile_flags_for, ZendExtensionBuilder, ZendExtensionConfig, ZEND_COMPILE_EXTENDED_FCALL,
    ZEND_COMPILE_EXTENDED_STMT, ZEND_COMPILE_HANDLE_OP_ARRAY,
};

struct NoopHandler;

fn make_handler() -> NoopHandler {
    NoopHandler
}

fn cfg(stmts: bool, fcalls: bool, op_array: bool) -> ZendExtensionConfig<fn() -> NoopHandler> {
    ZendExtensionConfig {
        factory: make_handler,
        hook_statements: stmts,
        hook_fcalls: fcalls,
        hook_op_array: op_array,
    }
}

fn builder() -> ZendExtensionBuilder<(), fn() -> NoopHandler> {
    ZendExtensionBuilder::new((), make_handler as fn() -> NoopHandler)
}

#[test]
fn compile_flags_for_none_is_zero() {
    assert_eq!(compile_flags_for(&cfg(false, false, false)), 0);
}

#[test]
fn compile_flags_for_statements_only() {
    assert_eq!(compile_flags_for(&cfg(true, false, false)), ZEND_COMPILE_EXTENDED_STMT);
}

#[test]
fn compile_flags_for_fcalls_only() {
    assert_eq!(compile_flags_for(&cfg(false, true, false)), ZEND_COMPILE_EXTENDED_FCALL);
}

#[test]
fn compile_flags_for_op_array_only() {
    assert_eq!(compile_flags_for(&cfg(false, false, true)), ZEND_COMPILE_HANDLE_OP_ARRAY);
}

#[test]
fn compile_flags_for_all_is_or() {
    assert_eq!(
        compile_flags_for(&cfg(true, true, true)),
        ZEND_COMPILE_EXTENDED_STMT | ZEND_COMPILE_EXTENDED_FCALL | ZEND_COMPILE_HANDLE_OP_ARRAY,
    );
}

#[test]
fn builder_starts_with_no_hooks() {
    let b = builder();
    assert_eq!(b.opts(), (false, false, false));
}

#[test]
fn builder_hook_statements_flips_only_statements() {
    let b = builder().hook_statements();
    assert_eq!(b.opts(), (false, true, false));
}

#[test]
fn builder_hook_fcalls_flips_only_fcalls() {
    let b = builder().hook_fcalls();
    assert_eq!(b.opts(), (false, false, true));
}

#[test]
fn builder_hook_op_array_compile_flips_only_op_array() {
    let b = builder().hook_op_array_compile();
    assert_eq!(b.opts(), (true, false, false));
}

#[test]
fn builder_hooks_compose() {
    let b = builder().hook_statements().hook_fcalls().hook_op_array_compile();
    assert_eq!(b.opts(), (true, true, true));
}

#[test]
fn builder_hooks_idempotent() {
    let b = builder().hook_statements().hook_statements();
    assert_eq!(b.opts(), (false, true, false));
}

#[test]
fn finish_hands_back_the_module_and_the_choices() {
    let (module, config) = ZendExtensionBuilder::new("module", make_handler as fn() -> NoopHandler)
        .hook_fcalls()
        .finish();
    assert_eq!(module, "module");
    assert!(config.hook_fcalls && !config.hook_statements && !config.hook_op_array);
    assert_eq!(compile_flags_for(&config), ZEND_COMPILE_EXTENDED_FCALL);
    let _handler: NoopHandler = (config.factory)();
}

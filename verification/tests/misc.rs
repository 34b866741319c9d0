use ext_php_rs::types::callable_channel::{CallableTarget, ClosureId};
use ext_php_rs::types::object::{PropertyQuery, ZendObject, IS_OBJ_LAZY_PROXY, IS_OBJ_LAZY_UNINITIALIZED};
use ext_php_rs::zend::cleanup::CleanupStack;
use ext_php_rs::types::zval::Zval;
use ext_php_rs::zend::observer::{ExceptionInfo, ExceptionObserver, ExecuteData, FcallInfo, FcallObserver};

#[test]
fn test_fcall_info_empty() {
    let info = FcallInfo::empty();
    assert!(info.function_name.is_none());
    assert!(info.class_name.is_none());
    assert!(info.filename.is_none());
    assert_eq!(info.lineno, 0);
    assert!(!info.is_internal);
}

struct TestExceptionObserver;

impl ExceptionObserver for TestExceptionObserver {
    fn on_exception(&self, _exception: &ExceptionInfo) {}
}

#[test]
fn test_exception_info_fields() {
    let info = ExceptionInfo {
        class_name: "RuntimeException".to_string(),
        message: Some("Test error".to_string()),
        code: 42,
        file: Some("/path/to/file.php".to_string()),
        line: 100,
    };
    assert_eq!(info.class_name, "RuntimeException");
    assert_eq!(info.message, Some("Test error".to_string()));
    assert_eq!(info.code, 42);
    assert_eq!(info.file, Some("/path/to/file.php".to_string()));
    assert_eq!(info.line, 100);
}

#[test]
fn exception_observer_test_observer_trait_impl() {
    let observer = TestExceptionObserver;
    let info = ExceptionInfo { class_name: "Exception".to_string(), message: None, code: 0, file: None, line: 0 };
    observer.on_exception(&info);
}

#[test]
fn test_callable_target_debug() {
    let func = CallableTarget::Function("test".to_string());
    let closure = CallableTarget::Closure(ClosureId(1));
    let _ = format!("{func:?}");
    let _ = format!("{closure:?}");
}

#[test]
fn closure_id_round_trips() {
    assert_eq!(ClosureId::from_u64(77).as_u64(), 77);
}

#[test]
fn object_hash_and_lazy_flags() {
    let o = ZendObject { handle: 0x2a, extra_flags: 0 };
    assert_eq!(o.get_id(), 42);
    assert_eq!(o.hash(), "000000000000002a0000000000000000");
    assert!(!o.is_lazy());
    assert!(!o.is_lazy_initialized());
    let ghost = ZendObject { handle: 1, extra_flags: IS_OBJ_LAZY_UNINITIALIZED };
    assert!(ghost.is_lazy() && ghost.is_lazy_ghost() && !ghost.is_lazy_proxy());
    assert!(!ghost.is_lazy_initialized());
    let proxy = ZendObject { handle: 1, extra_flags: IS_OBJ_LAZY_PROXY };
    assert!(proxy.is_lazy_proxy() && !proxy.is_lazy_ghost() && proxy.is_lazy_initialized());
}

#[test]
fn normal_drop_pops_entry() {
    let mut stack: CleanupStack<u8> = CleanupStack::new();
    let index = stack.push(1);
    assert_eq!(stack.depth(), 1);
    stack.release(index);
    assert_eq!(stack.depth(), 0);
}

#[test]
fn out_of_order_drop_drains_once_newer_guard_goes() {
    let mut stack: CleanupStack<u8> = CleanupStack::new();
    let older = stack.push(1);
    let newer = stack.push(2);
    stack.release(older);
    assert_eq!(stack.depth(), 2);
    stack.release(newer);
    assert_eq!(stack.depth(), 0);
}

#[test]
fn cleanups_run_newest_first() {
    let mut stack: CleanupStack<u8> = CleanupStack::new();
    let _ = stack.push(1);
    let _ = stack.push(2);
    assert_eq!(stack.drain_above(0), vec![2, 1]);
    assert_eq!(stack.depth(), 0);
}

#[test]
fn into_inner_releases_entry() {
    let mut stack: CleanupStack<u8> = CleanupStack::new();
    let index = stack.push(7);
    stack.release(index);
    assert_eq!(stack.depth(), 0);
    assert_eq!(stack.drain_above(0), Vec::<u8>::new());
}

#[test]
fn cleanups_above_depth_spare_outer_guard() {
    let mut stack: CleanupStack<u8> = CleanupStack::new();
    let outer = stack.push(1);
    let depth = stack.depth();
    let _inner = stack.push(2);
    assert_eq!(stack.drain_above(depth), vec![2]);
    assert_eq!(stack.depth(), 1);
    stack.release(outer);
    assert_eq!(stack.depth(), 0);
}

struct TestObserver {
    observe_all: bool,
}

impl FcallObserver for TestObserver {
    fn should_observe(&self, _info: &FcallInfo) -> bool {
        self.observe_all
    }

    fn begin(&self, _execute_data: &ExecuteData) {}

    fn end(&self, _execute_data: &ExecuteData, _retval: Option<&Zval>) {}
}

#[test]
fn observer_test_observer_trait_impl() {
    let observer = TestObserver { observe_all: true };
    let info = FcallInfo::empty();
    assert!(observer.should_observe(&info));

    let observer = TestObserver { observe_all: false };
    assert!(!observer.should_observe(&info));
}

#[test]
fn property_queries_have_the_engine_codes() {
    assert_eq!(PropertyQuery::Isset.as_raw(), 0);
    assert_eq!(PropertyQuery::NotEmpty.as_raw(), 1);
    assert_eq!(PropertyQuery::Exists.as_raw(), 2);
}

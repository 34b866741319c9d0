use ext_php_rs::zend::module_globals::{ModuleGlobal, ModuleGlobals};
use std::sync::atomic::{AtomicUsize, Ordering};

#[derive(Default)]
struct TestGlobals {
    value: i32,
    initialized: bool,
}

impl ModuleGlobal for TestGlobals {
    fn ginit(&mut self) {
        self.initialized = true;
        self.value = 42;
    }

    fn gshutdown(&mut self) {
        self.initialized = false;
    }
}

#[test]
fn new_storage_holds_nothing() {
    let globals: ModuleGlobals<TestGlobals> = ModuleGlobals::new();
    assert!(!globals.initialized());
    let globals: ModuleGlobals<TestGlobals> = ModuleGlobals::default();
    assert!(!globals.initialized());
}

#[test]
fn ginit_callback_sets_up_default_then_ginit() {
    let mut globals: ModuleGlobals<TestGlobals> = ModuleGlobals::new();
    globals.ginit_callback();
    assert!(globals.initialized());
    assert!(globals.get().initialized);
    assert_eq!(globals.get().value, 42);
    globals.gshutdown_callback();
    assert!(!globals.initialized());
}

#[test]
fn get_mut_changes_the_globals() {
    let mut globals: ModuleGlobals<TestGlobals> = ModuleGlobals::new();
    globals.ginit_callback();
    globals.get_mut().value = 99;
    assert_eq!(globals.get().value, 99);
    globals.gshutdown_callback();
}

static SHUTDOWNS: AtomicUsize = AtomicUsize::new(0);

#[derive(Default)]
struct Counted;

impl ModuleGlobal for Counted {
    fn gshutdown(&mut self) {
        SHUTDOWNS.fetch_add(1, Ordering::SeqCst);
    }
}

#[test]
fn gshutdown_runs_once_per_setup() {
    let mut globals: ModuleGlobals<Counted> = ModuleGlobals::new();
    globals.gshutdown_callback();
    assert_eq!(SHUTDOWNS.load(Ordering::SeqCst), 0);
    globals.ginit_callback();
    globals.gshutdown_callback();
    globals.gshutdown_callback();
    assert_eq!(SHUTDOWNS.load(Ordering::SeqCst), 1);
}

#[derive(Default)]
struct ZstGlobals;
impl ModuleGlobal for ZstGlobals {}

#[test]
fn zst_size_is_zero() {
    assert_eq!(std::mem::size_of::<ZstGlobals>(), 0);
}

#[test]
fn ginit_callback_initializes() {
    let mut storage: ModuleGlobals<TestGlobals> = ModuleGlobals::new();
    storage.ginit_callback();
    let globals = storage.get();
    assert!(globals.initialized);
    assert_eq!(globals.value, 42);
    storage.gshutdown_callback();
}

#[test]
fn gshutdown_callback_cleans_up() {
    let mut storage: ModuleGlobals<TestGlobals> = ModuleGlobals::new();
    storage.ginit_callback();
    storage.gshutdown_callback();
    assert!(!storage.initialized());
}

use ext_php_rs::zend::error_observer::{dispatch_error, error_info, ErrorInfo, ErrorObserver, ErrorType};
use std::cell::Cell;

struct TestErrorObserver {
    observe_all: bool,
}

impl ErrorObserver for TestErrorObserver {
    fn should_observe(&self, _error_type: ErrorType) -> bool {
        self.observe_all
    }

    fn on_error(&self, _error: &ErrorInfo) {}
}

#[test]
fn test_error_type_bitflags() {
    assert!(ErrorType::FATAL().contains(ErrorType::ERROR()));
    assert!(ErrorType::FATAL().contains(ErrorType::PARSE()));
    assert!(!ErrorType::FATAL().contains(ErrorType::WARNING()));
    assert!(!ErrorType::FATAL().contains(ErrorType::NOTICE()));
}

#[test]
fn test_error_type_all() {
    assert!(ErrorType::ALL().contains(ErrorType::ERROR()));
    assert!(ErrorType::ALL().contains(ErrorType::WARNING()));
    assert!(ErrorType::ALL().contains(ErrorType::NOTICE()));
    assert!(ErrorType::ALL().contains(ErrorType::DEPRECATED()));
}

#[test]
fn error_observer_test_observer_trait_impl() {
    let observer = TestErrorObserver { observe_all: true };
    assert!(observer.should_observe(ErrorType::ERROR()));

    let observer = TestErrorObserver { observe_all: false };
    assert!(!observer.should_observe(ErrorType::ERROR()));
}

#[test]
fn test_error_type_from_bits() {
    let error_type = ErrorType::from_bits_truncate(1);
    assert_eq!(error_type, ErrorType::ERROR());

    let error_type = ErrorType::from_bits_truncate(2);
    assert_eq!(error_type, ErrorType::WARNING());

    let error_type = ErrorType::from_bits_truncate(3);
    assert!(error_type.contains(ErrorType::ERROR()));
    assert!(error_type.contains(ErrorType::WARNING()));
}

#[test]
fn named_sets_have_the_php_values() {
    assert_eq!(ErrorType::ALL().bits(), 32767 & !2048);
    assert_eq!(ErrorType::FATAL().bits(), 1 | 4 | 16 | 64 | 256 | 4096);
    assert_eq!(ErrorType::CORE().bits(), 16 | 32);
    assert_eq!((ErrorType::FATAL() | ErrorType::WARNING()).bits(), ErrorType::FATAL().bits() | 2);
    assert!(ErrorType::STRICT().intersects(ErrorType::from_bits_truncate(-1)));
    assert_eq!(ErrorType::from_bits_truncate(0x10000).bits(), 0);
    assert!(ErrorType::from_bits_truncate(0x10000).is_empty());
}

struct Recorder {
    wanted: ErrorType,
    seen: Cell<Option<(i32, Option<String>, u32, String)>>,
}

impl ErrorObserver for Recorder {
    fn should_observe(&self, error_type: ErrorType) -> bool {
        self.wanted.contains(error_type)
    }

    fn on_error(&self, error: &ErrorInfo) {
        self.seen.set(Some((
            error.error_type.bits(),
            error.filename.map(str::to_string),
            error.lineno,
            error.message.to_string(),
        )));
    }
}

#[test]
fn dispatch_tells_only_an_interested_observer() {
    let obs = Recorder { wanted: ErrorType::FATAL(), seen: Cell::new(None) };
    assert!(!dispatch_error(&obs, 2, Some("a.php"), 3, Some("careful")));
    assert!(obs.seen.take().is_none());

    assert!(dispatch_error(&obs, 1 | 0x8000, Some("a.php"), 7, None));
    assert_eq!(obs.seen.take(), Some((1, Some("a.php".to_string()), 7, String::new())));
}

#[test]
fn error_info_truncates_and_defaults_the_message() {
    let info = error_info(0x7_0002, None, 9, Some("m"));
    assert_eq!(info.error_type, ErrorType::WARNING());
    assert_eq!(info.filename, None);
    assert_eq!(info.lineno, 9);
    assert_eq!(info.message, "m");
}

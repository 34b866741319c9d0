use ext_php_rs::embed::sapi_headers::{SapiHeader, SapiHeaders, SendHeadersResult};

#[test]
fn headers_keep_the_response_code() {
    assert_eq!(SapiHeaders::snapshot(404).http_response_code(), 404);
}

#[test]
fn header_splits_name_and_value() {
    let h = SapiHeader::snapshot(Some(b"Content-Type:  text/html ".to_vec()), 25);
    assert_eq!(h.as_str(), Some("Content-Type:  text/html "));
    assert_eq!(h.as_name_value(), Some(("Content-Type", "text/html")));
    assert_eq!(h.len(), 25);
    assert!(!h.is_empty());
}

#[test]
fn header_without_colon_or_text() {
    let h = SapiHeader::snapshot(Some(b"HTTP/1.1 200 OK".to_vec()), 15);
    assert_eq!(h.as_name_value(), None);
    let h = SapiHeader::snapshot(Some(vec![0xff, 0xfe]), 2);
    assert_eq!(h.as_str(), None);
    let h = SapiHeader::snapshot(None, 0);
    assert_eq!(h.as_str(), None);
    assert!(h.is_empty());
}

#[test]
fn send_headers_codes() {
    assert_eq!(SendHeadersResult::SentSuccessfully.into_c_int(), 1);
    assert_eq!(SendHeadersResult::DoSend.into_c_int(), 2);
    assert_eq!(SendHeadersResult::Failed.into_c_int(), 3);
}

#[test]
fn test_sapi_header_valid() {
    let header_bytes = b"Content-Type: text/html";
    let wrapper = SapiHeader::snapshot(Some(header_bytes.to_vec()), header_bytes.len());

    assert_eq!(wrapper.as_str(), Some("Content-Type: text/html"));
    assert_eq!(wrapper.as_name_value(), Some(("Content-Type", "text/html")));
    assert_eq!(wrapper.len(), 23);
    assert!(!wrapper.is_empty());
}

#[test]
fn test_sapi_header_null_pointer() {
    let wrapper = SapiHeader::snapshot(None, 0);

    assert_eq!(wrapper.as_str(), None);
    assert_eq!(wrapper.as_name_value(), None);
    assert!(wrapper.is_empty());
}

#[test]
fn test_sapi_header_no_colon() {
    let header_bytes = b"InvalidHeader";
    let wrapper = SapiHeader::snapshot(Some(header_bytes.to_vec()), header_bytes.len());

    assert_eq!(wrapper.as_str(), Some("InvalidHeader"));
    assert_eq!(wrapper.as_name_value(), None);
}

#[test]
fn test_sapi_headers_response_code() {
    let wrapper = SapiHeaders::snapshot(404);
    assert_eq!(wrapper.http_response_code(), 404);
}

#[test]
fn test_sapi_headers_debug_format() {
    let wrapper = SapiHeaders::snapshot(200);
    let debug = format!("{wrapper:?}");
    assert!(debug.contains("200"));
}

#[test]
fn null_header_buffer_preserves_declared_nonzero_length() {
    let wrapper = SapiHeader::snapshot(None, 12);

    assert_eq!(wrapper.as_str(), None);
    assert_eq!(wrapper.as_name_value(), None);
    assert_eq!(wrapper.len(), 12);
    assert!(!wrapper.is_empty());
}

#[test]
fn nonnull_zero_length_header_is_not_dereferenced() {
    let wrapper = SapiHeader::snapshot(Some(Vec::new()), 0);

    assert_eq!(wrapper.as_str(), None);
    assert_eq!(wrapper.len(), 0);
    assert!(wrapper.is_empty());
}

#[test]
fn invalid_utf8_header_has_no_string_view() {
    let header_bytes = [0xff, 0xfe];
    let wrapper = SapiHeader::snapshot(Some(header_bytes.to_vec()), header_bytes.len());

    assert_eq!(wrapper.as_str(), None);
    assert_eq!(wrapper.as_name_value(), None);
    assert_eq!(wrapper.len(), 2);
}

#[test]
fn snapshots_own_copied_source_data() {
    let header = {
        let mut header_bytes = b"X-Owned: original".to_vec();
        let header = SapiHeader::snapshot(Some(header_bytes.clone()), header_bytes.len());
        header_bytes.fill(b'X');
        drop(header_bytes);
        header
    };

    assert_eq!(header.as_str(), Some("X-Owned: original"));
    assert_eq!(header.as_name_value(), Some(("X-Owned", "original")));

    let headers = {
        let mut code = 201;
        let headers = SapiHeaders::snapshot(code);
        code = 500;
        assert_eq!(code, 500);
        headers
    };

    assert_eq!(headers.http_response_code(), 201);
}

#[test]
fn send_headers_result_mappings_are_stable() {
    assert_eq!(SendHeadersResult::SentSuccessfully.into_c_int(), 1);
    assert_eq!(SendHeadersResult::DoSend.into_c_int(), 2);
    assert_eq!(SendHeadersResult::Failed.into_c_int(), 3);
}

use ext_php_rs::embed::context::{RequestInfo, ServerContext};
use ext_php_rs::embed::worker::{startup_result, WorkerError};

struct Ctx {
    body: Vec<u8>,
    done: bool,
}

impl ServerContext for Ctx {
    fn init_request_info(&self, info: &mut RequestInfo) {
        info.request_method = Some("POST".to_string());
        info.content_length = self.body.len() as i64;
        info.proto_num = 1100;
    }

    fn read_post(&mut self, buf: &mut [u8]) -> usize {
        let n = buf.len().min(self.body.len());
        buf[..n].copy_from_slice(&self.body[..n]);
        self.body.drain(..n);
        n
    }

    fn read_cookies(&self) -> Option<&str> {
        None
    }

    fn finish_request(&mut self) -> bool {
        let was = self.done;
        self.done = true;
        !was
    }

    fn is_request_finished(&self) -> bool {
        self.done
    }
}

#[test]
fn a_server_context_fills_request_info() {
    let mut ctx = Ctx { body: b"a=1".to_vec(), done: false };
    let mut info = RequestInfo::default();
    assert_eq!(info.content_length, 0);
    assert!(info.request_method.is_none());
    ctx.init_request_info(&mut info);
    assert_eq!(info.request_method.as_deref(), Some("POST"));
    assert_eq!(info.content_length, 3);
    let mut buf = [0u8; 2];
    assert_eq!(ctx.read_post(&mut buf), 2);
    assert!(ctx.finish_request());
    assert!(!ctx.finish_request());
    assert!(ctx.is_request_finished());
}

#[test]
fn worker_startup_succeeds_only_on_success_code() {
    assert_eq!(startup_result(0), Ok(()));
    assert_eq!(startup_result(-1), Err(WorkerError::StartupFailed));
    assert_eq!(WorkerError::StartupFailed.message(), "Worker request startup failed");
}

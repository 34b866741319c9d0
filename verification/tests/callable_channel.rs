use ext_php_rs::types::callable_channel::{
    ArrayKey, CallableChannel, CallableResponse, CallableTarget, ClosureId, ClosureRegistry,
    ResolvedCall, SerializedValue,
};
use ext_php_rs::types::zval::{ZendHashTable, Zval};
use std::cell::RefCell;

#[test]
fn test_serialized_value_conversions() {
    let null: SerializedValue = ().into();
    assert!(matches!(null, SerializedValue::Null));

    let b: SerializedValue = true.into();
    assert!(matches!(b, SerializedValue::Bool(true)));

    let i: SerializedValue = 42i64.into();
    assert!(matches!(i, SerializedValue::Long(42)));

    let f = SerializedValue::Double(2.5f64.to_bits());
    assert!(matches!(f, SerializedValue::Double(f) if (f64::from_bits(f) - 2.5).abs() < f64::EPSILON));

    let s: SerializedValue = "hello".into();
    assert!(matches!(s, SerializedValue::String(ref s) if s == "hello"));
}

#[test]
fn test_channel_queue() {
    let mut channel: CallableChannel<()> = CallableChannel::new();

    assert!(!channel.has_pending());
    assert_eq!(channel.pending_count(), 0);

    let _id = channel.queue_call("test_func".to_string(), vec!["arg1".into()], ());

    assert!(channel.has_pending());
    assert_eq!(channel.pending_count(), 1);
}

#[test]
fn test_closure_id_is_send_sync() {
    fn assert_send_sync<T: Send + Sync>() {}
    assert_send_sync::<ClosureId>();
}

#[test]
fn test_channel_queue_closure() {
    let mut channel: CallableChannel<()> = CallableChannel::new();

    let closure_id = ClosureId(42);
    let _id = channel.queue_closure_call(closure_id, vec!["arg".into()], ());

    assert!(channel.has_pending());
    assert_eq!(channel.pending_count(), 1);

    let request = channel.next_request();
    assert!(request.is_some());
    let request = request.expect("request should exist");
    assert!(matches!(request.target, CallableTarget::Closure(id) if id == closure_id));
}

#[test]
fn serializing_keeps_plain_values_and_refuses_objects() {
    let mut zv = Zval::new();
    zv.set_long(5);
    assert!(matches!(SerializedValue::from_zval(&zv), Some(SerializedValue::Long(5))));
    zv.set_object(ext_php_rs::types::zval::ObjectHandle { id: 3 });
    assert!(SerializedValue::from_zval(&zv).is_none());
    zv.set_resource(9);
    assert!(SerializedValue::from_zval(&zv).is_none());
}

#[test]
fn arrays_round_trip_through_serialization() {
    let mut inner = ZendHashTable::new();
    inner.insert("x", 1i64).unwrap();
    let mut ht = ZendHashTable::new();
    ht.insert_at_index(7, "seven").unwrap();
    ht.insert("inner", inner).unwrap();
    let mut zv = Zval::new();
    zv.set_hashtable(ht);

    let s = SerializedValue::from_zval(&zv).expect("plain array serializes");
    match &s {
        SerializedValue::Array(items) => {
            assert_eq!(items.len(), 2);
            assert!(matches!(items[0].0, ArrayKey::Int(7)));
            assert!(matches!(items[0].1, SerializedValue::String(ref t) if t == "seven"));
            assert!(matches!(items[1].0, ArrayKey::String(ref k) if k == "inner"));
        },
        _ => panic!("an array serializes as an array"),
    }
    let back = s.to_zval().unwrap();
    let table = back.array().unwrap();
    assert_eq!(table.get_index(7).and_then(|v| v.str()), Some("seven"));
    assert_eq!(
        table.get("inner").and_then(|v| v.array()).and_then(|t| t.get("x")).and_then(|v| v.long()),
        Some(1)
    );
}

#[test]
fn a_later_pair_overrides_an_earlier_key() {
    let s = SerializedValue::Array(vec![
        (ArrayKey::Int(1), SerializedValue::Long(10)),
        (ArrayKey::Int(1), SerializedValue::Long(20)),
    ]);
    let z = s.to_zval().unwrap();
    let t = z.array().unwrap();
    assert_eq!(t.len(), 1);
    assert_eq!(t.get_index(1).and_then(|v| v.long()), Some(20));
}

#[test]
fn registry_hands_out_fresh_ids() {
    let mut reg = ClosureRegistry::new();
    assert!(reg.is_empty());
    let a = reg.register_owned(Zval::new(), true).unwrap();
    let b = reg.register_owned(Zval::new(), true).unwrap();
    assert_eq!(a.as_u64(), 1);
    assert_eq!(b.as_u64(), 2);
    assert!(reg.register_owned(Zval::new(), false).is_none());
    assert_eq!(reg.len(), 2);
    assert!(reg.unregister(a));
    assert!(!reg.unregister(a));
    assert!(!reg.contains(a));
    assert!(reg.contains(b));
    let c = reg.register_owned(Zval::new(), true).unwrap();
    assert_eq!(c.as_u64(), 3);
    match reg.lookup(ClosureId(42)) {
        Err(msg) => assert_eq!(msg, "Closure ClosureId(42) not found in registry"),
        Ok(_) => panic!("42 was never registered"),
    }
}

#[test]
fn process_pending_runs_requests_in_order() {
    let mut channel: CallableChannel<u32> = CallableChannel::new();
    let mut callable = Zval::new();
    callable.set_long(100);
    let cid = channel.registry_mut().register_owned(callable, true).unwrap();
    let first = channel.queue_call("double".to_string(), vec![21i64.into()], 1);
    let second = channel.queue_closure_call(cid, vec![], 2);
    let third = channel.queue_closure_call(ClosureId(99), vec![], 3);
    let fourth = channel.queue_call("object".to_string(), vec![], 4);
    assert_eq!((first, second, third, fourth), (1, 2, 3, 4));

    let call = |target: ResolvedCall, args: &Vec<Zval>| -> Result<Zval, String> {
        match target {
            ResolvedCall::Function("double") => {
                let mut z = Zval::new();
                z.set_long(args[0].long().unwrap() * 2);
                Ok(z)
            },
            ResolvedCall::Function(_) => {
                let mut z = Zval::new();
                z.set_object(ext_php_rs::types::zval::ObjectHandle { id: 1 });
                Ok(z)
            },
            ResolvedCall::Closure(z) => {
                let mut out = Zval::new();
                out.set_long(z.long().unwrap() + 1);
                Ok(out)
            },
        }
    };
    let sent: RefCell<Vec<(u32, CallableResponse)>> = RefCell::new(Vec::new());
    let send = |reply: u32, resp: CallableResponse| sent.borrow_mut().push((reply, resp));
    assert_eq!(channel.process_pending(&call, &send), 4);
    assert!(!channel.has_pending());

    let sent = sent.into_inner();
    assert_eq!(sent.len(), 4);
    assert_eq!(sent.iter().map(|(r, resp)| (*r, resp.id)).collect::<Vec<_>>(), vec![(1, 1), (2, 2), (3, 3), (4, 4)]);
    assert!(matches!(sent[0].1.result, Ok(SerializedValue::Long(42))));
    assert!(matches!(sent[1].1.result, Ok(SerializedValue::Long(101))));
    assert!(matches!(sent[2].1.result, Err(ref m) if m == "Closure ClosureId(99) not found in registry"));
    assert!(
        matches!(sent[3].1.result, Err(ref m) if m == "Failed to serialize return value (objects/resources not supported)")
    );
}

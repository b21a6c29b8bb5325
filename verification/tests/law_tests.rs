use nova_go::runtime::value::{ChannelCloseError, ChannelReceiveResult, ChannelSendError, ChannelValue, Heap, MapKey, MapValue, SliceValue, StringValue, Value};

#[test]
fn map_read_after_write_finds_value_and_keeps_other_keys() {
    let mut heap = Heap::new();
    let map = MapValue::with_hint(&mut heap, 2);
    map.insert(&mut heap, MapKey::Integer(1), Value::Integer(10)).expect("writable map");
    map.insert(&mut heap, MapKey::Integer(2), Value::Integer(20)).expect("writable map");
    map.insert(&mut heap, MapKey::Integer(1), Value::Integer(11)).expect("writable map");
    assert_eq!(map.get(&heap, &MapKey::Integer(1)), Some(Value::Integer(11)));
    assert_eq!(map.get(&heap, &MapKey::Integer(2)), Some(Value::Integer(20)));
    assert_eq!(map.get(&heap, &MapKey::Integer(3)), None);
    assert_eq!(map.len(&heap), 2);
}

#[test]
fn map_read_after_delete_is_absent_and_keeps_other_keys() {
    let mut heap = Heap::new();
    let map = MapValue::with_hint(&mut heap, 2);
    map.insert(&mut heap, MapKey::String(StringValue::from("a")), Value::Integer(1)).expect("writable map");
    map.insert(&mut heap, MapKey::String(StringValue::from("b")), Value::Integer(2)).expect("writable map");
    map.remove(&mut heap, &MapKey::String(StringValue::from("a")));
    assert_eq!(map.get(&heap, &MapKey::String(StringValue::from("a"))), None);
    assert_eq!(map.get(&heap, &MapKey::String(StringValue::from("b"))), Some(Value::Integer(2)));
}

#[test]
fn window_writes_are_seen_through_the_original_slice() {
    let mut heap = Heap::new();
    let base = SliceValue::new(&mut heap, vec![Value::Integer(1), Value::Integer(2), Value::Integer(3), Value::Integer(4)]);
    let window = base.slice(1, 3).expect("window within capacity");
    window.set(&mut heap, 1, Value::Integer(9)).expect("visible element");
    assert_eq!(
        base.visible_elements(&heap),
        vec![Value::Integer(1), Value::Integer(2), Value::Integer(9), Value::Integer(4)]
    );
    assert_eq!(window.get(&heap, 1), Some(Value::Integer(9)));
    assert!(window.set(&mut heap, 2, Value::Integer(0)).is_err());
}

#[test]
fn trimming_undoes_concatenation() {
    let a = StringValue::from("nova");
    let b = StringValue::from("-go");
    let joined = a.concat(&b);
    assert_eq!(joined.trim_prefix(&a).expect("always succeeds"), b);
    assert_eq!(joined.trim_suffix(&b).expect("always succeeds"), a);
    assert_eq!(joined.trim_prefix(&b).expect("always succeeds"), joined);
}

#[test]
fn channels_hand_values_out_in_order() {
    let mut heap = Heap::new();
    let channel = ChannelValue::with_capacity(&mut heap, 3);
    for value in [4, 5, 6] {
        channel.send(&mut heap, Value::Integer(value)).expect("room in the buffer");
    }
    for value in [4, 5, 6] {
        assert_eq!(channel.receive(&mut heap), Ok(ChannelReceiveResult::Value(Value::Integer(value))));
    }
}

#[test]
fn string_to_bytes_and_back_gives_the_string() {
    let mut heap = Heap::new();
    for text in ["", "nova", "caf\u{e9} go"] {
        let string = StringValue::from(text);
        let bytes = SliceValue::from_string(&mut heap, &string);
        let back = StringValue::from_byte_slice(&bytes, &heap).expect("only bytes");
        assert_eq!(back, string);
        assert_eq!(bytes.visible_elements(&heap).len(), text.len());
    }
}

#[test]
fn closing_a_channel_shows_through_a_copy_of_its_handle() {
    let mut heap = Heap::new();
    let channel = ChannelValue::with_capacity(&mut heap, 3);
    let copy = channel.clone();
    channel.send(&mut heap, Value::Integer(1)).expect("room in the buffer");
    channel.send(&mut heap, Value::Integer(2)).expect("room in the buffer");
    assert_eq!(channel.close(&mut heap), Ok(()));
    assert_eq!(copy.send(&mut heap, Value::Integer(3)), Err(ChannelSendError::Closed));
    assert_eq!(copy.close(&mut heap), Err(ChannelCloseError::Closed));
    assert_eq!(copy.len(&heap), 2);
    assert_eq!(copy.receive(&mut heap), Ok(ChannelReceiveResult::Value(Value::Integer(1))));
    assert_eq!(channel.receive(&mut heap), Ok(ChannelReceiveResult::Value(Value::Integer(2))));
    assert_eq!(copy.receive(&mut heap), Ok(ChannelReceiveResult::ClosedEmpty));
    assert_eq!(channel.receive(&mut heap), Ok(ChannelReceiveResult::ClosedEmpty));
    assert_eq!(channel.send(&mut heap, Value::Integer(4)), Err(ChannelSendError::Closed));
}

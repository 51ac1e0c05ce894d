use rux::action::Action;

#[test]
fn mux_decode_encode_new_action() {
    let data = Action::encode(Action::New(u64::MAX));

    if let Action::New(fd) = Action::decode(data) {
        assert!(fd == u64::MAX);
    } else {
        panic!("action is not Action::New")
    }
}

#[test]
fn mux_decode_encode_notify_action() {
    let data = Action::encode(Action::Notify(10110, 0));

    if let Action::Notify(data, fd) = Action::decode(data) {
        assert!(data == 10110);
        assert!(fd == 0);
    } else {
        panic!("action is not Action::Notify")
    }
}

#[test]
fn action_decode_encode_new_action() {
    let data = Action::encode(Action::New(u64::MAX));

    if let Action::New(fd) = Action::decode(data) {
        assert!(fd == u64::MAX);
    } else {
        panic!("action is not Action::New")
    }
}

#[test]
fn action_decode_encode_notify_action() {
    let data = Action::encode(Action::Notify(10110, 0));

    if let Action::Notify(data, fd) = Action::decode(data) {
        assert!(data == 10110);
        assert!(fd == 0);
    } else {
        panic!("action is not Action::Notify")
    }
}

#[test]
fn protocol_decode_encode_new_action() {
    let data = Action::encode(Action::New(u64::MAX));

    if let Action::New(fd) = Action::decode(data) {
        assert!(fd == u64::MAX);
    } else {
        panic!("action is not Action::New")
    }
}

#[test]
fn protocol_decode_encode_notify_action() {
    let data = Action::encode(Action::Notify(10110, 0));

    if let Action::Notify(data, fd) = Action::decode(data) {
        assert!(data == 10110);
        assert!(fd == 0);
    } else {
        panic!("action is not Action::Notify")
    }
}

#[test]
fn notify_round_trip_at_field_bounds() {
    let data = Action::encode(Action::Notify(0xffff, 0x7fff_ffff));

    if let Action::Notify(slot, fd) = Action::decode(data) {
        assert_eq!(slot, 0xffff);
        assert_eq!(fd, 0x7fff_ffff);
    } else {
        panic!("action is not Action::Notify")
    }
}

#[test]
fn notify_encoding_is_exact() {
    let data = Action::encode(Action::Notify(1, 1));
    assert_eq!(data, (1u64 << 31) | (1u64 << 15));

    assert_eq!(Action::encode(Action::Notify(0, 0)), 0);
    assert_eq!(Action::encode(Action::New(42)), 42);
}

#[test]
fn raw_token_with_clear_low_bits_decodes_as_notify() {
    // The tag is the low fifteen bits: a raw token that happens to leave
    // them all clear is indistinguishable from a Notify token.
    if let Action::Notify(slot, fd) = Action::decode(0x8000) {
        assert_eq!(slot, 1);
        assert_eq!(fd, 0);
    } else {
        panic!("action is not Action::Notify")
    }
}

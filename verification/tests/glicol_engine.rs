fn _assert_send<T: Send>() {}

#[test]
fn _check_glicol_engine_is_send() {
    _assert_send::<glicol::Engine<128>>();
}

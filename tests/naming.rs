use instance_pipe::{choose_addressing, socket_name, Addressing};

#[test]
fn socket_name_is_stable() {
    let client_side = socket_name("foo");
    let server_side = socket_name("foo");
    assert_eq!(client_side, server_side);
    assert_eq!(client_side, "/tmp/foo");
    assert_ne!(socket_name("foo"), socket_name("bar"));
}

#[test]
fn addressing_prefers_namespace() {
    assert_eq!(choose_addressing(true, true), Some(Addressing::Namespaced));
    assert_eq!(choose_addressing(true, false), Some(Addressing::Namespaced));
    assert_eq!(choose_addressing(false, true), Some(Addressing::Filesystem));
    assert_eq!(choose_addressing(false, false), None);
}

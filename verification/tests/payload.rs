use rust_hpc_communication_test::payload::{random_message, MESSAGE_SEED};

#[test]
fn message_has_the_length_asked_for() {
    assert_eq!(MESSAGE_SEED, 42);
    for len in [0u32, 1, 13, 1024, 70_000] {
        assert_eq!(random_message(MESSAGE_SEED, len).len(), len as usize);
    }
}

#[test]
fn one_seed_gives_one_message() {
    assert_eq!(random_message(42, 256), random_message(42, 256));
    assert_eq!(random_message(42, 16), random_message(42, 256)[..16]);
}

#[test]
fn message_is_not_constant() {
    let message = random_message(42, 256);
    assert!(message.iter().any(|b| *b != message[0]));
    assert_ne!(random_message(42, 256), random_message(43, 256));
}

use m64prs::socket_id::{endpoint_socket, socket_for_bytes, socket_for_random, socket_id_for};

fn is_well_formed_id(id: &str) -> bool {
    match id.strip_prefix("tasinput-") {
        Some(digits) => {
            digits.len() >= 16
                && digits.len() <= 32
                && digits.chars().all(|c| c.is_ascii_digit() || ('A'..='F').contains(&c))
        }
        None => false,
    }
}

#[test]
fn socket_id_of_zero_is_padded() {
    assert_eq!(socket_id_for(0), "tasinput-0000000000000000");
}

#[test]
fn socket_id_small_value() {
    assert_eq!(socket_id_for(0x1234ABCD), "tasinput-000000001234ABCD");
}

#[test]
fn socket_id_sixteen_digits_exactly() {
    assert_eq!(socket_id_for(0xFEDC_BA98_7654_3210), "tasinput-FEDCBA9876543210");
}

#[test]
fn socket_id_beyond_sixteen_digits() {
    assert_eq!(socket_id_for(1u128 << 64), "tasinput-10000000000000000");
}

#[test]
fn socket_id_of_max_value() {
    assert_eq!(socket_id_for(u128::MAX), format!("tasinput-{}", "F".repeat(32)));
}

#[test]
fn socket_id_matches_std_formatting() {
    let values: [u128; 8] = [
        0,
        1,
        15,
        16,
        0xABCDEF,
        0x0123_4567_89AB_CDEF_0011,
        u128::MAX - 1,
        0x8000_0000_0000_0000_0000_0000_0000_0000,
    ];
    for v in values {
        assert_eq!(socket_id_for(v), format!("tasinput-{:016X}", v));
    }
}

#[test]
fn socket_ids_of_distinct_values_differ() {
    assert_ne!(socket_id_for(0x10), socket_id_for(0x100));
    assert_ne!(socket_id_for(1u128 << 64), socket_id_for(1));
    assert_ne!(socket_id_for(0xA), socket_id_for(0xB));
}

#[test]
fn socket_for_bytes_reads_native_order() {
    let bytes: [u8; 16] = [0x34, 0x12, 0, 0, 0, 0, 0, 0, 0, 0, 0, 0, 0, 0, 0, 0xAB];
    let socket = socket_for_bytes(bytes).expect("no NUL in an identifier");
    let expected = format!("tasinput-{:016X}", u128::from_ne_bytes(bytes));
    assert_eq!(socket.id(), &expected);
    let (id, _name) = socket.into_parts();
    assert_eq!(id, expected);
}

#[test]
fn socket_for_random_passes_the_error_on() {
    let err = std::io::Error::new(std::io::ErrorKind::Other, "no entropy");
    match socket_for_random(Err(err)) {
        Err(e) => {
            assert_eq!(e.kind(), std::io::ErrorKind::Other);
            assert_eq!(e.to_string(), "no entropy");
        }
        Ok(_) => panic!("expected the random source's error"),
    }
}

#[test]
fn socket_for_random_uses_the_bytes() {
    let bytes = [7u8; 16];
    let socket = socket_for_random(Ok(bytes)).expect("bytes give a socket");
    assert_eq!(socket.id(), &format!("tasinput-{:016X}", u128::from_ne_bytes(bytes)));
}

#[test]
fn endpoint_socket_gives_a_well_formed_id() {
    let socket = endpoint_socket().expect("the OS random source and the name conversion");
    assert!(is_well_formed_id(socket.id()), "{}", socket.id());
}

#[test]
fn endpoint_sockets_differ() {
    let a = endpoint_socket().expect("a socket");
    let b = endpoint_socket().expect("a socket");
    assert_ne!(a.id(), b.id());
}

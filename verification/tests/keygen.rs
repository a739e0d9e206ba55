use serial_key::{check_key, check_key_checksum, get_checksum, get_key_byte, make_key, Status};

#[test]
fn test_bytes() {
    let seed = 0xA2791717;
    assert_eq!(get_key_byte(&seed, 24, 3, 200), "7D");
    assert_eq!(get_key_byte(&seed, 10, 0, 56), "7A");
    assert_eq!(get_key_byte(&seed, 1, 2, 91), "CA");
    assert_eq!(get_key_byte(&seed, 7, 1, 100), "2E");
}

#[test]
fn test_get_checksum() {
    let key = "A279-1717-7D7A-CA2E-7154";
    assert_eq!(get_checksum(key), "49DA");

    let second_key = "3ABC-9099-E39D-4E65-E060";
    assert_eq!(get_checksum(second_key), "82F0");
}

#[test]
fn test_make_key() {
    let seed = 0x3abc9099;
    let num_bytes = 4;
    let byte_shifts = vec![(24, 3, 200), (10, 0, 56), (1, 2, 91), (7, 1, 100)];
    assert_eq!("3ABC-9099-E39D-4E65-E060", make_key(&seed, &num_bytes, &byte_shifts));
}

#[test]
fn test_check_key() {
    let key = "3ABC-9099-E39D-4E65-E060";
    let blacklist = vec![];
    let num_bytes = 4;
    let byte_shifts = vec![(24, 3, 200), (10, 0, 56), (1, 2, 91), (7, 1, 100)];
    assert_eq!(check_key(&key, &blacklist, &num_bytes, &byte_shifts), Status::Good);

    let inconsistent_key = "3abC-9099-e39D-4E65-E060";
    assert_eq!(check_key(&inconsistent_key, &blacklist, &num_bytes, &byte_shifts), Status::Good);

    let wrong_checksum = "3ABC-9099-E39D-4E65-E061";
    assert_eq!(check_key(&wrong_checksum, &blacklist, &num_bytes, &byte_shifts), Status::Invalid);

    let second_fake_key = "3ABC-9099-E49D-4E65-E761";
    assert_eq!(check_key(&second_fake_key, &blacklist, &num_bytes, &byte_shifts), Status::Phony);

    let third_fake_key = "3ABC-9199-E39D-4E65-EB61";
    assert_eq!(check_key(&third_fake_key, &blacklist, &num_bytes, &byte_shifts), Status::Phony);

    let invalid_key = "BC-9099-E39D-4E65-E061";
    assert_eq!(check_key(&invalid_key, &blacklist, &num_bytes, &byte_shifts), Status::Invalid);

    let second_invalid_key = "3AXC-9099-E39D-4E65-E061";
    assert_eq!(check_key(&second_invalid_key, &blacklist, &num_bytes, &byte_shifts), Status::Invalid);
}

#[test]
fn test_blacklist() {
    let key = "3ABC-9099-E39D-4E65-E060";
    let blacklist = vec!["3abc9099".to_string()];
    let num_bytes = 4;
    let byte_shifts = vec![(24, 3, 200), (10, 0, 56), (1, 2, 91), (7, 1, 100)];

    assert_eq!(check_key(&key, &blacklist, &num_bytes, &byte_shifts), Status::Blacklisted);
}

#[test]
fn checksum_check_accepts_the_made_key() {
    let byte_shifts = vec![(24, 3, 200), (10, 0, 56), (1, 2, 91), (7, 1, 100)];
    let key = make_key(&0x3abc9099, &4, &byte_shifts);
    assert!(check_key_checksum(&key, &4));
    assert!(!check_key_checksum(&key, &5));
}

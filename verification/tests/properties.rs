use serial_key::chance::draw_positions;
use serial_key::hex::{parse_hex, push_hex};
use serial_key::pattern::holds_seed_digits;
use serial_key::verify::draw_sample;
use serial_key::{
    check_key, check_key_checksum, check_key_with_sample, create_hash, derive_seed, get_checksum,
    get_key_byte, make_key, normalize_key, shifts_usable, Config, Status,
};

fn shifts() -> Vec<(i16, i16, i16)> {
    vec![(24, 3, 200), (10, 0, 56), (1, 2, 91), (7, 1, 100)]
}

fn longer_shifts() -> Vec<(i16, i16, i16)> {
    vec![
        (24, 3, 200),
        (10, 0, 56),
        (1, 2, 91),
        (7, 1, 100),
        (3, 5, 7),
        (250, 254, 0),
        (13, 2, 255),
        (32767, 32767, -1),
    ]
}

#[test]
fn key_byte_takes_the_shift_amounts_modulo() {
    assert_eq!(get_key_byte(&0x3abc9099, 32767, 32767, -1), "12");
    assert_eq!(get_key_byte(&0x3abc9099, 24 + 25, 3 + 3, 200), get_key_byte(&0x3abc9099, 24, 3, 200));
}

#[test]
fn key_byte_keeps_the_sign_of_the_seed() {
    assert_eq!(get_key_byte(&-1, 1, 1, -32768), "FF");
    assert_eq!(get_key_byte(&i64::MIN, 24, 2, 0), "00");
}

#[test]
fn checksum_of_nothing_is_the_start_state() {
    assert_eq!(get_checksum(""), "56AF");
}

#[test]
fn checksum_of_one_character() {
    assert_eq!(get_checksum("A"), "47F0");
}

#[test]
fn checksum_depends_on_the_order() {
    assert_eq!(get_checksum("AB"), "7A33");
    assert_eq!(get_checksum("BA"), "7B33");
    assert_ne!(get_checksum("AB"), get_checksum("BA"));
}

#[test]
fn checksum_of_wide_characters_stays_in_sixteen_bits() {
    assert_eq!(get_checksum("\u{ff}"), "06AF");
    assert_eq!(get_checksum("\u{100}"), "07B0");
    assert_eq!(get_checksum("\u{1F600}"), "FCB0");
    assert_eq!(get_checksum("\u{ffff}\u{ffff}\u{ffff}"), "5FAC");
}

#[test]
fn make_key_for_three_bytes_ends_in_a_short_group() {
    assert_eq!(make_key(&0x3abc9099, &3, &shifts()), "3ABC-9099-E39D-4E55-F4");
}

#[test]
fn make_key_pads_a_small_seed_with_zeros() {
    assert_eq!(make_key(&0, &4, &shifts()), "0000-0000-C838-0000-F5D8");
    assert_eq!(make_key(&0xFFFF_FFFF, &4, &shifts()), "FFFF-FFFF-0000-A49B-FF93");
}

#[test]
fn make_key_writes_the_low_half_of_a_large_seed() {
    assert_eq!(make_key(&0x1_0000_0000, &4, &shifts()), "0000-0000-C838-0000-F5D8");
    assert_eq!(make_key(&0x7654_3210_3ABC_9099, &4, &shifts()), "3ABC-9099-E39D-4E65-E060");
    assert_eq!(make_key(&-1, &4, &shifts()), "FFFF-FFFF-0000-A49B-FF93");
    assert_eq!(make_key(&i64::MIN, &4, &shifts()), "0000-0000-C838-0000-F5D8");
}

#[test]
fn keys_for_large_seeds_are_good() {
    for seed in [0x1_0000_0000, 0x7654_3210_3ABC_9099, -1, i64::MIN, i64::MAX, -0x3ABC_9099] {
        let key = make_key(&seed, &4, &shifts());
        assert_eq!(key.len(), 24);
        assert_eq!(check_key(&key, &vec![], &4, &shifts()), Status::Good);
        assert_eq!(
            check_key_with_sample(&key, &vec![], &4, &shifts(), &vec![3, 2, 1, 0]),
            Status::Good
        );
    }
}

#[test]
fn make_key_uses_the_first_triples_only() {
    assert_eq!(make_key(&0x3abc9099, &0, &shifts()), "3ABC-9099-3585");
    assert_eq!(make_key(&0x3abc9099, &-3, &shifts()), "3ABC-9099-3585");
    assert_eq!(make_key(&0x3abc9099, &4, &longer_shifts()), "3ABC-9099-E39D-4E65-E060");
}

#[test]
fn make_key_for_eight_bytes() {
    assert_eq!(make_key(&0x3abc9099, &8, &longer_shifts()), "3ABC-9099-E39D-4E65-15BF-C212-0728");
}

#[test]
fn normalize_key_removes_dashes_and_raises_case() {
    assert_eq!(normalize_key("3abc-9099-e39d-4e65-e060"), "3ABC9099E39D4E65E060");
    assert_eq!(normalize_key("--a-b--"), "AB");
    assert_eq!(normalize_key(""), "");
    assert_eq!(normalize_key("x y_z!"), "X Y_Z!");
}

#[test]
fn normalize_key_uses_the_unicode_uppercase_form() {
    assert_eq!(normalize_key("stra\u{df}e"), "STRASSE");
    assert_eq!(normalize_key("\u{fb00}-\u{e9}"), "FF\u{c9}");
}

#[test]
fn checksum_check_ignores_case_and_dashes() {
    assert!(check_key_checksum("3ABC-9099-E39D-4E65-E060", &4));
    assert!(check_key_checksum("3abc9099e39d4e65e060", &4));
    assert!(check_key_checksum("-3-a-B-c-9099E39D4e65E06-0-", &4));
    assert!(check_key_checksum("3ABC9099E39D4E65E060", &4));
    assert!(!check_key_checksum("3ABC-9099-E39D-4E65-E061", &4));
    assert!(!check_key_checksum("3abc9099e39d4e65e061", &4));
}

#[test]
fn checksum_check_wants_the_exact_length() {
    assert!(!check_key_checksum("3ABC-9099-E39D-4E65-E060", &3));
    assert!(!check_key_checksum("3ABC-9099-E39D-4E65-E060", &5));
    assert!(!check_key_checksum("", &4));
    assert!(!check_key_checksum("", &-6));
    assert!(!check_key_checksum("F4", &-5));
    assert!(!check_key_checksum("3ABC-9099-E39D-4E65-E060", &127));
    assert!(!check_key_checksum("3ABC-9099-E39D-4E65-E060", &-128));
    assert!(check_key_checksum("3ABC-9099-3585", &0));
    assert!(check_key_checksum("56AF", &-4));
}

#[test]
fn checksum_check_counts_characters() {
    assert!(!check_key_checksum("\u{e9}ABC-9099-E39D-4E65-E06", &4));
    assert!(check_key_checksum("\u{fb00}\u{fb00}-\u{fb00}\u{fb00}-0000-a49b-\u{fb00}93", &4));
}

#[test]
fn changed_checksum_digit_fails_the_check() {
    let key = "3ABC9099E39D4E65E060";
    let digits = "0123456789ABCDEF";
    for at in 16..20 {
        for digit in digits.chars() {
            let changed: String =
                key.chars().enumerate().map(|(i, c)| if i == at { digit } else { c }).collect();
            assert_eq!(check_key_checksum(&changed, &4), changed == key);
        }
    }
}

#[test]
fn made_keys_are_good() {
    for num_bytes in 3..40i8 {
        let config = Config::new("secret", num_bytes, vec![]);
        for input in ["a", "b@example.com", "", "\u{e9}t\u{e9}"] {
            let seed = derive_seed(input, &config.hash);
            let key = make_key(&seed, &config.num_bytes, &config.byte_shifts);
            assert!(check_key_checksum(&key, &config.num_bytes));
            for _ in 0..5 {
                assert_eq!(
                    check_key(&key, &config.blacklist, &config.num_bytes, &config.byte_shifts),
                    Status::Good
                );
            }
        }
    }
}

#[test]
fn three_bytes_are_enough() {
    let key = make_key(&0x3abc9099, &3, &shifts());
    assert_eq!(check_key(&key, &vec![], &3, &shifts()), Status::Good);
    assert_eq!(check_key("3ABC-9099-E49D-4E40-E0", &vec![], &3, &shifts()), Status::Invalid);
}

#[test]
fn the_last_of_four_bytes_is_never_drawn() {
    for _ in 0..20 {
        assert_eq!(check_key("3ABC-9099-E39D-4E66-E161", &vec![], &4, &shifts()), Status::Good);
    }
}

#[test]
fn all_of_three_bytes_are_drawn() {
    for _ in 0..20 {
        assert_eq!(check_key("3ABC-9099-E39D-4F56-F5", &vec![], &3, &shifts()), Status::Phony);
        assert_eq!(check_key("3ABC-9099-E49D-4E5A-F5", &vec![], &3, &shifts()), Status::Phony);
        assert_eq!(check_key("3ABC-9099-E39D-4E55-F4", &vec![], &3, &shifts()), Status::Good);
    }
}

#[test]
fn fewer_than_three_bytes_are_invalid() {
    let two = make_key(&0x3abc9099, &2, &shifts());
    assert!(check_key_checksum(&two, &2));
    assert_eq!(check_key(&two, &vec![], &2, &shifts()), Status::Invalid);
    let none = make_key(&0x3abc9099, &0, &shifts());
    assert_eq!(check_key(&none, &vec![], &0, &shifts()), Status::Invalid);
    assert_eq!(check_key(&none, &vec![], &-1, &shifts()), Status::Invalid);
    assert_eq!(check_key("3ABC-9099-E39D-4E65-E060", &vec![], &2, &shifts()), Status::Invalid);
    assert_eq!(
        check_key_with_sample("3ABC-9099-E39D-4E65-E060", &vec![], &2, &shifts(), &vec![0]),
        Status::Invalid
    );
}

#[test]
fn blacklist_is_matched_in_any_case() {
    let key = "3abc-9099-E39D-4E65-E060";
    for entry in ["3abc9099", "3ABC9099", "3aBc9099"] {
        let blacklist = vec!["00000000".to_string(), entry.to_string()];
        assert_eq!(check_key(key, &blacklist, &4, &shifts()), Status::Blacklisted);
    }
    let others = vec!["3abc909".to_string(), "3abc-9099".to_string(), "".to_string()];
    assert_eq!(check_key(key, &others, &4, &shifts()), Status::Good);
}

#[test]
fn blacklist_comes_after_the_checksum_and_before_the_bytes() {
    let blacklist = vec!["3abc9099".to_string()];
    assert_eq!(check_key("3ABC-9099-E39D-4E65-E061", &blacklist, &4, &shifts()), Status::Invalid);
    assert_eq!(check_key("3ABC-9099-E49D-4E65-E761", &blacklist, &4, &shifts()), Status::Blacklisted);
    let odd = vec!["3axc9099".to_string()];
    assert_eq!(check_key("3AXC-9099-E39D-4E65-1676", &odd, &4, &shifts()), Status::Blacklisted);
}

#[test]
fn seed_that_is_no_number_is_phony() {
    assert_eq!(check_key("3AXC-9099-E39D-4E65-1676", &vec![], &4, &shifts()), Status::Phony);
    assert_eq!(
        check_key_with_sample("3AXC-9099-E39D-4E65-1676", &vec![], &4, &shifts(), &vec![]),
        Status::Phony
    );
}

#[test]
fn forged_byte_is_phony_where_it_is_looked_at() {
    let forged_first = "3ABC-9099-E49D-4E65-E761";
    let forged_last = "3ABC-9099-E39D-4E66-E161";
    let none = vec![];
    for sample in [vec![0], vec![1, 0], vec![2, 1, 0, 3], vec![3, 0]] {
        assert_eq!(
            check_key_with_sample(forged_first, &none, &4, &shifts(), &sample),
            Status::Phony
        );
    }
    for sample in [vec![], vec![1], vec![3, 2, 1]] {
        assert_eq!(
            check_key_with_sample(forged_first, &none, &4, &shifts(), &sample),
            Status::Good
        );
    }
    assert_eq!(check_key_with_sample(forged_last, &none, &4, &shifts(), &vec![3]), Status::Phony);
    assert_eq!(
        check_key_with_sample(forged_last, &none, &4, &shifts(), &vec![0, 1, 2]),
        Status::Good
    );
}

#[test]
fn forged_byte_without_a_new_checksum_is_invalid() {
    assert_eq!(check_key("3ABC-9099-E49D-4E65-E060", &vec![], &4, &shifts()), Status::Invalid);
}

#[test]
fn every_changed_character_fails_the_checksum_check() {
    let key = "3ABC-9099-E39D-4E65-E060";
    let others = "0123456789ABCDEFGHXYZ-_ abcdefghxyz";
    for (at, old) in key.chars().enumerate() {
        if old == '-' {
            continue;
        }
        for other in others.chars() {
            if other.to_ascii_uppercase() == old {
                continue;
            }
            let changed: String =
                key.chars().enumerate().map(|(i, c)| if i == at { other } else { c }).collect();
            assert!(!check_key_checksum(&changed, &4));
            assert_eq!(check_key(&changed, &vec![], &4, &shifts()), Status::Invalid);
        }
    }
}

#[test]
fn every_swap_of_different_neighbours_fails_the_checksum_check() {
    let key: Vec<char> = "3ABC9099E39D4E65E060".chars().collect();
    for at in 0..key.len() - 1 {
        if key[at] == key[at + 1] {
            continue;
        }
        let mut swapped = key.clone();
        swapped.swap(at, at + 1);
        let text: String = swapped.into_iter().collect();
        assert!(!check_key_checksum(&text, &4));
    }
}

#[test]
fn checksum_changes_with_a_changed_character() {
    assert_eq!(get_checksum("AC"), "7B34");
    assert_ne!(get_checksum("AB"), get_checksum("AC"));
    assert_eq!(get_checksum("\u{0}"), get_checksum("\u{ff}"));
}

#[test]
fn sampled_status_of_a_good_key() {
    let key = "3ABC-9099-E39D-4E65-E060";
    for sample in [vec![], vec![0], vec![3, 3, 3], vec![0, 1, 2, 3]] {
        assert_eq!(check_key_with_sample(key, &vec![], &4, &shifts(), &sample), Status::Good);
    }
}

#[test]
fn position_beyond_the_key_is_invalid() {
    let key = "3ABC-9099-E39D-4E65-E060";
    let none = vec![];
    assert_eq!(check_key_with_sample(key, &none, &4, &longer_shifts(), &vec![6]), Status::Invalid);
    assert_eq!(check_key_with_sample(key, &none, &4, &longer_shifts(), &vec![7]), Status::Invalid);
    let forged_first = "3ABC-9099-E49D-4E65-E761";
    assert_eq!(
        check_key_with_sample(forged_first, &none, &4, &longer_shifts(), &vec![7, 0]),
        Status::Invalid
    );
    assert_eq!(
        check_key_with_sample(forged_first, &none, &4, &longer_shifts(), &vec![0, 7]),
        Status::Phony
    );
}

#[test]
fn keys_with_eight_bytes() {
    let key = "3ABC-9099-E39D-4E65-15BF-C212-0728";
    let none = vec![];
    for _ in 0..20 {
        assert_eq!(check_key(key, &none, &8, &longer_shifts()), Status::Good);
    }
    assert_eq!(
        check_key_with_sample(key, &none, &8, &longer_shifts(), &vec![7, 6, 5, 4, 3, 2, 1, 0]),
        Status::Good
    );
}

#[test]
fn derive_seed_is_the_crc_of_input_plus_secret() {
    assert_eq!(derive_seed("", ""), 0x7ebe16cd);
    assert_eq!(derive_seed("hello", "world"), 1737351494);
    assert_eq!(derive_seed("james@example.com", "secret"), 0xff5cb8f6);
    assert_eq!(derive_seed("h\u{e9}llo", "w\u{f6}rld"), 387582787);
}

#[test]
fn new_config_has_a_triple_for_each_byte() {
    let blacklist = vec!["11111111".to_string()];
    let config = Config::new("hash", 100, blacklist.clone());
    assert_eq!(config.num_bytes, 100);
    assert_eq!(config.hash, "hash");
    assert_eq!(config.blacklist, blacklist);
    assert_eq!(config.byte_shifts.len(), 100);
    for shift in &config.byte_shifts {
        assert!(0 <= shift.0 && shift.0 < 255);
        assert!(0 <= shift.1 && shift.1 < 255);
        assert!(0 <= shift.2 && shift.2 < 255);
    }
    let first = config.byte_shifts[0];
    assert!(config.byte_shifts.iter().any(|shift| *shift != first));
}

#[test]
fn new_config_without_bytes_has_no_triples() {
    assert!(Config::new("hash", 0, vec![]).byte_shifts.is_empty());
    assert!(Config::generate_shifts(-5).is_empty());
    assert_eq!(Config::generate_shifts(3).len(), 3);
}

#[test]
fn created_secret_is_letters_and_digits() {
    let mut lengths = vec![];
    for _ in 0..200 {
        let secret = create_hash();
        let len = secret.chars().count();
        assert!(24 <= len && len < 32);
        assert!(secret.chars().all(|c| c.is_ascii_alphanumeric()));
        lengths.push(len);
    }
    assert!(lengths.iter().any(|len| *len != lengths[0]));
}

#[test]
fn status_can_be_compared_and_shown() {
    assert_eq!(format!("{:?}", Status::Good), "Good");
    assert_eq!(format!("{:?}", Status::Invalid), "Invalid");
    assert_eq!(format!("{:?}", Status::Blacklisted), "Blacklisted");
    assert_eq!(format!("{:?}", Status::Phony), "Phony");
    assert_ne!(Status::Good, Status::Phony);
}

#[test]
fn seed_pattern_wants_eight_hex_digits_in_a_row() {
    assert!(holds_seed_digits("3ABC9099"));
    assert!(holds_seed_digits("00000000"));
    assert!(holds_seed_digits("FFFFFFFF"));
    assert!(holds_seed_digits("zz3ABC9099zz"));
    assert!(!holds_seed_digits("3ABC909"));
    assert!(!holds_seed_digits("3abc9099"));
    assert!(!holds_seed_digits("3ABC-9099"));
    assert!(!holds_seed_digits("3ABG9099"));
    assert!(!holds_seed_digits(""));
}

#[test]
fn hex_text_is_written_and_read_back() {
    let mut out = vec!['x'];
    push_hex(&mut out, 0x3abc9099, 8);
    push_hex(&mut out, 0, 2);
    push_hex(&mut out, 0xABCDE, 4);
    push_hex(&mut out, 7, 0);
    let text: String = out.iter().collect();
    assert_eq!(text, "x3ABC909900ABCDE7");
    let digits: Vec<char> = "3ABC9099".chars().collect();
    assert_eq!(parse_hex(&digits), Some(0x3abc9099));
    let fifteen: Vec<char> = "FFFFFFFFFFFFFFF".chars().collect();
    assert_eq!(parse_hex(&fifteen), Some(0x0FFF_FFFF_FFFF_FFFF));
    let lower: Vec<char> = "3abc9099".chars().collect();
    assert_eq!(parse_hex(&lower), None);
    assert_eq!(parse_hex(&vec![]), Some(0));
}

#[test]
fn drawn_positions_are_different_and_in_range() {
    for _ in 0..50 {
        let drawn = draw_positions(5, 9);
        assert_eq!(drawn.len(), 5);
        for (i, position) in drawn.iter().enumerate() {
            assert!(*position < 9);
            assert!(!drawn[..i].contains(position));
        }
    }
    let mut all = draw_positions(7, 7);
    all.sort();
    assert_eq!(all, vec![0, 1, 2, 3, 4, 5, 6]);
    assert!(draw_positions(0, 3).is_empty());
    for (num_bytes, size, bound) in
        [(3i8, 3usize, 3usize), (4, 3, 3), (5, 3, 4), (6, 3, 5), (7, 3, 6), (8, 4, 7), (127, 63, 126)]
    {
        for _ in 0..20 {
            let sample = draw_sample(num_bytes);
            assert_eq!(sample.len(), size);
            assert!(sample.iter().all(|position| *position < bound));
        }
    }
}

#[test]
fn shifts_are_usable_if_there_are_enough_without_negative_amounts() {
    assert!(shifts_usable(&shifts(), 4));
    assert!(shifts_usable(&shifts(), 3));
    assert!(shifts_usable(&shifts(), 0));
    assert!(shifts_usable(&shifts(), -7));
    assert!(shifts_usable(&vec![], 0));
    assert!(!shifts_usable(&shifts(), 5));
    assert!(!shifts_usable(&vec![], 1));
    assert!(shifts_usable(&longer_shifts(), 8));
    assert!(!shifts_usable(&vec![(1, 2, 3), (-1, 2, 3)], 2));
    assert!(!shifts_usable(&vec![(1, 2, 3), (1, -2, 3)], 2));
    assert!(shifts_usable(&vec![(1, 2, 3), (-1, 2, 3)], 1));
    assert!(shifts_usable(&vec![(1, 2, -3)], 1));
}

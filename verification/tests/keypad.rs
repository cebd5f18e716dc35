use rust8::keypad::{key_for_usage, pad_state};

#[test]
fn the_block_of_sixteen_keys() {
    // 1 2 3 4
    assert_eq!(key_for_usage(30), Some(0x1));
    assert_eq!(key_for_usage(31), Some(0x2));
    assert_eq!(key_for_usage(32), Some(0x3));
    assert_eq!(key_for_usage(33), Some(0xC));
    // Q W E R
    assert_eq!(key_for_usage(20), Some(0x4));
    assert_eq!(key_for_usage(26), Some(0x5));
    assert_eq!(key_for_usage(8), Some(0x6));
    assert_eq!(key_for_usage(21), Some(0xD));
    // A S D F
    assert_eq!(key_for_usage(4), Some(0x7));
    assert_eq!(key_for_usage(22), Some(0x8));
    assert_eq!(key_for_usage(7), Some(0x9));
    assert_eq!(key_for_usage(9), Some(0xE));
    // Z X C V
    assert_eq!(key_for_usage(29), Some(0xA));
    assert_eq!(key_for_usage(27), Some(0x0));
    assert_eq!(key_for_usage(6), Some(0xB));
    assert_eq!(key_for_usage(25), Some(0xF));
}

#[test]
fn named_usage_ids() {
    assert_eq!(key_for_usage(rust8::keypad::USAGE_X), Some(0x0));
    assert_eq!(key_for_usage(rust8::keypad::USAGE_4), Some(0xC));
    assert_eq!(key_for_usage(rust8::keypad::USAGE_V), Some(0xF));
}

#[test]
fn every_pad_key_is_played_by_one_keyboard_key() {
    let mut players = [0u32; 16];
    for usage in -10..600 {
        if let Some(key) = key_for_usage(usage) {
            players[key as usize] += 1;
        }
    }
    assert_eq!(players, [1u32; 16]);
}

#[test]
fn other_keys_play_nothing() {
    for usage in [0, 1, 3, 5, 10, 19, 23, 24, 28, 34, 39, 41, 44, 225, -1, i32::MAX, i32::MIN] {
        assert_eq!(key_for_usage(usage), None);
    }
}

#[test]
fn no_key_held() {
    assert_eq!(pad_state(&[]), [false; 16]);
}

#[test]
fn held_keys_set_their_pad_keys() {
    // 1, X and V held, with Escape (41) and Space (44)
    let keys = pad_state(&[30, 41, 27, 44, 25]);
    let mut expected = [false; 16];
    expected[0x1] = true;
    expected[0x0] = true;
    expected[0xF] = true;
    assert_eq!(keys, expected);
}

#[test]
fn a_key_named_twice_is_down_once() {
    let keys = pad_state(&[20, 20, 20]);
    let mut expected = [false; 16];
    expected[0x4] = true;
    assert_eq!(keys, expected);
}

#[test]
fn all_sixteen_held() {
    let keys = pad_state(&[30, 31, 32, 33, 20, 26, 8, 21, 4, 22, 7, 9, 29, 27, 6, 25]);
    assert_eq!(keys, [true; 16]);
}

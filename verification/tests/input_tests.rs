use r8::map_key;
use r8::Key;

#[test]
fn map_key_lowercase() {
    assert_eq!(map_key('q'), Some(Key::K4));
    assert_eq!(map_key('x'), Some(Key::K0));
    assert_eq!(map_key('z'), Some(Key::KA));
}

#[test]
fn map_key_uppercase() {
    assert_eq!(map_key('Q'), Some(Key::K4));
    assert_eq!(map_key('X'), Some(Key::K0));
    assert_eq!(map_key('Z'), Some(Key::KA));
}

#[test]
fn map_key_invalid() {
    assert_eq!(map_key('g'), None);
    assert_eq!(map_key('\n'), None);
}

#[test]
fn keys_enumerate_in_keypad_order() {
    let keys = Key::all();
    assert_eq!(keys.len(), 16);
    assert_eq!(keys[0], Key::K0);
    assert_eq!(keys[15], Key::KF);
    for (i, k) in keys.iter().enumerate() {
        assert_eq!(k.value(), i as u8);
    }
}

use hotkeys::ckey::{default_map, find_mapped_ckey, with_layout, CharacterKey};
use hotkeys::vkey::{find_vkey, get_vkey, key_table, VirtualKey};

fn vk(vkey: u16, linux_key: u16, title: &str) -> VirtualKey {
    VirtualKey::new(vkey, linux_key, title)
}

fn map_get<'a>(map: &'a [(char, CharacterKey)], key: char) -> Option<&'a CharacterKey> {
    map.iter().find(|(c, _)| *c == key).map(|(_, ck)| ck)
}

#[test]
fn test_virtual_keys() {
    assert_eq!(Ok(vk(0x70, 59, "f1")), find_vkey("f1"));
    assert_eq!(Ok(vk(0x70, 59, "f1")), find_vkey("F1")); // Case insensitive
    assert_eq!(Ok(vk(0x90, 69, "numlock")), find_vkey("numlock"));
    assert_eq!(Ok(vk(0x50, 25, "p")), find_vkey("p"));
    assert_eq!(Ok(vk(0x11, 29, "ctrl")), find_vkey("ctrl"));
    assert_eq!(Ok(vk(0x0D, 28, "enter")), find_vkey("enter"));
    assert_eq!(Err("Unknown virtual key"), find_vkey("nonexistent"));
}

#[test]
fn test_get_vkey() {
    assert_eq!(Ok(vk(0x70, 59, "f1")), get_vkey(0x70));
    assert_eq!(Ok(vk(0x90, 69, "numlock")), get_vkey(0x90));
    assert_eq!(Err("Unknown virtual key code"), get_vkey(0xFFFF));
}

#[test]
fn test_linux_key_mapping() {
    assert_eq!(find_vkey("a").unwrap().linux_key, 30);
    assert_eq!(find_vkey("enter").unwrap().linux_key, 28);
    assert_eq!(find_vkey("f1").unwrap().linux_key, 59);
    assert_eq!(find_vkey("ctrl").unwrap().linux_key, 29);
}

#[test]
fn test_compatibility_vkeys() {
    // Abstract key codes should be preserved for compatibility
    assert_eq!(find_vkey("a").unwrap().vkey, 0x41);
    assert_eq!(find_vkey("enter").unwrap().vkey, 0x0D);
    assert_eq!(find_vkey("f1").unwrap().vkey, 0x70);
}

#[test]
fn test_key_table_has_no_duplicate_codes() {
    let table = key_table();
    for (i, a) in table.iter().enumerate() {
        for b in table.iter().skip(i + 1) {
            assert_ne!(a.vkey, b.vkey, "duplicate abstract code {:#x}", a.vkey);
        }
    }
}

#[test]
fn test_character_key_new() {
    let ckey = CharacterKey::new(vk(0x41, 30, "a"));
    assert_eq!(ckey.vkey, vk(0x41, 30, "a"));
    assert_eq!(ckey.shift, false);
}

#[test]
fn test_character_key_new_sh() {
    let ckey = CharacterKey::new_sh(vk(0x41, 30, "a"));
    assert_eq!(ckey.vkey, vk(0x41, 30, "a"));
    assert_eq!(ckey.shift, true);
}

#[test]
fn test_find_ckey_lowercase_letters() {
    let ckey = find_mapped_ckey('a', &Vec::new()).unwrap();
    assert_eq!(ckey.vkey, vk(0x41, 30, "a"));
    assert_eq!(ckey.shift, false);

    let ckey = find_mapped_ckey('z', &Vec::new()).unwrap();
    assert_eq!(ckey.vkey, vk(0x5A, 44, "z"));
    assert_eq!(ckey.shift, false);
}

#[test]
fn test_find_ckey_uppercase_letters() {
    let ckey = find_mapped_ckey('A', &Vec::new()).unwrap();
    assert_eq!(ckey.vkey, vk(0x41, 30, "a"));
    assert_eq!(ckey.shift, true);

    let ckey = find_mapped_ckey('Z', &Vec::new()).unwrap();
    assert_eq!(ckey.vkey, vk(0x5A, 44, "z"));
    assert_eq!(ckey.shift, true);
}

#[test]
fn test_find_ckey_numbers() {
    let ckey = find_mapped_ckey('1', &Vec::new()).unwrap();
    assert_eq!(ckey.vkey, vk(0x31, 2, "1"));
    assert_eq!(ckey.shift, false);
}

#[test]
fn test_find_ckey_symbols() {
    let ckey = find_mapped_ckey('!', &Vec::new()).unwrap();
    assert_eq!(ckey.vkey, vk(0x31, 2, "1"));
    assert_eq!(ckey.shift, true);

    let ckey = find_mapped_ckey(';', &Vec::new()).unwrap();
    assert_eq!(ckey.vkey, vk(0xBA, 39, ";"));
    assert_eq!(ckey.shift, false);

    let ckey = find_mapped_ckey(':', &Vec::new()).unwrap();
    assert_eq!(ckey.vkey, vk(0xBA, 39, ";"));
    assert_eq!(ckey.shift, true);
}

#[test]
fn test_find_ckey_space() {
    let ckey = find_mapped_ckey(' ', &Vec::new()).unwrap();
    assert_eq!(ckey.vkey, vk(0x20, 57, "space"));
    assert_eq!(ckey.shift, false);
}

#[test]
fn test_find_ckey_invalid_char() {
    let result = find_mapped_ckey('€', &Vec::new());
    assert!(result.is_none());
}

#[test]
fn test_default_map_is_complete() {
    // every letter in both cases, every base/shifted pair, and space
    let map = default_map();
    assert_eq!(map.len(), 95);
    assert_eq!(map[0].0, 'a');
    assert_eq!(map[25].0, 'z');
    assert_eq!(map[26].0, 'A');
    assert_eq!(map[51].0, 'Z');
    assert_eq!(map[52].0, '1');
    assert_eq!(map[53].0, '!');
    assert_eq!(map[94].0, ' ');
    // a base/shifted pair shares one physical key, shift off then on
    let semi = map_get(&map, ';').unwrap();
    let colon = map_get(&map, ':').unwrap();
    assert_eq!(semi.vkey, colon.vkey);
    assert!(!semi.shift);
    assert!(colon.shift);
}

#[test]
fn test_default_map_contains_letters() {
    let map = default_map();

    assert!(map_get(&map, 'a').is_some());
    assert!(map_get(&map, 'A').is_some());
    assert!(map_get(&map, 'z').is_some());
    assert!(map_get(&map, 'Z').is_some());

    let lowercase_a = map_get(&map, 'a').unwrap();
    assert_eq!(lowercase_a.vkey, vk(0x41, 30, "a"));
    assert_eq!(lowercase_a.shift, false);

    let uppercase_a = map_get(&map, 'A').unwrap();
    assert_eq!(uppercase_a.vkey, vk(0x41, 30, "a"));
    assert_eq!(uppercase_a.shift, true);
}

#[test]
fn test_default_map_contains_numbers_and_symbols() {
    let map = default_map();

    assert!(map_get(&map, '1').is_some());
    assert!(map_get(&map, '!').is_some());
    assert!(map_get(&map, '0').is_some());
    assert!(map_get(&map, ')').is_some());

    let one = map_get(&map, '1').unwrap();
    assert_eq!(one.vkey, vk(0x31, 2, "1"));
    assert_eq!(one.shift, false);

    let exclamation = map_get(&map, '!').unwrap();
    assert_eq!(exclamation.vkey, vk(0x31, 2, "1"));
    assert_eq!(exclamation.shift, true);
}

#[test]
fn test_default_map_contains_punctuation() {
    let map = default_map();

    assert!(map_get(&map, ';').is_some());
    assert!(map_get(&map, ':').is_some());
    assert!(map_get(&map, ',').is_some());
    assert!(map_get(&map, '<').is_some());
    assert!(map_get(&map, ' ').is_some());

    let space = map_get(&map, ' ').unwrap();
    assert_eq!(space.vkey, vk(0x20, 57, "space"));
    assert_eq!(space.shift, false);
}

#[test]
fn test_find_mapped_ckey_no_mapping() {
    let mapping: Vec<(char, char)> = Vec::new();

    let ckey = find_mapped_ckey('a', &mapping).unwrap();
    assert_eq!(ckey.vkey, vk(0x41, 30, "a"));
    assert_eq!(ckey.shift, false);
}

#[test]
fn test_find_mapped_ckey_with_mapping() {
    let mapping = vec![('š', 's'), ('Š', 'S')];

    let ckey = find_mapped_ckey('š', &mapping).unwrap();
    assert_eq!(ckey.vkey, vk(0x53, 31, "s"));
    assert_eq!(ckey.shift, false);

    let ckey = find_mapped_ckey('Š', &mapping).unwrap();
    assert_eq!(ckey.vkey, vk(0x53, 31, "s"));
    assert_eq!(ckey.shift, true);
}

#[test]
fn test_find_mapped_ckey_unmapped_char() {
    let mapping = vec![('š', 's')];

    let result = find_mapped_ckey('€', &mapping);
    assert!(result.is_none());
}

#[test]
fn test_with_layout_find_ckey() {
    let mapping = vec![('č', 'c'), ('Č', 'C'), ('đ', 'd')];

    let layout = with_layout(mapping);

    let ckey = layout.find_ckey('č').unwrap();
    assert_eq!(ckey.vkey, vk(0x43, 46, "c"));
    assert_eq!(ckey.shift, false);

    let ckey = layout.find_ckey('Č').unwrap();
    assert_eq!(ckey.vkey, vk(0x43, 46, "c"));
    assert_eq!(ckey.shift, true);

    let ckey = layout.find_ckey('đ').unwrap();
    assert_eq!(ckey.vkey, vk(0x44, 32, "d"));
    assert_eq!(ckey.shift, false);
}

#[test]
fn test_with_layout_fallback_to_default() {
    let mapping: Vec<(char, char)> = Vec::new();
    let layout = with_layout(mapping);

    let ckey = layout.find_ckey('a').unwrap();
    assert_eq!(ckey.vkey, vk(0x41, 30, "a"));
    assert_eq!(ckey.shift, false);
}

#[test]
fn test_with_layout_invalid_char() {
    let mapping: Vec<(char, char)> = Vec::new();
    let layout = with_layout(mapping);

    let result = layout.find_ckey('€');
    assert!(result.is_none());
}

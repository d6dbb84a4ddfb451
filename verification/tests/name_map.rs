use codegen::name_map::{name_less, place_name, NameMap};
use std::collections::BTreeMap;

fn names(list: &[&str]) -> Vec<String> {
    list.iter().map(|name| name.to_string()).collect()
}

#[test]
fn names_are_ordered_as_strings_are() {
    let samples = [
        "", "a", "A", "aa", "ab", "b", "Z", "_", "z", "é", "e", "zz", "a0", "a_", "User", "Users",
        "user", "😀", "\u{ffff}", "\u{10000}",
    ];
    for left in samples {
        for right in samples {
            assert_eq!(name_less(left, right), left < right, "{:?} before {:?}", left, right);
        }
    }
}

#[test]
fn place_name_keeps_names_sorted_and_unique() {
    let mut list: Vec<String> = Vec::new();
    assert_eq!(place_name(&mut list, "Int".to_string()), (0, false));
    assert_eq!(place_name(&mut list, "String".to_string()), (1, false));
    assert_eq!(place_name(&mut list, "Float".to_string()), (0, false));
    assert_eq!(place_name(&mut list, "Boolean".to_string()), (0, false));
    assert_eq!(place_name(&mut list, "ID".to_string()), (2, false));
    assert_eq!(list, names(&["Boolean", "Float", "ID", "Int", "String"]));
    assert_eq!(place_name(&mut list, "ID".to_string()), (2, true));
    assert_eq!(place_name(&mut list, "Zone".to_string()), (5, false));
    assert_eq!(list, names(&["Boolean", "Float", "ID", "Int", "String", "Zone"]));
}

#[test]
fn name_map_behaves_like_an_ordered_map() {
    let inserts = [
        ("pear", 1),
        ("apple", 2),
        ("fig", 3),
        ("apple", 4),
        ("zucchini", 5),
        ("fig", 6),
        ("", 7),
        ("Apple", 8),
    ];
    let mut map: NameMap<i32> = NameMap::new();
    let mut expected: BTreeMap<String, i32> = BTreeMap::new();
    assert_eq!(map.len(), 0);
    for (name, value) in inserts {
        map.insert(name.to_string(), value);
        expected.insert(name.to_string(), value);
        assert_eq!(map.len(), expected.len());
        let values: Vec<i32> = (0..map.len()).map(|i| *map.value_at(i)).collect();
        assert_eq!(values, expected.values().copied().collect::<Vec<i32>>());
        for probe in ["pear", "apple", "fig", "zucchini", "", "Apple", "kiwi"] {
            assert_eq!(map.contains_key(probe), expected.contains_key(probe));
        }
    }
    assert_eq!(map.into_values(), vec![7, 8, 4, 6, 1, 5]);
}

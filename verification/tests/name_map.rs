use hi_nvim_rs::colorscheme::Rgb8;
use hi_nvim_rs::name_map::NameMap;

fn grey(v: u8) -> Rgb8 {
    Rgb8 { red: v, green: v, blue: v }
}

fn names<'a>(map: &NameMap<'a, Rgb8>) -> Vec<&'a str> {
    let mut out = Vec::new();
    for i in 0..map.len() {
        out.push(map.name_at(i));
    }
    out
}

#[test]
fn new_map_is_empty() {
    let map: NameMap<Rgb8> = NameMap::new();
    assert_eq!(map.len(), 0);
    assert!(map.get("a").is_none());
    assert_eq!(map.find("a"), None);
}

#[test]
fn insert_keeps_the_names_in_order() {
    let mut map: NameMap<Rgb8> = NameMap::new();
    map.insert("m", grey(1));
    map.insert("a", grey(2));
    map.insert("z", grey(3));
    map.insert("b", grey(4));
    map.insert("@x", grey(5));
    assert_eq!(names(&map), vec!["@x", "a", "b", "m", "z"]);
    assert_eq!(*map.value_at(0), grey(5));
    assert_eq!(*map.value_at(3), grey(1));
    assert_eq!(map.find("b"), Some(2));
    assert_eq!(map.get("z"), Some(&grey(3)));
    assert_eq!(map.get("c"), None);
}

#[test]
fn insert_replaces_the_value_of_a_name() {
    let mut map: NameMap<Rgb8> = NameMap::new();
    map.insert("a", grey(1));
    map.insert("b", grey(2));
    map.insert("a", grey(9));
    assert_eq!(map.len(), 2);
    assert_eq!(map.get("a"), Some(&grey(9)));
    assert_eq!(map.get("b"), Some(&grey(2)));
}

#[test]
fn insert_if_absent_leaves_what_is_there() {
    let mut map: NameMap<Rgb8> = NameMap::new();
    map.insert("a", grey(1));
    map.insert_if_absent("a", grey(7));
    map.insert_if_absent("b", grey(8));
    assert_eq!(map.get("a"), Some(&grey(1)));
    assert_eq!(map.get("b"), Some(&grey(8)));
    assert_eq!(names(&map), vec!["a", "b"]);
}

#[test]
fn push_last_appends() {
    let mut map: NameMap<Rgb8> = NameMap::new();
    map.push_last("a", grey(1));
    map.push_last("b", grey(2));
    assert_eq!(names(&map), vec!["a", "b"]);
    assert_eq!(map.get("b"), Some(&grey(2)));
}

#[test]
fn replace_value_at_keeps_the_name() {
    let mut map: NameMap<Rgb8> = NameMap::new();
    map.insert("a", grey(1));
    map.insert("b", grey(2));
    map.replace_value_at(1, grey(5));
    assert_eq!(names(&map), vec!["a", "b"]);
    assert_eq!(map.get("b"), Some(&grey(5)));
    assert_eq!(map.get("a"), Some(&grey(1)));
}

#[test]
fn a_prefix_comes_before_the_longer_name() {
    let mut map: NameMap<Rgb8> = NameMap::new();
    map.insert("Diff", grey(1));
    map.insert("DiffAdd", grey(2));
    map.insert("Dif", grey(3));
    assert_eq!(names(&map), vec!["Dif", "Diff", "DiffAdd"]);
}

#[test]
fn a_large_map_agrees_with_a_sorted_map_of_std() {
    let mut state: u32 = 12345;
    let mut next = move || {
        state = state.wrapping_mul(1_664_525).wrapping_add(1_013_904_223);
        state >> 8
    };
    let alphabet = ['a', 'b', 'Z', '_', '@', '.', 'é', '日'];
    let mut names: Vec<String> = Vec::new();
    for _ in 0..600 {
        let length = next() % 5;
        let mut name = String::new();
        for _ in 0..length {
            name.push(alphabet[(next() % 8) as usize]);
        }
        names.push(name);
    }
    let mut map: NameMap<Rgb8> = NameMap::new();
    let mut expected = std::collections::BTreeMap::new();
    for (i, name) in names.iter().enumerate() {
        let value = grey((i % 256) as u8);
        if i % 3 == 0 {
            map.insert_if_absent(name.as_str(), value);
            expected.entry(name.as_str()).or_insert(value);
        } else {
            map.insert(name.as_str(), value);
            expected.insert(name.as_str(), value);
        }
    }
    assert_eq!(map.len(), expected.len());
    for (i, (name, value)) in expected.iter().enumerate() {
        assert_eq!(map.name_at(i), *name);
        assert_eq!(map.value_at(i), value);
        assert_eq!(map.find(name), Some(i));
        assert_eq!(map.get(name), Some(value));
    }
    assert_eq!(map.get("never"), None);
}

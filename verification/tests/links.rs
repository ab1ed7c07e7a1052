use hi_nvim_rs::colorscheme::{find_last_link, reduce_link_depth};
use hi_nvim_rs::configuration::{Highlight, NamespacedThemeElement};
use hi_nvim_rs::error::Error;
use hi_nvim_rs::name_map::NameMap;

fn linked(to: &str) -> Highlight<'_> {
    let mut h = Highlight::empty();
    h.link = Some(to);
    h
}

fn groups<'a>(links: &[(&'a str, Option<&'a str>)]) -> NameMap<'a, Highlight<'a>> {
    let mut map = NameMap::new();
    for (name, link) in links {
        let mut h = Highlight::empty();
        h.link = *link;
        map.insert(*name, h);
    }
    map
}

fn cycle_name(result: Result<(), Error>) -> String {
    match result {
        Err(Error::LinkCycle(name)) => name,
        _ => panic!("a link cycle was expected"),
    }
}

#[test]
fn chain_of_two_links_is_shortened() {
    let mut groups: NameMap<Highlight> = NameMap::new();
    let mut c = Highlight::empty();
    c.fg = Some(NamespacedThemeElement { theme_namespace: "ui", element_name: "fg" });
    groups.insert("A", linked("B"));
    groups.insert("B", linked("C"));
    groups.insert("C", c);
    assert!(reduce_link_depth(&mut groups).is_ok());
    assert_eq!(groups.get("A").unwrap().link, Some("C"));
    assert_eq!(groups.get("B").unwrap().link, Some("C"));
    assert_eq!(groups.get("C").unwrap().link, None);
    assert_eq!(groups.get("C").unwrap().fg.unwrap().element_name, "fg");
}

#[test]
fn a_long_chain_ends_at_its_last_group() {
    let mut map = groups(&[
        ("a", Some("b")),
        ("b", Some("c")),
        ("c", Some("d")),
        ("d", Some("e")),
        ("e", None),
        ("x", Some("c")),
    ]);
    assert!(reduce_link_depth(&mut map).is_ok());
    for name in ["a", "b", "c", "d", "x"] {
        assert_eq!(map.get(name).unwrap().link, Some("e"));
    }
    assert_eq!(map.get("e").unwrap().link, None);
}

#[test]
fn a_link_to_no_group_stays() {
    let mut map = groups(&[("a", Some("b")), ("b", Some("gone"))]);
    assert!(reduce_link_depth(&mut map).is_ok());
    assert_eq!(map.get("a").unwrap().link, Some("gone"));
    assert_eq!(map.get("b").unwrap().link, Some("gone"));
}

#[test]
fn reducing_keeps_everything_but_links() {
    let mut map: NameMap<Highlight> = NameMap::new();
    let mut a = linked("b");
    a.bold = Some(true);
    a.fg = Some(NamespacedThemeElement { theme_namespace: "ui", element_name: "fg" });
    map.insert("a", a);
    map.insert("b", linked("c"));
    map.insert("c", Highlight::empty());
    assert!(reduce_link_depth(&mut map).is_ok());
    let a = map.get("a").unwrap();
    assert_eq!(a.link, Some("c"));
    assert_eq!(a.bold, Some(true));
    assert_eq!(a.fg.unwrap().theme_namespace, "ui");
    assert_eq!(map.len(), 3);
}

#[test]
fn self_link_is_a_cycle() {
    let mut map = groups(&[("A", Some("A"))]);
    assert_eq!(cycle_name(reduce_link_depth(&mut map)), "A");
    assert_eq!(map.get("A").unwrap().link, Some("A"));
}

#[test]
fn a_cycle_of_two_names_the_group_reached_twice() {
    let mut map = groups(&[("A", Some("B")), ("B", Some("A"))]);
    assert_eq!(cycle_name(reduce_link_depth(&mut map)), "B");
}

#[test]
fn a_chain_into_a_cycle_names_a_group_on_the_cycle() {
    let mut map = groups(&[("A", Some("x")), ("x", Some("y")), ("y", Some("z")), ("z", Some("y"))]);
    assert_eq!(cycle_name(reduce_link_depth(&mut map)), "y");
}

#[test]
fn a_cycle_leaves_the_groups_as_they_were() {
    let mut map = groups(&[("a", Some("b")), ("b", Some("c")), ("c", None), ("y", Some("z")), ("z", Some("y"))]);
    assert_eq!(cycle_name(reduce_link_depth(&mut map)), "z");
    assert_eq!(map.get("a").unwrap().link, Some("b"));
    assert_eq!(map.get("y").unwrap().link, Some("z"));
}

#[test]
fn find_last_link_follows_the_chain() {
    let map = groups(&[("a", Some("b")), ("b", Some("c")), ("c", None)]);
    assert_eq!(find_last_link("a", &map).unwrap(), "c");
    assert_eq!(find_last_link("c", &map).unwrap(), "c");
    assert_eq!(find_last_link("nowhere", &map).unwrap(), "nowhere");
}

#[test]
fn find_last_link_names_the_first_repeat() {
    let map = groups(&[("a", Some("b")), ("b", Some("c")), ("c", Some("b"))]);
    match find_last_link("a", &map) {
        Err(Error::LinkCycle(name)) => assert_eq!(name, "b"),
        _ => panic!("a link cycle was expected"),
    }
}

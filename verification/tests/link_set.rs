use website_crawler::link_set::LinkSet;

fn set(links: &[&str]) -> LinkSet {
    let mut set = LinkSet::new();
    for link in links {
        set.insert(link);
    }
    set
}

fn sorted(mut links: Vec<String>) -> Vec<String> {
    links.sort();
    links
}

#[test]
fn a_set_keeps_the_first_spelling() {
    let mut links = LinkSet::new();
    assert!(links.is_empty());
    assert!(links.insert("http://a.b/One"));
    assert!(!links.insert("HTTP://A.B/ONE"));
    assert!(!links.is_empty());
    assert!(links.contains("http://a.b/one"));
    assert!(!links.contains("http://a.b/two"));
    assert_eq!(links.to_vec(), vec!["http://a.b/One".to_string()]);
}

#[test]
fn only_ascii_letters_fold() {
    let mut links = set(&["\u{e9}"]);
    assert!(!links.contains("\u{c9}"));
    assert!(links.insert("\u{c9}"));
    let mut others = set(&["[", "@"]);
    assert!(others.insert("{"));
    assert!(others.insert("`"));
    assert_eq!(others.to_vec().len(), 4);
}

#[test]
fn draining_empties_a_set() {
    let mut links = set(&["b", "A", "a"]);
    assert_eq!(sorted(links.drain()), vec!["A".to_string(), "b".to_string()]);
    assert!(links.is_empty());
    assert!(links.drain().is_empty());
}

#[test]
fn extending_keeps_the_spelling_that_is_there() {
    let mut links = set(&["A", "b"]);
    links.extend(set(&["a", "C"]));
    assert_eq!(
        sorted(links.to_vec()),
        vec!["A".to_string(), "C".to_string(), "b".to_string()]
    );
}

#[test]
fn a_difference_leaves_out_every_spelling() {
    let rest = set(&["A", "b", "C"]).difference(&set(&["a", "B", "x"]));
    assert_eq!(rest.to_vec(), vec!["C".to_string()]);
    assert!(set(&[]).difference(&set(&["a"])).is_empty());
}

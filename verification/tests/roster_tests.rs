use g_forms::roster::{
    boat_allocations, exco_names, mapped_boat_cells, names_certs, shorten, shortened_names,
};

fn col(cells: &[&str]) -> Vec<String> {
    cells.iter().map(|c| c.to_string()).collect()
}

/// The shortening map drops rows with an empty cell and keeps the
/// last short name of a repeated full name.
#[test]
fn shortened_names_collects() {
    let names = col(&["Alice Tan", "", "Bob Lee", "Alice Tan"]);
    let shorts = col(&["alice", "ghost", "bob", "ally"]);
    let map = shortened_names(&names, &shorts);
    assert_eq!(map.len(), 2);
    assert_eq!(shorten(&map, &"Alice Tan".to_string()), "ally");
    assert_eq!(shorten(&map, &"Bob Lee".to_string()), "bob");
    assert_eq!(shorten(&map, &"Unknown".to_string()), "Unknown");
}

/// Columns of unequal length are truncated to the shorter one.
#[test]
fn shortened_names_truncates() {
    let names = col(&["A", "B", "C"]);
    let shorts = col(&["a"]);
    let map = shortened_names(&names, &shorts);
    assert_eq!(map.len(), 1);
    assert_eq!(shorten(&map, &"A".to_string()), "a");
    assert_eq!(shorten(&map, &"B".to_string()), "B");
}

/// A boat column keeps its nonempty cells, shortened.
#[test]
fn boat_cells_mapped() {
    let map = shortened_names(&col(&["Alice Tan"]), &col(&["alice"]));
    let cells = col(&["Alice Tan", "", "Dragon", ""]);
    let out = mapped_boat_cells(&cells, &map);
    assert_eq!(out, vec!["alice".to_string(), "Dragon".to_string()]);
}

/// Certification entries keep rows with a nonempty name and a
/// parseable count, certified when the count is nonzero.
#[test]
fn cert_entries() {
    let map = shortened_names(&col(&["Alice Tan"]), &col(&["alice"]));
    let names = col(&["Alice Tan", "Bob Lee", "", "Carol", "Dan"]);
    let certs = col(&["1", "0", "1", "x", "007"]);
    let out = names_certs(&names, &certs, &map);
    assert_eq!(out.len(), 3);
    assert_eq!(out[0].name, "alice");
    assert!(out[0].certified);
    assert_eq!(out[1].name, "Bob Lee");
    assert!(!out[1].certified);
    // leading zeros parse the way a machine integer does
    assert_eq!(out[2].name, "Dan");
    assert!(out[2].certified);
}

/// Allocations keep rows with a nonempty name; empty boat cells mean
/// no assignment.
#[test]
fn allocations() {
    let map = shortened_names(&col(&["Alice Tan"]), &col(&["alice"]));
    let names = col(&["Alice Tan", "", "Bob"]);
    let primary = col(&["K1", "K2", ""]);
    let alternate = col(&["", "K3", "K4"]);
    let out = boat_allocations(&names, &primary, &alternate, &map);
    assert_eq!(out.len(), 2);
    assert_eq!(out[0].name, "alice");
    assert_eq!(out[0].primary.as_deref(), Some("K1"));
    assert_eq!(out[0].alternate, None);
    assert_eq!(out[1].name, "Bob");
    assert_eq!(out[1].primary, None);
    assert_eq!(out[1].alternate.as_deref(), Some("K4"));
}

/// The leadership list keeps the rows whose marker parses to exactly
/// one.
#[test]
fn exco_list() {
    let map = shortened_names(&col(&["Alice Tan"]), &col(&["alice"]));
    let names = col(&["Alice Tan", "Bob", "Carol", "Dan", "Eve", "Fred"]);
    let marks = col(&["1", "0", "x", "1", "+1", "256"]);
    let out = exco_names(&names, &marks, &map);
    // a plus sign is accepted as a machine integer's would be; a
    // value past the byte range is not
    assert_eq!(out, vec!["alice".to_string(), "Dan".to_string(), "Eve".to_string()]);
}

use gitools::filter::{FuzzybarState, ListItem, MAX_MATCHES};
use gitools::keymap::Command;
use im::Vector;

fn names(list: &[&str]) -> Vector<String> {
    let mut v = Vector::new();
    for name in list {
        v.push_back((*name).to_owned());
    }
    v
}

fn bar(query: &str, source: Vector<String>) -> FuzzybarState {
    FuzzybarState {
        is_hidden: true,
        cmd: Command::ShowMenu,
        query: query.to_owned(),
        source,
        filtered: Vector::new(),
    }
}

fn item(name: &str, selected: bool) -> ListItem {
    ListItem { name: name.to_owned(), selected }
}

#[test]
fn fuzzybarstate_should_filter() {
    let mut s = FuzzybarState {
        is_hidden: true,
        cmd: Command::ShowMenu,
        query: "b".to_owned(),
        source: names(&["aa", "ab", "bc", "bca"]),
        filtered: Vector::new(),
    };

    s.filter();
    let mut expected = Vector::new();
    expected.push_back(ListItem { name: "ab".to_owned(), selected: true });
    expected.push_back(ListItem { name: "bc".to_owned(), selected: false });
    expected.push_back(ListItem { name: "bca".to_owned(), selected: false });
    assert_eq!(expected, s.filtered);
}

#[test]
fn filtered_should_have_limited_items() {
    let source = (1..200).map(|s| format!("Item {}", s)).collect::<Vector<String>>();
    let mut s = FuzzybarState {
        is_hidden: true,
        cmd: Command::ShowMenu,
        query: "2".to_owned(),
        source,
        filtered: Vector::new(),
    };

    s.filter();
    assert_eq!(20, s.filtered.len());
}

#[test]
fn limited_items_keep_source_order_and_first_is_active() {
    let source = (1..200).map(|s| format!("Item {}", s)).collect::<Vector<String>>();
    let mut s = bar("2", source);
    s.filter();
    let expected: Vec<ListItem> = [
        2, 12, 20, 21, 22, 23, 24, 25, 26, 27, 28, 29, 32, 42, 52, 62, 72, 82, 92, 102,
    ]
    .iter()
    .enumerate()
    .map(|(i, n)| item(&format!("Item {}", n), i == 0))
    .collect();
    let got: Vec<ListItem> = s.filtered.iter().cloned().collect();
    assert_eq!(got, expected);
    assert_eq!(MAX_MATCHES, 20);
}

#[test]
fn filter_leaves_the_rest_of_the_bar_alone() {
    let mut s = bar("b", names(&["aa", "ab"]));
    s.cmd = Command::BranchCheckout;
    s.is_hidden = false;
    s.filter();
    assert_eq!(s.is_hidden, false);
    assert_eq!(s.cmd, Command::BranchCheckout);
    assert_eq!(s.query, "b");
    assert_eq!(s.source, names(&["aa", "ab"]));
}

#[test]
fn empty_query_matches_everything() {
    let mut s = bar("", names(&["x", "", "yz"]));
    s.filter();
    let got: Vec<ListItem> = s.filtered.iter().cloned().collect();
    assert_eq!(got, vec![item("x", true), item("", false), item("yz", false)]);
}

#[test]
fn no_match_yields_an_empty_list() {
    let mut s = bar("q", names(&["aa", "ab", "bc"]));
    s.filtered.push_back(item("stale", true));
    s.filter();
    assert!(s.filtered.is_empty());
}

#[test]
fn empty_source_yields_an_empty_list() {
    let mut s = bar("", Vector::new());
    s.filter();
    assert_eq!(s.filtered.len(), 0);
}

#[test]
fn query_is_case_sensitive() {
    let mut s = bar("Ab", names(&["ab", "AB", "xAby", "Ab"]));
    s.filter();
    let got: Vec<ListItem> = s.filtered.iter().cloned().collect();
    assert_eq!(got, vec![item("xAby", true), item("Ab", false)]);
}

#[test]
fn query_matches_anywhere_in_the_text() {
    let mut s = bar("bc", names(&["bc", "abc", "abcd", "cb", "b", "c", "ab c"]));
    s.filter();
    let got: Vec<ListItem> = s.filtered.iter().cloned().collect();
    assert_eq!(got, vec![item("bc", true), item("abc", false), item("abcd", false)]);
}

#[test]
fn query_longer_than_the_text_does_not_match() {
    let mut s = bar("abcd", names(&["abc", "bcd", "abcd"]));
    s.filter();
    let got: Vec<ListItem> = s.filtered.iter().cloned().collect();
    assert_eq!(got, vec![item("abcd", true)]);
}

#[test]
fn query_matches_characters_beyond_ascii() {
    let mut s = bar("\u{e9}", names(&["caf\u{e9}", "cafe", "\u{e9}t\u{e9}", "\u{c9}"]));
    s.filter();
    let got: Vec<ListItem> = s.filtered.iter().cloned().collect();
    assert_eq!(got, vec![item("caf\u{e9}", true), item("\u{e9}t\u{e9}", false)]);
}

#[test]
fn exactly_twenty_matches_are_all_kept() {
    let source = (0..25).map(|n| if n < 20 { format!("m{}", n) } else { format!("x{}", n) });
    let mut s = bar("m", source.collect::<Vector<String>>());
    s.filter();
    assert_eq!(s.filtered.len(), 20);
    assert_eq!(s.filtered[19], item("m19", false));
    assert_eq!(s.filtered[0], item("m0", true));
}

#[test]
fn twenty_first_match_is_left_out() {
    let source = (0..21).map(|n| format!("m{}", n)).collect::<Vector<String>>();
    let mut s = bar("m", source);
    s.filter();
    assert_eq!(s.filtered.len(), 20);
    assert!(s.filtered.iter().all(|i| i.name != "m20"));
    assert_eq!(s.filtered.iter().filter(|i| i.selected).count(), 1);
}

#[test]
fn filtering_again_starts_from_the_source() {
    let mut s = bar("a", names(&["aa", "ab", "bc", "bca"]));
    s.filter();
    assert_eq!(s.filtered.len(), 3);
    s.query = "bc".to_owned();
    s.filter();
    let got: Vec<ListItem> = s.filtered.iter().cloned().collect();
    assert_eq!(got, vec![item("bc", true), item("bca", false)]);
}

#[test]
fn list_item_clone_is_equal() {
    let a = item("abc", true);
    assert_eq!(a.clone(), a);
}

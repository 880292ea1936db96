use fp_bindgen::text::{insert_distinct, sort_strings, split_string, str_lt};

fn strings(v: &[&str]) -> Vec<String> {
    v.iter().map(|s| s.to_string()).collect()
}

#[test]
fn sort_strings_orders_and_keeps_repeats() {
    let mut v = strings(&["rename = \"b\"", "default", "rename = \"a\"", "default"]);
    sort_strings(&mut v);
    assert_eq!(v, strings(&["default", "default", "rename = \"a\"", "rename = \"b\""]));
}

#[test]
fn insert_distinct_keeps_a_set() {
    let mut v = strings(&["HashMap", "Rc"]);
    insert_distinct(&mut v, "BTreeMap".to_owned());
    insert_distinct(&mut v, "Rc".to_owned());
    insert_distinct(&mut v, "Option".to_owned());
    assert_eq!(v, strings(&["BTreeMap", "HashMap", "Option", "Rc"]));
}

#[test]
fn str_order_puts_prefixes_first() {
    assert!(str_lt("Vec", "VecDeque"));
    assert!(!str_lt("VecDeque", "Vec"));
    assert!(!str_lt("a", "a"));
    assert!(str_lt("B", "a"));
}

#[test]
fn split_string_keeps_empty_pieces() {
    assert_eq!(split_string("a::b::", ':'), strings(&["a", "", "b", "", ""]));
}

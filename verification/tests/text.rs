use runx::text::sort_strings;

fn strings(v: &[&str]) -> Vec<String> {
    v.iter().map(|s| s.to_string()).collect()
}

#[test]
fn sort_strings_ascending_keeps_every_string() {
    let sorted = sort_strings(strings(&["node", "bun", "go", "bun", "deno"]), false);
    assert_eq!(sorted, strings(&["bun", "bun", "deno", "go", "node"]));
}

#[test]
fn sort_strings_descending() {
    let sorted = sort_strings(strings(&["1.2.0", "20.0.0", "3.1.4"]), true);
    assert_eq!(sorted, strings(&["3.1.4", "20.0.0", "1.2.0"]));
}

#[test]
fn sort_strings_prefix_comes_first() {
    let sorted = sort_strings(strings(&["python3", "python", ""]), false);
    assert_eq!(sorted, strings(&["", "python", "python3"]));
}

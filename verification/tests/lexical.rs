use axum_api::lexical::{sort_dedup, str_lt};

#[test]
fn lexical_order_matches_str() {
    let words = ["", "a", "ab", "b", "B", "é", "a\u{10000}", "ba"];
    for x in words {
        for y in words {
            assert_eq!(str_lt(x, y), x < y, "{:?} < {:?}", x, y);
        }
    }
}

#[test]
fn sort_dedup_matches_std() {
    let v: Vec<String> = ["u_b", "g_a", "u_b", "", "u_a", "g_a"].iter().map(|s| s.to_string()).collect();
    let mut expect = v.clone();
    expect.sort_unstable();
    expect.dedup();
    assert_eq!(sort_dedup(&v), expect);
}

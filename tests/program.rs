use hash_mapify::demo::{function_to_benchmark, test_cache, User, User2};

#[test]
fn benchmark_counts_to_max() {
    assert_eq!(function_to_benchmark(), 65535);
}

#[test]
fn cached_value_is_full_name() {
    assert_eq!(test_cache("John".to_string(), "Appleseed".to_string()), "John Appleseed");
    assert_eq!(test_cache("John".to_string(), "Doe".to_string()), "John Doe");
}

#[test]
fn users_hold_their_fields() {
    let u = User { username: "jd".to_string(), first_name: "John".to_string(), last_name: "Doe".to_string() };
    let v = User2 { username: u.username.clone(), first_name: u.first_name.clone(), last_name: u.last_name.clone(), age: 30 };
    assert_eq!(v.age, 30);
    assert_eq!(v.username, "jd");
}

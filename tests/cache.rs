use polyblocks::cache::Cache;

fn battery_weather() -> Cache {
    Cache::new(
        " | ".to_string(),
        vec!["battery".to_string(), "weather".to_string()],
    )
}

#[test]
fn cli_cache_status() {
    let cache = battery_weather();
    assert_eq!(cache.status(), "NONE | NONE".to_string());
}

#[test]
fn cli_cache_updates() {
    let mut cache = battery_weather();
    cache.update("battery".to_string(), "Battery!".to_string());
    cache.update("weather".to_string(), "Weather!".to_string());
    assert_eq!(cache.status(), "Battery! | Weather!".to_string());
}

#[test]
fn status_follows_each_update() {
    let mut cache = battery_weather();
    assert_eq!(cache.status(), "NONE | NONE");
    cache.update("battery".to_string(), "80%".to_string());
    assert_eq!(cache.status(), "80% | NONE");
    cache.update("weather".to_string(), "Sunny".to_string());
    assert_eq!(cache.status(), "80% | Sunny");
}

#[test]
fn last_write_wins_in_any_interleaving() {
    let mut a = battery_weather();
    a.update("battery".to_string(), "1".to_string());
    a.update("weather".to_string(), "x".to_string());
    a.update("battery".to_string(), "2".to_string());
    let mut b = battery_weather();
    b.update("weather".to_string(), "x".to_string());
    b.update("battery".to_string(), "0".to_string());
    b.update("battery".to_string(), "2".to_string());
    assert_eq!(a.status(), "2 | x");
    assert_eq!(a.status(), b.status());
}

#[test]
fn unknown_slot_update_is_ignored() {
    let mut cache = battery_weather();
    cache.update("battery".to_string(), "80%".to_string());
    let before = cache.status();
    cache.update("volume".to_string(), "50%".to_string());
    cache.update("Battery".to_string(), "10%".to_string());
    assert_eq!(cache.status(), before);
}

#[test]
fn status_read_twice_is_the_same() {
    let mut cache = battery_weather();
    cache.update("weather".to_string(), "Rain".to_string());
    let first = cache.status();
    let second = cache.status();
    assert_eq!(first, second);
    assert_eq!(first, "NONE | Rain");
}

#[test]
fn empty_cache_and_empty_separator() {
    let empty = Cache::new(" | ".to_string(), Vec::new());
    assert_eq!(empty.status(), "");
    let mut glued = Cache::new(String::new(), vec!["a".to_string(), "b".to_string()]);
    glued.update("a".to_string(), "x".to_string());
    assert_eq!(glued.status(), "xNONE");
}

#[test]
fn repeated_names_get_one_slot() {
    let mut cache = Cache::new(
        ",".to_string(),
        vec!["a".to_string(), "b".to_string(), "a".to_string()],
    );
    assert_eq!(cache.status(), "NONE,NONE");
    cache.update("a".to_string(), "1".to_string());
    assert_eq!(cache.status(), "1,NONE");
}

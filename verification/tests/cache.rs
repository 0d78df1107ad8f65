use image_cache::cache::{file_name, Check, ImageCache};

fn cache() -> ImageCache {
    ImageCache::new("/var/cache/images".to_string())
}

#[test]
fn file_name_is_the_text_after_the_last_slash() {
    assert_eq!(file_name("https://h/x.png"), "x.png");
    assert_eq!(file_name("https://h/a/b/c.jpg"), "c.jpg");
    assert_eq!(file_name("a/b"), "b");
    assert_eq!(file_name("/x"), "x");
    assert_eq!(file_name("https://h/x.png?size=1"), "x.png?size=1");
    assert_eq!(file_name("https://h/图片/猫.png"), "猫.png");
    assert_eq!(file_name("é/ü"), "ü");
}

#[test]
fn file_name_is_empty_without_a_slash() {
    assert_eq!(file_name("x.png"), "");
    assert_eq!(file_name(""), "");
    assert_eq!(file_name("猫.png"), "");
}

#[test]
fn file_name_is_empty_after_a_trailing_slash() {
    assert_eq!(file_name("https://h/dir/"), "");
    assert_eq!(file_name("/"), "");
    assert_eq!(file_name("a//"), "");
}

#[test]
fn resolve_path_joins_root_and_file_name() {
    let entry = cache().resolve_path("https://h/x.png");
    assert_eq!(entry.root(), "/var/cache/images");
    assert_eq!(entry.name(), "x.png");
}

#[test]
fn resolve_path_twice_gives_one_entry() {
    let cache = cache();
    let first = cache.resolve_path("https://h/a/b.png");
    let second = cache.resolve_path("https://h/a/b.png");
    assert_eq!(first.name(), "b.png");
    assert_eq!(first, second);
}

#[test]
fn resolve_path_shares_an_entry_between_addresses_with_one_file_name() {
    let cache = cache();
    assert_eq!(cache.resolve_path("https://h/a/x.png"), cache.resolve_path("http://other/x.png"));
}

#[test]
fn resolve_path_gives_the_root_itself_without_file_name() {
    let cache = cache();
    for url in ["https://h/dir/", "x.png", "", "/"] {
        let entry = cache.resolve_path(url);
        assert_eq!(entry.root(), "/var/cache/images");
        assert_eq!(entry.name(), "");
    }
}

#[test]
fn cache_keeps_its_root() {
    assert_eq!(cache().root(), "/var/cache/images");
    assert_eq!(ImageCache::new(String::new()).root(), "");
}

#[test]
fn check_cached_names_the_entry_to_look_at() {
    let cache = cache();
    let entry = cache.resolve_path("https://h/x.png");
    assert_eq!(cache.check_cached("https://h/x.png"), Check::Probe(entry));
}

#[test]
fn check_cached_looks_at_the_root_itself_without_file_name() {
    let cache = cache();
    for url in ["https://h/dir/", "x.png", "", "/"] {
        match cache.check_cached(url) {
            Check::Probe(entry) => {
                assert_eq!(entry.root(), "/var/cache/images");
                assert_eq!(entry.name(), "");
            }
            other => panic!("no probe: {:?}", other),
        }
    }
}

#[test]
fn check_answers_what_the_probe_found() {
    let cache = cache();
    for url in ["https://h/x.png", "https://h/dir/", "x.png"] {
        assert_eq!(cache.check_cached(url).advance(true), Check::Done(true));
        assert_eq!(cache.check_cached(url).advance(false), Check::Done(false));
    }
}

#[test]
fn check_keeps_its_answer() {
    assert_eq!(Check::Done(true).advance(false), Check::Done(true));
    assert_eq!(Check::Done(false).advance(true), Check::Done(false));
}

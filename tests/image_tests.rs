use image_server::cache::is_source_file;
use image_server::filter::copy_command;
use image_server::text::{contains_chars, push_decimal};
use image_server::{
    cache_key, split_back, split_last, Filter, Image, ImageCache, ResolveAction, ResolveEvent,
    Whitelist,
};

fn filter(width: Option<u32>, height: Option<u32>, quality: Option<u8>, webp: bool) -> Filter {
    Filter { width, height, quality, webp }
}

fn strings(v: &[&str]) -> Vec<String> {
    v.iter().map(|s| s.to_string()).collect()
}

#[test]
fn split_last_test() {
    assert!(("grin.source", "jpeg") == split_last("grin.source.jpeg", '.'));
    assert!(("wow", "") == split_last("woww", 'w'));
}

#[test]
fn split_last_without_delimiter() {
    assert_eq!(split_last("grin", '.'), ("grin", ""));
    assert_eq!(split_last("", '.'), ("", ""));
}

#[test]
fn split_back_second_from_end() {
    assert_eq!(split_back("grin.source.jpeg", '.', 2), ("grin", "source.jpeg"));
    assert_eq!(split_back("grin.jpeg", '.', 2), ("grin.jpeg", ""));
    assert_eq!(split_back("a.b.c.d", '.', 1), ("a.b.c", "d"));
}

#[test]
fn decimal_rendering() {
    let mut s = String::from("x");
    push_decimal(&mut s, 0);
    push_decimal(&mut s, 4294967295);
    assert_eq!(s, "x04294967295");
}

#[test]
fn contains_chars_finds_marker() {
    let hay: Vec<char> = "grin.source.jpeg".chars().collect();
    let needle: Vec<char> = ".source".chars().collect();
    assert!(contains_chars(&hay, &needle));
    let other: Vec<char> = ".sauce".chars().collect();
    assert!(!contains_chars(&hay, &other));
}

#[test]
fn key_without_filter_is_identity() {
    assert_eq!(cache_key("grin", "jpeg", None), "grin.jpeg");
}

#[test]
fn key_with_width() {
    assert_eq!(cache_key("grin", "jpeg", Some(filter(Some(500), None, None, false))), "grin.w500.jpeg");
}

#[test]
fn key_with_height_and_quality() {
    assert_eq!(
        cache_key("grin", "jpeg", Some(filter(None, Some(300), Some(80), false))),
        "grin.h300q80.jpeg"
    );
}

#[test]
fn key_with_quality_alone() {
    assert_eq!(cache_key("grin", "png", Some(filter(None, None, Some(75), false))), "grin.q75.png");
}

#[test]
fn key_with_empty_filter() {
    assert_eq!(cache_key("grin", "png", Some(filter(None, None, None, false))), "grin.png");
}

#[test]
fn key_forces_webp_extension() {
    assert_eq!(cache_key("grin", "jpeg", Some(filter(Some(10), None, None, true))), "grin.w10.webp");
}

#[test]
fn key_width_takes_precedence() {
    let both = cache_key("grin", "jpeg", Some(filter(Some(500), Some(300), Some(90), false)));
    let width = cache_key("grin", "jpeg", Some(filter(Some(500), None, Some(90), false)));
    assert_eq!(both, "grin.w500q90.jpeg");
    assert_eq!(both, width);
}

#[test]
fn key_is_deterministic() {
    let f = Some(filter(Some(12), None, Some(3), true));
    assert_eq!(cache_key("a", "b", f), cache_key("a", "b", f));
}

#[test]
fn copy_command_args() {
    assert_eq!(copy_command("grin.source.jpeg", "grin.jpeg"), strings(&["cp", "grin.source.jpeg", "grin.jpeg"]));
}

#[test]
fn webp_command_with_width_and_quality() {
    let f = filter(Some(500), Some(200), Some(80), true);
    assert_eq!(
        f.get_command("in.png", "out.webp"),
        strings(&["cwebp", "-q", "80", "-resize", "500", "0", "in.png", "-o", "out.webp"])
    );
}

#[test]
fn webp_command_with_height() {
    let f = filter(None, Some(200), None, true);
    assert_eq!(
        f.get_command("in.png", "out.webp"),
        strings(&["cwebp", "-resize", "0", "200", "in.png", "-o", "out.webp"])
    );
}

#[test]
fn raster_command_with_height_and_quality() {
    let f = filter(None, Some(300), Some(60), false);
    assert_eq!(
        f.get_command("in.jpeg", "out.jpeg"),
        strings(&["convert", "-resize", "x300", "-q", "60", "in.jpeg", "out.jpeg"])
    );
}

#[test]
fn raster_command_with_width() {
    let f = filter(Some(640), None, None, false);
    assert_eq!(f.get_command("in.jpeg", "out.jpeg"), strings(&["convert", "-resize", "640", "in.jpeg", "out.jpeg"]));
}

#[test]
fn raster_command_without_work_copies() {
    let f = filter(None, None, None, false);
    assert_eq!(f.get_command("in.jpeg", "out.jpeg"), strings(&["cp", "in.jpeg", "out.jpeg"]));
}

#[test]
fn image_new_splits_name() {
    let img = Image::new("grin.jpeg");
    assert_eq!(img.name(), "grin");
    assert_eq!(img.image_type(), "jpeg");
    assert_eq!(img.file_name(), "grin.jpeg");
    assert_eq!(img.filter_spec(), None);
    assert_eq!(img.to_mime_str(), "image/jpeg");
}

#[test]
fn image_command_without_filter_copies() {
    let img = Image::new("grin.jpeg");
    assert_eq!(img.get_command("grin.source.jpeg"), strings(&["cp", "grin.source.jpeg", "grin.jpeg"]));
}

#[test]
fn image_filter_renames() {
    let mut img = Image::new("grin.jpeg");
    img.filter(Some(filter(Some(500), None, None, false)));
    assert_eq!(img.file_name(), "grin.w500.jpeg");
    assert_eq!(
        img.get_command("grin.source.jpeg"),
        strings(&["convert", "-resize", "500", "grin.source.jpeg", "grin.w500.jpeg"])
    );
}

#[test]
fn image_filter_none_keeps_name() {
    let mut img = Image::new("grin.jpeg");
    img.filter(None);
    assert_eq!(img.file_name(), "grin.jpeg");
    assert_eq!(img.filter_spec(), None);
}

#[test]
fn removing_filter_restores_identity_name() {
    let mut img = Image::new("cat.jpg");
    img.filter(Some(filter(Some(500), None, None, false)));
    assert_eq!(img.file_name(), "cat.w500.jpg");
    img.filter(None);
    assert_eq!(img.filter_spec(), None);
    assert_eq!(img.file_name(), "cat.jpg");
    assert_eq!(img.get_command("cat.source.jpg"), strings(&["cp", "cat.source.jpg", "cat.jpg"]));
}

#[test]
fn undecodable_qs_restores_identity_name() {
    let mut img = Image::new("cat.jpg");
    img.filter(Some(filter(None, Some(20), None, false)));
    img.filter_from_qs("width=oops", None);
    assert_eq!(img.file_name(), "cat.jpg");
}

#[test]
fn undecodable_qs_is_like_no_query() {
    let mut plain = Image::new("woww");
    plain.filter_from_qs("", None);
    let mut malformed = Image::new("woww");
    malformed.filter_from_qs("width=abc", None);
    assert_eq!(plain.file_name(), "woww");
    assert_eq!(malformed.file_name(), "woww");
    assert_eq!(malformed.filter_spec(), None);
}

#[test]
fn webp_source_always_yields_webp() {
    let mut img = Image::new("grin.webp");
    img.filter(Some(filter(None, None, Some(50), false)));
    assert_eq!(img.filter_spec(), Some(filter(None, None, Some(50), true)));
    assert_eq!(img.file_name(), "grin.q50.webp");
}

#[test]
fn filter_from_empty_qs_keeps_request() {
    let mut img = Image::new("grin.jpeg");
    img.filter_from_qs("", Some(filter(Some(500), None, None, false)));
    assert_eq!(img.file_name(), "grin.jpeg");
    assert_eq!(img.filter_spec(), None);
}

#[test]
fn filter_from_qs_attaches() {
    let mut img = Image::new("grin.jpeg");
    img.filter_from_qs("width=500", Some(filter(Some(500), None, None, false)));
    assert_eq!(img.file_name(), "grin.w500.jpeg");
}

#[test]
fn source_file_names() {
    assert!(is_source_file("grin.source.jpeg"));
    assert!(!is_source_file("grin.jpeg"));
}

#[test]
fn resolve_miss_transform_then_hit() {
    let mut cache = ImageCache::new();
    let mut img = Image::new("grin.jpeg");
    img.filter(Some(filter(Some(500), None, None, false)));
    assert_eq!(cache.get_image_data(&img, ResolveEvent::Start), ResolveAction::ScanSources);
    let names = strings(&["grin.source.jpeg", "other.txt", "cat.source.png"]);
    assert_eq!(
        cache.get_image_data(&img, ResolveEvent::Scanned(names)),
        ResolveAction::RunCommand(strings(&["convert", "-resize", "500", "grin.source.jpeg", "grin.w500.jpeg"]))
    );
    assert_eq!(
        cache.get_image_data(&img, ResolveEvent::Transformed(true)),
        ResolveAction::ReadOutput("grin.w500.jpeg".to_string())
    );
    assert_eq!(
        cache.get_image_data(&img, ResolveEvent::OutputRead(Some(vec![1, 2, 3]))),
        ResolveAction::Respond(vec![1, 2, 3])
    );
    assert_eq!(cache.get_image_data(&img, ResolveEvent::Start), ResolveAction::Respond(vec![1, 2, 3]));
}

#[test]
fn resolve_known_source_runs_without_scan() {
    let mut cache = ImageCache::new();
    let img = Image::new("cat.png");
    cache.update_sources(&strings(&["cat.source.png"]));
    assert_eq!(
        cache.get_image_data(&img, ResolveEvent::Start),
        ResolveAction::RunCommand(strings(&["cp", "cat.source.png", "cat.png"]))
    );
}

#[test]
fn resolve_missing_source_is_not_found() {
    let mut cache = ImageCache::new();
    let img = Image::new("dog.png");
    assert_eq!(cache.get_image_data(&img, ResolveEvent::Start), ResolveAction::ScanSources);
    assert_eq!(
        cache.get_image_data(&img, ResolveEvent::Scanned(strings(&["cat.source.png", "dog.png"]))),
        ResolveAction::NotFound
    );
}

#[test]
fn resolve_transform_failure() {
    let mut cache = ImageCache::new();
    let img = Image::new("cat.png");
    assert_eq!(cache.get_image_data(&img, ResolveEvent::Transformed(false)), ResolveAction::TransformFailure);
    assert_eq!(cache.get_image_data(&img, ResolveEvent::Start), ResolveAction::ScanSources);
}

#[test]
fn resolve_read_failure_caches_nothing() {
    let mut cache = ImageCache::new();
    let img = Image::new("cat.png");
    assert_eq!(cache.get_image_data(&img, ResolveEvent::OutputRead(None)), ResolveAction::ReadFailure);
    assert_eq!(cache.get_image_data(&img, ResolveEvent::Start), ResolveAction::ScanSources);
}

#[test]
fn cached_entry_is_never_replaced() {
    let mut cache = ImageCache::new();
    let img = Image::new("cat.png");
    cache.get_image_data(&img, ResolveEvent::OutputRead(Some(vec![7])));
    assert_eq!(
        cache.get_image_data(&img, ResolveEvent::OutputRead(Some(vec![8]))),
        ResolveAction::Respond(vec![7])
    );
}

#[test]
fn distinct_keys_both_complete() {
    let mut cache = ImageCache::new();
    let a = Image::new("cat.png");
    let b = Image::new("dog.png");
    let names = strings(&["cat.source.png", "dog.source.png"]);
    assert_eq!(cache.get_image_data(&a, ResolveEvent::Start), ResolveAction::ScanSources);
    assert_eq!(
        cache.get_image_data(&a, ResolveEvent::Scanned(names)),
        ResolveAction::RunCommand(strings(&["cp", "cat.source.png", "cat.png"]))
    );
    assert_eq!(
        cache.get_image_data(&a, ResolveEvent::OutputRead(Some(vec![1]))),
        ResolveAction::Respond(vec![1])
    );
    assert_eq!(
        cache.get_image_data(&b, ResolveEvent::Start),
        ResolveAction::RunCommand(strings(&["cp", "dog.source.png", "dog.png"]))
    );
    assert_eq!(
        cache.get_image_data(&b, ResolveEvent::OutputRead(Some(vec![2]))),
        ResolveAction::Respond(vec![2])
    );
    assert_eq!(cache.get_image_data(&a, ResolveEvent::Start), ResolveAction::Respond(vec![1]));
    assert_eq!(cache.get_image_data(&b, ResolveEvent::Start), ResolveAction::Respond(vec![2]));
}

#[test]
fn later_source_wins() {
    let mut cache = ImageCache::new();
    let img = Image::new("cat.png");
    cache.update_sources(&strings(&["cat.source.png", "cat.source.jpeg"]));
    assert_eq!(
        cache.get_image_data(&img, ResolveEvent::Start),
        ResolveAction::RunCommand(strings(&["cp", "cat.source.jpeg", "cat.png"]))
    );
}

#[test]
fn whitelist_extracts_path() {
    let w = Whitelist::new("site", "images/");
    assert_eq!(w.extract_paths("<img src=\"images/cat.jpg\">"), Some(strings(&["cat.jpg"])));
}

#[test]
fn whitelist_extracts_every_occurrence() {
    let w = Whitelist::new("site", "images/");
    assert_eq!(
        w.extract_paths("a images/one.png b url(images/two.gif>c images/three.webp/"),
        Some(strings(&["one.png", "two.gif", "three.webp"]))
    );
}

#[test]
fn whitelist_no_marker_gives_nothing() {
    let w = Whitelist::new("site", "images/");
    assert_eq!(w.extract_paths("<p>hello</p>"), Some(vec![]));
}

#[test]
fn whitelist_missing_delimiter_rejects_file() {
    let w = Whitelist::new("site", "images/");
    assert_eq!(w.extract_paths("x images/cat.jpg"), None);
}

#[test]
fn whitelist_glob_pattern() {
    assert_eq!(Whitelist::new("site", "images/").glob_pattern(), "site/**/*");
}

#[test]
fn whitelist_file_selection() {
    assert!(Whitelist::is_file_to_parse("site/index.html"));
    assert!(Whitelist::is_file_to_parse("site/app.js"));
    assert!(Whitelist::is_file_to_parse("site/style.css"));
    assert!(!Whitelist::is_file_to_parse("site/cat.jpg"));
    assert!(!Whitelist::is_file_to_parse("site/README"));
}

#[test]
fn lib_image_cache_test() {
    let image_cache = ImageCache::new();
    println!("{:?}", image_cache);
    let img = Image::new("grin.jpeg");
    let mut cache = image_cache.clone();
    assert_eq!(cache.get_image_data(&img, ResolveEvent::Start), ResolveAction::ScanSources);
}

#[test]
fn lib_update_sources_test() {
    let mut image_cache = ImageCache::new();
    image_cache.update_sources(&strings(&["grin.source.jpeg", "grin.jpeg", "Cargo.toml"]));
    println!("{:?}", image_cache);
    let img = Image::new("grin.jpeg");
    assert_eq!(
        image_cache.get_image_data(&img, ResolveEvent::Start),
        ResolveAction::RunCommand(strings(&["cp", "grin.source.jpeg", "grin.jpeg"]))
    );
}

#[test]
fn lib1_image_cache_test() {
    let image_cache = ImageCache::new();
    println!("{:?}", image_cache);
}

#[test]
fn lib1_update_sources_test() {
    let mut image_cache = ImageCache::new();
    image_cache.update_sources(&strings(&["mountain.source.jpg", "notes.txt"]));
    println!("{:?}", image_cache);
    let img = Image::new("notes.txt");
    assert_eq!(
        image_cache.get_image_data(&img, ResolveEvent::Scanned(strings(&["mountain.source.jpg", "notes.txt"]))),
        ResolveAction::NotFound
    );
}

#[test]
fn command_test() {
    assert_eq!(
        Image::new("grin.jpeg").get_command("grin.source.jpeg"),
        strings(&["cp", "grin.source.jpeg", "grin.jpeg"])
    );
}

use img_derivatives::config::{Config, ConfigError};
use img_derivatives::dispatch::{count_failures, derive_unit, dispatch, settle};
use img_derivatives::naming::{apply_rules_to, derive_name, is_already_derivative, replace_chars};
use img_derivatives::request::{parse_request, RequestError};
use img_derivatives::resize::{decode, resize, target_height, Picture, ResizeError};

fn rules(pairs: &[(&str, &str)]) -> Vec<(String, String)> {
    pairs.iter().map(|(a, b)| (a.to_string(), b.to_string())).collect()
}

fn gradient(width: u32, height: u32) -> Picture {
    let mut pixels = Vec::new();
    for y in 0..height {
        for x in 0..width {
            pixels.push((x * 255 / width.max(1)) as u8);
            pixels.push((y * 255 / height.max(1)) as u8);
            pixels.push(128);
        }
    }
    Picture { width, height, pixels }
}

fn config(sizes: Vec<u32>) -> Config {
    Config { sizes, replacements: Vec::new() }
}

#[test]
fn derive_name_replaces_extension_with_width_marker() {
    assert_eq!(derive_name("photo.jpg", &Vec::new(), 100), "photo-100.jpg");
    assert_eq!(derive_name("photo.jpg", &Vec::new(), 200), "photo-200.jpg");
}

#[test]
fn derive_name_appends_marker_without_extension() {
    assert_eq!(derive_name("scan.png", &Vec::new(), 640), "scan.png-640.jpg");
    assert_eq!(derive_name("", &Vec::new(), 7), "-7.jpg");
}

#[test]
fn derive_name_is_deterministic() {
    let r = rules(&[("raw/", "out/")]);
    let first = derive_name("raw/cat.jpg", &r, 320);
    let second = derive_name("raw/cat.jpg", &r, 320);
    assert_eq!(first, "out/cat-320.jpg");
    assert_eq!(first, second);
    assert!(is_already_derivative(&first, &vec![320]));
}

#[test]
fn rename_rules_apply_in_sequence() {
    let r = rules(&[("a", "b"), ("b", "c")]);
    assert_eq!(apply_rules_to("a.jpg", &r), "c.jpg");
    assert_eq!(derive_name("a.jpg", &r, 100), "c-100.jpg");
}

#[test]
fn rename_rule_replaces_every_occurrence() {
    let r = rules(&[("in", "out")]);
    assert_eq!(apply_rules_to("in/bin/in.jpg", &r), "out/bout/out.jpg");
}

#[test]
fn replace_with_empty_pattern_matches_std() {
    let s: Vec<char> = "ab".chars().collect();
    let rep: Vec<char> = "x".chars().collect();
    let r: String = replace_chars(&s, &Vec::new(), &rep).into_iter().collect();
    assert_eq!(r, "ab".replace("", "x"));
    assert_eq!(r, "xaxbx");
}

#[test]
fn guard_recognises_derivative() {
    assert!(is_already_derivative("photo-100.jpg", &vec![100, 200]));
    assert!(is_already_derivative("dir/photo-200.jpg", &vec![100, 200]));
}

#[test]
fn guard_passes_plain_source() {
    assert!(!is_already_derivative("photo.jpg", &vec![100, 200]));
    assert!(!is_already_derivative("photo-300.jpg", &vec![100, 200]));
    assert!(!is_already_derivative("photo-100.png", &vec![100, 200]));
    assert!(!is_already_derivative("photo-100.jpg", &Vec::new()));
}

#[test]
fn guard_recognises_every_derived_name() {
    let sizes = vec![1, 64, 100, 4096];
    let r = rules(&[("src", "dst")]);
    for w in &sizes {
        let name = derive_name("src/image.jpg", &r, *w);
        assert!(is_already_derivative(&name, &sizes));
    }
}

#[test]
fn parse_sizes_reads_widths_in_order() {
    assert_eq!(Config::parse_sizes(Some("100,200,100")), Ok(vec![100, 200, 100]));
    assert_eq!(Config::parse_sizes(Some("4294967295")), Ok(vec![4294967295]));
    assert_eq!(Config::parse_sizes(None), Ok(vec![]));
}

#[test]
fn parse_sizes_refuses_malformed_width() {
    assert_eq!(Config::parse_sizes(Some("100,abc")), Err(ConfigError::InvalidSize));
    assert_eq!(Config::parse_sizes(Some("100, 200")), Err(ConfigError::InvalidSize));
    assert_eq!(Config::parse_sizes(Some("0")), Err(ConfigError::InvalidSize));
    assert_eq!(Config::parse_sizes(Some("")), Err(ConfigError::InvalidSize));
    assert_eq!(Config::parse_sizes(Some("4294967296")), Err(ConfigError::InvalidSize));
    assert_eq!(Config::parse_sizes(Some("100,")), Err(ConfigError::InvalidSize));
}

#[test]
fn parse_replacements_splits_at_first_colon() {
    let r = Config::parse_replacements(Some("a:b,c:d:e,:x")).unwrap();
    assert_eq!(r, rules(&[("a", "b"), ("c", "d:e"), ("", "x")]));
    assert_eq!(Config::parse_replacements(None).unwrap(), Vec::new());
}

#[test]
fn parse_replacements_refuses_pair_without_colon() {
    assert_eq!(Config::parse_replacements(Some("a:b,cd")), Err(ConfigError::InvalidReplacement));
}

#[test]
fn config_new_reports_first_bad_setting() {
    let c = Config::new(Some("100,200"), Some("raw:thumb")).ok().unwrap();
    assert_eq!(c.sizes, vec![100, 200]);
    assert_eq!(c.replacements, rules(&[("raw", "thumb")]));
    assert!(matches!(Config::new(Some("x"), Some("y")), Err(ConfigError::InvalidSize)));
    assert!(matches!(Config::new(Some("1"), Some("y")), Err(ConfigError::InvalidReplacement)));
    let empty = Config::new(None, None).ok().unwrap();
    assert!(empty.sizes.is_empty() && empty.replacements.is_empty());
}

#[test]
fn target_height_rounds_down() {
    assert_eq!(target_height(400, 300, 100), Ok(75));
    assert_eq!(target_height(3, 10, 1), Ok(3));
    assert_eq!(target_height(100, 50, 300), Ok(150));
}

#[test]
fn target_height_refuses_zero_source_width() {
    assert_eq!(target_height(0, 300, 100), Err(ResizeError::ZeroSourceWidth));
    assert_eq!(target_height(0, 0, 0), Err(ResizeError::ZeroSourceWidth));
}

#[test]
fn target_height_edge_cases() {
    assert_eq!(target_height(400, 300, 0), Err(ResizeError::ZeroTargetWidth));
    assert_eq!(target_height(1000, 10, 1), Err(ResizeError::EmptyResult));
    assert_eq!(target_height(1, 1, 70000), Err(ResizeError::TooLarge));
    assert_eq!(target_height(1, 70000, 1), Err(ResizeError::TooLarge));
    assert_eq!(target_height(65535, 65535, 65535), Ok(65535));
}

#[test]
fn resize_gives_requested_width_and_proportional_height() {
    let img = gradient(40, 30);
    let out = resize(&img, 10).ok().unwrap();
    assert_eq!((out.width, out.height), (10, 7));
    assert_eq!(&out.bytes[..2], &[0xff, 0xd8]);
    let back = decode(&out.bytes).unwrap();
    assert_eq!((back.width, back.height), (10, 7));
    assert_eq!(img.pixels.len(), 40 * 30 * 3);
}

#[test]
fn resize_refuses_zero_width_source() {
    let img = Picture { width: 0, height: 5, pixels: Vec::new() };
    assert!(matches!(resize(&img, 10), Err(ResizeError::ZeroSourceWidth)));
}

#[test]
fn resize_refuses_empty_result() {
    let img = gradient(100, 2);
    assert!(matches!(resize(&img, 10), Err(ResizeError::EmptyResult)));
}

#[test]
fn decode_refuses_garbage() {
    assert!(decode(&[1, 2, 3, 4]).is_none());
}

#[test]
fn dispatch_produces_one_unit_per_width() {
    let img = gradient(400, 300);
    let units = dispatch(&img, "photo.jpg", &config(vec![100, 200]));
    assert_eq!(units.len(), 2);
    assert_eq!(units[0].target, "photo-100.jpg");
    assert_eq!(units[1].target, "photo-200.jpg");
    let first = units[0].result.as_ref().ok().unwrap();
    let second = units[1].result.as_ref().ok().unwrap();
    assert_eq!((first.width, first.height), (100, 75));
    assert_eq!((second.width, second.height), (200, 150));
    let d = decode(&second.bytes).unwrap();
    assert_eq!((d.width, d.height), (200, 150));
}

#[test]
fn dispatch_of_no_sizes_is_empty() {
    let img = gradient(8, 8);
    let units = dispatch(&img, "photo.jpg", &config(Vec::new()));
    assert!(units.is_empty());
    let outcomes = settle(&units, &Vec::new());
    assert!(outcomes.is_empty());
    assert_eq!(count_failures(&outcomes), 0);
}

#[test]
fn failed_upload_is_isolated() {
    let img = gradient(64, 48);
    let units = dispatch(&img, "pic.jpg", &config(vec![16, 32, 48]));
    let outcomes = settle(&units, &vec![true, false, true]);
    assert_eq!(outcomes.len(), 3);
    assert!(outcomes[0].delivered && !outcomes[1].delivered && outcomes[2].delivered);
    assert_eq!(outcomes[1].target, "pic-32.jpg");
    assert_eq!(count_failures(&outcomes), 1);
}

#[test]
fn failed_resize_is_isolated() {
    let img = gradient(1000, 10);
    let units = dispatch(&img, "wide.jpg", &config(vec![500, 1, 100]));
    assert!(units[0].result.is_ok());
    assert!(matches!(units[1].result, Err(ResizeError::EmptyResult)));
    assert!(units[2].result.is_ok());
    let outcomes = settle(&units, &vec![true, true, true]);
    assert_eq!(count_failures(&outcomes), 1);
    let short = settle(&units, &vec![true]);
    assert_eq!(count_failures(&short), 2);
}

#[test]
fn derive_unit_names_and_resizes() {
    let img = gradient(20, 10);
    let u = derive_unit(&img, "a/b.jpg", &rules(&[("a/", "c/")]), 4);
    assert_eq!(u.width, 4);
    assert_eq!(u.target, "c/b-4.jpg");
    let r = u.result.ok().unwrap();
    assert_eq!((r.width, r.height), (4, 2));
}

#[test]
fn parse_request_reports_missing_field() {
    let s = |v: &str| Some(v.to_string());
    let ok = parse_request(s("b"), s("k"), s("eu-west-1"), s("100")).ok().unwrap();
    assert_eq!((ok.bucket.as_str(), ok.key.as_str(), ok.region.as_str(), ok.size.as_str()), ("b", "k", "eu-west-1", "100"));
    assert!(matches!(parse_request(None, s("k"), s("r"), s("1")), Err(RequestError::MissingBucket)));
    assert!(matches!(parse_request(s("b"), None, None, s("1")), Err(RequestError::MissingKey)));
    assert!(matches!(parse_request(s("b"), s("k"), None, s("1")), Err(RequestError::MissingRegion)));
    assert!(matches!(parse_request(s("b"), s("k"), s("r"), None), Err(RequestError::MissingSize)));
}

//! Behavioral tests for the cover cache: hashing, save planning, lookup,
//! URLs, statistics, cleanup and clearing.

use music_library::cover::{
    download_and_cache_cover, extract_and_cache_cover, CacheFile, CoverCache, CoverSize,
    EmbeddedPicture, HttpResponseData, ShardDir,
};

fn png_bytes(width: u32, height: u32) -> Vec<u8> {
    let img = image::DynamicImage::new_rgb8(width, height);
    let mut buf = std::io::Cursor::new(Vec::new());
    img.write_to(&mut buf, image::ImageFormat::Png).unwrap();
    buf.into_inner()
}

#[test]
fn hash_known_vectors() {
    assert_eq!(
        CoverCache::hash_cover(b""),
        "e3b0c44298fc1c149afbf4c8996fb92427ae41e4649b934ca495991b7852b855"
    );
    assert_eq!(
        CoverCache::hash_cover(b"abc"),
        "ba7816bf8f01cfea414140de5dae2223b00361a396177a9cb410ff61f20015ad"
    );
}

#[test]
fn hash_is_deterministic() {
    let data = vec![0u8, 1, 2, 3, 254, 255];
    assert_eq!(CoverCache::hash_cover(&data), CoverCache::hash_cover(&data));
}

#[test]
fn save_cover_plans_three_sharded_writes() {
    let cache = CoverCache::new(String::from("/cache"));
    let data = png_bytes(10, 20);
    let plan = cache.save_cover(&data, Some("image/png"), false).unwrap();
    assert_eq!(plan.hash, CoverCache::hash_cover(&data));
    assert_eq!(plan.hash.len(), 64);
    assert_eq!(plan.writes.len(), 3);
    let shard = &plan.hash[0..2];
    assert_eq!(
        plan.writes[0].path,
        format!("/cache/orig/{}/{}.png", shard, plan.hash)
    );
    assert_eq!(plan.writes[0].contents, data);
    assert_eq!(
        plan.writes[1].path,
        format!("/cache/mid/{}/{}.jpg", shard, plan.hash)
    );
    assert_eq!(
        plan.writes[2].path,
        format!("/cache/small/{}/{}.jpg", shard, plan.hash)
    );
}

#[test]
fn save_cover_defaults_to_jpg_extension() {
    let cache = CoverCache::new(String::from("/cache"));
    let data = png_bytes(4, 4);
    let plan = cache.save_cover(&data, None, false).unwrap();
    assert!(plan.writes[0].path.ends_with(".jpg"));
    let plan2 = cache.save_cover(&data, Some("text/plain"), false).unwrap();
    assert!(plan2.writes[0].path.ends_with(".jpg"));
    let plan3 = cache.save_cover(&data, Some("image/webp"), false).unwrap();
    assert!(plan3.writes[0].path.ends_with(".webp"));
    let plan4 = cache.save_cover(&data, Some("image/gif"), false).unwrap();
    assert!(plan4.writes[0].path.ends_with(".gif"));
}

#[test]
fn save_cover_identical_bytes_identical_plan() {
    let cache = CoverCache::new(String::from("/cache"));
    let data = png_bytes(10, 20);
    let plan1 = cache.save_cover(&data, Some("image/png"), false).unwrap();
    let plan2 = cache.save_cover(&data, Some("image/png"), false).unwrap();
    assert_eq!(plan1.hash, plan2.hash);
    assert_eq!(plan1.writes.len(), plan2.writes.len());
    for (a, b) in plan1.writes.iter().zip(plan2.writes.iter()) {
        assert_eq!(a.path, b.path);
        assert_eq!(a.contents, b.contents);
    }
}

#[test]
fn save_cover_already_cached_plans_no_work() {
    let cache = CoverCache::new(String::from("/cache"));
    let data = png_bytes(10, 20);
    let first = cache.save_cover(&data, Some("image/png"), false).unwrap();
    let again = cache.save_cover(&data, Some("image/png"), true).unwrap();
    assert_eq!(again.hash, first.hash);
    assert!(again.writes.is_empty());
}

#[test]
fn save_cover_rejects_undecodable_bytes() {
    let cache = CoverCache::new(String::from("/cache"));
    let r = cache.save_cover(b"definitely not an image", None, false);
    assert!(r.is_err());
}

#[test]
fn derived_tiers_have_exact_dimensions() {
    let cache = CoverCache::new(String::from("/cache"));
    let data = png_bytes(10, 20);
    let plan = cache.save_cover(&data, Some("image/png"), false).unwrap();
    let mid = image::load_from_memory(&plan.writes[1].contents).unwrap();
    assert_eq!(mid.width(), 300);
    assert_eq!(mid.height(), 300);
    let small = image::load_from_memory(&plan.writes[2].contents).unwrap();
    assert_eq!(small.width(), 120);
    assert_eq!(small.height(), 120);
}

#[test]
fn get_cover_path_probes_extensions_in_order() {
    let cache = CoverCache::new(String::from("/c"));
    let png = String::from("/c/mid/ab/abcd.png");
    let jpg = String::from("/c/mid/ab/abcd.jpg");
    let present = vec![png.clone()];
    assert_eq!(
        cache.get_cover_path("abcd", CoverSize::Mid, &present),
        Some(png.clone())
    );
    let present_both = vec![png.clone(), jpg.clone()];
    assert_eq!(
        cache.get_cover_path("abcd", CoverSize::Mid, &present_both),
        Some(jpg)
    );
}

#[test]
fn get_cover_path_absent_iff_no_candidate_exists() {
    let cache = CoverCache::new(String::from("/c"));
    let present: Vec<String> = Vec::new();
    assert_eq!(cache.get_cover_path("abcd", CoverSize::Mid, &present), None);
    let unrelated = vec![String::from("/c/small/ab/abcd.jpg")];
    assert_eq!(cache.get_cover_path("abcd", CoverSize::Mid, &unrelated), None);
    let gif_only = vec![String::from("/c/orig/ab/abcd.gif")];
    assert_eq!(
        cache.get_cover_path("abcd", CoverSize::Original, &gif_only),
        Some(String::from("/c/orig/ab/abcd.gif"))
    );
}

#[test]
fn has_cover_goes_by_the_mid_tier() {
    let cache = CoverCache::new(String::from("/c"));
    let mid_present = vec![String::from("/c/mid/ab/abcd.jpg")];
    assert!(cache.has_cover("abcd", &mid_present));
    let small_only = vec![String::from("/c/small/ab/abcd.jpg")];
    assert!(!cache.has_cover("abcd", &small_only));
}

#[test]
fn get_cover_url_wraps_the_found_path() {
    let cache = CoverCache::new(String::from("/c"));
    let present = vec![String::from("/c/mid/ab/abcd.jpg")];
    assert_eq!(
        cache.get_cover_url("abcd", CoverSize::Mid, &present),
        Some(String::from("http://asset.localhost//c/mid/ab/abcd.jpg"))
    );
    let empty: Vec<String> = Vec::new();
    assert_eq!(cache.get_cover_url("abcd", CoverSize::Mid, &empty), None);
}

#[test]
fn get_cover_url_escapes_a_drive_letter() {
    let cache = CoverCache::new(String::from("C:\\cache"));
    let path = cache.cover_path("abcd", CoverSize::Mid, "jpg");
    assert_eq!(path, "C:\\cache/mid/ab/abcd.jpg");
    let present = vec![path];
    assert_eq!(
        cache.get_cover_url("abcd", CoverSize::Mid, &present),
        Some(String::from("http://asset.localhost/C%3A/cache/mid/ab/abcd.jpg"))
    );
}

#[test]
fn stats_count_files_and_sum_sizes() {
    let cache = CoverCache::new(String::from("/c"));
    let files = vec![
        CacheFile { path: String::from("/c/small/aa/a1.jpg"), size: 100 },
        CacheFile { path: String::from("/c/mid/aa/a1.jpg"), size: 200 },
        CacheFile { path: String::from("/c/orig/aa/a1.png"), size: 50 },
    ];
    let stats = cache.get_stats(&files);
    assert_eq!(stats.file_count, 3);
    assert_eq!(stats.total_size, 350);
    let none: Vec<CacheFile> = Vec::new();
    let empty = cache.get_stats(&none);
    assert_eq!(empty.file_count, 0);
    assert_eq!(empty.total_size, 0);
}

#[test]
fn cleanup_removes_exactly_the_orphans() {
    let cache = CoverCache::new(String::from("/c"));
    let files = vec![
        CacheFile { path: String::from("/c/small/aa/aaa111.jpg"), size: 1 },
        CacheFile { path: String::from("/c/mid/bb/bbb222.jpg"), size: 1 },
        CacheFile { path: String::from("/c/orig/aa/aaa111.png"), size: 1 },
        CacheFile { path: String::from("/c/orig/cc/ccc333.webp"), size: 1 },
    ];
    let valid = vec![String::from("aaa111")];
    let plan = cache.cleanup_orphaned(&valid, &files);
    assert_eq!(
        plan,
        vec![
            String::from("/c/mid/bb/bbb222.jpg"),
            String::from("/c/orig/cc/ccc333.webp"),
        ]
    );
    assert_eq!(plan.len(), 2);
    let everything_valid = vec![
        String::from("aaa111"),
        String::from("bbb222"),
        String::from("ccc333"),
    ];
    assert!(cache.cleanup_orphaned(&everything_valid, &files).is_empty());
}

#[test]
fn clear_all_lists_every_shard_and_estimates_the_count() {
    let cache = CoverCache::new(String::from("/c"));
    let shards = vec![
        ShardDir { path: String::from("/c/small/aa"), file_count: 2 },
        ShardDir { path: String::from("/c/mid/aa"), file_count: 2 },
        ShardDir { path: String::from("/c/orig/aa"), file_count: 3 },
    ];
    let (dirs, removed) = cache.clear_all(&shards);
    assert_eq!(
        dirs,
        vec![
            String::from("/c/small/aa"),
            String::from("/c/mid/aa"),
            String::from("/c/orig/aa"),
        ]
    );
    assert_eq!(removed, 7);
}

#[test]
fn tier_dirs_are_fixed() {
    let cache = CoverCache::new(String::from("/c"));
    assert_eq!(
        cache.tier_dirs(),
        vec![
            String::from("/c/small"),
            String::from("/c/mid"),
            String::from("/c/orig"),
        ]
    );
}

#[test]
fn extract_without_picture_is_no_cover() {
    let cache = CoverCache::new(String::from("/c"));
    let r = extract_and_cache_cover(&cache, None, false).unwrap();
    assert!(r.is_none());
}

#[test]
fn extract_with_picture_plans_a_save() {
    let cache = CoverCache::new(String::from("/c"));
    let data = png_bytes(8, 8);
    let pic = EmbeddedPicture { data: data.clone(), mime_type: Some(String::from("image/png")) };
    let plan = extract_and_cache_cover(&cache, Some(&pic), false)
        .unwrap()
        .unwrap();
    assert_eq!(plan.hash, CoverCache::hash_cover(&data));
    assert_eq!(plan.writes.len(), 3);
    assert!(plan.writes[0].path.ends_with(".png"));
}

#[test]
fn extract_with_bad_picture_is_an_error() {
    let cache = CoverCache::new(String::from("/c"));
    let pic = EmbeddedPicture { data: vec![1, 2, 3], mime_type: None };
    assert!(extract_and_cache_cover(&cache, Some(&pic), false).is_err());
}

#[test]
fn download_non_success_or_empty_is_no_cover() {
    let cache = CoverCache::new(String::from("/c"));
    let not_found = HttpResponseData {
        success: false,
        content_type: None,
        body: png_bytes(4, 4),
    };
    assert!(download_and_cache_cover(&cache, &not_found, false)
        .unwrap()
        .is_none());
    let empty = HttpResponseData {
        success: true,
        content_type: Some(String::from("image/png")),
        body: Vec::new(),
    };
    assert!(download_and_cache_cover(&cache, &empty, false)
        .unwrap()
        .is_none());
}

#[test]
fn download_success_plans_a_save() {
    let cache = CoverCache::new(String::from("/c"));
    let data = png_bytes(6, 3);
    let ok = HttpResponseData {
        success: true,
        content_type: Some(String::from("image/png")),
        body: data.clone(),
    };
    let plan = download_and_cache_cover(&cache, &ok, false).unwrap().unwrap();
    assert_eq!(plan.hash, CoverCache::hash_cover(&data));
    assert_eq!(plan.writes.len(), 3);
}

#[test]
fn download_undecodable_body_is_an_error() {
    let cache = CoverCache::new(String::from("/c"));
    let bad = HttpResponseData {
        success: true,
        content_type: None,
        body: vec![9, 9, 9, 9],
    };
    assert!(download_and_cache_cover(&cache, &bad, false).is_err());
}

#[test]
fn short_hash_shards_by_what_there_is() {
    let cache = CoverCache::new(String::from("/c"));
    assert_eq!(
        cache.cover_path("a", CoverSize::Small, "jpg"),
        "/c/small/a/a.jpg"
    );
}

use mediadup::classify::{classify, ends_with, matches_filter, str_eq, validate_media_type};
use mediadup::digest::{digest_value, Sha256Digest};
use mediadup::index::GroupIndex;
use mediadup::model::{DigestDto, FileType, MediaError, MediaFilter, ScanEntry};
use mediadup::phash::{DistanceError, PHashImageHashing, PerceptualAlg};
use mediadup::service::{get_file_metadata, split_path, DefaultMediaService};

fn entry(path: &str, is_dir: bool, size: u64, digest: Option<&str>, phash: Option<Vec<&str>>) -> ScanEntry {
    ScanEntry {
        path: path.to_string(),
        is_dir,
        size,
        digest: digest.map(|d| DigestDto {
            algorithm: "Sha256".to_string(),
            value: d.to_string(),
            elapsed_time: 0,
        }),
        phash: phash.map(|v| {
            v.into_iter()
                .map(|h| DigestDto {
                    algorithm: "Mean".to_string(),
                    value: h.to_string(),
                    elapsed_time: 0,
                })
                .collect()
        }),
    }
}

fn valid_phash(bytes: &[u8]) -> String {
    img_hash::ImageHash::<Box<[u8]>>::from_bytes(bytes)
        .unwrap()
        .to_base64()
}

#[test]
fn classify_by_suffix() {
    assert_eq!(classify("photo.png"), FileType::IMAGE);
    assert_eq!(classify("a/b/c.jpeg"), FileType::IMAGE);
    assert_eq!(classify("anim.gif"), FileType::IMAGE);
    assert_eq!(classify("pic.bmp"), FileType::IMAGE);
    assert_eq!(classify("pic.jpg"), FileType::IMAGE);
    assert_eq!(classify("clip.mp4"), FileType::VIDEO);
    assert_eq!(classify("clip.avi"), FileType::VIDEO);
    assert_eq!(classify("clip.mpg"), FileType::VIDEO);
    assert_eq!(classify("notes.txt"), FileType::OTHER);
    assert_eq!(classify("pngnot"), FileType::OTHER);
}

#[test]
fn classify_is_case_sensitive() {
    assert_eq!(classify("PHOTO.PNG"), FileType::OTHER);
    assert_eq!(classify("clip.MP4"), FileType::OTHER);
}

#[test]
fn suffix_and_equality_helpers() {
    assert!(ends_with("photo.png", ".png"));
    assert!(!ends_with("photo.png", ".jpg"));
    assert!(!ends_with("ng", "png"));
    assert!(str_eq("abc", "abc"));
    assert!(!str_eq("abc", "abd"));
    assert!(!str_eq("abc", "ab"));
}

#[test]
fn media_type_resolution() {
    assert_eq!(validate_media_type("all"), Ok(MediaFilter::All));
    assert_eq!(validate_media_type("images"), Ok(MediaFilter::Images));
    assert_eq!(validate_media_type("video"), Ok(MediaFilter::Video));
    assert_eq!(validate_media_type("foo"), Err(MediaError::InvalidMediaType));
    assert_eq!(validate_media_type(""), Err(MediaError::InvalidMediaType));
}

#[test]
fn filter_matching() {
    assert!(matches_filter("a.png", MediaFilter::Images));
    assert!(!matches_filter("a.mp4", MediaFilter::Images));
    assert!(matches_filter("a.mp4", MediaFilter::Video));
    assert!(matches_filter("a.mp4", MediaFilter::All));
    assert!(matches_filter("a.png", MediaFilter::All));
    assert!(!matches_filter("a.txt", MediaFilter::All));
}

#[test]
fn path_splitting() {
    let (folder, name) = split_path("root/x/1.jpg");
    assert_eq!(folder.as_deref(), Some("root/x/"));
    assert_eq!(name, "1.jpg");
    let (folder, name) = split_path("plain.jpg");
    assert_eq!(folder, None);
    assert_eq!(name, "plain.jpg");
    let (folder, name) = split_path("/top.png");
    assert_eq!(folder.as_deref(), Some("/"));
    assert_eq!(name, "top.png");
}

#[test]
fn metadata_of_entry() {
    let m = get_file_metadata("pics/cat.png", false, 42);
    assert_eq!(m.path, "pics/cat.png");
    assert_eq!(m.folder.as_deref(), Some("pics/"));
    assert_eq!(m.name, "cat.png");
    assert!(!m.is_dir);
    assert_eq!(m.size, 42);
    assert_eq!(m.file_type, FileType::IMAGE);
    assert!(m.phash.is_none());
}

#[test]
fn sha256_hex_of_known_content() {
    assert_eq!(
        digest_value(b""),
        "e3b0c44298fc1c149afbf4c8996fb92427ae41e4649b934ca495991b7852b855"
    );
    assert_eq!(
        digest_value(b"abc"),
        "ba7816bf8f01cfea414140de5dae2223b00361a396177a9cb410ff61f20015ad"
    );
}

#[test]
fn fingerprints_of_an_image_decode() {
    let hasher = PHashImageHashing {};
    let img = img_hash::image::DynamicImage::new_rgb8(8, 8);
    let v = hasher.digest_image(&img, 0);
    assert_eq!(hasher.distance(&v[0].value, &v[0].value), Ok(0));
    assert_eq!(hasher.distance(&v[1].value, &v[1].value), Ok(0));
}

#[test]
fn digester_description() {
    let d = Sha256Digest {};
    let dto = d.digest_bytes(b"abc", 7);
    assert_eq!(dto.algorithm, "Sha256");
    assert_eq!(
        dto.value,
        "ba7816bf8f01cfea414140de5dae2223b00361a396177a9cb410ff61f20015ad"
    );
    assert_eq!(dto.elapsed_time, 7);
}

#[test]
fn group_index_groups_by_key() {
    let mut idx = GroupIndex::new();
    idx.record("k1".to_string(), get_file_metadata("a.png", false, 1));
    idx.record("k1".to_string(), get_file_metadata("b.png", false, 1));
    idx.record("k2".to_string(), get_file_metadata("c.png", false, 1));
    let groups = idx.duplicate_groups();
    assert_eq!(groups.len(), 1);
    assert_eq!(groups[0].digest, "k1");
    assert_eq!(groups[0].members.len(), 2);
    assert_eq!(groups[0].members[0].name, "a.png");
    assert_eq!(groups[0].members[1].name, "b.png");
    assert_eq!(idx.extra_records(), 1);
}

#[test]
fn distance_of_equal_and_near_hashes() {
    let hasher = PHashImageHashing {};
    let h0 = valid_phash(&[0u8; 8]);
    let h1 = valid_phash(&[1u8, 0, 0, 0, 0, 0, 0, 0]);
    assert_eq!(hasher.distance(&h0, &h0), Ok(0));
    assert_eq!(hasher.distance(&h0, &h1), Ok(1));
    assert_eq!(hasher.distance(&h0, "!!!"), Err(DistanceError::Decode));
    assert_eq!(hasher.distance("!!!", &h0), Err(DistanceError::Decode));
}

#[test]
fn distance_is_symmetric() {
    let hasher = PHashImageHashing {};
    let h0 = valid_phash(&[0u8; 8]);
    let h1 = valid_phash(&[1u8, 0, 0, 0, 0, 0, 0, 0]);
    assert_eq!(hasher.distance(&h0, &h1), hasher.distance(&h1, &h0));
    assert_eq!(hasher.distance(&h1, &h0), Ok(1));
}

#[test]
fn empty_image_is_not_fingerprinted() {
    let hasher = PHashImageHashing {};
    let empty = img_hash::image::DynamicImage::new_rgb8(0, 0);
    assert!(hasher.try_digest_image(&empty, 0).is_none());
    let img = img_hash::image::DynamicImage::new_rgb8(8, 8);
    let v = hasher.try_digest_image(&img, 0).unwrap();
    assert_eq!(v.len(), 2);
    assert_eq!(v[0].algorithm, "Mean");
    assert_eq!(v[1].algorithm, "DoubleGradient");
}

#[test]
fn image_hashing_is_deterministic() {
    let hasher = PHashImageHashing {};
    let img = img_hash::image::DynamicImage::new_rgb8(8, 8);
    let a = hasher.digest_image(&img, 0);
    let b = hasher.digest_image(&img, 0);
    assert_eq!(a.len(), 2);
    assert_eq!(a[0].algorithm, "Mean");
    assert_eq!(a[1].algorithm, "DoubleGradient");
    assert_eq!(a[0].value, b[0].value);
    assert_eq!(a[1].value, b[1].value);
    assert_eq!(hasher.distance(&a[0].value, &b[0].value), Ok(0));
}

#[test]
fn identical_files_share_one_group() {
    let h = valid_phash(&[5u8; 8]);
    let entries = vec![
        entry("pics/a.png", false, 10, Some("d1"), Some(vec![&h])),
        entry("pics/b.png", false, 10, Some("d1"), Some(vec![&h])),
    ];
    let mut service = DefaultMediaService::new("pics", false);
    let report = service
        .analyze_folder(true, "images", &entries, 3)
        .unwrap();
    assert_eq!(report.duplicate_groups.len(), 1);
    assert_eq!(report.duplicate_groups[0].digest, "d1");
    assert_eq!(report.duplicate_groups[0].members.len(), 2);
    assert_eq!(report.images.count, 2);
    assert_eq!(report.images.size, 20);
    assert_eq!(report.elapsed_time, 3);
    // the ordered pair is observed both ways, at the one fingerprint position
    assert_eq!(report.near_duplicates.len(), 2);
    let o = &report.near_duplicates[0];
    assert_eq!(o.directory, "pics/");
    assert_eq!(o.a_name, "a.png");
    assert_eq!(o.b_name, "b.png");
    assert_eq!(o.algorithm, "Mean");
    assert_eq!(o.distance, Some(0));
    let o2 = &report.near_duplicates[1];
    assert_eq!(o2.a_name, "b.png");
    assert_eq!(o2.b_name, "a.png");
}

#[test]
fn different_directories_are_never_compared() {
    let h = valid_phash(&[5u8; 8]);
    let entries = vec![
        entry("root/x/1.jpg", false, 10, Some("d1"), Some(vec![&h])),
        entry("root/y/2.jpg", false, 10, Some("d1"), Some(vec![&h])),
    ];
    let mut service = DefaultMediaService::new("root", false);
    let report = service
        .analyze_folder(true, "images", &entries, 0)
        .unwrap();
    // equal bytes: one exact-duplicate group; but no near-duplicate pair
    assert_eq!(report.duplicate_groups.len(), 1);
    assert_eq!(report.duplicate_groups[0].members.len(), 2);
    assert!(report.near_duplicates.is_empty());
}

#[test]
fn invalid_media_type_fails_before_anything_else() {
    let entries = vec![entry("pics/a.png", false, 10, Some("d1"), None)];
    let mut service = DefaultMediaService::new("pics", false);
    assert_eq!(
        service.analyze_folder(true, "foo", &entries, 0).unwrap_err(),
        MediaError::InvalidMediaType
    );
}

#[test]
fn root_that_is_no_directory_fails() {
    let entries: Vec<ScanEntry> = Vec::new();
    let mut service = DefaultMediaService::new("some.file", false);
    assert_eq!(
        service.analyze_folder(false, "all", &entries, 0).unwrap_err(),
        MediaError::InvalidRoot
    );
    let service = DefaultMediaService::new("some.file", false);
    assert_eq!(
        service.get_info(false, &entries, 0).unwrap_err(),
        MediaError::InvalidRoot
    );
}

#[test]
fn undigestable_file_is_excluded_everywhere() {
    let entries = vec![
        entry("pics/a.png", false, 10, Some("d1"), None),
        entry("pics/broken.png", false, 99, None, None),
        entry("pics/b.png", false, 10, Some("d1"), None),
    ];
    let mut service = DefaultMediaService::new("pics", false);
    let report = service
        .analyze_folder(true, "images", &entries, 0)
        .unwrap();
    // the unreadable file counts nowhere, the scan still completes
    assert_eq!(report.images.count, 2);
    assert_eq!(report.images.size, 20);
    assert_eq!(report.duplicate_groups.len(), 1);
    assert_eq!(report.duplicate_groups[0].members.len(), 2);
}

#[test]
fn counts_conserve_processed_entries() {
    let entries = vec![
        entry("m/a.png", false, 1, Some("da"), None),
        entry("m/b.mp4", false, 2, Some("db"), None),
        entry("m/c.png", false, 4, Some("dc"), None),
        entry("m", true, 0, None, None),
        entry("m/skipped.txt", false, 8, Some("dd"), None),
    ];
    let mut service = DefaultMediaService::new("m", false);
    let report = service.analyze_folder(true, "all", &entries, 0).unwrap();
    // three processed entries: the text file fails the filter, the
    // directory is never digested
    assert_eq!(
        report.images.count + report.videos.count + report.other.count,
        3
    );
    assert_eq!(report.images.count, 2);
    assert_eq!(report.videos.count, 1);
    assert_eq!(report.other.count, 0);
    assert_eq!(report.videos.size, 2);
}

#[test]
fn filter_narrows_the_scan() {
    let entries = vec![
        entry("m/a.png", false, 1, Some("da"), None),
        entry("m/b.mp4", false, 2, Some("db"), None),
    ];
    let mut service = DefaultMediaService::new("m", false);
    let report = service.analyze_folder(true, "video", &entries, 0).unwrap();
    assert_eq!(report.images.count, 0);
    assert_eq!(report.videos.count, 1);
    assert_eq!(report.videos.size, 2);
}

#[test]
fn scanning_twice_gives_identical_groups() {
    let entries = vec![
        entry("m/a.png", false, 1, Some("da"), None),
        entry("m/b.png", false, 2, Some("da"), None),
        entry("m/c.png", false, 3, Some("dc"), None),
    ];
    let mut s1 = DefaultMediaService::new("m", false);
    let mut s2 = DefaultMediaService::new("m", false);
    let r1 = s1.analyze_folder(true, "images", &entries, 0).unwrap();
    let r2 = s2.analyze_folder(true, "images", &entries, 0).unwrap();
    assert_eq!(r1.duplicate_groups.len(), r2.duplicate_groups.len());
    for (g1, g2) in r1.duplicate_groups.iter().zip(r2.duplicate_groups.iter()) {
        assert_eq!(g1.digest, g2.digest);
        let n1: Vec<&str> = g1.members.iter().map(|m| m.name.as_str()).collect();
        let n2: Vec<&str> = g2.members.iter().map(|m| m.name.as_str()).collect();
        assert_eq!(n1, n2);
    }
    assert_eq!(r1.images.count, r2.images.count);
    assert_eq!(r1.near_duplicates.len(), r2.near_duplicates.len());
}

#[test]
fn memory_estimate_follows_the_formula() {
    let entries = vec![
        entry("m/a.png", false, 1, Some("da"), None),
        entry("m/b.png", false, 2, Some("da"), None),
    ];
    let mut service = DefaultMediaService::new("m", false);
    let report = service.analyze_folder(true, "images", &entries, 0).unwrap();
    // two records, one of them an extra member of an existing group
    let expected: u128 = 2 * (8 + 112) + 24 * 2 + 24 * 1;
    assert_eq!(report.approx_memory, expected);
}

#[test]
fn info_counts_images_and_videos() {
    let entries = vec![
        entry("m/a.png", false, 5, None, None),
        entry("m/b.mp4", false, 7, None, None),
        entry("m/sub", true, 0, None, None),
        entry("m/c.txt", false, 11, None, None),
        entry("m/d.gif", false, 3, None, None),
    ];
    let service = DefaultMediaService::new("m", false);
    let info = service.get_info(true, &entries, 9).unwrap();
    assert_eq!(info.images.count, 2);
    assert_eq!(info.images.size, 8);
    assert_eq!(info.videos.count, 1);
    assert_eq!(info.videos.size, 7);
    assert_eq!(info.elapsed_time, 9);
}

#[test]
fn files_without_fingerprints_are_skipped_silently() {
    let entries = vec![
        entry("m/a.png", false, 1, Some("da"), None),
        entry("m/b.png", false, 2, Some("db"), None),
    ];
    let mut service = DefaultMediaService::new("m", false);
    let report = service.analyze_folder(true, "images", &entries, 0).unwrap();
    assert!(report.near_duplicates.is_empty());
}

#[test]
fn create_hash_labels_the_algorithm() {
    let hasher = PHashImageHashing {};
    let img = img_hash::image::DynamicImage::new_rgb8(8, 8);
    let mean = hasher.create_hash(&img, PerceptualAlg::Mean, 4);
    assert_eq!(mean.algorithm, "Mean");
    assert_eq!(mean.elapsed_time, 4);
    let dg = hasher.create_hash(&img, PerceptualAlg::DoubleGradient, 4);
    assert_eq!(dg.algorithm, "DoubleGradient");
}

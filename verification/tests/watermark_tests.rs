use comics::watermark::{
    format_from_name, is_watermark_page, patch_page_count, plan_strip, ArchiveFormat,
    MetadataError, StripConfig, WatermarkMode,
};

fn chars(s: &str) -> Vec<char> {
    s.chars().collect()
}

fn text(v: &[char]) -> String {
    v.iter().collect()
}

fn signature_config() -> StripConfig {
    StripConfig {
        mode: WatermarkMode::Signature,
        always_repack_rar: true,
        decrement_per_page: false,
    }
}

#[test]
fn z_prefixed_page_is_watermark() {
    assert!(is_watermark_page(&chars("zWater.jpg"), WatermarkMode::Signature));
}

#[test]
fn zero_zero_zero_cover_is_kept() {
    assert!(!is_watermark_page(&chars("z 000-cover.jpg"), WatermarkMode::Signature));
}

#[test]
fn ordinary_page_is_never_watermark() {
    assert!(!is_watermark_page(&chars("random.jpg"), WatermarkMode::Signature));
    assert!(!is_watermark_page(&chars("random.jpg"), WatermarkMode::KnownList));
}

#[test]
fn dash_bracketed_page_is_watermark() {
    assert!(is_watermark_page(&chars("-scan credit-.jpg"), WatermarkMode::Signature));
}

#[test]
fn tag_prefixes_are_watermarks() {
    assert!(is_watermark_page(&chars("XTAG01 page.jpg"), WatermarkMode::Signature));
    assert!(is_watermark_page(&chars("xxx_extra.jpg"), WatermarkMode::Signature));
    assert!(is_watermark_page(&chars("X-Tag group.jpg"), WatermarkMode::Signature));
}

#[test]
fn non_jpg_is_not_watermark() {
    assert!(!is_watermark_page(&chars("zWater.png"), WatermarkMode::Signature));
}

#[test]
fn known_list_matches_case_insensitively() {
    assert!(is_watermark_page(&chars("ZWater.JPG"), WatermarkMode::KnownList));
    assert!(is_watermark_page(&chars("xtag01.jpg"), WatermarkMode::KnownList));
    assert!(!is_watermark_page(&chars("zother.jpg"), WatermarkMode::KnownList));
}

#[test]
fn page_count_is_decremented_by_one() {
    let out = patch_page_count(&chars("<PageCount>24</PageCount>"), 1).unwrap();
    assert_eq!(text(&out), "<PageCount>23</PageCount>");
}

#[test]
fn page_count_patch_keeps_surrounding_text() {
    let doc = "<ComicInfo><PageCount>2</PageCount><Title>x</Title></ComicInfo>";
    let out = patch_page_count(&chars(doc), 1).unwrap();
    assert_eq!(text(&out), "<ComicInfo><PageCount>1</PageCount><Title>x</Title></ComicInfo>");
}

#[test]
fn page_count_can_go_negative() {
    let out = patch_page_count(&chars("<PageCount>0</PageCount>"), 1).unwrap();
    assert_eq!(text(&out), "<PageCount>-1</PageCount>");
}

#[test]
fn missing_page_count_field_is_reported() {
    let r = patch_page_count(&chars("<ComicInfo><Pages>3</Pages></ComicInfo>"), 1);
    assert_eq!(r.unwrap_err(), MetadataError::MissingField);
}

#[test]
fn malformed_page_count_is_reported() {
    let r = patch_page_count(&chars("<PageCount>x4</PageCount>"), 1);
    assert_eq!(r.unwrap_err(), MetadataError::MalformedCount);
    let r = patch_page_count(&chars("<PageCount>24"), 1);
    assert_eq!(r.unwrap_err(), MetadataError::MalformedCount);
    let r = patch_page_count(&chars("<PageCount></PageCount>"), 1);
    assert_eq!(r.unwrap_err(), MetadataError::MalformedCount);
}

#[test]
fn format_follows_extension() {
    assert_eq!(format_from_name(&chars("a.cbr")), Some(ArchiveFormat::Rar));
    assert_eq!(format_from_name(&chars("a.cbz")), Some(ArchiveFormat::Zip));
    assert_eq!(format_from_name(&chars("a.pdf")), None);
}

#[test]
fn strip_plan_marks_watermark_pages() {
    let entries = vec![chars("page1.jpg"), chars("zWater.jpg")];
    let metadata = chars("<PageCount>2</PageCount>");
    let plan = plan_strip(&chars("001.cbz"), &entries, Some(&metadata), signature_config())
        .unwrap();
    assert_eq!(plan.remove, vec![false, true]);
    assert_eq!(plan.removed_count, 1);
    assert!(plan.had_watermark);
    assert_eq!(text(&plan.patched_metadata.unwrap()), "<PageCount>1</PageCount>");
    assert_eq!(plan.repack_format, Some(ArchiveFormat::Rar));
}

#[test]
fn decrement_is_once_per_archive() {
    // two watermark pages removed, the count still drops by exactly one
    let entries = vec![chars("zA.jpg"), chars("zB.jpg"), chars("keep.jpg")];
    let metadata = chars("<PageCount>24</PageCount>");
    let plan = plan_strip(&chars("001.cbz"), &entries, Some(&metadata), signature_config())
        .unwrap();
    assert_eq!(plan.removed_count, 2);
    assert_eq!(text(&plan.patched_metadata.unwrap()), "<PageCount>23</PageCount>");
}

#[test]
fn decrement_per_page_is_available() {
    let entries = vec![chars("zA.jpg"), chars("zB.jpg"), chars("keep.jpg")];
    let metadata = chars("<PageCount>24</PageCount>");
    let mut config = signature_config();
    config.decrement_per_page = true;
    let plan = plan_strip(&chars("001.cbz"), &entries, Some(&metadata), config).unwrap();
    assert_eq!(text(&plan.patched_metadata.unwrap()), "<PageCount>22</PageCount>");
}

#[test]
fn no_watermark_leaves_metadata_alone() {
    let entries = vec![chars("page1.jpg"), chars("page2.jpg")];
    let metadata = chars("<PageCount>2</PageCount>");
    let plan = plan_strip(&chars("001.cbz"), &entries, Some(&metadata), signature_config())
        .unwrap();
    assert!(!plan.had_watermark);
    assert!(plan.patched_metadata.is_none());
    assert!(plan.repack_format.is_none());
}

#[test]
fn watermark_with_broken_metadata_is_fatal() {
    let entries = vec![chars("zWater.jpg")];
    let metadata = chars("<ComicInfo></ComicInfo>");
    let r = plan_strip(&chars("001.cbz"), &entries, Some(&metadata), signature_config());
    assert_eq!(r.unwrap_err(), MetadataError::MissingField);
}

#[test]
fn watermark_without_metadata_patches_nothing() {
    let entries = vec![chars("zWater.jpg")];
    let plan = plan_strip(&chars("001.cbz"), &entries, None, signature_config()).unwrap();
    assert!(plan.had_watermark);
    assert!(plan.patched_metadata.is_none());
    assert_eq!(plan.repack_format, Some(ArchiveFormat::Rar));
}

#[test]
fn preserving_config_repacks_to_source_format() {
    let entries = vec![chars("zWater.jpg")];
    let mut config = signature_config();
    config.always_repack_rar = false;
    let plan = plan_strip(&chars("001.cbz"), &entries, None, config).unwrap();
    assert_eq!(plan.repack_format, Some(ArchiveFormat::Zip));
}

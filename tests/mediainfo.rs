use chrono::Datelike;
use media_sort::error::{MediaKind, SortError};
use media_sort::mediainfo::{media_extension, Episode, MediaInfo, TVShowInfo};

fn this_year() -> i32 {
    chrono::Utc::now().year()
}

#[test]
fn check_normalize() {
    let path = "Test title 22 (123(4) ) ) h264 - (ddd(d)) || )(*&^%$#@ rubbish.mkv";
    assert_eq!(
        MediaInfo::extract_media_info(path, this_year()),
        MediaInfo {
            name: String::from("test title 22"),
            year: None,
            show_info: None,
        }
    );

    let path = "Test title 1922 (123(4) ) ) h264 - (ddd(d)) || )(*&^%$#@ rubbish.mkv";
    assert_eq!(
        MediaInfo::extract_media_info(path, this_year()),
        MediaInfo {
            name: String::from("test title"),
            year: Some(1922),
            show_info: None,
        }
    );

    let path = "Test 2022 title 42 (123(4) ) ) h264 - (ddd(d)) || )(*&^%$#@ rubbish.mkv";
    assert_eq!(
        MediaInfo::extract_media_info(path, this_year()),
        MediaInfo {
            name: String::from("test 2022 title 42"),
            year: None,
            show_info: None,
        }
    );

    let path = "Great.Series.2005.s13e00.special.title.1080p.web.h264-ggez[eztv.re].mkv";
    assert_eq!(
        MediaInfo::extract_media_info(path, this_year()),
        MediaInfo {
            name: String::from("great series"),
            year: Some(2005),
            show_info: Some(TVShowInfo {
                season: 13,
                episode: Episode::Special(String::from("Special Title")),
            }),
        }
    );

    let path = "Great.Series.2005.s13e00.1080p.web.h264-ggez[eztv.re].mkv";
    assert_eq!(
        MediaInfo::extract_media_info(path, this_year()),
        MediaInfo {
            name: String::from("great series"),
            year: Some(2005),
            show_info: Some(TVShowInfo {
                season: 13,
                episode: Episode::Special(String::from("Unknown Special")),
            }),
        }
    );

    let path = "Great.Series.2005.s13e03.episode.title.1080p.web.h264-ggez[eztv.re].mkv";
    assert_eq!(
        MediaInfo::extract_media_info(path, this_year()),
        MediaInfo {
            name: String::from("great series"),
            year: Some(2005),
            show_info: Some(TVShowInfo {
                season: 13,
                episode: Episode::Numbered(3),
            }),
        }
    );
}

#[test]
fn special_title_from_short_release_name() {
    let info = MediaInfo::extract_media_info(
        "great.series.2005.s13e00.special.title.1080p.web.h264-x[y].mkv",
        2024,
    );
    assert_eq!(info.name, "great series");
    assert_eq!(info.year, Some(2005));
    assert_eq!(
        info.show_info,
        Some(TVShowInfo { season: 13, episode: Episode::Special(String::from("Special Title")) })
    );
    let info = MediaInfo::extract_media_info("great.series.2005.s13e00.1080p.web.h264-x[y].mkv", 2024);
    assert_eq!(
        info.show_info,
        Some(TVShowInfo { season: 13, episode: Episode::Special(String::from("Unknown Special")) })
    );
    let info = MediaInfo::extract_media_info(
        "great.series.2005.s13e03.episode.title.1080p.web.h264-x[y].mkv",
        2024,
    );
    assert_eq!(info.show_info, Some(TVShowInfo { season: 13, episode: Episode::Numbered(3) }));
}

#[test]
fn lone_year_is_a_title() {
    let info = MediaInfo::extract_media_info("2012.mkv", 2024);
    assert_eq!(info.name, "2012");
    assert_eq!(info.year, None);
}

#[test]
fn trailing_year_in_range_is_taken() {
    let info = MediaInfo::extract_media_info("Alien 1979.mkv", 2024);
    assert_eq!(info.name, "alien");
    assert_eq!(info.year, Some(1979));
}

#[test]
fn trailing_number_out_of_range_stays_in_title() {
    let info = MediaInfo::extract_media_info("The 4400.mkv", 2024);
    assert_eq!(info.name, "the 4400");
    assert_eq!(info.year, None);
    let info = MediaInfo::extract_media_info("Old 1877.mkv", 2024);
    assert_eq!(info.name, "old 1877");
    assert_eq!(info.year, None);
    let info = MediaInfo::extract_media_info("Future 2025.mkv", 2024);
    assert_eq!(info.name, "future 2025");
    assert_eq!(info.year, None);
    let info = MediaInfo::extract_media_info("Edge 1878.mkv", 2024);
    assert_eq!(info.name, "edge");
    assert_eq!(info.year, Some(1878));
}

#[test]
fn year_is_read_after_the_show_marker_is_removed() {
    let info = MediaInfo::extract_media_info("Show.Name.1999.S01E02.mkv", 2024);
    assert_eq!(info.name, "show name");
    assert_eq!(info.year, Some(1999));
    assert_eq!(info.show_info, Some(TVShowInfo { season: 1, episode: Episode::Numbered(2) }));
}

#[test]
fn normalized_title_is_a_fixed_point() {
    let once = MediaInfo::path_normalize("The.Matrix.Reloaded.(2003).1080p.x264.mkv");
    assert_eq!(once, "the matrix reloaded");
    assert_eq!(MediaInfo::path_normalize(&once), once);
}

#[test]
fn normalize_takes_last_segment_and_drops_extension() {
    assert_eq!(MediaInfo::path_normalize("/in/box/Some_Movie-Name.avi"), "some movie name");
    assert_eq!(MediaInfo::path_normalize("  Padded  .mp4"), "padded");
}

#[test]
fn capitalize_words_upper_cases_each_word() {
    assert_eq!(MediaInfo::capitalize_words("special title"), "Special Title");
    assert_eq!(MediaInfo::capitalize_words("a  b"), "A  B");
    assert_eq!(MediaInfo::capitalize_words(""), "");
}

#[test]
fn episode_render() {
    assert_eq!(Episode::Numbered(3).render(), "03");
    assert_eq!(Episode::Numbered(12).render(), "12");
    assert_eq!(Episode::Special(String::from("Pilot")).render(), "00 - Pilot");
}

#[test]
fn media_extensions() {
    assert_eq!(media_extension("/x/a.mkv"), Some(String::from("mkv")));
    assert_eq!(media_extension("a.srt"), Some(String::from("srt")));
    assert_eq!(media_extension("a.txt"), None);
    assert_eq!(media_extension("noext"), None);
    assert_eq!(media_extension(".mkv"), None);
}

#[test]
fn from_path_rejects_non_media() {
    assert_eq!(
        MediaInfo::from_path("/in/readme.txt"),
        Err(SortError::NotMediaFile(String::from("/in/readme.txt")))
    );
    let info = MediaInfo::from_path("/in/Alien.1979.mkv").unwrap();
    assert_eq!(info.name, "alien");
    assert_eq!(info.year, Some(1979));
    assert!(!info.is_show());
}

#[test]
fn resolve_uses_canonical_name_or_reports_not_found() {
    let info = MediaInfo::extract_media_info("Great.Series.2005.s01e02.mkv", 2024);
    assert!(info.is_show());
    assert_eq!(info.kind(), MediaKind::Show);
    let found = info.resolve(Some(String::from("Great Series"))).unwrap();
    assert_eq!(found.name, "Great Series");
    assert_eq!(found.year, Some(2005));
    assert_eq!(found.show_info, Some(TVShowInfo { season: 1, episode: Episode::Numbered(2) }));

    let movie = MediaInfo::extract_media_info("alien 1979.mkv", 2024);
    assert_eq!(
        movie.resolve(None),
        Err(SortError::NotFound(MediaKind::Movie, String::from("alien"), Some(1979)))
    );
}

#[test]
fn season_zero_is_no_show_marker() {
    let info = MediaInfo::extract_media_info("Some.Show.s00e05.mkv", 2024);
    assert_eq!(info.name, "some show s00e05");
    assert_eq!(info.show_info, None);
    let info = MediaInfo::extract_media_info("Some.Show.s01e05.mkv", 2024);
    assert_eq!(info.name, "some show");
    assert_eq!(info.show_info, Some(TVShowInfo { season: 1, episode: Episode::Numbered(5) }));
    let info = MediaInfo::extract_media_info("Some.Show.s99e01.mkv", 2024);
    assert_eq!(info.show_info, Some(TVShowInfo { season: 99, episode: Episode::Numbered(1) }));
}

#[test]
fn trailing_slash_and_dot_segments_are_ignored() {
    assert_eq!(MediaInfo::path_normalize("a/b.mkv/"), "b");
    assert_eq!(MediaInfo::path_normalize("a/b.mkv/./"), "b");
    assert_eq!(media_extension("a/b.mkv/"), Some(String::from("mkv")));
    let info = MediaInfo::from_path("/in/Alien.1979.mkv/").unwrap();
    assert_eq!(info.name, "alien");
    assert_eq!(info.year, Some(1979));
}

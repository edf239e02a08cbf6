use media_sort::config::{Config, OmdbConfig, PermissionConfig};
use media_sort::error::SortError;
use media_sort::mediainfo::{Episode, MediaInfo, TVShowInfo};
use media_sort::placement::{
    bare_show_dir, build_destination, cascade_mode, cascade_targets, plan_placement, Action,
    PlacementResult,
};
use media_sort::report::CheckReport;
use media_sort::watch::{triggers_placement, FsEventKind};

fn config(show: &str, movie: &str, overwrite: bool) -> Config {
    Config {
        dir_watch: String::from("/inbox"),
        show_path: String::from(show),
        movie_path: String::from(movie),
        permissions: PermissionConfig {
            mode: 0o644,
            user: String::from("media"),
            group: String::from("media"),
        },
        omdb: OmdbConfig { apikey: String::from("KEY") },
        overwrite,
    }
}

fn special() -> MediaInfo {
    MediaInfo {
        name: String::from("Great Series"),
        year: Some(2005),
        show_info: Some(TVShowInfo {
            season: 13,
            episode: Episode::Special(String::from("Special Title")),
        }),
    }
}

#[test]
fn show_destination_with_year_directory() {
    let c = config("/media/shows", "/media/movies", false);
    assert_eq!(
        build_destination(&special(), "mkv", &c, false),
        "/media/shows/Great Series (2005)/Season 13/Great Series - S13E00 - Special Title.mkv"
    );
}

#[test]
fn show_destination_keeps_existing_bare_directory() {
    let c = config("/media/shows/", "/media/movies", false);
    assert_eq!(bare_show_dir(&special(), &c), "/media/shows/Great Series");
    assert_eq!(
        build_destination(&special(), "mkv", &c, true),
        "/media/shows/Great Series/Season 13/Great Series - S13E00 - Special Title.mkv"
    );
}

#[test]
fn numbered_episode_destination_without_year() {
    let c = config("/media/shows", "/media/movies", false);
    let info = MediaInfo {
        name: String::from("Show"),
        year: None,
        show_info: Some(TVShowInfo { season: 2, episode: Episode::Numbered(7) }),
    };
    assert_eq!(
        build_destination(&info, "srt", &c, false),
        "/media/shows/Show/Season 02/Show - S02E07.srt"
    );
}

#[test]
fn movie_destination() {
    let c = config("/media/shows", "/media/movies", false);
    let info = MediaInfo { name: String::from("Alien"), year: Some(1979), show_info: None };
    assert_eq!(build_destination(&info, "mkv", &c, false), "/media/movies/Alien (1979).mkv");
    let info = MediaInfo { name: String::from("Alien"), year: None, show_info: None };
    assert_eq!(build_destination(&info, "avi", &c, true), "/media/movies/Alien.avi");
}

#[test]
fn destination_is_the_same_on_repeated_calls() {
    let c = config("/media/shows", "/media/movies", false);
    let a = build_destination(&special(), "mkv", &c, false);
    let b = build_destination(&special(), "mkv", &c, false);
    assert_eq!(a, b);
}

#[test]
fn cascade_stops_below_the_root() {
    let c = config("/media/shows", "/media/movies", false);
    assert_eq!(
        cascade_targets("/media/shows/X/Season 01/X - S01E02.mkv", &c),
        vec![
            String::from("/media/shows/X/Season 01/X - S01E02.mkv"),
            String::from("/media/shows/X/Season 01"),
            String::from("/media/shows/X"),
        ]
    );
    let c = config("/media/shows/", "/media/movies/", false);
    assert_eq!(
        cascade_targets("/media/movies/Alien (1979).mkv", &c),
        vec![String::from("/media/movies/Alien (1979).mkv")]
    );
    assert_eq!(cascade_targets("/media/movies", &c), Vec::<String>::new());
}

#[test]
fn cascade_mode_makes_directories_traversable() {
    assert_eq!(cascade_mode(0o644, true), 0o755);
    assert_eq!(cascade_mode(0o644, false), 0o644);
    assert_eq!(cascade_mode(0o755, true), 0o755);
}

#[test]
fn existing_destination_without_overwrite_is_refused() {
    assert_eq!(
        plan_placement("/in/a.mkv", "/m/A.mkv", true, false, false),
        Err(SortError::AlreadyExists(String::from("/m/A.mkv")))
    );
    assert_eq!(
        plan_placement("/in/a.mkv", "/m/A.mkv", true, false, true),
        Err(SortError::AlreadyExists(String::from("/m/A.mkv")))
    );
}

#[test]
fn existing_destination_with_overwrite_is_replaced() {
    assert_eq!(
        plan_placement("/in/a.mkv", "/m/A.mkv", true, true, false),
        Ok(PlacementResult {
            source: String::from("/in/a.mkv"),
            destination: String::from("/m/A.mkv"),
            action: Action::Moved,
        })
    );
}

#[test]
fn dry_run_reports_same_destination_without_moving() {
    let real = plan_placement("/in/a.mkv", "/m/A.mkv", false, false, false).unwrap();
    let dry = plan_placement("/in/a.mkv", "/m/A.mkv", false, false, true).unwrap();
    assert_eq!(real.destination, dry.destination);
    assert_eq!(real.action, Action::Moved);
    assert_eq!(dry.action, Action::WouldMove);
}

#[test]
fn check_reports_two_sources_on_one_destination() {
    let mut r = CheckReport::new();
    r.record(String::from("/m/A.mkv"), String::from("/in/a1.mkv"));
    r.record(String::from("/m/B.mkv"), String::from("/in/b.mkv"));
    r.record(String::from("/m/A.mkv"), String::from("/in/a2.mkv"));
    assert_eq!(
        r.collisions(),
        vec![(
            String::from("/m/A.mkv"),
            vec![String::from("/in/a1.mkv"), String::from("/in/a2.mkv")]
        )]
    );
}

#[test]
fn check_without_collision_is_empty() {
    let mut r = CheckReport::new();
    assert!(r.collisions().is_empty());
    r.record(String::from("/m/A.mkv"), String::from("/in/a.mkv"));
    r.record(String::from("/m/B.mkv"), String::from("/in/b.mkv"));
    assert!(r.collisions().is_empty());
}

#[test]
fn only_written_or_renamed_files_are_placed() {
    assert!(triggers_placement(FsEventKind::ClosedAfterWrite));
    assert!(triggers_placement(FsEventKind::RenamedInto));
    assert!(!triggers_placement(FsEventKind::Created));
    assert!(!triggers_placement(FsEventKind::Other));
}

#[test]
fn check_lists_unresolved_files_apart() {
    let mut r = CheckReport::new();
    r.record_unresolved(String::from("/in/unknown.mkv"));
    r.record(String::from("/m/A.mkv"), String::from("/in/a.mkv"));
    assert_eq!(r.unresolved(), vec![String::from("/in/unknown.mkv")]);
    assert!(r.collisions().is_empty());
}

#[test]
fn cascade_never_reaches_a_root_written_with_extra_slashes() {
    let c = config("/l//", "/m", false);
    let info = MediaInfo {
        name: String::from("N"),
        year: None,
        show_info: Some(TVShowInfo { season: 1, episode: Episode::Numbered(2) }),
    };
    let dst = build_destination(&info, "mkv", &c, true);
    assert_eq!(dst, "/l//N/Season 01/N - S01E02.mkv");
    assert_eq!(
        cascade_targets(&dst, &c),
        vec![
            String::from("/l//N/Season 01/N - S01E02.mkv"),
            String::from("/l//N/Season 01"),
            String::from("/l//N"),
        ]
    );
}

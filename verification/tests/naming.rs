use server_keeper::artifact::{
    artifact_name, backup_paths, file_base_name, joined_path, u64_to_dec,
};
use server_keeper::config::{launch_args, timing_of_settings, Settings};
use server_keeper::notify::{chunk_label, upload_announcement};
use server_keeper::remote::{find_first_named, is_restart_command, str_eq};

fn settings() -> Settings {
    Settings {
        launcher_path: String::from("C:\\Steam\\steam.exe"),
        app_id: String::from("387990"),
        save_path: String::from("C:\\saves\\world.db"),
        backup_dir: String::from("D:\\backups"),
        backup_interval_secs: 300,
        restart_interval_mins: 60,
        channel_credential: String::from("not-a-real-token"),
        launch_configured: true,
    }
}

#[test]
fn decimal_rendering_is_exact() {
    assert_eq!(u64_to_dec(0), "0");
    assert_eq!(u64_to_dec(7), "7");
    assert_eq!(u64_to_dec(10), "10");
    assert_eq!(u64_to_dec(1_700_000_000_123), "1700000000123");
    assert_eq!(u64_to_dec(u64::MAX), "18446744073709551615");
}

#[test]
fn artifact_name_has_timestamp_and_base_name() {
    assert_eq!(artifact_name(1_700_000_000_000, "world.db"), "1700000000000#world.db");
}

#[test]
fn artifact_names_increase_with_time() {
    // consecutive backups of the same save file sort chronologically
    let earlier = artifact_name(1_700_000_000_000, "world.db");
    let later = artifact_name(1_700_000_000_001, "world.db");
    assert!(earlier < later);
    assert_ne!(earlier, later);
}

#[test]
fn artifact_name_is_idempotent() {
    // the same instant and file produce the very same name
    let a = artifact_name(1_700_000_000_000, "world.db");
    let b = artifact_name(1_700_000_000_000, "world.db");
    assert_eq!(a, b);
}

#[test]
fn base_name_strips_directories() {
    assert_eq!(file_base_name("C:\\saves\\world.db"), "world.db");
    assert_eq!(file_base_name("/srv/game/world.db"), "world.db");
    assert_eq!(file_base_name("world.db"), "world.db");
    assert_eq!(file_base_name("/srv/game/"), "");
    assert_eq!(file_base_name(""), "");
}

#[test]
fn joining_respects_existing_separator() {
    assert_eq!(joined_path("D:\\backups", "a#b.db"), "D:\\backups/a#b.db");
    assert_eq!(joined_path("backups/", "a#b.db"), "backups/a#b.db");
    assert_eq!(joined_path("backups\\", "a#b.db"), "backups\\a#b.db");
}

#[test]
fn backup_paths_compose_name_and_destination() {
    let (name, dest) = backup_paths(1_700_000_000_000, "C:\\saves\\world.db", "D:\\backups");
    assert_eq!(name, "1700000000000#world.db");
    assert_eq!(dest, "D:\\backups/1700000000000#world.db");
}

#[test]
fn announcement_and_chunk_labels() {
    assert_eq!(upload_announcement("1#world.db"), "New file upload [1#world.db]");
    assert_eq!(chunk_label(0), "Chunk0.chunk");
    assert_eq!(chunk_label(2), "Chunk2.chunk");
    assert_eq!(chunk_label(12), "Chunk12.chunk");
}

#[test]
fn restart_command_needs_phrase_and_channel() {
    assert!(is_restart_command(42, 42, "ForceRestartServer"));
    assert!(!is_restart_command(42, 42, "ForceRestartServer "));
    assert!(!is_restart_command(42, 42, "forcerestartserver"));
    assert!(!is_restart_command(42, 42, "hello"));
    // right phrase, wrong source: ignored
    assert!(!is_restart_command(41, 42, "ForceRestartServer"));
}

#[test]
fn string_comparison_is_exact() {
    assert!(str_eq("abc", "abc"));
    assert!(!str_eq("abc", "abd"));
    assert!(!str_eq("abc", "ab"));
    assert!(!str_eq("", "a"));
    assert!(str_eq("", ""));
}

#[test]
fn first_matching_channel_wins() {
    let names = vec![
        String::from("general"),
        String::from("server_backup"),
        String::from("server_backup"),
    ];
    assert_eq!(find_first_named(&names, "server_backup"), Some(1));
    assert_eq!(find_first_named(&names, "general"), Some(0));
    assert_eq!(find_first_named(&names, "other"), None);
    assert_eq!(find_first_named(&Vec::new(), "any"), None);
}

#[test]
fn timing_conversion_is_exact() {
    let t = timing_of_settings(&settings()).unwrap();
    assert_eq!(t.backup_interval_ms, 300_000);
    assert_eq!(t.restart_interval_ms, 3_600_000);
}

#[test]
fn oversized_intervals_are_rejected() {
    let mut s = settings();
    s.backup_interval_secs = u64::MAX;
    assert!(timing_of_settings(&s).is_none());
    let mut s2 = settings();
    s2.restart_interval_mins = u64::MAX / 2;
    assert!(timing_of_settings(&s2).is_none());
}

#[test]
fn launch_arguments_follow_the_template() {
    let args = launch_args(&settings());
    assert_eq!(
        args,
        vec![
            String::from("-applaunch"),
            String::from("387990"),
            String::from("-open"),
            String::from("C:\\saves\\world.db"),
        ]
    );
}

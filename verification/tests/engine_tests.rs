use panoptocord::cache::Cache;
use panoptocord::config::Config;
use panoptocord::engine::{assign_colors, plan_announcements, sort_by_start_time, PlannedPost};
use panoptocord::recording::{CreatedBy, FolderDetails, PanoptoSession, Urls};

fn test_config(folders: Vec<&str>, filter_since_date: Option<i64>) -> Config {
    Config {
        authorization_url: "https://host/Panopto/oauth2/connect/authorize".to_string(),
        access_token_url: "https://host/Panopto/oauth2/connect/token".to_string(),
        client_id: "client".to_string(),
        client_secret: "SECRET-REDACTED".to_string(),
        refresh_token: "refresh-0".to_string(),
        access_token: "access-0".to_string(),
        folders: folders.into_iter().map(|f| f.to_string()).collect(),
        webhook_url: "https://chat/webhook".to_string(),
        webhook_error_url: "https://chat/errors".to_string(),
        panopto_base: "https://host/".to_string(),
        filter_since_date,
    }
}

fn session(id: &str, start_time: Option<i64>, folder_id: &str) -> PanoptoSession {
    PanoptoSession {
        description: None,
        start_time,
        duration: 600,
        created_by: CreatedBy { id: "u1".to_string(), username: None },
        urls: Urls {
            viewer_url: format!("https://host/Panopto/Pages/Viewer.aspx?id={}", id),
            embed_url: None,
            share_settings_url: None,
            download_url: None,
            caption_download_url: None,
            editor_url: None,
            thumbnail_url: format!("https://host/thumb/{}.jpg", id),
        },
        folder: folder_id.to_string(),
        folder_details: FolderDetails { id: folder_id.to_string(), name: format!("Folder {}", folder_id) },
        id: id.to_string(),
        name: format!("Recording {}", id),
    }
}

fn ids(plan: &[PlannedPost]) -> Vec<String> {
    plan.iter().map(|p| p.session.id.clone()).collect()
}

#[test]
fn cold_start_announces_and_caches() {
    let config = test_config(vec!["F1"], None);
    let mut cache = Cache::fresh_from_config(&config);
    assign_colors(&mut cache, &config.folders);
    assert!(cache.color_map.contains_key(&"F1".to_string()));

    let recs = vec![session("R1", Some(1704189600), "F1")];
    let sorted = sort_by_start_time(recs);
    let plan = plan_announcements(sorted, &cache, config.filter_since_date);
    assert_eq!(ids(&plan), vec!["R1".to_string()]);
    let color = cache.color_map.get(&"F1".to_string()).unwrap();
    assert_eq!(plan[0].color, color);

    for p in &plan {
        cache.record_announced(p.session.id.clone());
    }
    assert_eq!(cache.cached_recordings, vec!["R1".to_string()]);
}

#[test]
fn dedup_across_ticks() {
    let config = test_config(vec!["F1"], None);
    let mut cache = Cache::fresh_from_config(&config);
    assign_colors(&mut cache, &config.folders);

    let tick = |cache: &Cache| {
        let recs = vec![session("R1", Some(1704189600), "F1")];
        plan_announcements(sort_by_start_time(recs), cache, None)
    };
    let first = tick(&cache);
    assert_eq!(ids(&first), vec!["R1".to_string()]);
    for p in &first {
        cache.record_announced(p.session.id.clone());
    }
    let recordings_after_first = cache.cached_recordings.clone();

    let second = tick(&cache);
    assert!(second.is_empty());
    assert_eq!(cache.cached_recordings, recordings_after_first);
}

#[test]
fn cutoff_filters_older_recordings() {
    // Cutoff 2024-06-01T00:00:00Z; one recording a minute before, one a
    // minute after.
    let cutoff = 1717200000;
    let config = test_config(vec!["F1"], Some(cutoff));
    let mut cache = Cache::fresh_from_config(&config);
    assign_colors(&mut cache, &config.folders);

    let recs = vec![
        session("R2", Some(cutoff - 60), "F1"),
        session("R3", Some(cutoff + 60), "F1"),
    ];
    let plan = plan_announcements(sort_by_start_time(recs), &cache, config.filter_since_date);
    assert_eq!(ids(&plan), vec!["R3".to_string()]);
}

#[test]
fn ordering_across_folders() {
    // F1 lists a 10:00 recording, F2 a 09:00 one: the older is announced
    // first.
    let config = test_config(vec!["F1", "F2"], None);
    let mut cache = Cache::fresh_from_config(&config);
    assign_colors(&mut cache, &config.folders);

    let recs = vec![
        session("R4", Some(1704189600), "F1"),
        session("R5", Some(1704186000), "F2"),
    ];
    let plan = plan_announcements(sort_by_start_time(recs), &cache, None);
    assert_eq!(ids(&plan), vec!["R5".to_string(), "R4".to_string()]);
}

#[test]
fn missing_start_time_sorts_first_and_passes_without_cutoff() {
    let config = test_config(vec!["F1"], None);
    let mut cache = Cache::fresh_from_config(&config);
    assign_colors(&mut cache, &config.folders);

    let recs = vec![
        session("R6", Some(100), "F1"),
        session("R7", None, "F1"),
    ];
    let plan = plan_announcements(sort_by_start_time(recs), &cache, None);
    assert_eq!(ids(&plan), vec!["R7".to_string(), "R6".to_string()]);
}

#[test]
fn missing_start_time_excluded_under_cutoff() {
    let config = test_config(vec!["F1"], Some(50));
    let mut cache = Cache::fresh_from_config(&config);
    assign_colors(&mut cache, &config.folders);

    let recs = vec![
        session("R8", None, "F1"),
        session("R9", Some(60), "F1"),
    ];
    let plan = plan_announcements(sort_by_start_time(recs), &cache, config.filter_since_date);
    assert_eq!(ids(&plan), vec!["R9".to_string()]);
}

#[test]
fn duplicate_id_within_batch_planned_once() {
    let config = test_config(vec!["F1", "F2"], None);
    let mut cache = Cache::fresh_from_config(&config);
    assign_colors(&mut cache, &config.folders);

    let recs = vec![
        session("R10", Some(100), "F1"),
        session("R10", Some(100), "F1"),
    ];
    let plan = plan_announcements(sort_by_start_time(recs), &cache, None);
    assert_eq!(ids(&plan), vec!["R10".to_string()]);
}

#[test]
fn sort_is_stable_for_equal_start_times() {
    let recs = vec![
        session("A", Some(100), "F1"),
        session("B", Some(100), "F1"),
        session("C", Some(50), "F1"),
    ];
    let sorted = sort_by_start_time(recs);
    let order: Vec<String> = sorted.iter().map(|s| s.id.clone()).collect();
    assert_eq!(order, vec!["C".to_string(), "A".to_string(), "B".to_string()]);
}

#[test]
fn colors_are_stable_and_in_range() {
    let config = test_config(vec!["F1", "F2"], None);
    let mut cache = Cache::fresh_from_config(&config);
    assign_colors(&mut cache, &config.folders);
    let c1 = cache.color_map.get(&"F1".to_string()).unwrap();
    let c2 = cache.color_map.get(&"F2".to_string()).unwrap();
    assert!(c1 < 0x1000000);
    assert!(c2 < 0x1000000);

    // A later cycle, with one more folder, never changes an existing color.
    let wider = test_config(vec!["F1", "F2", "F3"], None);
    assign_colors(&mut cache, &wider.folders);
    assert_eq!(cache.color_map.get(&"F1".to_string()).unwrap(), c1);
    assert_eq!(cache.color_map.get(&"F2".to_string()).unwrap(), c2);
    assert!(cache.color_map.contains_key(&"F3".to_string()));
    assert_eq!(cache.color_map.len(), 3);
}

#[test]
fn color_falls_back_to_folder_field() {
    let config = test_config(vec!["F1"], None);
    let mut cache = Cache::fresh_from_config(&config);
    assign_colors(&mut cache, &config.folders);
    let c1 = cache.color_map.get(&"F1".to_string()).unwrap();

    // The listing reports folder details under an id the map does not know;
    // the recording's `folder` field still finds the color.
    let mut rec = session("R11", Some(100), "F1");
    rec.folder_details.id = "other".to_string();
    let plan = plan_announcements(vec![rec], &cache, None);
    assert_eq!(plan.len(), 1);
    assert_eq!(plan[0].color, c1);
}

#[test]
fn seen_set_retains_ids_of_removed_folders() {
    let config = test_config(vec!["F1"], None);
    let mut cache = Cache::fresh_from_config(&config);
    assign_colors(&mut cache, &config.folders);
    cache.record_announced("R12".to_string());

    // F1 is no longer in the config; its id stays cached and is never
    // re-announced once the folder returns.
    let recs = vec![session("R12", Some(100), "F1")];
    let plan = plan_announcements(sort_by_start_time(recs), &cache, None);
    assert!(plan.is_empty());
    assert_eq!(cache.cached_recordings, vec!["R12".to_string()]);
}

#[test]
fn empty_batch_plans_nothing() {
    let config = test_config(vec![], None);
    let mut cache = Cache::fresh_from_config(&config);
    assign_colors(&mut cache, &config.folders);
    let plan = plan_announcements(sort_by_start_time(Vec::new()), &cache, None);
    assert!(plan.is_empty());
    assert!(cache.cached_recordings.is_empty());
}

#[test]
fn pack_rgb_packs_channels() {
    assert_eq!(panoptocord::color::pack_rgb(0x12, 0x34, 0x56), 0x123456);
    assert_eq!(panoptocord::color::pack_rgb(255, 255, 255), 0xFFFFFF);
    assert_eq!(panoptocord::color::pack_rgb(0, 0, 0), 0);
}

#[test]
fn random_packed_color_is_24_bit() {
    for _ in 0..32 {
        assert!(panoptocord::color::random_packed_color() < 0x1000000);
    }
}

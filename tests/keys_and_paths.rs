use perf_testing::keys::{
    decode_test_id, encode_script_id, encode_test_id, get_global_script_id, get_test_id,
};
use perf_testing::paths::{
    decimal_text, get_a_locust_dir, get_a_project_dir, get_a_project_results_dir,
    get_a_script_results_dir, get_a_temp_dir, get_a_test_results_dir, get_an_environment_dir,
    get_config_file, get_csv_file_path, get_csv_file_relative_path, get_csv_history_file_path,
    get_data_dir, get_environments_dir, get_info_file_path, get_log_file_relative_path,
    get_log_file_relative_path_for_worker, get_plot_file, get_projects_dir, get_results_dir,
    get_script_file, get_temp_dir, get_zip_file, DataPath,
};

#[test]
fn script_key_joins_with_delimiter() {
    assert_eq!(encode_script_id("proj", "load.py"), "proj]$[load.py");
}

#[test]
fn test_key_joins_three_components() {
    assert_eq!(encode_test_id("proj", "load.py", "1700"), "proj]$[load.py]$[1700");
}

#[test]
fn decode_inverts_encode() {
    let key = encode_test_id("proj", "load.py", "1700");
    assert_eq!(decode_test_id(&key), Some(("proj", "load.py", "1700")));
}

#[test]
fn decode_inverts_encode_with_empty_components() {
    let key = encode_test_id("", "", "");
    assert_eq!(key, "]$[]$[");
    assert_eq!(decode_test_id(&key), Some(("", "", "")));
}

#[test]
fn decode_keeps_brackets_that_are_not_delimiters() {
    let key = encode_test_id("a]", "$b", "[c]$");
    assert_eq!(decode_test_id(&key), Some(("a]", "$b", "[c]$")));
}

#[test]
fn decode_rejects_two_components() {
    assert_eq!(decode_test_id("proj]$[load.py"), None);
}

#[test]
fn decode_rejects_four_components() {
    assert_eq!(decode_test_id("a]$[b]$[c]$[d"), None);
}

#[test]
fn decode_rejects_plain_text() {
    assert_eq!(decode_test_id(""), None);
    assert_eq!(decode_test_id("no delimiter"), None);
}

#[test]
fn topic_of_run_key_is_script_key() {
    assert_eq!(get_global_script_id("proj]$[load.py]$[1700"), Some("proj]$[load.py"));
    assert_eq!(get_global_script_id("proj"), None);
}

#[test]
fn legacy_key_format() {
    assert_eq!(get_test_id("p", "s", "t"), "$[p]$[s]$[t]$");
}

fn text(p: DataPath) -> String {
    p.to_path_string()
}

#[test]
fn data_layout_directories() {
    assert_eq!(text(get_data_dir()), "../Performance-Testing-Data");
    assert_eq!(text(get_temp_dir()), "../Performance-Testing-Data/temp");
    assert_eq!(text(get_environments_dir()), "../Performance-Testing-Data/environments");
    assert_eq!(text(get_projects_dir()), "../Performance-Testing-Data/projects");
    assert_eq!(text(get_results_dir()), "../Performance-Testing-Data/results");
}

#[test]
fn project_directories() {
    assert_eq!(text(get_a_project_dir("p")), "../Performance-Testing-Data/projects/p");
    assert_eq!(text(get_a_temp_dir("p")), "../Performance-Testing-Data/temp/p");
    assert_eq!(text(get_an_environment_dir("p")), "../Performance-Testing-Data/environments/p");
    assert_eq!(text(get_a_locust_dir("p")), "../Performance-Testing-Data/projects/p/locust");
    assert_eq!(
        text(get_a_project_results_dir("p")),
        "../Performance-Testing-Data/projects/p/results"
    );
}

#[test]
fn script_and_run_files() {
    assert_eq!(
        text(get_a_script_results_dir("p", "s.py")),
        "../Performance-Testing-Data/projects/p/results/s.py"
    );
    assert_eq!(
        text(get_script_file("p", "s.py")),
        "../Performance-Testing-Data/projects/p/locust/s.py"
    );
    assert_eq!(
        text(get_config_file("p", "s.py")),
        "../Performance-Testing-Data/projects/p/locust/s.py.json"
    );
    let run = "../Performance-Testing-Data/projects/p/results/s.py/7";
    assert_eq!(text(get_a_test_results_dir("p", "s.py", "7")), run);
    assert_eq!(text(get_zip_file("p", "s.py", "7")), format!("{}/results.zip", run));
    assert_eq!(text(get_plot_file("p", "s.py", "7")), format!("{}/results.png", run));
    assert_eq!(text(get_csv_file_path("p", "s.py", "7")), format!("{}/results_stats.csv", run));
    assert_eq!(
        text(get_csv_history_file_path("p", "s.py", "7")),
        format!("{}/results_stats_history.csv", run)
    );
    assert_eq!(text(get_info_file_path("p", "s.py", "7")), format!("{}/info.json", run));
}

#[test]
fn relative_paths_from_scripts_directory() {
    assert_eq!(
        text(get_log_file_relative_path("p", "s.py", "7")),
        "../../projects/p/results/s.py/7/log.log"
    );
    assert_eq!(
        text(get_csv_file_relative_path("p", "s.py", "7")),
        "../../projects/p/results/s.py/7/results"
    );
    assert_eq!(
        text(get_log_file_relative_path_for_worker("p", "s.py", "7", 12)),
        "../../projects/p/results/s.py/7/worker_12_log.log"
    );
}

#[test]
fn decimal_digits() {
    assert_eq!(decimal_text(0), "0");
    assert_eq!(decimal_text(7), "7");
    assert_eq!(decimal_text(1234), "1234");
    assert_eq!(decimal_text(u32::MAX), "4294967295");
}

#[test]
fn path_components_are_kept() {
    let p = DataPath::new("a").join("b");
    assert_eq!(p.parts, vec!["a".to_string(), "b".to_string()]);
}

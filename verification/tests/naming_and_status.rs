use linkfetch::check_download_status;
use linkfetch::check_fetch_status;
use linkfetch::download_path;
use linkfetch::download_paths;
use linkfetch::DownloadError;
use linkfetch::FetchError;

#[test]
fn paths_carry_prefix_and_index() {
    assert_eq!(download_path("out_", 0), "out_file_0");
    assert_eq!(download_path("out_", 1), "out_file_1");
    assert_eq!(download_path("downloaded_file", 7), "downloaded_filefile_7");
    assert_eq!(download_path("", 10), "file_10");
    assert_eq!(download_path("dir/", 12345), "dir/file_12345");
    assert_eq!(download_path("", u64::MAX), "file_18446744073709551615");
}

#[test]
fn a_run_over_n_links_names_n_distinct_files() {
    let paths = download_paths("out_", 4);
    assert_eq!(paths, vec!["out_file_0", "out_file_1", "out_file_2", "out_file_3"]);

    let empty = download_paths("out_", 0);
    assert!(empty.is_empty());
}

#[test]
fn success_statuses_pass_the_fetch_check() {
    assert!(check_fetch_status(200).is_ok());
    assert!(check_fetch_status(204).is_ok());
    assert!(check_fetch_status(299).is_ok());
}

#[test]
fn non_success_statuses_fail_the_fetch_check() {
    assert_eq!(check_fetch_status(199), Err(FetchError::BadStatus(199)));
    assert_eq!(check_fetch_status(301), Err(FetchError::BadStatus(301)));
    assert_eq!(check_fetch_status(404), Err(FetchError::BadStatus(404)));
    assert_eq!(check_fetch_status(500), Err(FetchError::BadStatus(500)));
}

#[test]
fn download_status_check_mirrors_the_fetch_check() {
    assert!(check_download_status(200).is_ok());
    assert_eq!(check_download_status(404), Err(DownloadError::BadStatus(404)));
    assert_eq!(check_download_status(503), Err(DownloadError::BadStatus(503)));
}

use pineapple::utils::{
    confirmed_url, contains, download_gdrive_file, extract_download_url, get_pineapple_cache,
    handle_virus_scan_warning, join_path, strip_prefix, DownloadForm, FetchError, FormInput,
    Stage, CACHE_NAME, FORM_SELECTOR, INPUT_SELECTOR, ROOT_CACHE, SCAN_WARNING,
};

const WARNING_PAGE: &str = r#"<!DOCTYPE html><html><head><title>Google Drive - Virus scan warning</title></head>
<body><div class="uc-main"><div id="uc-text">
<p class="uc-warning-caption">Google Drive can't scan this file for viruses.</p>
<p class="uc-warning-subcaption">jump-cpg0016.csv.gz (412M) is too large to scan.</p>
<form id="download-form" action="https://drive.usercontent.google.com/download" method="get">
<input type="submit" id="uc-download-link" value="Download anyway"/>
<input type="hidden" name="id" value="1X-7Im3DYdgw1ITmIy_H4y1nclWDW8Uxh">
<input type="hidden" name="export" value="download">
<input type="hidden" name="confirm" value="t">
<input type="hidden" name="uuid" value="0b5f6a0c-1f2e">
</form></div></div></body></html>"#;

fn input(name: Option<&str>, value: Option<&str>) -> FormInput {
    FormInput { name: name.map(String::from), value: value.map(String::from) }
}

#[test]
fn fixed_texts_have_their_values() {
    assert_eq!(SCAN_WARNING, "Google Drive can't scan this file for viruses");
    assert_eq!(FORM_SELECTOR, "form#download-form");
    assert_eq!(INPUT_SELECTOR, "input[name]");
}

#[test]
fn cache_named_by_the_environment_wins() {
    assert_eq!(get_pineapple_cache(Some("/data/cache"), Some("/home/u")), "/data/cache");
    assert_eq!(get_pineapple_cache(Some("/data/cache"), None), "/data/cache");
    assert_eq!(get_pineapple_cache(Some("relative dir"), Some("/home/u")), "relative dir");
    assert_eq!(get_pineapple_cache(Some(" "), Some("/home/u")), " ");
}

#[test]
fn empty_or_missing_name_falls_back_to_home_then_root() {
    assert_eq!(get_pineapple_cache(Some(""), Some("/home/u")), "/home/u/.pineapple_cache");
    assert_eq!(get_pineapple_cache(None, Some("/home/u")), "/home/u/.pineapple_cache");
    assert_eq!(get_pineapple_cache(None, Some("/home/u/")), "/home/u/.pineapple_cache");
    assert_eq!(get_pineapple_cache(None, Some("/")), "/.pineapple_cache");
    assert_eq!(get_pineapple_cache(Some(""), None), "/.pineapple_cache");
    assert_eq!(get_pineapple_cache(None, None), "/.pineapple_cache");
}

#[test]
fn cache_names_have_their_values() {
    assert_eq!(CACHE_NAME, ".pineapple_cache");
    assert_eq!(ROOT_CACHE, "/.pineapple_cache");
}

#[test]
fn cache_under_home_agrees_with_the_standard_join() {
    for home in ["/home/u", "/home/u/", "/", "rel"] {
        let joined = std::path::Path::new(home).join(".pineapple_cache");
        assert_eq!(get_pineapple_cache(None, Some(home)), joined.to_str().unwrap());
    }
}

#[test]
fn join_path_puts_one_separator_between() {
    assert_eq!(join_path("/home/u/.pineapple_cache", "t.csv.gz"), "/home/u/.pineapple_cache/t.csv.gz");
    assert_eq!(join_path("/home/u/.pineapple_cache/", "t.csv.gz"), "/home/u/.pineapple_cache/t.csv.gz");
    assert_eq!(join_path("/", "t.csv.gz"), "/t.csv.gz");
    assert_eq!(join_path("", "t.csv.gz"), "t.csv.gz");
    assert_eq!(join_path("cach\u{e9}", "t"), "cach\u{e9}/t");
}

#[test]
fn join_path_agrees_with_the_standard_join() {
    for dir in ["/a/b", "/a/b/", "/", "", "rel", "rel/"] {
        let joined = std::path::Path::new(dir).join("jump-cpg0016.csv.gz");
        assert_eq!(join_path(dir, "jump-cpg0016.csv.gz"), joined.to_str().unwrap());
    }
}

#[test]
fn strip_prefix_hands_back_the_rest() {
    assert_eq!(strip_prefix("s3://bucket/key", "s3://"), Some("bucket/key"));
    assert_eq!(strip_prefix("abc", "abc"), Some(""));
    assert_eq!(strip_prefix("abc", ""), Some("abc"));
    assert_eq!(strip_prefix("\u{e9}t\u{e9}", "\u{e9}"), Some("t\u{e9}"));
}

#[test]
fn strip_prefix_refuses_what_does_not_start_so() {
    assert_eq!(strip_prefix("abc", "abcd"), None);
    assert_eq!(strip_prefix("abc", "b"), None);
    assert_eq!(strip_prefix("", "a"), None);
    assert_eq!(strip_prefix("Abc", "a"), None);
}

#[test]
fn confirmed_url_joins_action_and_pairs() {
    let form = DownloadForm {
        action: Some("https://host/download".to_string()),
        inputs: vec![input(Some("id"), Some("42")), input(Some("confirm"), Some("t"))],
    };
    assert_eq!(confirmed_url(Some(form)), Ok("https://host/download?id=42&confirm=t".to_string()));
}

#[test]
fn confirmed_url_skips_inputs_without_name_or_value() {
    let form = DownloadForm {
        action: Some("a".to_string()),
        inputs: vec![
            input(Some("skipped"), None),
            input(Some("x"), Some("1")),
            input(None, Some("lost")),
            input(None, None),
            input(Some("y"), Some("")),
            input(Some(""), Some("z")),
        ],
    };
    assert_eq!(confirmed_url(Some(form)), Ok("a?x=1&y=&=z".to_string()));
}

#[test]
fn confirmed_url_encodes_nothing() {
    let form = DownloadForm {
        action: Some("https://host/d?old=1".to_string()),
        inputs: vec![input(Some("a b"), Some("c&d=e")), input(Some("\u{fc}"), Some("%/?#"))],
    };
    assert_eq!(
        confirmed_url(Some(form)),
        Ok("https://host/d?old=1?a b=c&d=e&\u{fc}=%/?#".to_string())
    );
}

#[test]
fn confirmed_url_without_inputs_ends_in_the_question_mark() {
    let form = DownloadForm { action: Some("https://host/d".to_string()), inputs: vec![] };
    assert_eq!(confirmed_url(Some(form)), Ok("https://host/d?".to_string()));
    let one = DownloadForm {
        action: Some("https://host/d".to_string()),
        inputs: vec![input(Some("only"), Some("1"))],
    };
    assert_eq!(confirmed_url(Some(one)), Ok("https://host/d?only=1".to_string()));
}

#[test]
fn confirmed_url_needs_a_form_with_an_action() {
    assert_eq!(confirmed_url(None), Err(FetchError::NoForm));
    let form = DownloadForm { action: None, inputs: vec![input(Some("id"), Some("1"))] };
    assert_eq!(confirmed_url(Some(form)), Err(FetchError::NoAction));
}

#[test]
fn extract_download_url_reads_the_warning_page() {
    assert_eq!(
        extract_download_url(WARNING_PAGE),
        Ok("https://drive.usercontent.google.com/download?id=1X-7Im3DYdgw1ITmIy_H4y1nclWDW8Uxh&export=download&confirm=t&uuid=0b5f6a0c-1f2e".to_string())
    );
}

#[test]
fn extract_download_url_takes_the_first_form_and_only_its_inputs() {
    let page = r#"<html><body>
<input name="outside" value="no">
<form id="other" action="/wrong"><input name="w" value="1"></form>
<form id="download-form" action="/first"><div><input name="deep" value="1"></div><input name="novalue"><input value="noname"></form>
<form id="download-form" action="/second"><input name="late" value="2"></form>
</body></html>"#;
    assert_eq!(extract_download_url(page), Ok("/first?deep=1".to_string()));
}

#[test]
fn extract_download_url_decodes_what_the_page_escapes() {
    let page = r#"<form id="download-form" action="/d?a=1&amp;b=2"><input name="q" value="x&amp;y &lt;z&gt;"></form>"#;
    assert_eq!(extract_download_url(page), Ok("/d?a=1&b=2?q=x&y <z>".to_string()));
}

#[test]
fn extract_download_url_reports_a_missing_form_or_action() {
    assert_eq!(extract_download_url("<html><body><p>nothing</p></body></html>"), Err(FetchError::NoForm));
    assert_eq!(extract_download_url(""), Err(FetchError::NoForm));
    assert_eq!(
        extract_download_url(r#"<form id="upload-form" action="/x"></form>"#),
        Err(FetchError::NoForm)
    );
    assert_eq!(
        extract_download_url(r#"<form id="download-form"><input name="id" value="1"></form>"#),
        Err(FetchError::NoAction)
    );
}

#[test]
fn a_page_without_the_warning_leaves_the_address() {
    let url = "https://drive.google.com/uc?id=abc&export=download";
    assert_eq!(handle_virus_scan_warning(url, "PK\u{3}\u{4} some file content"), Ok(url.to_string()));
    assert_eq!(handle_virus_scan_warning(url, ""), Ok(url.to_string()));
    let form_only = r#"<form id="download-form" action="/x"><input name="a" value="1"></form>"#;
    assert_eq!(handle_virus_scan_warning(url, form_only), Ok(url.to_string()));
    let lower = "google drive can't scan this file for viruses";
    assert_eq!(handle_virus_scan_warning(url, lower), Ok(url.to_string()));
}

#[test]
fn a_warning_page_leads_to_the_confirmed_address() {
    let url = "https://drive.google.com/uc?id=abc&export=download";
    assert_eq!(
        handle_virus_scan_warning(url, WARNING_PAGE),
        Ok("https://drive.usercontent.google.com/download?id=1X-7Im3DYdgw1ITmIy_H4y1nclWDW8Uxh&export=download&confirm=t&uuid=0b5f6a0c-1f2e".to_string())
    );
}

#[test]
fn a_warning_without_form_is_an_error() {
    let url = "https://drive.google.com/uc?id=abc&export=download";
    let page = "<html><body>Google Drive can't scan this file for viruses</body></html>";
    assert_eq!(handle_virus_scan_warning(url, page), Err(FetchError::NoForm));
    let no_action = r#"Google Drive can't scan this file for viruses<form id="download-form"></form>"#;
    assert_eq!(handle_virus_scan_warning(url, no_action), Err(FetchError::NoAction));
}

#[test]
fn the_first_request_goes_to_the_direct_address() {
    let fetch = download_gdrive_file("1X-7Im3DYdgw1ITmIy_H4y1nclWDW8Uxh", "/cache", "t.csv.gz", true);
    assert_eq!(
        fetch.url(),
        "https://drive.google.com/uc?id=1X-7Im3DYdgw1ITmIy_H4y1nclWDW8Uxh&export=download"
    );
    assert_eq!(fetch.stage(), Stage::Probing);
    assert_eq!(fetch.output_dir(), "/cache");
    assert_eq!(fetch.filename(), "t.csv.gz");
    assert!(fetch.silent());
    assert_eq!(fetch.total(), 0);
    assert_eq!(fetch.written(), 0);
}

#[test]
fn a_download_runs_through_its_stages() {
    let mut fetch = download_gdrive_file("abc", "/cache", "t.csv.gz", false);
    assert_eq!(fetch.page(WARNING_PAGE), Stage::Opening);
    assert_eq!(
        fetch.url(),
        "https://drive.usercontent.google.com/download?id=1X-7Im3DYdgw1ITmIy_H4y1nclWDW8Uxh&export=download&confirm=t&uuid=0b5f6a0c-1f2e"
    );
    assert_eq!(fetch.opened(Some(10)), Stage::Streaming);
    assert_eq!(fetch.total(), 10);
    assert_eq!(fetch.chunk(4), 4);
    assert_eq!(fetch.chunk(0), 4);
    assert_eq!(fetch.chunk(6), 10);
    assert_eq!(fetch.written(), 10);
    assert_eq!(fetch.finished(), Stage::Done);
    assert_eq!(fetch.failed(FetchError::Io), Stage::Done);
    assert_eq!(fetch.chunk(5), 10);
}

#[test]
fn a_small_file_keeps_the_direct_address() {
    let mut fetch = download_gdrive_file("abc", "/cache", "t.csv.gz", false);
    assert_eq!(fetch.page("the file itself"), Stage::Opening);
    assert_eq!(fetch.url(), "https://drive.google.com/uc?id=abc&export=download");
}

#[test]
fn no_announced_content_means_the_download_cannot_start() {
    let mut zero = download_gdrive_file("abc", "/cache", "t", false);
    zero.page("file");
    assert_eq!(zero.opened(Some(0)), Stage::Failed(FetchError::NotStarted));
    let mut unknown = download_gdrive_file("abc", "/cache", "t", false);
    unknown.page("file");
    assert_eq!(unknown.opened(None), Stage::Failed(FetchError::NotStarted));
    assert_eq!(unknown.chunk(3), 0);
    assert_eq!(unknown.finished(), Stage::Failed(FetchError::NotStarted));
}

#[test]
fn a_failure_is_final() {
    let mut fetch = download_gdrive_file("abc", "/cache", "t", false);
    assert_eq!(fetch.failed(FetchError::Request), Stage::Failed(FetchError::Request));
    assert_eq!(fetch.page(WARNING_PAGE), Stage::Failed(FetchError::Request));
    assert_eq!(fetch.opened(Some(9)), Stage::Failed(FetchError::Request));
    assert_eq!(fetch.failed(FetchError::Io), Stage::Failed(FetchError::Request));
    assert_eq!(fetch.url(), "https://drive.google.com/uc?id=abc&export=download");

    let mut page = download_gdrive_file("abc", "/cache", "t", false);
    let warning = "Google Drive can't scan this file for viruses";
    assert_eq!(page.page(warning), Stage::Failed(FetchError::NoForm));

    let mut stream = download_gdrive_file("abc", "/cache", "t", false);
    stream.page("file");
    stream.opened(Some(8));
    stream.chunk(3);
    assert_eq!(stream.failed(FetchError::Io), Stage::Failed(FetchError::Io));
    assert_eq!(stream.written(), 3);
}

#[test]
fn events_out_of_turn_change_nothing() {
    let mut fetch = download_gdrive_file("abc", "/cache", "t", false);
    assert_eq!(fetch.opened(Some(5)), Stage::Probing);
    assert_eq!(fetch.chunk(5), 0);
    assert_eq!(fetch.finished(), Stage::Probing);
    fetch.page("file");
    assert_eq!(fetch.page(WARNING_PAGE), Stage::Opening);
    assert_eq!(fetch.url(), "https://drive.google.com/uc?id=abc&export=download");
    assert_eq!(fetch.finished(), Stage::Opening);
}

#[test]
fn contains_finds_a_part_wherever_it_stands() {
    assert!(contains("abcdef", "abc"));
    assert!(contains("abcdef", "cde"));
    assert!(contains("abcdef", "def"));
    assert!(contains("abcdef", "abcdef"));
    assert!(contains("abcdef", "f"));
    assert!(contains("aab", "ab"));
    assert!(contains("na\u{ef}ve caf\u{e9}", "\u{ef}ve c"));
}

#[test]
fn contains_finds_the_empty_part_everywhere() {
    assert!(contains("abc", ""));
    assert!(contains("", ""));
}

#[test]
fn contains_rejects_what_does_not_stand_there() {
    assert!(!contains("abcdef", "abd"));
    assert!(!contains("abcdef", "abcdefg"));
    assert!(!contains("abcdef", "fa"));
    assert!(!contains("abcdef", "ABC"));
    assert!(!contains("", "a"));
    assert!(!contains("cafe", "caf\u{e9}"));
}

#[test]
fn contains_agrees_with_the_standard_search() {
    let texts = ["", "a", "ab", "aba", "abab", "Google Drive can't scan", "\u{e9}\u{e9}a"];
    let parts = ["", "a", "b", "ab", "ba", "aba", "can't", "\u{e9}a", "\u{e9}"];
    for text in texts {
        for part in parts {
            assert_eq!(contains(text, part), text.contains(part));
        }
    }
}

#[test]
fn each_fetch_error_has_its_message() {
    assert_eq!(FetchError::Request.message(), "Failed to send download request");
    assert_eq!(FetchError::NoForm.message(), "Download form not found in the HTML");
    assert_eq!(FetchError::NoAction.message(), "No form action found");
    assert_eq!(
        FetchError::NotStarted.message(),
        "Download could not be started. Please check connection and try again."
    );
    assert_eq!(FetchError::Io.message(), "Failed to write chunk to file");
}

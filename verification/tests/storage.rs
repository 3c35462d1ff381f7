use imhottep::http_client::{HttpMethod, HttpRequest, JqFilter, RegexPattern};
use imhottep::storage::{
    env_dir_with_base, library_path_with_base, restore_all, restore_request, save_request,
    BaseDir, SavedRequest,
};
use imhottep::uv_client::env_dir;

fn saved(method: &str) -> SavedRequest {
    SavedRequest {
        method: method.to_string(),
        url: "https://a".to_string(),
        headers: vec![("A".to_string(), "1".to_string())],
        body: None,
        jq_filter: None,
        stream_prefix_regex: None,
        stream_suffix_regex: None,
    }
}

#[test]
fn the_library_stands_in_the_first_directory_that_is_known() {
    let given = library_path_with_base(true, true, true);
    assert_eq!(given.base, BaseDir::Given);
    assert_eq!(given.parts, vec!["imhottep", "request-library.json"]);
    let xdg = library_path_with_base(false, true, true);
    assert_eq!(xdg.base, BaseDir::XdgConfigHome);
    assert_eq!(xdg.parts, vec!["imhottep", "request-library.json"]);
    let home = library_path_with_base(false, false, true);
    assert_eq!(home.base, BaseDir::Home);
    assert_eq!(home.parts, vec![".config", "imhottep", "request-library.json"]);
    let here = library_path_with_base(false, false, false);
    assert_eq!(here.base, BaseDir::Current);
    assert_eq!(here.parts, vec!["imhottep", "request-library.json"]);
}

#[test]
fn the_environment_stands_beside_the_library() {
    for (given, xdg, home) in [(true, false, false), (false, true, false), (false, false, true)] {
        let mut dir = env_dir_with_base(given, xdg, home);
        dir.parts.push("request-library.json");
        let library = library_path_with_base(given, xdg, home);
        assert_eq!(dir.base, library.base);
        assert_eq!(dir.parts, library.parts);
    }
    assert_eq!(env_dir(true, true).base, BaseDir::XdgConfigHome);
}

#[test]
fn usual_values_are_left_out() {
    let request = HttpRequest::new(HttpMethod::GET, "https://a");
    let kept = save_request(&request);
    assert_eq!(kept.jq_filter, None);
    assert_eq!(kept.stream_prefix_regex, None);
    assert_eq!(kept.stream_suffix_regex, None);
    let back = restore_request(&kept).unwrap();
    assert_eq!(&*back.jq_filter, ".");
    assert_eq!(back.stream_prefix_regex.pattern(), r"^\w+:\s*");
    assert_eq!(back.stream_suffix_regex.pattern(), r"\s*$");
}

#[test]
fn other_values_are_kept() {
    let mut request = HttpRequest::new(HttpMethod::PATCH, "https://a").with_header("A", "1");
    request.jq_filter = JqFilter::from(".x");
    request.stream_prefix_regex = RegexPattern::from("[");
    request.set_body(String::new());
    let back = restore_request(&save_request(&request)).unwrap();
    assert_eq!(back.method, HttpMethod::PATCH);
    assert_eq!(&*back.jq_filter, ".x");
    assert_eq!(back.stream_prefix_regex.pattern(), "[");
    assert!(back.stream_prefix_regex.compiled().is_none());
    assert_eq!(back.body, Some(String::new()));
    assert_eq!(back.headers.get("A").map(|v| v.as_str()), Some("1"));
}

#[test]
fn one_bad_method_spoils_the_library() {
    assert!(restore_all(&vec![saved("GET"), saved("purge")]).is_some());
    assert!(restore_all(&vec![saved("GET"), saved("two words")]).is_none());
    assert!(restore_request(&saved("")).is_none());
}

#[test]
fn other_methods_are_kept_too() {
    let back = restore_request(&saved("PURGE")).unwrap();
    assert_eq!(back.method.as_str(), "PURGE");
    assert!(HttpMethod::parse("PURGE").is_some());
    assert!(HttpMethod::parse("a b").is_none());
    assert_eq!(HttpMethod::parse("TRACE"), Some(HttpMethod::TRACE));
    assert_eq!(back.method.next(), HttpMethod::GET);
}

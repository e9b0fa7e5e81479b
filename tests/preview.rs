use sitegen::preview::{decide, join_path_str, reply_for, Decision, FileProbe, PreviewRequest};

fn get(path: &str) -> PreviewRequest {
    PreviewRequest { is_get: true, absolute_path: Some(path.to_string()) }
}

fn served_path(d: Decision) -> String {
    match d {
        Decision::ServeFile(p) => p,
        Decision::Respond(r) => panic!("answered with {}", r.status),
    }
}

#[test]
fn get_resolves_under_output_dir() {
    assert_eq!(served_path(decide("_site", &get("/hello.html"))), "_site/hello.html");
    assert_eq!(served_path(decide("_site/", &get("/a/b.html"))), "_site/a/b.html");
    assert_eq!(served_path(decide("_site", &get("/"))), "_site/");
}

#[test]
fn doubled_slash_replaces_directory() {
    assert_eq!(served_path(decide("_site", &get("//etc/hosts"))), "/etc/hosts");
}

#[test]
fn join_paths() {
    assert_eq!(join_path_str("a", "b"), "a/b");
    assert_eq!(join_path_str("a/", "b"), "a/b");
    assert_eq!(join_path_str("", "b"), "b");
    assert_eq!(join_path_str("a", "/b"), "/b");
    assert_eq!(join_path_str("a", ""), "a/");
}

#[test]
fn non_get_is_bad_request() {
    let req = PreviewRequest { is_get: false, absolute_path: Some("/hello.html".to_string()) };
    match decide("_site", &req) {
        Decision::Respond(r) => {
            assert_eq!(r.status, 400);
            assert_eq!(r.body, b"<h1>400 Bad Request</h1>\n".to_vec());
        }
        Decision::ServeFile(_) => panic!("served a non-GET request"),
    }
}

#[test]
fn non_absolute_target_is_bad_request() {
    for req in [
        PreviewRequest { is_get: true, absolute_path: None },
        PreviewRequest { is_get: true, absolute_path: Some("hello.html".to_string()) },
        PreviewRequest { is_get: true, absolute_path: Some(String::new()) },
    ] {
        match decide("_site", &req) {
            Decision::Respond(r) => {
                assert_eq!(r.status, 400);
                assert_eq!(r.body, b"<h1>400 Bad Request</h1>\n".to_vec());
            }
            Decision::ServeFile(_) => panic!("served a request without an absolute path"),
        }
    }
}

#[test]
fn existing_file_is_served() {
    let r = reply_for(FileProbe::Contents(b"<p>raw \xff bytes</p>".to_vec()));
    assert_eq!(r.status, 200);
    assert_eq!(r.body, b"<p>raw \xff bytes</p>".to_vec());
}

#[test]
fn missing_file_is_not_found() {
    let r = reply_for(FileProbe::Missing);
    assert_eq!(r.status, 404);
    assert_eq!(r.body, b"<h1>404 Not Found</h1>\n".to_vec());
}

#[test]
fn unreadable_file_is_server_error() {
    let r = reply_for(FileProbe::Unreadable);
    assert_eq!(r.status, 500);
    assert_eq!(r.body, b"<h1>500 Internal Server Error</h1>\n".to_vec());
}

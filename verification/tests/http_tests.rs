use tapnow_launcher::http::{
    content_type_for, handle_frontend_request, http_get_request, is_api_ready, is_frontend_ready,
    is_localserver_ready, response_for, route_request, status_text, write_simple_response, RequestPlan,
};

fn static_file(plan: &RequestPlan) -> Option<(&str, bool)> {
    match plan {
        RequestPlan::StaticFile { rel_path, head_only } => Some((rel_path.as_str(), *head_only)),
        _ => None,
    }
}

#[test]
fn index_for_root_and_index_html() {
    assert!(matches!(route_request("GET / HTTP/1.1\r\nHost: x\r\n\r\n"), RequestPlan::Index { head_only: false }));
    assert!(matches!(route_request("HEAD /index.html HTTP/1.1\r\n"), RequestPlan::Index { head_only: true }));
    assert!(matches!(route_request("GET /?x=1 HTTP/1.1"), RequestPlan::Index { head_only: false }));
    assert!(matches!(route_request("GET"), RequestPlan::Index { head_only: false }));
}

#[test]
fn other_methods_are_not_allowed() {
    assert!(matches!(route_request("POST / HTTP/1.1\r\n"), RequestPlan::Reject { status: 405, head_only: false }));
    assert!(matches!(route_request(""), RequestPlan::Reject { status: 405, head_only: false }));
    assert!(matches!(route_request("GETS / HTTP/1.1"), RequestPlan::Reject { status: 405, head_only: false }));
}

#[test]
fn methods_ignore_case() {
    assert!(matches!(route_request("get / HTTP/1.1"), RequestPlan::Index { head_only: false }));
    assert!(matches!(route_request("hEaD / HTTP/1.1"), RequestPlan::Index { head_only: true }));
}

#[test]
fn parent_steps_are_refused() {
    assert!(matches!(route_request("GET /../secret HTTP/1.1"), RequestPlan::Reject { status: 400, head_only: false }));
    assert!(matches!(route_request("HEAD /a..b HTTP/1.1"), RequestPlan::Reject { status: 400, head_only: true }));
    assert!(matches!(route_request("GET /a?x=.. HTTP/1.1"), RequestPlan::StaticFile { .. }));
}

#[test]
fn static_paths_use_backslashes() {
    let plan = route_request("get /assets/app.js?v=1 HTTP/1.1\r\n");
    assert_eq!(static_file(&plan), Some(("assets\\app.js", false)));
    let plan = route_request("HEAD ///favicon.ico HTTP/1.1");
    assert_eq!(static_file(&plan), Some(("favicon.ico", true)));
    let plan = route_request("  GET\t/a/b  HTTP/1.1\r\nGET /other");
    assert_eq!(static_file(&plan), Some(("a\\b", false)));
}

#[test]
fn empty_read_gets_no_reply() {
    assert!(matches!(handle_frontend_request(b""), RequestPlan::NoReply));
    assert!(matches!(handle_frontend_request(b"GET / HTTP/1.1\r\n\r\n"), RequestPlan::Index { head_only: false }));
    assert!(matches!(handle_frontend_request(&[0xff, 0x20, 0x2f]), RequestPlan::Reject { status: 405, .. }));
    let plan = handle_frontend_request(b"GET /caf\xc3\xa9/\xff HTTP/1.1");
    assert_eq!(static_file(&plan), Some(("caf\u{e9}\\\u{fffd}", false)));
}

#[test]
fn reason_phrases() {
    assert_eq!(status_text(200), "OK");
    assert_eq!(status_text(400), "Bad Request");
    assert_eq!(status_text(405), "Method Not Allowed");
    assert_eq!(status_text(500), "Internal Server Error");
    assert_eq!(status_text(404), "OK");
}

#[test]
fn response_bytes_are_exact() {
    let r = write_simple_response(200, "text/html; charset=utf-8", b"hi", false);
    assert_eq!(
        r,
        b"HTTP/1.1 200 OK\r\nContent-Type: text/html; charset=utf-8\r\nContent-Length: 2\r\nConnection: close\r\n\r\nhi".to_vec()
    );
    let r = write_simple_response(405, "text/plain; charset=utf-8", b"Method Not Allowed", true);
    assert_eq!(
        r,
        b"HTTP/1.1 405 Method Not Allowed\r\nContent-Type: text/plain; charset=utf-8\r\nContent-Length: 18\r\nConnection: close\r\n\r\n".to_vec()
    );
}

#[test]
fn content_types_follow_extensions() {
    assert_eq!(content_type_for("C:\\dist\\index.html"), "text/html; charset=utf-8");
    assert_eq!(content_type_for("C:\\dist\\assets\\app.JS"), "application/javascript; charset=utf-8");
    assert_eq!(content_type_for("dist/a.mjs"), "application/javascript; charset=utf-8");
    assert_eq!(content_type_for("dist/style.css"), "text/css; charset=utf-8");
    assert_eq!(content_type_for("dist/data.json"), "application/json; charset=utf-8");
    assert_eq!(content_type_for("dist/logo.svg"), "image/svg+xml");
    assert_eq!(content_type_for("dist/logo.PNG"), "image/png");
    assert_eq!(content_type_for("dist/a.jpg"), "image/jpeg");
    assert_eq!(content_type_for("dist/a.jpeg"), "image/jpeg");
    assert_eq!(content_type_for("dist/a.gif"), "image/gif");
    assert_eq!(content_type_for("dist/favicon.ico"), "image/x-icon");
    assert_eq!(content_type_for("dist/m.wasm"), "application/wasm");
    assert_eq!(content_type_for("dist/robots.txt"), "text/plain; charset=utf-8");
    assert_eq!(content_type_for("dist/a.tar.gz"), "application/octet-stream");
    assert_eq!(content_type_for("dist/.bashrc"), "application/octet-stream");
    assert_eq!(content_type_for("dist/noext"), "application/octet-stream");
    assert_eq!(content_type_for("dist/x.js/."), "application/javascript; charset=utf-8");
    assert_eq!(content_type_for("dist/x.js/"), "application/javascript; charset=utf-8");
    assert_eq!(content_type_for("dist/.."), "application/octet-stream");
    assert_eq!(content_type_for("."), "application/octet-stream");
    assert_eq!(content_type_for(""), "application/octet-stream");
    assert_eq!(content_type_for("a.html.x"), "application/octet-stream");
}

#[test]
fn content_types_agree_with_path_extension() {
    let samples = [
        "dist/index.html", "dist/app.JS", "a/b/c.css", "x/.hidden", "x/y.", "x/y.tar.gz", "x/..",
        "x/./y.png", "y.png/.", "/", "", "file.txt", "dir.v1/noext",
    ];
    for s in samples {
        let ext = std::path::Path::new(s)
            .extension()
            .and_then(|e| e.to_str())
            .map(|e| e.to_ascii_lowercase());
        let expected = match ext.as_deref() {
            Some("html") => "text/html; charset=utf-8",
            Some("js") | Some("mjs") => "application/javascript; charset=utf-8",
            Some("css") => "text/css; charset=utf-8",
            Some("json") => "application/json; charset=utf-8",
            Some("svg") => "image/svg+xml",
            Some("png") => "image/png",
            Some("jpg") | Some("jpeg") => "image/jpeg",
            Some("gif") => "image/gif",
            Some("ico") => "image/x-icon",
            Some("wasm") => "application/wasm",
            Some("txt") => "text/plain; charset=utf-8",
            _ => "application/octet-stream",
        };
        assert_eq!(content_type_for(s), expected, "{s:?}");
    }
}

#[test]
fn probe_request_text() {
    assert_eq!(
        http_get_request(5100, "/ping"),
        "GET /ping HTTP/1.1\r\nHost: 127.0.0.1:5100\r\nConnection: close\r\n\r\n"
    );
}

#[test]
fn the_launcher_probe_gets_the_index() {
    let req = http_get_request(8080, "/");
    assert!(matches!(route_request(&req), RequestPlan::Index { head_only: false }));
}

#[test]
fn readiness_from_answers() {
    assert!(is_api_ready(Some("HTTP/1.1 200 OK\r\n\r\n{\"msg\":\"PONG\"}")));
    assert!(!is_api_ready(Some("HTTP/1.1 500 Error\r\n\r\npong")));
    assert!(!is_api_ready(Some("HTTP/1.1 200 OK\r\n\r\nping")));
    assert!(!is_api_ready(None));
    assert!(is_localserver_ready(Some("HTTP/1.0 200 OK\r\n\r\nServer Running")));
    assert!(!is_localserver_ready(Some("HTTP/1.0 200 OK\r\n\r\nstopped")));
    assert!(is_frontend_ready(Some("HTTP/1.1 200 OK\r\n\r\n<title>Tapnow</title>")));
    assert!(!is_frontend_ready(Some("HTTP/1.1 200 OK\r\n\r\n<title>tapnow</title>")));
    assert!(!is_frontend_ready(None));
}

#[test]
fn answers_to_plans() {
    let index = b"<html>Tapnow</html>";
    assert_eq!(response_for(&RequestPlan::NoReply, index, None), None);
    assert_eq!(
        response_for(&RequestPlan::Reject { status: 405, head_only: false }, index, None).unwrap(),
        b"HTTP/1.1 405 Method Not Allowed\r\nContent-Type: text/plain; charset=utf-8\r\nContent-Length: 18\r\nConnection: close\r\n\r\nMethod Not Allowed".to_vec()
    );
    assert_eq!(
        response_for(&RequestPlan::Reject { status: 400, head_only: true }, index, None).unwrap(),
        b"HTTP/1.1 400 Bad Request\r\nContent-Type: text/plain; charset=utf-8\r\nContent-Length: 11\r\nConnection: close\r\n\r\n".to_vec()
    );
    assert_eq!(
        response_for(&RequestPlan::Index { head_only: false }, index, None).unwrap(),
        b"HTTP/1.1 200 OK\r\nContent-Type: text/html; charset=utf-8\r\nContent-Length: 19\r\nConnection: close\r\n\r\n<html>Tapnow</html>".to_vec()
    );
    let plan = RequestPlan::StaticFile { rel_path: "app.js".to_string(), head_only: false };
    assert_eq!(
        response_for(&plan, index, Some(("D:\\dist\\app.js", b"x=1"))).unwrap(),
        b"HTTP/1.1 200 OK\r\nContent-Type: application/javascript; charset=utf-8\r\nContent-Length: 3\r\nConnection: close\r\n\r\nx=1".to_vec()
    );
    assert_eq!(
        response_for(&plan, index, None).unwrap(),
        response_for(&RequestPlan::Index { head_only: false }, index, None).unwrap()
    );
}

#[test]
fn head_request_gets_get_answer_without_body() {
    let index = b"<html>Tapnow</html>";
    for rest in [" / HTTP/1.1\r\n", " /a/b.css HTTP/1.1", " /../x HTTP/1.1", ""] {
        let get = route_request(&format!("GeT{rest}"));
        let head = route_request(&format!("head{rest}"));
        let file = Some(("D:\\dist\\a\\b.css", &b"body{}"[..]));
        let g = response_for(&get, index, file).unwrap();
        let h = response_for(&head, index, file).unwrap();
        assert!(g.starts_with(&h));
        assert!(h.ends_with(b"\r\n\r\n"));
        assert!(g.len() > h.len() || rest.is_empty());
    }
}

#[test]
fn windows_prefixes_are_not_file_names() {
    assert_eq!(content_type_for("C:.js"), "application/octet-stream");
    assert_eq!(content_type_for("C:app.js"), "application/javascript; charset=utf-8");
    assert_eq!(content_type_for("C:\\dist\\app.css"), "text/css; charset=utf-8");
    assert_eq!(content_type_for("\\\\server\\sh.js"), "application/octet-stream");
    assert_eq!(content_type_for("//server/sh.js"), "application/octet-stream");
    assert_eq!(content_type_for("\\\\server\\share\\a.css"), "text/css; charset=utf-8");
    assert_eq!(content_type_for("\\\\.\\dev.js"), "application/octet-stream");
    assert_eq!(content_type_for("\\\\.\\dev\\x.png"), "image/png");
}

#[test]
fn head_after_leading_blanks_routes_like_get() {
    let index = b"<html>Tapnow</html>";
    for ws in ["", "  ", "\t ", "\r"] {
        let get = route_request(&format!("{ws}GET /a.css HTTP/1.1\r\n"));
        let head = route_request(&format!("{ws}head /a.css HTTP/1.1\r\n"));
        assert!(matches!(get, RequestPlan::StaticFile { head_only: false, .. }), "{ws:?}");
        assert!(matches!(head, RequestPlan::StaticFile { head_only: true, .. }), "{ws:?}");
        let file = Some(("D:\\dist\\a.css", &b"body{}"[..]));
        let g = response_for(&get, index, file).unwrap();
        let h = response_for(&head, index, file).unwrap();
        assert_eq!(g, [h.clone(), b"body{}".to_vec()].concat());
    }
}

#[test]
fn head_bytes_get_get_answer_without_body() {
    let index = b"<html>Tapnow</html>";
    let get = handle_frontend_request(b"  GET / HTTP/1.1\r\n\r\n");
    let head = handle_frontend_request(b"  HEAD / HTTP/1.1\r\n\r\n");
    let g = response_for(&get, index, None).unwrap();
    let h = response_for(&head, index, None).unwrap();
    assert_eq!(g, [h, index.to_vec()].concat());
}

#[test]
fn verbatim_paths_split_on_backslashes_only() {
    assert_eq!(content_type_for("\\\\?\\C:\\dist\\app.js"), "application/javascript; charset=utf-8");
    assert_eq!(content_type_for("\\\\?\\x.js"), "application/octet-stream");
    assert_eq!(content_type_for("\\\\?\\C:\\dist\\x.js\\."), "application/octet-stream");
    assert_eq!(content_type_for("C:\\dist\\x.js\\."), "application/javascript; charset=utf-8");
    assert_eq!(content_type_for("\\\\?\\C:\\dist\\a.js/"), "application/octet-stream");
    assert_eq!(content_type_for("\\\\?\\C:\\dist/a.png"), "image/png");
    assert_eq!(content_type_for("\\\\?\\UNC\\srv\\share\\a.css"), "text/css; charset=utf-8");
    assert_eq!(content_type_for("\\\\?\\UNC\\srv\\a.css"), "application/octet-stream");
}

use staticdir::render::render;
use staticdir::render::u64_to_dec;
use staticdir::render::HttpResponse;
use staticdir::render::ResponseBody;
use staticdir::respond::Decision;
use staticdir::respond::FileMetadata;
use staticdir::respond::Outcome;
use staticdir::respond::StatResult;
use staticdir::StaticDirServer;

fn server(root: &str) -> StaticDirServer {
    StaticDirServer::new(root.as_bytes().to_vec(), true).unwrap()
}

fn resolved(root: &str, path: &str) -> Vec<u8> {
    server(root).get_path(&path.as_bytes().to_vec())
}

#[test]
fn it_works() {
    assert_eq!(2 + 2, 4);
}

#[test]
fn new_accepts_existing_root() {
    let s = StaticDirServer::new(b"/srv/www".to_vec(), true);
    assert!(s.is_ok());
}

#[test]
fn new_rejects_missing_root_naming_it() {
    let s = StaticDirServer::new(b"/srv/www".to_vec(), false);
    assert_eq!(s.err().unwrap(), b"Could not locate root directory /srv/www".to_vec());
}

#[test]
fn get_path_empty_and_lone_slash_resolve_to_root() {
    assert_eq!(resolved("/srv/www", ""), b"/srv/www".to_vec());
    assert_eq!(resolved("/srv/www", "/"), b"/srv/www".to_vec());
}

#[test]
fn get_path_plain_segments() {
    assert_eq!(resolved("/srv/www", "/foo/bar.html"), b"/srv/www/foo/bar.html".to_vec());
}

#[test]
fn get_path_ignores_dot_and_empty_segments() {
    assert_eq!(resolved("/srv/www", "/a//./b/"), b"/srv/www/a/b".to_vec());
}

#[test]
fn get_path_parent_pops_one_segment() {
    assert_eq!(resolved("/srv/www", "/a/b/../c"), b"/srv/www/a/c".to_vec());
}

#[test]
fn get_path_parent_clamps_at_root() {
    assert_eq!(resolved("/srv/www", "/../../../etc/passwd"), b"/srv/www/etc/passwd".to_vec());
}

#[test]
fn get_path_percent_decodes_segments() {
    assert_eq!(resolved("/srv/www", "/%41%62%20c"), b"/srv/www/Ab c".to_vec());
}

#[test]
fn get_path_keeps_malformed_escape_literal() {
    assert_eq!(resolved("/srv/www", "/a%zz%4"), b"/srv/www/a%zz%4".to_vec());
}

#[test]
fn get_path_hex_case_insensitive() {
    let upper = resolved("/srv/www", "/%2E%2E/x");
    let lower = resolved("/srv/www", "/%2e%2e/x");
    assert_eq!(upper, lower);
}

#[test]
fn get_path_encoded_dots_stay_a_literal_segment() {
    // A `%2e%2e` segment is classified before decoding, so it is appended as
    // a literal `..` segment rather than popping the accumulator.
    assert_eq!(resolved("/srv/www", "/a/%2e%2e/b"), b"/srv/www/a/../b".to_vec());
}

#[test]
fn get_path_repairs_invalid_utf8() {
    let mut expected = b"/srv/www/".to_vec();
    expected.extend_from_slice(&[0xEF, 0xBF, 0xBD]);
    assert_eq!(resolved("/srv/www", "/%FF"), expected);
}

#[test]
fn get_path_same_request_resolves_identically() {
    let s = server("/srv/www");
    let p = b"/a/%2e%2e/b%41/".to_vec();
    assert_eq!(s.get_path(&p), s.get_path(&p));
}

fn expect_done(d: Decision) -> Outcome {
    match d {
        Decision::Done(o) => o,
        Decision::Recurse { .. } => panic!("expected a terminal decision"),
    }
}

#[test]
fn missing_entry_yields_404_with_fixed_body() {
    let s = server("/srv/www");
    let o = expect_done(s.decide(&b"/nope".to_vec(), &StatResult::Missing));
    let r: HttpResponse = render(o);
    assert_eq!(r.status, 404);
    assert_eq!(r.content_type.as_deref(), Some("text/html"));
    assert!(r.location.is_none());
    assert!(r.content_length.is_none());
    match r.body {
        ResponseBody::Text(b) => assert_eq!(b, "Oops! I can't find what you're looking for..."),
        ResponseBody::FileStream { .. } => panic!("expected a fixed body"),
    }
}

#[test]
fn failed_stat_yields_500_with_fixed_body() {
    let s = server("/srv/www");
    let o = expect_done(s.decide(&b"/locked".to_vec(), &StatResult::OtherError));
    let r = render(o);
    assert_eq!(r.status, 500);
    assert_eq!(r.content_type.as_deref(), Some("text/html"));
    match r.body {
        ResponseBody::Text(b) => assert_eq!(b, "I'm broken, apparently."),
        ResponseBody::FileStream { .. } => panic!("expected a fixed body"),
    }
}

#[test]
fn directory_without_slash_redirects() {
    let s = server("/srv/www");
    let meta = StatResult::Found(FileMetadata { is_file: false, len: 0 });
    let o = expect_done(s.decide(&b"/dir".to_vec(), &meta));
    let r = render(o);
    assert_eq!(r.status, 301);
    assert_eq!(r.location, Some(b"/dir/".to_vec()));
    assert!(r.content_type.is_none());
    assert!(r.content_length.is_none());
    match r.body {
        ResponseBody::Text(b) => assert_eq!(b, ""),
        ResponseBody::FileStream { .. } => panic!("expected a fixed body"),
    }
}

#[test]
fn directory_with_slash_looks_up_index_html() {
    let s = server("/srv/www");
    let meta = StatResult::Found(FileMetadata { is_file: false, len: 0 });
    match s.decide(&b"/dir/".to_vec(), &meta) {
        Decision::Recurse { next_path } => assert_eq!(next_path, b"/dir/index.html".to_vec()),
        Decision::Done(_) => panic!("expected an index-file recursion"),
    }
}

#[test]
fn index_html_inside_directory_streams_as_html() {
    let s = server("/srv/www");
    let dir = StatResult::Found(FileMetadata { is_file: false, len: 0 });
    let next = match s.decide(&b"/dir/".to_vec(), &dir) {
        Decision::Recurse { next_path } => next_path,
        Decision::Done(_) => panic!("expected an index-file recursion"),
    };
    let file = StatResult::Found(FileMetadata { is_file: true, len: 12 });
    let o = expect_done(s.decide(&next, &file));
    let r = render(o);
    assert_eq!(r.status, 200);
    assert_eq!(r.content_type.as_deref(), Some("text/html"));
    assert_eq!(r.content_length, Some(b"12".to_vec()));
    match r.body {
        ResponseBody::FileStream { path, len } => {
            assert_eq!(path, b"/srv/www/dir/index.html".to_vec());
            assert_eq!(len, 12);
        }
        ResponseBody::Text(_) => panic!("expected a file stream"),
    }
}

#[test]
fn regular_file_streams_with_exact_length() {
    let s = server("/srv/www");
    let meta = StatResult::Found(FileMetadata { is_file: true, len: 98765 });
    let o = expect_done(s.decide(&b"/data.bin".to_vec(), &meta));
    let r = render(o);
    assert_eq!(r.status, 200);
    assert_eq!(r.content_type.as_deref(), Some("application/octet-stream"));
    assert_eq!(r.content_length, Some(b"98765".to_vec()));
    match r.body {
        ResponseBody::FileStream { path, len } => {
            assert_eq!(path, b"/srv/www/data.bin".to_vec());
            assert_eq!(len, 98765);
        }
        ResponseBody::Text(_) => panic!("expected a file stream"),
    }
}

#[test]
fn same_request_decides_identically() {
    let s = server("/srv/www");
    let meta = StatResult::Found(FileMetadata { is_file: true, len: 3 });
    let p = b"/f.txt".to_vec();
    let r1 = render(expect_done(s.decide(&p, &meta)));
    let r2 = render(expect_done(s.decide(&p, &meta)));
    assert_eq!(r1.status, r2.status);
    assert_eq!(r1.content_type, r2.content_type);
    assert_eq!(r1.content_length, r2.content_length);
    match (r1.body, r2.body) {
        (
            ResponseBody::FileStream { path: p1, len: l1 },
            ResponseBody::FileStream { path: p2, len: l2 },
        ) => {
            assert_eq!(p1, p2);
            assert_eq!(l1, l2);
        }
        _ => panic!("expected two file streams"),
    }
}

#[test]
fn u64_to_dec_renders_decimal_digits() {
    assert_eq!(u64_to_dec(0), b"0".to_vec());
    assert_eq!(u64_to_dec(7), b"7".to_vec());
    assert_eq!(u64_to_dec(1234567890), b"1234567890".to_vec());
    assert_eq!(u64_to_dec(u64::MAX), b"18446744073709551615".to_vec());
}

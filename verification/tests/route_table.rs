use light_letter::route::{init_routes, split_path, RouteError, RouteTable};

fn table(routes: &[&str]) -> RouteTable {
    let routes: Vec<String> = routes.iter().map(|r| r.to_string()).collect();
    init_routes(&routes).expect("routes without conflict")
}

#[test]
fn capture_takes_one_piece() {
    let t = table(&["/posts/{id}"]);
    let m = t.route_path("/posts/42");
    assert_eq!(m.target(), "/posts/{id}");
    assert!(m.is_found());
    assert_eq!(m.get("id"), Some("42".to_string()));
    assert_eq!(m.get("other"), None);
    assert!(!m.args_is_empty());
}

#[test]
fn too_many_pieces_is_not_found() {
    let t = table(&["/posts/{id}"]);
    let m = t.route_path("/posts/42/extra");
    assert_eq!(m.target(), "");
    assert!(!m.is_found());
    assert!(m.args_is_empty());
    assert_eq!(m.get("id"), None);
}

#[test]
fn literal_shadows_capture() {
    let t = table(&["/posts/recent", "/posts/{id}"]);
    assert_eq!(t.route_path("/posts/recent").target(), "/posts/recent");
    assert!(t.route_path("/posts/recent").args_is_empty());
    assert_eq!(t.route_path("/posts/other").target(), "/posts/{id}");
    let t = table(&["/posts/{id}", "/posts/recent"]);
    assert_eq!(t.route_path("/posts/recent").target(), "/posts/recent");
    assert_eq!(t.route_path("/posts/7").get("id"), Some("7".to_string()));
}

#[test]
fn static_routes_resolve_to_themselves() {
    let routes = ["/", "/about", "/backstage", "/backstage/login", "/a/b/c"];
    let t = table(&routes);
    assert_eq!(t.len(), 5);
    for r in routes.iter() {
        let m = t.route_path(r);
        assert_eq!(m.target(), *r);
        assert!(m.args_is_empty());
    }
}

#[test]
fn slashes_at_the_ends_and_doubled_do_not_count() {
    let t = table(&["/a/b"]);
    assert_eq!(t.route_path("a/b").target(), "/a/b");
    assert_eq!(t.route_path("/a/b/").target(), "/a/b");
    assert_eq!(t.route_path("//a///b//").target(), "/a/b");
    assert_eq!(split_path("//a///b//"), vec!["a".to_string(), "b".to_string()]);
    assert_eq!(split_path(""), Vec::<String>::new());
    assert_eq!(split_path("///"), Vec::<String>::new());
    assert_eq!(split_path("x"), vec!["x".to_string()]);
}

#[test]
fn a_path_that_ends_inside_a_route_is_not_found() {
    let t = table(&["/a/b"]);
    assert_eq!(t.route_path("/a").target(), "");
    assert!(!t.route_path("/a").is_found());
    assert_eq!(t.route_path("/").target(), "");
    assert_eq!(t.route_path("/b").target(), "");
}

#[test]
fn a_path_that_ends_inside_a_route_captures_nothing() {
    let t = table(&["/a/{x}/b"]);
    let m = t.route_path("/a/1");
    assert_eq!(m.target(), "");
    assert!(!m.is_found());
    assert!(m.args_is_empty());
    assert_eq!(m.get("x"), None);
    let t = table(&["/u/{name}/posts"]);
    let m = t.route_path("/u/ann");
    assert!(!m.is_found());
    assert!(m.args_is_empty());
    assert_eq!(m.get("name"), None);
    let m = t.route_path("/u/ann/posts");
    assert_eq!(m.target(), "/u/{name}/posts");
    assert_eq!(m.get("name"), Some("ann".to_string()));
    let m = t.route_path("/u/ann/other");
    assert!(!m.is_found());
    assert!(m.args_is_empty());
}

#[test]
fn the_last_of_equal_routes_wins() {
    let t = table(&["/a", "/a/"]);
    assert_eq!(t.route_path("/a").target(), "/a/");
}

#[test]
fn captures_are_taken_raw() {
    let t = table(&["/files/{name}/{version}"]);
    let m = t.route_path("/files/a%20b/{version}");
    assert_eq!(m.get("name"), Some("a%20b".to_string()));
    assert_eq!(m.get("version"), Some("{version}".to_string()));
}

#[test]
fn a_capture_used_twice_keeps_the_later_piece() {
    let t = table(&["/{x}/{x}"]);
    let m = t.route_path("/1/2");
    assert_eq!(m.get("x"), Some("2".to_string()));
}

#[test]
fn braces_alone_and_empty_names() {
    let t = table(&["/{", "/b/{}"]);
    assert_eq!(t.route_path("/{").target(), "/{");
    assert_eq!(t.route_path("/x").target(), "");
    let m = t.route_path("/b/anything");
    assert_eq!(m.target(), "/b/{}");
    assert_eq!(m.get(""), Some("anything".to_string()));
}

#[test]
fn captures_of_two_names_at_one_place_are_refused() {
    let routes: Vec<String> =
        vec!["/a/{x}/b".to_string(), "/ok".to_string(), "/a/{y}/c".to_string()];
    match init_routes(&routes) {
        Err(RouteError::CaptureConflict(route)) => assert_eq!(route, "/a/{y}/c"),
        Ok(_) => panic!("a conflict was accepted"),
    }
    let routes: Vec<String> = vec!["/a/{x}/b".to_string(), "/a/{x}/c".to_string()];
    let t = init_routes(&routes).expect("the same name is no conflict");
    assert_eq!(t.route_path("/a/1/b").target(), "/a/{x}/b");
    assert_eq!(t.route_path("/a/1/c").target(), "/a/{x}/c");
}

#[test]
fn an_empty_table_finds_nothing() {
    let t = table(&[]);
    assert_eq!(t.len(), 0);
    assert!(!t.route_path("/").is_found());
    assert!(!t.route_path("/a").is_found());
}

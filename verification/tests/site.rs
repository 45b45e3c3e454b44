use light_letter::config::{DbConfig, NetConfig, ResourceConfig, SiteConfig, SitesConfig};
use light_letter::dispatch::{
    host_alias_redirect, serve, serve_blog, serve_static, BlogTarget, HostDispatch,
};
use light_letter::names::{account_id_is_legal, database_name_is_legal, site_name_is_legal};
use light_letter::site::{plan_database, site_state, ConfigError, SiteState, SiteType};

fn site(name: &str, site_type: &str, host: &str) -> SiteConfig {
    SiteConfig {
        name: name.to_string(),
        site_type: site_type.to_string(),
        database: None,
        host: host.to_string(),
        alias: None,
        theme: Some("ivy-leaf".to_string()),
    }
}

fn config(sites: Vec<SiteConfig>) -> SitesConfig {
    SitesConfig {
        resource: ResourceConfig {
            backstage: "/opt/backstage".to_string(),
            themes: vec![("ivy-leaf".to_string(), "/opt/ivy".to_string())],
            secure_random_string: Some("secret".to_string()),
        },
        net: NetConfig { ip: "0.0.0.0".to_string(), port: vec![0] },
        db: Some(DbConfig {
            host: None,
            port: None,
            username: "light_letter".to_string(),
            password: "light_letter".to_string(),
        }),
        site: sites,
    }
}

fn states() -> Vec<SiteState> {
    let mut a = site("one", "blog", "one.example");
    a.alias = Some(vec!["www.one.example".to_string(), "1.example".to_string()]);
    let mut b = site("two", "static", "two.example");
    b.alias = Some(vec!["www.two.example".to_string(), "1.example".to_string()]);
    SiteState::from_sites_config(&config(vec![a, b]), "/srv", 7).expect("a good configuration")
}

#[test]
fn names_have_their_shapes() {
    assert!(site_name_is_legal("local-1"));
    assert!(site_name_is_legal("A_b-9"));
    assert!(!site_name_is_legal(""));
    assert!(!site_name_is_legal("a b"));
    assert!(!site_name_is_legal("a/b"));
    assert!(!site_name_is_legal("name\n"));
    assert!(database_name_is_legal("light_letter_local_1"));
    assert!(database_name_is_legal("_x"));
    assert!(!database_name_is_legal("1abc"));
    assert!(!database_name_is_legal("local-1"));
    assert!(!database_name_is_legal(""));
    assert!(account_id_is_legal("abcd"));
    assert!(account_id_is_legal(&"a".repeat(32)));
    assert!(!account_id_is_legal("abc"));
    assert!(!account_id_is_legal(&"a".repeat(33)));
    assert!(!account_id_is_legal("ab cd"));
}

#[test]
fn site_types_are_blog_and_static() {
    assert_eq!(SiteType::parse("blog"), Some(SiteType::Blog));
    assert_eq!(SiteType::parse("static"), Some(SiteType::Static));
    assert_eq!(SiteType::parse("Blog"), None);
    assert_eq!(SiteType::parse(""), None);
    assert_eq!(SiteType::Blog.data_dir(), "files");
    assert_eq!(SiteType::Static.data_dir(), "static");
}

#[test]
fn a_good_configuration_gives_a_state_for_every_site() {
    let mut blog = site("local-1", "blog", "localhost:2180");
    blog.database = Some("light_letter_local_1".to_string());
    blog.alias = Some(vec!["alias.local".to_string()]);
    let mut fixed = site("local-2", "static", "127.0.0.1:2180");
    fixed.theme = None;
    let states = SiteState::from_sites_config(&config(vec![blog, fixed]), "/srv", 1234)
        .expect("a good configuration");
    assert_eq!(states.len(), 2);
    let s = &states[0];
    assert_eq!(s.initialization_time, 1234);
    assert_eq!(s.host, "localhost:2180");
    assert_eq!(s.host_aliases, vec!["alias.local".to_string()]);
    assert_eq!(s.dir, vec!["/srv".to_string(), "sites".to_string(), "local-1".to_string()]);
    assert_eq!(s.theme_mod_name, "ivy_leaf");
    assert_eq!(s.theme_dir, "/opt/ivy");
    assert_eq!(s.site_type, SiteType::Blog);
    assert_eq!(s.config.name, "local-1");
    let db = s.database.as_ref().expect("a blog has a database");
    assert_eq!(db.database, "light_letter_local_1");
    assert_eq!(db.host, "localhost");
    assert_eq!(db.port, None);
    assert_eq!(db.username, "light_letter");
    let s = &states[1];
    assert_eq!(s.host, "127.0.0.1:2180");
    assert!(s.host_aliases.is_empty());
    assert_eq!(s.theme_mod_name, "");
    assert_eq!(s.theme_dir, "");
    assert_eq!(s.site_type, SiteType::Static);
    assert!(s.database.is_none());
}

#[test]
fn the_database_is_called_after_the_site_where_none_is_named() {
    let c = config(vec![site("blog_one", "blog", "h")]);
    let plan = plan_database(&c, 0).expect("a legal name").expect("a blog");
    assert_eq!(plan.database, "blog_one");
    let mut c = config(vec![site("blog_one", "blog", "h")]);
    c.db = Some(DbConfig {
        host: Some("db.local".to_string()),
        port: Some(5433),
        username: "u".to_string(),
        password: "p".to_string(),
    });
    let plan = plan_database(&c, 0).unwrap().unwrap();
    assert_eq!(plan.host, "db.local");
    assert_eq!(plan.port, Some(5433));
}

fn refusal(c: &SitesConfig) -> ConfigError {
    match SiteState::from_sites_config(c, "/srv", 0) {
        Err(e) => e,
        Ok(_) => panic!("the configuration was accepted"),
    }
}

#[test]
fn every_refusal_has_its_reason() {
    let mut c = config(vec![site("one", "blog", "h")]);
    c.db = None;
    assert!(matches!(refusal(&c), ConfigError::BlogNeedsDatabase));
    assert_eq!(refusal(&c).message(), "Blog sites need database.");

    let c = config(vec![site("local-1", "blog", "h")]);
    match refusal(&c) {
        ConfigError::IllegalDatabaseName(n) => assert_eq!(n, "local-1"),
        e => panic!("{:?}", e),
    }
    assert_eq!(
        refusal(&c).message(),
        "Illegal database name \"local-1\" (database name should be ident-compatible)."
    );

    let c = config(vec![site("bad name", "static", "h")]);
    match refusal(&c) {
        ConfigError::IllegalSiteName(n) => assert_eq!(n, "bad name"),
        e => panic!("{:?}", e),
    }
    assert_eq!(
        refusal(&c).message(),
        "Illegal site name \"bad name\" (site name should only contains letters, numbers, dashes, and underlines)."
    );

    let c = config(vec![site("one", "wiki", "h")]);
    match refusal(&c) {
        ConfigError::UnrecognizedSiteType(t) => assert_eq!(t, "wiki"),
        e => panic!("{:?}", e),
    }
    assert_eq!(refusal(&c).message(), "Unrecognized site type \"wiki\".");

    let mut s = site("one", "blog", "h");
    s.theme = None;
    let c = config(vec![s]);
    match refusal(&c) {
        ConfigError::ThemeNotSpecified(n) => assert_eq!(n, "one"),
        e => panic!("{:?}", e),
    }
    assert_eq!(refusal(&c).message(), "Theme is not specified for site \"one\"");

    let mut s = site("one", "blog", "h");
    s.theme = Some("unknown".to_string());
    let c = config(vec![s]);
    match refusal(&c) {
        ConfigError::ThemeNotDefined(t, n) => {
            assert_eq!(t, "unknown");
            assert_eq!(n, "one");
        }
        e => panic!("{:?}", e),
    }
    assert_eq!(refusal(&c).message(), "Theme \"unknown\" is not defined for site \"one\"");
}

#[test]
fn sites_are_looked_at_in_their_order() {
    let c = config(vec![site("bad name", "static", "h"), site("local-1", "blog", "h")]);
    match refusal(&c) {
        ConfigError::IllegalSiteName(n) => assert_eq!(n, "bad name"),
        e => panic!("{:?}", e),
    }
    let c = config(vec![site("local-1", "blog", "h"), site("bad name", "static", "h")]);
    assert!(matches!(refusal(&c), ConfigError::IllegalDatabaseName(_)));
    let c = config(vec![site("bad name", "static", "h"), site("worse name", "static", "h")]);
    match refusal(&c) {
        ConfigError::IllegalSiteName(n) => assert_eq!(n, "bad name"),
        e => panic!("{:?}", e),
    }
}

#[test]
fn of_one_site_the_name_comes_first_and_the_theme_last() {
    let c = config(vec![site("bad name", "wiki", "h")]);
    assert!(matches!(refusal(&c), ConfigError::IllegalSiteName(_)));
    let mut c = config(vec![site("one", "wiki", "h")]);
    c.db = None;
    assert!(matches!(refusal(&c), ConfigError::UnrecognizedSiteType(_)));
    let mut s = site("one", "blog", "h");
    s.theme = None;
    let mut c = config(vec![s]);
    c.db = None;
    assert!(matches!(refusal(&c), ConfigError::BlogNeedsDatabase));
    let mut s = site("local-1", "blog", "h");
    s.theme = Some("unknown".to_string());
    let c = config(vec![s]);
    assert!(matches!(refusal(&c), ConfigError::IllegalDatabaseName(_)));
}

#[test]
fn a_static_site_needs_neither_database_nor_theme() {
    let mut s = site("local-2", "static", "h");
    s.theme = None;
    let mut c = config(vec![s]);
    c.db = None;
    let states = SiteState::from_sites_config(&c, "root", 0).expect("accepted");
    assert_eq!(states.len(), 1);
    assert!(states[0].database.is_none());
}

#[test]
fn one_site_has_its_state() {
    let c = config(vec![site("one", "static", "a"), site("bad name", "static", "b")]);
    let s = site_state(&c, "/srv", 3, 0).expect("a good site");
    assert_eq!(s.host, "a");
    assert_eq!(s.initialization_time, 3);
    assert!(matches!(site_state(&c, "/srv", 3, 1), Err(ConfigError::IllegalSiteName(_))));
}

#[test]
fn the_first_theme_of_a_name_is_taken() {
    let mut c = config(vec![]);
    c.resource.themes.push(("ivy-leaf".to_string(), "/second".to_string()));
    assert_eq!(c.theme_dir("ivy-leaf"), Some("/opt/ivy".to_string()));
    assert_eq!(c.theme_dir("none"), None);
    assert_eq!(c.secret(), "secret");
    c.resource.secure_random_string = None;
    assert_eq!(c.secret(), "");
}

#[test]
fn a_host_is_served_by_its_site() {
    let s = states();
    assert!(matches!(serve(&s, "one.example", "/", ""), HostDispatch::Site(0)));
    assert!(matches!(serve(&s, "two.example", "/x", "a=b"), HostDispatch::Site(1)));
    assert_eq!(serve(&s, "two.example", "/x", "a=b").status(), None);
}

#[test]
fn an_alias_is_redirected_to_the_canonical_host() {
    let s = states();
    match serve(&s, "www.two.example", "/a/b", "x=1&y=2") {
        HostDispatch::Redirect(location) => assert_eq!(location, "//two.example/a/b?x=1&y=2"),
        other => panic!("{:?}", other),
    }
    match serve(&s, "www.one.example", "/", "") {
        HostDispatch::Redirect(location) => assert_eq!(location, "//one.example/"),
        other => panic!("{:?}", other),
    }
    assert_eq!(serve(&s, "www.one.example", "/", "").status(), Some(302));
    match serve(&s, "1.example", "/p", "") {
        HostDispatch::Redirect(location) => assert_eq!(location, "//one.example/p"),
        other => panic!("{:?}", other),
    }
    assert_eq!(host_alias_redirect("h", "/p", "q"), "//h/p?q");
    assert_eq!(host_alias_redirect("h", "/p", ""), "//h/p");
}

#[test]
fn an_unknown_host_is_not_found() {
    let s = states();
    assert!(matches!(serve(&s, "three.example", "/", ""), HostDispatch::NotFound));
    assert!(matches!(serve(&s, "ONE.example", "/", ""), HostDispatch::NotFound));
    assert!(matches!(serve(&s, "sub.one.example", "/", ""), HostDispatch::NotFound));
    assert!(matches!(serve(&s, "", "/", ""), HostDispatch::NotFound));
    assert_eq!(serve(&s, "three.example", "/", "").status(), Some(404));
    assert!(matches!(serve(&Vec::new(), "one.example", "/", ""), HostDispatch::NotFound));
}

#[test]
fn a_host_wins_over_an_alias() {
    let mut a = site("one", "static", "one.example");
    a.alias = Some(vec!["two.example".to_string()]);
    let b = site("two", "static", "two.example");
    let s = SiteState::from_sites_config(&config(vec![a, b]), "/srv", 0).unwrap();
    assert!(matches!(serve(&s, "two.example", "/", ""), HostDispatch::Site(1)));
}

#[test]
fn the_parts_of_a_blog_are_told_by_the_path() {
    assert_eq!(serve_blog("/favicon.ico"), BlogTarget::Favicon);
    assert_eq!(serve_blog("/files/a/b.png"), BlogTarget::File("a/b.png".to_string()));
    assert_eq!(serve_blog("/files"), BlogTarget::File("".to_string()));
    assert_eq!(
        serve_blog("/static/light_letter_web.js"),
        BlogTarget::StaticResource("light_letter_web.js".to_string())
    );
    assert_eq!(serve_blog("/rpc/backstage/login"), BlogTarget::Rpc("/backstage/login".to_string()));
    assert_eq!(serve_blog("/rpc"), BlogTarget::Rpc("/".to_string()));
    assert_eq!(serve_blog("/backstage"), BlogTarget::BackstagePage);
    assert_eq!(serve_blog("/backstage/login"), BlogTarget::BackstagePage);
    assert_eq!(serve_blog("/"), BlogTarget::Page);
    assert_eq!(serve_blog("/about"), BlogTarget::Page);
    assert_eq!(serve_blog("/filesx/a"), BlogTarget::Page);
    assert_eq!(serve_blog(""), BlogTarget::Page);
    assert_eq!(serve_static("/a/b.html"), "a/b.html");
    assert_eq!(serve_static("/"), "");
    assert_eq!(serve_static(""), "");
}

use aether_dev::routes::{
    add_route, caddyfile, domains_in, listing, record_of, remove_route, routes_of, save_steps, Route,
    SaveStep,
};

fn route(host: &str, upstream: &str) -> Route {
    Route {
        host: host.to_string(),
        upstream: upstream.to_string(),
    }
}

fn pair(host: &str, upstream: &str) -> (String, String) {
    (host.to_string(), upstream.to_string())
}

#[test]
fn routes_come_from_the_file_and_from_the_services() {
    let routes = routes_of(
        &[route("db.test", "dbgate:3000")],
        &[pair("mail.test", "mailpit:8025")],
        "domains.toml",
    )
    .unwrap();
    assert_eq!(
        routes,
        vec![route("db.test", "dbgate:3000"), route("mail.test", "mailpit:8025")]
    );
}

#[test]
fn a_host_that_both_name_is_refused() {
    assert_eq!(
        routes_of(
            &[route("db.test", "dbgate:3000")],
            &[pair("db.test", "other:80")],
            "domains.toml",
        )
        .unwrap_err(),
        "db.test is already routed — db.test is named both by a service and in domains.toml"
    );
}

#[test]
fn removing_what_was_added_leaves_the_file_as_it_was() {
    let file = vec![route("db.test", "dbgate:3000")];
    let more = add_route(&file, "mail.test", "mailpit:8025").unwrap();
    assert_eq!(more.len(), 2);
    assert_eq!(remove_route(&more, "mail.test").unwrap(), file);
    assert_eq!(
        add_route(&file, "db.test", "x:1").unwrap_err(),
        "db.test is already routed"
    );
    assert_eq!(remove_route(&file, "gone.test").unwrap_err(), "gone.test is not routed");
}

#[test]
fn the_listing_says_which_of_the_two_named_a_host() {
    let file = vec![route("db.test", "dbgate:3000")];
    let routes = vec![route("db.test", "dbgate:3000"), route("mail.test", "mailpit:8025")];
    assert_eq!(
        listing(&file, &routes, "domains.toml"),
        vec![
            format!("{:<30} -> dbgate:3000", "db.test"),
            format!("{:<30} -> mailpit:8025  (from its service)", "mail.test"),
            String::new(),
            "2 routed, from domains.toml and the declared services".to_string(),
        ]
    );
}

#[test]
fn the_proxy_gets_a_block_for_every_host() {
    assert_eq!(
        caddyfile(&[route("db.test", "dbgate:3000"), route("m.test", "mail:80")]),
        "db.test {\n\treverse_proxy dbgate:3000\n}\nm.test {\n\treverse_proxy mail:80\n}\n"
    );
    assert_eq!(caddyfile(&[]), "");
}

#[test]
fn the_domains_file_names_hosts_and_what_they_point_at() {
    let text = "\"mail.test\" = \"mailpit:8025\"\n\"db.test\" = \"dbgate:3000\"\n";
    assert_eq!(
        domains_in(text).unwrap(),
        vec![route("db.test", "dbgate:3000"), route("mail.test", "mailpit:8025")]
    );
    assert_eq!(domains_in("").unwrap(), vec![]);
    assert_eq!(
        domains_in("\"db.test\" = 3000\n").unwrap_err(),
        "`db.test` in [domains] must be a text"
    );
    assert!(domains_in("a = \"x\"\na = \"y\"\n").is_err());
    assert!(domains_in("db.test").is_err());
}

#[test]
fn what_is_recorded_is_read_back() {
    let routes = vec![
        route("mail.test", "mailpit:8025"),
        route("*.shop.test", "shop-web:80"),
        route("db", "dbgate:3000"),
    ];
    let mut back = domains_in(&record_of(&routes).unwrap()).unwrap();
    assert_eq!(back.len(), routes.len());
    back.retain(|found| !routes.contains(found));
    assert_eq!(back, vec![]);
    assert_eq!(record_of(&[]).unwrap(), "");
    let odd = vec![route("od\"d.test", "x\ny'")];
    assert_eq!(domains_in(&record_of(&odd).unwrap()).unwrap(), odd);
}

#[test]
fn a_record_goes_where_the_domains_are_kept() {
    let steps = save_steps(&[], &[], "domains.toml", "# none", "Caddyfile", "caddy", true).unwrap();
    assert_eq!(
        steps[0],
        SaveStep::Write {
            path: "domains.toml".to_string(),
            text: "# none".to_string()
        }
    );
}

use aether_dev::environment::ToolChoice;
use aether_dev::overlay::{
    domain_detail, domain_failure, dotenv_detail, guidance, toolchain_detail, Detail, DetailLine,
};
use aether_dev::routes::Route;
use aether_dev::toolchain::{Installed, Reason, Resolution, Version};

fn line(label: &str, text: &str) -> DetailLine {
    DetailLine {
        label: label.to_string(),
        text: text.to_string(),
    }
}

#[test]
fn the_variant_in_use_is_the_one_marked() {
    let names = [".env.local".to_string(), ".env.staging".to_string()];
    let detail = dotenv_detail("shop", &names, &Some(".env.staging".to_string()));
    assert_eq!(detail.title, "shop · .env");
    assert_eq!(
        detail.lines,
        vec![line(".env.local", ""), line(".env.staging", "* in use")]
    );
    assert_eq!(
        dotenv_detail("shop", &[], &None).lines,
        vec![line("none", "no .env variants to switch between")]
    );
}

#[test]
fn each_tool_says_its_version_why_and_where() {
    let chosen = ToolChoice {
        tool: "php".to_string(),
        resolution: Resolution {
            chosen: Some(Installed {
                label: "php-8.3.6".to_string(),
                version: Version {
                    major: 8,
                    minor: 3,
                    patch: 6,
                },
                path: "/php/8.3.6".to_string(),
            }),
            constraint: None,
            reason: Reason::Newest,
        },
    };
    let missing = ToolChoice {
        tool: "node".to_string(),
        resolution: Resolution {
            chosen: None,
            constraint: Some(">=18".to_string()),
            reason: Reason::NothingSatisfies,
        },
    };
    assert_eq!(
        toolchain_detail("shop", &[chosen, missing]).lines,
        vec![
            line("php", "8.3.6  newest installed; the project asks for nothing"),
            line("", "/php/8.3.6"),
            line("node", "-  NOTHING INSTALLED SATISFIES THIS (>=18)"),
        ]
    );
    assert_eq!(
        toolchain_detail("shop", &[]).lines,
        vec![line("none", "nothing under [toolchain] applies to this project")]
    );
}

#[test]
fn the_routes_say_which_of_the_two_named_them() {
    let route = |host: &str| Route {
        host: host.to_string(),
        upstream: "web:80".to_string(),
    };
    let detail = domain_detail(&[route("a.test")], &[route("a.test"), route("b.test")], "d.toml");
    assert_eq!(
        detail,
        Detail {
            title: "Domains".to_string(),
            lines: vec![line("a.test", "web:80"), line("b.test", "web:80  (from its service)")],
            hint: "adev domains add to change · esc to close",
        }
    );
    assert_eq!(
        domain_detail(&[], &[], "d.toml").lines,
        vec![line("none", "nothing in d.toml")]
    );
    assert_eq!(domain_failure("no such file").lines, vec![line("error", "no such file")]);
}

#[test]
fn guidance_is_for_somebody_without_a_configuration() {
    let roots = [".".to_string(), "/srv".to_string()];
    assert_eq!(guidance(&roots, &Some("aether.toml".to_string())), None);
    assert!(guidance(&roots, &None)
        .unwrap()
        .starts_with("Nothing to show yet. This looked in ., /srv because no configuration"));
}

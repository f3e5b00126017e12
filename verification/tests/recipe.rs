use aether_dev::recipe::{detect, plan_for, split, Recipe, RunOverride};

fn found(files: &[&str]) -> Option<Recipe> {
    detect(files)
}

#[test]
fn laravel_is_recognised_by_its_own_entry_point() {
    let recipe = found(&["artisan", "composer.json", "package.json"]).expect("laravel");
    assert_eq!(recipe.name, "laravel");
    assert_eq!(recipe.command, "php artisan serve");
    assert_eq!(recipe.port, Some(8000));
}

#[test]
fn a_laravel_project_is_not_mistaken_for_a_node_one() {
    // Nearly every Laravel project carries package.json for its assets, and
    // running npm there starts a bundler rather than the application.
    let recipe = found(&["package.json", "composer.json", "artisan"]).expect("laravel");
    assert_eq!(recipe.name, "laravel");
}

#[test]
fn the_php_frameworks_are_told_apart_from_each_other() {
    assert_eq!(
        found(&["spark", "composer.json"]).unwrap().name,
        "codeigniter4"
    );
    assert_eq!(
        found(&["index.php", "system"]).unwrap().command,
        "php -S localhost:8000",
        "a codeigniter 3 project predates composer and has no runner of its own"
    );
}

#[test]
fn the_javascript_frameworks_are_told_apart_by_their_config() {
    assert_eq!(
        found(&["next.config.js", "package.json"]).unwrap().name,
        "next"
    );
    assert_eq!(
        found(&["next.config.ts", "package.json"]).unwrap().port,
        Some(3000)
    );
    assert_eq!(
        found(&["vite.config.ts", "package.json"]).unwrap().port,
        Some(5173)
    );
    assert_eq!(
        found(&["package.json"]).unwrap().command,
        "npm start",
        "a plain node project has no dev script to assume"
    );
}

#[test]
fn the_compiled_languages_run_themselves() {
    assert_eq!(found(&["go.mod"]).unwrap().command, "go run .");
    assert_eq!(found(&["Cargo.toml"]).unwrap().command, "cargo run");
}

#[test]
fn python_projects_are_told_apart_by_what_they_are_built_with() {
    assert_eq!(
        found(&["manage.py"]).unwrap().command,
        "python manage.py runserver"
    );
    assert_eq!(
        found(&["main.py", "requirements.txt"]).unwrap().command,
        "uvicorn main:app --reload"
    );
    assert_eq!(
        found(&["requirements.txt"]).unwrap().command,
        "python app.py"
    );
}

#[test]
fn a_directory_that_says_nothing_gets_no_command_rather_than_a_guess() {
    assert!(found(&["README.md", "notes.txt"]).is_none());
    assert!(found(&[]).is_none());
}

#[test]
fn a_recipe_can_be_replaced_for_every_project_that_uses_it() {
    let mut recipes = Vec::new();
    recipes.push((
        "laravel".to_string(),
        RunOverride {
            command: Some("php artisan serve --host=0.0.0.0".to_string()),
            port: Some(8001),
        },
    ));
    let plan = plan_for(
        "anything",
        &["artisan", "composer.json"],
        &recipes,
        &Vec::new(),
    )
    .expect("a plan");
    assert_eq!(plan.command, "php artisan serve --host=0.0.0.0");
    assert_eq!(plan.port, Some(8001));
}

#[test]
fn one_project_can_be_given_its_own_command_without_touching_the_others() {
    let mut projects = Vec::new();
    projects.push((
        "old-billing".to_string(),
        RunOverride {
            command: Some("php -S localhost:9000 -t public".to_string()),
            port: Some(9000),
        },
    ));
    let mine = plan_for("old-billing", &["artisan"], &Vec::new(), &projects).unwrap();
    assert_eq!(mine.command, "php -S localhost:9000 -t public");

    let other = plan_for("new-api", &["artisan"], &Vec::new(), &projects).unwrap();
    assert_eq!(
        other.command, "php artisan serve",
        "the others are untouched"
    );
}

#[test]
fn a_project_named_after_a_recipe_takes_its_own_entry_not_the_recipes() {
    // There are projects literally called "laravel", so
    // this collision is not hypothetical.
    let mut recipes = Vec::new();
    recipes.push((
        "laravel".to_string(),
        RunOverride {
            command: Some("recipe wins".to_string()),
            port: None,
        },
    ));
    let mut projects = Vec::new();
    projects.push((
        "laravel".to_string(),
        RunOverride {
            command: Some("project wins".to_string()),
            port: None,
        },
    ));
    let plan = plan_for("laravel", &["artisan"], &recipes, &projects).unwrap();
    assert_eq!(plan.command, "project wins");
}

#[test]
fn an_override_that_only_changes_the_port_keeps_the_command() {
    let mut projects = Vec::new();
    projects.push((
        "shop".to_string(),
        RunOverride {
            command: None,
            port: Some(8123),
        },
    ));
    let plan = plan_for("shop", &["artisan"], &Vec::new(), &projects).unwrap();
    assert_eq!(plan.command, "php artisan serve");
    assert_eq!(plan.port, Some(8123));
}

#[test]
fn a_project_with_no_recipe_can_still_be_given_a_command_by_hand() {
    let mut projects = Vec::new();
    projects.push((
        "odd-one".to_string(),
        RunOverride {
            command: Some("make serve".to_string()),
            port: Some(4000),
        },
    ));
    let plan = plan_for("odd-one", &["README.md"], &Vec::new(), &projects)
        .expect("an override alone is enough");
    assert_eq!(plan.command, "make serve");
    assert_eq!(plan.recipe, None, "there was no recipe to name");
}

#[test]
fn a_command_is_split_the_way_a_shell_would_split_it() {
    assert_eq!(split("php artisan serve"), vec!["php", "artisan", "serve"]);
    assert_eq!(
        split("php -S localhost:8000 -t public"),
        vec!["php", "-S", "localhost:8000", "-t", "public"]
    );
    assert_eq!(
        split("npm run dev -- --host \"0.0.0.0\""),
        vec!["npm", "run", "dev", "--", "--host", "0.0.0.0"],
        "a quoted argument stays one argument"
    );
    assert!(split("   ").is_empty());
}

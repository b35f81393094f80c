use materia_forge::gamelib_helper::gog_game::{
    game_from_document, get_game, get_heroic_config_path, heroic_primary_path, program_for,
    run_in_prefix, sidecar_path, GogGame,
};
use materia_forge::gamelib_helper::{
    Completion, ConfigError, ConfigField, Game, LaunchError, LaunchPlan, Output, PrefixLauncher,
    Runner,
};
use materia_forge::json::Json;

const APP: u32 = 1698970154;

fn sidecar(kind: &str) -> String {
    format!(
        "{{\"{APP}\": {{\"winePrefix\": \"/home/u/Games/Heroic/Prefixes/ff7\", \"wineVersion\": {{\"bin\": \"/opt/wine-ge/bin/wine\", \"name\": \"Wine-GE 8\", \"type\": \"{kind}\"}}, \"autoInstallDxvk\": true, \"n\": 1.5}}, \"version\": \"v0\", \"explicit\": true}}"
    )
}

fn wine_game() -> GogGame {
    get_game(APP, "Final Fantasy VII", Some("/games/ff7"), &sidecar("wine")).unwrap()
}

#[test]
fn sidecar_gives_prefix_and_runner() {
    assert_eq!(
        wine_game(),
        GogGame {
            app_id: APP,
            name: "Final Fantasy VII".to_string(),
            path: "/games/ff7".to_string(),
            prefix: "/home/u/Games/Heroic/Prefixes/ff7".to_string(),
            runner: Some(Runner {
                name: "wine".to_string(),
                pretty_name: "Wine-GE 8".to_string(),
                path: "/opt/wine-ge/bin/wine".to_string(),
                runtime: None,
            }),
        }
    );
}

#[test]
fn proton_runner_is_redirected_to_its_wine() {
    let text = sidecar("proton").replace("/opt/wine-ge/bin/wine", "/tools/GE-Proton8/proton");
    let game = get_game(APP, "t", Some("/g"), &text).unwrap();
    let runner = game.runner.unwrap();
    assert_eq!(runner.name, "proton");
    assert_eq!(runner.path, "/tools/GE-Proton8/files/bin/wine");
}

#[test]
fn program_for_redirects_only_proton() {
    assert_eq!(program_for("proton", "/a/b/proton"), Some("/a/b/files/bin/wine".to_string()));
    assert_eq!(program_for("wine", "/a/b/wine"), Some("/a/b/wine".to_string()));
    assert_eq!(program_for("Proton", "/a/b/proton"), Some("/a/b/proton".to_string()));
    assert_eq!(program_for("proton", "/"), None);
    assert_eq!(program_for("proton", ""), None);
    assert_eq!(program_for("wine", ""), Some("".to_string()));
}

#[test]
fn sidecar_missing_wine_prefix_names_the_field() {
    let text = format!("{{\"{APP}\": {{\"wineVersion\": {{\"bin\": \"b\", \"name\": \"n\", \"type\": \"t\"}}}}}}");
    assert_eq!(
        get_game(APP, "t", Some("/g"), &text),
        Err(ConfigError::MalformedStructure(ConfigField::WinePrefix))
    );
    let mistyped = format!("{{\"{APP}\": {{\"winePrefix\": 5, \"wineVersion\": {{\"bin\": \"b\", \"name\": \"n\", \"type\": \"t\"}}}}}}");
    assert_eq!(
        get_game(APP, "t", Some("/g"), &mistyped),
        Err(ConfigError::MalformedStructure(ConfigField::WinePrefix))
    );
}

#[test]
fn sidecar_missing_wine_version_names_the_field() {
    let text = format!("{{\"{APP}\": {{\"winePrefix\": \"/p\"}}}}");
    assert_eq!(
        get_game(APP, "t", Some("/g"), &text),
        Err(ConfigError::MalformedStructure(ConfigField::WineVersion))
    );
    let mistyped = format!("{{\"{APP}\": {{\"winePrefix\": \"/p\", \"wineVersion\": \"wine\"}}}}");
    assert_eq!(
        get_game(APP, "t", Some("/g"), &mistyped),
        Err(ConfigError::MalformedStructure(ConfigField::WineVersion))
    );
}

#[test]
fn sidecar_missing_version_fields_are_told_apart() {
    let with = |fields: &str| {
        format!("{{\"{APP}\": {{\"winePrefix\": \"/p\", \"wineVersion\": {{{fields}}}}}}}")
    };
    assert_eq!(
        get_game(APP, "t", Some("/g"), &with("\"name\": \"n\", \"bin\": \"b\"")),
        Err(ConfigError::MalformedStructure(ConfigField::Type))
    );
    assert_eq!(
        get_game(APP, "t", Some("/g"), &with("\"type\": \"t\", \"bin\": \"b\"")),
        Err(ConfigError::MalformedStructure(ConfigField::Name))
    );
    assert_eq!(
        get_game(APP, "t", Some("/g"), &with("\"type\": \"t\", \"name\": \"n\"")),
        Err(ConfigError::MalformedStructure(ConfigField::Bin))
    );
    assert_eq!(
        get_game(APP, "t", Some("/g"), &with("\"type\": \"t\", \"name\": null, \"bin\": \"b\"")),
        Err(ConfigError::MalformedStructure(ConfigField::Name))
    );
    assert_eq!(
        get_game(APP, "t", Some("/g"), &with("")),
        Err(ConfigError::MalformedStructure(ConfigField::Type))
    );
}

#[test]
fn sidecar_without_the_application_is_not_found() {
    assert_eq!(get_game(APP, "t", Some("/g"), "{}"), Err(ConfigError::NotFound));
    assert_eq!(get_game(APP, "t", Some("/g"), "[1, 2]"), Err(ConfigError::NotFound));
    assert_eq!(get_game(APP, "t", Some("/g"), "\"text\""), Err(ConfigError::NotFound));
    assert_eq!(get_game(7, "t", Some("/g"), &sidecar("wine")), Err(ConfigError::NotFound));
}

#[test]
fn sidecar_that_is_no_json_is_malformed() {
    for text in ["", "{", "{\"a\": }", "not json", "{\"a\": 1} trailing"] {
        assert_eq!(
            get_game(APP, "t", Some("/g"), text),
            Err(ConfigError::MalformedStructure(ConfigField::Document))
        );
    }
}

#[test]
fn proton_without_parent_names_bin() {
    let text = sidecar("proton").replace("/opt/wine-ge/bin/wine", "/");
    assert_eq!(
        get_game(APP, "t", Some("/g"), &text),
        Err(ConfigError::MalformedStructure(ConfigField::Bin))
    );
}

#[test]
fn missing_game_directory_is_reported_last() {
    assert_eq!(
        get_game(APP, "t", None, &sidecar("wine")),
        Err(ConfigError::MalformedStructure(ConfigField::GamePath))
    );
    assert_eq!(get_game(APP, "t", None, "{}"), Err(ConfigError::NotFound));
}

#[test]
fn document_can_be_built_by_hand() {
    let doc = Json::Object(vec![(
        "12".to_string(),
        Json::Object(vec![
            ("winePrefix".to_string(), Json::Text("/p".to_string())),
            (
                "wineVersion".to_string(),
                Json::Object(vec![
                    ("type".to_string(), Json::Text("wine".to_string())),
                    ("name".to_string(), Json::Text("Wine".to_string())),
                    ("bin".to_string(), Json::Text("/w".to_string())),
                    ("extra".to_string(), Json::Array(vec![Json::Null, Json::Bool(true)])),
                ]),
            ),
        ]),
    )]);
    let game = game_from_document(&doc, 12, "T", Some("/g")).unwrap();
    assert_eq!(game.prefix, "/p");
    assert_eq!(game.runner.unwrap().path, "/w");
    assert_eq!(game_from_document(&doc, 13, "T", Some("/g")), Err(ConfigError::NotFound));
    assert_eq!(doc.get("12").unwrap().get_text("winePrefix"), Some("/p"));
    assert_eq!(doc.get("12").unwrap().get_text("wineVersion"), None);
    assert!(doc.get("12").unwrap().get_object("wineVersion").is_some());
    assert!(doc.get("12").unwrap().get_object("winePrefix").is_none());
    assert!(Json::Null.get("12").is_none());
}

#[test]
fn game_getters_give_the_fields() {
    let game = wine_game();
    assert_eq!(game.app_id(), APP);
    assert_eq!(game.name(), "Final Fantasy VII");
    assert_eq!(game.path(), "/games/ff7");
    assert_eq!(game.prefix(), "/home/u/Games/Heroic/Prefixes/ff7");
    assert_eq!(game.runner().map(|r| r.name.as_str()), Some("wine"));
    assert_eq!(game.clone(), game);
}

#[test]
fn wine_plan_runs_the_runner_itself() {
    let game = wine_game();
    let plan = run_in_prefix("/tmp/7th Heaven.exe", &game, Some(vec!["/VERYSILENT".to_string(), "/LOG=x".to_string()]));
    assert_eq!(
        plan,
        Ok(LaunchPlan {
            program: "/opt/wine-ge/bin/wine".to_string(),
            env: vec![
                ("WINEPREFIX".to_string(), "/home/u/Games/Heroic/Prefixes/ff7".to_string()),
                ("WINEDLLOVERRIDES".to_string(), "dinput.dll=n,b".to_string()),
            ],
            args: vec!["/tmp/7th Heaven.exe".to_string(), "/VERYSILENT".to_string(), "/LOG=x".to_string()],
            output: Output::Discarded,
            completion: Completion::Awaited,
        })
    );
    assert_eq!(game.run_in_prefix("/tmp/7th Heaven.exe", None).unwrap().args, vec!["/tmp/7th Heaven.exe"]);
}

#[test]
fn wine_plan_needs_a_runner() {
    let mut game = wine_game();
    game.runner = None;
    assert_eq!(run_in_prefix("x.exe", &game, None), Err(LaunchError::MissingRunner));
}

#[test]
fn heroic_config_is_under_the_configuration_home() {
    assert_eq!(heroic_primary_path("/home/u", None), "/home/u/.config/heroic");
    assert_eq!(heroic_primary_path("/home/u", Some("/cfg")), "/cfg/heroic");
    assert_eq!(get_heroic_config_path("/home/u", None, true), "/home/u/.config/heroic");
    assert_eq!(get_heroic_config_path("/home/u", Some("/cfg"), true), "/cfg/heroic");
}

#[test]
fn heroic_config_falls_back_to_the_flatpak() {
    assert_eq!(
        get_heroic_config_path("/home/u", Some("/cfg"), false),
        "/home/u/.var/app/com.heroicgameslauncher.hgl/config/heroic"
    );
    assert_eq!(
        get_heroic_config_path("/home/u", None, false),
        "/home/u/.var/app/com.heroicgameslauncher.hgl/config/heroic"
    );
}

#[test]
fn sidecar_is_named_by_the_identifier() {
    assert_eq!(
        sidecar_path("/home/u/.config/heroic", APP),
        "/home/u/.config/heroic/GamesConfig/1698970154.json"
    );
}

use materia_forge::gamelib_helper::steam_config::{
    block_text, key_text, name_value, read_binding, rebind, remove_block, replace_opening,
};
use materia_forge::gamelib_helper::steam_game::{config_path, set_runner, SteamGame};
use materia_forge::gamelib_helper::{ConfigError, ConfigField};

const CONFIG: &str = "\"InstallConfigStore\"\n{\n\t\"Software\"\n\t{\n\t\t\"Valve\"\n\t\t{\n\t\t\t\"Steam\"\n\t\t\t{\n\t\t\t\t\"CompatToolMapping\"\n\t\t\t\t{\n\t\t\t\t\t\"1234\"\n\t\t\t\t\t{\n\t\t\t\t\t\t\"name\"\t\t\"foo\"\n\t\t\t\t\t\t\"config\"\t\t\"\"\n\t\t\t\t\t\t\"priority\"\t\t\"250\"\n\t\t\t\t\t}\n\t\t\t\t\t\"620\"\n\t\t\t\t\t{\n\t\t\t\t\t\t\"name\"\t\t\"proton_7\"\n\t\t\t\t\t\t\"config\"\t\t\"\"\n\t\t\t\t\t\t\"priority\"\t\t\"250\"\n\t\t\t\t\t}\n\t\t\t\t}\n\t\t\t\t\"AutoUpdateWindowEnabled\"\t\t\"0\"\n\t\t\t}\n\t\t}\n\t}\n}\n";

const EMPTY_SECTION: &str =
    "\"Steam\"\n{\n\t\"CompatToolMapping\"\n\t{\n\t}\n\t\"Other\"\t\t\"1\"\n}\n";

fn game(app_id: u32) -> SteamGame {
    SteamGame {
        app_id,
        name: "FINAL FANTASY VII".to_string(),
        path: "/lib/steamapps/common/FINAL FANTASY VII".to_string(),
        prefix: format!("/lib/steamapps/compatdata/{app_id}/pfx"),
        client_path: "/home/u/.steam/steam".to_string(),
        runner: None,
    }
}

fn by_expressions(content: &str, app_id: u32, runner: &str) -> String {
    let section = regex::Regex::new(r#""CompatToolMapping"\s*\{"#).unwrap();
    let replacement = format!(
        "\"CompatToolMapping\"\n                {{\n                    \"{}\"\n                    {{\n                        \"name\"\t\t\"{}\"\n                        \"config\"\t\t\"\"\n                        \"priority\"\t\t\"250\"\n                    }}\n",
        app_id, runner
    );
    let removal =
        regex::Regex::new(&format!(r#""{}"[^{{]*\{{[^}}]*"name"[^}}]*\}}"#, app_id)).unwrap();
    let without = removal.replace(content, "").to_string();
    section.replace(&without, regex::NoExpand(&replacement)).to_string()
}

fn occurrences(hay: &str, needle: &str) -> usize {
    hay.matches(needle).count()
}

#[test]
fn block_text_is_written_byte_for_byte() {
    assert_eq!(
        block_text(39140, "proton_8"),
        "\"CompatToolMapping\"\n                {\n                    \"39140\"\n                    {\n                        \"name\"\t\t\"proton_8\"\n                        \"config\"\t\t\"\"\n                        \"priority\"\t\t\"250\"\n                    }\n"
    );
}

#[test]
fn key_text_quotes_the_identifier() {
    assert_eq!(key_text(39140), "\"39140\"");
    assert_eq!(key_text(0), "\"0\"");
}

#[test]
fn config_path_is_under_the_client() {
    assert_eq!(config_path(&game(1)), "/home/u/.steam/steam/config/config.vdf");
}

#[test]
fn read_binding_gives_the_bound_runner() {
    assert_eq!(read_binding(CONFIG, 1234), Ok("foo".to_string()));
    assert_eq!(read_binding(CONFIG, 620), Ok("proton_7".to_string()));
}

#[test]
fn read_binding_without_block_is_not_found() {
    assert_eq!(read_binding(CONFIG, 39140), Err(ConfigError::NotFound));
    assert_eq!(read_binding(CONFIG, 123), Err(ConfigError::NotFound));
    assert_eq!(read_binding(EMPTY_SECTION, 1234), Err(ConfigError::NotFound));
}

#[test]
fn read_binding_without_section_is_not_found() {
    assert_eq!(read_binding("", 1234), Err(ConfigError::NotFound));
    assert_eq!(
        read_binding("\"1234\"\n{\n\"name\"\t\t\"foo\"\n}\n", 1234),
        Err(ConfigError::NotFound)
    );
    assert_eq!(
        read_binding("\"CompatToolMapping\" \"1234\" { \"name\" \"foo\" }", 1234),
        Err(ConfigError::NotFound)
    );
}

#[test]
fn read_binding_ignores_blocks_before_the_section() {
    let content = "\"1234\" { \"name\" \"early\" } \"CompatToolMapping\" { \"1234\" { \"name\" \"late\" } }";
    assert_eq!(read_binding(content, 1234), Ok("late".to_string()));
}

#[test]
fn read_binding_needs_a_quoted_name() {
    let unquoted = "\"CompatToolMapping\"{\"7\"{\"name\" foo}}";
    assert_eq!(
        read_binding(unquoted, 7),
        Err(ConfigError::MalformedStructure(ConfigField::Name))
    );
    let open = "\"CompatToolMapping\"{\"7\"{\"name\" \"foo}}";
    assert_eq!(
        read_binding(open, 7),
        Err(ConfigError::MalformedStructure(ConfigField::Name))
    );
}

#[test]
fn name_value_reads_the_first_name() {
    assert_eq!(name_value(" \"name\"\t\t\"a b\" \"name\" \"c\""), Ok("a b".to_string()));
    assert_eq!(name_value("\"name\"\"\""), Ok("".to_string()));
    assert_eq!(name_value("\"config\" \"x\""), Err(ConfigError::NotFound));
    assert_eq!(
        name_value("\"name\""),
        Err(ConfigError::MalformedStructure(ConfigField::Name))
    );
}

#[test]
fn remove_block_takes_the_first_block_out() {
    assert_eq!(
        remove_block("a \"5\" x { \"name\" \"r\" } b \"5\" { \"name\" } c", "\"5\""),
        "a  b \"5\" { \"name\" } c"
    );
    assert_eq!(remove_block("a \"5\" { } b", "\"5\""), "a \"5\" { } b");
    assert_eq!(remove_block("a \"5\" { \"name\" b", "\"5\""), "a \"5\" { \"name\" b");
    assert_eq!(remove_block("", "\"5\""), "");
}

#[test]
fn remove_block_skips_a_key_without_name() {
    assert_eq!(
        remove_block("\"5\" { \"x\" } \"5\" { \"name\" \"r\" } z", "\"5\""),
        "\"5\" { \"x\" }  z"
    );
}

#[test]
fn replace_opening_puts_text_at_the_first_section() {
    assert_eq!(
        replace_opening("a \"CompatToolMapping\" \n\t { b \"CompatToolMapping\"{", "<>"),
        "a <> b \"CompatToolMapping\"{"
    );
    assert_eq!(replace_opening("a \"CompatToolMapping\" b {", "<>"), "a \"CompatToolMapping\" b {");
    assert_eq!(replace_opening("nothing", "<>"), "nothing");
}

#[test]
fn replace_opening_takes_unicode_white_space() {
    assert_eq!(replace_opening("\"CompatToolMapping\"\u{a0}\u{2003}{x", "<>"), "<>x");
}

#[test]
fn set_runner_round_trip_replaces_binding() {
    let written = set_runner(&game(1234), "bar", CONFIG);
    assert_eq!(read_binding(&written, 1234), Ok("bar".to_string()));
    assert_eq!(occurrences(&written, "\"foo\""), 0);
    assert_eq!(occurrences(&written, "\"1234\""), 1);
    assert_eq!(read_binding(&written, 620), Ok("proton_7".to_string()));
}

#[test]
fn set_runner_twice_reads_back_identically() {
    let once = set_runner(&game(1234), "bar", CONFIG);
    let twice = set_runner(&game(1234), "bar", &once);
    assert_eq!(read_binding(&once, 1234), Ok("bar".to_string()));
    assert_eq!(read_binding(&twice, 1234), read_binding(&once, 1234));
    assert_eq!(occurrences(&twice, "\"1234\""), 1);
    assert_eq!(occurrences(&twice, "\"bar\""), 1);
}

#[test]
fn second_write_leaves_the_old_indentation_behind() {
    let once = set_runner(&game(5), "r", EMPTY_SECTION);
    let twice = set_runner(&game(5), "r", &once);
    assert_eq!(
        twice,
        format!(
            "\"Steam\"\n{{\n\t{}\n                    \n\n\t}}\n\t\"Other\"\t\t\"1\"\n}}\n",
            block_text(5, "r")
        )
    );
}

#[test]
fn set_runner_adds_a_binding_to_an_empty_section() {
    let written = set_runner(&game(39140), "proton_8", EMPTY_SECTION);
    assert_eq!(read_binding(&written, 39140), Ok("proton_8".to_string()));
    assert_eq!(
        written,
        format!(
            "\"Steam\"\n{{\n\t{}\n\t}}\n\t\"Other\"\t\t\"1\"\n}}\n",
            block_text(39140, "proton_8")
        )
    );
}

#[test]
fn set_runner_without_section_puts_nothing_in() {
    assert_eq!(set_runner(&game(5), "r", "no section here"), "no section here");
    assert_eq!(set_runner(&game(5), "r", ""), "");
    assert_eq!(
        set_runner(&game(5), "r", "x \"5\" { \"name\" \"old\" } y"),
        "x  y"
    );
}

#[test]
fn set_runner_agrees_with_the_expressions() {
    let contents = [
        CONFIG,
        EMPTY_SECTION,
        "",
        "\"CompatToolMapping\"{",
        "\"CompatToolMapping\"   \n\n{}",
        "\"CompatToolMapping\" x {",
        "\"5\" \"CompatToolMapping\" { }",
        "\"5\" { \"CompatToolMapping\" { } \"name\" }",
        "\"5\"\"5\" {{ \"name\" }} \"CompatToolMapping\"{\"CompatToolMapping\" {",
        "x \"5\" \"name\" { \"nam\" \"name\" } \"5\" { \"name\" \"q\" } \"CompatToolMapping\"\t{ \"5\" { \"name\" \"z\" } }",
        "\"5 \" { \"name\" } \"5\"",
        "\"CompatToolMapping\"\u{a0}{ \"5\"\u{3000}{\u{2028}\"name\"\t\"é\" } }",
        "\"\"CompatToolMapping\"\" { \"15\" { \"name\" \"a\" } \"5\" { \"name\" \"b\" } }",
    ];
    for content in contents {
        for app_id in [5u32, 15, 1234, 620] {
            for runner in ["proton_8", "", "with space", "a\"b", "c}d", "{"] {
                assert_eq!(
                    set_runner(&game(app_id), runner, content),
                    by_expressions(content, app_id, runner),
                    "content {content:?}, app {app_id}, runner {runner:?}"
                );
            }
        }
    }
}

#[test]
fn rebind_is_what_set_runner_gives() {
    assert_eq!(rebind(CONFIG, 1234, "bar"), set_runner(&game(1234), "bar", CONFIG));
}

#[test]
fn second_write_can_take_the_section_out() {
    let content = "\"5\" \"CompatToolMapping\" { }";
    let once = set_runner(&game(5), "r", content);
    assert_eq!(read_binding(&once, 5), Ok("r".to_string()));
    let twice = set_runner(&game(5), "r", &once);
    assert_eq!(twice, "\n }");
    assert_eq!(read_binding(&twice, 5), Err(ConfigError::NotFound));
    assert_eq!(twice, by_expressions(&once, 5, "r"));
}

#[test]
fn runner_with_quote_is_not_read_back_whole() {
    let written = set_runner(&game(5), "a\"b", EMPTY_SECTION);
    assert_eq!(read_binding(&written, 5), Ok("a".to_string()));
}

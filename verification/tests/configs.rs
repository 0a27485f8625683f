use herdr_title_rename::{Config, ConfigFile, PathStyle};

/// What a TOML reader makes of the text of a configuration.
fn read(raw: &str) -> Result<ConfigFile, String> {
    let table: toml::Table = raw.parse().map_err(|error: toml::de::Error| error.to_string())?;
    let mut file = ConfigFile {
        separator: None,
        path_style: None,
        rename_tabs: None,
        rename_workspaces: None,
    };
    for (key, value) in table.iter() {
        match (key.as_str(), value) {
            ("separator", toml::Value::String(text)) => file.separator = Some(text.clone()),
            ("path_style", toml::Value::String(text)) => {
                file.path_style = Some(match text.as_str() {
                    "tilde" => PathStyle::Tilde,
                    "full" => PathStyle::Full,
                    "basename" => PathStyle::Basename,
                    "none" => PathStyle::Omit,
                    other => return Err(format!("unknown variant `{other}`")),
                })
            }
            ("rename_tabs", toml::Value::Boolean(on)) => file.rename_tabs = Some(*on),
            ("rename_workspaces", toml::Value::Boolean(on)) => file.rename_workspaces = Some(*on),
            (other, _) => return Err(format!("cannot take `{other}`")),
        }
    }
    Ok(file)
}

#[test]
fn config_defaults_reproduce_the_tmux_format() {
    let config = Config::parse(read("")).expect("empty config");
    assert_eq!(config, Config::default());
    assert_eq!(config.separator, " | ");
    assert_eq!(config.path_style, PathStyle::Tilde);

    let config = Config::parse(read("path_style = \"basename\"\nrename_tabs = false\n"))
        .expect("partial config");
    assert_eq!(config.path_style, PathStyle::Basename);
    assert!(!config.rename_tabs);
    assert!(config.rename_workspaces);

    assert!(Config::parse(read("nonsense = 1")).is_err());
}

#[test]
fn every_key_can_be_set() {
    let file = "separator = \" - \"\npath_style = \"none\"\nrename_workspaces = false\n";
    let config = Config::parse(read(file)).expect("config");
    assert_eq!(config.separator, " - ");
    assert_eq!(config.path_style, PathStyle::Omit);
    assert!(config.rename_tabs);
    assert!(!config.rename_workspaces);
}

#[test]
fn a_complaint_is_passed_on() {
    assert_eq!(
        Config::parse(Err("line 1".to_string())),
        Err("invalid config.toml: line 1".to_string())
    );
}

#[test]
fn without_a_file_the_defaults_hold() {
    assert_eq!(Config::load(None), Ok(Config::default()));
    assert_eq!(
        Config::load(Some(Err("bad".to_string()))),
        Err("invalid config.toml: bad".to_string())
    );
    let config = Config::load(Some(read("rename_tabs = false"))).expect("config");
    assert!(!config.rename_tabs);
}

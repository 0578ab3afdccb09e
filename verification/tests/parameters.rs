use npaperbot_telegram::parameters::ParameterError;
use npaperbot_telegram::parameters::Parameters;

fn text(value: &str) -> Option<String> {
    Some(value.to_string())
}

fn with_max_results(value: &str) -> Result<Parameters, ParameterError> {
    Parameters::new(text("bot"), None, None, text(value), None)
}

fn with_periodicity(value: &str) -> Result<Parameters, ParameterError> {
    Parameters::new(text("bot"), None, None, None, text(value))
}

#[test]
fn parameters_have_defaults() {
    assert_eq!(
        Parameters::new(text("npaperbot"), None, None, None, None),
        Ok(Parameters {
            bot_name: "npaperbot".to_string(),
            is_webhook_mode_enabled: false,
            papers_database_uri: "https://wg21.link/index.json".to_string(),
            max_results_per_request: 20,
            database_update_periodicity_in_hours: 1,
        })
    );
}

#[test]
fn parameters_take_what_is_given() {
    assert_eq!(
        Parameters::new(
            text("b"),
            text("true"),
            text("http://localhost:8000/papers.json"),
            text("7"),
            text("24")
        ),
        Ok(Parameters {
            bot_name: "b".to_string(),
            is_webhook_mode_enabled: true,
            papers_database_uri: "http://localhost:8000/papers.json".to_string(),
            max_results_per_request: 7,
            database_update_periodicity_in_hours: 24,
        })
    );
}

#[test]
fn parameters_need_the_name_of_the_bot() {
    assert_eq!(
        Parameters::new(None, text("nonsense"), text("nonsense"), text("x"), text("y")),
        Err(ParameterError::MissingBotName)
    );
}

#[test]
fn webhook_mode_is_true_or_false() {
    for bad in ["", "True", "1", "yes", " true", "false "] {
        assert_eq!(
            Parameters::new(text("bot"), text(bad), None, None, None),
            Err(ParameterError::InvalidWebhookMode)
        );
    }
    assert_eq!(
        Parameters::new(text("bot"), text("false"), None, None, None)
            .unwrap()
            .is_webhook_mode_enabled,
        false
    );
}

#[test]
fn papers_database_uri_is_an_address() {
    for bad in ["", "not an address", "/relative/path", "://"] {
        assert_eq!(
            Parameters::new(text("bot"), None, text(bad), None, None),
            Err(ParameterError::InvalidPapersDatabaseUri)
        );
    }
}

#[test]
fn max_results_per_request_is_a_u8() {
    assert_eq!(with_max_results("0").unwrap().max_results_per_request, 0);
    assert_eq!(with_max_results("255").unwrap().max_results_per_request, 255);
    assert_eq!(with_max_results("+12").unwrap().max_results_per_request, 12);
    assert_eq!(with_max_results("0007").unwrap().max_results_per_request, 7);
    for bad in ["", "+", "-", "-0", "-1", "256", "1000", " 1", "1 ", "1_0", "0x10", "١"] {
        assert_eq!(
            with_max_results(bad),
            Err(ParameterError::InvalidMaxResultsPerRequest)
        );
    }
}

#[test]
fn database_update_periodicity_is_a_number_of_hours() {
    assert_eq!(
        with_periodicity("48")
            .unwrap()
            .database_update_periodicity_in_hours,
        48
    );
    assert_eq!(
        with_periodicity("-0")
            .unwrap()
            .database_update_periodicity_in_hours,
        0
    );
    assert_eq!(
        with_periodicity("-3")
            .unwrap()
            .database_update_periodicity_in_hours,
        -3
    );
    assert_eq!(
        with_periodicity("+2562047788015")
            .unwrap()
            .database_update_periodicity_in_hours,
        2562047788015
    );
    assert_eq!(
        with_periodicity("-2562047788015")
            .unwrap()
            .database_update_periodicity_in_hours,
        -2562047788015
    );
    for bad in [
        "",
        "-",
        "+",
        "1.5",
        "one",
        "2562047788016",
        "-2562047788016",
        "9223372036854775807",
        "9223372036854775808",
        "-9223372036854775809",
    ] {
        assert_eq!(
            with_periodicity(bad),
            Err(ParameterError::InvalidDatabaseUpdatePeriodicity)
        );
    }
}

#[test]
fn the_first_bad_setting_is_reported() {
    assert_eq!(
        Parameters::new(text("bot"), text("maybe"), text("nonsense"), text("x"), text("y")),
        Err(ParameterError::InvalidWebhookMode)
    );
    assert_eq!(
        Parameters::new(text("bot"), text("true"), text("nonsense"), text("x"), text("y")),
        Err(ParameterError::InvalidPapersDatabaseUri)
    );
    assert_eq!(
        Parameters::new(text("bot"), text("true"), None, text("x"), text("y")),
        Err(ParameterError::InvalidMaxResultsPerRequest)
    );
    assert_eq!(
        Parameters::new(text("bot"), text("true"), None, text("3"), text("y")),
        Err(ParameterError::InvalidDatabaseUpdatePeriodicity)
    );
}

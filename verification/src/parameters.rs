//! The settings of the bot, read from the texts that its environment
//! gives.

use crate::implicit_search_request_parser::decimal_value;
use crate::implicit_search_request_parser::is_digit;
use vstd::prelude::*;

verus! {

/// Where the catalog is fetched from unless the environment says otherwise.
pub const DEFAULT_PAPERS_DATABASE_URI: &'static str = "https://wg21.link/index.json";

/// How many papers a search returns unless the environment says otherwise.
pub const DEFAULT_MAX_RESULTS_PER_REQUEST: u8 = 20;

/// How many hours pass between two refreshes unless the environment says
/// otherwise.
pub const DEFAULT_DATABASE_UPDATE_PERIODICITY_IN_HOURS: i64 = 1;

/// The most hours that a `chrono::Duration` holds, in either direction.
pub const MAX_PERIODICITY_IN_HOURS: i64 = 2562047788015;

/// The settings of the bot.
#[derive(Debug, Eq, PartialEq)]
pub struct Parameters {
    pub bot_name: String,
    pub is_webhook_mode_enabled: bool,
    /// The address of the catalog; the `url` crate accepts it.
    pub papers_database_uri: String,
    pub max_results_per_request: u8,
    /// The hours between two refreshes; a `chrono::Duration` holds them.
    pub database_update_periodicity_in_hours: i64,
}

/// What [`Parameters`] hold, as plain values.
pub struct ParametersView {
    pub bot_name: Seq<char>,
    pub is_webhook_mode_enabled: bool,
    pub papers_database_uri: Seq<char>,
    pub max_results_per_request: u8,
    pub database_update_periodicity_in_hours: i64,
}

impl View for Parameters {
    type V = ParametersView;

    open spec fn view(&self) -> ParametersView {
        ParametersView {
            bot_name: self.bot_name@,
            is_webhook_mode_enabled: self.is_webhook_mode_enabled,
            papers_database_uri: self.papers_database_uri@,
            max_results_per_request: self.max_results_per_request,
            database_update_periodicity_in_hours: self.database_update_periodicity_in_hours,
        }
    }
}

/// The setting that cannot be used.
#[derive(Clone, Copy, Debug, Eq, PartialEq)]
pub enum ParameterError {
    /// `BOT_NAME` is not given.
    MissingBotName,
    /// `WEBHOOK_MODE` is neither `true` nor `false`.
    InvalidWebhookMode,
    /// `PAPERS_DATABASE_URI` is no address.
    InvalidPapersDatabaseUri,
    /// `MAX_RESULTS_PER_REQUEST` is no number from 0 to 255.
    InvalidMaxResultsPerRequest,
    /// `DATABASE_UPDATE_PERIODICITY_IN_HOURS` is no number of hours that a
    /// duration holds.
    InvalidDatabaseUpdatePeriodicity,
}

/// Whether `url::Url::parse` accepts `text`.
pub uninterp spec fn url_parses(text: Seq<char>) -> bool;

/// The characters of an optional text.
pub open spec fn given(text: Option<String>) -> Option<Seq<char>> {
    match text {
        Some(text) => Some(text@),
        None => None,
    }
}

/// `true` and `false`, spelled so, are the two truth values; no other text
/// is one.
pub open spec fn spec_parse_bool(text: Seq<char>) -> Option<bool> {
    if text == "true"@ {
        Some(true)
    } else if text == "false"@ {
        Some(false)
    } else {
        None
    }
}

/// `text` is made of decimal digits, and of one at least.
pub open spec fn is_digits(text: Seq<char>) -> bool {
    &&& text.len() > 0
    &&& forall|i: int| 0 <= i < text.len() ==> is_digit(#[trigger] text[i])
}

/// The integer that `text` spells: digits, with a plus or a minus sign
/// before them where wanted. Nothing else is an integer: no empty text, no
/// sign alone, no blank.
pub open spec fn spec_parse_int(text: Seq<char>) -> Option<int> {
    if text.len() > 0 && text[0] == '-' {
        if is_digits(text.skip(1)) {
            Some(-(decimal_value(text.skip(1)) as int))
        } else {
            None
        }
    } else if text.len() > 0 && text[0] == '+' {
        if is_digits(text.skip(1)) {
            Some(decimal_value(text.skip(1)) as int)
        } else {
            None
        }
    } else if is_digits(text) {
        Some(decimal_value(text) as int)
    } else {
        None
    }
}

/// The `u8` that `text` spells. A minus sign is not accepted, not even
/// before a zero.
pub open spec fn spec_parse_u8(text: Seq<char>) -> Option<u8> {
    match spec_parse_int(text) {
        Some(value) => if value <= u8::MAX && !(text.len() > 0 && text[0] == '-') {
            Some(value as u8)
        } else {
            None
        },
        None => None,
    }
}

/// The `i64` that `text` spells.
pub open spec fn spec_parse_i64(text: Seq<char>) -> Option<i64> {
    match spec_parse_int(text) {
        Some(value) => if i64::MIN <= value <= i64::MAX {
            Some(value as i64)
        } else {
            None
        },
        None => None,
    }
}

/// `<bool as FromStr>::from_str`: accepts `true` and `false` and nothing
/// else.
#[verifier::external_body]
fn parse_bool(text: &str) -> (result: Option<bool>)
    ensures
        result == spec_parse_bool(text@),
{
    text.parse::<bool>().ok()
}

/// `<u8 as FromStr>::from_str`: accepts decimal digits behind an optional
/// plus sign, where their value is at most 255.
#[verifier::external_body]
fn parse_u8(text: &str) -> (result: Option<u8>)
    ensures
        result == spec_parse_u8(text@),
{
    text.parse::<u8>().ok()
}

/// `<i64 as FromStr>::from_str`: accepts decimal digits behind an optional
/// plus or minus sign, where an `i64` holds their value.
#[verifier::external_body]
fn parse_i64(text: &str) -> (result: Option<i64>)
    ensures
        result == spec_parse_i64(text@),
{
    text.parse::<i64>().ok()
}

/// `url::Url::parse`: whether `text` is an address. The contract claims
/// only that the answer depends on nothing but `text`.
#[verifier::external_body]
fn is_url(text: &str) -> (result: bool)
    ensures
        result == url_parses(text@),
{
    url::Url::parse(text).is_ok()
}

/// `chrono::Duration::try_hours`: whether a duration holds so many hours.
/// It holds up to `i64::MAX` milliseconds in either direction, which are
/// [`MAX_PERIODICITY_IN_HOURS`] full hours.
#[verifier::external_body]
fn is_duration_in_hours(hours: i64) -> (result: bool)
    ensures
        result == (-MAX_PERIODICITY_IN_HOURS <= hours <= MAX_PERIODICITY_IN_HOURS),
{
    chrono::Duration::try_hours(hours).is_some()
}

/// What [`Parameters::new`] returns.
///
/// The name of the bot must be given. Each other setting has a default
/// that stands in where the environment gives nothing. The first setting
/// that is given and cannot be used, in the order of the fields, is the
/// error.
pub open spec fn spec_parameters(
    bot_name: Option<Seq<char>>,
    webhook_mode: Option<Seq<char>>,
    papers_database_uri: Option<Seq<char>>,
    max_results_per_request: Option<Seq<char>>,
    database_update_periodicity_in_hours: Option<Seq<char>>,
) -> Result<ParametersView, ParameterError> {
    let webhook = match webhook_mode {
        Some(text) => spec_parse_bool(text),
        None => Some(false),
    };
    let uri = match papers_database_uri {
        Some(text) => text,
        None => DEFAULT_PAPERS_DATABASE_URI@,
    };
    let max_results = match max_results_per_request {
        Some(text) => spec_parse_u8(text),
        None => Some(DEFAULT_MAX_RESULTS_PER_REQUEST),
    };
    let periodicity = match database_update_periodicity_in_hours {
        Some(text) => spec_parse_i64(text),
        None => Some(DEFAULT_DATABASE_UPDATE_PERIODICITY_IN_HOURS),
    };
    if bot_name is None {
        Err(ParameterError::MissingBotName)
    } else if webhook is None {
        Err(ParameterError::InvalidWebhookMode)
    } else if !url_parses(uri) {
        Err(ParameterError::InvalidPapersDatabaseUri)
    } else if max_results is None {
        Err(ParameterError::InvalidMaxResultsPerRequest)
    } else if periodicity is None || !(-MAX_PERIODICITY_IN_HOURS <= periodicity->0
        <= MAX_PERIODICITY_IN_HOURS) {
        Err(ParameterError::InvalidDatabaseUpdatePeriodicity)
    } else {
        Ok(
            ParametersView {
                bot_name: bot_name->0,
                is_webhook_mode_enabled: webhook->0,
                papers_database_uri: uri,
                max_results_per_request: max_results->0,
                database_update_periodicity_in_hours: periodicity->0,
            },
        )
    }
}

impl Parameters {
    /// The settings that the given texts spell. Each argument is the value
    /// of one variable of the environment, or `None` where the variable is
    /// not set: `BOT_NAME`, `WEBHOOK_MODE`, `PAPERS_DATABASE_URI`,
    /// `MAX_RESULTS_PER_REQUEST`, `DATABASE_UPDATE_PERIODICITY_IN_HOURS`.
    pub fn new(
        bot_name: Option<String>,
        webhook_mode: Option<String>,
        papers_database_uri: Option<String>,
        max_results_per_request: Option<String>,
        database_update_periodicity_in_hours: Option<String>,
    ) -> (result: Result<Parameters, ParameterError>)
        ensures
            match result {
                Ok(parameters) => Ok(parameters@),
                Err(error) => Err(error),
            } == spec_parameters(
                given(bot_name),
                given(webhook_mode),
                given(papers_database_uri),
                given(max_results_per_request),
                given(database_update_periodicity_in_hours),
            ),
    {
        let bot_name = match bot_name {
            Some(name) => name,
            None => {
                return Err(ParameterError::MissingBotName);
            },
        };
        let webhook = match &webhook_mode {
            Some(text) => parse_bool(text.as_str()),
            None => Some(false),
        };
        let is_webhook_mode_enabled = match webhook {
            Some(enabled) => enabled,
            None => {
                return Err(ParameterError::InvalidWebhookMode);
            },
        };
        let papers_database_uri = match papers_database_uri {
            Some(text) => text,
            None => DEFAULT_PAPERS_DATABASE_URI.to_owned(),
        };
        if !is_url(papers_database_uri.as_str()) {
            return Err(ParameterError::InvalidPapersDatabaseUri);
        }
        let max_results = match &max_results_per_request {
            Some(text) => parse_u8(text.as_str()),
            None => Some(DEFAULT_MAX_RESULTS_PER_REQUEST),
        };
        let max_results_per_request = match max_results {
            Some(limit) => limit,
            None => {
                return Err(ParameterError::InvalidMaxResultsPerRequest);
            },
        };
        let periodicity = match &database_update_periodicity_in_hours {
            Some(text) => parse_i64(text.as_str()),
            None => Some(DEFAULT_DATABASE_UPDATE_PERIODICITY_IN_HOURS),
        };
        let database_update_periodicity_in_hours = match periodicity {
            Some(hours) => hours,
            None => {
                return Err(ParameterError::InvalidDatabaseUpdatePeriodicity);
            },
        };
        if !is_duration_in_hours(database_update_periodicity_in_hours) {
            return Err(ParameterError::InvalidDatabaseUpdatePeriodicity);
        }
        Ok(
            Parameters {
                bot_name,
                is_webhook_mode_enabled,
                papers_database_uri,
                max_results_per_request,
                database_update_periodicity_in_hours,
            },
        )
    }
}

} // verus!

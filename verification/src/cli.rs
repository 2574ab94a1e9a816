//! The command line: its options, the provider choice and what follows from
//! it (model, key variable, display name).

use vstd::prelude::*;
use crate::duration::{
    duration_secs_of, extract_duration_from_prompt, parse_duration_secs, prompt_duration_of,
};
use crate::text::join2;

verus! {

/// The language-model backend that composes the pattern.
#[derive(Clone, Copy, Debug, PartialEq, Eq, Structural)]
pub enum Provider {
    Cerebras,
    Cohere,
}

impl Provider {
    /// The model used when none is given on the command line.
    pub open spec fn default_model_of(self) -> Seq<char> {
        match self {
            Provider::Cerebras => "llama3.1-8b"@,
            Provider::Cohere => "command-a-03-2025"@,
        }
    }

    /// The environment variable that holds the provider's API key.
    pub open spec fn env_key_name_of(self) -> Seq<char> {
        match self {
            Provider::Cerebras => "CEREBRAS_API_KEY"@,
            Provider::Cohere => "COHERE_API_KEY"@,
        }
    }

    /// The provider's name as shown to the user.
    pub open spec fn display_name_of(self) -> Seq<char> {
        match self {
            Provider::Cerebras => "Cerebras"@,
            Provider::Cohere => "Cohere"@,
        }
    }

    /// The model used when none is given on the command line.
    pub fn default_model(&self) -> (r: &'static str)
        ensures
            r@ == self.default_model_of(),
    {
        match self {
            Provider::Cerebras => "llama3.1-8b",
            Provider::Cohere => "command-a-03-2025",
        }
    }

    /// The environment variable that holds the provider's API key.
    pub fn env_key_name(&self) -> (r: &'static str)
        ensures
            r@ == self.env_key_name_of(),
    {
        match self {
            Provider::Cerebras => "CEREBRAS_API_KEY",
            Provider::Cohere => "COHERE_API_KEY",
        }
    }

    /// The provider's name as shown to the user.
    pub fn display_name(&self) -> (r: &'static str)
        ensures
            r@ == self.display_name_of(),
    {
        match self {
            Provider::Cerebras => "Cerebras",
            Provider::Cohere => "Cohere",
        }
    }
}

/// The options of one run.
pub struct Cli {
    /// What music to compose, in plain words.
    pub prompt: String,
    /// The target length of a song ("5m", "3min", "2:30", "300"); with it,
    /// a whole song is composed section by section instead of one pattern.
    pub duration: Option<String>,
    /// The backend to ask.
    pub provider: Provider,
    /// The API key given on the command line, if any.
    pub api_key: Option<String>,
    /// The model given on the command line, if any.
    pub model: Option<String>,
    /// Compose but do not play.
    pub no_play: bool,
    /// Where to save the result: a `.wav` path for audio, any other for JSON.
    pub output: Option<String>,
    /// Print the pattern's JSON.
    pub print_code: bool,
}

/// The view of an optional string.
pub open spec fn opt_string_view(s: Option<String>) -> Option<Seq<char>> {
    match s {
        Some(t) => Some(t@),
        None => None,
    }
}

impl Cli {
    /// The model to ask: the one given on the command line, else the
    /// provider's default.
    pub open spec fn model_name_of(self) -> Seq<char> {
        match self.model {
            Some(m) => m@,
            None => self.provider.default_model_of(),
        }
    }

    /// The length of the song to compose, in seconds: the duration option
    /// read as `parse_duration_secs` reads it; without the option, or where
    /// it does not read, the duration that the prompt states.
    pub open spec fn target_secs_of(self) -> Option<int> {
        let given = match self.duration {
            Some(d) => duration_secs_of(d@),
            None => None,
        };
        match given {
            Some(v) => Some(v),
            None => prompt_duration_of(self.prompt@),
        }
    }

    /// The length of the song to compose (see `target_secs_of`).
    pub fn target_secs(&self) -> (r: Option<u32>)
        ensures
            r matches Some(v) ==> self.target_secs_of() == Some(v as int),
            r is None ==> self.target_secs_of() is None,
    {
        let given = match &self.duration {
            Some(d) => parse_duration_secs(d.as_str()),
            None => None,
        };
        match given {
            Some(v) => Some(v),
            None => extract_duration_from_prompt(self.prompt.as_str()),
        }
    }

    /// The model to ask (see `model_name_of`).
    pub fn model_name(&self) -> (r: String)
        ensures
            r@ == self.model_name_of(),
    {
        match &self.model {
            Some(m) => m.clone(),
            None => String::from_str(self.provider.default_model()),
        }
    }
}

/// The message of a run that finds no API key.
pub open spec fn missing_key_message(provider: Provider) -> Seq<char> {
    "No API key found. Provide --api-key or set the "@ + provider.env_key_name_of()
        + " environment variable."@
}

/// The provider-agnostic environment variable consulted last for an API key.
pub const FALLBACK_KEY_NAME: &'static str = "GIRIBEAT_API_KEY";

/// The API key to use: the one given on the command line, else the value of
/// the provider's environment variable (`env_value`), else the value of the
/// provider-agnostic `GIRIBEAT_API_KEY` (`fallback_value`); with none of
/// them, the message that says what to do.
pub fn resolve_api_key(
    provider: Provider,
    given: Option<String>,
    env_value: Option<String>,
    fallback_value: Option<String>,
) -> (r: Result<String, String>)
    ensures
        match given {
            Some(k) => r == Ok::<String, String>(k),
            None => match env_value {
                Some(v) => r == Ok::<String, String>(v),
                None => match fallback_value {
                    Some(f) => r == Ok::<String, String>(f),
                    None => r matches Err(m) && m@ == missing_key_message(provider),
                },
            },
        },
{
    match given {
        Some(k) => Ok(k),
        None => match env_value {
            Some(v) => Ok(v),
            None => match fallback_value {
                Some(f) => Ok(f),
                None => {
                    let head = join2("No API key found. Provide --api-key or set the ", provider.env_key_name());
                    let msg = join2(head.as_str(), " environment variable.");
                    Err(msg)
                },
            },
        },
    }
}

/// Law: the duration option wins. Where `--duration` reads as a duration,
/// the song is that long whatever the prompt says; only without the
/// option, or where it does not read, does the duration written in the
/// prompt count.
pub proof fn law_duration_option_wins(cli: Cli)
    ensures
        cli.duration matches Some(d) && duration_secs_of(d@) is Some ==> cli.target_secs_of()
            == duration_secs_of(cli.duration.unwrap()@),
        cli.duration is None ==> cli.target_secs_of() == prompt_duration_of(cli.prompt@),
        cli.duration matches Some(d) && duration_secs_of(d@) is None ==> cli.target_secs_of()
            == prompt_duration_of(cli.prompt@),
{
}

} // verus!

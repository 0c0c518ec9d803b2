//! What the user asked for, and the model profiles to choose from.
//!
//! The profiles carry their cost rates as values of a type `C` that this
//! library only hands on.

use vstd::prelude::*;
use vstd::string::StringExecFns;

verus! {

/// The endpoint that is used where a profile names none.
pub const OPEN_ROUTER_URL: &'static str = "https://openrouter.ai/api/v1/chat/completions";

/// The model that is used where none is chosen or configured.
pub const DEFAULT_MODEL: &'static str = "moonshotai/kimi-k2";

/// The token ceiling that is used where a profile sets none.
pub const DEFAULT_MAX_TOKENS: usize = 16384;

/// The command line of one run.
#[derive(Debug, Clone)]
pub struct Cli {
    /// Input files and directories. They are sent to the model, which may
    /// rewrite them.
    pub files: Vec<String>,
    /// Log the prompts and the reply.
    pub verbose: bool,
    /// A file that the model may write besides the inputs.
    pub output: Option<String>,
    /// Log the JSON that is sent and received.
    pub trace: bool,
    /// The code of the model profile to use.
    pub model: Option<String>,
    /// What the model is asked to do.
    pub instruction: String,
}

/// A model profile.
#[derive(Debug, Clone)]
pub struct ModelConfig<C> {
    /// The short name by which the user chooses the profile.
    pub code: String,
    /// The model's identifier at the endpoint.
    pub model: String,
    /// The cost rate of prompt tokens.
    pub prompt_cost: C,
    /// The cost rate of completion tokens.
    pub completion_cost: C,
    /// A custom endpoint.
    pub api_url: Option<String>,
    /// The credential, or `$` and the name of the environment variable that
    /// holds it.
    pub api_key: Option<String>,
    /// The ceiling on the tokens of a reply.
    pub max_tokens: Option<usize>,
    /// The provider to which routing is restricted.
    pub provider: Option<String>,
}

/// The configuration file.
#[derive(Debug, Clone)]
pub struct Config<C> {
    pub models: Option<Vec<ModelConfig<C>>>,
    pub rules: Option<Vec<String>>,
}

/// The view of an optional string.
pub open spec fn option_view(s: Option<String>) -> Option<Seq<char>> {
    match s {
        Some(s) => Some(s@),
        None => None,
    }
}

/// The profiles of a configuration; none where it lists none.
pub open spec fn models_of<C>(config: Config<C>) -> Seq<ModelConfig<C>> {
    match config.models {
        Some(models) => models@,
        None => Seq::empty(),
    }
}

/// The code of the profile to use: the one chosen on the command line, else
/// that of the first configured profile, else the default model.
pub open spec fn selected_code<C>(model: Option<String>, config: Config<C>) -> Seq<char> {
    match model {
        Some(code) => code@,
        None => if models_of(config).len() > 0 {
            models_of(config)[0].code@
        } else {
            DEFAULT_MODEL@
        },
    }
}

/// The index of the first profile with the code `code`.
pub open spec fn first_with_code<C>(models: Seq<ModelConfig<C>>, code: Seq<char>) -> Option<int>
    decreases models.len(),
{
    if models.len() == 0 {
        None
    } else if models[0].code@ == code {
        Some(0)
    } else {
        match first_with_code(models.drop_first(), code) {
            Some(i) => Some(i + 1),
            None => None,
        }
    }
}

/// `first_with_code` finds the least index of a profile with the code, and
/// none exactly when no profile has it.
pub proof fn lemma_first_with_code<C>(models: Seq<ModelConfig<C>>, code: Seq<char>)
    ensures
        match first_with_code(models, code) {
            Some(i) => 0 <= i < models.len() && models[i].code@ == code && forall|j: int|
                0 <= j < i ==> (#[trigger] models[j]).code@ != code,
            None => forall|j: int| 0 <= j < models.len() ==> (#[trigger] models[j]).code@ != code,
        },
    decreases models.len(),
{
    if models.len() == 0 {
    } else if models[0].code@ == code {
    } else {
        let rest = models.drop_first();
        lemma_first_with_code(rest, code);
        match first_with_code(rest, code) {
            Some(i) => {
                assert(models[i + 1] == rest[i]);
                assert forall|j: int| 0 <= j < i + 1 implies (#[trigger] models[j]).code@
                    != code by {
                    if j > 0 {
                        assert(models[j] == rest[j - 1]);
                    }
                }
            },
            None => {
                assert forall|j: int| 0 <= j < models.len() implies (#[trigger] models[j]).code@
                    != code by {
                    if j > 0 {
                        assert(models[j] == rest[j - 1]);
                    }
                }
            },
        }
    }
}

/// A profile at the least index with the code is the first with the code.
pub proof fn lemma_first_with_code_is<C>(models: Seq<ModelConfig<C>>, code: Seq<char>, i: int)
    requires
        0 <= i <= models.len(),
        forall|j: int| 0 <= j < i ==> (#[trigger] models[j]).code@ != code,
        i < models.len() ==> models[i].code@ == code,
    ensures
        first_with_code(models, code) == if i < models.len() {
            Some(i)
        } else {
            None
        },
    decreases models.len(),
{
    if models.len() == 0 {
    } else if i == 0 {
    } else {
        let rest = models.drop_first();
        assert(models[0].code@ != code);
        assert forall|j: int| 0 <= j < i - 1 implies (#[trigger] rest[j]).code@ != code by {
            assert(rest[j] == models[j + 1]);
        }
        lemma_first_with_code_is(rest, code, i - 1);
    }
}

/// The variable that a credential refers to: what follows a leading `$`.
pub open spec fn env_reference(token: Seq<char>) -> Option<Seq<char>> {
    if token.len() > 0 && token[0] == '$' {
        Some(token.skip(1))
    } else {
        None
    }
}

/// The value of the variable `name` in the environment `env`: that of the
/// first entry with the name.
pub open spec fn env_lookup(env: Seq<(String, String)>, name: Seq<char>) -> Option<Seq<char>>
    decreases env.len(),
{
    if env.len() == 0 {
        None
    } else if env[0].0@ == name {
        Some(env[0].1@)
    } else {
        env_lookup(env.drop_first(), name)
    }
}

/// A credential with its reference to the environment resolved: a token that
/// begins with `$` stands for the value of the variable of that name, where
/// the environment has one; any other token, and one whose variable is not
/// set, stands for itself.
pub open spec fn resolved_token(token: Seq<char>, env: Seq<(String, String)>) -> Seq<char> {
    match env_reference(token) {
        Some(name) => match env_lookup(env, name) {
            Some(value) => value,
            None => token,
        },
        None => token,
    }
}

/// The profile for a run. Where a configured profile has the selected code,
/// the first such profile gives every field, its credential resolved against
/// the environment. Else the profile is the default model under the selected
/// code, with the default cost rates and nothing else.
pub open spec fn is_model_config<C>(
    r: ModelConfig<C>,
    model: Option<String>,
    config: Config<C>,
    default_prompt_cost: C,
    default_completion_cost: C,
    env: Seq<(String, String)>,
) -> bool {
    let code = selected_code(model, config);
    &&& r.code@ == code
    &&& match first_with_code(models_of(config), code) {
        Some(i) => {
            let m = models_of(config)[i];
            &&& r.model@ == m.model@
            &&& r.prompt_cost == m.prompt_cost
            &&& r.completion_cost == m.completion_cost
            &&& option_view(r.api_url) == option_view(m.api_url)
            &&& option_view(r.api_key) == match m.api_key {
                Some(token) => Some(resolved_token(token@, env)),
                None => None,
            }
            &&& r.max_tokens == m.max_tokens
            &&& option_view(r.provider) == option_view(m.provider)
        },
        None => {
            &&& r.model@ == DEFAULT_MODEL@
            &&& r.prompt_cost == default_prompt_cost
            &&& r.completion_cost == default_completion_cost
            &&& r.api_url is None
            &&& r.api_key is None
            &&& r.max_tokens is None
            &&& r.provider is None
        },
    }
}

fn clone_option(s: &Option<String>) -> (r: Option<String>)
    ensures
        option_view(r) == option_view(*s),
{
    match s {
        Some(s) => Some(s.clone()),
        None => None,
    }
}

/// The value of the variable `name` in the environment `env`.
pub fn lookup_env(env: &Vec<(String, String)>, name: &str) -> (r: Option<String>)
    ensures
        option_view(r) == env_lookup(env@, name@),
{
    let wanted = String::from_str(name);
    let n: usize = env.len();
    let mut i: usize = 0;
    assert(env@.skip(0) =~= env@);
    while i < n
        invariant
            n == env@.len(),
            i <= n,
            wanted@ == name@,
            env_lookup(env@, name@) == env_lookup(env@.skip(i as int), name@),
        decreases n - i,
    {
        proof {
            assert(env@.skip(i as int).drop_first() =~= env@.skip(i + 1));
        }
        if env[i].0 == wanted {
            return Some(env[i].1.clone());
        }
        i = i + 1;
    }
    None
}

/// Resolves a credential against the environment `env`: see `resolved_token`.
pub fn resolve_env_token(token: &str, env: &Vec<(String, String)>) -> (r: String)
    ensures
        r@ == resolved_token(token@, env@),
{
    let n: usize = token.unicode_len();
    if n > 0 && token.get_char(0) == '$' {
        let name = token.substring_char(1, n);
        assert(name@ =~= token@.skip(1));
        match lookup_env(env, name) {
            Some(value) => value,
            None => String::from_str(token),
        }
    } else {
        String::from_str(token)
    }
}

/// The code of the profile to use: see `selected_code`.
pub fn get_selected_model_code<C>(args: &Cli, config: &Config<C>) -> (code: String)
    ensures
        code@ == selected_code(args.model, *config),
{
    match &args.model {
        Some(code) => code.clone(),
        None => {
            match &config.models {
                Some(models) => {
                    if models.len() > 0 {
                        models[0].code.clone()
                    } else {
                        String::from_str(DEFAULT_MODEL)
                    }
                },
                None => String::from_str(DEFAULT_MODEL),
            }
        },
    }
}

/// The index of the first profile of `models` with the code `code`.
pub fn find_model<C>(models: &Vec<ModelConfig<C>>, code: &String) -> (r: Option<usize>)
    ensures
        match r {
            Some(i) => i < models@.len() && first_with_code(models@, code@) == Some(i as int),
            None => first_with_code(models@, code@) is None,
        },
{
    let n: usize = models.len();
    let mut i: usize = 0;
    while i < n
        invariant
            n == models@.len(),
            i <= n,
            forall|j: int| 0 <= j < i ==> (#[trigger] models@[j]).code@ != code@,
        decreases n - i,
    {
        if models[i].code == *code {
            proof {
                lemma_first_with_code_is(models@, code@, i as int);
            }
            return Some(i);
        }
        i = i + 1;
    }
    proof {
        lemma_first_with_code_is(models@, code@, n as int);
    }
    None
}

/// The profile for a run: see `is_model_config`.
pub fn get_model_config<C: Copy>(
    args: &Cli,
    config: &Config<C>,
    default_prompt_cost: C,
    default_completion_cost: C,
    env: &Vec<(String, String)>,
) -> (r: ModelConfig<C>)
    ensures
        is_model_config(
            r,
            args.model,
            *config,
            default_prompt_cost,
            default_completion_cost,
            env@,
        ),
{
    let code = get_selected_model_code(args, config);
    let found: Option<&ModelConfig<C>> = match &config.models {
        Some(models) => match find_model(models, &code) {
            Some(i) => Some(&models[i]),
            None => None,
        },
        None => None,
    };
    match found {
        Some(m) => ModelConfig {
            code,
            model: m.model.clone(),
            prompt_cost: m.prompt_cost,
            completion_cost: m.completion_cost,
            api_url: clone_option(&m.api_url),
            api_key: match &m.api_key {
                Some(token) => Some(resolve_env_token(token.as_str(), env)),
                None => None,
            },
            max_tokens: m.max_tokens,
            provider: clone_option(&m.provider),
        },
        None => ModelConfig {
            code,
            model: String::from_str(DEFAULT_MODEL),
            prompt_cost: default_prompt_cost,
            completion_cost: default_completion_cost,
            api_url: None,
            api_key: None,
            max_tokens: None,
            provider: None,
        },
    }
}

} // verus!

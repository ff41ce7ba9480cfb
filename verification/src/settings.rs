//! Bootstrap settings — what the configuration file says, with variables expanded and
//! runtime overrides applied.

use crate::circuit_breaker::ExecutionMode;
use crate::smoke::{parse_bool_env, yes_or_no};
use crate::table::Table;
use crate::text::{chars_of, joined, joined3, parse_number, parsed_number, same_text, string_of};
use vstd::prelude::*;

verus! {

// ─── Variables ───

/// The position of the first closing brace from a position on; the length where there is
/// none.
pub open spec fn closing_brace(s: Seq<char>, from: int) -> int
    decreases s.len() - from,
{
    if from >= s.len() {
        s.len() as int
    } else if s[from] == '}' {
        from
    } else {
        closing_brace(s, from + 1)
    }
}

/// A text from a position on, with every `${NAME}` replaced by the variable's value. A
/// reference to a variable that is not set stays as it is, and so does one that is not
/// closed.
pub open spec fn expanded_from(s: Seq<char>, at: int, variables: Map<Seq<char>, String>) -> Seq<char>
    decreases s.len() - at,
    when 0 <= at
    via expanded_from_decreases
{
    if at >= s.len() {
        seq![]
    } else if at + 1 < s.len() && s[at] == '$' && s[at + 1] == '{' && closing_brace(s, at + 2)
        < s.len() {
        let end = closing_brace(s, at + 2);
        let name = s.subrange(at + 2, end);
        let value = if variables.contains_key(name) {
            variables[name]@
        } else {
            s.subrange(at, end + 1)
        };
        value + expanded_from(s, end + 1, variables)
    } else {
        seq![s[at]] + expanded_from(s, at + 1, variables)
    }
}

#[via_fn]
proof fn expanded_from_decreases(s: Seq<char>, at: int, variables: Map<Seq<char>, String>) {
    lemma_closing_brace(s, at + 2);
}

/// A closing brace is found at or behind where the search starts.
proof fn lemma_closing_brace(s: Seq<char>, from: int)
    ensures
        from <= s.len() ==> from <= closing_brace(s, from) <= s.len(),
        from > s.len() ==> closing_brace(s, from) == s.len(),
    decreases s.len() - from,
{
    if from < s.len() {
        lemma_closing_brace(s, from + 1);
    }
}

/// The position of the first closing brace from a position on.
fn find_closing_brace(v: &Vec<char>, from: usize) -> (r: usize)
    requires
        from <= v@.len(),
    ensures
        r == closing_brace(v@, from as int),
        from <= r <= v@.len(),
{
    let mut i: usize = from;
    while i < v.len()
        invariant
            from <= i <= v@.len(),
            closing_brace(v@, from as int) == closing_brace(v@, i as int),
        decreases v@.len() - i,
    {
        if v[i] == '}' {
            return i;
        }
        i = i + 1;
    }
    i
}

/// A part of a run of characters.
fn part(v: &Vec<char>, from: usize, to: usize) -> (r: Vec<char>)
    requires
        from <= to <= v@.len(),
    ensures
        r@ == v@.subrange(from as int, to as int),
{
    let mut r: Vec<char> = Vec::new();
    let mut i: usize = from;
    assert(r@ =~= v@.subrange(from as int, i as int));
    while i < to
        invariant
            from <= i <= to <= v@.len(),
            r@ == v@.subrange(from as int, i as int),
        decreases to - i,
    {
        r.push(v[i]);
        i = i + 1;
        assert(r@ =~= v@.subrange(from as int, i as int));
    }
    r
}

/// Adds characters to the end of others.
fn extend(out: &mut Vec<char>, more: &Vec<char>)
    ensures
        final(out)@ == old(out)@ + more@,
{
    let mut i: usize = 0;
    assert(out@ =~= old(out)@ + more@.take(0));
    while i < more.len()
        invariant
            i <= more@.len(),
            out@ == old(out)@ + more@.take(i as int),
        decreases more@.len() - i,
    {
        out.push(more[i]);
        i = i + 1;
        assert(out@ =~= old(out)@ + more@.take(i as int));
    }
    assert(more@.take(i as int) =~= more@);
}

/// A text with every `${NAME}` replaced by the variable's value.
pub fn expand_variables(text: &str, variables: &Table<String>) -> (r: String)
    ensures
        r@ == expanded_from(text@, 0, variables@),
{
    let v = chars_of(text);
    let mut out: Vec<char> = Vec::new();
    let mut i: usize = 0;
    assert(out@ + expanded_from(v@, 0, variables@) =~= expanded_from(v@, 0, variables@));
    while i < v.len()
        invariant
            i <= v@.len(),
            v@ == text@,
            out@ + expanded_from(v@, i as int, variables@) == expanded_from(v@, 0, variables@),
        decreases v@.len() - i,
    {
        let ghost before = out@;
        if v.len() - i > 1 && v[i] == '$' && v[i + 1] == '{' {
            let end: usize = find_closing_brace(&v, i + 2);
            if end < v.len() {
                let name = part(&v, i + 2, end);
                let value = match variables.get(string_of(&name).as_str()) {
                    Some(value) => chars_of(value.as_str()),
                    None => part(&v, i, end + 1),
                };
                extend(&mut out, &value);
                i = end + 1;
                proof {
                    assert(out@ + expanded_from(v@, i as int, variables@) =~= before + (value@
                        + expanded_from(v@, i as int, variables@)));
                }
                continue;
            }
        }
        out.push(v[i]);
        proof {
            assert(out@ + expanded_from(v@, i + 1, variables@) =~= before + (seq![v@[i as int]]
                + expanded_from(v@, i + 1, variables@)));
        }
        i = i + 1;
    }
    assert(expanded_from(v@, i as int, variables@) =~= Seq::<char>::empty());
    assert(out@ =~= expanded_from(v@, 0, variables@));
    string_of(&out)
}

/// A text without a dollar sign is what it is, whatever the variables.
pub proof fn law_plain_text_is_kept(s: Seq<char>, variables: Map<Seq<char>, String>)
    requires
        !s.contains('$'),
    ensures
        expanded_from(s, 0, variables) == s,
{
    lemma_plain_tail(s, 0, variables);
    assert(s.skip(0) =~= s);
}

/// A tail without a dollar sign is what it is.
proof fn lemma_plain_tail(s: Seq<char>, at: int, variables: Map<Seq<char>, String>)
    requires
        !s.contains('$'),
        0 <= at <= s.len(),
    ensures
        expanded_from(s, at, variables) == s.skip(at),
    decreases s.len() - at,
{
    if at < s.len() {
        assert(s.contains(s[at]));
        lemma_plain_tail(s, at + 1, variables);
        assert(seq![s[at]] + s.skip(at + 1) =~= s.skip(at));
    } else {
        assert(s.skip(at) =~= Seq::<char>::empty());
    }
}

// ─── Settings ───

/// What the configuration file says.
#[derive(Debug)]
pub struct FileSettings {
    pub mode: Option<String>,
    pub dry_run: Option<bool>,
    pub grpc_port: u16,
    pub redis_url: String,
}

/// What the environment says in place of the file.
#[derive(Debug)]
pub struct Overrides {
    /// `FEYNMAN_MODE`.
    pub feynman_mode: Option<String>,
    /// `ENGINE_MODE`, which counts where `FEYNMAN_MODE` is not set.
    pub engine_mode: Option<String>,
    /// `ENGINE_DRY_RUN`.
    pub dry_run: Option<String>,
    /// `ENGINE_GRPC_PORT`.
    pub grpc_port: Option<String>,
    /// `REDIS_URL`.
    pub redis_url: Option<String>,
}

/// The settings that the engine starts with.
#[derive(Debug)]
pub struct BootstrapConfig {
    pub engine: EngineConfig,
    pub redis: RedisConfig,
}

/// The engine's settings.
#[derive(Debug, Clone, Copy)]
pub struct EngineConfig {
    /// How the engine runs, if anything says so.
    pub mode: Option<ExecutionMode>,
    /// Whether orders are only pretended. They are unless something says otherwise.
    pub dry_run: bool,
    pub grpc_port: u16,
}

/// The message bus settings.
#[derive(Debug)]
pub struct RedisConfig {
    pub url: String,
}

/// The mode of a word.
pub open spec fn mode_of(word: Seq<char>) -> Option<ExecutionMode> {
    if word == "live"@ {
        Some(ExecutionMode::Live)
    } else if word == "paper"@ {
        Some(ExecutionMode::Paper)
    } else if word == "backtest"@ {
        Some(ExecutionMode::Backtest)
    } else {
        None
    }
}

/// The mode of a word.
fn parse_mode(word: &str) -> (r: Option<ExecutionMode>)
    ensures
        r == mode_of(word@),
{
    if same_text(word, "live") {
        Some(ExecutionMode::Live)
    } else if same_text(word, "paper") {
        Some(ExecutionMode::Paper)
    } else if same_text(word, "backtest") {
        Some(ExecutionMode::Backtest)
    } else {
        None
    }
}

/// The word for the mode: the environment's, else the file's with its variables expanded.
pub open spec fn mode_word(
    file: FileSettings,
    overrides: Overrides,
    variables: Map<Seq<char>, String>,
) -> Option<Seq<char>> {
    match (overrides.feynman_mode, overrides.engine_mode, file.mode) {
        (Some(word), _, _) => Some(word@),
        (None, Some(word), _) => Some(word@),
        (None, None, Some(word)) => Some(expanded_from(word@, 0, variables)),
        (None, None, None) => None,
    }
}

/// Why settings are refused; the mode is looked at first, then the dry run, then the port.
pub open spec fn settings_fault(
    file: FileSettings,
    overrides: Overrides,
    variables: Map<Seq<char>, String>,
) -> Option<Seq<char>> {
    let word = mode_word(file, overrides, variables);
    if word is Some && mode_of(word->0) is None {
        Some("engine mode must be one of live/paper/backtest, got "@ + word->0)
    } else if overrides.dry_run is Some && yes_or_no(overrides.dry_run->0@) is None {
        Some(
            "ENGINE_DRY_RUN"@ + " must be one of 1/0/true/false/yes/no, got "@
                + overrides.dry_run->0@,
        )
    } else if overrides.grpc_port is Some && parsed_number(
        overrides.grpc_port->0@,
        u16::MAX as nat,
    ) is None {
        Some("ENGINE_GRPC_PORT"@ + " must be a port number, got "@ + overrides.grpc_port->0@)
    } else {
        None
    }
}

/// Whether a configuration is what the file and the environment say.
pub open spec fn is_configured(
    c: BootstrapConfig,
    file: FileSettings,
    overrides: Overrides,
    variables: Map<Seq<char>, String>,
) -> bool {
    &&& c.engine.mode == (match mode_word(file, overrides, variables) {
        Some(word) => mode_of(word),
        None => None,
    })
    &&& c.engine.dry_run == (match (overrides.dry_run, file.dry_run) {
        (Some(raw), _) => yes_or_no(raw@) == Some(true),
        (None, Some(b)) => b,
        (None, None) => true,
    })
    &&& c.engine.grpc_port == (match overrides.grpc_port {
        Some(raw) => parsed_number(raw@, u16::MAX as nat)->0,
        None => file.grpc_port as nat,
    })
    &&& c.redis.url@ == (match overrides.redis_url {
        Some(url) => url@,
        None => expanded_from(file.redis_url@, 0, variables),
    })
}

/// The mode that the engine runs in.
fn configured_mode(file: &FileSettings, overrides: &Overrides, variables: &Table<String>) -> (r:
    Result<Option<ExecutionMode>, String>)
    ensures
        match mode_word(*file, *overrides, variables@) {
            None => r == Ok::<Option<ExecutionMode>, String>(None),
            Some(word) => match (r, mode_of(word)) {
                (Ok(mode), Some(expected)) => mode == Some(expected),
                (Err(e), None) => e@ == "engine mode must be one of live/paper/backtest, got "@
                    + word,
                _ => false,
            },
        },
{
    let word = match &overrides.feynman_mode {
        Some(word) => word.clone(),
        None => match &overrides.engine_mode {
            Some(word) => word.clone(),
            None => match &file.mode {
                Some(word) => expand_variables(word.as_str(), variables),
                None => {
                    return Ok(None);
                },
            },
        },
    };
    match parse_mode(word.as_str()) {
        Some(mode) => Ok(Some(mode)),
        None => {
            Err(
                joined("engine mode must be one of live/paper/backtest, got ", word.as_str()),
            )
        },
    }
}

/// The configuration that the file and the environment make up.
pub fn configure(file: &FileSettings, overrides: &Overrides, variables: &Table<String>) -> (r:
    Result<BootstrapConfig, String>)
    ensures
        match (r, settings_fault(*file, *overrides, variables@)) {
            (Ok(c), None) => is_configured(c, *file, *overrides, variables@),
            (Err(e), Some(why)) => e@ == why,
            _ => false,
        },
{
    let mode = match configured_mode(file, overrides, variables) {
        Ok(mode) => mode,
        Err(e) => {
            return Err(e);
        },
    };
    let dry_run = match &overrides.dry_run {
        Some(raw) => match parse_bool_env("ENGINE_DRY_RUN", Some(raw.clone()), true) {
            Ok(b) => b,
            Err(e) => {
                return Err(e);
            },
        },
        None => match file.dry_run {
            Some(b) => b,
            None => true,
        },
    };
    let grpc_port: u16 = match &overrides.grpc_port {
        Some(raw) => match parse_number(raw.as_str(), u16::MAX as u64) {
            Some(n) => n as u16,
            None => {
                return Err(
                    joined3("ENGINE_GRPC_PORT", " must be a port number, got ", raw.as_str()),
                );
            },
        },
        None => file.grpc_port,
    };
    let url = match &overrides.redis_url {
        Some(url) => url.clone(),
        None => expand_variables(file.redis_url.as_str(), variables),
    };
    Ok(
        BootstrapConfig {
            engine: EngineConfig { mode, dry_run, grpc_port },
            redis: RedisConfig { url },
        },
    )
}

/// Orders are only pretended unless the file or the environment says otherwise.
pub proof fn law_dry_run_is_the_default(
    c: BootstrapConfig,
    file: FileSettings,
    overrides: Overrides,
    variables: Map<Seq<char>, String>,
)
    requires
        is_configured(c, file, overrides, variables),
        file.dry_run is None,
        overrides.dry_run is None,
    ensures
        c.engine.dry_run,
{
}

} // verus!

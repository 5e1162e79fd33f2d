//! Runtime configuration: its sections, how layers merge, and validation.

use crate::memory::mode_named;
use crate::text::{
    lower_of, parse_u64_text, parse_usize_text, str_eq, to_lower, trim_of, trim_str, u64_parse_of,
    usize_parse_of,
};
use vstd::prelude::*;

verus! {

/// General settings.
#[derive(Debug, Clone, Default)]
pub struct GeneralConfig {
    pub path: Option<String>,
    pub output: Option<String>,
    pub format: Option<String>,
    pub threads: Option<usize>,
    pub strip_prefix: Option<String>,
    pub depth: Option<usize>,
    pub exclude: Option<Vec<String>>,
    pub follow_symlinks: Option<bool>,
    pub progress: Option<bool>,
    pub dry_run: Option<bool>,
}

/// Algorithm settings.
#[derive(Debug, Clone, Default)]
pub struct AlgorithmConfig {
    pub name: Option<String>,
    pub xof_length: Option<usize>,
}

/// Memory settings.
#[derive(Debug, Clone, Default)]
pub struct MemoryConfig {
    pub mode: Option<String>,
    pub max_ram: Option<u64>,
}

/// A layer of configuration; absent sections and fields are unset.
#[derive(Debug, Clone, Default)]
pub struct RuntimeConfig {
    pub general: Option<GeneralConfig>,
    pub algorithm: Option<AlgorithmConfig>,
    pub memory: Option<MemoryConfig>,
}

/// `over` where it is set, else `base`.
pub open spec fn overlay<T>(base: Option<T>, over: Option<T>) -> Option<T> {
    if over is Some {
        over
    } else {
        base
    }
}

/// General settings of `over` laid on `base`, field by field.
pub open spec fn merged_general(base: GeneralConfig, over: GeneralConfig) -> GeneralConfig {
    GeneralConfig {
        path: overlay(base.path, over.path),
        output: overlay(base.output, over.output),
        format: overlay(base.format, over.format),
        threads: overlay(base.threads, over.threads),
        strip_prefix: overlay(base.strip_prefix, over.strip_prefix),
        depth: overlay(base.depth, over.depth),
        exclude: overlay(base.exclude, over.exclude),
        follow_symlinks: overlay(base.follow_symlinks, over.follow_symlinks),
        progress: overlay(base.progress, over.progress),
        dry_run: overlay(base.dry_run, over.dry_run),
    }
}

/// Algorithm settings of `over` laid on `base`, field by field.
pub open spec fn merged_algorithm(base: AlgorithmConfig, over: AlgorithmConfig) -> AlgorithmConfig {
    AlgorithmConfig {
        name: overlay(base.name, over.name),
        xof_length: overlay(base.xof_length, over.xof_length),
    }
}

/// Memory settings of `over` laid on `base`, field by field.
pub open spec fn merged_memory(base: MemoryConfig, over: MemoryConfig) -> MemoryConfig {
    MemoryConfig { mode: overlay(base.mode, over.mode), max_ram: overlay(base.max_ram, over.max_ram) }
}

/// A section of `over` laid on the same section of `base`: taken whole when
/// `base` lacks it, merged field by field when both have it.
pub open spec fn merged_section<T>(base: Option<T>, over: Option<T>, merge: spec_fn(T, T) -> T) -> Option<T> {
    match over {
        None => base,
        Some(o) => match base {
            None => Some(o),
            Some(b) => Some(merge(b, o)),
        },
    }
}

/// The configuration `over` laid on `base`.
pub open spec fn merged_config(base: RuntimeConfig, over: RuntimeConfig) -> RuntimeConfig {
    RuntimeConfig {
        general: merged_section(base.general, over.general, |b, o| merged_general(b, o)),
        algorithm: merged_section(base.algorithm, over.algorithm, |b, o| merged_algorithm(b, o)),
        memory: merged_section(base.memory, over.memory, |b, o| merged_memory(b, o)),
    }
}

/// A reason a configuration is rejected.
#[derive(Debug)]
pub enum ConfigError {
    /// `general.format` is neither json nor csv (as given).
    InvalidFormat(String),
    /// `general.threads` is zero.
    ZeroThreads,
    /// `general.depth` is zero.
    ZeroDepth,
    /// `algorithm.name` is empty or white space.
    EmptyAlgorithmName,
    /// `algorithm.xof_length` is zero.
    ZeroXofLength,
    /// `memory.mode` names no mode (lower-cased).
    InvalidMemoryMode(String),
    /// `memory.max_ram` is zero.
    ZeroMaxRam,
}

/// A reason a configuration is rejected, as contracts see it.
pub enum ConfigErrorView {
    InvalidFormat(Seq<char>),
    ZeroThreads,
    ZeroDepth,
    EmptyAlgorithmName,
    ZeroXofLength,
    InvalidMemoryMode(Seq<char>),
    ZeroMaxRam,
}

impl View for ConfigError {
    type V = ConfigErrorView;

    open spec fn view(&self) -> ConfigErrorView {
        match self {
            ConfigError::InvalidFormat(s) => ConfigErrorView::InvalidFormat(s@),
            ConfigError::ZeroThreads => ConfigErrorView::ZeroThreads,
            ConfigError::ZeroDepth => ConfigErrorView::ZeroDepth,
            ConfigError::EmptyAlgorithmName => ConfigErrorView::EmptyAlgorithmName,
            ConfigError::ZeroXofLength => ConfigErrorView::ZeroXofLength,
            ConfigError::InvalidMemoryMode(s) => ConfigErrorView::InvalidMemoryMode(s@),
            ConfigError::ZeroMaxRam => ConfigErrorView::ZeroMaxRam,
        }
    }
}

/// Whether a lower-cased format is one of the report formats.
pub open spec fn is_known_format(lowered: Seq<char>) -> bool {
    lowered == "json"@ || lowered == "csv"@
}

/// The first problem of the general section, if any.
pub open spec fn general_problem(g: GeneralConfig) -> Option<ConfigErrorView> {
    if g.format matches Some(f) && !is_known_format(lower_of(f@)) {
        Some(ConfigErrorView::InvalidFormat(g.format->0@))
    } else if g.threads == Some(0usize) {
        Some(ConfigErrorView::ZeroThreads)
    } else if g.depth == Some(0usize) {
        Some(ConfigErrorView::ZeroDepth)
    } else {
        None
    }
}

/// The first problem of the algorithm section, if any.
pub open spec fn algorithm_problem(a: AlgorithmConfig) -> Option<ConfigErrorView> {
    if a.name matches Some(n) && trim_of(n@).len() == 0 {
        Some(ConfigErrorView::EmptyAlgorithmName)
    } else if a.xof_length == Some(0usize) {
        Some(ConfigErrorView::ZeroXofLength)
    } else {
        None
    }
}

/// The first problem of the memory section, if any.
pub open spec fn memory_problem(m: MemoryConfig) -> Option<ConfigErrorView> {
    if m.mode matches Some(s) && mode_named(lower_of(s@)) is None {
        Some(ConfigErrorView::InvalidMemoryMode(lower_of(m.mode->0@)))
    } else if m.max_ram == Some(0u64) {
        Some(ConfigErrorView::ZeroMaxRam)
    } else {
        None
    }
}

/// The first problem of a configuration, sections in order, if any.
pub open spec fn config_problem(c: RuntimeConfig) -> Option<ConfigErrorView> {
    let g = match c.general {
        Some(g) => general_problem(g),
        None => None,
    };
    let a = match c.algorithm {
        Some(a) => algorithm_problem(a),
        None => None,
    };
    let m = match c.memory {
        Some(m) => memory_problem(m),
        None => None,
    };
    if g is Some {
        g
    } else if a is Some {
        a
    } else {
        m
    }
}

/// `over` where it is set, else `base`.
fn overlay_value<T>(base: Option<T>, over: Option<T>) -> (r: Option<T>)
    ensures
        r == overlay(base, over),
{
    match over {
        Some(v) => Some(v),
        None => base,
    }
}

fn merge_general(base: GeneralConfig, over: GeneralConfig) -> (r: GeneralConfig)
    ensures
        r == merged_general(base, over),
{
    GeneralConfig {
        path: overlay_value(base.path, over.path),
        output: overlay_value(base.output, over.output),
        format: overlay_value(base.format, over.format),
        threads: overlay_value(base.threads, over.threads),
        strip_prefix: overlay_value(base.strip_prefix, over.strip_prefix),
        depth: overlay_value(base.depth, over.depth),
        exclude: overlay_value(base.exclude, over.exclude),
        follow_symlinks: overlay_value(base.follow_symlinks, over.follow_symlinks),
        progress: overlay_value(base.progress, over.progress),
        dry_run: overlay_value(base.dry_run, over.dry_run),
    }
}

fn merge_algorithm(base: AlgorithmConfig, over: AlgorithmConfig) -> (r: AlgorithmConfig)
    ensures
        r == merged_algorithm(base, over),
{
    AlgorithmConfig {
        name: overlay_value(base.name, over.name),
        xof_length: overlay_value(base.xof_length, over.xof_length),
    }
}

fn merge_memory(base: MemoryConfig, over: MemoryConfig) -> (r: MemoryConfig)
    ensures
        r == merged_memory(base, over),
{
    MemoryConfig {
        mode: overlay_value(base.mode, over.mode),
        max_ram: overlay_value(base.max_ram, over.max_ram),
    }
}

/// Whether an already lower-cased format is json or csv.
pub fn is_report_format(lowered: &str) -> (r: bool)
    ensures
        r == is_known_format(lowered@),
{
    str_eq(lowered, "json") || str_eq(lowered, "csv")
}

/// The general section's first problem.
fn check_general(g: &GeneralConfig) -> (r: Result<(), ConfigError>)
    ensures
        r is Ok <==> general_problem(*g) is None,
        r matches Err(e) ==> general_problem(*g) == Some(e@),
{
    match &g.format {
        Some(f) => {
            let lowered = to_lower(f.as_str());
            if !is_report_format(lowered.as_str()) {
                return Err(ConfigError::InvalidFormat(f.as_str().to_owned()));
            }
        },
        None => {},
    }
    if g.threads == Some(0usize) {
        return Err(ConfigError::ZeroThreads);
    }
    if g.depth == Some(0usize) {
        return Err(ConfigError::ZeroDepth);
    }
    Ok(())
}

/// The algorithm section's first problem.
fn check_algorithm(a: &AlgorithmConfig) -> (r: Result<(), ConfigError>)
    ensures
        r is Ok <==> algorithm_problem(*a) is None,
        r matches Err(e) ==> algorithm_problem(*a) == Some(e@),
{
    match &a.name {
        Some(n) => {
            let t = trim_str(n.as_str());
            if t.is_empty() {
                return Err(ConfigError::EmptyAlgorithmName);
            }
        },
        None => {},
    }
    if a.xof_length == Some(0usize) {
        return Err(ConfigError::ZeroXofLength);
    }
    Ok(())
}

/// The memory section's first problem.
fn check_memory(m: &MemoryConfig) -> (r: Result<(), ConfigError>)
    ensures
        r is Ok <==> memory_problem(*m) is None,
        r matches Err(e) ==> memory_problem(*m) == Some(e@),
{
    match &m.mode {
        Some(s) => {
            let lowered = to_lower(s.as_str());
            if crate::memory::MemoryMode::from_lowered(lowered.as_str()).is_none() {
                return Err(ConfigError::InvalidMemoryMode(lowered));
            }
        },
        None => {},
    }
    if m.max_ram == Some(0u64) {
        return Err(ConfigError::ZeroMaxRam);
    }
    Ok(())
}

impl RuntimeConfig {
    /// Lays `other` over this configuration: a section this one lacks is taken
    /// whole; in a section both have, each field `other` sets replaces this
    /// one's.
    pub fn merge(&mut self, other: RuntimeConfig)
        ensures
            *final(self) == merged_config(*old(self), other),
    {
        let RuntimeConfig { general, algorithm, memory } = other;
        match general {
            Some(g) => {
                let cur = self.general.take();
                self.general = match cur {
                    Some(b) => Some(merge_general(b, g)),
                    None => Some(g),
                };
            },
            None => {},
        }
        match algorithm {
            Some(a) => {
                let cur = self.algorithm.take();
                self.algorithm = match cur {
                    Some(b) => Some(merge_algorithm(b, a)),
                    None => Some(a),
                };
            },
            None => {},
        }
        match memory {
            Some(m) => {
                let cur = self.memory.take();
                self.memory = match cur {
                    Some(b) => Some(merge_memory(b, m)),
                    None => Some(m),
                };
            },
            None => {},
        }
    }

    /// Checks the configuration: the format is json or csv (any case), counts
    /// and lengths are positive, the algorithm name is not blank, the memory
    /// mode names a mode. Reports the first problem, sections in order.
    pub fn validate(&self) -> (r: Result<(), ConfigError>)
        ensures
            r is Ok <==> config_problem(*self) is None,
            r matches Err(e) ==> config_problem(*self) == Some(e@),
    {
        match &self.general {
            Some(g) => {
                let res = check_general(g);
                if res.is_err() {
                    return res;
                }
            },
            None => {},
        }
        match &self.algorithm {
            Some(a) => {
                let res = check_algorithm(a);
                if res.is_err() {
                    return res;
                }
            },
            None => {},
        }
        match &self.memory {
            Some(m) => check_memory(m),
            None => Ok(()),
        }
    }
}

/// A count written in decimal, surrounding white space ignored.
pub fn parse_usize(val: &str) -> (r: Option<usize>)
    ensures
        r == usize_parse_of(trim_of(val@)),
{
    parse_usize_text(trim_str(val))
}

/// A byte count written in decimal, surrounding white space ignored.
pub fn parse_u64(val: &str) -> (r: Option<u64>)
    ensures
        r == u64_parse_of(trim_of(val@)),
{
    parse_u64_text(trim_str(val))
}

/// The boolean a word stands for: 1/true/yes/on or 0/false/no/off, in any
/// case, surrounding white space ignored.
pub open spec fn bool_word(lowered: Seq<char>) -> Option<bool> {
    if lowered == "1"@ || lowered == "true"@ || lowered == "yes"@ || lowered == "on"@ {
        Some(true)
    } else if lowered == "0"@ || lowered == "false"@ || lowered == "no"@ || lowered == "off"@ {
        Some(false)
    } else {
        None
    }
}

/// A boolean written as a word; see `bool_word`.
pub fn parse_bool(val: &str) -> (r: Option<bool>)
    ensures
        r == bool_word(lower_of(trim_of(val@))),
{
    let lowered = to_lower(trim_str(val));
    bool_from_word(lowered.as_str())
}

/// The boolean an already trimmed, lower-cased word stands for.
pub fn bool_from_word(w: &str) -> (r: Option<bool>)
    ensures
        r == bool_word(w@),
{
    if str_eq(w, "1") || str_eq(w, "true") || str_eq(w, "yes") || str_eq(w, "on") {
        Some(true)
    } else if str_eq(w, "0") || str_eq(w, "false") || str_eq(w, "no") || str_eq(w, "off") {
        Some(false)
    } else {
        None
    }
}

/// The pieces of `s` between commas, in order (an empty string has one
/// empty piece).
pub open spec fn comma_pieces(s: Seq<char>) -> Seq<Seq<char>>
    decreases s.len(),
{
    if s.len() == 0 {
        seq![Seq::empty()]
    } else {
        let rest = comma_pieces(s.drop_last());
        if s.last() == ',' {
            rest.push(Seq::empty())
        } else {
            rest.update(rest.len() - 1, rest.last().push(s.last()))
        }
    }
}

/// The first `n` pieces, trimmed, without the empty ones.
pub open spec fn kept_pieces(pieces: Seq<Seq<char>>, n: nat) -> Seq<Seq<char>>
    decreases n,
{
    if n == 0 {
        Seq::empty()
    } else {
        let rest = kept_pieces(pieces, (n - 1) as nat);
        let t = trim_of(pieces[n - 1]);
        if t.len() == 0 {
            rest
        } else {
            rest.push(t)
        }
    }
}

/// A comma-separated list: each item trimmed, empty items dropped.
pub open spec fn list_items(s: Seq<char>) -> Seq<Seq<char>> {
    kept_pieces(comma_pieces(s), comma_pieces(s).len())
}

proof fn lemma_comma_pieces_nonempty(s: Seq<char>)
    ensures
        comma_pieces(s).len() >= 1,
    decreases s.len(),
{
    if s.len() > 0 {
        lemma_comma_pieces_nonempty(s.drop_last());
    }
}

/// Splits a comma-separated list into its pieces.
fn split_commas(s: &str) -> (r: Vec<String>)
    ensures
        r@.len() == comma_pieces(s@).len(),
        forall|i: int| 0 <= i < r@.len() ==> #[trigger] r@[i]@ == comma_pieces(s@)[i],
{
    let n = s.unicode_len();
    let mut pieces: Vec<String> = Vec::new();
    let mut start: usize = 0;
    let mut i: usize = 0;
    while i < n
        invariant
            n == s@.len(),
            start <= i <= n,
            pieces@.len() + 1 == comma_pieces(s@.take(i as int)).len(),
            forall|k: int| 0 <= k < pieces@.len() ==> #[trigger] pieces@[k]@ == comma_pieces(
                s@.take(i as int),
            )[k],
            s@.subrange(start as int, i as int) == comma_pieces(s@.take(i as int)).last(),
        decreases n - i,
    {
        let c = s.get_char(i);
        proof {
            assert(s@.take(i + 1).drop_last() =~= s@.take(i as int));
            assert(s@.take(i + 1).last() == c);
            lemma_comma_pieces_nonempty(s@.take(i as int));
        }
        if c == ',' {
            pieces.push(s.substring_char(start, i).to_owned());
            start = i + 1;
            assert(s@.subrange(start as int, (i + 1) as int) =~= Seq::<char>::empty());
        } else {
            assert(s@.subrange(start as int, (i + 1) as int) =~= s@.subrange(start as int, i as int).push(c));
        }
        i = i + 1;
    }
    pieces.push(s.substring_char(start, n).to_owned());
    proof {
        assert(s@.take(n as int) =~= s@);
    }
    pieces
}

/// A comma-separated list: each item trimmed, empty items dropped.
pub fn parse_list(val: &str) -> (r: Vec<String>)
    ensures
        r@.len() == list_items(val@).len(),
        forall|i: int| 0 <= i < r@.len() ==> #[trigger] r@[i]@ == list_items(val@)[i],
{
    let pieces = split_commas(val);
    let ghost ps = comma_pieces(val@);
    let mut out: Vec<String> = Vec::new();
    let mut i: usize = 0;
    while i < pieces.len()
        invariant
            i <= pieces@.len(),
            pieces@.len() == ps.len(),
            ps == comma_pieces(val@),
            forall|k: int| 0 <= k < pieces@.len() ==> #[trigger] pieces@[k]@ == ps[k],
            out@.len() == kept_pieces(ps, i as nat).len(),
            forall|k: int| 0 <= k < out@.len() ==> #[trigger] out@[k]@ == kept_pieces(ps, i as nat)[k],
        decreases pieces@.len() - i,
    {
        let t = trim_str(pieces[i].as_str());
        if !t.is_empty() {
            out.push(t.to_owned());
        }
        proof {
            let prev = kept_pieces(ps, i as nat);
            let next = kept_pieces(ps, (i + 1) as nat);
            assert(ps[i as int] == pieces@[i as int]@);
            if t@.len() != 0 {
                assert(next == prev.push(t@));
                assert forall|k: int| 0 <= k < out@.len() implies #[trigger] out@[k]@ == next[k] by {
                    if k < prev.len() {
                        assert(out@[k]@ == prev[k]);
                    }
                }
            }
        }
        i = i + 1;
    }
    out
}

/// Values of the configuration's environment variables, `None` where a
/// variable is unset.
#[derive(Debug, Clone, Default)]
pub struct EnvOverrides {
    pub path: Option<String>,
    pub output: Option<String>,
    pub format: Option<String>,
    pub threads: Option<String>,
    pub depth: Option<String>,
    pub strip_prefix: Option<String>,
    pub exclude: Option<String>,
    pub follow_symlinks: Option<String>,
    pub progress: Option<String>,
    pub dry_run: Option<String>,
    pub algorithm: Option<String>,
    pub xof_length: Option<String>,
    pub memory_mode: Option<String>,
    pub max_ram: Option<String>,
}

/// The value a variable sets, when it is set and parses.
pub open spec fn parsed_or_keep<T>(keep: Option<T>, parsed: Option<T>) -> Option<T> {
    if parsed is Some {
        parsed
    } else {
        keep
    }
}

/// Whether any general-section variable takes effect.
pub open spec fn touches_general(e: EnvOverrides) -> bool {
    e.path is Some || e.output is Some || e.format is Some || (e.threads matches Some(t)
        && usize_parse_of(trim_of(t@)) is Some) || (e.depth matches Some(d) && usize_parse_of(
        trim_of(d@),
    ) is Some) || e.strip_prefix is Some || (e.exclude matches Some(x) && list_items(x@).len() > 0)
        || (e.follow_symlinks matches Some(f) && bool_word(lower_of(trim_of(f@))) is Some) || (
    e.progress matches Some(p) && bool_word(lower_of(trim_of(p@))) is Some) || (
    e.dry_run matches Some(d) && bool_word(lower_of(trim_of(d@))) is Some)
}

/// The parsed value of an optional variable.
pub open spec fn env_usize(v: Option<String>) -> Option<usize> {
    match v {
        Some(s) => usize_parse_of(trim_of(s@)),
        None => None,
    }
}

/// The parsed value of an optional boolean variable.
pub open spec fn env_bool(v: Option<String>) -> Option<bool> {
    match v {
        Some(s) => bool_word(lower_of(trim_of(s@))),
        None => None,
    }
}

/// Whether a text field became the variable's value (or stayed when unset).
pub open spec fn text_set(after: Option<String>, before: Option<String>, var: Option<String>) -> bool {
    match var {
        Some(v) => after matches Some(a) && a@ == v@,
        None => after == before,
    }
}

/// The general section's fields after the variables are applied, given the
/// section before (the default section when there was none).
pub open spec fn general_applied(after: GeneralConfig, before: GeneralConfig, e: EnvOverrides) -> bool {
    &&& text_set(after.path, before.path, e.path)
    &&& text_set(after.output, before.output, e.output)
    &&& text_set(after.format, before.format, e.format)
    &&& after.threads == parsed_or_keep(before.threads, env_usize(e.threads))
    &&& after.depth == parsed_or_keep(before.depth, env_usize(e.depth))
    &&& text_set(after.strip_prefix, before.strip_prefix, e.strip_prefix)
    &&& match e.exclude {
        Some(x) => if list_items(x@).len() > 0 {
            after.exclude matches Some(v) && v@.len() == list_items(x@).len() && forall|i: int|
                0 <= i < v@.len() ==> #[trigger] v@[i]@ == list_items(x@)[i]
        } else {
            after.exclude == before.exclude
        },
        None => after.exclude == before.exclude,
    }
    &&& after.follow_symlinks == parsed_or_keep(before.follow_symlinks, env_bool(e.follow_symlinks))
    &&& after.progress == parsed_or_keep(before.progress, env_bool(e.progress))
    &&& after.dry_run == parsed_or_keep(before.dry_run, env_bool(e.dry_run))
}

/// An empty general section.
pub open spec fn empty_general() -> GeneralConfig {
    GeneralConfig {
        path: None,
        output: None,
        format: None,
        threads: None,
        strip_prefix: None,
        depth: None,
        exclude: None,
        follow_symlinks: None,
        progress: None,
        dry_run: None,
    }
}

fn new_general() -> (r: GeneralConfig)
    ensures
        r == empty_general(),
{
    GeneralConfig {
        path: None,
        output: None,
        format: None,
        threads: None,
        strip_prefix: None,
        depth: None,
        exclude: None,
        follow_symlinks: None,
        progress: None,
        dry_run: None,
    }
}

fn apply_text(field: Option<String>, var: &Option<String>) -> (r: Option<String>)
    ensures
        text_set(r, field, *var),
{
    match var {
        Some(s) => Some(s.as_str().to_owned()),
        None => field,
    }
}

fn apply_general(g: GeneralConfig, e: &EnvOverrides) -> (r: GeneralConfig)
    ensures
        general_applied(r, g, *e),
{
    let mut r = g;
    r.path = apply_text(r.path, &e.path);
    r.output = apply_text(r.output, &e.output);
    r.format = apply_text(r.format, &e.format);
    match &e.threads {
        Some(s) => match parse_usize(s.as_str()) {
            Some(t) => r.threads = Some(t),
            None => {},
        },
        None => {},
    }
    match &e.depth {
        Some(s) => match parse_usize(s.as_str()) {
            Some(d) => r.depth = Some(d),
            None => {},
        },
        None => {},
    }
    r.strip_prefix = apply_text(r.strip_prefix, &e.strip_prefix);
    match &e.exclude {
        Some(s) => {
            let patterns = parse_list(s.as_str());
            if patterns.len() > 0 {
                r.exclude = Some(patterns);
            }
        },
        None => {},
    }
    match &e.follow_symlinks {
        Some(s) => match parse_bool(s.as_str()) {
            Some(b) => r.follow_symlinks = Some(b),
            None => {},
        },
        None => {},
    }
    match &e.progress {
        Some(s) => match parse_bool(s.as_str()) {
            Some(b) => r.progress = Some(b),
            None => {},
        },
        None => {},
    }
    match &e.dry_run {
        Some(s) => match parse_bool(s.as_str()) {
            Some(b) => r.dry_run = Some(b),
            None => {},
        },
        None => {},
    }
    r
}

/// Applies environment variables to a configuration: each set variable
/// replaces its field (counts, lengths, booleans and lists only when they
/// parse, lists only when non-empty), creating a missing section first.
pub fn apply_env_overrides(cfg: &mut RuntimeConfig, e: &EnvOverrides)
    ensures
        touches_general(*e) ==> (final(cfg).general matches Some(g) && general_applied(
            g,
            match old(cfg).general {
                Some(b) => b,
                None => empty_general(),
            },
            *e,
        )),
        !touches_general(*e) ==> final(cfg).general == old(cfg).general,
        (e.algorithm is Some || env_usize(e.xof_length) is Some) ==> (final(cfg).algorithm matches Some(
            a,
        ) && text_set(
            a.name,
            match old(cfg).algorithm {
                Some(b) => b.name,
                None => None,
            },
            e.algorithm,
        ) && a.xof_length == parsed_or_keep(
            match old(cfg).algorithm {
                Some(b) => b.xof_length,
                None => None,
            },
            env_usize(e.xof_length),
        )),
        !(e.algorithm is Some || env_usize(e.xof_length) is Some) ==> final(cfg).algorithm == old(
            cfg,
        ).algorithm,
        (e.memory_mode is Some || (match e.max_ram {
            Some(s) => u64_parse_of(trim_of(s@)) is Some,
            None => false,
        })) ==> (final(cfg).memory matches Some(m) && text_set(
            m.mode,
            match old(cfg).memory {
                Some(b) => b.mode,
                None => None,
            },
            e.memory_mode,
        ) && m.max_ram == parsed_or_keep(
            match old(cfg).memory {
                Some(b) => b.max_ram,
                None => None,
            },
            match e.max_ram {
                Some(s) => u64_parse_of(trim_of(s@)),
                None => None,
            },
        )),
        !(e.memory_mode is Some || (match e.max_ram {
            Some(s) => u64_parse_of(trim_of(s@)) is Some,
            None => false,
        })) ==> final(cfg).memory == old(cfg).memory,
{
    let threads = match &e.threads {
        Some(s) => parse_usize(s.as_str()),
        None => None,
    };
    let depth = match &e.depth {
        Some(s) => parse_usize(s.as_str()),
        None => None,
    };
    let exclude_nonempty = match &e.exclude {
        Some(s) => parse_list(s.as_str()).len() > 0,
        None => false,
    };
    let follow = match &e.follow_symlinks {
        Some(s) => parse_bool(s.as_str()),
        None => None,
    };
    let progress = match &e.progress {
        Some(s) => parse_bool(s.as_str()),
        None => None,
    };
    let dry = match &e.dry_run {
        Some(s) => parse_bool(s.as_str()),
        None => None,
    };
    if e.path.is_some() || e.output.is_some() || e.format.is_some() || threads.is_some()
        || depth.is_some() || e.strip_prefix.is_some() || exclude_nonempty || follow.is_some()
        || progress.is_some() || dry.is_some() {
        let base = match cfg.general.take() {
            Some(g) => g,
            None => new_general(),
        };
        cfg.general = Some(apply_general(base, e));
    }
    let xof = match &e.xof_length {
        Some(s) => parse_usize(s.as_str()),
        None => None,
    };
    if e.algorithm.is_some() || xof.is_some() {
        let base = match cfg.algorithm.take() {
            Some(a) => a,
            None => AlgorithmConfig { name: None, xof_length: None },
        };
        cfg.algorithm = Some(
            AlgorithmConfig {
                name: apply_text(base.name, &e.algorithm),
                xof_length: if xof.is_some() {
                    xof
                } else {
                    base.xof_length
                },
            },
        );
    }
    let max_ram = match &e.max_ram {
        Some(s) => parse_u64(s.as_str()),
        None => None,
    };
    if e.memory_mode.is_some() || max_ram.is_some() {
        let base = match cfg.memory.take() {
            Some(m) => m,
            None => MemoryConfig { mode: None, max_ram: None },
        };
        cfg.memory = Some(
            MemoryConfig {
                mode: apply_text(base.mode, &e.memory_mode),
                max_ram: if max_ram.is_some() {
                    max_ram
                } else {
                    base.max_ram
                },
            },
        );
    }
}

} // verus!

//! The configuration of the remapper: its dual-role mappings, and the text
//! in which they are declared.
//!
//! A configuration is read line by line. Empty lines and lines that start
//! with `#` say nothing. Every other line is `key=value`. A mapping is
//! declared by `remap_key`, followed in any order by `when_alone` and
//! `with_other`, each naming a key; other settings are passed over.

use crate::keys::find_key_in_range;
use crate::keys::first_named;
use crate::keys::KeyDef;
use crate::text::chars_of;
use crate::text::decimal;
use crate::text::find_char;
use crate::text::index_of;
use crate::text::matches_range;
use crate::text::to_decimal;
use crate::text::trim;
use crate::text::trim_range;
use vstd::prelude::*;
use vstd::string::StrSliceExecFns;
use vstd::string::StringExecFns;

verus! {

/// One dual-role mapping: the key that is remapped, the key it stands for
/// when released alone, and the key it stands for while other input arrives.
#[derive(Debug, Clone, PartialEq, Eq)]
pub struct RemapConfig {
    pub from: KeyDef,
    pub to_when_alone: KeyDef,
    pub to_with_other: KeyDef,
}

/// The mappings of a configuration, in the order in which they were declared.
#[derive(Debug)]
pub struct Config {
    pub remaps: Vec<RemapConfig>,
}

impl Default for Config {
    /// The configuration without mappings.
    fn default() -> (config: Self)
        ensures
            config.remaps@ == Seq::<RemapConfig>::empty(),
    {
        Self { remaps: Vec::new() }
    }
}

/// No two mappings remap the same key.
pub open spec fn distinct_sources(remaps: Seq<RemapConfig>) -> bool {
    forall|i: int, j: int|
        0 <= i < j < remaps.len() ==> remaps[i].from.virt_code != remaps[j].from.virt_code
}

/// Some mapping of `remaps` remaps the key with this virtual code.
pub open spec fn has_source(remaps: Seq<RemapConfig>, virt_code: u32) -> bool {
    exists|i: int| 0 <= i < remaps.len() && remaps[i].from.virt_code == virt_code
}

/// Whether some mapping of `remaps` remaps the key with this virtual code.
pub fn remaps_key(remaps: &Vec<RemapConfig>, virt_code: u32) -> (found: bool)
    ensures
        found == has_source(remaps@, virt_code),
{
    let mut i: usize = 0;
    while i < remaps.len()
        invariant
            i <= remaps.len(),
            forall|j: int| 0 <= j < i ==> remaps@[j].from.virt_code != virt_code,
        decreases remaps.len() - i,
    {
        if remaps[i].from.virt_code == virt_code {
            return true;
        }
        i += 1;
    }
    false
}

/// Whether no two mappings of `remaps` remap the same key.
pub fn sources_are_distinct(remaps: &Vec<RemapConfig>) -> (distinct: bool)
    ensures
        distinct == distinct_sources(remaps@),
{
    let mut j: usize = 0;
    while j < remaps.len()
        invariant
            j <= remaps.len(),
            distinct_sources(remaps@.take(j as int)),
        decreases remaps.len() - j,
    {
        let mut i: usize = 0;
        while i < j
            invariant
                i <= j < remaps.len(),
                forall|k: int| 0 <= k < i ==> remaps@[k].from.virt_code != remaps@[j as int].from.virt_code,
            decreases j - i,
        {
            if remaps[i].from.virt_code == remaps[j].from.virt_code {
                return false;
            }
            i += 1;
        }
        assert(distinct_sources(remaps@.take(j + 1))) by {
            let now = remaps@.take(j + 1);
            let before = remaps@.take(j as int);
            assert forall|a: int, b: int| 0 <= a < b < now.len() implies now[a].from.virt_code
                != now[b].from.virt_code by {
                if b < j {
                    assert(before[a] == now[a] && before[b] == now[b]);
                }
            }
        }
        j += 1;
    }
    assert(remaps@.take(remaps@.len() as int) =~= remaps@);
    true
}

/// Why a configuration text was refused.
#[derive(Debug, Clone, PartialEq, Eq)]
pub enum ConfigError {
    /// A line that is neither empty nor a comment holds no `=`.
    ExpectedKeyValue { line: usize },
    /// A mapping is declared while the one before it lacks a target.
    IncompleteRemap { line: usize },
    /// A line names a key that is not known.
    InvalidKeyName { line: usize, name: String },
    /// `when_alone` stands where no mapping is being declared.
    WhenAloneWithoutRemapKey { line: usize },
    /// `with_other` stands where no mapping is being declared.
    WithOtherWithoutRemapKey { line: usize },
    /// A mapping is declared for a key that an earlier mapping remaps, in
    /// a text that is otherwise in order.
    DuplicateRemapKey { line: usize, name: String },
    /// The text ends while a mapping lacks a target.
    IncompleteAtEnd,
    /// A mapping was to be built without its alone target.
    MissingWhenAlone,
    /// A mapping was to be built without its other-input target.
    MissingWithOther,
}

/// A `ConfigError` with its texts as sequences of characters.
pub enum ConfigErrorView {
    ExpectedKeyValue { line: usize },
    IncompleteRemap { line: usize },
    InvalidKeyName { line: usize, name: Seq<char> },
    WhenAloneWithoutRemapKey { line: usize },
    WithOtherWithoutRemapKey { line: usize },
    DuplicateRemapKey { line: usize, name: Seq<char> },
    IncompleteAtEnd,
    MissingWhenAlone,
    MissingWithOther,
}

impl View for ConfigError {
    type V = ConfigErrorView;

    open spec fn view(&self) -> ConfigErrorView {
        match *self {
            ConfigError::ExpectedKeyValue { line } => ConfigErrorView::ExpectedKeyValue { line },
            ConfigError::IncompleteRemap { line } => ConfigErrorView::IncompleteRemap { line },
            ConfigError::InvalidKeyName { line, name } => ConfigErrorView::InvalidKeyName {
                line,
                name: name@,
            },
            ConfigError::WhenAloneWithoutRemapKey { line } => {
                ConfigErrorView::WhenAloneWithoutRemapKey { line }
            },
            ConfigError::WithOtherWithoutRemapKey { line } => {
                ConfigErrorView::WithOtherWithoutRemapKey { line }
            },
            ConfigError::DuplicateRemapKey { line, name } => ConfigErrorView::DuplicateRemapKey {
                line,
                name: name@,
            },
            ConfigError::IncompleteAtEnd => ConfigErrorView::IncompleteAtEnd,
            ConfigError::MissingWhenAlone => ConfigErrorView::MissingWhenAlone,
            ConfigError::MissingWithOther => ConfigErrorView::MissingWithOther,
        }
    }
}

/// The start of the message of an error at a line.
pub open spec fn at_line(line: usize) -> Seq<char> {
    "Config error (line "@ + decimal(line as nat) + "): "@
}

/// The message of an error.
pub open spec fn message_of(error: ConfigErrorView) -> Seq<char> {
    match error {
        ConfigErrorView::ExpectedKeyValue { line } => at_line(line) + "expected key=value"@,
        ConfigErrorView::IncompleteRemap { line } => at_line(line)
            + "Incomplete remapping. Each remap needs remap_key, when_alone and with_other before another remap_key."@,
        ConfigErrorView::InvalidKeyName { line, name } => at_line(line) + "invalid key name '"@
            + name + "'"@,
        ConfigErrorView::WhenAloneWithoutRemapKey { line } => at_line(line)
            + "when_alone must come after remap_key"@,
        ConfigErrorView::WithOtherWithoutRemapKey { line } => at_line(line)
            + "with_other must come after remap_key"@,
        ConfigErrorView::DuplicateRemapKey { line, name } => at_line(line) + "key '"@ + name
            + "' is remapped more than once"@,
        ConfigErrorView::IncompleteAtEnd => "Config error: Incomplete remapping at end of file"@,
        ConfigErrorView::MissingWhenAlone => "Missing when_alone"@,
        ConfigErrorView::MissingWithOther => "Missing with_other"@,
    }
}

/// Writes the start of the message of an error at a line.
fn message_at_line(line: usize) -> (s: String)
    ensures
        s@ == at_line(line),
{
    let mut s = String::from_str("Config error (line ");
    let digits = to_decimal(line);
    s.append(digits.as_str());
    s.append("): ");
    s
}

impl ConfigError {
    /// The error in words.
    pub fn message(&self) -> (s: String)
        ensures
            s@ == message_of(self@),
    {
        match self {
            ConfigError::ExpectedKeyValue { line } => {
                let mut s = message_at_line(*line);
                s.append("expected key=value");
                s
            },
            ConfigError::IncompleteRemap { line } => {
                let mut s = message_at_line(*line);
                s.append(
                    "Incomplete remapping. Each remap needs remap_key, when_alone and with_other before another remap_key.",
                );
                s
            },
            ConfigError::InvalidKeyName { line, name } => {
                let mut s = message_at_line(*line);
                s.append("invalid key name '");
                s.append(name.as_str());
                s.append("'");
                s
            },
            ConfigError::WhenAloneWithoutRemapKey { line } => {
                let mut s = message_at_line(*line);
                s.append("when_alone must come after remap_key");
                s
            },
            ConfigError::WithOtherWithoutRemapKey { line } => {
                let mut s = message_at_line(*line);
                s.append("with_other must come after remap_key");
                s
            },
            ConfigError::DuplicateRemapKey { line, name } => {
                let mut s = message_at_line(*line);
                s.append("key '");
                s.append(name.as_str());
                s.append("' is remapped more than once");
                s
            },
            ConfigError::IncompleteAtEnd => String::from_str(
                "Config error: Incomplete remapping at end of file",
            ),
            ConfigError::MissingWhenAlone => String::from_str("Missing when_alone"),
            ConfigError::MissingWithOther => String::from_str("Missing with_other"),
        }
    }
}

/// A mapping while it is being declared.
#[derive(Debug, Clone, Copy)]
pub struct RemapConfigBuilder {
    pub from: KeyDef,
    pub when_alone: Option<KeyDef>,
    pub with_other: Option<KeyDef>,
}

impl RemapConfigBuilder {
    /// Starts the declaration of a mapping of `from`.
    pub fn new(from: KeyDef) -> (builder: Self)
        ensures
            builder == Self::declared(from),
    {
        Self { from, when_alone: None, with_other: None }
    }

    /// The mapping of `from` with no target named yet.
    pub open spec fn declared(from: KeyDef) -> Self {
        Self { from, when_alone: None, with_other: None }
    }

    /// Both targets are named.
    pub open spec fn complete(self) -> bool {
        self.when_alone is Some && self.with_other is Some
    }

    /// The mapping that a complete declaration stands for.
    pub open spec fn built(self) -> RemapConfig {
        RemapConfig {
            from: self.from,
            to_when_alone: self.when_alone->0,
            to_with_other: self.with_other->0,
        }
    }

    /// Whether both targets are named.
    pub fn is_complete(&self) -> (complete: bool)
        ensures
            complete == self.complete(),
    {
        self.when_alone.is_some() && self.with_other.is_some()
    }

    /// The mapping that was declared, or which target it lacks: the alone
    /// target is missed first.
    pub fn build(self) -> (result: Result<RemapConfig, ConfigError>)
        ensures
            result is Ok <==> self.complete(),
            result matches Ok(config) ==> config == self.built(),
            result matches Err(e) ==> e@ == if self.when_alone is None {
                ConfigErrorView::MissingWhenAlone
            } else {
                ConfigErrorView::MissingWithOther
            },
    {
        let to_when_alone = match self.when_alone {
            Some(key) => key,
            None => {
                return Err(ConfigError::MissingWhenAlone);
            },
        };
        let to_with_other = match self.with_other {
            Some(key) => key,
            None => {
                return Err(ConfigError::MissingWithOther);
            },
        };
        Ok(RemapConfig { from: self.from, to_when_alone, to_with_other })
    }
}

/// How far the reading of a configuration has come: the mappings that are
/// complete, the one that is being declared, and the first declaration of a
/// mapping for a key that an earlier mapping remaps, by its line and the
/// name it gives.
pub struct ParseState {
    pub remaps: Seq<RemapConfig>,
    pub current: Option<RemapConfigBuilder>,
    pub repeated: Option<(usize, Seq<char>)>,
}

impl ParseState {
    /// The state before the first line.
    pub open spec fn start() -> ParseState {
        ParseState { remaps: Seq::empty(), current: None, repeated: None }
    }

    /// Unless a key was seen to be remapped twice, no two of the mappings
    /// remap the same key, the one that is being declared included.
    pub open spec fn sound(self) -> bool {
        self.repeated is None ==> {
            &&& distinct_sources(self.remaps)
            &&& self.current matches Some(builder) ==> !has_source(
                self.remaps,
                builder.from.virt_code,
            )
        }
    }
}

/// The state after a target was named: a mapping that is complete with it
/// joins the others.
pub open spec fn settled(state: ParseState, builder: RemapConfigBuilder) -> ParseState {
    if builder.complete() {
        ParseState {
            remaps: state.remaps.push(builder.built()),
            current: None,
            repeated: state.repeated,
        }
    } else {
        ParseState { remaps: state.remaps, current: Some(builder), repeated: state.repeated }
    }
}

/// The state after a mapping of `from` was declared at `line` under the
/// name `name`. Where an earlier mapping remaps that key, and no such
/// declaration was seen before, this one is remembered.
pub open spec fn declared(state: ParseState, line: usize, name: Seq<char>, from: KeyDef) -> ParseState {
    ParseState {
        remaps: state.remaps,
        current: Some(RemapConfigBuilder::declared(from)),
        repeated: if state.repeated is None && has_source(state.remaps, from.virt_code) {
            Some((line, name))
        } else {
            state.repeated
        },
    }
}

/// What the line `key=value` does, both already trimmed. A mapping of a key
/// that is remapped already is read like any other: the text is refused
/// for it at its end, if nothing else is wrong with it.
pub open spec fn parse_setting(
    keys: Seq<KeyDef>,
    state: ParseState,
    line: usize,
    key: Seq<char>,
    value: Seq<char>,
) -> Result<ParseState, ConfigErrorView> {
    if key == "remap_key"@ {
        if state.current is Some {
            Err(ConfigErrorView::IncompleteRemap { line })
        } else {
            match first_named(keys, value) {
                None => Err(ConfigErrorView::InvalidKeyName { line, name: value }),
                Some(from) => Ok(declared(state, line, value, from)),
            }
        }
    } else if key == "when_alone"@ {
        match first_named(keys, value) {
            None => Err(ConfigErrorView::InvalidKeyName { line, name: value }),
            Some(target) => match state.current {
                None => Err(ConfigErrorView::WhenAloneWithoutRemapKey { line }),
                Some(builder) => Ok(
                    settled(
                        state,
                        RemapConfigBuilder {
                            from: builder.from,
                            when_alone: Some(target),
                            with_other: builder.with_other,
                        },
                    ),
                ),
            },
        }
    } else if key == "with_other"@ {
        match first_named(keys, value) {
            None => Err(ConfigErrorView::InvalidKeyName { line, name: value }),
            Some(target) => match state.current {
                None => Err(ConfigErrorView::WithOtherWithoutRemapKey { line }),
                Some(builder) => Ok(
                    settled(
                        state,
                        RemapConfigBuilder {
                            from: builder.from,
                            when_alone: builder.when_alone,
                            with_other: Some(target),
                        },
                    ),
                ),
            },
        }
    } else {
        Ok(state)
    }
}

/// What one line of the text does.
pub open spec fn parse_line(keys: Seq<KeyDef>, state: ParseState, line: usize, raw: Seq<char>) -> Result<
    ParseState,
    ConfigErrorView,
> {
    let text = trim(raw);
    if text.len() == 0 || text[0] == '#' {
        Ok(state)
    } else {
        let eq = index_of(text, '=') as int;
        if eq == text.len() {
            Err(ConfigErrorView::ExpectedKeyValue { line })
        } else {
            parse_setting(keys, state, line, trim(text.take(eq)), trim(text.skip(eq + 1)))
        }
    }
}

/// What the end of the text does: a mapping that is still being declared
/// lacks a target; else the text is refused where a key was remapped twice.
pub open spec fn parse_end(state: ParseState) -> Result<Seq<RemapConfig>, ConfigErrorView> {
    if state.current is Some {
        Err(ConfigErrorView::IncompleteAtEnd)
    } else {
        match state.repeated {
            Some((line, name)) => Err(ConfigErrorView::DuplicateRemapKey { line, name }),
            None => Ok(state.remaps),
        }
    }
}

/// What the rest of the text does, where `done` lines came before it. A
/// line ends with a line feed or with the text.
pub open spec fn parse_rest(keys: Seq<KeyDef>, state: ParseState, done: nat, rest: Seq<char>) -> Result<
    Seq<RemapConfig>,
    ConfigErrorView,
>
    decreases rest.len(),
{
    if rest.len() == 0 {
        parse_end(state)
    } else {
        let end = index_of(rest, '\n') as int;
        match parse_line(keys, state, (done + 1) as usize, rest.take(end)) {
            Err(e) => Err(e),
            Ok(next) => parse_rest(
                keys,
                next,
                done + 1,
                if end < rest.len() {
                    rest.skip(end + 1)
                } else {
                    Seq::empty()
                },
            ),
        }
    }
}

/// The mappings that a configuration text declares, or why it is refused.
/// Keys are named as in `keys`.
pub open spec fn parsed(keys: Seq<KeyDef>, text: Seq<char>) -> Result<
    Seq<RemapConfig>,
    ConfigErrorView,
> {
    parse_rest(keys, ParseState::start(), 0, text)
}

/// A key that is remapped twice is the last thing a text is refused for:
/// whatever else a text is refused for, it is refused for that whether or
/// not such a key was seen before.
pub proof fn lemma_repeated_key_is_reported_last(
    keys: Seq<KeyDef>,
    state: ParseState,
    repeated: Option<(usize, Seq<char>)>,
    done: nat,
    rest: Seq<char>,
)
    ensures
        ({
            let result = parse_rest(keys, state, done, rest);
            let other = parse_rest(
                keys,
                ParseState { remaps: state.remaps, current: state.current, repeated },
                done,
                rest,
            );
            result matches Err(e) && !(e is DuplicateRemapKey) ==> other == result
        }),
    decreases rest.len(),
{
    let changed = ParseState { remaps: state.remaps, current: state.current, repeated };
    if rest.len() > 0 {
        let end = index_of(rest, '\n') as int;
        let line = (done + 1) as usize;
        let first = parse_line(keys, state, line, rest.take(end));
        let second = parse_line(keys, changed, line, rest.take(end));
        let after = if end < rest.len() {
            rest.skip(end + 1)
        } else {
            Seq::empty()
        };
        match first {
            Ok(next) => {
                assert(second is Ok);
                let next_changed = second->Ok_0;
                assert(next_changed.remaps == next.remaps);
                assert(next_changed.current == next.current);
                lemma_repeated_key_is_reported_last(keys, next, next_changed.repeated, done + 1, after);
            },
            Err(e) => {
                assert(second == first);
            },
        }
    }
}

/// The state that the reader holds in its variables.
spec fn state_of(
    remaps: Seq<RemapConfig>,
    current: Option<RemapConfigBuilder>,
    repeated: Option<(usize, String)>,
) -> ParseState {
    ParseState {
        remaps,
        current,
        repeated: match repeated {
            Some((line, name)) => Some((line, name@)),
            None => None,
        },
    }
}

/// Does what the line `key=value` asks for, the key being the characters
/// `key_lo..key_hi` of `text` and the value the characters
/// `value_lo..value_hi`.
fn apply_setting(
    keys: &Vec<KeyDef>,
    content: &str,
    text: &Vec<char>,
    line: usize,
    key_lo: usize,
    key_hi: usize,
    value_lo: usize,
    value_hi: usize,
    remaps: &mut Vec<RemapConfig>,
    current: &mut Option<RemapConfigBuilder>,
    repeated: &mut Option<(usize, String)>,
) -> (result: Result<(), ConfigError>)
    requires
        content@ == text@,
        key_lo <= key_hi <= text.len(),
        value_lo <= value_hi <= text.len(),
        state_of(old(remaps)@, *old(current), *old(repeated)).sound(),
    ensures
        match result {
            Ok(_) => parse_setting(
                keys@,
                state_of(old(remaps)@, *old(current), *old(repeated)),
                line,
                text@.subrange(key_lo as int, key_hi as int),
                text@.subrange(value_lo as int, value_hi as int),
            ) == Ok::<ParseState, ConfigErrorView>(
                state_of(final(remaps)@, *final(current), *final(repeated)),
            ),
            Err(e) => parse_setting(
                keys@,
                state_of(old(remaps)@, *old(current), *old(repeated)),
                line,
                text@.subrange(key_lo as int, key_hi as int),
                text@.subrange(value_lo as int, value_hi as int),
            ) == Err::<ParseState, ConfigErrorView>(e@),
        },
        state_of(final(remaps)@, *final(current), *final(repeated)).sound(),
{
    let is_remap_key = matches_range("remap_key", text, key_lo, key_hi);
    let is_when_alone = matches_range("when_alone", text, key_lo, key_hi);
    let is_with_other = matches_range("with_other", text, key_lo, key_hi);
    if !is_remap_key && !is_when_alone && !is_with_other {
        return Ok(());
    }
    if is_remap_key && current.is_some() {
        return Err(ConfigError::IncompleteRemap { line });
    }
    let key_def = match find_key_in_range(keys, text, value_lo, value_hi) {
        Some(key_def) => key_def,
        None => {
            let name = String::from_str(content.substring_char(value_lo, value_hi));
            return Err(ConfigError::InvalidKeyName { line, name });
        },
    };
    if is_remap_key {
        if repeated.is_none() && remaps_key(remaps, key_def.virt_code) {
            let name = String::from_str(content.substring_char(value_lo, value_hi));
            *repeated = Some((line, name));
        }
        *current = Some(RemapConfigBuilder::new(key_def));
        return Ok(());
    }
    let builder = match *current {
        Some(builder) => builder,
        None => {
            if is_when_alone {
                return Err(ConfigError::WhenAloneWithoutRemapKey { line });
            } else {
                return Err(ConfigError::WithOtherWithoutRemapKey { line });
            }
        },
    };
    let builder = if is_when_alone {
        RemapConfigBuilder {
            from: builder.from,
            when_alone: Some(key_def),
            with_other: builder.with_other,
        }
    } else {
        RemapConfigBuilder {
            from: builder.from,
            when_alone: builder.when_alone,
            with_other: Some(key_def),
        }
    };
    if builder.is_complete() {
        match builder.build() {
            Ok(config) => {
                remaps.push(config);
                *current = None;
                assert(state_of(remaps@, *current, *repeated).sound()) by {
                    if *repeated is None {
                        assert forall|i: int, j: int| 0 <= i < j < remaps@.len() implies remaps@[i].from.virt_code
                            != remaps@[j].from.virt_code by {
                            assert(old(remaps)@[i] == remaps@[i]);
                            if j < old(remaps)@.len() {
                                assert(old(remaps)@[j] == remaps@[j]);
                            }
                        }
                    }
                }
            },
            Err(e) => {
                return Err(e);
            },
        }
    } else {
        *current = Some(builder);
    }
    Ok(())
}

/// Does what the line that is the characters `lo..hi` of `text` asks for.
fn apply_line(
    keys: &Vec<KeyDef>,
    content: &str,
    text: &Vec<char>,
    line: usize,
    lo: usize,
    hi: usize,
    remaps: &mut Vec<RemapConfig>,
    current: &mut Option<RemapConfigBuilder>,
    repeated: &mut Option<(usize, String)>,
) -> (result: Result<(), ConfigError>)
    requires
        content@ == text@,
        lo <= hi <= text.len(),
        state_of(old(remaps)@, *old(current), *old(repeated)).sound(),
    ensures
        match result {
            Ok(_) => parse_line(
                keys@,
                state_of(old(remaps)@, *old(current), *old(repeated)),
                line,
                text@.subrange(lo as int, hi as int),
            ) == Ok::<ParseState, ConfigErrorView>(
                state_of(final(remaps)@, *final(current), *final(repeated)),
            ),
            Err(e) => parse_line(
                keys@,
                state_of(old(remaps)@, *old(current), *old(repeated)),
                line,
                text@.subrange(lo as int, hi as int),
            ) == Err::<ParseState, ConfigErrorView>(e@),
        },
        state_of(final(remaps)@, *final(current), *final(repeated)).sound(),
{
    let (start, end) = trim_range(text, lo, hi);
    if start == end || text[start] == '#' {
        return Ok(());
    }
    let eq = find_char(text, start, end, '=');
    if eq == end {
        return Err(ConfigError::ExpectedKeyValue { line });
    }
    let (key_lo, key_hi) = trim_range(text, start, eq);
    let (value_lo, value_hi) = trim_range(text, eq + 1, end);
    proof {
        let trimmed = text@.subrange(start as int, end as int);
        assert(trimmed.take(eq - start) =~= text@.subrange(start as int, eq as int));
        assert(trimmed.skip(eq - start + 1) =~= text@.subrange(eq + 1, end as int));
    }
    apply_setting(
        keys,
        content,
        text,
        line,
        key_lo,
        key_hi,
        value_lo,
        value_hi,
        remaps,
        current,
        repeated,
    )
}

/// Reads a configuration text. Keys are named as in `keys`. The text is
/// refused at the first line that is malformed, names an unknown key,
/// declares a target outside a mapping or declares a mapping while the one
/// before it lacks a target, and at its end where the last mapping lacks a
/// target. A text with none of these faults is refused where it remaps a
/// key a second time.
pub fn parse_config(content: &str, keys: &Vec<KeyDef>) -> (result: Result<Config, ConfigError>)
    ensures
        match result {
            Ok(config) => parsed(keys@, content@) == Ok::<Seq<RemapConfig>, ConfigErrorView>(
                config.remaps@,
            ) && distinct_sources(config.remaps@),
            Err(e) => parsed(keys@, content@) == Err::<Seq<RemapConfig>, ConfigErrorView>(e@),
        },
{
    let text = chars_of(content);
    let mut config = Config::default();
    let mut current: Option<RemapConfigBuilder> = None;
    let mut repeated: Option<(usize, String)> = None;
    let mut pos: usize = 0;
    let mut done: usize = 0;
    assert(text@.skip(0) =~= text@);
    while pos < text.len()
        invariant
            content@ == text@,
            done <= pos <= text.len(),
            state_of(config.remaps@, current, repeated).sound(),
            parsed(keys@, text@) == parse_rest(
                keys@,
                state_of(config.remaps@, current, repeated),
                done as nat,
                text@.skip(pos as int),
            ),
        decreases text.len() - pos,
    {
        let end = find_char(&text, pos, text.len(), '\n');
        proof {
            let rest = text@.skip(pos as int);
            assert(rest =~= text@.subrange(pos as int, text@.len() as int));
            assert(rest.take(end - pos) =~= text@.subrange(pos as int, end as int));
            if end < text.len() {
                assert(rest.skip(end - pos + 1) =~= text@.skip(end + 1));
            } else {
                assert(text@.skip(text@.len() as int) =~= Seq::<char>::empty());
            }
        }
        match apply_line(
            keys,
            content,
            &text,
            done + 1,
            pos,
            end,
            &mut config.remaps,
            &mut current,
            &mut repeated,
        ) {
            Ok(_) => {},
            Err(e) => {
                return Err(e);
            },
        }
        done += 1;
        pos = if end < text.len() {
            end + 1
        } else {
            end
        };
    }
    assert(text@.skip(text@.len() as int) =~= Seq::<char>::empty());
    if current.is_some() {
        return Err(ConfigError::IncompleteAtEnd);
    }
    match repeated {
        Some((line, name)) => Err(ConfigError::DuplicateRemapKey { line, name }),
        None => Ok(config),
    }
}

} // verus!

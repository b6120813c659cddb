use vstd::prelude::*;

verus! {

/// User configuration. It holds no settings yet.
#[derive(Debug, PartialEq, Eq, Structural)]
pub struct Config {}

impl Default for Config {
    fn default() -> (r: Config)
        ensures
            r == (Config {}),
    {
        Config {  }
    }
}

impl Config {
    /// The configuration written when none exists.
    pub fn new_default() -> (r: Config)
        ensures
            r == (Config {}),
    {
        Config::default()
    }
}

/// What loading the configuration starts with, given what is at its path.
#[derive(Clone, Copy, Debug, PartialEq, Eq, Structural)]
pub enum ConfigLoad {
    /// Nothing is there: write and use the default.
    CreateDefault,
    /// A file is there: read and parse it.
    ReadFile,
    /// Something else is there: ask whether to replace it with the default.
    AskToReplace,
}

/// Chooses how to load the configuration from whether its path exists and
/// whether it is a regular file.
pub fn plan_config_load(exists: bool, is_file: bool) -> (r: ConfigLoad)
    ensures
        r == (if !exists {
            ConfigLoad::CreateDefault
        } else if is_file {
            ConfigLoad::ReadFile
        } else {
            ConfigLoad::AskToReplace
        }),
{
    if exists {
        if is_file {
            ConfigLoad::ReadFile
        } else {
            ConfigLoad::AskToReplace
        }
    } else {
        ConfigLoad::CreateDefault
    }
}

/// A reply to the question whether to write a default configuration.
#[derive(Clone, Copy, Debug, PartialEq, Eq, Structural)]
pub enum PromptAnswer {
    Yes,
    No,
    Invalid,
}

/// Characters with the Unicode `White_Space` property.
pub open spec fn is_white_space(c: char) -> bool {
    let u = c as u32;
    (0x09 <= u && u <= 0x0d) || u == 0x20 || u == 0x85 || u == 0xa0 || u == 0x1680 || (0x2000
        <= u && u <= 0x200a) || u == 0x2028 || u == 0x2029 || u == 0x202f || u == 0x205f || u
        == 0x3000
}

/// The text without its leading white space.
pub open spec fn trim_start(s: Seq<char>) -> Seq<char>
    decreases s.len(),
{
    if s.len() > 0 && is_white_space(s[0]) {
        trim_start(s.drop_first())
    } else {
        s
    }
}

/// The text without its trailing white space.
pub open spec fn trim_end(s: Seq<char>) -> Seq<char>
    decreases s.len(),
{
    if s.len() > 0 && is_white_space(s.last()) {
        trim_end(s.drop_last())
    } else {
        s
    }
}

/// The text without leading and trailing white space.
pub open spec fn spec_trim(s: Seq<char>) -> Seq<char> {
    trim_end(trim_start(s))
}

/// What a lower-cased reply means: `y` is yes, `n` or nothing is no, anything
/// else is invalid.
pub open spec fn answer_of(t: Seq<char>) -> PromptAnswer {
    if t == seq!['y'] {
        PromptAnswer::Yes
    } else if t == seq!['n'] || t.len() == 0 {
        PromptAnswer::No
    } else {
        PromptAnswer::Invalid
    }
}

/// The lower-case form of a text.
pub uninterp spec fn lower_of(s: Seq<char>) -> Seq<char>;

/// Relies on `str::to_lowercase`: the result depends on the characters alone,
/// and the empty text stays empty.
#[verifier::external_body]
fn lowercase(s: &str) -> (r: String)
    ensures
        r@ == lower_of(s@),
        s@.len() == 0 ==> r@.len() == 0,
{
    s.to_lowercase()
}

/// Relies on `str::trim`, which removes leading and trailing characters
/// with the Unicode `White_Space` property.
#[verifier::external_body]
fn trim(s: &str) -> (r: &str)
    ensures
        r@ == spec_trim(s@),
{
    s.trim()
}

/// Classifies a reply that is already lower-cased.
pub fn classify_lowered(t: &str) -> (r: PromptAnswer)
    ensures
        r == answer_of(spec_trim(t@)),
{
    let w = trim(t);
    let n = w.unicode_len();
    if n == 0 {
        return PromptAnswer::No;
    }
    if n == 1 {
        let c = w.get_char(0);
        if c == 'y' {
            assert(w@ =~= seq!['y']);
            return PromptAnswer::Yes;
        }
        if c == 'n' {
            assert(w@ =~= seq!['n']);
            return PromptAnswer::No;
        }
    }
    assert(w@ != seq!['y'] && w@ != seq!['n']) by {
        if n == 1 {
            assert(w@[0] != 'y' && w@[0] != 'n');
            assert(seq!['y'][0] == 'y');
            assert(seq!['n'][0] == 'n');
        } else {
            assert(seq!['y'].len() == 1);
        }
    }
    PromptAnswer::Invalid
}

/// Classifies a reply to the replace-with-default question, ignoring case
/// and surrounding white space.
pub fn classify_answer(s: &str) -> (r: PromptAnswer)
    ensures
        r == answer_of(spec_trim(lower_of(s@))),
{
    let lowered = lowercase(s);
    classify_lowered(lowered.as_str())
}

} // verus!

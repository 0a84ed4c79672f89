//! The tool's settings: whether to check staleness before a run, how to
//! store payloads, where to put the build tree, and which editor to open.
//!
//! The settings text holds lines `$0=`, `$1=`, `$2=` and `$3=`, each followed
//! by its value up to the end of the line.
use vstd::prelude::*;
use vstd::string::{StrSliceExecFns, StringExecFns};

verus! {

/// The editors the tool can open.
#[derive(Clone, Copy, Debug, PartialEq, Eq, Structural)]
pub enum Editor {
    Code,
    Nvim,
    Nano,
}

/// Why the settings text was refused.
#[derive(Debug, PartialEq, Eq)]
pub enum ConfigError {
    /// The option with this number is missing.
    MissingOption(u8),
    /// The editor named is not one of those supported.
    UnsupportedEditor(String),
}

/// The editor that a name stands for.
pub open spec fn spec_editor(s: Seq<char>) -> Option<Editor> {
    if s == seq!['c', 'o', 'd', 'e'] {
        Some(Editor::Code)
    } else if s == seq!['n', 'v', 'i', 'm'] {
        Some(Editor::Nvim)
    } else if s == seq!['n', 'a', 'n', 'o'] {
        Some(Editor::Nano)
    } else {
        None
    }
}

fn has_chars4(s: &str, a: char, b: char, c: char, d: char) -> (r: bool)
    ensures
        r == (s@ == seq![a, b, c, d]),
{
    if s.unicode_len() != 4 {
        return false;
    }
    let r = s.get_char(0) == a && s.get_char(1) == b && s.get_char(2) == c && s.get_char(3) == d;
    if r {
        assert(s@ =~= seq![a, b, c, d]);
    }
    r
}

impl Editor {
    /// The editor named `s`.
    pub fn from_str(s: &str) -> (r: Result<Editor, ConfigError>)
        ensures
            match spec_editor(s@) {
                Some(e) => r == Ok::<Editor, ConfigError>(e),
                None => r matches Err(ConfigError::UnsupportedEditor(name)) && name@ == s@,
            },
    {
        if has_chars4(s, 'c', 'o', 'd', 'e') {
            Ok(Editor::Code)
        } else if has_chars4(s, 'n', 'v', 'i', 'm') {
            Ok(Editor::Nvim)
        } else if has_chars4(s, 'n', 'a', 'n', 'o') {
            Ok(Editor::Nano)
        } else {
            Err(ConfigError::UnsupportedEditor(String::from_str(s)))
        }
    }
}

/// The first index `k >= from` where `$`, `key`, `=` stand, or -1.
pub open spec fn option_start(t: Seq<char>, key: char, from: int) -> int
    decreases t.len() - from,
{
    if from < 0 || from + 2 >= t.len() {
        -1
    } else if t[from] == '$' && t[from + 1] == key && t[from + 2] == '=' {
        from
    } else {
        option_start(t, key, from + 1)
    }
}

/// The first index `k >= from` of a newline, or the length of `t`.
pub open spec fn line_end(t: Seq<char>, from: int) -> int
    decreases t.len() - from,
{
    if from < 0 || from >= t.len() {
        t.len() as int
    } else if t[from] == '\n' {
        from
    } else {
        line_end(t, from + 1)
    }
}

/// Where the value of option `key` lies: from after its `$key=` to the end
/// of that line, less the `\r` of a `\r\n` line ending.
pub open spec fn option_span(t: Seq<char>, key: char) -> Option<(int, int)> {
    let k = option_start(t, key, 0);
    if k < 0 {
        None
    } else {
        let e = line_end(t, k + 3);
        if e < t.len() && e > k + 3 && t[e - 1] == '\r' {
            Some((k + 3, e - 1))
        } else {
            Some((k + 3, e))
        }
    }
}

/// The value of option `key`, if the text holds it.
pub open spec fn option_text(t: Seq<char>, key: char) -> Option<Seq<char>> {
    match option_span(t, key) {
        Some((a, b)) => Some(t.subrange(a, b)),
        None => None,
    }
}

/// The key character of option number `i`.
pub open spec fn option_key(i: int) -> char {
    (i + 48) as char
}

/// A flag option is set when its value is exactly `true`.
pub open spec fn flag_set(t: Seq<char>, i: int) -> bool {
    option_text(t, option_key(i)) == Some(seq!['t', 'r', 'u', 'e'])
}

fn find_option(t: &str, key: char, n: usize) -> (r: Option<usize>)
    requires
        n == t@.len(),
    ensures
        match r {
            Some(k) => k as int == option_start(t@, key, 0) && k + 3 <= n,
            None => option_start(t@, key, 0) == -1,
        },
{
    let mut k: usize = 0;
    while k < n && n - k > 2
        invariant
            n == t@.len(),
            k <= n,
            option_start(t@, key, 0) == option_start(t@, key, k as int),
        decreases n - k,
    {
        if t.get_char(k) == '$' && t.get_char(k + 1) == key && t.get_char(k + 2) == '=' {
            return Some(k);
        }
        k = k + 1;
    }
    None
}

fn option_span_of(t: &str, key: char) -> (r: Option<(usize, usize)>)
    ensures
        match r {
            Some((a, b)) => option_span(t@, key) == Some((a as int, b as int)) && a <= b <= t@.len(),
            None => option_span(t@, key) is None,
        },
{
    let n = t.unicode_len();
    let k = match find_option(t, key, n) {
        Some(k) => k,
        None => return None,
    };
    let start = k + 3;
    let mut e = start;
    while e < n && t.get_char(e) != '\n'
        invariant
            n == t@.len(),
            start <= e <= n,
            line_end(t@, start as int) == line_end(t@, e as int),
        decreases n - e,
    {
        e = e + 1;
    }
    if e < n && e > start && t.get_char(e - 1) == '\r' {
        Some((start, e - 1))
    } else {
        Some((start, e))
    }
}

/// The tool's settings.
#[derive(Clone, Copy, Debug)]
pub struct Config {
    pub check_hash: bool,
    pub base64: bool,
    pub new_dir: bool,
    pub editor: Editor,
}

impl Config {
    /// Check the stored fingerprint before running.
    pub fn check_hash(&self) -> (r: &bool)
        ensures
            *r == self.check_hash,
    {
        &self.check_hash
    }

    /// Store payloads as base64 text.
    pub fn base64(&self) -> (r: &bool)
        ensures
            *r == self.base64,
    {
        &self.base64
    }

    /// Put the build tree in a directory of its own.
    pub fn new_dir(&self) -> (r: &bool)
        ensures
            *r == self.new_dir,
    {
        &self.new_dir
    }

    /// The editor to open.
    pub fn editor(&self) -> (r: &Editor)
        ensures
            *r == self.editor,
    {
        &self.editor
    }

    /// Reads the settings from their text: options 0 to 2 are flags
    /// (check staleness, base64 payloads, own build directory), option 3
    /// names the editor. The first missing option, in order, is the error;
    /// then an unknown editor.
    pub fn parse(t: &str) -> (r: Result<Config, ConfigError>)
        ensures
            match r {
                Ok(c) => {
                    &&& forall|i: int| 0 <= i < 4 ==> (#[trigger] option_text(t@, option_key(i))) is Some
                    &&& c.check_hash == flag_set(t@, 0)
                    &&& c.base64 == flag_set(t@, 1)
                    &&& c.new_dir == flag_set(t@, 2)
                    &&& spec_editor(option_text(t@, option_key(3))->0) == Some(c.editor)
                },
                Err(ConfigError::MissingOption(i)) => {
                    &&& i < 4
                    &&& option_text(t@, option_key(i as int)) is None
                    &&& forall|j: int| 0 <= j < i ==> (#[trigger] option_text(t@, option_key(j))) is Some
                },
                Err(ConfigError::UnsupportedEditor(name)) => {
                    &&& forall|i: int| 0 <= i < 4 ==> (#[trigger] option_text(t@, option_key(i))) is Some
                    &&& spec_editor(option_text(t@, option_key(3))->0) is None
                    &&& name@ == option_text(t@, option_key(3))->0
                },
            },
    {
        let mut spans: Vec<(usize, usize)> = Vec::new();
        let mut i: u8 = 0;
        while i < 4
            invariant
                i <= 4,
                spans@.len() == i,
                forall|j: int|
                    0 <= j < i ==> (#[trigger] option_text(t@, option_key(j))) is Some,
                forall|j: int|
                    0 <= j < i ==> {
                        &&& (#[trigger] spans@[j]).0 <= spans@[j].1 <= t@.len()
                        &&& option_span(t@, option_key(j)) == Some(
                            (spans@[j].0 as int, spans@[j].1 as int),
                        )
                    },
            decreases 4 - i,
        {
            let key = (i + 48) as char;
            assert(key == option_key(i as int));
            match option_span_of(t, key) {
                Some(s) => {
                    spans.push(s);
                    assert(option_text(t@, option_key(i as int)) is Some);
                },
                None => return Err(ConfigError::MissingOption(i)),
            }
            i = i + 1;
        }
        let (a0, b0) = spans[0];
        let (a1, b1) = spans[1];
        let (a2, b2) = spans[2];
        let (a3, b3) = spans[3];
        let check_hash = has_chars4(t.substring_char(a0, b0), 't', 'r', 'u', 'e');
        let base64 = has_chars4(t.substring_char(a1, b1), 't', 'r', 'u', 'e');
        let new_dir = has_chars4(t.substring_char(a2, b2), 't', 'r', 'u', 'e');
        let editor = Editor::from_str(t.substring_char(a3, b3))?;
        Ok(Config { check_hash, base64, new_dir, editor })
    }
}

} // verus!

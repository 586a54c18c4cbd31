//! Reading the command line of a launcher entry: its tokens, its executable, and
//! what to watch for once it runs.
use vstd::prelude::*;

use crate::monitor::MonitorTarget;
use crate::paths::{file_name, file_name_of};
use crate::text::{
    chars_of, char_is_ws, contains_seq, eq_ignore_ascii_case, eq_ignore_case_chars, is_ws,
    starts_with, string_of, trim, trim_chars,
};

verus! {

/// State of the command-line tokenizer: finished tokens, the token being built,
/// inside single quotes, inside double quotes, after a backslash, and whether the
/// current token contained quotes.
pub type TokState = (Seq<Seq<char>>, Seq<char>, bool, bool, bool, bool);

pub open spec fn tok_init() -> TokState {
    (seq![], seq![], false, false, false, false)
}

/// One character of shell-like tokenizing.
pub open spec fn tok_step(st: TokState, ch: char) -> TokState {
    let (tokens, current, in_single, in_double, escape, had_quotes) = st;
    if escape {
        (tokens, current.push(ch), in_single, in_double, false, had_quotes)
    } else if ch == '\\' && !in_single {
        (tokens, current, in_single, in_double, true, had_quotes)
    } else if ch == '\'' && !in_double {
        (tokens, current, !in_single, in_double, escape, true)
    } else if ch == '"' && !in_single {
        (tokens, current, in_single, !in_double, escape, true)
    } else if is_ws(ch) && !in_single && !in_double {
        if current.len() > 0 || had_quotes {
            (tokens.push(current), seq![], in_single, in_double, escape, false)
        } else {
            st
        }
    } else {
        (tokens, current.push(ch), in_single, in_double, escape, had_quotes)
    }
}

pub open spec fn tok_run(s: Seq<char>) -> TokState
    decreases s.len(),
{
    if s.len() == 0 {
        tok_init()
    } else {
        tok_step(tok_run(s.drop_last()), s.last())
    }
}

/// The tokens of a command line: quotes group words and are removed, a backslash
/// takes the next character literally (outside single quotes), and a dangling
/// backslash is kept.
pub open spec fn exec_tokens(s: Seq<char>) -> Seq<Seq<char>> {
    let (tokens, current, _s, _d, escape, had_quotes) = tok_run(s);
    let current = if escape {
        current.push('\\')
    } else {
        current
    };
    if current.len() > 0 || had_quotes {
        tokens.push(current)
    } else {
        tokens
    }
}

/// Splitting at whitespace: the finished words and the word being read.
pub open spec fn word_run(s: Seq<char>) -> (Seq<Seq<char>>, Seq<char>)
    decreases s.len(),
{
    if s.len() == 0 {
        (seq![], seq![])
    } else {
        let (words, current) = word_run(s.drop_last());
        let ch = s.last();
        if is_ws(ch) {
            if current.len() > 0 {
                (words.push(current), seq![])
            } else {
                (words, current)
            }
        } else {
            (words, current.push(ch))
        }
    }
}

/// The whitespace-separated words of a text (`str::split_whitespace`): its
/// maximal runs of characters that are not whitespace, in order.
pub open spec fn whitespace_words(s: Seq<char>) -> Seq<Seq<char>> {
    let (words, current) = word_run(s);
    if current.len() > 0 {
        words.push(current)
    } else {
        words
    }
}

/// No quote and no backslash.
pub open spec fn plain_command(s: Seq<char>) -> bool {
    forall|i: int| 0 <= i < s.len() ==> s[i] != '\'' && s[i] != '"' && s[i] != '\\'
}

proof fn lemma_plain_run(s: Seq<char>)
    requires
        plain_command(s),
    ensures
        tok_run(s) == (word_run(s).0, word_run(s).1, false, false, false, false),
    decreases s.len(),
{
    if s.len() > 0 {
        assert(plain_command(s.drop_last()));
        lemma_plain_run(s.drop_last());
    }
}

/// A command line without quotes or backslashes splits exactly into its
/// whitespace-separated words.
pub proof fn law_plain_command_splits_at_whitespace(s: Seq<char>)
    requires
        plain_command(s),
    ensures
        exec_tokens(s) == whitespace_words(s),
{
    lemma_plain_run(s);
}

proof fn lemma_quoted_run(q: char, s: Seq<char>)
    requires
        q == '\'' || q == '"',
        plain_command(s),
    ensures
        tok_run(seq![q] + s) == (Seq::<Seq<char>>::empty(), s, q == '\'', q == '"', false, true),
    decreases s.len(),
{
    if s.len() == 0 {
        assert(seq![q] + s =~= seq![q]);
        assert(seq![q].drop_last() =~= Seq::<char>::empty());
        assert(tok_run(Seq::<char>::empty()) == tok_init());
        assert(seq![q].last() == q);
    } else {
        assert(plain_command(s.drop_last()));
        lemma_quoted_run(q, s.drop_last());
        let ch = s[s.len() - 1];
        assert(ch != '\\' && ch != '\'' && ch != '"');
        assert((seq![q] + s).last() == ch);
        assert((seq![q] + s).drop_last() =~= seq![q] + s.drop_last());
        assert(s.drop_last().push(s.last()) =~= s);
    }
}

proof fn lemma_plain_after(pre: Seq<char>, t: Seq<char>, done: Seq<Seq<char>>)
    requires
        plain_command(t),
        tok_run(pre) == (done, Seq::<char>::empty(), false, false, false, false),
    ensures
        tok_run(pre + t) == (done + word_run(t).0, word_run(t).1, false, false, false, false),
    decreases t.len(),
{
    if t.len() == 0 {
        assert(pre + t =~= pre);
        assert(done + Seq::<Seq<char>>::empty() =~= done);
    } else {
        assert(plain_command(t.drop_last()));
        lemma_plain_after(pre, t.drop_last(), done);
        assert((pre + t).drop_last() =~= pre + t.drop_last());
        let w = word_run(t.drop_last());
        assert((done + w.0).push(w.1) =~= done + w.0.push(w.1));
    }
}

/// A word in single or double quotes is one token, equal to what the quotes hold
/// (spaces included): for `s` without quotes or backslashes, `'s'` and `"s"` give
/// exactly `[s]`, and `'s' rest` gives `s` followed by the whitespace-separated
/// words of a plain `rest`.
pub proof fn law_quoted_word_is_one_token(q: char, s: Seq<char>, rest: Seq<char>)
    requires
        q == '\'' || q == '"',
        plain_command(s),
        plain_command(rest),
    ensures
        exec_tokens(seq![q] + s + seq![q]) == seq![s],
        exec_tokens(seq![q] + s + seq![q] + seq![' '] + rest) == seq![s] + whitespace_words(rest),
{
    lemma_quoted_run(q, s);
    let a = seq![q] + s + seq![q];
    assert(a.drop_last() =~= seq![q] + s);
    assert(tok_run(a) == (Seq::<Seq<char>>::empty(), s, false, false, false, true));
    assert(seq![s] =~= Seq::<Seq<char>>::empty().push(s));
    let b = a + seq![' '];
    assert(b.drop_last() =~= a);
    assert(is_ws(' '));
    assert(tok_run(b) == (seq![s], Seq::<char>::empty(), false, false, false, false));
    lemma_plain_after(b, rest, seq![s]);
    let w = word_run(rest);
    if w.1.len() > 0 {
        assert((seq![s] + w.0).push(w.1) =~= seq![s] + w.0.push(w.1));
    }
}

pub open spec fn strings_view(v: Seq<String>) -> Seq<Seq<char>> {
    v.map_values(|t: String| t@)
}

pub open spec fn char_vecs_view(v: Seq<Vec<char>>) -> Seq<Seq<char>> {
    v.map_values(|t: Vec<char>| t@)
}

/// Turns a vector of character vectors into strings.
pub fn strings_of(v: &Vec<Vec<char>>) -> (r: Vec<String>)
    ensures
        strings_view(r@) == char_vecs_view(v@),
{
    let mut r: Vec<String> = Vec::new();
    let mut i: usize = 0;
    while i < v.len()
        invariant
            i <= v@.len(),
            strings_view(r@) == char_vecs_view(v@).take(i as int),
        decreases v@.len() - i,
    {
        let st = string_of(v[i].as_slice());
        assert(st@ == char_vecs_view(v@)[i as int]);
        let ghost old_r = r@;
        r.push(st);
        assert(strings_view(r@) =~= strings_view(old_r).push(st@));
        assert(char_vecs_view(v@).take(i + 1) =~= char_vecs_view(v@).take(i as int).push(st@));
        i += 1;
        assert(strings_view(r@) =~= char_vecs_view(v@).take(i as int));
    }
    assert(char_vecs_view(v@).take(v@.len() as int) =~= char_vecs_view(v@));
    r
}

fn tokens_chars(s: &[char]) -> (r: Vec<Vec<char>>)
    ensures
        char_vecs_view(r@) == exec_tokens(s@),
{
    let mut tokens: Vec<Vec<char>> = Vec::new();
    let mut current: Vec<char> = Vec::new();
    let mut in_single = false;
    let mut in_double = false;
    let mut escape = false;
    let mut had_quotes = false;
    let mut i: usize = 0;
    while i < s.len()
        invariant
            i <= s@.len(),
            tok_run(s@.take(i as int)) == (
                char_vecs_view(tokens@),
                current@,
                in_single,
                in_double,
                escape,
                had_quotes,
            ),
        decreases s@.len() - i,
    {
        let ch = s[i];
        proof {
            assert(s@.take(i + 1).drop_last() =~= s@.take(i as int));
        }
        if escape {
            current.push(ch);
            escape = false;
        } else if ch == '\\' && !in_single {
            escape = true;
        } else if ch == '\'' && !in_double {
            in_single = !in_single;
            had_quotes = true;
        } else if ch == '"' && !in_single {
            in_double = !in_double;
            had_quotes = true;
        } else if char_is_ws(ch) && !in_single && !in_double {
            if current.len() > 0 || had_quotes {
                let done = current;
                current = Vec::new();
                tokens.push(done);
                had_quotes = false;
                assert(char_vecs_view(tokens@) =~= char_vecs_view(tokens@.drop_last()).push(
                    done@,
                ));
            }
        } else {
            current.push(ch);
        }
        i += 1;
    }
    if escape {
        current.push('\\');
    }
    if current.len() > 0 || had_quotes {
        let ghost before = tokens@;
        tokens.push(current);
        assert(char_vecs_view(tokens@) =~= char_vecs_view(before).push(current@));
    }
    assert(s@.take(s@.len() as int) =~= s@);
    tokens
}

/// Extracts tokens from a shell-like command line, respecting quotes.
pub fn split_exec_tokens(exec: &str) -> (r: Vec<String>)
    ensures
        strings_view(r@) == exec_tokens(exec@),
{
    let s = chars_of(exec);
    let t = tokens_chars(&s);
    strings_of(&t)
}

/// Desktop-entry field codes (`%f`, `%U`, ...), which are placeholders and not words.
pub open spec fn is_field_code(p: Seq<char>) -> bool {
    p.len() == 2 && p[0] == '%' && (p[1] == 'f' || p[1] == 'F' || p[1] == 'u' || p[1] == 'U'
        || p[1] == 'd' || p[1] == 'D' || p[1] == 'n' || p[1] == 'N' || p[1] == 'i' || p[1] == 'c'
        || p[1] == 'k' || p[1] == 'v' || p[1] == 'm')
}

/// Parts of a command line that are not the executable: empty parts, `env`,
/// variable assignments and field codes.
pub open spec fn is_skippable_part(p: Seq<char>) -> bool {
    ||| p.len() == 0
    ||| p == "env"@
    ||| (p.contains('=') && !(p.len() > 0 && p[0] == '-'))
    ||| is_field_code(p)
}

fn is_env_word(p: &[char]) -> (r: bool)
    ensures
        r == (p@ == "env"@),
{
    proof {
        reveal_strlit("env");
    }
    if p.len() == 3 && p[0] == 'e' && p[1] == 'n' && p[2] == 'v' {
        assert(p@ =~= "env"@);
        true
    } else {
        proof {
            if p@.len() == 3 {
                if p@[0] != 'e' {
                    assert(p@[0] != "env"@[0]);
                } else if p@[1] != 'n' {
                    assert(p@[1] != "env"@[1]);
                } else {
                    assert(p@[2] != "env"@[2]);
                }
            }
        }
        false
    }
}

fn has_char(p: &[char], c: char) -> (r: bool)
    ensures
        r == p@.contains(c),
{
    let mut i: usize = 0;
    while i < p.len()
        invariant
            i <= p@.len(),
            forall|j: int| 0 <= j < i ==> p@[j] != c,
        decreases p@.len() - i,
    {
        if p[i] == c {
            return true;
        }
        i += 1;
    }
    false
}

fn is_field_code_chars(p: &[char]) -> (r: bool)
    ensures
        r == is_field_code(p@),
{
    if p.len() != 2 || p[0] != '%' {
        return false;
    }
    let c = p[1];
    c == 'f' || c == 'F' || c == 'u' || c == 'U' || c == 'd' || c == 'D' || c == 'n' || c == 'N'
        || c == 'i' || c == 'c' || c == 'k' || c == 'v' || c == 'm'
}

fn is_skippable_chars(p: &[char]) -> (r: bool)
    ensures
        r == is_skippable_part(p@),
{
    p.len() == 0 || is_env_word(p) || (has_char(p, '=') && !(p.len() > 0 && p[0] == '-'))
        || is_field_code_chars(p)
}

/// Is `part` a word of the command line that does not name the executable?
pub fn is_skippable_exec_part(part: &str) -> (r: bool)
    ensures
        r == is_skippable_part(part@),
{
    let p = chars_of(part);
    is_skippable_chars(&p)
}

/// The first token that is not skippable.
pub open spec fn first_command_token(tokens: Seq<Seq<char>>) -> Option<Seq<char>>
    decreases tokens.len(),
{
    if tokens.len() == 0 {
        None
    } else if !is_skippable_part(tokens[0]) {
        Some(tokens[0])
    } else {
        first_command_token(tokens.drop_first())
    }
}

pub open spec fn exec_token(exec: Seq<char>) -> Option<Seq<char>> {
    first_command_token(exec_tokens(exec))
}

fn copy_chars(s: &[char]) -> (r: Vec<char>)
    ensures
        r@ == s@,
{
    let mut r: Vec<char> = Vec::new();
    let mut i: usize = 0;
    while i < s.len()
        invariant
            i <= s@.len(),
            r@ == s@.take(i as int),
        decreases s@.len() - i,
    {
        r.push(s[i]);
        i += 1;
        assert(r@ =~= s@.take(i as int));
    }
    assert(s@.take(s@.len() as int) =~= s@);
    r
}

fn executable_token_chars(s: &[char]) -> (r: Option<Vec<char>>)
    ensures
        match r {
            Some(v) => exec_token(s@) == Some(v@),
            None => exec_token(s@) is None,
        },
{
    let tokens = tokens_chars(s);
    assert(char_vecs_view(tokens@).skip(0) =~= char_vecs_view(tokens@));
    let mut i: usize = 0;
    while i < tokens.len()
        invariant
            i <= tokens@.len(),
            char_vecs_view(tokens@) == exec_tokens(s@),
            first_command_token(char_vecs_view(tokens@)) == first_command_token(
                char_vecs_view(tokens@).skip(i as int),
            ),
        decreases tokens@.len() - i,
    {
        assert(char_vecs_view(tokens@).skip(i as int)[0] == tokens@[i as int]@);
        if !is_skippable_chars(tokens[i].as_slice()) {
            let t = copy_chars(tokens[i].as_slice());
            assert(first_command_token(char_vecs_view(tokens@).skip(i as int)) == Some(
                tokens@[i as int]@,
            ));
            return Some(t);
        }
        assert(char_vecs_view(tokens@).skip(i as int).drop_first() =~= char_vecs_view(
            tokens@,
        ).skip(i + 1));
        i += 1;
    }
    None
}

/// The executable of a command line: its first token that is not `env`, an
/// assignment or a field code.
pub fn extract_executable_token(exec: &str) -> (r: Option<String>)
    ensures
        match r {
            Some(t) => exec_token(exec@) == Some(t@),
            None => exec_token(exec@) is None,
        },
{
    let s = chars_of(exec);
    match executable_token_chars(&s) {
        Some(t) => Some(string_of(&t)),
        None => None,
    }
}

/// The file name of the executable, when it has a non-empty one.
pub open spec fn exec_name(exec: Seq<char>) -> Option<Seq<char>> {
    match exec_token(exec) {
        Some(t) => match file_name(t) {
            Some(n) => if n.len() > 0 {
                Some(n)
            } else {
                None
            },
            None => None,
        },
        None => None,
    }
}

fn executable_name_chars(s: &[char]) -> (r: Option<Vec<char>>)
    ensures
        match r {
            Some(v) => exec_name(s@) == Some(v@),
            None => exec_name(s@) is None,
        },
{
    let t = match executable_token_chars(s) {
        Some(t) => t,
        None => return None,
    };
    match file_name_of(&t) {
        Some(n) => if n.len() > 0 {
            Some(n)
        } else {
            None
        },
        None => None,
    }
}

/// Extracts the executable name from an exec command string.
///
/// Handles paths, arguments, desktop field codes (`%f`, `%U`, etc.),
/// and `env VAR=val` prefixes.
pub fn extract_executable_name(exec: &str) -> (r: Option<String>)
    ensures
        match r {
            Some(n) => exec_name(exec@) == Some(n@),
            None => exec_name(exec@) is None,
        },
{
    let s = chars_of(exec);
    match executable_name_chars(&s) {
        Some(n) => Some(string_of(&n)),
        None => None,
    }
}

/// Shell characters that make the command line more than a plain program call.
pub open spec fn is_shell_meta(c: char) -> bool {
    c == '$' || c == '`' || c == '~' || c == '*' || c == '?' || c == '[' || c == ']' || c == '{'
        || c == '}' || c == '(' || c == ')' || c == ';' || c == '&' || c == '|' || c == '<' || c
        == '>' || c == '\n'
}

pub open spec fn needs_shell(exec: Seq<char>) -> bool {
    exists|i: int| 0 <= i < exec.len() && is_shell_meta(exec[i])
}

/// Whether the command line uses shell features (expansion, pipes, lists, ...), so that
/// its executable cannot be checked before it runs.
pub fn should_skip_command_check(exec: &str) -> (r: bool)
    ensures
        r == needs_shell(exec@),
{
    let s = chars_of(exec);
    let mut i: usize = 0;
    while i < s.len()
        invariant
            s@ == exec@,
            i <= s@.len(),
            forall|j: int| 0 <= j < i ==> !is_shell_meta(s@[j]),
        decreases s@.len() - i,
    {
        let c = s[i];
        if c == '$' || c == '`' || c == '~' || c == '*' || c == '?' || c == '[' || c == ']' || c
            == '{' || c == '}' || c == '(' || c == ')' || c == ';' || c == '&' || c == '|' || c
            == '<' || c == '>' || c == '\n' {
            return true;
        }
        i += 1;
    }
    false
}

/// How the presence of a command line's executable is to be checked.
#[derive(Debug, Clone, PartialEq, Eq)]
pub enum CommandCheck {
    /// The shell will resolve it; it is taken as present.
    Assume,
    /// There is no executable word at all.
    Missing,
    /// The named file must be an executable file.
    File(String),
    /// Some directory of `PATH` must hold an executable file of this name.
    SearchPath(String),
}

pub open spec fn is_explicit_path(t: Seq<char>) -> bool {
    (t.len() > 0 && t[0] == '/') || crate::text::starts_with(t, "./"@)
        || crate::text::starts_with(t, "../"@)
}

/// The check that decides whether `exec` can be started.
pub fn command_check(exec: &str) -> (r: CommandCheck)
    ensures
        needs_shell(exec@) ==> r is Assume,
        !needs_shell(exec@) ==> match exec_token(exec@) {
            None => r is Missing,
            Some(t) => if is_explicit_path(t) {
                (r matches CommandCheck::File(f) && f@ == t)
            } else {
                (r matches CommandCheck::SearchPath(f) && f@ == t)
            },
        },
{
    if should_skip_command_check(exec) {
        return CommandCheck::Assume;
    }
    let s = chars_of(exec);
    let t = match executable_token_chars(&s) {
        Some(t) => t,
        None => return CommandCheck::Missing,
    };
    let dot = chars_of("./");
    let dotdot = chars_of("../");
    let explicit = (t.len() > 0 && t[0] == '/') || crate::text::has_prefix(&t, &dot)
        || crate::text::has_prefix(&t, &dotdot);
    if explicit {
        CommandCheck::File(string_of(&t))
    } else {
        CommandCheck::SearchPath(string_of(&t))
    }
}

#[verifier::external_type_specification]
#[verifier::external_body]
pub struct ExIoError(std::io::Error);

/// Why an entry could not be started.
#[derive(Debug)]
pub enum LaunchError {
    EmptyCommand,
    CommandNotFound { command: String },
    LaunchFailed { command: String, source: std::io::Error },
}

/// The start of the message shown for a failed start that the library decides;
/// after it comes the operating system's text of the error, which depends on the
/// process's locale.
pub open spec fn launch_failed_prefix(command: Seq<char>) -> Seq<char> {
    "Failed to launch `"@ + command + "`: "@
}

/// `m` is the message shown to the user for a failed start: the whole text for a
/// missing or empty command; for a program that could not be started, the text
/// naming the command followed by the error's text.
pub open spec fn launch_error_shown(e: LaunchError, m: Seq<char>) -> bool {
    match e {
        LaunchError::EmptyCommand => m == "No command specified to launch."@,
        LaunchError::CommandNotFound { command } => m == "Command not found: `"@ + command@ + "`"@,
        LaunchError::LaunchFailed { command, .. } => starts_with(m, launch_failed_prefix(command@)),
    }
}

impl LaunchError {
    /// The message shown to the user.
    pub fn message(&self) -> (r: String)
        ensures
            launch_error_shown(*self, r@),
    {
        match self {
            LaunchError::EmptyCommand => String::from_str("No command specified to launch."),
            LaunchError::CommandNotFound { command } => {
                let mut m = String::from_str("Command not found: `");
                m.append(command.as_str());
                m.append("`");
                m
            },
            LaunchError::LaunchFailed { command, source } => {
                let mut m = String::from_str("Failed to launch `");
                m.append(command.as_str());
                m.append("`: ");
                let ghost p = m@;
                let t = io_error_to_string(source);
                m.append(t.as_str());
                assert(m@.take(p.len() as int) =~= p);
                m
            },
        }
    }
}

/// `<std::io::Error as ToString>::to_string`.  For an error of the operating
/// system the text comes from the C library, which translates it by the process's
/// locale, so nothing is stated of it.
#[verifier::external_body]
fn io_error_to_string(e: &std::io::Error) -> String {
    e.to_string()
}

/// Decides whether a launch may go ahead, given whether `command_check(exec)` found
/// the executable.
pub fn check_launch(exec: &str, command_found: bool) -> (r: Result<(), LaunchError>)
    ensures
        trim(exec@).len() == 0 ==> r matches Err(LaunchError::EmptyCommand),
        trim(exec@).len() != 0 && command_found ==> r is Ok,
        trim(exec@).len() != 0 && !command_found ==> (r matches Err(
            LaunchError::CommandNotFound { command },
        ) && command@ == match exec_token(exec@) {
            Some(t) => t,
            None => exec@,
        }),
{
    let s = chars_of(exec);
    let t = trim_chars(&s);
    if t.len() == 0 {
        return Err(LaunchError::EmptyCommand);
    }
    if command_found {
        return Ok(());
    }
    let command = match executable_token_chars(&s) {
        Some(tok) => string_of(&tok),
        None => string_of(&s),
    };
    Err(LaunchError::CommandNotFound { command })
}

pub open spec fn is_cmd_target(t: MonitorTarget, p: Seq<char>) -> bool {
    t matches MonitorTarget::CmdLineContains(x) && x@ == p
}

pub open spec fn is_env_target(t: MonitorTarget, k: Seq<char>, v: Seq<char>) -> bool {
    t matches MonitorTarget::EnvVarEq(a, b) && a@ == k && b@ == v
}

/// The target watched for an ordinary application: its executable name, and the
/// item's name as well when the two differ.
pub open spec fn app_target_ok(exec: Seq<char>, item: Seq<char>, t: MonitorTarget) -> bool {
    match exec_name(exec) {
        Some(e) => if eq_ignore_ascii_case(e, item) || item.len() == 0 {
            is_cmd_target(t, e)
        } else {
            t matches MonitorTarget::Any(v) && v@.len() == 2 && is_cmd_target(v@[0], e)
                && is_cmd_target(v@[1], item)
        },
        None => is_cmd_target(t, item),
    }
}

/// Creates a monitor target for a regular application launch.
///
/// Combines executable name and item name patterns for robust process detection.
pub fn create_app_monitor_target(exec: &str, item_name: &str) -> (r: MonitorTarget)
    ensures
        app_target_ok(exec@, item_name@, r),
{
    let s = chars_of(exec);
    let item = chars_of(item_name);
    match executable_name_chars(&s) {
        Some(e) => {
            if eq_ignore_case_chars(&e, &item) || item.len() == 0 {
                MonitorTarget::CmdLineContains(string_of(&e))
            } else {
                let mut v: Vec<MonitorTarget> = Vec::new();
                v.push(MonitorTarget::CmdLineContains(string_of(&e)));
                v.push(MonitorTarget::CmdLineContains(string_of(&item)));
                MonitorTarget::Any(v)
            }
        },
        None => MonitorTarget::CmdLineContains(string_of(&item)),
    }
}

/// `str::trim_start_matches` with a string pattern: the pattern is removed from the
/// front as many times as it occurs there.
pub open spec fn strip_repeated(s: Seq<char>, p: Seq<char>) -> Seq<char>
    decreases s.len(),
{
    if p.len() > 0 && crate::text::starts_with(s, p) {
        strip_repeated(s.skip(p.len() as int), p)
    } else {
        s
    }
}

pub(crate) fn strip_repeated_at(s: &[char], p: &[char]) -> (r: usize)
    ensures
        r <= s@.len(),
        s@.skip(r as int) == strip_repeated(s@, p@),
{
    let mut i: usize = 0;
    assert(s@.skip(0) =~= s@);
    if p.len() == 0 {
        return 0;
    }
    let n = s.len();
    while crate::text::matches_at(s, p, i)
        invariant
            n == s@.len(),
            p@.len() > 0,
            i <= s@.len(),
            strip_repeated(s@, p@) == strip_repeated(s@.skip(i as int), p@),
        decreases s@.len() - i,
    {
        proof {
            let t = s@.skip(i as int);
            assert(t.take(p@.len() as int) =~= s@.subrange(i as int, i + p@.len()));
            assert(t.skip(p@.len() as int) =~= s@.skip(i + p@.len()));
        }
        i = i + p.len();
    }
    proof {
        let t = s@.skip(i as int);
        if p@.len() <= t.len() {
            assert(t.take(p@.len() as int) =~= s@.subrange(i as int, i + p@.len()));
        }
    }
    i
}

/// `str::split` on one character.
pub open spec fn split_char(s: Seq<char>, c: char) -> Seq<Seq<char>>
    decreases s.len(),
{
    if s.len() == 0 {
        seq![seq![]]
    } else {
        let rest = split_char(s.drop_last(), c);
        if s.last() == c {
            rest.push(seq![])
        } else {
            rest.update(rest.len() - 1, rest.last().push(s.last()))
        }
    }
}

pub proof fn lemma_split_char_len(s: Seq<char>, c: char)
    ensures
        split_char(s, c).len() >= 1,
    decreases s.len(),
{
    if s.len() > 0 {
        lemma_split_char_len(s.drop_last(), c);
    }
}

/// `s.split(c)` as character vectors.
pub fn split_chars(s: &[char], c: char) -> (r: Vec<Vec<char>>)
    ensures
        char_vecs_view(r@) == split_char(s@, c),
        r@.len() >= 1,
{
    let mut r: Vec<Vec<char>> = Vec::new();
    r.push(Vec::new());
    let mut i: usize = 0;
    assert(char_vecs_view(r@) =~= split_char(s@.take(0), c));
    while i < s.len()
        invariant
            i <= s@.len(),
            r@.len() >= 1,
            char_vecs_view(r@) == split_char(s@.take(i as int), c),
        decreases s@.len() - i,
    {
        let ch = s[i];
        proof {
            assert(s@.take(i + 1).drop_last() =~= s@.take(i as int));
        }
        let ghost before = char_vecs_view(r@);
        if ch == c {
            r.push(Vec::new());
            assert(char_vecs_view(r@) =~= before.push(seq![]));
        } else {
            let last = r.len() - 1;
            let mut piece = r.remove(last);
            piece.push(ch);
            r.push(piece);
            assert(char_vecs_view(r@) =~= before.update(before.len() - 1, before.last().push(ch)));
        }
        i += 1;
    }
    assert(s@.take(s@.len() as int) =~= s@);
    r
}

/// The value of an ASCII hex digit.
pub open spec fn hex_digit_value(b: u8) -> Option<u8> {
    if 48 <= b <= 57 {
        Some((b - 48) as u8)
    } else if 65 <= b <= 70 {
        Some((b - 55) as u8)
    } else if 97 <= b <= 102 {
        Some((b - 87) as u8)
    } else {
        None
    }
}

/// Percent-decoding of bytes: each `%` followed by two hex digits becomes the byte
/// they spell; every other byte, a `%` without two hex digits after it among them,
/// stays as it is.
pub open spec fn percent_decoded(b: Seq<u8>) -> Seq<u8>
    decreases b.len(),
{
    if b.len() == 0 {
        b
    } else if b[0] == 37u8 && b.len() >= 3 && hex_digit_value(b[1]) is Some && hex_digit_value(
        b[2],
    ) is Some {
        seq![(hex_digit_value(b[1])->0 * 16 + hex_digit_value(b[2])->0) as u8] + percent_decoded(
            b.skip(3),
        )
    } else {
        seq![b[0]] + percent_decoded(b.skip(1))
    }
}

/// What `urlencoding::decode` gives back: the text whose UTF-8 bytes are the
/// percent-decoded bytes of `s`, or nothing when those bytes are not UTF-8.
pub open spec fn url_decoded(s: Seq<char>) -> Option<Seq<char>> {
    let d = percent_decoded(vstd::utf8::encode_utf8(s));
    if vstd::utf8::valid_utf8(d) {
        Some(vstd::utf8::decode_utf8(d))
    } else {
        None
    }
}

/// `urlencoding::decode`.  Its source (`decode_binary`) percent-decodes the bytes
/// as `percent_decoded` says (a `%` that two hex digits do not follow is kept, with
/// what follows it), returns the input itself when it holds no `%`, and otherwise
/// turns the bytes into a `String` with `String::from_utf8`, which fails exactly
/// when they are not UTF-8.
#[verifier::external_body]
pub(crate) fn url_decode(s: &str) -> (r: Option<String>)
    ensures
        crate::model::opt_view(r) == url_decoded(s@),
        !s@.contains('%') ==> (r is Some && r->0@ == s@),
{
    match urlencoding::decode(s) {
        Ok(d) => Some(d.into_owned()),
        Err(_) => None,
    }
}

/// The app name named by a Heroic launch URL's path (`store/app` or `app`).
pub open spec fn heroic_url_app(url_part: Seq<char>) -> Seq<char> {
    let parts = split_char(url_part, '/');
    if parts.len() >= 2 {
        parts[1]
    } else {
        parts[0]
    }
}

pub open spec fn without_colons(s: Seq<char>) -> Seq<char> {
    s.filter(|c: char| c != ':')
}

fn remove_colons(s: &[char]) -> (r: Vec<char>)
    ensures
        r@ == without_colons(s@),
{
    let mut r: Vec<char> = Vec::new();
    let mut i: usize = 0;
    while i < s.len()
        invariant
            i <= s@.len(),
            r@ == without_colons(s@.take(i as int)),
        decreases s@.len() - i,
    {
        proof {
            assert(s@.take(i + 1).drop_last() =~= s@.take(i as int));
            reveal_with_fuel(Seq::filter, 1);
        }
        if s[i] != ':' {
            r.push(s[i]);
        }
        i += 1;
    }
    assert(s@.take(s@.len() as int) =~= s@);
    r
}

pub open spec fn steam_prefix() -> Seq<char> {
    "steam -applaunch "@
}

pub open spec fn heroic_prefix() -> Seq<char> {
    "xdg-open heroic://launch/"@
}

/// The targets watched for a Heroic game named `name`.
pub open spec fn heroic_targets_ok(
    name: Seq<char>,
    item: Seq<char>,
    exe: Option<Seq<char>>,
    v: Seq<MonitorTarget>,
) -> bool {
    let base = 3 + (if exe is Some { 1int } else { 0int });
    let sanitized = without_colons(item);
    &&& v.len() == base + (if sanitized != item { 1int } else { 0int })
    &&& is_env_target(v[0], "LEGENDARY_GAME_ID"@, name)
    &&& is_env_target(v[1], "HeroicAppName"@, name)
    &&& is_cmd_target(v[2], item)
    &&& (exe matches Some(x) ==> is_cmd_target(v[3], x))
    &&& (sanitized != item ==> is_cmd_target(v[base], sanitized))
}

pub open spec fn resolved_target_ok(
    exec: Seq<char>,
    item: Seq<char>,
    exe: Option<Seq<char>>,
    t: MonitorTarget,
) -> bool {
    if crate::text::starts_with(exec, steam_prefix()) {
        t matches MonitorTarget::SteamAppId(a) && a@ == trim(strip_repeated(exec, steam_prefix()))
    } else if crate::text::starts_with(exec, heroic_prefix()) && url_decoded(
        heroic_url_app(trim(strip_repeated(exec, heroic_prefix()))),
    ) is Some {
        let name = url_decoded(heroic_url_app(trim(strip_repeated(exec, heroic_prefix()))))->0;
        t matches MonitorTarget::Any(v) && heroic_targets_ok(name, item, exe, v@)
    } else {
        app_target_ok(exec, item, t)
    }
}

/// The process description to watch once `exec` has been started for the item
/// `item_name`: Steam games by their app id, Heroic games by their app name, and
/// other programs by their command line.
pub fn resolve_monitor_target(
    exec: &str,
    item_name: &str,
    game_executable: Option<&String>,
) -> (r: Option<MonitorTarget>)
    ensures
        r matches Some(t) && resolved_target_ok(
            exec@,
            item_name@,
            match game_executable {
                Some(x) => Some(x@),
                None => None,
            },
            t,
        ),
{
    let s = chars_of(exec);
    let steam = chars_of("steam -applaunch ");
    let heroic = chars_of("xdg-open heroic://launch/");
    if crate::text::has_prefix(&s, &steam) {
        let k = strip_repeated_at(&s, &steam);
        let (a, b) = crate::text::trim_bounds(&s, k, s.len());
        proof {
            assert(s@.subrange(k as int, s@.len() as int) =~= s@.skip(k as int));
        }
        let appid = crate::text::slice_chars(&s, a, b);
        return Some(MonitorTarget::SteamAppId(string_of(&appid)));
    }
    if crate::text::has_prefix(&s, &heroic) {
        let k = strip_repeated_at(&s, &heroic);
        let (a, b) = crate::text::trim_bounds(&s, k, s.len());
        proof {
            assert(s@.subrange(k as int, s@.len() as int) =~= s@.skip(k as int));
        }
        let url_part = crate::text::slice_chars(&s, a, b);
        let parts = split_chars(&url_part, '/');
        let app = if parts.len() >= 2 {
            string_of(parts[1].as_slice())
        } else {
            string_of(parts[0].as_slice())
        };
        match url_decode(app.as_str()) {
            Some(name) => {
                let item = chars_of(item_name);
                let mut targets: Vec<MonitorTarget> = Vec::new();
                targets.push(
                    MonitorTarget::EnvVarEq(String::from_str("LEGENDARY_GAME_ID"), name.clone()),
                );
                targets.push(MonitorTarget::EnvVarEq(String::from_str("HeroicAppName"), name));
                targets.push(MonitorTarget::CmdLineContains(string_of(&item)));
                if let Some(exe) = game_executable {
                    targets.push(MonitorTarget::CmdLineContains(exe.clone()));
                }
                let sanitized = remove_colons(&item);
                if !crate::text::chars_eq(&sanitized, &item) {
                    targets.push(MonitorTarget::CmdLineContains(string_of(&sanitized)));
                }
                return Some(MonitorTarget::Any(targets));
            },
            None => {},
        }
    }
    Some(create_app_monitor_target(exec, item_name))
}

} // verus!

//! Labelling and title extraction for the session-resume browser.
//!
//! Session files live under `<home>/sessions/<y>/<m>/<d>/rollout-*.jsonl`;
//! the popup labels each one with a title distilled from its log: the first
//! meaningful user message, else the files and commands it touched, else an
//! assistant reply.  Paths are handled as plain `/`-separated strings.

use vstd::prelude::*;
use vstd::string::StrSliceExecFns;
use crate::strings::{
    str_to_chars, chars_to_string, str_eq, str_contains, str_trim, str_lowercase, split_words,
    find_char, starts_with_lit, ends_with_lit, spec_words, spec_contains, spec_trim,
    spec_find_char, lower_of, lemma_find_char_props,
};
use crate::stream::new_string;

verus! {

/// What follows the last `/`, the whole string when it has none.
pub open spec fn spec_filename(s: Seq<char>) -> Seq<char>
    decreases s.len(),
{
    if s.len() == 0 {
        s
    } else if s.last() == '/' {
        Seq::empty()
    } else {
        spec_filename(s.drop_last()).push(s.last())
    }
}

proof fn lemma_filename_after_slash(s: Seq<char>, i: int)
    requires
        0 <= i < s.len(),
        s[i] == '/',
        forall|k: int| i < k < s.len() ==> s[k] != '/',
    ensures
        spec_filename(s) == s.skip(i + 1),
    decreases s.len(),
{
    if i == s.len() - 1 {
        assert(s.skip(i + 1) =~= Seq::<char>::empty());
    } else {
        lemma_filename_after_slash(s.drop_last(), i);
        assert(s.drop_last().skip(i + 1).push(s.last()) =~= s.skip(i + 1));
    }
}

proof fn lemma_filename_no_slash(s: Seq<char>)
    requires
        forall|k: int| 0 <= k < s.len() ==> s[k] != '/',
    ensures
        spec_filename(s) == s,
    decreases s.len(),
{
    if s.len() > 0 {
        lemma_filename_no_slash(s.drop_last());
        assert(s.drop_last().push(s.last()) =~= s);
    }
}

/// Index of the last `/`, if any.
fn find_last_slash(cs: &Vec<char>) -> (r: Option<usize>)
    ensures
        match r {
            Some(i) => i < cs@.len() && cs@[i as int] == '/' && (forall|k: int|
                i < k < cs@.len() ==> cs@[k] != '/') && spec_filename(cs@) == cs@.skip(i + 1),
            None => (forall|k: int| 0 <= k < cs@.len() ==> cs@[k] != '/') && spec_filename(cs@)
                == cs@,
        },
{
    let n = cs.len();
    let mut j: usize = n;
    while j > 0
        invariant
            j <= n,
            n == cs@.len(),
            forall|k: int| j <= k < n ==> cs@[k] != '/',
        decreases j,
    {
        if cs[j - 1] == '/' {
            proof {
                lemma_filename_after_slash(cs@, j - 1);
            }
            return Some(j - 1);
        }
        j = j - 1;
    }
    proof {
        lemma_filename_no_slash(cs@);
    }
    None
}

/// The file name at the end of a `/`-separated path.
pub fn extract_filename(path: &str) -> (r: &str)
    ensures
        r@ == spec_filename(path@),
{
    let cs = str_to_chars(path);
    let n = cs.len();
    match find_last_slash(&cs) {
        Some(i) => path.substring_char(i + 1, n),
        None => path.substring_char(0, n),
    }
}

/// The directory part of a `/`-separated path: what stands before the last
/// `/`, empty when there is none.
pub open spec fn spec_dirname(s: Seq<char>) -> Seq<char> {
    if s.len() >= spec_filename(s).len() + 1 {
        s.take(s.len() - spec_filename(s).len() - 1)
    } else {
        Seq::empty()
    }
}

fn dirname_chars(cs: &Vec<char>) -> (r: Vec<char>)
    ensures
        r@ == spec_dirname(cs@),
{
    match find_last_slash(cs) {
        Some(i) => {
            proof {
                assert(spec_filename(cs@).len() == cs@.len() - i - 1);
                assert(cs@.take(i as int) =~= cs@.take(
                    cs@.len() - spec_filename(cs@).len() - 1,
                ));
            }
            let mut r: Vec<char> = Vec::new();
            let mut k: usize = 0;
            while k < i
                invariant
                    k <= i,
                    i < cs@.len(),
                    r@ == cs@.take(k as int),
                decreases i - k,
            {
                r.push(cs[k]);
                proof {
                    assert(r@ =~= cs@.take(k + 1));
                }
                k = k + 1;
            }
            r
        },
        None => {
            proof {
                assert(spec_filename(cs@).len() == cs@.len());
            }
            Vec::new()
        },
    }
}

/// The label a path alone yields: the file name, with the parent directory
/// (the day folder) as context when there is one.
pub open spec fn spec_label_for_path(p: Seq<char>) -> Seq<char> {
    let name = if spec_filename(p).len() == 0 {
        "rollout.jsonl"@
    } else {
        spec_filename(p)
    };
    let parent = spec_filename(spec_dirname(p));
    if parent.len() == 0 {
        name
    } else {
        name + "  ("@ + parent + ")"@
    }
}

/// Label a session by its path: file name plus parent date folder.
pub fn label_for_path(path: &str) -> (r: String)
    ensures
        r@ == spec_label_for_path(path@),
{
    let cs = str_to_chars(path);
    let name = extract_filename(path);
    let name_chars = if name.unicode_len() == 0 {
        str_to_chars("rollout.jsonl")
    } else {
        str_to_chars(name)
    };
    let dir = dirname_chars(&cs);
    let dir_str = chars_to_string(&dir);
    let parent = extract_filename(dir_str.as_str());
    if parent.unicode_len() == 0 {
        chars_to_string(&name_chars)
    } else {
        let mut out = name_chars;
        let mut mid = str_to_chars("  (");
        let mut pc = str_to_chars(parent);
        let mut close = str_to_chars(")");
        out.append(&mut mid);
        out.append(&mut pc);
        out.append(&mut close);
        proof {
            assert(out@ =~= spec_label_for_path(path@));
        }
        chars_to_string(&out)
    }
}

/// A readable form of an ISO timestamp: `MM/DD HH:MM`; anything shorter than
/// sixteen characters is kept as it is.
pub open spec fn spec_readable_ts(ts: Seq<char>) -> Seq<char> {
    if ts.len() >= 16 {
        Seq::new(5, |i: int| if ts[5 + i] == '-' {
            '/'
        } else {
            ts[5 + i]
        }) + seq![' '] + ts.subrange(11, 16)
    } else {
        ts
    }
}

pub fn format_readable_timestamp(ts: &str) -> (r: String)
    ensures
        r@ == spec_readable_ts(ts@),
{
    let cs = str_to_chars(ts);
    let n = cs.len();
    if n >= 16 {
        let mut out: Vec<char> = Vec::new();
        let mut i: usize = 0;
        while i < 5
            invariant
                i <= 5,
                cs@ == ts@,
                n == ts@.len(),
                n >= 16,
                out@ == Seq::new(i as nat, |k: int| if ts@[5 + k] == '-' {
                    '/'
                } else {
                    ts@[5 + k]
                }),
            decreases 5 - i,
        {
            let c = cs[5 + i];
            if c == '-' {
                out.push('/');
            } else {
                out.push(c);
            }
            proof {
                assert(out@ =~= Seq::new((i + 1) as nat, |k: int| if ts@[5 + k] == '-' {
                    '/'
                } else {
                    ts@[5 + k]
                }));
            }
            i = i + 1;
        }
        out.push(' ');
        let mut j: usize = 11;
        while j < 16
            invariant
                11 <= j <= 16,
                cs@ == ts@,
                n == ts@.len(),
                n >= 16,
                out@ == Seq::new(5, |k: int| if ts@[5 + k] == '-' {
                    '/'
                } else {
                    ts@[5 + k]
                }) + seq![' '] + ts@.subrange(11, j as int),
            decreases 16 - j,
        {
            out.push(cs[j]);
            proof {
                assert(out@ =~= Seq::new(5, |k: int| if ts@[5 + k] == '-' {
                    '/'
                } else {
                    ts@[5 + k]
                }) + seq![' '] + ts@.subrange(11, j + 1));
            }
            j = j + 1;
        }
        chars_to_string(&out)
    } else {
        new_string(ts)
    }
}

/// A title cut to at most `max` characters, a cut marked with an ellipsis.
pub open spec fn spec_truncate_title(s: Seq<char>, max: int) -> Seq<char> {
    if s.len() <= max {
        s
    } else {
        s.take(
            if max >= 1 {
                max - 1
            } else {
                0
            },
        ) + seq!['\u{2026}']
    }
}

pub fn truncate_title(s: &str, max: usize) -> (r: String)
    ensures
        r@ == spec_truncate_title(s@, max as int),
{
    let cs = str_to_chars(s);
    let n = cs.len();
    if n <= max {
        new_string(s)
    } else {
        let keep = if max >= 1 {
            max - 1
        } else {
            0
        };
        let mut out: Vec<char> = Vec::new();
        let mut i: usize = 0;
        while i < keep
            invariant
                i <= keep,
                keep <= n,
                cs@ == s@,
                n == s@.len(),
                out@ == s@.take(i as int),
            decreases keep - i,
        {
            out.push(cs[i]);
            proof {
                assert(out@ =~= s@.take(i + 1));
            }
            i = i + 1;
        }
        out.push('\u{2026}');
        proof {
            assert(out@ =~= spec_truncate_title(s@, max as int));
        }
        chars_to_string(&out)
    }
}

/// Words joined by single spaces.
pub open spec fn spec_join_space(ws: Seq<Seq<char>>) -> Seq<char>
    decreases ws.len(),
{
    if ws.len() == 0 {
        Seq::empty()
    } else if ws.len() == 1 {
        ws[0]
    } else {
        spec_join_space(ws.drop_last()) + seq![' '] + ws.last()
    }
}

/// Join the first `upto` words with single spaces.
#[verifier::loop_isolation(false)]
fn join_space_upto(words: &Vec<String>, upto: usize) -> (r: Vec<char>)
    ensures
        r@ == spec_join_space(
            words@.map_values(|w: String| w@).take(
                if upto <= words@.len() {
                    upto as int
                } else {
                    words@.len() as int
                },
            ),
        ),
{
    let n = words.len();
    let lim = if upto <= n {
        upto
    } else {
        n
    };
    let ghost ws = words@.map_values(|w: String| w@);
    let mut out: Vec<char> = Vec::new();
    let mut i: usize = 0;
    while i < lim
        invariant
            i <= lim,
            lim <= n,
            out@ == spec_join_space(ws.take(i as int)),
        decreases lim - i,
    {
        if i > 0 {
            out.push(' ');
        }
        let mut wc = str_to_chars(words[i].as_str());
        out.append(&mut wc);
        proof {
            assert(ws.take(i + 1).drop_last() =~= ws.take(i as int));
            assert(ws.take(i + 1).last() == ws[i as int]);
            if i == 0 {
                assert(out@ =~= spec_join_space(ws.take(1)));
            } else {
                assert(out@ =~= spec_join_space(ws.take(i + 1)));
            }
        }
        i = i + 1;
    }
    out
}

/// The first line of a text.
pub open spec fn spec_first_line(s: Seq<char>) -> Seq<char> {
    match spec_find_char(s, '\n') {
        Some(i) => s.take(i),
        None => s,
    }
}

/// A one-line summary of a text: its first line, cut at the first sentence
/// mark (`.` before `!` before `?` before `:`), else its first twelve words.
pub open spec fn spec_summarize_title(s: Seq<char>) -> Seq<char> {
    let line = spec_trim(spec_first_line(s));
    if line.len() == 0 {
        Seq::empty()
    } else {
        match spec_find_char(line, '.') {
            Some(i) => spec_trim(line.take(i + 1)),
            None => match spec_find_char(line, '!') {
                Some(i) => spec_trim(line.take(i + 1)),
                None => match spec_find_char(line, '?') {
                    Some(i) => spec_trim(line.take(i + 1)),
                    None => match spec_find_char(line, ':') {
                        Some(i) => spec_trim(line.take(i + 1)),
                        None => spec_join_space(
                            spec_words(line).take(
                                if spec_words(line).len() <= 12 {
                                    spec_words(line).len() as int
                                } else {
                                    12
                                },
                            ),
                        ),
                    },
                },
            },
        }
    }
}

fn take_chars(cs: &Vec<char>, upto: usize) -> (r: Vec<char>)
    requires
        upto <= cs@.len(),
    ensures
        r@ == cs@.take(upto as int),
{
    let mut out: Vec<char> = Vec::new();
    let mut i: usize = 0;
    while i < upto
        invariant
            i <= upto,
            upto <= cs@.len(),
            out@ == cs@.take(i as int),
        decreases upto - i,
    {
        out.push(cs[i]);
        proof {
            assert(out@ =~= cs@.take(i + 1));
        }
        i = i + 1;
    }
    out
}

pub fn summarize_title(s: &str) -> (r: String)
    ensures
        r@ == spec_summarize_title(s@),
{
    let cs = str_to_chars(s);
    proof {
        assert(cs@.take(cs@.len() as int) =~= cs@);
        lemma_find_char_props(cs@, '\n');
    }
    let first = match find_char(&cs, '\n') {
        Some(i) => take_chars(&cs, i),
        None => take_chars(&cs, cs.len()),
    };
    let line = crate::strings::str_trim_chars(&first);
    if line.len() == 0 {
        proof {
            reveal_strlit("");
            assert(""@ =~= Seq::<char>::empty());
        }
        return new_string("");
    }
    let hit: Option<usize> = {
        match find_char(&line, '.') {
            Some(i) => Some(i),
            None => match find_char(&line, '!') {
                Some(i) => Some(i),
                None => match find_char(&line, '?') {
                    Some(i) => Some(i),
                    None => match find_char(&line, ':') {
                        Some(i) => Some(i),
                        None => None,
                    },
                },
            },
        }
    };
    proof {
        lemma_find_char_props(line@, '.');
        lemma_find_char_props(line@, '!');
        lemma_find_char_props(line@, '?');
        lemma_find_char_props(line@, ':');
    }
    match hit {
        Some(i) => {
            let snippet = take_chars(&line, i + 1);
            let trimmed = crate::strings::str_trim_chars(&snippet);
            chars_to_string(&trimmed)
        },
        None => {
            let line_str = chars_to_string(&line);
            let words = split_words(line_str.as_str());
            let joined = join_space_upto(&words, 12);
            chars_to_string(&joined)
        },
    }
}

/// A short form of a shell command: well-known tools keep their first
/// subcommand, anything else is cut to thirty characters.
pub open spec fn spec_summarize_command(cmd: Seq<char>) -> Seq<char> {
    let t = spec_trim(cmd);
    let ws = spec_words(t);
    if ws.len() == 0 {
        Seq::empty()
    } else if ws[0] == "cargo"@ || ws[0] == "npm"@ || ws[0] == "yarn"@ || ws[0] == "pnpm"@
        || ws[0] == "git"@ || ws[0] == "docker"@ || ws[0] == "make"@ || ws[0] == "just"@ {
        if ws.len() > 1 {
            ws[0] + seq![' '] + ws[1]
        } else {
            ws[0]
        }
    } else if t.len() > 30 {
        t.take(27) + "..."@
    } else {
        t
    }
}

pub fn summarize_command(cmd: &str) -> (r: String)
    ensures
        r@ == spec_summarize_command(cmd@),
{
    let t = str_trim(cmd);
    let words = split_words(t.as_str());
    if words.len() == 0 {
        proof {
            reveal_strlit("");
            assert(""@ =~= Seq::<char>::empty());
        }
        return new_string("");
    }
    let first = &words[0];
    let known = str_eq(first.as_str(), "cargo") || str_eq(first.as_str(), "npm") || str_eq(
        first.as_str(),
        "yarn",
    ) || str_eq(first.as_str(), "pnpm") || str_eq(first.as_str(), "git") || str_eq(
        first.as_str(),
        "docker",
    ) || str_eq(first.as_str(), "make") || str_eq(first.as_str(), "just");
    if known {
        if words.len() > 1 {
            let mut out = str_to_chars(first.as_str());
            out.push(' ');
            let mut second = str_to_chars(words[1].as_str());
            out.append(&mut second);
            proof {
                assert(out@ =~= spec_summarize_command(cmd@));
            }
            chars_to_string(&out)
        } else {
            first.clone()
        }
    } else {
        let tc = str_to_chars(t.as_str());
        if tc.len() > 30 {
            let mut out = take_chars(&tc, 27);
            let mut dots = str_to_chars("...");
            out.append(&mut dots);
            proof {
                assert(out@ =~= spec_summarize_command(cmd@));
            }
            chars_to_string(&out)
        } else {
            t
        }
    }
}

pub open spec fn spec_pattern_hit(lower: Seq<char>, joined: Seq<char>, p: Seq<char>) -> bool {
    spec_contains(lower, p) || joined == p
}

fn pattern_hit(lower: &str, joined: &str, p: &str) -> (r: bool)
    ensures
        r == spec_pattern_hit(lower@, joined@, p@),
{
    str_contains(lower, p) || str_eq(joined, p)
}

/// A message of at most four words that matches a stock acknowledgement.
pub open spec fn spec_is_boilerplate(text: Seq<char>) -> bool {
    let lower = lower_of(text);
    let ws = spec_words(lower);
    let joined = spec_join_space(ws);
    ws.len() <= 4 && (spec_pattern_hit(lower, joined, "ok"@) || spec_pattern_hit(
        lower,
        joined,
        "thanks"@,
    ) || spec_pattern_hit(lower, joined, "thank you"@) || spec_pattern_hit(
        lower,
        joined,
        "got it"@,
    ) || spec_pattern_hit(lower, joined, "understood"@) || spec_pattern_hit(
        lower,
        joined,
        "sure"@,
    ) || spec_pattern_hit(lower, joined, "yes"@) || spec_pattern_hit(
        lower,
        joined,
        "no problem"@,
    ) || spec_pattern_hit(lower, joined, "i'll help"@) || spec_pattern_hit(
        lower,
        joined,
        "let me help"@,
    ) || spec_pattern_hit(lower, joined, "i can help"@) || spec_pattern_hit(
        lower,
        joined,
        "here's"@,
    ) || spec_pattern_hit(lower, joined, "i've"@) || spec_pattern_hit(lower, joined, "done"@)
        || spec_pattern_hit(lower, joined, "completed"@) || spec_pattern_hit(
        lower,
        joined,
        "i understand"@,
    ) || spec_pattern_hit(lower, joined, "sounds good"@) || spec_pattern_hit(
        lower,
        joined,
        "perfect"@,
    ) || spec_pattern_hit(lower, joined, "great"@) || spec_pattern_hit(
        lower,
        joined,
        "excellent"@,
    ))
}

pub fn is_boilerplate_message(text: &str) -> (r: bool)
    ensures
        r == spec_is_boilerplate(text@),
{
    let lower = str_lowercase(text);
    let words = split_words(lower.as_str());
    if words.len() > 4 {
        return false;
    }
    let jc = join_space_upto(&words, words.len());
    proof {
        let ws = words@.map_values(|w: String| w@);
        assert(ws.take(ws.len() as int) =~= ws);
    }
    let joined = chars_to_string(&jc);
    let l = lower.as_str();
    let j = joined.as_str();
    pattern_hit(l, j, "ok") || pattern_hit(l, j, "thanks") || pattern_hit(l, j, "thank you")
        || pattern_hit(l, j, "got it") || pattern_hit(l, j, "understood") || pattern_hit(
        l,
        j,
        "sure",
    ) || pattern_hit(l, j, "yes") || pattern_hit(l, j, "no problem") || pattern_hit(
        l,
        j,
        "i'll help",
    ) || pattern_hit(l, j, "let me help") || pattern_hit(l, j, "i can help") || pattern_hit(
        l,
        j,
        "here's",
    ) || pattern_hit(l, j, "i've") || pattern_hit(l, j, "done") || pattern_hit(
        l,
        j,
        "completed",
    ) || pattern_hit(l, j, "i understand") || pattern_hit(l, j, "sounds good") || pattern_hit(
        l,
        j,
        "perfect",
    ) || pattern_hit(l, j, "great") || pattern_hit(l, j, "excellent")
}

/// Text that is a prompt-scaffolding placeholder rather than content: a known
/// tag, or something shaped like a bare tag.
pub open spec fn spec_is_placeholder(text: Seq<char>) -> bool {
    let lower = lower_of(text);
    let t = spec_trim(text);
    spec_contains(lower, "<user_instructions>"@) || spec_contains(lower, "<instructions>"@)
        || spec_contains(lower, "<system>"@) || spec_contains(lower, "<environment_context>"@)
        || spec_contains(lower, "<placeholder>"@) || spec_contains(lower, "<context>"@)
        || spec_contains(lower, "<system_message>"@) || spec_contains(
        lower,
        "user instructions"@,
    ) || spec_contains(lower, "system instructions"@) || spec_contains(
        lower,
        "environment context"@,
    ) || (t.len() > 0 && t[0] == '<' && t.last() == '>') || (t.len() > 0 && t[0] == '<'
        && spec_contains(text, ">"@) && text.len() < 50)
}

pub fn is_placeholder_text(text: &str) -> (r: bool)
    ensures
        r == spec_is_placeholder(text@),
{
    let lower = str_lowercase(text);
    let l = lower.as_str();
    if str_contains(l, "<user_instructions>") || str_contains(l, "<instructions>")
        || str_contains(l, "<system>") || str_contains(l, "<environment_context>")
        || str_contains(l, "<placeholder>") || str_contains(l, "<context>") || str_contains(
        l,
        "<system_message>",
    ) || str_contains(l, "user instructions") || str_contains(l, "system instructions")
        || str_contains(l, "environment context") {
        return true;
    }
    let tc = str_to_chars(text);
    let t = crate::strings::str_trim_chars(&tc);
    let n = t.len();
    if n > 0 && t[0] == '<' && t[n - 1] == '>' {
        return true;
    }
    if n > 0 && t[0] == '<' && str_contains(text, ">") && tc.len() < 50 {
        return true;
    }
    false
}

/// Whether a word ends in one of the well-known source-file extensions.
pub open spec fn spec_ends(w: Seq<char>, e: Seq<char>) -> bool {
    w.len() >= e.len() && w.skip(w.len() - e.len()) == e
}

pub open spec fn spec_has_known_ext(w: Seq<char>) -> bool {
    spec_ends(w, ".rs"@) || spec_ends(w, ".py"@) || spec_ends(w, ".js"@) || spec_ends(w, ".ts"@)
        || spec_ends(w, ".jsx"@) || spec_ends(w, ".tsx"@) || spec_ends(w, ".go"@) || spec_ends(
        w,
        ".java"@,
    ) || spec_ends(w, ".cpp"@) || spec_ends(w, ".c"@) || spec_ends(w, ".h"@) || spec_ends(
        w,
        ".md"@,
    ) || spec_ends(w, ".json"@) || spec_ends(w, ".toml"@) || spec_ends(w, ".yaml"@)
        || spec_ends(w, ".yml"@)
}

fn has_known_ext(wc: &Vec<char>) -> (r: bool)
    ensures
        r == spec_has_known_ext(wc@),
{
    ends_with_lit(wc, ".rs") || ends_with_lit(wc, ".py") || ends_with_lit(wc, ".js")
        || ends_with_lit(wc, ".ts") || ends_with_lit(wc, ".jsx") || ends_with_lit(wc, ".tsx")
        || ends_with_lit(wc, ".go") || ends_with_lit(wc, ".java") || ends_with_lit(wc, ".cpp")
        || ends_with_lit(wc, ".c") || ends_with_lit(wc, ".h") || ends_with_lit(wc, ".md")
        || ends_with_lit(wc, ".json") || ends_with_lit(wc, ".toml") || ends_with_lit(
        wc,
        ".yaml",
    ) || ends_with_lit(wc, ".yml")
}

/// The file a word mentions: an `@file` reference, or a word ending in a
/// known source extension; the mention is the file's base name.
pub open spec fn spec_mention_of(w: Seq<char>) -> Option<Seq<char>> {
    if w.len() > 1 && w[0] == '@' && spec_contains(w.skip(1), "."@) {
        Some(spec_filename(w.skip(1)))
    } else if spec_contains(w, "."@) && spec_has_known_ext(w) {
        Some(spec_filename(w))
    } else {
        None
    }
}

pub open spec fn spec_mentions(ws: Seq<Seq<char>>) -> Seq<Seq<char>>
    decreases ws.len(),
{
    if ws.len() == 0 {
        Seq::empty()
    } else {
        (match spec_mention_of(ws[0]) {
            Some(f) => seq![f],
            None => Seq::empty(),
        }) + spec_mentions(ws.drop_first())
    }
}

/// Collect the files a text mentions into `files`, in word order.
#[verifier::loop_isolation(false)]
pub fn extract_file_mentions(text: &str, files: &mut Vec<String>)
    ensures
        final(files)@.map_values(|f: String| f@) == old(files)@.map_values(|f: String| f@)
            + spec_mentions(spec_words(text@)),
{
    let words = split_words(text);
    let ghost ws = words@.map_values(|w: String| w@);
    let n = words.len();
    let mut i: usize = 0;
    proof {
        assert(ws.skip(0) =~= ws);
        assert(old(files)@.map_values(|f: String| f@) + spec_mentions(ws.skip(0))
            =~= old(files)@.map_values(|f: String| f@) + spec_mentions(ws));
    }
    while i < n
        invariant
            i <= n,
            n == words@.len(),
            old(files)@.map_values(|f: String| f@) + spec_mentions(ws) == files@.map_values(
                |f: String| f@,
            ) + spec_mentions(ws.skip(i as int)),
        decreases n - i,
    {
        proof {
            assert(ws.skip(i as int)[0] == ws[i as int]);
            assert(ws.skip(i as int).drop_first() =~= ws.skip(i + 1));
        }
        let w = &words[i];
        let wc = str_to_chars(w.as_str());
        let wn = wc.len();
        let mut pushed = false;
        if wn > 1 && wc[0] == '@' {
            let rest = w.as_str().substring_char(1, wn);
            if str_contains(rest, ".") {
                let f = extract_filename(rest);
                files.push(new_string(f));
                pushed = true;
            }
        }
        if !pushed && !(wn > 1 && wc[0] == '@' && str_contains(
            w.as_str().substring_char(1, wn),
            ".",
        )) {
            if str_contains(w.as_str(), ".") && has_known_ext(&wc) {
                let f = extract_filename(w.as_str());
                files.push(new_string(f));
                pushed = true;
            }
        }
        proof {
            if pushed {
                assert(files@.map_values(|f2: String| f2@) =~= files@.drop_last().map_values(
                    |f2: String| f2@,
                ).push(files@.last()@));
            }
            assert(old(files)@.map_values(|f2: String| f2@) + spec_mentions(ws)
                =~= files@.map_values(|f2: String| f2@) + spec_mentions(ws.skip(i + 1)));
        }
        i = i + 1;
    }
    proof {
        assert(spec_mentions(ws.skip(n as int)).len() == 0);
        assert(final(files)@.map_values(|f: String| f@) =~= old(files)@.map_values(
            |f: String| f@,
        ) + spec_mentions(ws));
    }
}

/// First-occurrence deduplication.
pub open spec fn spec_dedup_acc(s: Seq<Seq<char>>, out: Seq<Seq<char>>) -> Seq<Seq<char>>
    decreases s.len(),
{
    if s.len() == 0 {
        out
    } else {
        spec_dedup_acc(
            s.drop_first(),
            if out.contains(s[0]) {
                out
            } else {
                out.push(s[0])
            },
        )
    }
}

pub open spec fn spec_dedup(s: Seq<Seq<char>>) -> Seq<Seq<char>> {
    spec_dedup_acc(s, Seq::empty())
}

proof fn lemma_dedup_acc_len(s: Seq<Seq<char>>, out: Seq<Seq<char>>)
    ensures
        spec_dedup_acc(s, out).len() >= out.len(),
    decreases s.len(),
{
    if s.len() > 0 {
        if out.contains(s[0]) {
            lemma_dedup_acc_len(s.drop_first(), out);
        } else {
            lemma_dedup_acc_len(s.drop_first(), out.push(s[0]));
        }
    }
}

proof fn lemma_dedup_nonempty(s: Seq<Seq<char>>)
    requires
        s.len() > 0,
    ensures
        spec_dedup(s).len() >= 1,
{
    assert(!Seq::<Seq<char>>::empty().contains(s[0]));
    lemma_dedup_acc_len(s.drop_first(), Seq::<Seq<char>>::empty().push(s[0]));
}

fn vec_contains_str(v: &Vec<String>, w: &str) -> (r: bool)
    ensures
        r == crate::strings::views_of(v@).contains(w@),
{
    let n = v.len();
    let mut i: usize = 0;
    while i < n
        invariant
            i <= n,
            n == v@.len(),
            forall|k: int| 0 <= k < i ==> #[trigger] crate::strings::views_of(v@)[k] != w@,
        decreases n - i,
    {
        if str_eq(v[i].as_str(), w) {
            proof {
                assert(crate::strings::views_of(v@)[i as int] == w@);
            }
            return true;
        }
        i = i + 1;
    }
    proof {
        assert(!crate::strings::views_of(v@).contains(w@));
    }
    false
}

/// Deduplicate, keeping first occurrences in order.
#[verifier::loop_isolation(false)]
fn dedup_strings(v: &Vec<String>) -> (r: Vec<String>)
    ensures
        r@.map_values(|x: String| x@) == spec_dedup(v@.map_values(|x: String| x@)),
{
    let ghost vs = crate::strings::views_of(v@);
    let n = v.len();
    let mut out: Vec<String> = Vec::new();
    let mut i: usize = 0;
    proof {
        assert(vs.skip(0) =~= vs);
        assert(crate::strings::views_of(out@) =~= Seq::<Seq<char>>::empty());
    }
    while i < n
        invariant
            i <= n,
            n == v@.len(),
            spec_dedup(vs) == spec_dedup_acc(vs.skip(i as int), crate::strings::views_of(out@)),
        decreases n - i,
    {
        proof {
            assert(vs.skip(i as int)[0] == vs[i as int]);
            assert(vs.skip(i as int).drop_first() =~= vs.skip(i + 1));
        }
        let ghost before = crate::strings::views_of(out@);
        if !vec_contains_str(&out, v[i].as_str()) {
            out.push(v[i].clone());
            proof {
                assert(crate::strings::views_of(out@) =~= before.push(vs[i as int]));
            }
        }
        i = i + 1;
    }
    proof {
        assert(vs.skip(n as int).len() == 0);
        assert(out@.map_values(|x: String| x@) == crate::strings::views_of(out@));
    }
    out
}

/// A title with the first mentioned file added when it names none itself.
pub open spec fn spec_add_context(title: Seq<char>, fm: Seq<Seq<char>>) -> Seq<char> {
    if fm.len() > 0 && !spec_contains(lower_of(title), ".rs"@) && !spec_contains(
        lower_of(title),
        ".py"@,
    ) && !spec_contains(lower_of(title), ".js"@) {
        title + " ("@ + spec_dedup(fm)[0] + ")"@
    } else {
        title
    }
}

pub fn add_context_to_title(title: String, tool_calls: &Vec<String>, files_mentioned: &Vec<
    String,
>) -> (r: String)
    ensures
        r@ == spec_add_context(title@, files_mentioned@.map_values(|x: String| x@)),
{
    let _ = tool_calls;
    if files_mentioned.len() == 0 {
        return title;
    }
    let lower = str_lowercase(title.as_str());
    let l = lower.as_str();
    if str_contains(l, ".rs") || str_contains(l, ".py") || str_contains(l, ".js") {
        return title;
    }
    let uf = dedup_strings(files_mentioned);
    proof {
        lemma_dedup_nonempty(files_mentioned@.map_values(|x: String| x@));
    }
    let mut out = str_to_chars(title.as_str());
    let mut open_paren = str_to_chars(" (");
    let mut f = str_to_chars(uf[0].as_str());
    let mut close = str_to_chars(")");
    out.append(&mut open_paren);
    out.append(&mut f);
    out.append(&mut close);
    proof {
        assert(out@ =~= spec_add_context(title@, files_mentioned@.map_values(|x: String| x@)));
    }
    chars_to_string(&out)
}

/// The `in <file>` context words built from the mentioned files.
pub open spec fn spec_file_context_parts(fm: Seq<Seq<char>>) -> Seq<Seq<char>> {
    let uf = spec_dedup(fm);
    if fm.len() == 0 {
        Seq::empty()
    } else if uf.len() == 1 {
        seq!["in "@ + uf[0]]
    } else {
        seq!["in "@ + uf[0] + " & "@ + uf[1]]
    }
}

/// The title a session's collected evidence yields: the first meaningful
/// user message with file context; else the first tool call and files; else
/// the first meaningful assistant message.
pub open spec fn spec_build_session_title(
    u: Seq<Seq<char>>,
    a: Seq<Seq<char>>,
    tc: Seq<Seq<char>>,
    fm: Seq<Seq<char>>,
) -> Option<Seq<char>> {
    if u.len() > 0 && spec_summarize_title(u[0]).len() > 0 {
        Some(spec_add_context(spec_summarize_title(u[0]), fm))
    } else if tc.len() > 0 || fm.len() > 0 {
        Some(
            spec_join_space(
                (if tc.len() > 0 {
                    seq![tc[0]]
                } else {
                    Seq::empty()
                }) + spec_file_context_parts(fm),
            ),
        )
    } else if a.len() > 0 && spec_summarize_title(a[0]).len() > 0 {
        Some(spec_summarize_title(a[0]))
    } else {
        None
    }
}

pub fn build_session_title(
    user_candidates: Vec<String>,
    assistant_candidates: Vec<String>,
    tool_calls: Vec<String>,
    files_mentioned: Vec<String>,
) -> (r: Option<String>)
    ensures
        match r {
            Some(t) => spec_build_session_title(
                user_candidates@.map_values(|x: String| x@),
                assistant_candidates@.map_values(|x: String| x@),
                tool_calls@.map_values(|x: String| x@),
                files_mentioned@.map_values(|x: String| x@),
            ) == Some(t@),
            None => spec_build_session_title(
                user_candidates@.map_values(|x: String| x@),
                assistant_candidates@.map_values(|x: String| x@),
                tool_calls@.map_values(|x: String| x@),
                files_mentioned@.map_values(|x: String| x@),
            ) is None,
        },
{
    let ghost fmv = files_mentioned@.map_values(|x: String| x@);
    if user_candidates.len() > 0 {
        let summary = summarize_title(user_candidates[0].as_str());
        if summary.as_str().unicode_len() > 0 {
            return Some(add_context_to_title(summary, &tool_calls, &files_mentioned));
        }
    }
    if tool_calls.len() > 0 || files_mentioned.len() > 0 {
        let mut parts: Vec<String> = Vec::new();
        if tool_calls.len() > 0 {
            parts.push(tool_calls[0].clone());
        }
        if files_mentioned.len() > 0 {
            let uf = dedup_strings(&files_mentioned);
            proof {
                lemma_dedup_nonempty(fmv);
            }
            if uf.len() == 1 {
                let mut fc = str_to_chars("in ");
                let mut f0 = str_to_chars(uf[0].as_str());
                fc.append(&mut f0);
                parts.push(chars_to_string(&fc));
            } else {
                let mut fc = str_to_chars("in ");
                let mut f0 = str_to_chars(uf[0].as_str());
                let mut amp = str_to_chars(" & ");
                let mut f1 = str_to_chars(uf[1].as_str());
                fc.append(&mut f0);
                fc.append(&mut amp);
                fc.append(&mut f1);
                parts.push(chars_to_string(&fc));
            }
        }
        let joined = join_space_upto(&parts, parts.len());
        proof {
            let pv = parts@.map_values(|x: String| x@);
            assert(pv.take(pv.len() as int) =~= pv);
            assert(pv =~= (if tool_calls@.map_values(|x: String| x@).len() > 0 {
                seq![tool_calls@.map_values(|x: String| x@)[0]]
            } else {
                Seq::<Seq<char>>::empty()
            }) + spec_file_context_parts(fmv));
        }
        return Some(chars_to_string(&joined));
    }
    if assistant_candidates.len() > 0 {
        let summary = summarize_title(assistant_candidates[0].as_str());
        if summary.as_str().unicode_len() > 0 {
            return Some(summary);
        }
    }
    None
}

/// Parts joined by a separator.
pub open spec fn spec_join_sep(parts: Seq<Seq<char>>, sep: Seq<char>) -> Seq<char>
    decreases parts.len(),
{
    if parts.len() == 0 {
        Seq::empty()
    } else if parts.len() == 1 {
        parts[0]
    } else {
        spec_join_sep(parts.drop_last(), sep) + sep + parts.last()
    }
}

#[verifier::loop_isolation(false)]
fn join_sep(parts: &Vec<String>, sep: &str) -> (r: Vec<char>)
    ensures
        r@ == spec_join_sep(crate::strings::views_of(parts@), sep@),
{
    let ghost pv = crate::strings::views_of(parts@);
    let n = parts.len();
    let mut out: Vec<char> = Vec::new();
    let mut i: usize = 0;
    while i < n
        invariant
            i <= n,
            n == parts@.len(),
            out@ == spec_join_sep(pv.take(i as int), sep@),
        decreases n - i,
    {
        if i > 0 {
            let mut sc = str_to_chars(sep);
            out.append(&mut sc);
        }
        let mut pc = str_to_chars(parts[i].as_str());
        out.append(&mut pc);
        proof {
            assert(pv.take(i + 1).drop_last() =~= pv.take(i as int));
            assert(pv.take(i + 1).last() == pv[i as int]);
            if i == 0 {
                assert(out@ =~= spec_join_sep(pv.take(1), sep@));
            } else {
                assert(out@ =~= spec_join_sep(pv.take(i + 1), sep@));
            }
        }
        i = i + 1;
    }
    proof {
        assert(pv.take(n as int) =~= pv);
    }
    out
}

/// The `Branch: <name>` part, shown only for a branch worth naming.
pub open spec fn spec_branch_parts(b: Option<Seq<char>>) -> Seq<Seq<char>> {
    match b {
        Some(x) => if x.len() > 0 && x != "main"@ && x != "master"@ {
            seq!["Branch: "@ + x]
        } else {
            Seq::empty()
        },
        None => Seq::empty(),
    }
}

/// The label of one session row: the truncated title and timestamp with
/// branch context; a timestamp-led line when no title was found; the path
/// alone as a last resort.
pub open spec fn spec_label_parts(
    meta: Option<(Seq<char>, Option<Seq<char>>)>,
    title: Option<Seq<char>>,
) -> Seq<Seq<char>> {
    if title is Some && meta is Some {
        (if spec_truncate_title(title.unwrap(), 60).len() > 0 {
            seq![spec_truncate_title(title.unwrap(), 60)]
        } else {
            Seq::empty()
        }) + seq![spec_readable_ts(meta.unwrap().0)] + spec_branch_parts(meta.unwrap().1)
    } else if title is Some {
        if spec_truncate_title(title.unwrap(), 60).len() > 0 {
            seq![spec_truncate_title(title.unwrap(), 60)]
        } else {
            Seq::empty()
        }
    } else if meta is Some {
        seq!["Session from "@ + spec_readable_ts(meta.unwrap().0)] + spec_branch_parts(
            meta.unwrap().1,
        )
    } else {
        Seq::empty()
    }
}

pub open spec fn spec_build_label(
    path: Seq<char>,
    meta: Option<(Seq<char>, Option<Seq<char>>)>,
    title: Option<Seq<char>>,
) -> Seq<char> {
    let parts = spec_label_parts(meta, title);
    if parts.len() == 0 {
        spec_label_for_path(path)
    } else {
        spec_join_sep(parts, "  \u{2022}  "@)
    }
}

/// Build one session row's label from its path, header metadata, and title.
pub fn build_label(
    path: &str,
    meta: Option<&(String, Option<String>)>,
    cwd: Option<&str>,
    title: Option<&str>,
) -> (r: String)
    ensures
        r@ == spec_build_label(
            path@,
            match meta {
                Some(m) => Some(
                    (
                        m.0@,
                        match m.1 {
                            Some(b) => Some(b@),
                            None => None,
                        },
                    ),
                ),
                None => None,
            },
            match title {
                Some(t) => Some(t@),
                None => None,
            },
        ),
{
    let _ = cwd;
    let mut parts: Vec<String> = Vec::new();
    match title {
        Some(t) => {
            let truncated = truncate_title(t, 60);
            if truncated.as_str().unicode_len() > 0 {
                parts.push(truncated);
            }
            match meta {
                Some(m) => {
                    parts.push(format_readable_timestamp(m.0.as_str()));
                    match &m.1 {
                        Some(b) => {
                            if b.as_str().unicode_len() > 0 && !str_eq(b.as_str(), "main")
                                && !str_eq(b.as_str(), "master") {
                                let mut bc = str_to_chars("Branch: ");
                                let mut bn = str_to_chars(b.as_str());
                                bc.append(&mut bn);
                                parts.push(chars_to_string(&bc));
                            }
                        },
                        None => {},
                    }
                },
                None => {},
            }
        },
        None => {
            match meta {
                Some(m) => {
                    let mut sc = str_to_chars("Session from ");
                    let mut tsv = str_to_chars(format_readable_timestamp(m.0.as_str()).as_str());
                    sc.append(&mut tsv);
                    parts.push(chars_to_string(&sc));
                    match &m.1 {
                        Some(b) => {
                            if b.as_str().unicode_len() > 0 && !str_eq(b.as_str(), "main")
                                && !str_eq(b.as_str(), "master") {
                                let mut bc = str_to_chars("Branch: ");
                                let mut bn = str_to_chars(b.as_str());
                                bc.append(&mut bn);
                                parts.push(chars_to_string(&bc));
                            }
                        },
                        None => {},
                    }
                },
                None => {},
            }
        },
    }
    proof {
        assert(crate::strings::views_of(parts@) =~= spec_label_parts(
            match meta {
                Some(m) => Some(
                    (
                        m.0@,
                        match m.1 {
                            Some(b) => Some(b@),
                            None => None,
                        },
                    ),
                ),
                None => None,
            },
            match title {
                Some(t) => Some(t@),
                None => None,
            },
        ));
    }
    if parts.len() == 0 {
        label_for_path(path)
    } else {
        let joined = join_sep(&parts, "  \u{2022}  ");
        chars_to_string(&joined)
    }
}

/// The cap on collected candidates of each kind while scanning a log.
pub open spec fn spec_max_candidates() -> int {
    5
}

/// Whether the trimmed text of a user message may serve as a title.
pub open spec fn spec_accept_user(t: Seq<char>) -> bool {
    t.len() > 0 && t[0] != '/' && spec_words(t).len() >= 3 && !spec_is_boilerplate(t)
        && !spec_is_placeholder(t)
}

/// Whether the trimmed text of an assistant message may serve as a title.
pub open spec fn spec_accept_assistant(t: Seq<char>) -> bool {
    t.len() > 0 && spec_words(t).len() >= 3 && !spec_is_boilerplate(t) && !spec_is_placeholder(
        t,
    )
}

/// The evidence collected while scanning one session log for a title:
/// candidate user and assistant messages, summarized tool calls, and
/// mentioned files, each capped.
pub struct TitleScan {
    pub user_candidates: Vec<String>,
    pub assistant_candidates: Vec<String>,
    pub tool_calls: Vec<String>,
    pub files_mentioned: Vec<String>,
}

impl TitleScan {
    pub fn new() -> (s: Self)
        ensures
            s.user_candidates@.len() == 0,
            s.assistant_candidates@.len() == 0,
            s.tool_calls@.len() == 0,
            s.files_mentioned@.len() == 0,
    {
        TitleScan {
            user_candidates: Vec::new(),
            assistant_candidates: Vec::new(),
            tool_calls: Vec::new(),
            files_mentioned: Vec::new(),
        }
    }

    /// Take in one message of the log.  With both candidate lists full, or a
    /// blank text, nothing changes.  Otherwise the mentioned files are
    /// collected, and the trimmed text joins the user or assistant
    /// candidates when its role accepts it and its list is not full.
    pub fn scan_message(&mut self, role: &str, text: &str)
        ensures
            final(self).tool_calls == old(self).tool_calls,
            (old(self).user_candidates@.len() >= spec_max_candidates() && old(
                self,
            ).assistant_candidates@.len() >= spec_max_candidates()) || spec_trim(text@).len()
                == 0 ==> *final(self) == *old(self),
            !((old(self).user_candidates@.len() >= spec_max_candidates() && old(
                self,
            ).assistant_candidates@.len() >= spec_max_candidates()) || spec_trim(text@).len()
                == 0) ==> {
                &&& crate::strings::views_of(final(self).files_mentioned@)
                    == crate::strings::views_of(old(self).files_mentioned@) + spec_mentions(
                    spec_words(spec_trim(text@)),
                )
                &&& crate::strings::views_of(final(self).user_candidates@) == (if role@
                    == "user"@ && spec_accept_user(spec_trim(text@)) && old(
                    self,
                ).user_candidates@.len() < spec_max_candidates() {
                    crate::strings::views_of(old(self).user_candidates@).push(spec_trim(text@))
                } else {
                    crate::strings::views_of(old(self).user_candidates@)
                })
                &&& crate::strings::views_of(final(self).assistant_candidates@) == (if role@
                    == "assistant"@ && spec_accept_assistant(spec_trim(text@)) && old(
                    self,
                ).assistant_candidates@.len() < spec_max_candidates() {
                    crate::strings::views_of(old(self).assistant_candidates@).push(
                        spec_trim(text@),
                    )
                } else {
                    crate::strings::views_of(old(self).assistant_candidates@)
                })
            },
    {
        proof {
            reveal_strlit("user");
            reveal_strlit("assistant");
            assert("user"@.len() != "assistant"@.len());
        }
        if self.user_candidates.len() >= 5 && self.assistant_candidates.len() >= 5 {
            return ;
        }
        let t = str_trim(text);
        let tc = str_to_chars(t.as_str());
        if tc.len() == 0 {
            return ;
        }
        extract_file_mentions(t.as_str(), &mut self.files_mentioned);
        proof {
            assert(crate::strings::views_of(self.files_mentioned@) =~= crate::strings::views_of(
                old(self).files_mentioned@,
            ) + spec_mentions(spec_words(spec_trim(text@))));
        }
        let looks_like_command = tc[0] == '/';
        let words = split_words(t.as_str());
        let too_short = words.len() < 3;
        let boiler = is_boilerplate_message(t.as_str());
        let placeholder = is_placeholder_text(t.as_str());
        if str_eq(role, "user") && !looks_like_command && !too_short && !boiler && !placeholder {
            if self.user_candidates.len() < 5 {
                self.user_candidates.push(t);
                proof {
                    assert(crate::strings::views_of(self.user_candidates@)
                        =~= crate::strings::views_of(old(self).user_candidates@).push(
                        spec_trim(text@),
                    ));
                }
            }
        } else if str_eq(role, "assistant") && !too_short && !boiler && !placeholder
            && self.assistant_candidates.len() < 5 {
            self.assistant_candidates.push(t);
            proof {
                assert(crate::strings::views_of(self.assistant_candidates@)
                    =~= crate::strings::views_of(old(self).assistant_candidates@).push(
                    spec_trim(text@),
                ));
            }
        }
    }

    /// Take in one tool call of the log: a file edit contributes
    /// `edited <file>`, a shell call its summarized command; the list caps
    /// out at five.
    pub fn scan_function_call(&mut self, name: &str, file_path: Option<&str>, command: Option<
        &str,
    >)
        ensures
            final(self).user_candidates == old(self).user_candidates,
            final(self).assistant_candidates == old(self).assistant_candidates,
            final(self).files_mentioned == old(self).files_mentioned,
            old(self).tool_calls@.len() >= spec_max_candidates() ==> final(self).tool_calls
                == old(self).tool_calls,
            old(self).tool_calls@.len() < spec_max_candidates() ==> crate::strings::views_of(
                final(self).tool_calls@,
            ) == (if (role_is_edit(name@)) && file_path is Some {
                crate::strings::views_of(old(self).tool_calls@).push(
                    "edited "@ + spec_filename(file_path.unwrap()@),
                )
            } else if (role_is_shell(name@)) && command is Some && spec_summarize_command(
                command.unwrap()@,
            ).len() > 0 {
                crate::strings::views_of(old(self).tool_calls@).push(
                    spec_summarize_command(command.unwrap()@),
                )
            } else {
                crate::strings::views_of(old(self).tool_calls@)
            }),
    {
        proof {
            reveal_strlit("edit_file");
            reveal_strlit("write_file");
            reveal_strlit("create_file");
            reveal_strlit("bash");
            reveal_strlit("shell");
            assert("edit_file"@.len() != "bash"@.len() && "edit_file"@.len() != "shell"@.len()
                && "write_file"@.len() != "bash"@.len() && "write_file"@.len() != "shell"@.len()
                && "create_file"@.len() != "bash"@.len() && "create_file"@.len()
                != "shell"@.len());
        }
        if self.tool_calls.len() >= 5 {
            return ;
        }
        let is_edit = str_eq(name, "edit_file") || str_eq(name, "write_file") || str_eq(
            name,
            "create_file",
        );
        let is_shell = str_eq(name, "bash") || str_eq(name, "shell");
        if is_edit {
            match file_path {
                Some(p) => {
                    let mut out = str_to_chars("edited ");
                    let mut f = str_to_chars(extract_filename(p));
                    out.append(&mut f);
                    self.tool_calls.push(chars_to_string(&out));
                    proof {
                        assert(crate::strings::views_of(self.tool_calls@)
                            =~= crate::strings::views_of(old(self).tool_calls@).push(
                            "edited "@ + spec_filename(p@),
                        ));
                    }
                },
                None => {},
            }
        } else if is_shell {
            match command {
                Some(c) => {
                    let s = summarize_command(c);
                    if s.as_str().unicode_len() > 0 {
                        self.tool_calls.push(s);
                        proof {
                            assert(crate::strings::views_of(self.tool_calls@)
                                =~= crate::strings::views_of(old(self).tool_calls@).push(
                                spec_summarize_command(c@),
                            ));
                        }
                    }
                },
                None => {},
            }
        }
    }

    /// Whether the scan has gathered enough to stop reading early.
    pub fn has_enough(&self) -> (r: bool)
        ensures
            r == (self.user_candidates@.len() > 0 && self.tool_calls@.len() > 0
                && self.files_mentioned@.len() > 0),
    {
        self.user_candidates.len() > 0 && self.tool_calls.len() > 0
            && self.files_mentioned.len() > 0
    }

    /// Distill the collected evidence into a title.
    pub fn finish(self) -> (r: Option<String>)
        ensures
            match r {
                Some(t) => spec_build_session_title(
                    crate::strings::views_of(self.user_candidates@),
                    crate::strings::views_of(self.assistant_candidates@),
                    crate::strings::views_of(self.tool_calls@),
                    crate::strings::views_of(self.files_mentioned@),
                ) == Some(t@),
                None => spec_build_session_title(
                    crate::strings::views_of(self.user_candidates@),
                    crate::strings::views_of(self.assistant_candidates@),
                    crate::strings::views_of(self.tool_calls@),
                    crate::strings::views_of(self.files_mentioned@),
                ) is None,
            },
    {
        build_session_title(
            self.user_candidates,
            self.assistant_candidates,
            self.tool_calls,
            self.files_mentioned,
        )
    }
}

/// A tool name that edits a file.
pub open spec fn role_is_edit(name: Seq<char>) -> bool {
    name == "edit_file"@ || name == "write_file"@ || name == "create_file"@
}

/// A tool name that runs a shell command.
pub open spec fn role_is_shell(name: Seq<char>) -> bool {
    name == "bash"@ || name == "shell"@
}

/// A session log file name: `rollout-*.jsonl`.
pub fn is_rollout_filename(name: &str) -> (r: bool)
    ensures
        r == (name@.len() >= 8 && name@.take(8) == "rollout-"@ && name@.len() >= 6 && name@.skip(
            name@.len() - 6,
        ) == ".jsonl"@),
{
    proof {
        reveal_strlit("rollout-");
        reveal_strlit(".jsonl");
    }
    let cs = str_to_chars(name);
    starts_with_lit(&cs, "rollout-") && ends_with_lit(&cs, ".jsonl")
}

/// One selectable session.
pub struct SessionEntry {
    pub path: String,
    pub label: String,
}

/// The most rows the popup shows at once.
pub open spec fn spec_max_popup_rows() -> int {
    8
}

/// Scrolling: the window moves just far enough to keep the selected row in
/// view.
pub open spec fn spec_ensure_visible(top: int, sel: int, visible: int) -> int {
    if sel < top {
        sel
    } else if visible > 0 && sel >= top + visible {
        sel + 1 - visible
    } else {
        top
    }
}

/// The clamped selection after a relative move.
pub open spec fn spec_clamped_move(cur: int, delta: int, len: int) -> int {
    if cur + delta < 0 {
        0
    } else if cur + delta >= len {
        len - 1
    } else {
        cur + delta
    }
}

/// The popup listing previous sessions: the entries, the filtered view onto
/// them (an entry index, optional match positions, and a score per row), the
/// filter text, and the selection.
pub struct SessionResumePopup {
    pub entries: Vec<SessionEntry>,
    pub filtered: Vec<(usize, Option<Vec<usize>>, i32)>,
    pub filter: String,
    pub selected_idx: Option<usize>,
    pub scroll_top: usize,
    pub done: bool,
}

impl SessionResumePopup {
    /// Every filtered row points at an entry, the selection points at a
    /// filtered row, and the list is small enough for signed arithmetic.
    pub open spec fn wf(self) -> bool {
        &&& forall|k: int|
            0 <= k < self.filtered@.len() ==> (#[trigger] self.filtered@[k]).0 < self.entries@.len()
        &&& match self.selected_idx {
            Some(s) => s < self.filtered@.len(),
            None => true,
        }
        &&& self.filtered@.len() <= 0x7fffffff
    }

    /// A popup over the given entries, unfiltered: one row per entry in
    /// order, the first selected when there is one.
    pub fn with_entries(entries: Vec<SessionEntry>) -> (p: Self)
        requires
            entries@.len() <= 0x7fffffff,
        ensures
            p.wf(),
            p.entries == entries,
            p.filtered@.len() == entries@.len(),
            forall|k: int| 0 <= k < entries@.len() ==> (#[trigger] p.filtered@[k]).0 == k,
            p.selected_idx == (if entries@.len() > 0 {
                Some(0usize)
            } else {
                None::<usize>
            }),
            !p.done,
    {
        let n = entries.len();
        let mut filtered: Vec<(usize, Option<Vec<usize>>, i32)> = Vec::new();
        let mut i: usize = 0;
        while i < n
            invariant
                i <= n,
                filtered@.len() == i,
                forall|k: int| 0 <= k < i ==> (#[trigger] filtered@[k]).0 == k,
            decreases n - i,
        {
            filtered.push((i, None, 0));
            i = i + 1;
        }
        let selected_idx = if n > 0 {
            Some(0usize)
        } else {
            None
        };
        SessionResumePopup {
            entries,
            filtered,
            filter: new_string(""),
            selected_idx,
            scroll_top: 0,
            done: false,
        }
    }

    /// Rows shown at once: the filtered count, capped, and at least one.
    pub fn page_size(&self) -> (r: usize)
        ensures
            r as int == (if self.filtered@.len() == 0 {
                1int
            } else if self.filtered@.len() < spec_max_popup_rows() {
                self.filtered@.len() as int
            } else {
                spec_max_popup_rows()
            }),
    {
        let len = self.filtered.len();
        let page = if len < 8 {
            len
        } else {
            8
        };
        if page < 1 {
            1
        } else {
            page
        }
    }

    /// Half a page, at least one row.
    pub fn half_page_size(&self) -> (r: usize)
        ensures
            r >= 1,
            r as int == {
                let p = (if self.filtered@.len() == 0 {
                    1int
                } else if self.filtered@.len() < spec_max_popup_rows() {
                    self.filtered@.len() as int
                } else {
                    spec_max_popup_rows()
                });
                if p / 2 >= 1 {
                    p / 2
                } else {
                    1int
                }
            },
    {
        let p = self.page_size();
        let h = p / 2;
        if h < 1 {
            1
        } else {
            h
        }
    }

    /// Move the selection by `delta` rows, clamped to the list, and keep it
    /// visible.
    pub fn move_selection_by(&mut self, delta: isize)
        requires
            old(self).wf(),
        ensures
            final(self).wf(),
            final(self).entries == old(self).entries,
            final(self).filtered == old(self).filtered,
            final(self).filter == old(self).filter,
            final(self).done == old(self).done,
            old(self).filtered@.len() == 0 ==> *final(self) == *old(self),
            old(self).filtered@.len() > 0 ==> {
                let cur = (match old(self).selected_idx {
                    Some(s) => s as int,
                    None => 0int,
                });
                let next = spec_clamped_move(cur, delta as int, old(self).filtered@.len() as int);
                final(self).selected_idx == Some(next as usize) && final(self).scroll_top as int
                    == spec_ensure_visible(
                    old(self).scroll_top as int,
                    next,
                    (if old(self).filtered@.len() < spec_max_popup_rows() {
                        old(self).filtered@.len() as int
                    } else {
                        spec_max_popup_rows()
                    }),
                )
            },
    {
        let len = self.filtered.len();
        if len == 0 {
            return ;
        }
        let cur: usize = match self.selected_idx {
            Some(s) => s,
            None => 0,
        };
        let cur_i: i64 = cur as i64;
        let delta_i: i64 = if delta >= 0 {
            if delta as usize > len {
                len as i64
            } else {
                delta as i64
            }
        } else {
            if delta <= -(len as i64 as isize) {
                -(len as i64)
            } else {
                delta as i64
            }
        };
        let next_i: i64 = cur_i + delta_i;
        let next: usize = if next_i < 0 {
            0
        } else if next_i >= len as i64 {
            len - 1
        } else {
            next_i as usize
        };
        proof {
            assert(next as int == spec_clamped_move(
                cur as int,
                delta as int,
                self.filtered@.len() as int,
            ));
        }
        self.selected_idx = Some(next);
        let visible = if len < 8 {
            len
        } else {
            8
        };
        if next < self.scroll_top {
            self.scroll_top = next;
        } else if next >= self.scroll_top + visible {
            self.scroll_top = next + 1 - visible;
        }
    }

    /// The path of the selected session, if one is selected.
    pub fn selected_entry_path(&self) -> (r: Option<String>)
        requires
            self.wf(),
        ensures
            match r {
                Some(p) => self.selected_idx matches Some(s) && p@
                    == self.entries@[self.filtered@[s as int].0 as int].path@,
                None => self.selected_idx is None,
            },
    {
        match self.selected_idx {
            Some(s) => {
                let idx = self.filtered[s].0;
                Some(self.entries[idx].path.clone())
            },
            None => None,
        }
    }
}

} // verus!

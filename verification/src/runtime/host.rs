//! The pure parts of the host process provider: splitting a command line
//! into words, and turning a finished process's output into events. The
//! process itself is run by the program around the library.
use vstd::prelude::*;

use super::{cap_event_views, CapabilityEvent, ProviderResponse, RuntimeError, RuntimeValue, SpecCapabilityEvent, SpecErrorKind};
use crate::text::{chars_of, is_empty_text, lines_from, push_char, push_str, split_lines, string_from_chars, to_owned_string, views};

verus! {

/// Unicode white space, as `char::is_whitespace` classifies it.
pub open spec fn is_white(c: char) -> bool {
    c == ' ' || ('\t' <= c && c <= '\r') || c == '\u{85}' || c == '\u{A0}' || c == '\u{1680}' || (
    '\u{2000}' <= c && c <= '\u{200A}') || c == '\u{2028}' || c == '\u{2029}' || c == '\u{202F}'
        || c == '\u{205F}' || c == '\u{3000}'
}

fn char_is_white(c: char) -> (r: bool)
    ensures
        r == is_white(c),
{
    c == ' ' || ('\t' <= c && c <= '\r') || c == '\u{85}' || c == '\u{A0}' || c == '\u{1680}' || (
    '\u{2000}' <= c && c <= '\u{200A}') || c == '\u{2028}' || c == '\u{2029}' || c == '\u{202F}'
        || c == '\u{205F}' || c == '\u{3000}'
}

/// Where splitting a command line stands: the words so far, the word being
/// read, and the quote character open, if any.
pub struct Scan {
    pub words: Seq<Seq<char>>,
    pub word: Seq<char>,
    pub quote: Option<char>,
}

/// Splitting `s` from `i`: quotes (`'` or `"`) group words and are dropped,
/// the other quote character inside a quoted part is kept, a backslash keeps
/// the character after it, white space outside quotes ends a word.
pub open spec fn scan_from(s: Seq<char>, i: int, st: Scan) -> Scan
    decreases s.len() - i,
{
    if i < 0 || i >= s.len() {
        st
    } else {
        let c = s[i];
        if c == '\'' || c == '"' {
            match st.quote {
                Some(q) => if c == q {
                    scan_from(s, i + 1, Scan { quote: None, ..st })
                } else {
                    scan_from(s, i + 1, Scan { word: st.word.push(c), ..st })
                },
                None => scan_from(s, i + 1, Scan { quote: Some(c), ..st }),
            }
        } else if c == '\\' {
            if i + 1 < s.len() {
                scan_from(s, i + 2, Scan { word: st.word.push(s[i + 1]), ..st })
            } else {
                scan_from(s, i + 1, st)
            }
        } else if is_white(c) && st.quote is None {
            if st.word.len() > 0 {
                scan_from(s, i + 1, Scan { words: st.words.push(st.word), word: Seq::empty(), ..st })
            } else {
                scan_from(s, i + 1, st)
            }
        } else {
            scan_from(s, i + 1, Scan { word: st.word.push(c), ..st })
        }
    }
}

/// The words of a command line, or the message of why it has none.
pub open spec fn command_words(s: Seq<char>) -> Result<Seq<Seq<char>>, Seq<char>> {
    let end = scan_from(s, 0, Scan { words: Seq::empty(), word: Seq::empty(), quote: None });
    if end.quote is Some {
        Err("unterminated quote in process payload"@)
    } else {
        let words = if end.word.len() > 0 {
            end.words.push(end.word)
        } else {
            end.words
        };
        if words.len() == 0 {
            Err("spawn requires a command to execute"@)
        } else {
            Ok(words)
        }
    }
}

/// What splitting a spawn payload gives: its words, or the provider failure.
pub open spec fn parse_command_spec(payload: Option<RuntimeValue>) -> Result<Seq<Seq<char>>, SpecErrorKind> {
    match payload {
        Some(RuntimeValue::String(s)) => match command_words(s@) {
            Ok(w) => Ok(w),
            Err(m) => Err(SpecErrorKind::ProviderFailure { capability: "process"@, message: m }),
        },
        _ => Err(SpecErrorKind::ProviderFailure { capability: "process"@, message: "spawn expects a string payload"@ }),
    }
}

/// Splits the payload of a `process` `spawn` into the program and its
/// arguments.
pub fn parse_command(payload: &Option<RuntimeValue>) -> (r: Result<Vec<String>, RuntimeError>)
    ensures
        match parse_command_spec(*payload) {
            Ok(w) => r matches Ok(v) && views(v@) == w,
            Err(e) => r matches Err(x) && x@ == e,
        },
{
    let text = match payload {
        Some(RuntimeValue::String(s)) => s,
        _ => {
            return Err(RuntimeError::provider_failure("process", to_owned_string("spawn expects a string payload")));
        },
    };
    let s = chars_of(text.as_str());
    let mut words: Vec<String> = Vec::new();
    let mut word: Vec<char> = Vec::new();
    let mut quote: Option<char> = None;
    let mut i: usize = 0;
    let ghost init = Scan { words: Seq::empty(), word: Seq::empty(), quote: None };
    proof {
        assert(views(words@) =~= Seq::<Seq<char>>::empty());
    }
    while i < s.len()
        invariant
            i <= s.len(),
            s@ == text@,
            scan_from(s@, 0, init) == scan_from(s@, i as int, Scan { words: views(words@), word: word@, quote }),
        decreases s.len() - i,
    {
        let c = s[i];
        let ghost st = Scan { words: views(words@), word: word@, quote };
        if c == '\'' || c == '"' {
            match quote {
                Some(q) => {
                    if c == q {
                        quote = None;
                    } else {
                        word.push(c);
                    }
                },
                None => {
                    quote = Some(c);
                },
            }
            i = i + 1;
        } else if c == '\\' {
            if i + 1 < s.len() {
                word.push(s[i + 1]);
                i = i + 2;
            } else {
                i = i + 1;
            }
        } else if char_is_white(c) && quote.is_none() {
            if word.len() > 0 {
                let ghost w0 = words@;
                words.push(string_from_chars(&word));
                assert(views(words@) =~= views(w0).push(st.word));
                word = Vec::new();
                assert(word@ =~= Seq::<char>::empty());
            }
            i = i + 1;
        } else {
            word.push(c);
            i = i + 1;
        }
    }
    if quote.is_some() {
        return Err(RuntimeError::provider_failure("process", to_owned_string("unterminated quote in process payload")));
    }
    if word.len() > 0 {
        let ghost w0 = words@;
        let ghost wd = word@;
        words.push(string_from_chars(&word));
        assert(views(words@) =~= views(w0).push(wd));
    }
    if words.len() == 0 {
        return Err(RuntimeError::provider_failure("process", to_owned_string("spawn requires a command to execute")));
    }
    Ok(words)
}

/// The non-empty lines of `text`, each with `prefix` before it.
pub open spec fn prefixed_lines(prefix: Seq<char>, text: Seq<char>) -> Seq<SpecCapabilityEvent> {
    lines_from(text, 0).filter(|l: Seq<char>| l.len() > 0).map_values(
        |l: Seq<char>| SpecCapabilityEvent::Message(prefix + l),
    )
}

fn push_prefixed(response: ProviderResponse, prefix: &str, text: &str) -> (r: ProviderResponse)
    ensures
        r.value@ == response.value@,
        cap_event_views(r.events@) == cap_event_views(response.events@) + prefixed_lines(prefix@, text@),
{
    let lines = split_lines(text);
    let ghost ls = views(lines@);
    let mut r = response;
    let mut i: usize = 0;
    proof {
        reveal(Seq::filter);
        assert(ls.take(0).filter(|l: Seq<char>| l.len() > 0) =~= Seq::<Seq<char>>::empty());
    }
    while i < lines.len()
        invariant
            i <= lines.len(),
            ls == views(lines@),
            ls == lines_from(text@, 0),
            r.value@ == response.value@,
            cap_event_views(r.events@) == cap_event_views(response.events@) + ls.take(i as int).filter(
                |l: Seq<char>| l.len() > 0,
            ).map_values(|l: Seq<char>| SpecCapabilityEvent::Message(prefix@ + l)),
        decreases lines.len() - i,
    {
        let ghost before = ls.take(i as int).filter(|l: Seq<char>| l.len() > 0);
        proof {
            assert(ls.take(i + 1).drop_last() =~= ls.take(i as int));
            assert(ls.take(i + 1).last() == ls[i as int]);
            assert(ls[i as int] == lines@[i as int]@);
        }
        if !is_empty_text(lines[i].as_str()) {
            let mut m = String::new();
            push_str(&mut m, prefix);
            push_str(&mut m, lines[i].as_str());
            let ghost mv = m@;
            r = r.with_event(CapabilityEvent::Message(m));
            proof {
                reveal(Seq::filter);
                assert(mv =~= prefix@ + ls[i as int]);
                assert(ls.take(i + 1).filter(|l: Seq<char>| l.len() > 0) == before.push(ls[i as int]));
                let f = |l: Seq<char>| SpecCapabilityEvent::Message(prefix@ + l);
                assert(before.push(ls[i as int]).map_values(f) =~= before.map_values(f).push(f(ls[i as int])));
            }
        } else {
            proof {
                reveal(Seq::filter);
                assert(ls.take(i + 1).filter(|l: Seq<char>| l.len() > 0) == before);
            }
        }
        i = i + 1;
    }
    assert(ls.take(lines.len() as int) =~= ls);
    r
}

/// Adds an event for each non-empty line of a finished process's output:
/// `stdout: <line>` for each line of `stdout`, then `stderr: <line>` for
/// each line of `stderr`.
pub fn append_stream_events(response: ProviderResponse, stdout: &str, stderr: &str) -> (r: ProviderResponse)
    ensures
        r.value@ == response.value@,
        cap_event_views(r.events@) == cap_event_views(response.events@) + prefixed_lines("stdout: "@, stdout@)
            + prefixed_lines("stderr: "@, stderr@),
{
    let a = push_prefixed(response, "stdout: ", stdout);
    push_prefixed(a, "stderr: ", stderr)
}

} // verus!

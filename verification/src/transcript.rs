//! The transcript confirmation check used by reconciliation: the last
//! non-blank line of a transcript log confirms a completed turn when it is a
//! terminal summary record, or an assistant record whose stop reason is an
//! ordinary end of turn. The caller reads the file; this module decides.

use vstd::prelude::*;

use crate::payload::{parse_transcript_entry, transcript_entry_of, TranscriptEntry};
use crate::text::{opt_str_eq, opt_string_view, str_eq};

verus! {

/// Whitespace that makes a transcript line blank.
pub open spec fn spec_is_line_ws(c: char) -> bool {
    c == ' ' || c == '\t' || c == '\r'
}

/// A line with no visible character.
pub open spec fn spec_blank(line: Seq<char>) -> bool {
    forall|i: int| 0 <= i < line.len() ==> spec_is_line_ws(#[trigger] line[i])
}

/// One character of the scan for the last non-blank line: a newline closes
/// the current line, keeping it as the latest candidate when it has content;
/// any other character extends the current line.
pub open spec fn spec_scan_step(
    state: (Seq<char>, Option<Seq<char>>),
    c: char,
) -> (Seq<char>, Option<Seq<char>>) {
    if c == '\n' {
        (
            Seq::empty(),
            if !spec_blank(state.0) {
                Some(state.0)
            } else {
                state.1
            },
        )
    } else {
        (state.0.push(c), state.1)
    }
}

/// The scan over a whole text: the unfinished current line and the latest
/// closed non-blank line.
pub open spec fn spec_scan(s: Seq<char>) -> (Seq<char>, Option<Seq<char>>)
    decreases s.len(),
{
    if s.len() == 0 {
        (Seq::empty(), None)
    } else {
        spec_scan_step(spec_scan(s.drop_last()), s.last())
    }
}

/// The last non-blank line of a text, the unfinished final line included.
pub open spec fn spec_last_content_line(s: Seq<char>) -> Option<Seq<char>> {
    let st = spec_scan(s);
    if !spec_blank(st.0) {
        Some(st.0)
    } else {
        st.1
    }
}

/// Blankness of a line extended by one character.
proof fn lemma_blank_push(s: Seq<char>, c: char)
    ensures
        spec_blank(s.push(c)) == (spec_blank(s) && spec_is_line_ws(c)),
{
    if spec_blank(s) && spec_is_line_ws(c) {
        assert forall|i: int| 0 <= i < s.push(c).len() implies spec_is_line_ws(
            #[trigger] s.push(c)[i],
        ) by {
            if i < s.len() {
                assert(s.push(c)[i] == s[i]);
            } else {
                assert(s.push(c)[i] == c);
            }
        }
    } else if !spec_blank(s) {
        let k = choose|k: int| 0 <= k < s.len() && !spec_is_line_ws(#[trigger] s[k]);
        assert(s.push(c)[k] == s[k]);
        assert(!spec_blank(s.push(c)));
    } else {
        assert(s.push(c)[s.len() as int] == c);
        assert(!spec_blank(s.push(c)));
    }
}

/// Finds the last non-blank line of a text.
pub fn last_content_line(content: &str) -> (r: Option<String>)
    ensures
        opt_string_view(r) == spec_last_content_line(content@),
{
    let n = content.unicode_len();
    let mut start: usize = 0;
    let mut cur_blank = true;
    let mut best: Option<(usize, usize)> = None;
    let mut i: usize = 0;
    proof {
        assert(content@.subrange(0, 0) =~= Seq::<char>::empty());
    }
    while i < n
        invariant
            n == content@.len(),
            start <= i <= n,
            spec_scan(content@.subrange(0, i as int)).0 == content@.subrange(
                start as int,
                i as int,
            ),
            cur_blank == spec_blank(content@.subrange(start as int, i as int)),
            match best {
                Some((a, b)) => a <= b <= i && spec_scan(content@.subrange(0, i as int)).1 == Some(
                    content@.subrange(a as int, b as int),
                ),
                None => spec_scan(content@.subrange(0, i as int)).1 is None,
            },
        decreases n - i,
    {
        let c = content.get_char(i);
        proof {
            assert(content@.subrange(0, i + 1).drop_last() =~= content@.subrange(0, i as int));
            assert(content@.subrange(0, i + 1).last() == content@[i as int]);
        }
        if c == '\n' {
            if !cur_blank {
                best = Some((start, i));
            }
            start = i + 1;
            cur_blank = true;
            proof {
                assert(content@.subrange(start as int, i + 1) =~= Seq::<char>::empty());
            }
        } else {
            let is_ws = c == ' ' || c == '\t' || c == '\r';
            cur_blank = cur_blank && is_ws;
            proof {
                assert(content@.subrange(start as int, i + 1) =~= content@.subrange(
                    start as int,
                    i as int,
                ).push(content@[i as int]));
                lemma_blank_push(content@.subrange(start as int, i as int), content@[i as int]);
            }
        }
        i += 1;
    }
    proof {
        assert(content@.subrange(0, n as int) =~= content@);
    }
    if !cur_blank {
        Some(String::from_str(content.substring_char(start, n)))
    } else {
        match best {
            Some((a, b)) => Some(String::from_str(content.substring_char(a, b))),
            None => None,
        }
    }
}

/// What counts as a completed turn: a valid entry that is a terminal
/// summary record, or an assistant record stopped by an ordinary end of
/// turn (not a mid-tool-use stop).
pub open spec fn spec_entry_completion(
    parsed: bool,
    entry_type: Seq<char>,
    stop_reason: Option<Seq<char>>,
) -> bool {
    parsed && (entry_type == "summary"@ || (entry_type == "assistant"@ && stop_reason == Some(
        "end_turn"@,
    )))
}

pub fn entry_shows_completion(entry: &TranscriptEntry) -> (r: bool)
    ensures
        r == spec_entry_completion(
            entry.parsed,
            entry.entry_type@,
            opt_string_view(entry.stop_reason),
        ),
{
    entry.parsed && (str_eq(entry.entry_type.as_str(), "summary") || (str_eq(
        entry.entry_type.as_str(),
        "assistant",
    ) && opt_str_eq(&entry.stop_reason, "end_turn")))
}

/// Whether a transcript's text confirms a completed turn, judged by its
/// last non-blank line.
pub open spec fn spec_content_shows_completion(s: Seq<char>) -> bool {
    match spec_last_content_line(s) {
        Some(line) => {
            let e = transcript_entry_of(line);
            spec_entry_completion(e.0, e.1, e.2)
        },
        None => false,
    }
}

pub fn transcript_content_shows_completion(content: &str) -> (r: bool)
    ensures
        r == spec_content_shows_completion(content@),
{
    match last_content_line(content) {
        Some(line) => {
            let entry = parse_transcript_entry(line.as_str());
            entry_shows_completion(&entry)
        },
        None => false,
    }
}

} // verus!

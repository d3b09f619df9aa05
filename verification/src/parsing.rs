//! The prompt position scanner: locates the inline trigger marker `#$` in
//! raw document text and reports the text that follows it on the same line
//! together with its logical (line, character) position.
//!
//! A line is a maximal `'\n'`-separated segment of the text; a trailing
//! separator yields a final empty segment, which can never hold the marker.
//! Matching is a plain substring search for the first occurrence of the
//! marker per line; the extracted text runs from just after the marker to
//! the end of the line.

use vstd::prelude::*;

verus! {

/// A structured fact located in document text.
#[derive(Debug, Clone, PartialEq)]
pub enum Position {
    UserPrompt(String),
}

/// Logical position of a scanned prompt: a zero-based line index, and the
/// character offset just past the extracted text on that line.
#[derive(Debug, Clone, Copy, PartialEq, Eq, Structural)]
pub struct TextPosition {
    pub line: usize,
    pub character: usize,
}

/// The two-character prompt trigger marker occurs in `s` at offset `i`.
pub open spec fn marker_at(s: Seq<char>, i: int) -> bool {
    &&& 0 <= i
    &&& i + 2 <= s.len()
    &&& s[i] == '#'
    &&& s[i + 1] == '$'
}

/// Offset of the first occurrence of the marker in `s` at or after `k`;
/// `s.len()` if there is none.
pub open spec fn first_marker_from(s: Seq<char>, k: int) -> int
    decreases s.len() - k
        when 0 <= k

{
    if k + 2 > s.len() {
        s.len() as int
    } else if marker_at(s, k) {
        k
    } else {
        first_marker_from(s, k + 1)
    }
}

/// The marker occurs somewhere in `s`.
pub open spec fn has_marker(s: Seq<char>) -> bool {
    first_marker_from(s, 0) < s.len()
}

/// Offset of the first `'\n'` in `s` at or after `k`; `s.len()` if there is
/// none.
pub open spec fn line_end(s: Seq<char>, k: int) -> int
    decreases s.len() - k
        when 0 <= k

{
    if k >= s.len() {
        s.len() as int
    } else if s[k] == '\n' {
        k
    } else {
        line_end(s, k + 1)
    }
}

/// The text split at every `'\n'`, in order.
pub open spec fn lines_of(s: Seq<char>) -> Seq<Seq<char>>
    decreases s.len()
    via lines_of_decreases
{
    let e = line_end(s, 0);
    if e >= s.len() {
        seq![s]
    } else {
        seq![s.subrange(0, e)] + lines_of(s.subrange(e + 1, s.len() as int))
    }
}

#[via_fn]
proof fn lines_of_decreases(s: Seq<char>) {
    lemma_line_end_bounds(s, 0);
}

proof fn lemma_first_marker_bounds(s: Seq<char>, k: int)
    requires
        0 <= k <= s.len(),
    ensures
        k <= first_marker_from(s, k) <= s.len(),
        first_marker_from(s, k) < s.len() ==> marker_at(s, first_marker_from(s, k)),
    decreases s.len() - k,
{
    if k + 2 <= s.len() && !marker_at(s, k) {
        lemma_first_marker_bounds(s, k + 1);
    }
}

proof fn lemma_line_end_bounds(s: Seq<char>, k: int)
    requires
        0 <= k <= s.len(),
    ensures
        k <= line_end(s, k) <= s.len(),
        line_end(s, k) < s.len() ==> s[line_end(s, k)] == '\n',
    decreases s.len() - k,
{
    if k < s.len() && s[k] != '\n' {
        lemma_line_end_bounds(s, k + 1);
    }
}

/// First offset at or after `from` holding `'\n'`, or the text's length.
fn find_newline(s: &str, from: usize) -> (r: usize)
    requires
        from <= s@.len(),
    ensures
        r == line_end(s@, from as int),
        from <= r <= s@.len(),
{
    let n = s.unicode_len();
    let mut i: usize = from;
    while i < n
        invariant
            from <= i <= n,
            n == s@.len(),
            line_end(s@, from as int) == line_end(s@, i as int),
        decreases n - i,
    {
        if s.get_char(i) == '\n' {
            return i;
        }
        i += 1;
    }
    i
}

/// Offset of the first occurrence of the marker in `s`, if any.
fn find_marker(s: &str) -> (r: Option<usize>)
    ensures
        r is Some <==> has_marker(s@),
        r matches Some(i) ==> i == first_marker_from(s@, 0) && marker_at(s@, i as int),
{
    let n = s.unicode_len();
    let mut i: usize = 0;
    while i < n && i + 1 < n
        invariant
            i <= n,
            n == s@.len(),
            first_marker_from(s@, 0) == first_marker_from(s@, i as int),
        decreases n - i,
    {
        if s.get_char(i) == '#' && s.get_char(i + 1) == '$' {
            return Some(i);
        }
        i += 1;
    }
    proof {
        lemma_first_marker_bounds(s@, i as int);
    }
    None
}

/// The text's lines, as fresh strings.
fn split_lines(text: &str) -> (r: Vec<String>)
    ensures
        r.deep_view() == lines_of(text@),
    decreases text@.len(),
{
    let n = text.unicode_len();
    let e = find_newline(text, 0);
    if e >= n {
        let mut r: Vec<String> = Vec::new();
        r.push(text.to_owned());
        proof {
            assert(r.deep_view() =~= lines_of(text@));
        }
        r
    } else {
        let first = text.substring_char(0, e).to_owned();
        let rest = text.substring_char(e + 1, n);
        let mut r = split_lines(rest);
        r.insert(0, first);
        proof {
            assert(r.deep_view() =~= lines_of(text@));
        }
        r
    }
}

/// What a successful scan of the line `l` (at index `line`) yields: the text
/// after the first marker up to the end of the line, and the position whose
/// character offset is the marker's offset plus the extracted text's length.
pub open spec fn line_scan_ok(l: Seq<char>, line: int, prompt: Seq<char>, pos: TextPosition) -> bool {
    let idx = first_marker_from(l, 0);
    &&& prompt == l.subrange(idx + 2, l.len() as int)
    &&& pos.line == line
    &&& pos.character == idx + prompt.len()
}

/// Scans the whole text for the first occurrence of the marker, wherever it
/// stands.  On a match, hands back the text from just after the marker up to
/// the next line break, together with everything from that break onward.
pub fn parse_for_prompt<'a>(input: &'a str) -> (r: Option<(&'a str, &'a str)>)
    ensures
        r is Some <==> has_marker(input@),
        r matches Some((rest, prompt)) ==> ({
            let idx = first_marker_from(input@, 0);
            let e = line_end(input@, idx + 2);
            &&& prompt@ == input@.subrange(idx + 2, e)
            &&& rest@ == input@.subrange(e, input@.len() as int)
        }),
{
    match find_marker(input) {
        None => None,
        Some(idx) => {
            let n = input.unicode_len();
            let e = find_newline(input, idx + 2);
            let prompt = input.substring_char(idx + 2, e);
            let rest = input.substring_char(e, n);
            Some((rest, prompt))
        },
    }
}

/// Scans one line of the text.  If the line exists and contains the marker,
/// hands back the text after the first marker (to the end of the line) and
/// its logical position; otherwise nothing -- a missing line and a line
/// without the marker are indistinguishable by design.
pub fn get_prompt_and_position_on_line(input: &str, line: usize) -> (r: Option<
    (String, TextPosition),
>)
    ensures
        ({
            let ls = lines_of(input@);
            &&& r is Some <==> line < ls.len() && has_marker(ls[line as int])
            &&& (r matches Some((prompt, pos)) ==> line_scan_ok(
                ls[line as int],
                line as int,
                prompt@,
                pos,
            ))
        }),
{
    let lines = split_lines(input);
    if line >= lines.len() {
        return None;
    }
    let l: &str = lines[line].as_str();
    proof {
        assert(l@ == lines_of(input@)[line as int]);
    }
    match find_marker(l) {
        None => None,
        Some(idx) => {
            let n = l.unicode_len();
            let prompt = l.substring_char(idx + 2, n).to_owned();
            let character = idx + (n - (idx + 2));
            proof {
                assert(prompt@.len() == n - (idx + 2));
            }
            Some((prompt, TextPosition { line, character }))
        },
    }
}

/// Scans every line, in line order, collecting each match as `scan_line`
/// would report it.  A single eager pass: the result is a finite list, one
/// entry per line that holds the marker.  In particular, a text with no
/// occurrence of the marker on any line yields the empty list.
pub fn get_all_prompts_and_positions(input: &str) -> (r: Vec<(String, TextPosition)>)
    ensures
        ({
            let ls = lines_of(input@);
            // soundness: every entry scans its line
            &&& forall|j: int|
                0 <= j < r@.len() ==> ({
                    let line = (#[trigger] r@[j]).1.line as int;
                    &&& line < ls.len()
                    &&& has_marker(ls[line])
                    &&& line_scan_ok(ls[line], line, r@[j].0@, r@[j].1)
                })
            // entries come in strictly increasing line order
            &&& forall|j: int, k: int|
                0 <= j < k < r@.len() ==> (#[trigger] r@[j]).1.line < (#[trigger] r@[k]).1.line
            // completeness: every line that holds the marker is reported
            &&& forall|line: int|
                0 <= line < ls.len() && has_marker(#[trigger] ls[line]) ==> exists|j: int|
                    0 <= j < r@.len() && (#[trigger] r@[j]).1.line == line
            // hence a text with the marker on no line yields nothing
            &&& (forall|line: int|
                0 <= line < ls.len() ==> !has_marker(#[trigger] ls[line])) ==> r@.len() == 0
        }),
{
    let lines = split_lines(input);
    let ghost ls = lines_of(input@);
    let mut r: Vec<(String, TextPosition)> = Vec::new();
    let n = lines.len();
    let mut i: usize = 0;
    while i < n
        invariant
            i <= n,
            n == lines@.len(),
            lines.deep_view() == ls,
            forall|j: int|
                0 <= j < r@.len() ==> ({
                    let line = (#[trigger] r@[j]).1.line as int;
                    &&& line < i
                    &&& has_marker(ls[line])
                    &&& line_scan_ok(ls[line], line, r@[j].0@, r@[j].1)
                }),
            forall|j: int, k: int|
                0 <= j < k < r@.len() ==> (#[trigger] r@[j]).1.line < (#[trigger] r@[k]).1.line,
            forall|line: int|
                0 <= line < i && has_marker(#[trigger] ls[line]) ==> exists|j: int|
                    0 <= j < r@.len() && (#[trigger] r@[j]).1.line == line,
        decreases n - i,
    {
        let l: &str = lines[i].as_str();
        proof {
            assert(l@ == ls[i as int]);
        }
        match find_marker(l) {
            None => {
                proof {
                    assert(!has_marker(ls[i as int]));
                }
            },
            Some(idx) => {
                let ln = l.unicode_len();
                let prompt = l.substring_char(idx + 2, ln).to_owned();
                let character = idx + (ln - (idx + 2));
                let ghost old_r = r@;
                r.push((prompt, TextPosition { line: i, character }));
                proof {
                    assert forall|line: int|
                        0 <= line < i + 1 && has_marker(#[trigger] ls[line]) implies exists|j: int|
                        0 <= j < r@.len() && (#[trigger] r@[j]).1.line == line by {
                        if line == i as int {
                            assert(r@[r@.len() - 1].1.line == line);
                        } else {
                            let j = choose|j: int|
                                0 <= j < old_r.len() && (#[trigger] old_r[j]).1.line == line;
                            assert(r@[j] == old_r[j]);
                            assert(r@[j].1.line == line);
                        }
                    }
                }
            },
        }
        i += 1;
    }
    proof {
        if r@.len() > 0 {
            let line0 = r@[0].1.line as int;
            assert(has_marker(ls[line0]));
        }
    }
    r
}

} // verus!


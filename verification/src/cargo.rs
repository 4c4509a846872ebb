//! What cargo reports of a build: one message on each line.

use vstd::prelude::*;
use vstd::string::StrSliceExecFns;

verus! {

/// Whether a character is white space, as Unicode has it: a character with
/// the property `White_Space`.
pub open spec fn white_space(c: char) -> bool {
    let code = c as u32;
    ||| 0x09 <= code <= 0x0d
    ||| code == 0x20
    ||| code == 0x85
    ||| code == 0xa0
    ||| code == 0x1680
    ||| 0x2000 <= code <= 0x200a
    ||| code == 0x2028
    ||| code == 0x2029
    ||| code == 0x202f
    ||| code == 0x205f
    ||| code == 0x3000
}

/// Whether a character is white space.
pub fn is_white_space(c: char) -> (white: bool)
    ensures
        white == white_space(c),
{
    let code = c as u32;
    (0x09 <= code && code <= 0x0d) || code == 0x20 || code == 0x85 || code == 0xa0 || code
        == 0x1680 || (0x2000 <= code && code <= 0x200a) || code == 0x2028 || code == 0x2029
        || code == 0x202f || code == 0x205f || code == 0x3000
}

/// A text without the white space at its start.
pub open spec fn trimmed_start(text: Seq<char>) -> Seq<char>
    decreases text.len(),
{
    if text.len() > 0 && white_space(text.first()) {
        trimmed_start(text.drop_first())
    } else {
        text
    }
}

/// A text without the white space at its end.
pub open spec fn trimmed_end(text: Seq<char>) -> Seq<char>
    decreases text.len(),
{
    if text.len() > 0 && white_space(text.last()) {
        trimmed_end(text.drop_last())
    } else {
        text
    }
}

/// A text without the white space at its start and at its end.
pub open spec fn trimmed(text: Seq<char>) -> Seq<char> {
    trimmed_end(trimmed_start(text))
}

/// `str::trim`: the slice without leading and trailing white space, where
/// white space is what Unicode calls `White_Space`.
#[verifier::external_body]
fn trim(text: &str) -> (inner: &str)
    ensures
        inner@ == trimmed(text@),
{
    text.trim()
}

/// The index of the first `c` in `text` from `from` on.
pub open spec fn first_index_from(text: Seq<char>, c: char, from: int) -> Option<int>
    decreases text.len() - from,
{
    if from < 0 || from >= text.len() {
        None
    } else if text[from] == c {
        Some(from)
    } else {
        first_index_from(text, c, from + 1)
    }
}

/// `str::split_once` with a character as the delimiter: the text before the
/// first occurrence of the delimiter and the text after it, or `None` where
/// the delimiter does not occur.
#[verifier::external_body]
fn split_once(text: &str, delimiter: char) -> (halves: Option<(&str, &str)>)
    ensures
        match first_index_from(text@, delimiter, 0) {
            Some(i) => halves matches Some((before, after)) && before@ == text@.subrange(0, i)
                && after@ == text@.subrange(i + 1, text@.len() as int),
            None => halves is None,
        },
{
    text.split_once(delimiter)
}

/// Whether the text starts with the character `first`.
fn starts_with(text: &str, first: char) -> (starts: bool)
    ensures
        starts == (text@.len() > 0 && text@[0] == first),
{
    !text.is_empty() && text.get_char(0) == first
}

/// Whether `part` stands somewhere in `text`.
pub open spec fn has_part(text: Seq<char>, part: Seq<char>) -> bool {
    exists|i: int|
        0 <= i <= text.len() - part.len() && #[trigger] text.subrange(i, i + part.len()) == part
}

/// `str::contains` with a string as the pattern: whether the pattern matches
/// a part of the text.
#[verifier::external_body]
fn contains(text: &str, part: &str) -> (found: bool)
    ensures
        found == has_part(text@, part@),
{
    text.contains(part)
}

/// The lines of a text: what stands between its newlines. A text without a
/// newline is one line, and so is the empty text.
pub open spec fn lines(text: Seq<char>) -> Seq<Seq<char>>
    decreases text.len(),
{
    match first_index_from(text, '\n', 0) {
        Some(i) => if 0 <= i < text.len() {
            seq![text.subrange(0, i)] + lines(text.subrange(i + 1, text.len() as int))
        } else {
            seq![text]
        },
        None => seq![text],
    }
}

/// Whether a line is a message of the compiler: it is not empty, is no
/// comment, and is neither written by a build script nor about one.
pub open spec fn is_message(line: Seq<char>) -> bool {
    &&& line.len() > 0
    &&& line[0] != '#'
    &&& !has_part(line, "] cargo:"@)
    &&& !has_part(line, "\"reason\":\"build-script-executed\""@)
}

/// Whether a line reports an artifact.
pub open spec fn is_artifact(line: Seq<char>) -> bool {
    has_part(line, "\"reason\":\"compiler-artifact\""@)
}

/// The messages among the lines that report an artifact, if `artifacts` is
/// set, and those that report none, if it is not.
pub open spec fn messages(all: Seq<Seq<char>>, artifacts: bool) -> Seq<Seq<char>> {
    all.filter(|line: Seq<char>| is_message(line) && is_artifact(line) == artifacts)
}

/// The texts of some slices.
pub open spec fn texts(slices: Seq<&str>) -> Seq<Seq<char>> {
    slices.map_values(|slice: &str| slice@)
}

/// Parts the lines of a text that has been trimmed: the messages that
/// report an artifact, and the other messages, each in the order of the
/// text. Lines that are no messages are left out.
pub fn split_lines(text: &str) -> (parted: (Vec<&str>, Vec<&str>))
    ensures
        texts(parted.0@) == messages(lines(text@), true),
        texts(parted.1@) == messages(lines(text@), false),
{
    let mut artifacts: Vec<&str> = Vec::new();
    let mut others: Vec<&str> = Vec::new();
    let mut rest = text;
    let mut done = false;
    assert(texts(artifacts@) =~= Seq::empty());
    assert(texts(others@) =~= Seq::empty());
    while !done
        invariant
            !done ==> texts(artifacts@) + messages(lines(rest@), true) == messages(
                lines(text@),
                true,
            ),
            !done ==> texts(others@) + messages(lines(rest@), false) == messages(
                lines(text@),
                false,
            ),
            done ==> texts(artifacts@) == messages(lines(text@), true),
            done ==> texts(others@) == messages(lines(text@), false),
        decreases
                (if done {
                    0
                } else {
                    rest@.len() + 1
                }),
    {
        let (line, after) = match split_once(rest, '\n') {
            Some((line, after)) => (line, Some(after)),
            None => (rest, None),
        };
        let ghost following = match after {
            Some(after) => lines(after@),
            None => Seq::empty(),
        };
        proof {
            lemma_first_index(rest@, '\n', 0);
            assert(lines(rest@) =~= seq![line@] + following);
            lemma_messages_of_one(line@, following, true);
            lemma_messages_of_one(line@, following, false);
        }
        let ghost before_artifacts = artifacts@;
        let ghost before_others = others@;
        if !line.is_empty() && !starts_with(line, '#') && !contains(line, "] cargo:") && !contains(
            line,
            "\"reason\":\"build-script-executed\"",
        ) {
            if contains(line, "\"reason\":\"compiler-artifact\"") {
                artifacts.push(line);
                assert(texts(artifacts@) =~= texts(before_artifacts) + seq![line@]);
            } else {
                others.push(line);
                assert(texts(others@) =~= texts(before_others) + seq![line@]);
            }
        }
        match after {
            Some(after) => {
                rest = after;
            },
            None => {
                done = true;
            },
        }
    }
    (artifacts, others)
}

/// Parts what cargo wrote: the text is trimmed, and its lines are parted as
/// `split_lines` parts them.
pub fn split_output(json: &str) -> (parted: (Vec<&str>, Vec<&str>))
    ensures
        texts(parted.0@) == messages(lines(trimmed(json@)), true),
        texts(parted.1@) == messages(lines(trimmed(json@)), false),
{
    split_lines(trim(json))
}

/// The first index of a character lies in the text, from where the search
/// started.
pub proof fn lemma_first_index(text: Seq<char>, c: char, from: int)
    requires
        0 <= from,
    ensures
        first_index_from(text, c, from) matches Some(i) ==> from <= i < text.len() && text[i] == c,
    decreases text.len() - from,
{
    if from < text.len() && text[from] != c {
        lemma_first_index(text, c, from + 1);
    }
}

/// The messages of a line and what follows it: the line, if it is a message
/// of the kind asked for, and the messages of what follows.
pub proof fn lemma_messages_of_one(line: Seq<char>, following: Seq<Seq<char>>, artifacts: bool)
    ensures
        messages(seq![line] + following, artifacts) == if is_message(line) && is_artifact(line)
            == artifacts {
            seq![line] + messages(following, artifacts)
        } else {
            messages(following, artifacts)
        },
{
    let wanted = |line: Seq<char>| is_message(line) && is_artifact(line) == artifacts;
    Seq::filter_distributes_over_add(seq![line], following, wanted);
    reveal_with_fuel(Seq::filter, 2);
    assert(seq![line].drop_last() =~= Seq::<Seq<char>>::empty());
    assert(seq![line].filter(wanted) =~= if wanted(line) {
        seq![line]
    } else {
        Seq::empty()
    });
}

} // verus!

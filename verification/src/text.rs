//! What the operator reads and types: the notices and prompts, and the
//! reading of an answer.

use crate::error::FilterError;
use vstd::prelude::*;

verus! {

/// Whether `c` is white space: a character with the Unicode property
/// `White_Space`.
pub open spec fn is_whitespace(c: char) -> bool {
    let code = c as u32;
    ||| 0x09 <= code <= 0x0d
    ||| code == 0x20
    ||| code == 0x85
    ||| code == 0xa0
    ||| code == 0x1680
    ||| 0x2000 <= code <= 0x200a
    ||| code == 0x2028
    ||| code == 0x2029
    ||| code == 0x202f
    ||| code == 0x205f
    ||| code == 0x3000
}

/// `text` without the white space at its start.
pub open spec fn trimmed_start(text: Seq<char>) -> Seq<char>
    decreases text.len(),
{
    if text.len() > 0 && is_whitespace(text.first()) {
        trimmed_start(text.drop_first())
    } else {
        text
    }
}

/// `text` without the white space at its end.
pub open spec fn trimmed_end(text: Seq<char>) -> Seq<char>
    decreases text.len(),
{
    if text.len() > 0 && is_whitespace(text.last()) {
        trimmed_end(text.drop_last())
    } else {
        text
    }
}

/// `text` without the white space at its start and at its end.
pub open spec fn trimmed(text: Seq<char>) -> Seq<char> {
    trimmed_end(trimmed_start(text))
}

/// Whether `c` is white space.
pub fn char_is_whitespace(c: char) -> (space: bool)
    ensures
        space == is_whitespace(c),
{
    let code = c as u32;
    (0x09 <= code && code <= 0x0d) || code == 0x20 || code == 0x85 || code == 0xa0 || code
        == 0x1680 || (0x2000 <= code && code <= 0x200a) || code == 0x2028 || code == 0x2029
        || code == 0x202f || code == 0x205f || code == 0x3000
}

/// The characters of `text`, in their order.
pub fn characters(text: &str) -> (chars: Vec<char>)
    ensures
        chars@ == text@,
{
    let mut chars: Vec<char> = Vec::new();
    for c in it: text.chars()
        invariant
            it.seq() == text@,
            chars@ == text@.take(it.index() as int),
    {
        assert(text@.take(it.index() + 1) =~= text@.take(it.index() as int).push(c));
        chars.push(c);
    }
    assert(text@.take(text@.len() as int) =~= text@);
    chars
}

/// The part of `text` between its leading and its trailing white space.
pub fn trim(text: &str) -> (inner: &str)
    ensures
        inner@ == trimmed(text@),
{
    let chars = characters(text);
    let length = chars.len();
    let mut start: usize = 0;
    assert(text@.subrange(0, length as int) =~= text@);
    while start < length && char_is_whitespace(chars[start])
        invariant
            start <= length == text@.len(),
            chars@ == text@,
            trimmed_start(text@) == trimmed_start(text@.subrange(start as int, length as int)),
        decreases length - start,
    {
        assert(text@.subrange(start as int, length as int).drop_first() =~= text@.subrange(
            start + 1,
            length as int,
        ));
        start += 1;
    }
    let mut end: usize = length;
    while start < end && char_is_whitespace(chars[end - 1])
        invariant
            start <= end <= length == text@.len(),
            chars@ == text@,
            trimmed(text@) == trimmed_end(text@.subrange(start as int, end as int)),
        decreases end - start,
    {
        assert(text@.subrange(start as int, end as int).drop_last() =~= text@.subrange(
            start as int,
            end - 1,
        ));
        end -= 1;
    }
    text.substring_char(start, end)
}

/// `line` without its end of line: a line feed at the end is left off, and
/// with it a carriage return that stands just before it. Nothing else is
/// taken away, so that white space that belongs to what was typed stays.
pub open spec fn without_line_end(line: Seq<char>) -> Seq<char> {
    if line.len() > 0 && line.last() == '\n' {
        let rest = line.drop_last();
        if rest.len() > 0 && rest.last() == '\r' {
            rest.drop_last()
        } else {
            rest
        }
    } else {
        line
    }
}

/// What was typed comes back when its end of line is left off: a text that
/// does not end in a carriage return, followed by a line feed or by a
/// carriage return and a line feed, gives that text; and a text that does not
/// end in a line feed stays as it is.
pub proof fn lemma_line_end_is_left_off(typed: Seq<char>)
    ensures
        (typed.len() == 0 || typed.last() != '\r') ==> without_line_end(typed.push('\n'))
            == typed,
        (typed.len() == 0 || typed.last() != '\r') ==> without_line_end(
            typed.push('\r').push('\n'),
        ) == typed,
        (typed.len() == 0 || typed.last() != '\n') ==> without_line_end(typed) == typed,
{
    assert(typed.push('\n').drop_last() =~= typed);
    assert(typed.push('\r').push('\n').drop_last() =~= typed.push('\r'));
    assert(typed.push('\r').drop_last() =~= typed);
}

/// The line without its end of line.
pub fn strip_line_end(line: &str) -> (text: &str)
    ensures
        text@ == without_line_end(line@),
{
    let chars = characters(line);
    let length = chars.len();
    if length > 0 && chars[length - 1] == '\n' {
        if length > 1 && chars[length - 2] == '\r' {
            assert(line@.drop_last().drop_last() =~= line@.subrange(0, length - 2));
            line.substring_char(0, length - 2)
        } else {
            assert(line@.drop_last() =~= line@.subrange(0, length - 1));
            line.substring_char(0, length - 1)
        }
    } else {
        line
    }
}

/// What the operator can ask to be done with a duplicate.
#[derive(Clone, Copy, Debug, PartialEq, Eq, Structural)]
pub enum Choice {
    /// Remove the file.
    Delete,
    /// Move the file to a folder that the operator names next.
    Move,
    /// Leave the file where it is.
    Ignore,
}

/// The choice that a token stands for. The three tokens are matched exactly,
/// in lower case; anything else is invalid input.
pub open spec fn choice_of(token: Seq<char>) -> Result<Choice, FilterError> {
    if token == "delete"@ {
        Ok(Choice::Delete)
    } else if token == "move"@ {
        Ok(Choice::Move)
    } else if token == "ignore"@ {
        Ok(Choice::Ignore)
    } else {
        Err(FilterError::InvalidInput)
    }
}

/// The three tokens of a choice are three different texts.
pub proof fn lemma_tokens_differ()
    ensures
        "delete"@ != "move"@,
        "delete"@ != "ignore"@,
        "move"@ != "ignore"@,
{
    reveal_strlit("delete");
    reveal_strlit("move");
    reveal_strlit("ignore");
    assert("delete"@.len() == 6 && "move"@.len() == 4 && "ignore"@.len() == 6);
    assert("delete"@[0] == 'd' && "ignore"@[0] == 'i');
}

/// Reads the operator's choice from a line of input: the line is trimmed and
/// then matched against the three tokens.
pub fn read_choice(line: &str) -> (choice: Result<Choice, FilterError>)
    ensures
        choice == choice_of(trimmed(line@)),
{
    let token = trim(line).to_owned();
    if token == "delete".to_owned() {
        Ok(Choice::Delete)
    } else if token == "move".to_owned() {
        Ok(Choice::Move)
    } else if token == "ignore".to_owned() {
        Ok(Choice::Ignore)
    } else {
        Err(FilterError::InvalidInput)
    }
}

/// The notice that the file at `path` was removed.
pub open spec fn deleted_notice(path: Seq<char>) -> Seq<char> {
    "File "@ + path + " deleted"@
}

/// The notice that the file at `from` was moved to `to`.
pub open spec fn moved_notice(from: Seq<char>, to: Seq<char>) -> Seq<char> {
    "File "@ + from + " moved to "@ + to
}

/// The notice that the file at `path` repeats content seen before, with the
/// digest of that content in hexadecimal.
pub open spec fn repeated_notice(path: Seq<char>, hex: Seq<char>) -> Seq<char> {
    "File "@ + path + " is repeated, hash: "@ + hex
}

/// The question what to do with the duplicate at `path`.
pub open spec fn choice_prompt(path: Seq<char>) -> Seq<char> {
    "File "@ + path + " is repeated, what to do with it? (delete/move/ignore)"@
}

/// The question where to move a duplicate.
pub open spec fn destination_prompt() -> Seq<char> {
    "Enter destination folder:"@
}

/// Writes [`deleted_notice`].
pub fn write_deleted_notice(path: &str) -> (text: String)
    ensures
        text@ == deleted_notice(path@),
{
    let mut text = "File ".to_owned();
    text.append(path);
    text.append(" deleted");
    text
}

/// Writes [`moved_notice`].
pub fn write_moved_notice(from: &str, to: &str) -> (text: String)
    ensures
        text@ == moved_notice(from@, to@),
{
    let mut text = "File ".to_owned();
    text.append(from);
    text.append(" moved to ");
    text.append(to);
    text
}

/// Writes [`repeated_notice`].
pub fn write_repeated_notice(path: &str, hex: &str) -> (text: String)
    ensures
        text@ == repeated_notice(path@, hex@),
{
    let mut text = "File ".to_owned();
    text.append(path);
    text.append(" is repeated, hash: ");
    text.append(hex);
    text
}

/// Writes [`choice_prompt`].
pub fn write_choice_prompt(path: &str) -> (text: String)
    ensures
        text@ == choice_prompt(path@),
{
    let mut text = "File ".to_owned();
    text.append(path);
    text.append(" is repeated, what to do with it? (delete/move/ignore)");
    text
}

/// Writes [`destination_prompt`].
pub fn write_destination_prompt() -> (text: String)
    ensures
        text@ == destination_prompt(),
{
    "Enter destination folder:".to_owned()
}

} // verus!

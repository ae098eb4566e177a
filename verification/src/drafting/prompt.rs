//! What a model is asked to draft, and what it drafted.
use vstd::prelude::*;
use vstd::string::*;

use crate::apis::message::{Choice, Message, MessageView, Role};
use crate::dialogue::{choice_views, first_message, reply_of};
use crate::drafting::csv::views;
use crate::text::{decimal, decimal_text, law_decimal_grows};

verus! {

/// An agreement that is to be drafted.
#[derive(Debug)]
pub struct Agreement {
    pub slug: String,
    pub title: String,
    pub context: String,
    pub sections: Vec<String>,
}

pub const PROMPT_BEFORE_TITLE: &'static str = "Draft the full text of a \"";

pub const PROMPT_BEFORE_COUNT: &'static str =
    "\". This is a serious legal document — write the full body, not a summary or outline. Use proper legal prose, defined terms in initial caps, and numbered sections. You MUST produce at least ";

pub const PROMPT_BEFORE_SECTIONS: &'static str =
    " numbered sections, in this order, each with substantive body text:\n\n";

pub const PROMPT_BEFORE_CONTEXT: &'static str = "\n\nContext for the parties and deal:\n";

pub const PROMPT_END: &'static str =
    "\n\nOutput formatting:\n- Start with a one-paragraph preamble naming the parties and effective date.\n- Each section starts with a Markdown heading \"## N. Section Title\".\n- No table of contents, no commentary, no code fences — produce only the agreement body.";

/// Lines with their numbers, from 1, in front of them.
pub open spec fn numbered(lines: Seq<Seq<char>>) -> Seq<char>
    decreases lines.len(),
{
    if lines.len() == 0 {
        seq![]
    } else {
        let item = decimal(lines.len()) + ". "@ + lines.last();
        if lines.len() == 1 {
            item
        } else {
            numbered(lines.drop_last()) + "\n"@ + item
        }
    }
}

/// The request to draft an agreement.
pub open spec fn prompt(
    title: Seq<char>,
    sections: Seq<Seq<char>>,
    context: Seq<char>,
) -> Seq<char> {
    PROMPT_BEFORE_TITLE@ + title + PROMPT_BEFORE_COUNT@ + decimal(sections.len())
        + PROMPT_BEFORE_SECTIONS@ + numbered(sections) + PROMPT_BEFORE_CONTEXT@ + context
        + PROMPT_END@
}

fn numbered_list(lines: &Vec<String>) -> (text: String)
    ensures
        text@ == numbered(views(lines@)),
{
    let mut text = String::new();
    let mut i: usize = 0;
    while i < lines.len()
        invariant
            i <= lines@.len(),
            text@ == numbered(views(lines@).take(i as int)),
        decreases lines@.len() - i,
    {
        let ghost next = views(lines@).take(i + 1);
        proof {
            assert(next.drop_last() == views(lines@).take(i as int));
            assert(next.last() == lines@[i as int]@);
        }
        let mut item = decimal_text(i as u128 + 1);
        item.append(". ");
        item.append(lines[i].as_str());
        if i > 0 {
            text.append("\n");
        }
        text.append(item.as_str());
        assert(text@ == numbered(next));
        i = i + 1;
    }
    assert(views(lines@).take(i as int) == views(lines@));
    text
}

/// Writes the request to draft an agreement.
pub fn build_prompt(a: &Agreement) -> (text: String)
    ensures
        text@ == prompt(a.title@, views(a.sections@), a.context@),
        text@ == PROMPT_BEFORE_TITLE@ + a.title@ + PROMPT_BEFORE_COUNT@ + decimal(
            a.sections@.len(),
        ) + PROMPT_BEFORE_SECTIONS@ + numbered(a.sections@.map_values(|s: String| s@))
            + PROMPT_BEFORE_CONTEXT@ + a.context@ + PROMPT_END@,
{
    let mut text = PROMPT_BEFORE_TITLE.to_string();
    text.append(a.title.as_str());
    text.append(PROMPT_BEFORE_COUNT);
    text.append(decimal_text(a.sections.len() as u128).as_str());
    text.append(PROMPT_BEFORE_SECTIONS);
    text.append(numbered_list(&a.sections).as_str());
    text.append(PROMPT_BEFORE_CONTEXT);
    text.append(a.context.as_str());
    text.append(PROMPT_END);
    text
}

/// The conversation that asks for a draft: one message of the user.
pub fn draft_request(a: &Agreement) -> (messages: Vec<Message>)
    ensures
        messages@.len() == 1,
        messages@[0]@ == (MessageView {
            role: Role::User,
            content: prompt(a.title@, views(a.sections@), a.context@),
            tool_calls: None,
            tool_call_id: None,
            reasoning_content: None,
        }),
        messages@[0].role is User,
        messages@[0].content@ == PROMPT_BEFORE_TITLE@ + a.title@ + PROMPT_BEFORE_COUNT@ + decimal(
            a.sections@.len(),
        ) + PROMPT_BEFORE_SECTIONS@ + numbered(a.sections@.map_values(|s: String| s@))
            + PROMPT_BEFORE_CONTEXT@ + a.context@ + PROMPT_END@,
        messages@[0].tool_calls is None,
        messages@[0].tool_call_id is None,
        messages@[0].reasoning_content is None,
{
    let mut messages: Vec<Message> = Vec::new();
    messages.push(Message::new(Role::User, build_prompt(a)));
    messages
}

/// The draft that a reply holds: the content of its message, or nothing where it holds none.
pub fn draft_text(choices: Vec<Choice>) -> (text: String)
    ensures
        text@ == match reply_of(choice_views(choices@)) {
            Ok(message) => message.content,
            Err(_) => Seq::<char>::empty(),
        },
        choices@.len() == 0 ==> text@.len() == 0,
        choices@.len() > 0 && choices@[0].message is None ==> text@.len() == 0,
        choices@.len() > 0 && choices@[0].message is Some ==> text
            == choices@[0].message->0.content,
{
    match first_message(choices) {
        Ok(message) => message.content,
        Err(_) => String::new(),
    }
}

/// Whether a line of the text starts at position `i`.
pub open spec fn line_starts(text: Seq<char>, i: int) -> bool {
    0 <= i < text.len() && (i == 0 || text[i - 1] == '\n')
}

/// Whether a line that starts with `## ` starts at position `i`.
pub open spec fn heading_starts(text: Seq<char>, i: int) -> bool {
    line_starts(text, i) && i + 3 <= text.len() && text[i] == '#' && text[i + 1] == '#' && text[i
        + 2] == ' '
}

/// How many lines that start with `## ` start before position `end`.
pub open spec fn headings(text: Seq<char>, end: int) -> nat
    decreases end,
{
    if end <= 0 {
        0
    } else if heading_starts(text, end - 1) {
        headings(text, end - 1) + 1
    } else {
        headings(text, end - 1)
    }
}

/// Counts the lines that start with `## `.
pub fn count_sections(text: &str) -> (count: usize)
    ensures
        count == headings(text@, text@.len() as int),
{
    let ghost s = text@;
    let chars: usize = text.unicode_len();
    let mut count: usize = 0;
    let mut matched: u8 = 0;
    for c in iter: text.chars()
        invariant
            iter.seq() == s,
            s.len() == chars,
            matched <= 3,
            matched == 0 <==> iter.index() == 0 || s[iter.index() - 1] == '\n',
            matched == 1 <==> iter.index() >= 1 && line_starts(s, iter.index() - 1) && s[
                iter.index() - 1] == '#',
            matched == 2 <==> iter.index() >= 2 && line_starts(s, iter.index() - 2) && s[
                iter.index() - 2] == '#' && s[iter.index() - 1] == '#',
            count == headings(s, iter.index() - 2),
            count <= iter.index(),
    {
        if c == '\n' {
            matched = 0;
        } else if matched < 2 && c == '#' {
            matched = matched + 1;
        } else {
            if matched == 2 && c == ' ' {
                count = count + 1;
            }
            matched = 3;
        }
    }
    proof {
        reveal_with_fuel(headings, 3);
    }
    count
}

/// A list with one line more has the line at its end, behind its number and a line feed.
pub proof fn law_numbered_list_grows(lines: Seq<Seq<char>>, line: Seq<char>)
    ensures
        numbered(seq![line]) == "1. "@ + line,
        lines.len() >= 1 ==> numbered(lines.push(line)) == numbered(lines) + "\n"@ + decimal(
            lines.len() + 1,
        ) + ". "@ + line,
{
    reveal_strlit("1. ");
    reveal_strlit(". ");
    law_decimal_grows(0, 1);
    assert(numbered(seq![line]) == "1. "@ + line);
    assert(lines.push(line).drop_last() == lines);
    if lines.len() >= 1 {
        assert(numbered(lines.push(line)) == numbered(lines) + "\n"@ + decimal(lines.len() + 1)
            + ". "@ + line);
    }
}

/// Headings before a position that a text shares with a longer one are the same in both, up to
/// the line feed that follows the shorter.
proof fn lemma_headings_of_first(first: Seq<char>, rest: Seq<char>, end: int)
    requires
        0 <= end <= first.len() + 1,
    ensures
        headings(first + seq!['\n'] + rest, end) == headings(
            first,
            if end <= first.len() {
                end
            } else {
                end - 1
            },
        ),
    decreases end,
{
    if end > 0 {
        let text = first + seq!['\n'] + rest;
        let i = end - 1;
        lemma_headings_of_first(first, rest, i);
        assert(text[first.len() as int] == '\n');
        if i < first.len() {
            assert(text[i] == first[i]);
            if i > 0 {
                assert(text[i - 1] == first[i - 1]);
            }
            if i + 1 < first.len() {
                assert(text[i + 1] == first[i + 1]);
            }
            if i + 2 < first.len() {
                assert(text[i + 2] == first[i + 2]);
            }
            assert(heading_starts(text, i) == heading_starts(first, i));
        }
    }
}

proof fn lemma_headings_of_rest(first: Seq<char>, rest: Seq<char>, end: int)
    requires
        0 <= end <= rest.len(),
    ensures
        headings(first + seq!['\n'] + rest, first.len() + 1 + end) == headings(
            first,
            first.len() as int,
        ) + headings(rest, end),
    decreases end,
{
    let text = first + seq!['\n'] + rest;
    if end == 0 {
        lemma_headings_of_first(first, rest, first.len() as int + 1);
    } else {
        let i = end - 1;
        let at = first.len() + 1 + i;
        lemma_headings_of_rest(first, rest, i);
        assert(text[at] == rest[i]);
        assert(text[at - 1] == if i == 0 {
            '\n'
        } else {
            rest[i - 1]
        });
        assert(i + 1 < rest.len() ==> text[at + 1] == rest[i + 1]);
        assert(i + 2 < rest.len() ==> text[at + 2] == rest[i + 2]);
        assert(heading_starts(text, at) == heading_starts(rest, i));
    }
}

/// The sections of two texts with a line feed between them are those of the one and those of the
/// other.
pub proof fn law_sections_add_up(first: Seq<char>, rest: Seq<char>)
    ensures
        ({
            let text = first + seq!['\n'] + rest;
            headings(text, text.len() as int) == headings(first, first.len() as int) + headings(
                rest,
                rest.len() as int,
            )
        }),
{
    lemma_headings_of_rest(first, rest, rest.len() as int);
}

/// A text of one line has one section if it starts with `## `, and none if not.
pub proof fn law_line_has_one_section_or_none(line: Seq<char>)
    requires
        !line.contains('\n'),
    ensures
        headings(line, line.len() as int) == if line.len() >= 3 && line[0] == '#' && line[1] == '#'
            && line[2] == ' ' {
            1nat
        } else {
            0
        },
{
    lemma_headings_of_line(line, line.len() as int);
}

proof fn lemma_headings_of_line(line: Seq<char>, end: int)
    requires
        !line.contains('\n'),
        0 <= end <= line.len(),
    ensures
        headings(line, end) == if end > 0 && heading_starts(line, 0) {
            1nat
        } else {
            0
        },
    decreases end,
{
    if end > 0 {
        lemma_headings_of_line(line, end - 1);
        if end > 1 {
            assert(line.contains(line[end - 2]));
        }
    }
}

}

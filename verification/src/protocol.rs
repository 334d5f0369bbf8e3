//! The command protocol.
//!
//! A message is one line of text received over the socket. Two keywords,
//! `cancel` and `kill`, are recognised; everything else is MATLAB code.

use crate::text::trim;
use vstd::prelude::*;

verus! {

use crate::text::{
    all_white_space, is_white_space, the_middle_is_unique, trimmed, trimmed_is_the_middle,
    trimming_ignores_padding, trimming_twice_is_trimming_once,
};

/// A command that a client has sent.
#[derive(Debug, PartialEq, Eq)]
pub enum Command {
    /// Execute the given string as MATLAB code.
    RunCode(String),
    /// Send SIGINT to the MATLAB process (Ctrl-C).
    Cancel,
    /// Send SIGTERM to the MATLAB process (graceful shutdown).
    Kill,
}

/// The mathematical content of a [`Command`].
pub enum CommandView {
    RunCode(Seq<char>),
    Cancel,
    Kill,
}

impl View for Command {
    type V = CommandView;

    open spec fn view(&self) -> CommandView {
        match self {
            Command::RunCode(code) => CommandView::RunCode(code@),
            Command::Cancel => CommandView::Cancel,
            Command::Kill => CommandView::Kill,
        }
    }
}

/// The command that a message stands for.
pub open spec fn meaning(msg: Seq<char>) -> CommandView {
    if trimmed(msg) == "cancel"@ {
        CommandView::Cancel
    } else if trimmed(msg) == "kill"@ {
        CommandView::Kill
    } else {
        CommandView::RunCode(trimmed(msg))
    }
}

/// Parses a message into a [`Command`].
///
/// White space around the message is stripped before it is looked at.
pub fn parse_message(msg: &str) -> (res: Command)
    ensures
        res@ == meaning(msg@),
        res is Cancel <==> exists|before: Seq<char>, after: Seq<char>|
            (forall|i: int| 0 <= i < before.len() ==> is_white_space(#[trigger] before[i])) && (
            forall|i: int| 0 <= i < after.len() ==> is_white_space(#[trigger] after[i])) && msg@
                == #[trigger] (before + "cancel"@ + after),
        res is Kill <==> exists|before: Seq<char>, after: Seq<char>|
            (forall|i: int| 0 <= i < before.len() ==> is_white_space(#[trigger] before[i])) && (
            forall|i: int| 0 <= i < after.len() ==> is_white_space(#[trigger] after[i])) && msg@
                == #[trigger] (before + "kill"@ + after),
        res matches Command::RunCode(code) ==> {
            &&& exists|before: Seq<char>, after: Seq<char>|
                (forall|i: int| 0 <= i < before.len() ==> is_white_space(#[trigger] before[i])) && (
                forall|i: int| 0 <= i < after.len() ==> is_white_space(#[trigger] after[i])) && msg@
                    == #[trigger] (before + code@ + after)
            &&& code@.len() > 0 ==> !is_white_space(code@[0]) && !is_white_space(
                code@[code@.len() - 1],
            )
        },
{
    proof {
        messages_are_keywords_or_code(msg@);
    }
    let text = trim(msg);
    if text == "cancel".to_owned() {
        Command::Cancel
    } else if text == "kill".to_owned() {
        proof {
            keywords_differ();
        }
        Command::Kill
    } else {
        Command::RunCode(text)
    }
}

/// The two keywords are different, and neither holds white space.
proof fn keywords_differ()
    ensures
        "cancel"@ != "kill"@,
        "cancel"@.len() == 6,
        "kill"@.len() == 4,
        forall|i: int| 0 <= i < 6 ==> !is_white_space(#[trigger] "cancel"@[i]) && "cancel"@[i] != 'k',
        forall|i: int| 0 <= i < 4 ==> !is_white_space(#[trigger] "kill"@[i]) && "kill"@[i] != 'c',
        "cancel"@[0] == 'c',
        "kill"@[0] == 'k',
{
    reveal_strlit("cancel");
    reveal_strlit("kill");
    assert("cancel"@.len() != "kill"@.len());
}

/// A message cancels exactly when it is the word `cancel` with white space
/// around it, or none, and it kills exactly when it is the word `kill` in the
/// same way. Any other message is code: all of it but the white space around
/// it, which the code itself neither starts nor ends with.
pub proof fn messages_are_keywords_or_code(msg: Seq<char>)
    ensures
        meaning(msg) is Cancel <==> exists|before: Seq<char>, after: Seq<char>|
            (forall|i: int| 0 <= i < before.len() ==> is_white_space(#[trigger] before[i])) && (
            forall|i: int| 0 <= i < after.len() ==> is_white_space(#[trigger] after[i])) && msg
                == #[trigger] (before + "cancel"@ + after),
        meaning(msg) is Kill <==> exists|before: Seq<char>, after: Seq<char>|
            (forall|i: int| 0 <= i < before.len() ==> is_white_space(#[trigger] before[i])) && (
            forall|i: int| 0 <= i < after.len() ==> is_white_space(#[trigger] after[i])) && msg
                == #[trigger] (before + "kill"@ + after),
        meaning(msg) matches CommandView::RunCode(code) ==> {
            &&& exists|before: Seq<char>, after: Seq<char>|
                (forall|i: int| 0 <= i < before.len() ==> is_white_space(#[trigger] before[i])) && (
                forall|i: int| 0 <= i < after.len() ==> is_white_space(#[trigger] after[i])) && msg
                    == #[trigger] (before + code + after)
            &&& code.len() > 0 ==> !is_white_space(code[0]) && !is_white_space(code[code.len() - 1])
        },
{
    keywords_differ();
    trimmed_is_the_middle(msg);
    let (front, back) = choose|before: Seq<char>, after: Seq<char>|
        all_white_space(before) && all_white_space(after) && msg == #[trigger] (before + trimmed(msg)
            + after);
    if let CommandView::RunCode(code) = meaning(msg) {
        assert(msg == front + code + back);
    }
    assert forall|before: Seq<char>, after: Seq<char>|
        all_white_space(before) && all_white_space(after) && msg == #[trigger] (before + "cancel"@
            + after) implies trimmed(msg) == "cancel"@ by {
        the_middle_is_unique(before, "cancel"@, after);
    }
    assert forall|before: Seq<char>, after: Seq<char>|
        all_white_space(before) && all_white_space(after) && msg == #[trigger] (before + "kill"@
            + after) implies trimmed(msg) == "kill"@ by {
        the_middle_is_unique(before, "kill"@, after);
    }
}

/// A text that is not a keyword, and neither starts nor ends with white space,
/// is code, and comes out of a message unchanged whatever white space is put
/// around it.
pub proof fn code_comes_out_unchanged(before: Seq<char>, code: Seq<char>, after: Seq<char>)
    requires
        forall|i: int| 0 <= i < before.len() ==> is_white_space(#[trigger] before[i]),
        forall|i: int| 0 <= i < after.len() ==> is_white_space(#[trigger] after[i]),
        code.len() > 0 ==> !is_white_space(code[0]) && !is_white_space(code[code.len() - 1]),
        code != "cancel"@,
        code != "kill"@,
    ensures
        meaning(before + code + after) == CommandView::RunCode(code),
{
    the_middle_is_unique(before, code, after);
}

/// White space around a message does not change the command.
pub proof fn padding_is_ignored(before: Seq<char>, msg: Seq<char>, after: Seq<char>)
    requires
        all_white_space(before),
        all_white_space(after),
    ensures
        meaning(before + msg + after) == meaning(msg),
{
    trimming_ignores_padding(before, msg, after);
}

/// Code that came out of a message, sent as a message again, is the same code.
pub proof fn code_survives_resending(msg: Seq<char>, code: Seq<char>)
    requires
        meaning(msg) == CommandView::RunCode(code),
    ensures
        meaning(code) == CommandView::RunCode(code),
{
    trimming_twice_is_trimming_once(msg);
}

/// A message of white space alone is empty code.
pub proof fn blank_message_is_empty_code(msg: Seq<char>)
    requires
        all_white_space(msg),
    ensures
        meaning(msg) == CommandView::RunCode(Seq::empty()),
{
    let none = Seq::<char>::empty();
    trimming_ignores_padding(msg, none, none);
    assert(msg + none + none == msg);
    keywords_differ();
}

/// A keyword with more text beside it, be it on one side only, is code.
pub proof fn keyword_within_code_is_code(before: Seq<char>, after: Seq<char>)
    requires
        !all_white_space(before) || !all_white_space(after),
    ensures
        meaning(before + "cancel"@ + after) is RunCode,
        meaning(before + "kill"@ + after) is RunCode,
{
    keywords_differ();
    let cancel = trimmed(before + "cancel"@ + after);
    let kill = trimmed(before + "kill"@ + after);
    if cancel == "cancel"@ || cancel == "kill"@ {
        only_padding_surrounds(before, "cancel"@, after, cancel);
    }
    if kill == "cancel"@ || kill == "kill"@ {
        only_padding_surrounds(before, "kill"@, after, kill);
    }
}

/// Where trimming a text with a `word` in it leaves a keyword, the word lies
/// within that keyword.
proof fn only_padding_surrounds(
    before: Seq<char>,
    word: Seq<char>,
    after: Seq<char>,
    keyword: Seq<char>,
)
    requires
        word.len() > 0,
        forall|i: int| 0 <= i < word.len() ==> !is_white_space(#[trigger] word[i]),
        trimmed(before + word + after) == keyword,
    ensures
        keyword.contains(word[0]),
        word == keyword ==> all_white_space(before) && all_white_space(after),
{
    let whole = before + word + after;
    trimmed_is_the_middle(whole);
    let (left, right) = choose|left: Seq<char>, right: Seq<char>|
        all_white_space(left) && all_white_space(right) && whole == #[trigger] (left + trimmed(whole)
            + right);
    let first = before.len() as int;
    let last = before.len() + word.len() - 1;
    assert(whole[first] == word[0]);
    assert(whole[last] == word[word.len() - 1]);
    if first < left.len() {
        assert(whole[first] == left[first]);
    }
    if last >= left.len() + keyword.len() {
        assert(whole[last] == right[last - left.len() - keyword.len()]);
    }
    assert(keyword[first - left.len()] == word[0]);
    if word == keyword {
        assert(before == left) by {
            assert(before.len() == left.len());
            assert(before == whole.take(first));
            assert(left == whole.take(first));
        }
        assert(after == right) by {
            assert(after == whole.skip(last + 1));
            assert(right == whole.skip(last + 1));
        }
    }
}

} // verus!

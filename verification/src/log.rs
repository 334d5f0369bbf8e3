//! Lines for a log that goes to a terminal in raw mode.

use vstd::prelude::*;
use vstd::string::*;

verus! {

use vstd::utf8::encode_utf8;

/// A log line: it starts with a carriage return, since a terminal in raw mode
/// does not return the carriage at a line feed.
pub fn raw_line(msg: &str) -> (res: String)
    ensures
        res@ == "\r"@ + msg@,
{
    let mut res = "\r".to_owned();
    res.append(msg);
    res
}

/// How code is shown in the log: up to 80 bytes of it as it is, longer code by
/// its first 80 characters and an ellipsis.
pub open spec fn shown(code: Seq<char>) -> Seq<char> {
    if encode_utf8(code).len() <= 80 {
        code
    } else if code.len() <= 80 {
        code + "..."@
    } else {
        code.take(80) + "..."@
    }
}

/// Abbreviates code for the log.
pub fn preview(code: &str) -> (res: String)
    ensures
        res@ == shown(code@),
        encode_utf8(code@).len() <= 80 ==> res@ == code@,
        encode_utf8(code@).len() > 80 && code@.len() <= 80 ==> res@ == code@ + "..."@,
        code@.len() > 80 && encode_utf8(code@).len() > 80 ==> res@ == code@.subrange(0, 80)
            + "..."@,
{
    if code.as_bytes().len() > 80 {
        let mut res = if code.unicode_len() > 80 {
            code.substring_char(0, 80).to_owned()
        } else {
            code.to_owned()
        };
        assert(code@.len() > 80 ==> res@ == code@.take(80));
        res.append("...");
        res
    } else {
        code.to_owned()
    }
}

/// Short code is shown as it is, and long code is marked as cut: what is shown
/// of it is a front part of at most 80 characters, all of the code where it has
/// no more than that, with three dots behind it.
pub proof fn what_is_shown_of_code(code: Seq<char>)
    ensures
        encode_utf8(code).len() <= 80 ==> shown(code) == code,
        encode_utf8(code).len() > 80 ==> {
            &&& shown(code).len() == (if code.len() < 80 {
                code.len() as int
            } else {
                80
            }) + 3
            &&& forall|i: int| 0 <= i < shown(code).len() - 3 ==> #[trigger] shown(code)[i] == code[i]
            &&& shown(code).subrange(shown(code).len() - 3, shown(code).len() as int) == "..."@
        },
{
    reveal_strlit("...");
    assert(encode_utf8(code).len() > 80 ==> shown(code).subrange(
        shown(code).len() - 3,
        shown(code).len() as int,
    ) == "..."@);
}

} // verus!

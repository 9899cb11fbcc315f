//! The check of a running decision point from outside.

use vstd::prelude::*;

use crate::text;

verus! {

/// What stands in a status line for success, with the space in front of it.
pub const GOOD_STATUS: &'static str = " 200";

/// What a text holds up to the end of its first line.
pub open spec fn first_line(whole: Seq<char>) -> Seq<char>
    decreases whole.len(),
{
    if whole.len() == 0 || whole[0] == '\n' {
        Seq::empty()
    } else {
        seq![whole[0]] + first_line(whole.drop_first())
    }
}

/// The first space of a line stands at `at`, and behind it the three digits of
/// success; behind these stands a space, a carriage return or nothing.
pub open spec fn good_status_at(line: Seq<char>, at: int) -> bool {
    &&& 0 < at && at + 4 <= line.len()
    &&& forall|i: int| 0 <= i < at ==> line[i] != ' '
    &&& line.subrange(at, at + 4) == GOOD_STATUS@
    &&& at + 4 == line.len() || line[at + 4] == ' ' || line[at + 4] == '\r'
}

/// The status of a status line is that of success.
pub open spec fn status_is_200(line: Seq<char>) -> bool {
    exists|at: int| good_status_at(line, at)
}

/// Behind characters that end no line, the first line goes on.
proof fn first_line_of_prefix(whole: Seq<char>, length: int)
    requires
        0 <= length <= whole.len(),
        forall|i: int| 0 <= i < length ==> whole[i] != '\n',
        length < whole.len() ==> whole[length] == '\n',
    ensures
        first_line(whole) == whole.take(length),
    decreases whole.len(),
{
    if length == 0 {
        assert(whole.take(0) =~= Seq::<char>::empty());
    } else {
        let rest = whole.drop_first();
        assert forall|i: int| 0 <= i < length - 1 implies rest[i] != '\n' by {
            assert(rest[i] == whole[i + 1]);
        }
        first_line_of_prefix(rest, length - 1);
        assert(whole.take(length) =~= seq![whole[0]] + rest.take(length - 1));
    }
}

/// Whether the status of a status line is that of success.
fn has_good_status(line: &Vec<char>) -> (good: bool)
    ensures
        good == status_is_200(line@),
{
    let total: usize = line.len();
    let mut at: usize = 0;
    while at < total && line[at] != ' '
        invariant
            at <= total,
            total == line@.len(),
            forall|i: int| 0 <= i < at ==> line@[i] != ' ',
        decreases total - at,
    {
        at += 1;
    }
    proof {
        reveal_strlit(" 200");
        assert forall|other: int| good_status_at(line@, other) implies other == at by {
            assert(line@.subrange(other, other + 4)[0] == ' ');
            assert(line@[other] == ' ');
        }
    }
    if at == 0 || total - at < 4 {
        return false;
    }
    let digits = line[at + 1] == '2' && line[at + 2] == '0' && line[at + 3] == '0';
    let ended = total - at == 4 || line[at + 4] == ' ' || line[at + 4] == '\r';
    proof {
        let status = line@.subrange(at as int, at + 4);
        if digits {
            assert(status =~= GOOD_STATUS@);
            assert(good_status_at(line@, at as int) == ended);
        } else {
            assert(status[1] == line@[at + 1]);
            assert(status[2] == line@[at + 2]);
            assert(status[3] == line@[at + 3]);
        }
    }
    digits && ended
}

/// Whether a response to a probe for life says that all is well: the status in its
/// first line is that of success.
pub fn is_healthy(response: &str) -> (healthy: bool)
    ensures
        healthy == status_is_200(first_line(response@)),
{
    let chars = text::chars_of(response);
    let mut line: Vec<char> = Vec::new();
    let mut i: usize = 0;
    while i < chars.len() && chars[i] != '\n'
        invariant
            i <= chars@.len(),
            line@ == chars@.take(i as int),
            forall|k: int| 0 <= k < i ==> chars@[k] != '\n',
        decreases chars@.len() - i,
    {
        line.push(chars[i]);
        assert(line@ =~= chars@.take(i + 1));
        i += 1;
    }
    proof {
        first_line_of_prefix(chars@, i as int);
    }
    has_good_status(&line)
}

/// Whether the check of a running decision point succeeds. `response` is what it
/// answered; it is absent where it could not be reached, asked or heard.
pub fn run(response: Option<&str>) -> (success: bool)
    ensures
        success == (response is Some && status_is_200(first_line(response->0@))),
{
    match response {
        Some(response) => is_healthy(response),
        None => false,
    }
}

} // verus!

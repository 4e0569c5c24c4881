//! The log of an instance's console.
use crate::client::{instance_path, plain_request, ApiRequest, IncusClient, Method, RequestView};
use crate::console::NEWLINE;
use crate::json::{tokens, Json, JsonView};
use crate::text::join3;
use vstd::prelude::*;
use vstd::slice::slice_to_vec;
use vstd::utf8::encode_utf8;

verus! {

/// The request for the log of an instance's console.
pub open spec fn log_request(name: Seq<char>) -> RequestView {
    plain_request(Method::Get, instance_path(name) + "/console?action=show"@)
}

/// The request for the log of an instance's console.
pub fn log_request_of(client: &IncusClient, name: &str) -> (r: ApiRequest)
    ensures
        r@ == log_request(name@),
{
    client.get(join3("/1.0/instances/", name, "/console?action=show").as_str())
}

/// What `base64`'s standard engine decodes a text to; nothing where the text is no standard
/// base64.
pub uninterp spec fn base64_bytes(text: Seq<char>) -> Option<Seq<u8>>;

/// Calls `decode` of `base64::engine::general_purpose::STANDARD`, which decodes standard base64 with
/// padding. The outcome is determined by the text alone; the alphabet is left unsaid.
#[verifier::external_body]
fn decode_base64(text: &str) -> (r: Option<Vec<u8>>)
    ensures
        match r {
            Some(bytes) => base64_bytes(text@) == Some(bytes@),
            None => base64_bytes(text@) is None,
        },
{
    match base64::Engine::decode(&base64::engine::general_purpose::STANDARD, text) {
        Ok(bytes) => Some(bytes),
        Err(_) => None,
    }
}

/// The text that a response carries the log in.
pub open spec fn log_content(response: JsonView) -> Seq<char> {
    match response.text_at(seq!["metadata"@]) {
        Some(content) => content,
        None => Seq::empty(),
    }
}

/// The log that a text carries: what it decodes to, or its own bytes where it does not decode.
pub open spec fn log_bytes(content: Seq<char>, decoded: Option<Seq<u8>>) -> Seq<u8> {
    if content.len() == 0 {
        Seq::empty()
    } else {
        match decoded {
            Some(bytes) => bytes,
            None => encode_utf8(content),
        }
    }
}

/// The log that a text carries, once the text has been decoded.
pub fn choose_log_bytes(content: &str, decoded: Option<Vec<u8>>) -> (r: Vec<u8>)
    ensures
        r@ == log_bytes(
            content@,
            match decoded {
                Some(bytes) => Some(bytes@),
                None => None,
            },
        ),
{
    if content.is_empty() {
        Vec::new()
    } else {
        match decoded {
            Some(bytes) => bytes,
            None => slice_to_vec(content.as_bytes()),
        }
    }
}

/// Where the last lines of a log start: behind the newline that is the `n`-th from the end, and at
/// the start where there are fewer newlines. To ask for no lines is to ask for one.
pub open spec fn tail_start(log: Seq<u8>, n: nat) -> nat
    decreases log.len(),
{
    if log.len() == 0 {
        0
    } else if log.last() != NEWLINE {
        tail_start(log.drop_last(), n)
    } else if n <= 1 {
        log.len()
    } else {
        tail_start(log.drop_last(), (n - 1) as nat)
    }
}

/// The part of a log that is asked for: its last lines, or all of it.
pub open spec fn log_tail(log: Seq<u8>, lines: Option<usize>) -> Seq<u8> {
    match lines {
        Some(n) => log.skip(tail_start(log, n as nat) as int),
        None => log,
    }
}

/// The part of a log that is asked for.
pub fn limit_lines(log: Vec<u8>, lines: Option<usize>) -> (r: Vec<u8>)
    ensures
        r@ == log_tail(log@, lines),
{
    let n: usize = match lines {
        Some(n) => n,
        None => {
            return log;
        },
    };
    let mut i: usize = log.len();
    let mut missing: usize = n;
    assert(log@.take(i as int) =~= log@);
    while i > 0 && !(log[i - 1] == NEWLINE && missing <= 1)
        invariant
            i <= log@.len(),
            tail_start(log@, n as nat) == tail_start(log@.take(i as int), missing as nat),
        decreases i,
    {
        proof {
            let front = log@.take(i as int);
            assert(front.drop_last() =~= log@.take(i - 1));
            assert(front.last() == log@[i - 1]);
        }
        if log[i - 1] == NEWLINE {
            missing = missing - 1;
        }
        i = i - 1;
    }
    proof {
        let front = log@.take(i as int);
        if i > 0 {
            assert(front.last() == log@[i - 1]);
        }
        assert(tail_start(log@, n as nat) == i);
    }
    let mut front = log;
    let tail = front.split_off(i);
    assert(tail@ =~= log@.skip(i as int));
    tail
}

/// The log that a response carries, or as many of its last lines as are asked for.
pub fn console_log(response: &Json, lines: Option<usize>) -> (r: Vec<u8>)
    ensures
        r@ == log_tail(
            log_bytes(log_content(response@), base64_bytes(log_content(response@))),
            lines,
        ),
{
    let path: [&str; 1] = ["metadata"];
    assert(tokens(path@) =~= seq!["metadata"@]);
    proof {
        reveal_strlit("");
        assert(""@ =~= Seq::empty());
    }
    let content: &str = match response.str_at(&path) {
        Some(content) => content,
        None => "",
    };
    let decoded = decode_base64(content);
    limit_lines(choose_log_bytes(content, decoded), lines)
}

/// The more lines are asked for, the earlier they start.
proof fn lemma_more_lines_start_earlier(log: Seq<u8>, n: nat, m: nat)
    requires
        n <= m,
    ensures
        tail_start(log, m) <= tail_start(log, n) <= log.len(),
    decreases log.len(),
{
    if log.len() > 0 {
        let rest = log.drop_last();
        if log.last() != NEWLINE {
            lemma_more_lines_start_earlier(rest, n, m);
        } else if n > 1 {
            lemma_more_lines_start_earlier(rest, (n - 1) as nat, (m - 1) as nat);
        } else if m > 1 {
            lemma_more_lines_start_earlier(rest, (m - 1) as nat, (m - 1) as nat);
        }
    }
}

/// To ask for fewer lines is to get the end of what more lines are, and to ask for any number of
/// them the end of the whole log.
pub proof fn law_fewer_lines_are_the_end_of_more(log: Seq<u8>, n: usize, m: usize)
    requires
        n <= m,
    ensures
        log_tail(log, Some(n)).is_suffix_of(log_tail(log, Some(m))),
        log_tail(log, Some(m)).is_suffix_of(log_tail(log, None)),
{
    lemma_more_lines_start_earlier(log, n as nat, m as nat);
    let few = log_tail(log, Some(n));
    let more = log_tail(log, Some(m));
    assert(few =~= more.subrange(more.len() - few.len(), more.len() as int));
    assert(more =~= log.subrange(log.len() - more.len(), log.len() as int));
}

/// The newlines in some bytes.
pub open spec fn newlines(bytes: Seq<u8>) -> nat
    decreases bytes.len(),
{
    if bytes.len() == 0 {
        0
    } else if bytes.last() == NEWLINE {
        newlines(bytes.drop_last()) + 1
    } else {
        newlines(bytes.drop_last())
    }
}

/// The last lines of a log are all of it where it has fewer newlines than lines are asked for.
/// Otherwise a newline stands before them, and they hold one newline less than lines are asked for.
pub proof fn law_log_tail_has_lines(log: Seq<u8>, n: nat)
    requires
        n >= 1,
    ensures
        ({
            let start = tail_start(log, n);
            if newlines(log) < n {
                start == 0
            } else {
                &&& 0 < start <= log.len()
                &&& log[start - 1] == NEWLINE
                &&& newlines(log.skip(start as int)) == n - 1
            }
        }),
    decreases log.len(),
{
    if log.len() > 0 {
        let rest = log.drop_last();
        if log.last() == NEWLINE {
            if n > 1 {
                law_log_tail_has_lines(rest, (n - 1) as nat);
            } else {
                assert(log.skip(log.len() as int) =~= Seq::empty());
            }
        } else {
            law_log_tail_has_lines(rest, n);
        }
        let start = tail_start(log, n);
        if newlines(log) >= n && start < log.len() {
            let tail = log.skip(start as int);
            assert(tail.drop_last() =~= rest.skip(start as int));
            assert(tail.last() == log.last());
        }
    }
}

/// The newlines in some bytes are as many as the byte occurs.
proof fn lemma_newlines_are_counted(bytes: Seq<u8>)
    ensures
        newlines(bytes) == bytes.to_multiset().count(10u8),
    decreases bytes.len(),
{
    broadcast use vstd::seq_lib::group_to_multiset_ensures;

    if bytes.len() > 0 {
        let rest = bytes.drop_last();
        lemma_newlines_are_counted(rest);
        assert(bytes =~= rest.push(bytes.last()));
    }
}

/// What is given where the last lines are asked for. Where the log has no more newlines than that,
/// it is the whole log. Otherwise it is the end of the log behind a newline, and holds one newline
/// less than lines are asked for. To ask for no lines is to ask for one.
pub proof fn law_given_lines_are_the_last_ones(log: Seq<u8>, n: usize)
    requires
        n >= 1,
    ensures
        ({
            let given = log_tail(log, Some(n));
            if log.to_multiset().count(10u8) < n {
                given == log
            } else {
                &&& exists|front: Seq<u8>| log == #[trigger] (front + seq![10u8]) + given
                &&& given.to_multiset().count(10u8) == n - 1
            }
        }),
        log_tail(log, Some(0)) == log_tail(log, Some(1)),
        log_tail(log, None) == log,
{
    law_log_tail_has_lines(log, n as nat);
    lemma_newlines_are_counted(log);
    let given = log_tail(log, Some(n));
    lemma_newlines_are_counted(given);
    let start = tail_start(log, n as nat) as int;
    if newlines(log) < n {
        assert(given =~= log);
    } else {
        let front = log.take(start - 1);
        assert(log =~= (front + seq![10u8]) + given);
    }
    lemma_no_lines_are_one(log);
}

/// To ask for no lines is to ask for one.
proof fn lemma_no_lines_are_one(log: Seq<u8>)
    ensures
        tail_start(log, 0) == tail_start(log, 1),
    decreases log.len(),
{
    if log.len() > 0 {
        lemma_no_lines_are_one(log.drop_last());
    }
}

/// The log that a text carries is all of what it decodes to, or all of its own bytes where it does
/// not decode; an empty text carries none.
pub proof fn law_log_is_all_of_its_content(content: Seq<char>, decoded: Option<Seq<u8>>)
    ensures
        content.len() == 0 ==> log_bytes(content, decoded).len() == 0,
        content.len() > 0 && decoded is Some ==> log_bytes(content, decoded) == decoded->0,
        content.len() > 0 && decoded is None ==> log_bytes(content, decoded) == encode_utf8(content),
{
}

/// The log is carried in the text that a response's member `metadata` is; in no other place.
pub proof fn law_log_is_carried_in_metadata(response: JsonView)
    ensures
        match response {
            JsonView::Object(members) => if members.contains_key("metadata"@) && members[
                "metadata"@
            ] is Text {
                log_content(response) == members["metadata"@]->Text_0
            } else {
                log_content(response).len() == 0
            },
            _ => log_content(response).len() == 0,
        },
{
    reveal_strlit("metadata");
    assert("metadata"@[0] == 'm');
    let path = seq!["metadata"@];
    assert(path.skip(1) =~= Seq::empty());
    reveal_with_fuel(JsonView::at, 2);
}

/// The log is asked for by a request that reads, at the console of its own instance.
pub proof fn law_logs_are_asked_of_their_instance(name: Seq<char>)
    ensures
        log_request(name) == (RequestView {
            method: Method::Get,
            path: "/1.0/instances/"@ + name + "/console?action=show"@,
            body: None,
        }),
{
}

} // verus!

//! The console of an instance: its output is cut into lines.
use crate::text::{lemma_position, lemma_position_is, position, trim, trimmed};
use vstd::prelude::*;
use vstd::slice::{slice_subrange, slice_to_vec};
use vstd::utf8::{decode_utf8, encode_utf8, valid_utf8};

verus! {

/// A line of console output is cut after this many bytes.
pub const MAX_LINE: usize = 512;

/// The byte that ends a line.
pub const NEWLINE: u8 = 10;

/// What `CompactString::from_utf8_lossy` reads bytes as: UTF-8, with what is not UTF-8 replaced.
pub uninterp spec fn lossy_text(bytes: Seq<u8>) -> Seq<char>;

/// Calls `compact_str::CompactString::from_utf8_lossy`, which decodes bytes as UTF-8 and puts a
/// replacement character where they are not. The text is determined by the bytes alone, and where
/// all of them are UTF-8, it is what they encode; how many replacement characters stand where is
/// left unsaid.
#[verifier::external_body]
fn decode_lossy(bytes: &[u8]) -> (r: String)
    ensures
        r@ == lossy_text(bytes@),
        valid_utf8(bytes@) ==> r@ == decode_utf8(bytes@),
{
    compact_str::CompactString::from_utf8_lossy(bytes).into_string()
}

/// The text of a console line: its bytes, decoded and without white space at either end.
pub open spec fn line_text(bytes: Seq<u8>) -> Seq<char> {
    trimmed(lossy_text(bytes))
}

/// The first line of some console output, and what follows it. A line ends at a newline, or
/// after `MAX_LINE` bytes where no newline stands up to there. Output that may still become part
/// of a longer line holds no line yet.
pub open spec fn first_line(output: Seq<u8>) -> Option<(Seq<u8>, Seq<u8>)> {
    let end = position(output, NEWLINE);
    if end > MAX_LINE {
        Some((output.take(MAX_LINE as int), output.skip(MAX_LINE as int)))
    } else if end < output.len() {
        Some((output.take(end), output.skip(end + 1)))
    } else {
        None
    }
}

/// A line takes bytes away from the output.
proof fn lemma_first_line_shortens(output: Seq<u8>)
    ensures
        first_line(output) matches Some((line, rest)) ==> rest.len() < output.len(),
{
    lemma_position(output, NEWLINE);
}

/// The lines that some console output holds.
pub open spec fn console_lines(output: Seq<u8>) -> Seq<Seq<u8>>
    decreases output.len(),
    via console_lines_decreases
{
    match first_line(output) {
        Some((line, rest)) => seq![line] + console_lines(rest),
        None => Seq::empty(),
    }
}

#[via_fn]
proof fn console_lines_decreases(output: Seq<u8>) {
    lemma_first_line_shortens(output);
}

/// What is left of some console output after its lines.
pub open spec fn console_rest(output: Seq<u8>) -> Seq<u8>
    decreases output.len(),
    via console_rest_decreases
{
    match first_line(output) {
        Some((line, rest)) => console_rest(rest),
        None => output,
    }
}

#[via_fn]
proof fn console_rest_decreases(output: Seq<u8>) {
    lemma_first_line_shortens(output);
}

/// The characters of strings.
pub open spec fn texts(strings: Seq<String>) -> Seq<Seq<char>> {
    strings.map_values(|s: String| s@)
}

/// The text is that of the line: where the line is UTF-8, what it encodes, without white space at
/// either end.
pub open spec fn is_text_of(text: Seq<char>, line: Seq<u8>) -> bool {
    &&& text == line_text(line)
    &&& valid_utf8(line) ==> text == trimmed(decode_utf8(line))
}

/// The strings are the texts of the lines, one for one.
pub open spec fn are_texts_of(strings: Seq<String>, lines: Seq<Seq<u8>>) -> bool {
    &&& strings.len() == lines.len()
    &&& forall|i: int| 0 <= i < strings.len() ==> is_text_of((#[trigger] strings[i])@, lines[i])
}

/// The bytes of lines.
pub open spec fn line_bytes(lines: Seq<Vec<u8>>) -> Seq<Seq<u8>> {
    lines.map_values(|line: Vec<u8>| line@)
}

/// Console output that has arrived and does not make a full line yet.
pub struct ConsoleBuffer {
    pub pending: Vec<u8>,
}

impl ConsoleBuffer {
    /// No output yet.
    pub fn new() -> (r: Self)
        ensures
            r.pending@ == Seq::<u8>::empty(),
    {
        ConsoleBuffer { pending: Vec::new() }
    }

    /// Takes in more output, and gives the bytes of the lines that are now complete.
    pub fn cut(&mut self, data: &[u8]) -> (lines: Vec<Vec<u8>>)
        ensures
            line_bytes(lines@) == console_lines(old(self).pending@ + data@),
            final(self).pending@ == console_rest(old(self).pending@ + data@),
    {
        let mut buffer: Vec<u8> = Vec::new();
        std::mem::swap(&mut buffer, &mut self.pending);
        buffer.extend_from_slice(data);
        let ghost output = old(self).pending@ + data@;
        assert(buffer@ =~= output);
        let mut lines: Vec<Vec<u8>> = Vec::new();
        let mut line_start: usize = 0;
        let mut open = true;
        assert(output.skip(0) =~= output);
        assert(line_bytes(lines@) + console_lines(output) =~= console_lines(output));
        while open
            invariant
                buffer@ == output,
                line_start <= buffer@.len(),
                console_lines(output) == line_bytes(lines@) + console_lines(
                    output.skip(line_start as int),
                ),
                console_rest(output) == console_rest(output.skip(line_start as int)),
                !open ==> first_line(output.skip(line_start as int)) is None,
            decreases
                buffer@.len() - line_start,
                if open {
                    1int
                } else {
                    0int
                },
        {
            let ghost rest = output.skip(line_start as int);
            let newline: usize = find_newline(&buffer, line_start);
            proof {
                lemma_position(rest, NEWLINE);
                lemma_first_line_shortens(rest);
            }
            if newline - line_start > MAX_LINE {
                let end: usize = line_start + MAX_LINE;
                let ghost before = lines@;
                lines.push(bytes_between(&buffer, line_start, end));
                proof {
                    assert(rest.take(MAX_LINE as int) =~= output.subrange(
                        line_start as int,
                        end as int,
                    ));
                    assert(rest.skip(MAX_LINE as int) =~= output.skip(end as int));
                    let line = rest.take(MAX_LINE as int);
                    lemma_next_line(before, lines@, rest, line, output.skip(end as int));
                }
                line_start = end;
            } else if newline < buffer.len() {
                let ghost before = lines@;
                lines.push(bytes_between(&buffer, line_start, newline));
                proof {
                    assert(rest.take(newline - line_start) =~= output.subrange(
                        line_start as int,
                        newline as int,
                    ));
                    assert(rest.skip(newline - line_start + 1) =~= output.skip(newline + 1));
                    let line = rest.take(newline - line_start);
                    lemma_next_line(before, lines@, rest, line, output.skip(newline + 1));
                }
                line_start = newline + 1;
            } else {
                open = false;
            }
        }
        let rest = buffer.split_off(line_start);
        self.pending = rest;
        proof {
            let left = output.skip(line_start as int);
            assert(self.pending@ =~= left);
            assert(line_bytes(lines@) + console_lines(left) =~= line_bytes(lines@));
        }
        lines
    }

    /// Takes in more output, and gives the texts of the lines that are now complete.
    pub fn receive(&mut self, data: &[u8]) -> (lines: Vec<String>)
        ensures
            are_texts_of(lines@, console_lines(old(self).pending@ + data@)),
            final(self).pending@ == console_rest(old(self).pending@ + data@),
    {
        let cut = self.cut(data);
        let ghost all = line_bytes(cut@);
        let mut lines: Vec<String> = Vec::new();
        for i in 0..cut.len()
            invariant
                all == line_bytes(cut@),
                are_texts_of(lines@, all.take(i as int)),
        {
            lines.push(read_line(&cut[i]));
        }
        assert(all.take(cut@.len() as int) =~= all);
        lines
    }

    /// Ends the output: what is left of it is a line of its own, unless nothing is left.
    pub fn finish(&mut self) -> (line: Option<String>)
        ensures
            final(self).pending@ == Seq::<u8>::empty(),
            match line {
                Some(text) => old(self).pending@.len() > 0 && is_text_of(
                    text@,
                    old(self).pending@,
                ),
                None => old(self).pending@.len() == 0,
            },
    {
        let mut buffer: Vec<u8> = Vec::new();
        std::mem::swap(&mut buffer, &mut self.pending);
        if buffer.len() > 0 {
            Some(read_line(&buffer))
        } else {
            None
        }
    }

    /// Takes in what the console's connection delivers. Output is read for lines, a message
    /// without output changes nothing, and at the end of the connection what is left over is the
    /// last line.
    pub fn handle(&mut self, event: ConsoleEvent) -> (r: ConsoleOutput)
        ensures
            r.open == !(event is Closed),
            match event {
                ConsoleEvent::Binary(data) => {
                    &&& are_texts_of(r.lines@, console_lines(old(self).pending@ + data@))
                    &&& final(self).pending@ == console_rest(old(self).pending@ + data@)
                },
                ConsoleEvent::Text(text) => {
                    let output = old(self).pending@ + encode_utf8(text@);
                    &&& are_texts_of(r.lines@, console_lines(output))
                    &&& final(self).pending@ == console_rest(output)
                },
                ConsoleEvent::Other => {
                    &&& r.lines@.len() == 0
                    &&& final(self).pending@ == old(self).pending@
                },
                ConsoleEvent::Closed => {
                    &&& are_texts_of(r.lines@, last_lines(old(self).pending@))
                    &&& final(self).pending@ == Seq::<u8>::empty()
                },
            },
    {
        match event {
            ConsoleEvent::Binary(data) => {
                ConsoleOutput { lines: self.receive(data.as_slice()), open: true }
            },
            ConsoleEvent::Text(text) => {
                ConsoleOutput { lines: self.receive(text.as_str().as_bytes()), open: true }
            },
            ConsoleEvent::Other => ConsoleOutput { lines: Vec::new(), open: true },
            ConsoleEvent::Closed => {
                let mut lines: Vec<String> = Vec::new();
                match self.finish() {
                    Some(line) => {
                        lines.push(line);
                    },
                    None => {},
                }
                ConsoleOutput { lines, open: false }
            },
        }
    }
}

/// What the connection to a console delivers.
pub enum ConsoleEvent {
    /// Output, as bytes.
    Binary(Vec<u8>),
    /// Output, as text.
    Text(String),
    /// A message without output.
    Other,
    /// The end of the connection, in order or by a failure.
    Closed,
}

/// The lines that an event completes, and whether the connection goes on.
pub struct ConsoleOutput {
    pub lines: Vec<String>,
    pub open: bool,
}

/// The lines that the end of the output completes.
pub open spec fn last_lines(pending: Seq<u8>) -> Seq<Seq<u8>> {
    if pending.len() > 0 {
        seq![pending]
    } else {
        Seq::empty()
    }
}

/// One more line has been cut off: the lines so far and the remaining ones stay together.
proof fn lemma_next_line(
    before: Seq<Vec<u8>>,
    after: Seq<Vec<u8>>,
    output: Seq<u8>,
    line: Seq<u8>,
    rest: Seq<u8>,
)
    requires
        first_line(output) == Some((line, rest)),
        after.len() == before.len() + 1,
        after.drop_last() =~= before,
        after.last()@ == line,
    ensures
        line_bytes(before) + console_lines(output) == line_bytes(after) + console_lines(rest),
        console_rest(output) == console_rest(rest),
{
    assert(line_bytes(after) =~= line_bytes(before) + seq![line]);
    assert(line_bytes(before) + (seq![line] + console_lines(rest)) =~= line_bytes(after)
        + console_lines(rest));
}

/// The position of the first newline in `buffer[from..]`, counted from the start of the buffer, or
/// the length of the buffer where there is none.
fn find_newline(buffer: &Vec<u8>, from: usize) -> (r: usize)
    requires
        from <= buffer@.len(),
    ensures
        r == from + position(buffer@.skip(from as int), NEWLINE),
        from <= r <= buffer@.len(),
{
    let mut i: usize = from;
    while i < buffer.len() && buffer[i] != NEWLINE
        invariant
            from <= i <= buffer@.len(),
            forall|k: int| from <= k < i ==> buffer@[k] != NEWLINE,
        decreases buffer@.len() - i,
    {
        i = i + 1;
    }
    proof {
        let rest = buffer@.skip(from as int);
        assert forall|k: int| 0 <= k < i - from implies rest[k] != NEWLINE by {
            assert(buffer@[from + k] != NEWLINE);
        }
        lemma_position_is(rest, NEWLINE, i - from);
    }
    i
}

/// The bytes `buffer[from..to]`.
fn bytes_between(buffer: &Vec<u8>, from: usize, to: usize) -> (r: Vec<u8>)
    requires
        from <= to <= buffer@.len(),
    ensures
        r@ == buffer@.subrange(from as int, to as int),
{
    slice_to_vec(slice_subrange(buffer.as_slice(), from, to))
}

/// The text of a line.
fn read_line(line: &Vec<u8>) -> (r: String)
    ensures
        is_text_of(r@, line@),
{
    let text = decode_lossy(line.as_slice());
    line_of(text.as_str())
}

/// The text of a line, once its bytes have been decoded: without white space at either end.
pub fn line_of(text: &str) -> (r: String)
    ensures
        r@ == trimmed(text@),
{
    trim(text)
}

/// How the output is cut into pieces on its way makes no difference to the lines: to read it in
/// two pieces gives the same lines, and leaves the same rest, as to read it at once.
pub proof fn law_pieces_do_not_matter(first: Seq<u8>, second: Seq<u8>)
    ensures
        console_lines(first + second) == console_lines(first) + console_lines(
            console_rest(first) + second,
        ),
        console_rest(first + second) == console_rest(console_rest(first) + second),
    decreases first.len(),
{
    let whole = first + second;
    match first_line(first) {
        Some((line, rest)) => {
            lemma_first_line_shortens(first);
            lemma_position(first, NEWLINE);
            lemma_position(whole, NEWLINE);
            let end = position(first, NEWLINE);
            if end < first.len() {
                assert forall|k: int| 0 <= k < end implies whole[k] != NEWLINE by {
                    assert(first[k] != NEWLINE);
                }
                lemma_position_is(whole, NEWLINE, end);
            } else {
                let at = position(whole, NEWLINE);
                assert(at >= first.len()) by {
                    if at < first.len() {
                        assert(first[at] == whole[at]);
                    }
                }
            }
            if end > MAX_LINE {
                assert(whole.take(MAX_LINE as int) =~= line);
                assert(whole.skip(MAX_LINE as int) =~= rest + second);
            } else {
                assert(whole.take(end) =~= line);
                assert(whole.skip(end + 1) =~= rest + second);
            }
            assert(first_line(whole) == Some((line, rest + second)));
            law_pieces_do_not_matter(rest, second);
            assert(console_lines(whole) =~= console_lines(first) + console_lines(
                console_rest(first) + second,
            ));
        },
        None => {
            assert(console_lines(first) + console_lines(first + second) =~= console_lines(
                first + second,
            ));
        },
    }
}

/// Every line is at most `MAX_LINE` bytes long and holds no newline, and so is what is left over.
pub proof fn law_lines_are_short(output: Seq<u8>)
    ensures
        forall|i: int|
            0 <= i < console_lines(output).len() ==> (#[trigger] console_lines(output)[i]).len()
                <= MAX_LINE && !console_lines(output)[i].contains(NEWLINE),
        console_rest(output).len() <= MAX_LINE,
        !console_rest(output).contains(NEWLINE),
    decreases output.len(),
{
    lemma_position(output, NEWLINE);
    match first_line(output) {
        Some((line, rest)) => {
            lemma_first_line_shortens(output);
            law_lines_are_short(rest);
            assert(!line.contains(NEWLINE)) by {
                assert forall|k: int| 0 <= k < line.len() implies line[k] != NEWLINE by {
                    assert(output[k] != NEWLINE);
                }
            }
            assert forall|i: int| 0 <= i < console_lines(output).len() implies (
            #[trigger] console_lines(output)[i]).len() <= MAX_LINE && !console_lines(
                output,
            )[i].contains(NEWLINE) by {
                if i > 0 {
                    assert(console_lines(output)[i] == console_lines(rest)[i - 1]);
                }
            }
        },
        None => {},
    }
}

/// Bytes without the newlines among them.
pub open spec fn without_newlines(bytes: Seq<u8>) -> Seq<u8>
    decreases bytes.len(),
{
    if bytes.len() == 0 {
        bytes
    } else if bytes[0] == NEWLINE {
        without_newlines(bytes.skip(1))
    } else {
        seq![bytes[0]] + without_newlines(bytes.skip(1))
    }
}

/// The bytes of all lines, one line after the other.
pub open spec fn all_bytes(lines: Seq<Seq<u8>>) -> Seq<u8>
    decreases lines.len(),
{
    if lines.len() == 0 {
        Seq::empty()
    } else {
        lines[0] + all_bytes(lines.skip(1))
    }
}

/// To leave out the newlines of two pieces is to leave out those of the whole.
proof fn lemma_without_newlines_add(a: Seq<u8>, b: Seq<u8>)
    ensures
        without_newlines(a + b) == without_newlines(a) + without_newlines(b),
    decreases a.len(),
{
    if a.len() == 0 {
        assert(a + b =~= b);
        assert(without_newlines(a) + without_newlines(b) =~= without_newlines(b));
    } else {
        lemma_without_newlines_add(a.skip(1), b);
        assert((a + b).skip(1) =~= a.skip(1) + b);
        assert(without_newlines(a + b) =~= without_newlines(a) + without_newlines(b));
    }
}

/// Bytes that hold no newline stay as they are.
proof fn lemma_without_newlines_same(bytes: Seq<u8>)
    requires
        !bytes.contains(NEWLINE),
    ensures
        without_newlines(bytes) == bytes,
    decreases bytes.len(),
{
    if bytes.len() > 0 {
        assert(bytes[0] != NEWLINE);
        assert(!bytes.skip(1).contains(NEWLINE)) by {
            assert forall|k: int| 0 <= k < bytes.skip(1).len() implies bytes.skip(1)[k]
                != NEWLINE by {
                assert(bytes.contains(bytes[k + 1]));
            }
        }
        lemma_without_newlines_same(bytes.skip(1));
        assert(seq![bytes[0]] + bytes.skip(1) =~= bytes);
    }
}

/// No output is lost, doubled or reordered: the lines and the rest hold all of it but newlines.
pub proof fn law_nothing_is_lost(output: Seq<u8>)
    ensures
        all_bytes(console_lines(output)) + console_rest(output) == without_newlines(output),
    decreases output.len(),
{
    lemma_position(output, NEWLINE);
    match first_line(output) {
        Some((line, rest)) => {
            lemma_first_line_shortens(output);
            law_lines_are_short(output);
            law_nothing_is_lost(rest);
            assert(console_lines(output)[0] == line);
            assert(console_lines(output).skip(1) =~= console_lines(rest));
            lemma_without_newlines_same(line);
            if position(output, NEWLINE) > MAX_LINE {
                assert(line + rest =~= output);
                lemma_without_newlines_add(line, rest);
            } else {
                let newline = seq![NEWLINE];
                assert(line + (newline + rest) =~= output);
                lemma_without_newlines_add(line, newline + rest);
                assert((newline + rest).skip(1) =~= rest);
            }
            assert(all_bytes(console_lines(output)) + console_rest(output) =~= line + (all_bytes(
                console_lines(rest),
            ) + console_rest(rest)));
        },
        None => {
            law_lines_are_short(output);
            lemma_without_newlines_same(output);
            assert(all_bytes(console_lines(output)) + output =~= output);
        },
    }
}

/// A run of up to 512 bytes without a newline, with a newline behind it, is one line, whatever the
/// bytes are, and what follows is read as if it stood alone.
pub proof fn law_line_ends_at_its_newline(text: Seq<u8>, tail: Seq<u8>)
    requires
        text.len() <= 512,
        forall|i: int| 0 <= i < text.len() ==> #[trigger] text[i] != 10,
    ensures
        console_lines(text + seq![10u8] + tail) == seq![text] + console_lines(tail),
        console_rest(text + seq![10u8] + tail) == console_rest(tail),
{
    let output = text + seq![10u8] + tail;
    assert forall|k: int| 0 <= k < text.len() implies output[k] != NEWLINE by {
        assert(output[k] == text[k]);
    }
    lemma_position_is(output, NEWLINE, text.len() as int);
    assert(output.take(text.len() as int) =~= text);
    assert(output.skip(text.len() as int + 1) =~= tail);
    assert(first_line(output) == Some((text, tail)));
}

/// Of a longer run without a newline the first 512 bytes are a line, and what follows is read as if
/// it stood alone.
pub proof fn law_long_line_is_cut_at_its_length(text: Seq<u8>, tail: Seq<u8>)
    requires
        text.len() == 512,
        forall|i: int| 0 <= i < text.len() ==> #[trigger] text[i] != 10,
        tail.len() > 0,
        tail[0] != 10,
    ensures
        console_lines(text + tail) == seq![text] + console_lines(tail),
        console_rest(text + tail) == console_rest(tail),
{
    let output = text + tail;
    lemma_position(output, NEWLINE);
    let end = position(output, NEWLINE);
    assert(end > 512) by {
        if end < 512 {
            assert(output[end] == text[end]);
        } else if end == 512 {
            assert(output[end] == tail[0]);
        }
    }
    assert(output.take(512) =~= text);
    assert(output.skip(512) =~= tail);
    assert(first_line(output) == Some((text, tail)));
}

/// Up to 512 bytes without a newline make no line yet: they are kept until more comes.
pub proof fn law_unfinished_line_is_kept(text: Seq<u8>)
    requires
        text.len() <= 512,
        forall|i: int| 0 <= i < text.len() ==> #[trigger] text[i] != 10,
    ensures
        console_lines(text) == Seq::<Seq<u8>>::empty(),
        console_rest(text) == text,
{
    lemma_position(text, NEWLINE);
}

/// At the end of the output what was kept is the last line, all of it, and nothing makes no line.
pub proof fn law_last_line_is_all_that_was_kept(pending: Seq<u8>)
    ensures
        pending.len() > 0 ==> last_lines(pending) == seq![pending],
        pending.len() == 0 ==> last_lines(pending).len() == 0,
{
}

/// Each line has one text: what its bytes are read as, from the first character to the last that is
/// no white space.
pub proof fn law_texts_are_those_of_the_lines(strings: Seq<String>, lines: Seq<Seq<u8>>, i: int)
    requires
        are_texts_of(strings, lines),
        0 <= i < lines.len(),
    ensures
        strings.len() == lines.len(),
        strings[i]@ == trimmed(lossy_text(lines[i])),
        valid_utf8(lines[i]) ==> strings[i]@ == trimmed(decode_utf8(lines[i])),
{
    assert(is_text_of(strings[i]@, lines[i]));
}

/// The lines that are cut off are given with all of their bytes, one for one.
pub proof fn law_lines_are_given_whole(lines: Seq<Vec<u8>>, i: int)
    requires
        0 <= i < lines.len(),
    ensures
        line_bytes(lines).len() == lines.len(),
        line_bytes(lines)[i] == lines[i]@,
{
}

} // verus!

//! The input as text, and the text as lines.
use vstd::prelude::*;
use vstd::string::StringSliceAdditionalSpecFns;
use vstd::utf8::encode_scalar;
use vstd::utf8::encode_utf8;
use vstd::utf8::encode_utf8_decode_utf8;
use vstd::utf8::encode_utf8_valid_utf8;
use vstd::utf8::is_char_boundary;
use vstd::utf8::is_char_boundary_iff_not_is_continuation_byte;
use vstd::utf8::is_char_boundary_start_end_of_seq;
use vstd::utf8::valid_utf8;

verus! {

/// The number of characters before the first line feed of `text`, or the
/// length of `text` where it has none.
pub open spec fn line_end(text: Seq<char>) -> nat
    decreases text.len(),
{
    if text.len() == 0 || text[0] == '\n' {
        0
    } else {
        1 + line_end(text.drop_first())
    }
}

/// The lines of `text`, in order and without the empty ones. A line ends
/// before a line feed or at the end of the text, and holds no line feed.
pub open spec fn text_lines(text: Seq<char>) -> Seq<Seq<char>>
    decreases text.len(),
{
    if text.len() == 0 {
        Seq::empty()
    } else {
        let end = line_end(text) as int;
        let others = if end < text.len() {
            text_lines(text.skip(end + 1))
        } else {
            Seq::empty()
        };
        if end == 0 {
            others
        } else {
            seq![text.take(end)] + others
        }
    }
}

/// Whether `text` holds no line feed.
pub open spec fn has_no_line_feed(text: Seq<char>) -> bool {
    forall|i: int| 0 <= i < text.len() ==> text[i] != '\n'
}

/// A text without line feed that stands before a line feed, or at the end,
/// is the first line.
pub proof fn lemma_line_end_after(head: Seq<char>, tail: Seq<char>)
    requires
        has_no_line_feed(head),
        tail.len() == 0 || tail[0] == '\n',
    ensures
        line_end(head + tail) == head.len(),
    decreases head.len(),
{
    let text = head + tail;
    if head.len() == 0 {
        assert(text =~= tail);
    } else {
        assert(text[0] == head[0]);
        assert(text.drop_first() =~= head.drop_first() + tail);
        assert forall|i: int| 0 <= i < head.drop_first().len() implies head.drop_first()[i]
            != '\n' by {
            assert(head.drop_first()[i] == head[i + 1]);
        }
        lemma_line_end_after(head.drop_first(), tail);
    }
}

/// The first line feed stands at `line_end`, and none stands before.
pub proof fn lemma_line_end_is_first_line_feed(text: Seq<char>)
    ensures
        line_end(text) <= text.len(),
        has_no_line_feed(text.take(line_end(text) as int)),
        line_end(text) < text.len() ==> text[line_end(text) as int] == '\n',
    decreases text.len(),
{
    if text.len() == 0 || text[0] == '\n' {
    } else {
        let rest = text.drop_first();
        lemma_line_end_is_first_line_feed(rest);
        let end = line_end(text) as int;
        assert forall|i: int| 0 <= i < end implies text.take(end)[i] != '\n' by {
            if i > 0 {
                assert(rest.take(end - 1)[i - 1] == text[i]);
            }
        }
    }
}

/// No line is empty, and no line holds a line feed.
pub proof fn lemma_lines_are_whole(text: Seq<char>)
    ensures
        forall|i: int|
            0 <= i < text_lines(text).len() ==> (#[trigger] text_lines(text)[i]).len() > 0
                && has_no_line_feed(text_lines(text)[i]),
    decreases text.len(),
{
    if text.len() > 0 {
        lemma_line_end_is_first_line_feed(text);
        let end = line_end(text) as int;
        let others = if end < text.len() {
            text_lines(text.skip(end + 1))
        } else {
            Seq::empty()
        };
        if end < text.len() {
            lemma_lines_are_whole(text.skip(end + 1));
        }
        assert forall|i: int| 0 <= i < text_lines(text).len() implies (#[trigger] text_lines(
            text,
        )[i]).len() > 0 && has_no_line_feed(text_lines(text)[i]) by {
            if end == 0 {
                assert(text_lines(text)[i] == others[i]);
            } else if i == 0 {
                assert(text_lines(text)[0] == text.take(end));
            } else {
                assert(text_lines(text)[i] == others[i - 1]);
            }
        }
    }
}

/// A text without line feed is one line, or none if it is empty.
pub proof fn lemma_text_without_line_feed_is_one_line(text: Seq<char>)
    requires
        has_no_line_feed(text),
    ensures
        text_lines(text) == if text.len() == 0 {
            Seq::<Seq<char>>::empty()
        } else {
            seq![text]
        },
{
    lemma_line_end_after(text, Seq::empty());
    assert(text + Seq::<char>::empty() =~= text);
    if text.len() > 0 {
        assert(text.take(text.len() as int) =~= text);
        assert(text_lines(text) =~= seq![text]);
    }
}

/// The lines of two texts with a line feed between them are the lines of
/// the first followed by the lines of the second.
pub proof fn lemma_lines_of_joined_texts(first: Seq<char>, second: Seq<char>)
    ensures
        text_lines(first + seq!['\n'] + second) == text_lines(first) + text_lines(second),
    decreases first.len(),
{
    let joined = first + seq!['\n'] + second;
    lemma_line_end_is_first_line_feed(first);
    let end = line_end(first) as int;
    let head = first.take(end);
    if end == first.len() {
        assert(head =~= first);
        assert(joined =~= first + (seq!['\n'] + second));
        lemma_line_end_after(first, seq!['\n'] + second);
        lemma_text_without_line_feed_is_one_line(first);
        assert(joined.skip(end + 1) =~= second);
        assert(joined.take(end) =~= first);
        assert(text_lines(joined) =~= text_lines(first) + text_lines(second));
    } else {
        let rest = first.skip(end + 1);
        assert(joined =~= head + (first.skip(end) + seq!['\n'] + second));
        lemma_line_end_after(head, first.skip(end) + seq!['\n'] + second);
        assert(first =~= head + first.skip(end));
        lemma_line_end_after(head, first.skip(end));
        assert(joined.skip(end + 1) =~= rest + seq!['\n'] + second);
        assert(joined.take(end) =~= head);
        lemma_lines_of_joined_texts(rest, second);
        assert(text_lines(joined) =~= text_lines(first) + text_lines(second));
    }
}

/// The encoding of two texts, one after the other, is the encoding of the
/// first followed by that of the second.
proof fn lemma_encode_joined(left: Seq<char>, right: Seq<char>)
    ensures
        encode_utf8(left + right) == encode_utf8(left) + encode_utf8(right),
    decreases left.len(),
{
    if left.len() == 0 {
        assert(left + right =~= right);
        assert(encode_utf8(left) + encode_utf8(right) =~= encode_utf8(right));
    } else {
        assert((left + right).drop_first() =~= left.drop_first() + right);
        lemma_encode_joined(left.drop_first(), right);
        assert(encode_utf8(left + right) =~= encode_utf8(left) + encode_utf8(right));
    }
}

/// A text whose encoding is made of the encodings of two others is made of
/// these two.
proof fn lemma_text_of_joined_bytes(whole: Seq<char>, left: Seq<char>, right: Seq<char>)
    requires
        encode_utf8(whole) == encode_utf8(left) + encode_utf8(right),
    ensures
        whole == left + right,
{
    lemma_encode_joined(left, right);
    encode_utf8_decode_utf8(whole);
    encode_utf8_decode_utf8(left + right);
}

/// A line feed is encoded as the one byte 10.
proof fn lemma_line_feed_byte()
    ensures
        encode_utf8(seq!['\n']) == seq![0x0au8],
{
    let text = seq!['\n'];
    assert(('\n' as u32) == 10u32);
    assert((10u32 & 0x7f) as u8 == 0x0au8) by (bit_vector);
    assert(encode_scalar('\n' as u32) =~= seq![0x0au8]);
    assert(text.drop_first() =~= Seq::<char>::empty());
    assert(encode_utf8(text.drop_first()) =~= Seq::<u8>::empty());
    assert(encode_utf8(text) =~= seq![0x0au8]);
}

/// The encoding of a text that holds a line feed holds the byte 10.
proof fn lemma_line_feed_is_encoded(text: Seq<char>, at: int) -> (position: int)
    requires
        0 <= at < text.len(),
        text[at] == '\n',
    ensures
        0 <= position < encode_utf8(text).len(),
        encode_utf8(text)[position] == 0x0au8,
    decreases text.len(),
{
    let first = encode_scalar(text[0] as u32);
    if at == 0 {
        assert(('\n' as u32) == 10u32);
        assert((10u32 & 0x7f) as u8 == 0x0au8) by (bit_vector);
        assert(first =~= seq![0x0au8]);
        0
    } else {
        let inner = lemma_line_feed_is_encoded(text.drop_first(), at - 1);
        first.len() + inner
    }
}

/// A text is without line feed where its encoding is without the byte 10.
proof fn lemma_no_line_feed(text: Seq<char>)
    requires
        forall|j: int| 0 <= j < encode_utf8(text).len() ==> encode_utf8(text)[j] != 0x0au8,
    ensures
        has_no_line_feed(text),
{
    assert forall|i: int| 0 <= i < text.len() implies text[i] != '\n' by {
        if text[i] == '\n' {
            lemma_line_feed_is_encoded(text, i);
        }
    }
}

/// Calls `core::str::from_utf8`.
///
/// Trusted: the call succeeds on the byte sequences that are well-formed
/// UTF-8, and on no others, and the string it hands out is made of the
/// bytes it was given.
#[verifier::external_body]
pub(crate) fn utf8_text(bytes: &[u8]) -> (text: Option<&str>)
    ensures
        match text {
            Some(decoded) => valid_utf8(bytes@) && decoded.spec_bytes() == bytes@,
            None => !valid_utf8(bytes@),
        },
{
    match std::str::from_utf8(bytes) {
        Ok(decoded) => Some(decoded),
        Err(_) => None,
    }
}

/// The view of each line.
pub open spec fn line_views(lines: Seq<&str>) -> Seq<Seq<char>> {
    lines.map_values(|line: &str| line@)
}

/// Cuts a text into its lines and leaves the empty ones out.
pub fn split_lines<'a>(text: &'a str) -> (lines: Vec<&'a str>)
    ensures
        line_views(lines@) == text_lines(text@),
{
    let mut lines: Vec<&'a str> = Vec::new();
    let mut rest: &'a str = text;
    let length = text.as_bytes().len();
    assert(line_views(lines@) + text_lines(rest@) =~= text_lines(text@));
    while rest.len() > 0
        invariant
            line_views(lines@) + text_lines(rest@) == text_lines(text@),
            rest.spec_bytes().len() <= length,
        decreases rest.spec_bytes().len(),
    {
        let bytes = rest.as_bytes();
        let mut end: usize = 0;
        while end < bytes.len() && bytes[end] != 0x0a
            invariant
                end <= bytes.len(),
                forall|j: int| 0 <= j < end ==> bytes@[j] != 0x0au8,
            decreases bytes.len() - end,
        {
            end = end + 1;
        }
        proof {
            encode_utf8_valid_utf8(rest@);
            if end < bytes.len() {
                is_char_boundary_iff_not_is_continuation_byte(bytes@, end as int);
            } else {
                is_char_boundary_start_end_of_seq(bytes@);
            }
        }
        let (head, tail) = rest.split_at(end);
        let ghost found = line_views(lines@);
        proof {
            assert(bytes@ =~= head.spec_bytes() + tail.spec_bytes());
            lemma_text_of_joined_bytes(rest@, head@, tail@);
            assert forall|j: int| 0 <= j < encode_utf8(head@).len() implies encode_utf8(head@)[j]
                != 0x0au8 by {
                assert(head.spec_bytes()[j] == bytes@[j]);
            }
            lemma_no_line_feed(head@);
        }
        if !head.is_empty() {
            lines.push(head);
            assert(line_views(lines@) =~= found.push(head@));
        }
        if tail.len() > 0 {
            proof {
                encode_utf8_valid_utf8(tail@);
                reveal_with_fuel(is_char_boundary, 2);
                reveal_with_fuel(valid_utf8, 2);
                assert(tail.spec_bytes()[0] == bytes@[end as int]);
            }
            let (feed, after) = tail.split_at(1);
            proof {
                lemma_line_feed_byte();
                assert(feed.spec_bytes() =~= seq![0x0au8]);
                encode_utf8_decode_utf8(feed@);
                encode_utf8_decode_utf8(seq!['\n']);
                assert(feed@ == seq!['\n']);
                assert(tail.spec_bytes() =~= feed.spec_bytes() + after.spec_bytes());
                lemma_text_of_joined_bytes(tail@, feed@, after@);
                lemma_line_end_after(head@, tail@);
                assert(rest@.skip(head@.len() as int + 1) =~= after@);
                assert(rest@.take(head@.len() as int) =~= head@);
                assert(rest@.len() > 0);
                assert(line_views(lines@) + text_lines(after@) =~= found + text_lines(rest@));
            }
            rest = after;
        } else {
            proof {
                assert(tail@.len() == 0) by {
                    encode_utf8_decode_utf8(tail@);
                    assert(tail.spec_bytes() =~= Seq::<u8>::empty());
                }
                lemma_line_end_after(head@, tail@);
                assert(rest@ =~= head@);
                assert(rest@.take(rest@.len() as int) =~= rest@);
                assert(rest@.len() > 0) by {
                    if rest@.len() == 0 {
                        assert(encode_utf8(rest@) =~= Seq::<u8>::empty());
                    }
                }
                assert(line_views(lines@) + text_lines(tail@) =~= found + text_lines(rest@));
            }
            rest = tail;
        }
    }
    proof {
        assert(rest@.len() == 0) by {
            encode_utf8_decode_utf8(rest@);
            assert(rest.spec_bytes() =~= Seq::<u8>::empty());
        }
        assert(line_views(lines@) + text_lines(rest@) =~= line_views(lines@));
    }
    lines
}

} // verus!

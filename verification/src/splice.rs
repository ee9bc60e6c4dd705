//! What it means to replace a list of spans of a text, as mathematics.

use vstd::prelude::*;

verus! {

/// Whether the spans lie within a text of `len` characters, one after the
/// other, none reaching into the next. A span is a start and an end, the end
/// exclusive; it may be empty, and two may touch.
pub open spec fn spans_in_order(spans: Seq<(int, int)>, len: int) -> bool {
    &&& forall|i: int|
        0 <= i < spans.len() ==> 0 <= (#[trigger] spans[i]).0 <= spans[i].1 <= len
    &&& forall|i: int, j: int|
        0 <= i < j < spans.len() ==> (#[trigger] spans[i]).1 <= (#[trigger] spans[j]).0
}

/// The text with every span cut out and the replacement put in its place.
pub open spec fn spliced(text: Seq<char>, spans: Seq<(int, int)>, replacement: Seq<char>) -> Seq<
    char,
>
    decreases spans.len(),
{
    if spans.len() == 0 {
        text
    } else {
        let last = spans.last();
        spliced(text.subrange(0, last.0), spans.drop_last(), replacement) + replacement
            + text.subrange(last.1, text.len() as int)
    }
}

/// Whether `out` is `text` with each of the spans, which lie in order within
/// it, replaced by the replacement.
pub open spec fn replaces_spans(
    out: Seq<char>,
    text: Seq<char>,
    spans: Seq<(int, int)>,
    replacement: Seq<char>,
) -> bool {
    &&& spans_in_order(spans, text.len() as int)
    &&& out == spliced(text, spans, replacement)
}

/// Where the replacement of span `i` begins in the spliced text: for the
/// first span where the span began, for a later one behind the replacement of
/// the span before it and the text that lay between the two.
pub open spec fn written_at(spans: Seq<(int, int)>, replacement_len: int, i: int) -> int
    decreases i,
{
    if i <= 0 {
        spans[0].0
    } else {
        written_at(spans, replacement_len, i - 1) + replacement_len + (spans[i].0 - spans[i
            - 1].1)
    }
}

/// The length of a text of `len` characters after its spans are replaced.
pub open spec fn spliced_len(len: int, spans: Seq<(int, int)>, replacement_len: int) -> int {
    if spans.len() == 0 {
        len
    } else {
        written_at(spans, replacement_len, spans.len() - 1) + replacement_len + (len
            - spans.last().1)
    }
}

/// Where a replacement begins depends on the spans up to its own only.
proof fn lemma_written_at_take(spans: Seq<(int, int)>, k: int, replacement_len: int, i: int)
    requires
        0 <= i < k <= spans.len(),
    ensures
        written_at(spans.take(k), replacement_len, i) == written_at(spans, replacement_len, i),
    decreases i,
{
    if i > 0 {
        lemma_written_at_take(spans, k, replacement_len, i - 1);
    }
}

/// Spans in order stay in order when the last one is dropped, within the text
/// before it.
proof fn lemma_in_order_drop_last(spans: Seq<(int, int)>, len: int)
    requires
        spans_in_order(spans, len),
        spans.len() > 0,
    ensures
        spans_in_order(spans.drop_last(), spans.last().0),
        0 <= spans.last().0 <= spans.last().1 <= len,
{
    let shorter = spans.drop_last();
    let last = spans.last();
    assert forall|i: int| 0 <= i < shorter.len() implies 0 <= (#[trigger] shorter[i]).0
        <= shorter[i].1 <= last.0 by {
        assert(shorter[i] == spans[i]);
        assert(spans[i].1 <= spans[spans.len() - 1].0);
    }
    assert forall|i: int, j: int| 0 <= i < j < shorter.len() implies (#[trigger] shorter[i]).1 <= (
    #[trigger] shorter[j]).0 by {
        assert(shorter[i] == spans[i]);
        assert(shorter[j] == spans[j]);
    }
}

/// Replacing spans that lie in order changes the length of the text by what
/// the replacements add and the spans take away.
pub proof fn lemma_spliced_len(text: Seq<char>, spans: Seq<(int, int)>, replacement: Seq<char>)
    requires
        spans_in_order(spans, text.len() as int),
    ensures
        spliced(text, spans, replacement).len() == spliced_len(
            text.len() as int,
            spans,
            replacement.len() as int,
        ),
    decreases spans.len(),
{
    if spans.len() > 0 {
        let n = spans.len() as int;
        let last = spans.last();
        lemma_in_order_drop_last(spans, text.len() as int);
        lemma_spliced_len(text.subrange(0, last.0), spans.drop_last(), replacement);
        if n > 1 {
            lemma_written_at_take(spans, n - 1, replacement.len() as int, n - 2);
            assert(spans.drop_last() == spans.take(n - 1));
            assert(spans.drop_last().last() == spans[n - 2]);
        }
    }
}

/// Every span is replaced: where the replacement of span `i` begins, the
/// spliced text holds the replacement, whole.
pub proof fn lemma_spliced_holds_replacement(
    text: Seq<char>,
    spans: Seq<(int, int)>,
    replacement: Seq<char>,
    i: int,
)
    requires
        spans_in_order(spans, text.len() as int),
        0 <= i < spans.len(),
    ensures
        0 <= written_at(spans, replacement.len() as int, i),
        written_at(spans, replacement.len() as int, i) + replacement.len() <= spliced(
            text,
            spans,
            replacement,
        ).len(),
        spliced(text, spans, replacement).subrange(
            written_at(spans, replacement.len() as int, i),
            written_at(spans, replacement.len() as int, i) + replacement.len(),
        ) == replacement,
    decreases spans.len(),
{
    let n = spans.len() as int;
    let r = replacement.len() as int;
    let last = spans.last();
    let head = spliced(text.subrange(0, last.0), spans.drop_last(), replacement);
    let tail = text.subrange(last.1, text.len() as int);
    let at = written_at(spans, r, i);
    lemma_in_order_drop_last(spans, text.len() as int);
    lemma_spliced_len(text.subrange(0, last.0), spans.drop_last(), replacement);
    assert(spans.drop_last() == spans.take(n - 1));
    if n > 1 {
        lemma_written_at_take(spans, n - 1, r, n - 2);
        assert(spans.drop_last().last() == spans[n - 2]);
    }
    assert(head.len() == written_at(spans, r, n - 1));
    if i < n - 1 {
        lemma_spliced_holds_replacement(text.subrange(0, last.0), spans.drop_last(), replacement, i);
        lemma_written_at_take(spans, n - 1, r, i);
        assert((head + replacement + tail).subrange(at, at + r) =~= head.subrange(at, at + r));
    } else {
        assert((head + replacement + tail).subrange(at, at + r) =~= replacement);
    }
}

/// What stands before the first span is kept where it stood; with no span
/// at all, the whole text.
pub proof fn lemma_spliced_keeps_start(
    text: Seq<char>,
    spans: Seq<(int, int)>,
    replacement: Seq<char>,
    p: int,
)
    requires
        spans_in_order(spans, text.len() as int),
        0 <= p < text.len(),
        spans.len() > 0 ==> p < spans[0].0,
    ensures
        p < spliced(text, spans, replacement).len(),
        spliced(text, spans, replacement)[p] == text[p],
    decreases spans.len(),
{
    if spans.len() > 0 {
        let last = spans.last();
        lemma_in_order_drop_last(spans, text.len() as int);
        if spans.len() > 1 {
            assert(spans.drop_last()[0] == spans[0]);
        }
        lemma_spliced_keeps_start(text.subrange(0, last.0), spans.drop_last(), replacement, p);
    }
}

/// What stands behind span `i`, up to the next span or to the end of the
/// text, is kept, and follows the replacement of span `i`.
pub proof fn lemma_spliced_keeps_rest(
    text: Seq<char>,
    spans: Seq<(int, int)>,
    replacement: Seq<char>,
    i: int,
    p: int,
)
    requires
        spans_in_order(spans, text.len() as int),
        0 <= i < spans.len(),
        spans[i].1 <= p < text.len(),
        i + 1 < spans.len() ==> p < spans[i + 1].0,
    ensures
        0 <= written_at(spans, replacement.len() as int, i) + replacement.len() + (p - spans[i].1)
            < spliced(text, spans, replacement).len(),
        spliced(text, spans, replacement)[written_at(spans, replacement.len() as int, i)
            + replacement.len() + (p - spans[i].1)] == text[p],
    decreases spans.len(),
{
    let n = spans.len() as int;
    let r = replacement.len() as int;
    let last = spans.last();
    let head = spliced(text.subrange(0, last.0), spans.drop_last(), replacement);
    lemma_in_order_drop_last(spans, text.len() as int);
    lemma_spliced_len(text.subrange(0, last.0), spans.drop_last(), replacement);
    lemma_spliced_holds_replacement(text, spans, replacement, i);
    assert(spans.drop_last() == spans.take(n - 1));
    if n > 1 {
        lemma_written_at_take(spans, n - 1, r, n - 2);
        assert(spans.drop_last().last() == spans[n - 2]);
    }
    assert(head.len() == written_at(spans, r, n - 1));
    if i < n - 1 {
        assert(spans.drop_last()[i] == spans[i]);
        if i + 1 < n - 1 {
            assert(spans.drop_last()[i + 1] == spans[i + 1]);
        }
        lemma_spliced_keeps_rest(text.subrange(0, last.0), spans.drop_last(), replacement, i, p);
        lemma_written_at_take(spans, n - 1, r, i);
    }
}

/// Whether position `p` lies in none of the spans.
pub open spec fn outside_spans(spans: Seq<(int, int)>, p: int) -> bool {
    forall|i: int| 0 <= i < spans.len() ==> p < (#[trigger] spans[i]).0 || spans[i].1 <= p
}

/// Whether `out` is `text` rewritten in place: as long as `text`, with the
/// replacement standing where each span stood, and every character outside
/// the spans where it was.
pub open spec fn rewritten_in_place(
    out: Seq<char>,
    text: Seq<char>,
    spans: Seq<(int, int)>,
    replacement: Seq<char>,
) -> bool {
    &&& out.len() == text.len()
    &&& forall|i: int|
        0 <= i < spans.len() ==> out.subrange((#[trigger] spans[i]).0, spans[i].1) == replacement
    &&& forall|p: int|
        0 <= p < text.len() && outside_spans(spans, p) ==> #[trigger] out[p] == text[p]
}

/// Where every span is as long as the replacement, replacing moves nothing:
/// the text is rewritten in place.
pub proof fn lemma_spliced_in_place(
    text: Seq<char>,
    spans: Seq<(int, int)>,
    replacement: Seq<char>,
)
    requires
        spans_in_order(spans, text.len() as int),
        forall|i: int|
            0 <= i < spans.len() ==> (#[trigger] spans[i]).1 - spans[i].0 == replacement.len(),
    ensures
        rewritten_in_place(spliced(text, spans, replacement), text, spans, replacement),
    decreases spans.len(),
{
    if spans.len() > 0 {
        let n = spans.len() as int;
        let last = spans.last();
        let shorter = spans.drop_last();
        let before = text.subrange(0, last.0);
        let head = spliced(before, shorter, replacement);
        let tail = text.subrange(last.1, text.len() as int);
        let out = spliced(text, spans, replacement);
        lemma_in_order_drop_last(spans, text.len() as int);
        assert forall|i: int| 0 <= i < shorter.len() implies (#[trigger] shorter[i]).1
            - shorter[i].0 == replacement.len() by {
            assert(shorter[i] == spans[i]);
        }
        lemma_spliced_in_place(before, shorter, replacement);
        assert(out == head + replacement + tail);
        assert(out.len() == text.len());
        assert forall|i: int| 0 <= i < spans.len() implies out.subrange(
            (#[trigger] spans[i]).0,
            spans[i].1,
        ) == replacement by {
            if i < n - 1 {
                assert(shorter[i] == spans[i]);
                assert(spans[i].1 <= spans[n - 1].0);
                assert(out.subrange(spans[i].0, spans[i].1) =~= head.subrange(
                    shorter[i].0,
                    shorter[i].1,
                ));
            } else {
                assert(out.subrange(spans[i].0, spans[i].1) =~= replacement);
            }
        }
        assert forall|p: int| 0 <= p < text.len() && outside_spans(spans, p) implies #[trigger] out[p]
            == text[p] by {
            assert(p < spans[n - 1].0 || spans[n - 1].1 <= p);
            if p < last.0 {
                assert forall|i: int| 0 <= i < shorter.len() implies p < (#[trigger] shorter[i]).0
                    || shorter[i].1 <= p by {
                    assert(shorter[i] == spans[i]);
                }
                assert(outside_spans(shorter, p));
                assert(head[p] == before[p]);
            }
        }
    }
}

} // verus!

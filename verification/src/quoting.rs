//! Why the preprocessor of the configuration dialect does what it is for:
//! in a document whose expression blocks are kept apart, every block is
//! quoted where it stands, once, and nothing else changes.

use crate::cyml_import::block_of;
use crate::cyml_import::quoted_block;
use crate::cyml_import::quoted_by;
use crate::cyml_import::quoted_upto;
use crate::cyml_import::seen_before;
use crate::handlebars_helpers::script_of;
use crate::handlebars_helpers::wrapped;
use crate::text::occurs_at;
use crate::text::replaced;
use crate::text::replaced_from;
use vstd::prelude::*;

verus! {

/// Whether `script` closes no block: a closing brace in it is followed, in
/// it, by a character that is none. A search that ends each block at the
/// first pair of closing braces finds such scripts only.
pub open spec fn closes_nothing(script: Seq<char>) -> bool {
    forall|i: int|
        0 <= i < script.len() && #[trigger] script[i] == '}' ==> i + 1 < script.len() && script[i
            + 1] != '}'
}

/// Whether `gap` opens no block: an opening brace in it is followed, in it,
/// by a character that is none.
pub open spec fn opens_nothing(gap: Seq<char>) -> bool {
    forall|i: int|
        0 <= i < gap.len() && #[trigger] gap[i] == '{' ==> i + 1 < gap.len() && gap[i + 1] != '{'
}

/// `text` with a backslash put before each double quote.
pub open spec fn escaped(text: Seq<char>) -> Seq<char> {
    replaced(text, seq!['"'], seq!['\\', '"'])
}

/// The block of the script `inner` as it stands in a document in which the
/// blocks of the scripts in `done` have been quoted.
pub open spec fn standing(inner: Seq<char>, done: Set<Seq<char>>) -> Seq<char> {
    if done.contains(inner) {
        quoted_block(wrapped(inner))
    } else {
        wrapped(inner)
    }
}

/// The document from block `from` on: each block is followed by its gap.
pub open spec fn tail(
    gaps: Seq<Seq<char>>,
    inners: Seq<Seq<char>>,
    done: Set<Seq<char>>,
    from: int,
) -> Seq<char>
    decreases inners.len() - from,
{
    if from < 0 || from >= inners.len() {
        Seq::empty()
    } else {
        standing(inners[from], done) + gaps[from + 1] + tail(gaps, inners, done, from + 1)
    }
}

/// The document made of the blocks of the scripts `inners`, in order, with
/// the texts `gaps` before, between and behind them; the blocks of the
/// scripts in `done` are quoted.
pub open spec fn document(gaps: Seq<Seq<char>>, inners: Seq<Seq<char>>, done: Set<Seq<char>>) -> Seq<
    char,
> {
    gaps[0] + tail(gaps, inners, done, 0)
}

/// What `wrapped` is made of.
pub proof fn lemma_wrapped_shape(inner: Seq<char>)
    ensures
        wrapped(inner).len() == inner.len() + 4,
        wrapped(inner)[0] == '{',
        wrapped(inner)[1] == '{',
        forall|j: int| 0 <= j < inner.len() ==> #[trigger] wrapped(inner)[j + 2] == inner[j],
        wrapped(inner)[(inner.len() + 2) as int] == '}',
        wrapped(inner)[(inner.len() + 3) as int] == '}',
{
    reveal_strlit("{{");
    reveal_strlit("}}");
}

/// Where a pattern stands in a text, the text reads as the pattern.
pub proof fn lemma_occurrence_reads(text: Seq<char>, at: int, pattern: Seq<char>, j: int)
    requires
        occurs_at(text, at, pattern),
        0 <= j < pattern.len(),
    ensures
        text[at + j] == pattern[j],
{
    assert(text.subrange(at, at + pattern.len())[j] == text[at + j]);
}

/// Replacing from a position on is replacing in what stands from there on.
pub proof fn lemma_replaced_in_suffix(text: Seq<char>, at: int, from: Seq<char>, to: Seq<char>)
    requires
        0 <= at <= text.len(),
        from.len() > 0,
    ensures
        replaced_from(text, at, from, to) == replaced(
            text.subrange(at, text.len() as int),
            from,
            to,
        ),
    decreases text.len() - at,
{
    let rest = text.subrange(at, text.len() as int);
    if at < text.len() {
        if occurs_at(text, at, from) {
            assert(rest.subrange(0, from.len() as int) =~= text.subrange(at, at + from.len()));
            assert(occurs_at(rest, 0, from));
            lemma_replaced_in_suffix(text, at + from.len(), from, to);
            lemma_replaced_in_suffix(rest, from.len() as int, from, to);
            assert(rest.subrange(from.len() as int, rest.len() as int) =~= text.subrange(
                at + from.len(),
                text.len() as int,
            ));
        } else {
            if occurs_at(rest, 0, from) {
                assert(rest.subrange(0, from.len() as int) =~= text.subrange(at, at + from.len()));
                assert(false);
            }
            lemma_replaced_in_suffix(text, at + 1, from, to);
            lemma_replaced_in_suffix(rest, 1, from, to);
            assert(rest.subrange(1, rest.len() as int) =~= text.subrange(
                at + 1,
                text.len() as int,
            ));
            assert(rest[0] == text[at]);
        }
    }
}

/// A text that begins with the pattern: the replacement, then the rest replaced.
pub proof fn lemma_replaced_at_pattern(rest: Seq<char>, from: Seq<char>, to: Seq<char>)
    requires
        from.len() > 0,
    ensures
        replaced(from + rest, from, to) == to + replaced(rest, from, to),
{
    let text = from + rest;
    assert(text.subrange(0, from.len() as int) =~= from);
    assert(occurs_at(text, 0, from));
    lemma_replaced_in_suffix(text, from.len() as int, from, to);
    assert(text.subrange(from.len() as int, text.len() as int) =~= rest);
}

/// A text in whose first part the pattern stands nowhere: the first part,
/// then the rest replaced.
pub proof fn lemma_replaced_skips(first: Seq<char>, rest: Seq<char>, from: Seq<char>, to: Seq<char>)
    requires
        from.len() > 0,
        forall|p: int| 0 <= p < first.len() ==> !occurs_at(first + rest, p, from),
    ensures
        replaced(first + rest, from, to) == first + replaced(rest, from, to),
    decreases first.len(),
{
    let text = first + rest;
    if first.len() == 0 {
        assert(text =~= rest);
        assert(first + replaced(rest, from, to) =~= replaced(rest, from, to));
    } else {
        let shorter = first.subrange(1, first.len() as int);
        assert(!occurs_at(text, 0, from));
        lemma_replaced_in_suffix(text, 1, from, to);
        assert(text.subrange(1, text.len() as int) =~= shorter + rest);
        assert forall|p: int| 0 <= p < shorter.len() implies !occurs_at(shorter + rest, p, from) by {
            if occurs_at(shorter + rest, p, from) {
                assert((shorter + rest).subrange(p, p + from.len()) =~= text.subrange(
                    p + 1,
                    p + 1 + from.len(),
                ));
                assert(occurs_at(text, p + 1, from));
            }
        }
        lemma_replaced_skips(shorter, rest, from, to);
        assert(text[0] == first[0]);
        assert(seq![first[0]] + (shorter + replaced(rest, from, to)) =~= first + replaced(
            rest,
            from,
            to,
        ));
    }
}

/// No block begins inside a gap that opens nothing.
pub proof fn lemma_no_block_in_gap(gap: Seq<char>, rest: Seq<char>, inner: Seq<char>, p: int)
    requires
        opens_nothing(gap),
        0 <= p < gap.len(),
    ensures
        !occurs_at(gap + rest, p, wrapped(inner)),
{
    let text = gap + rest;
    let block = wrapped(inner);
    lemma_wrapped_shape(inner);
    if occurs_at(text, p, block) {
        lemma_occurrence_reads(text, p, block, 0);
        lemma_occurrence_reads(text, p, block, 1);
        assert(text[p] == gap[p]);
        assert(gap[p] == '{');
        assert(text[p + 1] == gap[p + 1]);
    }
}

/// A block that begins inside the block of a script ends inside it too.
pub proof fn lemma_block_stays_within(own: Seq<char>, rest: Seq<char>, inner: Seq<char>, p: int)
    requires
        closes_nothing(inner),
        0 <= p < wrapped(own).len(),
        occurs_at(wrapped(own) + rest, p, wrapped(inner)),
    ensures
        occurs_at(wrapped(own), p, wrapped(inner)),
{
    let here = wrapped(own);
    let block = wrapped(inner);
    let text = here + rest;
    lemma_wrapped_shape(own);
    lemma_wrapped_shape(inner);
    let q: int = own.len() as int + 2;
    lemma_occurrence_reads(text, p, block, 0);
    lemma_occurrence_reads(text, p, block, 1);
    if p + block.len() > here.len() {
        if p >= q - 1 {
            assert(text[p] == here[p]);
            if p == q - 1 {
                assert(text[p + 1] == here[p + 1]);
            }
            assert(false);
        } else {
            let k = q - p;
            lemma_occurrence_reads(text, p, block, k);
            lemma_occurrence_reads(text, p, block, k + 1);
            assert(text[q] == here[q]);
            assert(text[q + 1] == here[q + 1]);
            assert(block[(k - 2) + 2] == inner[k - 2]);
            assert(inner[k - 2] == '}');
            assert(k - 1 < inner.len());
            assert(block[(k - 1) + 2] == inner[k - 1]);
            assert(false);
        }
    }
    assert(here.subrange(p, p + block.len()) =~= text.subrange(p, p + block.len()));
}

/// The block of a script that stands nowhere in the block of another
/// script does not begin inside it either.
pub proof fn lemma_no_other_block(own: Seq<char>, rest: Seq<char>, inner: Seq<char>, p: int)
    requires
        closes_nothing(inner),
        forall|q: int| !occurs_at(wrapped(own), q, wrapped(inner)),
        0 <= p < wrapped(own).len(),
    ensures
        !occurs_at(wrapped(own) + rest, p, wrapped(inner)),
{
    if occurs_at(wrapped(own) + rest, p, wrapped(inner)) {
        lemma_block_stays_within(own, rest, inner, p);
    }
}

/// A character with its double quote escaped, before a text with its double
/// quotes escaped.
pub proof fn lemma_escaped_first(first: char, rest: Seq<char>)
    ensures
        escaped(seq![first] + rest) == (if first == '"' {
            seq!['\\', '"']
        } else {
            seq![first]
        }) + escaped(rest),
{
    let quote = seq!['"'];
    let escape = seq!['\\', '"'];
    if first == '"' {
        assert(seq![first] =~= quote);
        lemma_replaced_at_pattern(rest, quote, escape);
    } else {
        let one = seq![first];
        assert forall|p: int| 0 <= p < one.len() implies !occurs_at(one + rest, p, quote) by {
            if occurs_at(one + rest, p, quote) {
                lemma_occurrence_reads(one + rest, p, quote, 0);
            }
        }
        lemma_replaced_skips(one, rest, quote, escape);
    }
}

/// Escaping goes part by part.
pub proof fn lemma_escaped_parts(first: Seq<char>, rest: Seq<char>)
    ensures
        escaped(first + rest) == escaped(first) + escaped(rest),
    decreases first.len(),
{
    if first.len() == 0 {
        assert(first + rest =~= rest);
        assert(escaped(first) =~= Seq::<char>::empty());
        assert(escaped(first) + escaped(rest) =~= escaped(rest));
    } else {
        let shorter = first.subrange(1, first.len() as int);
        assert(first =~= seq![first[0]] + shorter);
        assert(first + rest =~= seq![first[0]] + (shorter + rest));
        lemma_escaped_first(first[0], shorter + rest);
        lemma_escaped_first(first[0], shorter);
        lemma_escaped_parts(shorter, rest);
        let head = if first[0] == '"' {
            seq!['\\', '"']
        } else {
            seq![first[0]]
        };
        assert(head + (escaped(shorter) + escaped(rest)) =~= (head + escaped(shorter)) + escaped(
            rest,
        ));
    }
}

/// Escaping changes nothing in a text without double quotes.
pub proof fn lemma_escaped_plain(text: Seq<char>)
    requires
        forall|i: int| 0 <= i < text.len() ==> text[i] != '"',
    ensures
        escaped(text) == text,
    decreases text.len(),
{
    if text.len() == 0 {
        assert(escaped(text) =~= text);
    } else {
        let shorter = text.subrange(1, text.len() as int);
        assert(text =~= seq![text[0]] + shorter);
        lemma_escaped_first(text[0], shorter);
        lemma_escaped_plain(shorter);
    }
}

/// The block of a script, escaped, is the block of the escaped script.
pub proof fn lemma_escaped_block(inner: Seq<char>)
    ensures
        escaped(wrapped(inner)) == wrapped(escaped(inner)),
{
    reveal_strlit("{{");
    reveal_strlit("}}");
    let open = "{{"@;
    let close = "}}"@;
    assert(wrapped(inner) =~= open + (inner + close));
    lemma_escaped_parts(open, inner + close);
    lemma_escaped_parts(inner, close);
    lemma_escaped_plain(open);
    lemma_escaped_plain(close);
    assert(open + (escaped(inner) + close) =~= wrapped(escaped(inner)));
}

/// The block of a script that stands nowhere in the escaped block of
/// another script does not begin inside the quoted block of that script.
pub proof fn lemma_no_block_in_quoted(own: Seq<char>, rest: Seq<char>, inner: Seq<char>, p: int)
    requires
        closes_nothing(inner),
        forall|q: int| !occurs_at(escaped(wrapped(own)), q, wrapped(inner)),
        0 <= p < quoted_block(wrapped(own)).len(),
    ensures
        !occurs_at(quoted_block(wrapped(own)) + rest, p, wrapped(inner)),
{
    let quote = seq!['"'];
    let here = quoted_block(wrapped(own));
    let block = wrapped(inner);
    let text = here + rest;
    lemma_escaped_block(own);
    let within = wrapped(escaped(own));
    assert(here == quote + within + quote);
    lemma_wrapped_shape(inner);
    lemma_wrapped_shape(escaped(own));
    if occurs_at(text, p, block) {
        lemma_occurrence_reads(text, p, block, 0);
        if p == 0 {
            assert(text[0] == here[0]);
        } else if p == here.len() - 1 {
            assert(text[p] == here[p]);
        } else {
            let behind = quote + rest;
            assert(text =~= quote + (within + behind));
            assert((within + behind).subrange(p - 1, p - 1 + block.len()) =~= text.subrange(
                p,
                p + block.len(),
            ));
            assert(occurs_at(within + behind, p - 1, block));
            lemma_block_stays_within(escaped(own), behind, inner, p - 1);
            assert(occurs_at(escaped(wrapped(own)), p - 1, block));
        }
    }
}

/// Whether the blocks of the scripts `inners` are kept apart by the texts
/// `gaps`: there is a gap before, between and behind the blocks; no gap
/// before a block opens one, and none of the blocks stands in the gap
/// behind the last; no script closes a block; and no block stands inside
/// the block of a different script, neither as that one was written nor as
/// it reads with its double quotes escaped.
///
/// The first three are what a search from left to right finds that takes
/// each block from the first pair of opening braces to the next pair of
/// closing ones.
pub open spec fn kept_apart(gaps: Seq<Seq<char>>, inners: Seq<Seq<char>>) -> bool {
    &&& gaps.len() == inners.len() + 1
    &&& forall|i: int| 0 <= i < inners.len() ==> opens_nothing(#[trigger] gaps[i])
    &&& forall|j: int, q: int|
        0 <= j < inners.len() ==> !#[trigger] occurs_at(
            gaps[inners.len() as int],
            q,
            wrapped(inners[j]),
        )
    &&& forall|i: int| 0 <= i < inners.len() ==> closes_nothing(#[trigger] inners[i])
    &&& forall|i: int, j: int, q: int|
        0 <= i < inners.len() && 0 <= j < inners.len() && #[trigger] occurs_at(
            wrapped(inners[i]),
            q,
            wrapped(inners[j]),
        ) ==> inners[i] == inners[j]
    &&& forall|i: int, j: int, q: int|
        0 <= i < inners.len() && 0 <= j < inners.len() && #[trigger] occurs_at(
            escaped(wrapped(inners[i])),
            q,
            wrapped(inners[j]),
        ) ==> inners[i] == inners[j]
}

/// The scripts among the first `upto` of `inners`.
pub open spec fn done_upto(inners: Seq<Seq<char>>, upto: int) -> Set<Seq<char>> {
    Set::new(|s: Seq<char>| exists|j: int| 0 <= j < upto && j < inners.len() && #[trigger] inners[j] == s)
}

/// Two scripts with the same block are the same script.
pub proof fn lemma_wrapped_injective(a: Seq<char>, b: Seq<char>)
    requires
        wrapped(a) == wrapped(b),
    ensures
        a == b,
{
    lemma_wrapped_shape(a);
    lemma_wrapped_shape(b);
    assert forall|j: int| 0 <= j < a.len() implies a[j] == b[j] by {
        assert(wrapped(a)[j + 2] == a[j]);
        assert(wrapped(b)[j + 2] == b[j]);
    }
    assert(a =~= b);
}

/// Quoting the block of one more script in what stands from block `from`
/// on quotes that block wherever it stands there, and nothing else.
pub proof fn lemma_tail_step(
    gaps: Seq<Seq<char>>,
    inners: Seq<Seq<char>>,
    done: Set<Seq<char>>,
    inner: Seq<char>,
    from: int,
)
    requires
        kept_apart(gaps, inners),
        0 <= from <= inners.len(),
        closes_nothing(inner),
        !done.contains(inner),
        forall|q: int| !occurs_at(gaps[inners.len() as int], q, wrapped(inner)),
        forall|j: int, q: int|
            0 <= j < inners.len() && inners[j] != inner ==> !#[trigger] occurs_at(
                wrapped(inners[j]),
                q,
                wrapped(inner),
            ),
        forall|j: int, q: int|
            0 <= j < inners.len() && done.contains(inners[j]) ==> !#[trigger] occurs_at(
                escaped(wrapped(inners[j])),
                q,
                wrapped(inner),
            ),
    ensures
        replaced(tail(gaps, inners, done, from), wrapped(inner), quoted_block(wrapped(inner)))
            == tail(gaps, inners, done.insert(inner), from),
    decreases inners.len() - from,
{
    let block = wrapped(inner);
    let quoted = quoted_block(block);
    lemma_wrapped_shape(inner);
    if from < inners.len() {
        let own = inners[from];
        let here = standing(own, done);
        let gap = gaps[from + 1];
        let rest = tail(gaps, inners, done, from + 1);
        let after = tail(gaps, inners, done.insert(inner), from + 1);
        lemma_tail_step(gaps, inners, done, inner, from + 1);
        assert forall|p: int| 0 <= p < gap.len() implies !occurs_at(gap + rest, p, block) by {
            if from + 1 < inners.len() {
                assert(opens_nothing(gaps[from + 1]));
                lemma_no_block_in_gap(gap, rest, inner, p);
            } else {
                assert(gap + rest =~= gap);
            }
        }
        lemma_replaced_skips(gap, rest, block, quoted);
        assert(tail(gaps, inners, done, from) =~= here + (gap + rest));
        if own == inner {
            lemma_replaced_at_pattern(gap + rest, block, quoted);
            assert(quoted + (gap + after) =~= quoted + gap + after);
        } else if done.contains(own) {
            assert forall|q: int| !occurs_at(escaped(wrapped(own)), q, block) by {
                assert(done.contains(inners[from]));
            }
            assert forall|p: int| 0 <= p < here.len() implies !occurs_at(
                here + (gap + rest),
                p,
                block,
            ) by {
                lemma_no_block_in_quoted(own, gap + rest, inner, p);
            }
            lemma_replaced_skips(here, gap + rest, block, quoted);
            assert(here + (gap + after) =~= here + gap + after);
        } else {
            assert forall|q: int| !occurs_at(wrapped(own), q, block) by {
                assert(inners[from] != inner);
            }
            assert forall|p: int| 0 <= p < here.len() implies !occurs_at(
                here + (gap + rest),
                p,
                block,
            ) by {
                lemma_no_other_block(own, gap + rest, inner, p);
            }
            lemma_replaced_skips(here, gap + rest, block, quoted);
            assert(here + (gap + after) =~= here + gap + after);
        }
    }
}

/// Quoting the block of one more script in a document quotes that block
/// wherever it stands, and nothing else.
pub proof fn lemma_document_step(
    gaps: Seq<Seq<char>>,
    inners: Seq<Seq<char>>,
    done: Set<Seq<char>>,
    inner: Seq<char>,
)
    requires
        kept_apart(gaps, inners),
        closes_nothing(inner),
        !done.contains(inner),
        forall|q: int| !occurs_at(gaps[inners.len() as int], q, wrapped(inner)),
        forall|j: int, q: int|
            0 <= j < inners.len() && inners[j] != inner ==> !#[trigger] occurs_at(
                wrapped(inners[j]),
                q,
                wrapped(inner),
            ),
        forall|j: int, q: int|
            0 <= j < inners.len() && done.contains(inners[j]) ==> !#[trigger] occurs_at(
                escaped(wrapped(inners[j])),
                q,
                wrapped(inner),
            ),
    ensures
        replaced(document(gaps, inners, done), wrapped(inner), quoted_block(wrapped(inner)))
            == document(gaps, inners, done.insert(inner)),
{
    let block = wrapped(inner);
    let quoted = quoted_block(block);
    let gap = gaps[0];
    let rest = tail(gaps, inners, done, 0);
    lemma_wrapped_shape(inner);
    lemma_tail_step(gaps, inners, done, inner, 0);
    assert forall|p: int| 0 <= p < gap.len() implies !occurs_at(gap + rest, p, block) by {
        if 0 < inners.len() {
            assert(opens_nothing(gaps[0]));
            lemma_no_block_in_gap(gap, rest, inner, p);
        } else {
            assert(gap + rest =~= gap);
        }
    }
    lemma_replaced_skips(gap, rest, block, quoted);
}

/// What stands from block `from` on is the same for two sets of quoted
/// scripts that agree on the scripts of the document.
pub proof fn lemma_tail_agrees(
    gaps: Seq<Seq<char>>,
    inners: Seq<Seq<char>>,
    one: Set<Seq<char>>,
    other: Set<Seq<char>>,
    from: int,
)
    requires
        0 <= from <= inners.len(),
        forall|i: int|
            0 <= i < inners.len() ==> one.contains(#[trigger] inners[i]) == other.contains(
                inners[i],
            ),
    ensures
        tail(gaps, inners, one, from) == tail(gaps, inners, other, from),
    decreases inners.len() - from,
{
    if from < inners.len() {
        lemma_tail_agrees(gaps, inners, one, other, from + 1);
        assert(one.contains(inners[from]) == other.contains(inners[from]));
    }
}

/// After the first `upto` blocks found have been gone through, the blocks
/// of their scripts are quoted wherever they stand, and nothing else is.
pub proof fn lemma_quoted_upto(
    gaps: Seq<Seq<char>>,
    inners: Seq<Seq<char>>,
    captures: Seq<(Seq<char>, Option<Seq<char>>)>,
    upto: int,
)
    requires
        kept_apart(gaps, inners),
        captures.len() == inners.len(),
        forall|i: int|
            0 <= i < inners.len() ==> script_of(#[trigger] captures[i]) == wrapped(inners[i]),
        0 <= upto <= inners.len(),
    ensures
        quoted_upto(document(gaps, inners, Set::empty()), captures, upto) == document(
            gaps,
            inners,
            done_upto(inners, upto),
        ),
    decreases upto,
{
    let text = document(gaps, inners, Set::empty());
    if upto == 0 {
        assert(done_upto(inners, 0) =~= Set::<Seq<char>>::empty());
    } else {
        let k = upto - 1;
        lemma_quoted_upto(gaps, inners, captures, k);
        let inner = inners[k];
        let done = done_upto(inners, k);
        assert(script_of(captures[k]) == wrapped(inner));
        assert(block_of(captures, k) == wrapped(inner));
        assert(closes_nothing(inner));
        if seen_before(captures, k) {
            let j = choose|j: int| 0 <= j < k && block_of(captures, j) == block_of(captures, k);
            assert(script_of(captures[j]) == wrapped(inners[j]));
            lemma_wrapped_injective(inners[j], inner);
            assert(done.contains(inner));
            assert(done_upto(inners, upto) =~= done) by {
                assert forall|s: Seq<char>| done_upto(inners, upto).contains(s) implies done.contains(
                    s,
                ) by {
                    let i = choose|i: int| 0 <= i < upto && i < inners.len() && inners[i] == s;
                    if i == k {
                        assert(inners[j] == s);
                    }
                }
            }
        } else {
            assert(!done.contains(inner)) by {
                if done.contains(inner) {
                    let j = choose|j: int| 0 <= j < k && j < inners.len() && inners[j] == inner;
                    assert(script_of(captures[j]) == wrapped(inners[j]));
                    assert(block_of(captures, j) == block_of(captures, k));
                }
            }
            assert forall|q: int| !occurs_at(gaps[inners.len() as int], q, wrapped(inner)) by {
                if occurs_at(gaps[inners.len() as int], q, wrapped(inners[k])) {
                    assert(false);
                }
            }
            assert forall|j: int, q: int|
                0 <= j < inners.len() && inners[j] != inner implies !#[trigger] occurs_at(
                wrapped(inners[j]),
                q,
                wrapped(inner),
            ) by {
                if occurs_at(wrapped(inners[j]), q, wrapped(inners[k])) {
                    assert(inners[j] == inners[k]);
                }
            }
            assert forall|j: int, q: int|
                0 <= j < inners.len() && done.contains(inners[j]) implies !#[trigger] occurs_at(
                escaped(wrapped(inners[j])),
                q,
                wrapped(inner),
            ) by {
                if occurs_at(escaped(wrapped(inners[j])), q, wrapped(inners[k])) {
                    assert(inners[j] == inners[k]);
                }
            }
            lemma_document_step(gaps, inners, done, inner);
            assert(done_upto(inners, upto) =~= done.insert(inner)) by {
                assert forall|s: Seq<char>| done.insert(inner).contains(s) implies done_upto(
                    inners,
                    upto,
                ).contains(s) by {
                    if s == inner {
                        assert(inners[k] == s);
                    } else {
                        let i = choose|i: int| 0 <= i < k && i < inners.len() && inners[i] == s;
                        assert(inners[i] == s);
                    }
                }
            }
        }
    }
}

/// In a document whose blocks are kept apart, the preprocessor quotes every
/// block where it stands and changes nothing else: what comes of the
/// document with its blocks as they were written is the same document with
/// each block as one double-quoted scalar.
pub proof fn lemma_blocks_quoted_in_place(
    gaps: Seq<Seq<char>>,
    inners: Seq<Seq<char>>,
    captures: Seq<(Seq<char>, Option<Seq<char>>)>,
)
    requires
        kept_apart(gaps, inners),
        captures.len() == inners.len(),
        forall|i: int|
            0 <= i < inners.len() ==> script_of(#[trigger] captures[i]) == wrapped(inners[i]),
    ensures
        quoted_by(document(gaps, inners, Set::empty()), Some(captures)) == document(
            gaps,
            inners,
            Set::full(),
        ),
{
    lemma_quoted_upto(gaps, inners, captures, inners.len() as int);
    let done = done_upto(inners, inners.len() as int);
    assert forall|i: int| 0 <= i < inners.len() implies done.contains(#[trigger] inners[i])
        == Set::<Seq<char>>::full().contains(inners[i]) by {
        assert(inners[i] == inners[i]);
    }
    lemma_tail_agrees(gaps, inners, done, Set::full(), 0);
}

/// `block` from `at` on, with a backslash put before each double quote.
pub open spec fn escaped_from(block: Seq<char>, at: int) -> Seq<char> {
    replaced_from(block, at, seq!['"'], seq!['\\', '"'])
}

/// In a text whose double quotes have been escaped, from `at` on, a
/// backslash stands before every double quote.
pub proof fn lemma_escaped_quotes(block: Seq<char>, at: int)
    requires
        0 <= at <= block.len(),
    ensures
        forall|i: int|
            0 <= i < escaped_from(block, at).len() && #[trigger] escaped_from(block, at)[i] == '"'
                ==> i > 0 && escaped_from(block, at)[i - 1] == '\\',
    decreases block.len() - at,
{
    let quote = seq!['"'];
    let escape = seq!['\\', '"'];
    if at < block.len() {
        lemma_escaped_quotes(block, at + 1);
        let rest = escaped_from(block, at + 1);
        let all = escaped_from(block, at);
        if occurs_at(block, at, quote) {
            assert(all == escape + rest);
            assert forall|i: int| 0 <= i < all.len() && #[trigger] all[i] == '"' implies i > 0
                && all[i - 1] == '\\' by {
                if i >= 2 {
                    assert(all[i] == rest[i - 2]);
                    assert(all[i - 1] == rest[i - 3]);
                }
            }
        } else {
            assert(block[at] != '"') by {
                if block[at] == '"' {
                    assert(block.subrange(at, at + 1) =~= quote);
                }
            }
            assert(all == seq![block[at]] + rest);
            assert forall|i: int| 0 <= i < all.len() && #[trigger] all[i] == '"' implies i > 0
                && all[i - 1] == '\\' by {
                if i >= 1 {
                    assert(all[i] == rest[i - 1]);
                    assert(all[i - 1] == rest[i - 2]);
                }
            }
        }
    }
}

/// A quoted block is one double-quoted scalar: it begins and ends with a
/// double quote, and a backslash stands before every double quote between.
pub proof fn lemma_quoted_block_is_closed(block: Seq<char>)
    ensures
        quoted_block(block).len() >= 2,
        quoted_block(block)[0] == '"',
        quoted_block(block).last() == '"',
        forall|i: int|
            0 < i < quoted_block(block).len() - 1 && #[trigger] quoted_block(block)[i] == '"'
                ==> quoted_block(block)[i - 1] == '\\',
{
    lemma_escaped_quotes(block, 0);
    let inner = replaced(block, seq!['"'], seq!['\\', '"']);
    assert(inner == escaped_from(block, 0));
    let all = quoted_block(block);
    assert forall|i: int| 0 < i < all.len() - 1 && #[trigger] all[i] == '"' implies all[i - 1]
        == '\\' by {
        assert(all[i] == inner[i - 1]);
        assert(i - 1 > 0);
        assert(all[i - 1] == inner[i - 2]);
    }
}

} // verus!

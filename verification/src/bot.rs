//! Texts for the chat platform, which takes no message of more than 2000 bytes: a
//! longer text is sent in pieces.
use vstd::prelude::*;
use vstd::utf8::{encode_utf8, is_char_boundary, valid_utf8};

verus! {

/// The largest size, in bytes, of a message of the chat platform.
pub const MESSAGE_LIMIT: usize = 2000;

/// The last place up to `k` at which a character begins or the text ends, or 0 where
/// there is none after the beginning.
pub open spec fn last_boundary(bytes: Seq<u8>, k: int) -> int
    decreases k,
{
    if k <= 0 {
        0
    } else if is_char_boundary(bytes, k) {
        k
    } else {
        last_boundary(bytes, k - 1)
    }
}

/// The first place from `k` on at which a character begins or the text ends.
pub open spec fn next_boundary(bytes: Seq<u8>, k: int) -> int
    decreases bytes.len() - k,
{
    if k >= bytes.len() {
        bytes.len() as int
    } else if is_char_boundary(bytes, k) {
        k
    } else {
        next_boundary(bytes, k + 1)
    }
}

/// Where the first piece of a text ends: at the last place within the limit at which
/// a character begins, or, where the first character alone is longer than the limit,
/// after that character.
pub open spec fn cut(bytes: Seq<u8>, limit: int) -> int {
    if last_boundary(bytes, limit) > 0 {
        last_boundary(bytes, limit)
    } else {
        next_boundary(bytes, 1)
    }
}

/// The pieces of a text: the text itself where it is within the limit or its first
/// piece is all of it, else its first piece and the pieces of the rest.
pub open spec fn chunks(bytes: Seq<u8>, limit: int) -> Seq<Seq<u8>>
    decreases bytes.len(),
{
    if bytes.len() <= limit || !(0 < cut(bytes, limit) < bytes.len()) {
        seq![bytes]
    } else {
        seq![bytes.take(cut(bytes, limit))] + chunks(bytes.skip(cut(bytes, limit)), limit)
    }
}

/// The pieces of several texts, one text after the other.
pub open spec fn all_chunks(texts: Seq<Seq<u8>>, limit: int) -> Seq<Seq<u8>>
    decreases texts.len(),
{
    if texts.len() == 0 {
        Seq::empty()
    } else {
        all_chunks(texts.drop_last(), limit) + chunks(texts.last(), limit)
    }
}

/// The bytes of texts.
pub open spec fn bytes_of(texts: Seq<String>) -> Seq<Seq<u8>> {
    texts.map_values(|t: String| encode_utf8(t@))
}

/// Pieces put together.
pub open spec fn concat(pieces: Seq<Seq<u8>>) -> Seq<u8>
    decreases pieces.len(),
{
    if pieces.len() == 0 {
        Seq::empty()
    } else {
        pieces[0] + concat(pieces.drop_first())
    }
}

/// The place that `last_boundary` gives is within the limit, and a character begins
/// there.
pub proof fn lemma_last_boundary(bytes: Seq<u8>, k: int)
    ensures
        0 <= last_boundary(bytes, k),
        k >= 0 ==> last_boundary(bytes, k) <= k,
        last_boundary(bytes, k) > 0 ==> is_char_boundary(bytes, last_boundary(bytes, k)),
    decreases k,
{
    if k > 0 && !is_char_boundary(bytes, k) {
        lemma_last_boundary(bytes, k - 1);
    }
}

/// The place that `next_boundary` gives is not before `k` and within the text, and
/// a character begins or the text ends there.
pub proof fn lemma_next_boundary(bytes: Seq<u8>, k: int)
    requires
        valid_utf8(bytes),
        0 <= k <= bytes.len(),
    ensures
        k <= next_boundary(bytes, k) <= bytes.len(),
        is_char_boundary(bytes, next_boundary(bytes, k)),
    decreases bytes.len() - k,
{
    if k >= bytes.len() {
        vstd::utf8::is_char_boundary_start_end_of_seq(bytes);
    } else if !is_char_boundary(bytes, k) {
        lemma_next_boundary(bytes, k + 1);
    }
}

/// The pieces of a text, put together, are the text; a text within the limit is a
/// single piece; each piece is within the limit, unless it is a single character that
/// is longer than the limit; and no piece but the last is empty.
pub proof fn lemma_chunks(bytes: Seq<u8>, limit: int)
    requires
        valid_utf8(bytes),
    ensures
        concat(chunks(bytes, limit)) == bytes,
        chunks(bytes, limit).len() >= 1,
        bytes.len() <= limit ==> chunks(bytes, limit) == seq![bytes],
        forall|i: int|
            0 <= i < chunks(bytes, limit).len() ==> {
                let piece = #[trigger] chunks(bytes, limit)[i];
                &&& piece.len() <= limit || last_boundary(piece, limit) == 0
                &&& i < chunks(bytes, limit).len() - 1 ==> piece.len() > 0
            },
    decreases bytes.len(),
{
    let pieces = chunks(bytes, limit);
    if bytes.len() <= limit || !(0 < cut(bytes, limit) < bytes.len()) {
        lemma_last_boundary(bytes, limit);
        assert(pieces[0] == bytes);
        assert(pieces.drop_first() == Seq::<Seq<u8>>::empty());
        assert(concat(pieces.drop_first()) == Seq::<u8>::empty());
        assert(concat(pieces) == bytes + Seq::<u8>::empty());
    } else {
        let c = cut(bytes, limit);
        let first = bytes.take(c);
        let rest = bytes.skip(c);
        lemma_last_boundary(bytes, limit);
        if last_boundary(bytes, limit) == 0 {
            lemma_next_boundary(bytes, 1);
        }
        assert(is_char_boundary(bytes, c));
        vstd::utf8::valid_utf8_split(bytes, c);
        assert(rest == bytes.subrange(c, bytes.len() as int));
        lemma_chunks(rest, limit);
        assert(pieces.drop_first() == chunks(rest, limit));
        assert(first + rest == bytes);
        assert forall|i: int| 0 <= i < pieces.len() implies {
            let piece = #[trigger] pieces[i];
            &&& piece.len() <= limit || last_boundary(piece, limit) == 0
            &&& i < pieces.len() - 1 ==> piece.len() > 0
        } by {
            if i == 0 {
                if last_boundary(bytes, limit) == 0 {
                    lemma_no_boundary_in_piece(bytes, c, limit);
                }
            } else {
                assert(pieces[i] == chunks(rest, limit)[i - 1]);
            }
        }
    }
}

/// A character takes at most four bytes: of four places in a row, a character begins
/// or the text ends at one.
pub proof fn lemma_boundary_near(bytes: Seq<u8>, k: int)
    requires
        valid_utf8(bytes),
        0 <= k <= bytes.len(),
    ensures
        exists|j: int| 0 <= j && k - 3 <= j <= k && #[trigger] is_char_boundary(bytes, j),
    decreases bytes.len(),
{
    let width = vstd::utf8::length_of_first_scalar(bytes);
    if k < width || bytes.len() == 0 {
        assert(is_char_boundary(bytes, 0));
    } else {
        let rest = vstd::utf8::pop_first_scalar(bytes);
        lemma_boundary_near(rest, k - width);
        let j = choose|j: int|
            0 <= j && k - width - 3 <= j <= k - width && #[trigger] is_char_boundary(rest, j);
        assert(is_char_boundary(bytes, j + width)) by {
            reveal_with_fuel(is_char_boundary, 2);
        }
    }
}

/// The place that `last_boundary` gives is not before a place up to `k` at which a
/// character begins.
pub proof fn lemma_last_boundary_after(bytes: Seq<u8>, k: int, j: int)
    requires
        0 < j <= k,
        is_char_boundary(bytes, j),
    ensures
        j <= last_boundary(bytes, k),
    decreases k,
{
    if !is_char_boundary(bytes, k) {
        lemma_last_boundary_after(bytes, k - 1, j);
    }
}

/// With a limit of four bytes or more, each piece of a text is within the limit.
pub proof fn lemma_chunks_within(bytes: Seq<u8>, limit: int)
    requires
        valid_utf8(bytes),
        limit >= 4,
    ensures
        forall|i: int|
            0 <= i < chunks(bytes, limit).len() ==> (#[trigger] chunks(bytes, limit)[i]).len()
                <= limit,
    decreases bytes.len(),
{
    let pieces = chunks(bytes, limit);
    if bytes.len() > limit {
        lemma_boundary_near(bytes, limit);
        let j = choose|j: int|
            0 <= j && limit - 3 <= j <= limit && #[trigger] is_char_boundary(bytes, j);
        lemma_last_boundary_after(bytes, limit, j);
        lemma_last_boundary(bytes, limit);
        let c = cut(bytes, limit);
        assert(0 < c <= limit);
        let rest = bytes.skip(c);
        vstd::utf8::valid_utf8_split(bytes, c);
        assert(rest == bytes.subrange(c, bytes.len() as int));
        lemma_chunks_within(rest, limit);
        assert forall|i: int| 0 <= i < pieces.len() implies (#[trigger] pieces[i]).len()
            <= limit by {
            if i > 0 {
                assert(pieces[i] == chunks(rest, limit)[i - 1]);
            }
        }
    }
}

/// With a limit of four bytes or more, each piece of several texts is within the
/// limit.
pub proof fn lemma_all_chunks_within(texts: Seq<Seq<u8>>, limit: int)
    requires
        forall|t: int| 0 <= t < texts.len() ==> valid_utf8(#[trigger] texts[t]),
        limit >= 4,
    ensures
        forall|i: int|
            0 <= i < all_chunks(texts, limit).len() ==> (#[trigger] all_chunks(texts, limit)[i]).len()
                <= limit,
    decreases texts.len(),
{
    if texts.len() > 0 {
        let before = all_chunks(texts.drop_last(), limit);
        assert forall|t: int| 0 <= t < texts.drop_last().len() implies valid_utf8(
            #[trigger] texts.drop_last()[t],
        ) by {
            assert(texts.drop_last()[t] == texts[t]);
        }
        lemma_all_chunks_within(texts.drop_last(), limit);
        lemma_chunks_within(texts.last(), limit);
        assert forall|i: int| 0 <= i < all_chunks(texts, limit).len() implies (#[trigger] all_chunks(
            texts,
            limit,
        )[i]).len() <= limit by {
            if i < before.len() {
                assert(all_chunks(texts, limit)[i] == before[i]);
            } else {
                assert(all_chunks(texts, limit)[i] == chunks(texts.last(), limit)[i - before.len()]);
            }
        }
    }
}

/// Where no character begins within the limit of a text, none does within the limit
/// of its first piece.
proof fn lemma_no_boundary_in_piece(bytes: Seq<u8>, c: int, limit: int)
    requires
        valid_utf8(bytes),
        0 < c <= bytes.len(),
        is_char_boundary(bytes, c),
        last_boundary(bytes, limit) == 0,
    ensures
        last_boundary(bytes.take(c), limit) == 0,
    decreases limit,
{
    if limit > 0 {
        assert(!is_char_boundary(bytes, limit));
        lemma_no_boundary_in_piece(bytes, c, limit - 1);
        if is_char_boundary(bytes.take(c), limit) {
            lemma_boundary_of_piece(bytes, c, limit);
        }
    }
}

/// A place at which a character begins in the first piece of a text is one at which
/// a character begins in the text.
proof fn lemma_boundary_of_piece(bytes: Seq<u8>, c: int, k: int)
    requires
        valid_utf8(bytes),
        0 < c <= bytes.len(),
        is_char_boundary(bytes, c),
        0 < k,
        is_char_boundary(bytes.take(c), k),
    ensures
        is_char_boundary(bytes, k),
{
    let piece = bytes.take(c);
    vstd::utf8::valid_utf8_split(bytes, c);
    assert(piece == bytes.subrange(0, c));
    assert(valid_utf8(piece));
    if k < c {
        vstd::utf8::is_char_boundary_iff_not_is_continuation_byte(piece, k);
        vstd::utf8::is_char_boundary_iff_not_is_continuation_byte(bytes, k);
        assert(piece[k] == bytes[k]);
    } else {
        assert(k <= piece.len()) by {
            reveal_with_fuel(is_char_boundary, 1);
        }
    }
}

/// Splits a text into pieces of at most `limit` bytes, each ending where a character
/// ends. A character that alone is longer than the limit is a piece of its own.
pub fn split_message(text: &str, limit: usize) -> (pieces: Vec<String>)
    ensures
        bytes_of(pieces@) == chunks(encode_utf8(text@), limit as int),
        concat(bytes_of(pieces@)) == encode_utf8(text@),
        pieces@.len() >= 1,
        encode_utf8(text@).len() <= limit ==> pieces@.len() == 1 && pieces@[0]@ == text@,
        limit >= 4 ==> forall|i: int|
            0 <= i < pieces@.len() ==> encode_utf8((#[trigger] pieces@[i])@).len() <= limit,
{
    proof {
        vstd::utf8::encode_utf8_valid_utf8(text@);
        lemma_chunks(encode_utf8(text@), limit as int);
        if limit >= 4 {
            lemma_chunks_within(encode_utf8(text@), limit as int);
        }
    }
    let ghost all = encode_utf8(text@);
    let mut pieces: Vec<String> = Vec::new();
    let mut rest: &str = text;
    let mut more = rest.as_bytes().len() > limit;
    assert(bytes_of(pieces@) == Seq::<Seq<u8>>::empty());
    while more
        invariant
            chunks(all, limit as int) == bytes_of(pieces@) + chunks(encode_utf8(rest@), limit as int),
            more ==> encode_utf8(rest@).len() > limit,
            !more ==> chunks(encode_utf8(rest@), limit as int) == seq![encode_utf8(rest@)],
        decreases encode_utf8(rest@).len(), more as int,
    {
        let ghost bytes = encode_utf8(rest@);
        let size = rest.as_bytes().len();
        let mut c: usize = limit;
        while c > 0 && !rest.is_char_boundary(c)
            invariant
                c <= limit,
                bytes == encode_utf8(rest@),
                last_boundary(bytes, limit as int) == last_boundary(bytes, c as int),
            decreases c,
        {
            c -= 1;
        }
        if c == 0 {
            c = 1;
            while c < size && !rest.is_char_boundary(c)
                invariant
                    1 <= c <= size,
                    size == bytes.len(),
                    bytes == encode_utf8(rest@),
                    next_boundary(bytes, 1) == next_boundary(bytes, c as int),
                decreases size - c,
            {
                c += 1;
            }
        }
        proof {
            vstd::utf8::encode_utf8_valid_utf8(rest@);
            lemma_last_boundary(bytes, limit as int);
            lemma_next_boundary(bytes, c as int);
            assert(c == cut(bytes, limit as int));
            assert(is_char_boundary(bytes, c as int));
        }
        if c >= size {
            more = false;
        } else {
            let (first, second) = rest.split_at(c);
            let ghost before = pieces@;
            pieces.push(first.to_owned());
            proof {
                assert(encode_utf8(first@) == bytes.take(c as int));
                assert(encode_utf8(second@) == bytes.skip(c as int));
                assert(bytes_of(pieces@) == bytes_of(before).push(bytes.take(c as int)));
                assert(bytes_of(before) + (seq![bytes.take(c as int)] + chunks(
                    bytes.skip(c as int),
                    limit as int,
                )) == bytes_of(pieces@) + chunks(bytes.skip(c as int), limit as int));
            }
            rest = second;
            more = rest.as_bytes().len() > limit;
        }
    }
    let ghost before = pieces@;
    pieces.push(rest.to_owned());
    proof {
        assert(bytes_of(pieces@) == bytes_of(before).push(encode_utf8(rest@)));
        assert(bytes_of(before) + seq![encode_utf8(rest@)] == bytes_of(pieces@));
        assert(bytes_of(pieces@).len() == pieces@.len());
        if encode_utf8(text@).len() <= limit {
            assert(bytes_of(pieces@)[0] == encode_utf8(pieces@[0]@));
            vstd::utf8::encode_utf8_decode_utf8(pieces@[0]@);
            vstd::utf8::encode_utf8_decode_utf8(text@);
        }
        if limit >= 4 {
            assert forall|i: int| 0 <= i < pieces@.len() implies encode_utf8(
                (#[trigger] pieces@[i])@,
            ).len() <= limit by {
                assert(bytes_of(pieces@)[i] == encode_utf8(pieces@[i]@));
            }
        }
    }
    pieces
}

/// Splits each of the texts into pieces of at most `limit` bytes, and gives the
/// pieces of all the texts in order.
pub fn split_messages(texts: &Vec<String>, limit: usize) -> (pieces: Vec<String>)
    ensures
        bytes_of(pieces@) == all_chunks(bytes_of(texts@), limit as int),
        limit >= 4 ==> forall|i: int|
            0 <= i < pieces@.len() ==> encode_utf8((#[trigger] pieces@[i])@).len() <= limit,
{
    let mut pieces: Vec<String> = Vec::new();
    let mut i: usize = 0;
    assert(bytes_of(pieces@) == Seq::<Seq<u8>>::empty());
    while i < texts.len()
        invariant
            i <= texts.len(),
            bytes_of(pieces@) == all_chunks(bytes_of(texts@).take(i as int), limit as int),
        decreases texts.len() - i,
    {
        let mut next = split_message(texts[i].as_str(), limit);
        let ghost before = pieces@;
        let ghost added = next@;
        pieces.append(&mut next);
        proof {
            assert(pieces@ == before + added);
            assert(bytes_of(pieces@) == bytes_of(before) + bytes_of(added));
            let prefix = bytes_of(texts@).take(i as int + 1);
            assert(prefix.drop_last() == bytes_of(texts@).take(i as int));
            assert(prefix.last() == encode_utf8(texts@[i as int]@));
        }
        i += 1;
    }
    assert(bytes_of(texts@).take(i as int) == bytes_of(texts@));
    proof {
        if limit >= 4 {
            assert forall|t: int| 0 <= t < bytes_of(texts@).len() implies valid_utf8(
                #[trigger] bytes_of(texts@)[t],
            ) by {
                vstd::utf8::encode_utf8_valid_utf8(texts@[t]@);
            }
            lemma_all_chunks_within(bytes_of(texts@), limit as int);
            assert forall|i: int| 0 <= i < pieces@.len() implies encode_utf8(
                (#[trigger] pieces@[i])@,
            ).len() <= limit by {
                assert(bytes_of(pieces@)[i] == encode_utf8(pieces@[i]@));
            }
        }
    }
    pieces
}

} // verus!

//! Embedding tables: where a row lies, rows by token, and sums of rows.

use crate::codes::{Frame, CODEBOOK_VOCAB};
use crate::config::EmbeddingMeta;
use crate::error::NodeError;
use crate::scalar::F32Bits;
use vstd::prelude::*;

verus! {

/// Where a row of a table begins.
pub open spec fn row_start(row: int, width: int) -> int {
    row * width
}

/// A row of a table.
pub open spec fn row_of<T>(table: Seq<T>, row: int, width: int) -> Seq<T> {
    table.subrange(row_start(row, width), row_start(row, width) + width)
}

/// Whether a table holds a row whole.
pub open spec fn holds_row<T>(table: Seq<T>, row: int, width: int) -> bool {
    row_start(row, width) + width <= table.len()
}

/// The rows for `ids`, one after the other.
pub open spec fn rows_for<T>(table: Seq<T>, ids: Seq<u32>, width: int) -> Seq<T>
    decreases ids.len(),
{
    if ids.len() == 0 {
        Seq::empty()
    } else {
        rows_for(table, ids.drop_last(), width) + row_of(table, ids.last() as int, width)
    }
}

/// Whether every one of `ids` lies in a vocabulary of `vocab` tokens.
pub open spec fn in_vocab(ids: Seq<u32>, vocab: int) -> bool {
    forall|i: int| 0 <= i < ids.len() ==> (#[trigger] ids[i]) < vocab
}

/// Whether `at` is the first of `ids` outside a vocabulary of `vocab` tokens.
pub open spec fn is_first_outside(ids: Seq<u32>, vocab: int, at: int) -> bool {
    &&& 0 <= at < ids.len()
    &&& ids[at] >= vocab
    &&& in_vocab(ids.take(at), vocab)
}

/// Whether a table of `len` values holds the row of every one of `ids`, as far
/// as they lie in the vocabulary.
pub open spec fn holds_text_rows(len: int, meta: EmbeddingMeta, ids: Seq<u32>) -> bool {
    forall|i: int|
        0 <= i < ids.len() && in_vocab(ids.take(i + 1), meta.vocab_size as int) ==> row_start(
            (#[trigger] ids[i]) as int,
            meta.hidden_size as int,
        ) + meta.hidden_size <= len
}

/// Whether `rows` are the rows for `ids`, or the refusal of the first token
/// outside the vocabulary.
pub open spec fn looks_up<T>(
    table: Seq<T>,
    meta: EmbeddingMeta,
    ids: Seq<u32>,
    rows: Result<Vec<T>, NodeError>,
) -> bool {
    match rows {
        Ok(values) => {
            &&& in_vocab(ids, meta.vocab_size as int)
            &&& values@ == rows_for(table, ids, meta.hidden_size as int)
        },
        Err(error) => exists|at: int| #[trigger]
            is_first_outside(ids, meta.vocab_size as int, at) && error
                == NodeError::TokenOutsideVocab(ids[at]),
    }
}

/// The rows for `ids`. A token outside the vocabulary is refused, the first
/// of them where there are several.
///
/// The table has to hold the row of every token before that one.
pub fn text_embeddings<T: Copy>(table: &Vec<T>, meta: EmbeddingMeta, ids: &Vec<u32>) -> (rows:
    Result<Vec<T>, NodeError>)
    requires
        holds_text_rows(table@.len() as int, meta, ids@),
    ensures
        looks_up(table@, meta, ids@, rows),
        match rows {
            Ok(values) => {
                &&& in_vocab(ids@, meta.vocab_size as int)
                &&& values@ == rows_for(table@, ids@, meta.hidden_size as int)
            },
            Err(error) => exists|at: int| #[trigger]
                is_first_outside(ids@, meta.vocab_size as int, at) && error
                    == NodeError::TokenOutsideVocab(ids@[at]),
        },
{
    let width: usize = meta.hidden_size;
    let mut values: Vec<T> = Vec::new();
    for i in 0..ids.len()
        invariant
            width == meta.hidden_size,
            in_vocab(ids@.take(i as int), meta.vocab_size as int),
            values@ == rows_for(table@, ids@.take(i as int), width as int),
            holds_text_rows(table@.len() as int, meta, ids@),
    {
        let id = ids[i];
        if id as usize >= meta.vocab_size {
            assert(is_first_outside(ids@, meta.vocab_size as int, i as int));
            return Err(NodeError::TokenOutsideVocab(id));
        }
        proof {
            let upto = ids@.take(i + 1);
            assert forall|j: int| 0 <= j < upto.len() implies (#[trigger] upto[j])
                < meta.vocab_size by {
                if j < i {
                    assert(upto[j] == ids@.take(i as int)[j]);
                }
            }
            assert(holds_row(table@, ids@[i as int] as int, width as int));
            assert(upto.drop_last() =~= ids@.take(i as int));
        }
        append_row(&mut values, table, id as usize, width);
    }
    assert(ids@.take(ids@.len() as int) =~= ids@);
    Ok(values)
}

fn append_row<T: Copy>(values: &mut Vec<T>, table: &Vec<T>, row: usize, width: usize)
    requires
        holds_row(table@, row as int, width as int),
    ensures
        final(values)@ == old(values)@ + row_of(table@, row as int, width as int),
{
    let len: usize = table.len();
    let start: usize = offset(row, width, len);
    let ghost before = values@;
    for i in 0..width
        invariant
            len == table@.len(),
            start == row_start(row as int, width as int),
            holds_row(table@, row as int, width as int),
            values@ == before + row_of(table@, row as int, width as int).take(i as int),
    {
        values.push(table[start + i]);
        assert(values@ =~= before + row_of(table@, row as int, width as int).take(i + 1));
    }
    assert(values@ =~= before + row_of(table@, row as int, width as int));
}

fn offset(row: usize, width: usize, len: usize) -> (start: usize)
    requires
        row_start(row as int, width as int) + width <= len,
    ensures
        start == row_start(row as int, width as int),
{
    assert(0 <= row * width) by (nonlinear_arith)
        requires
            0 <= row,
            0 <= width,
    ;
    row * width
}

/// Which row of the audio table stands for a code of a codebook. Codes that
/// name no entry count as the end-of-audio mark.
pub open spec fn audio_row(book: int, code: i64) -> int {
    book * CODEBOOK_VOCAB + if 0 <= code < CODEBOOK_VOCAB {
        code as int
    } else {
        CODEBOOK_VOCAB - 1
    }
}

/// Whether the rows for the first `books` codes of `frame` exist.
pub open spec fn audio_rows_exist(frame: Seq<i64>, vocab: int, books: int) -> bool {
    forall|b: int| 0 <= b < books ==> audio_row(b, #[trigger] frame[b]) < vocab
}

/// Whether a table of `len` values holds the row of every code of `frame`, as
/// far as those rows exist.
pub open spec fn holds_audio_rows(len: int, meta: EmbeddingMeta, frame: Seq<i64>) -> bool {
    forall|b: int|
        0 <= b < 8 && audio_rows_exist(frame, meta.vocab_size as int, b + 1) ==> row_start(
            audio_row(b, #[trigger] frame[b]),
            meta.hidden_size as int,
        ) + meta.hidden_size <= len
}

/// Where the rows for the codes of `frame` begin in the audio table.
pub open spec fn audio_starts(frame: Seq<i64>, width: int) -> Seq<usize> {
    Seq::new(8, |b: int| row_start(audio_row(b, frame[b]), width) as usize)
}

/// Whether `total` comes of adding up `terms` onto `zero`, the first first.
pub open spec fn adds_up<T, F: Fn(T, T) -> T>(plus: F, zero: T, terms: Seq<T>, total: T) -> bool
    decreases terms.len(),
{
    if terms.len() == 0 {
        total == zero
    } else {
        exists|partial: T|
            #![trigger plus.ensures((partial, terms.last()), total)]
            adds_up(plus, zero, terms.drop_last(), partial) && plus.ensures(
                (partial, terms.last()),
                total,
            )
    }
}

/// The values at place `at` of the rows that begin at `starts`.
pub open spec fn column<T>(table: Seq<T>, starts: Seq<usize>, at: int) -> Seq<T> {
    starts.map_values(|start: usize| table[start + at])
}

/// Whether `sums` holds `len` values: the sums of the rows of `width` values
/// that begin at `starts`, place by place, and `zero` behind them.
pub open spec fn sums_rows<T, F: Fn(T, T) -> T>(
    plus: F,
    zero: T,
    table: Seq<T>,
    starts: Seq<usize>,
    width: int,
    len: int,
    sums: Seq<T>,
) -> bool {
    &&& sums.len() == len
    &&& forall|i: int|
        0 <= i < len && i < width ==> adds_up(
            plus,
            zero,
            column(table, starts, i),
            #[trigger] sums[i],
        )
    &&& forall|i: int| width <= i < len ==> #[trigger] sums[i] == zero
}

/// Adds up rows of `width` values, place by place, onto `len` zeros.
pub fn sum_rows<T: Copy, F: Fn(T, T) -> T>(
    table: &Vec<T>,
    starts: &Vec<usize>,
    width: usize,
    len: usize,
    zero: T,
    plus: F,
) -> (sums: Vec<T>)
    requires
        forall|i: int| 0 <= i < starts@.len() ==> (#[trigger] starts@[i]) + width <= table@.len(),
        forall|a: T, b: T| #[trigger] plus.requires((a, b)),
    ensures
        sums_rows(plus, zero, table@, starts@, width as int, len as int, sums@),
{
    let mut sums: Vec<T> = Vec::new();
    let table_len: usize = table.len();
    for i in 0..len
        invariant
            table_len == table@.len(),
            forall|k: int|
                0 <= k < starts@.len() ==> (#[trigger] starts@[k]) + width <= table@.len(),
            forall|a: T, b: T| #[trigger] plus.requires((a, b)),
            sums_rows(plus, zero, table@, starts@, width as int, i as int, sums@),
    {
        let mut total: T = zero;
        if i < width {
            for k in 0..starts.len()
                invariant
                    table_len == table@.len(),
                    i < width,
                    forall|j: int|
                        0 <= j < starts@.len() ==> (#[trigger] starts@[j]) + width <= table@.len(),
                    forall|a: T, b: T| #[trigger] plus.requires((a, b)),
                    adds_up(plus, zero, column(table@, starts@.take(k as int), i as int), total),
            {
                let ghost partial = total;
                let start: usize = starts[k];
                total = plus(total, table[start + i]);
                proof {
                    let terms = column(table@, starts@.take(k + 1), i as int);
                    assert(terms.drop_last() =~= column(
                        table@,
                        starts@.take(k as int),
                        i as int,
                    ));
                    assert(terms.last() == table@[start + i]);
                    assert(plus.ensures((partial, terms.last()), total));
                }
            }
            assert(starts@.take(starts@.len() as int) =~= starts@);
        }
        sums.push(total);
    }
    sums
}

/// Whether a table of `len` values holds the row `row` whole.
fn row_fits(row: usize, width: usize, len: usize) -> (fits: bool)
    ensures
        fits == (row_start(row as int, width as int) + width <= len),
{
    if width == 0 {
        assert(row * width == 0) by (nonlinear_arith)
            requires
                width == 0,
        ;
        return true;
    }
    let whole: usize = len / width;
    proof {
        vstd::arithmetic::div_mod::lemma_fundamental_div_mod(len as int, width as int);
        vstd::arithmetic::div_mod::lemma_mod_bound(len as int, width as int);
        if row < whole {
            assert(row * width + width <= width * whole) by (nonlinear_arith)
                requires
                    row + 1 <= whole,
                    width > 0,
            ;
        } else {
            assert(row * width + width >= width * whole + width) by (nonlinear_arith)
                requires
                    row >= whole,
                    width > 0,
            ;
        }
    }
    row < whole
}

/// Tells whether a table of `len` values holds the rows that
/// [`text_embeddings`] reads for `ids`.
pub fn has_text_rows(len: usize, meta: EmbeddingMeta, ids: &Vec<u32>) -> (held: bool)
    ensures
        held == holds_text_rows(len as int, meta, ids@),
{
    for i in 0..ids.len()
        invariant
            in_vocab(ids@.take(i as int), meta.vocab_size as int),
            forall|j: int|
                0 <= j < i ==> row_start((#[trigger] ids@[j]) as int, meta.hidden_size as int)
                    + meta.hidden_size <= len,
    {
        let id = ids[i];
        if id as usize >= meta.vocab_size {
            assert forall|j: int|
                0 <= j < ids@.len() && in_vocab(
                    ids@.take(j + 1),
                    meta.vocab_size as int,
                ) implies row_start((#[trigger] ids@[j]) as int, meta.hidden_size as int)
                + meta.hidden_size <= len by {
                if j >= i {
                    assert(ids@.take(j + 1)[i as int] == id);
                }
            }
            return true;
        }
        proof {
            let upto = ids@.take(i + 1);
            assert forall|j: int| 0 <= j < upto.len() implies (#[trigger] upto[j])
                < meta.vocab_size by {
                if j < i {
                    assert(upto[j] == ids@.take(i as int)[j]);
                }
            }
        }
        if !row_fits(id as usize, meta.hidden_size, len) {
            return false;
        }
    }
    true
}

/// Tells whether a table of `len` values holds the rows that
/// [`audio_embeddings_sum`] reads for `frame`.
pub fn has_audio_rows(len: usize, meta: EmbeddingMeta, frame: &Frame) -> (held: bool)
    ensures
        held == holds_audio_rows(len as int, meta, frame@),
{
    for b in 0..8usize
        invariant
            frame@.len() == 8,
            audio_rows_exist(frame@, meta.vocab_size as int, b as int),
            forall|k: int|
                0 <= k < b ==> row_start(
                    audio_row(k, #[trigger] frame@[k]),
                    meta.hidden_size as int,
                ) + meta.hidden_size <= len,
    {
        let row: usize = row_of_code(b, frame[b]);
        if row >= meta.vocab_size {
            assert forall|k: int|
                0 <= k < 8 && audio_rows_exist(
                    frame@,
                    meta.vocab_size as int,
                    k + 1,
                ) implies row_start(audio_row(k, #[trigger] frame@[k]), meta.hidden_size as int)
                + meta.hidden_size <= len by {
                if k >= b {
                    assert(audio_row(b as int, frame@[b as int]) < meta.vocab_size);
                }
            }
            return true;
        }
        assert(audio_rows_exist(frame@, meta.vocab_size as int, b + 1));
        if !row_fits(row, meta.hidden_size, len) {
            assert(row_start(audio_row(b as int, frame@[b as int]), meta.hidden_size as int)
                + meta.hidden_size > len);
            return false;
        }
    }
    true
}

fn row_of_code(book: usize, code: i64) -> (row: usize)
    requires
        book < 8,
    ensures
        row == audio_row(book as int, code),
{
    let entry: usize = if 0 <= code && code < CODEBOOK_VOCAB as i64 {
        code as usize
    } else {
        CODEBOOK_VOCAB - 1
    };
    book * CODEBOOK_VOCAB + entry
}

/// Where the rows for the codes of `frame` begin in the audio table. A code
/// without a row is refused, the first of them where there are several.
///
/// The table has to hold the row of every code before that one.
pub fn audio_row_starts(frame: &Frame, meta: EmbeddingMeta, table_len: usize) -> (starts: Result<
    Vec<usize>,
    NodeError,
>)
    requires
        holds_audio_rows(table_len as int, meta, frame@),
    ensures
        match starts {
            Ok(list) => {
                &&& audio_rows_exist(frame@, meta.vocab_size as int, 8)
                &&& list@ == audio_starts(frame@, meta.hidden_size as int)
                &&& forall|b: int|
                    0 <= b < 8 ==> #[trigger] list@[b] == row_start(
                        audio_row(b, frame@[b]),
                        meta.hidden_size as int,
                    )
            },
            Err(error) => exists|b: int|
                #![trigger frame@[b]]
                {
                    &&& 0 <= b < 8
                    &&& audio_rows_exist(frame@, meta.vocab_size as int, b)
                    &&& audio_row(b, frame@[b]) >= meta.vocab_size
                    &&& error == NodeError::AudioIndexOutOfRange(
                        audio_row(b, frame@[b]) as usize,
                    )
                },
        },
{
    let mut list: Vec<usize> = Vec::new();
    for b in 0..8usize
        invariant
            list@.len() == b,
            frame@.len() == 8,
            audio_rows_exist(frame@, meta.vocab_size as int, b as int),
            forall|k: int|
                0 <= k < b ==> #[trigger] list@[k] == row_start(
                    audio_row(k, frame@[k]),
                    meta.hidden_size as int,
                ),
            holds_audio_rows(table_len as int, meta, frame@),
    {
        let row: usize = row_of_code(b, frame[b]);
        if row >= meta.vocab_size {
            return Err(NodeError::AudioIndexOutOfRange(row));
        }
        assert(audio_rows_exist(frame@, meta.vocab_size as int, b + 1));
        let start: usize = offset(row, meta.hidden_size, table_len);
        list.push(start);
    }
    assert(list@ =~= audio_starts(frame@, meta.hidden_size as int));
    Ok(list)
}

/// Whether `sums` is the embedding of `frame`, or the refusal of the first code
/// without a row.
pub open spec fn embeds<T, F: Fn(T, T) -> T>(
    plus: F,
    zero: T,
    table: Seq<T>,
    meta: EmbeddingMeta,
    frame: Seq<i64>,
    hidden: int,
    sums: Result<Vec<T>, NodeError>,
) -> bool {
    match sums {
        Ok(values) => {
            &&& audio_rows_exist(frame, meta.vocab_size as int, 8)
            &&& sums_rows(
                plus,
                zero,
                table,
                audio_starts(frame, meta.hidden_size as int),
                meta.hidden_size as int,
                hidden,
                values@,
            )
        },
        Err(error) => exists|b: int|
            #![trigger frame[b]]
            {
                &&& 0 <= b < 8
                &&& audio_rows_exist(frame, meta.vocab_size as int, b)
                &&& audio_row(b, frame[b]) >= meta.vocab_size
                &&& error == NodeError::AudioIndexOutOfRange(audio_row(b, frame[b]) as usize)
            },
    }
}

/// The embedding of `frame`: the sum of the rows of its codes, brought to
/// `hidden` values.
pub fn audio_embeddings_sum<T: Copy, F: Fn(T, T) -> T>(
    table: &Vec<T>,
    meta: EmbeddingMeta,
    frame: &Frame,
    hidden: usize,
    zero: T,
    plus: F,
) -> (sums: Result<Vec<T>, NodeError>)
    requires
        forall|a: T, b: T| #[trigger] plus.requires((a, b)),
        holds_audio_rows(table@.len() as int, meta, frame@),
    ensures
        embeds(plus, zero, table@, meta, frame@, hidden as int, sums),
        match sums {
            Ok(values) => {
                &&& audio_rows_exist(frame@, meta.vocab_size as int, 8)
                &&& sums_rows(
                    plus,
                    zero,
                    table@,
                    audio_starts(frame@, meta.hidden_size as int),
                    meta.hidden_size as int,
                    hidden as int,
                    values@,
                )
            },
            Err(error) => exists|b: int|
                #![trigger frame@[b]]
                {
                    &&& 0 <= b < 8
                    &&& audio_rows_exist(frame@, meta.vocab_size as int, b)
                    &&& audio_row(b, frame@[b]) >= meta.vocab_size
                    &&& error == NodeError::AudioIndexOutOfRange(
                        audio_row(b, frame@[b]) as usize,
                    )
                },
        },
{
    match audio_row_starts(frame, meta, table.len()) {
        Ok(starts) => {
            assert forall|i: int| 0 <= i < starts@.len() implies (#[trigger] starts@[i])
                + meta.hidden_size <= table@.len() by {
                assert(audio_rows_exist(frame@, meta.vocab_size as int, i + 1));
                assert(starts@[i] == row_start(audio_row(i, frame@[i]), meta.hidden_size as int));
            }
            Ok(sum_rows(table, &starts, meta.hidden_size, hidden, zero, plus))
        },
        Err(error) => Err(error),
    }
}

/// Whether `rows` are the codes of `frame` as rows of one table that holds all
/// codebooks.
pub open spec fn are_table_codes(frame: Seq<i64>, rows: Seq<i64>) -> bool {
    rows == Seq::new(8, |b: int| (b * CODEBOOK_VOCAB + frame[b]) as i64)
}

/// The codes of `frame` as rows of one table that holds all codebooks.
pub fn table_codes(frame: &Frame) -> (rows: Vec<i64>)
    requires
        forall|b: int|
            0 <= b < 8 ==> (#[trigger] frame@[b]) + b * CODEBOOK_VOCAB <= i64::MAX,
    ensures
        are_table_codes(frame@, rows@),
        rows@ == Seq::new(8, |b: int| (b * CODEBOOK_VOCAB + frame@[b]) as i64),
{
    let mut rows: Vec<i64> = Vec::new();
    for b in 0..8usize
        invariant
            frame@.len() == 8,
            forall|k: int|
                0 <= k < 8 ==> (#[trigger] frame@[k]) + k * CODEBOOK_VOCAB <= i64::MAX,
            rows@.len() == b,
            forall|k: int|
                0 <= k < b ==> #[trigger] rows@[k] == (k * CODEBOOK_VOCAB + frame@[k]) as i64,
    {
        assert(frame@[b as int] + b * CODEBOOK_VOCAB <= i64::MAX);
        rows.push((b * CODEBOOK_VOCAB) as i64 + frame[b]);
    }
    assert(rows@ =~= Seq::new(8, |b: int| (b * CODEBOOK_VOCAB + frame@[b]) as i64));
    rows
}

/// Whether `sums` is the sum of eight rows of `hidden` values that lie one behind
/// the other.
pub open spec fn sums_eight<T, F: Fn(T, T) -> T>(
    plus: F,
    zero: T,
    values: Seq<T>,
    hidden: usize,
    sums: Seq<T>,
) -> bool {
    sums_rows(
        plus,
        zero,
        values,
        Seq::new(8, |b: int| (b * hidden) as usize),
        hidden as int,
        hidden as int,
        sums,
    )
}

/// The sum of eight rows of `hidden` values that lie one behind the other.
pub fn sum_eight_rows<T: Copy, F: Fn(T, T) -> T>(values: &Vec<T>, hidden: usize, zero: T, plus: F) -> (sums: Vec<T>)
    requires
        forall|a: T, b: T| #[trigger] plus.requires((a, b)),
        8 * hidden <= values@.len(),
    ensures
        sums_eight(plus, zero, values@, hidden, sums@),
        sums_rows(
            plus,
            zero,
            values@,
            Seq::new(8, |b: int| (b * hidden) as usize),
            hidden as int,
            hidden as int,
            sums@,
        ),
{
    let mut starts: Vec<usize> = Vec::new();
    let len: usize = values.len();
    for b in 0..8usize
        invariant
            8 * hidden <= len,
            starts@.len() == b,
            forall|k: int| 0 <= k < b ==> #[trigger] starts@[k] == k * hidden,
    {
        assert(b * hidden <= 7 * hidden) by (nonlinear_arith)
            requires
                b <= 7,
                0 <= hidden,
        ;
        starts.push(b * hidden);
    }
    assert forall|i: int| 0 <= i < starts@.len() implies (#[trigger] starts@[i]) + hidden
        <= values@.len() by {
        assert(i * hidden + hidden <= 8 * hidden) by (nonlinear_arith)
            requires
                i <= 7,
                0 <= hidden,
        ;
    }
    assert(starts@ =~= Seq::new(8, |b: int| (b * hidden) as usize));
    sum_rows(values, &starts, hidden, hidden, zero, plus)
}

/// The rows for some tokens are as many values as tokens times the width.
pub proof fn rows_fill_their_shape<T>(table: Seq<T>, ids: Seq<u32>, width: int)
    requires
        0 <= width,
        forall|i: int| 0 <= i < ids.len() ==> holds_row(table, (#[trigger] ids[i]) as int, width),
    ensures
        rows_for(table, ids, width).len() == ids.len() * width,
    decreases ids.len(),
{
    if ids.len() > 0 {
        let rest = ids.drop_last();
        assert forall|i: int| 0 <= i < rest.len() implies holds_row(
            table,
            (#[trigger] rest[i]) as int,
            width,
        ) by {
            assert(rest[i] == ids[i]);
        }
        rows_fill_their_shape(table, rest, width);
        let last = ids[ids.len() - 1];
        assert(holds_row(table, last as int, width));
        assert(0 <= last * width) by (nonlinear_arith)
            requires
                0 <= last,
                0 <= width,
        ;
        assert((ids.len() - 1) * width + width == ids.len() * width) by (nonlinear_arith);
    }
}

/// The number that four bytes hold, the lowest first.
pub open spec fn word(bytes: Seq<u8>, at: int) -> int {
    bytes[at] + bytes[at + 1] * 0x100 + bytes[at + 2] * 0x1_0000 + bytes[at + 3] * 0x100_0000
}

/// Whether `list` holds the numbers in a weight file.
pub open spec fn is_blob(bytes: Seq<u8>, list: Seq<F32Bits>) -> bool {
    &&& bytes.len() == 4 * list.len()
    &&& forall|i: int| 0 <= i < list.len() ==> (#[trigger] list[i]).bits == word(bytes, 4 * i)
}

/// The numbers in a weight file, four bytes each, the lowest first. A file
/// that does not hold a whole number of them is refused.
pub fn read_f32_blob(path: &str, bytes: &Vec<u8>) -> (numbers: Result<Vec<F32Bits>, NodeError>)
    ensures
        match numbers {
            Ok(list) => {
                &&& is_blob(bytes@, list@)
                &&& bytes@.len() == 4 * list@.len()
                &&& forall|i: int|
                    0 <= i < list@.len() ==> (#[trigger] list@[i]).bits == word(bytes@, 4 * i)
            },
            Err(error) => {
                &&& bytes@.len() % 4 != 0
                &&& error matches NodeError::UnalignedBlob { path: name, len }
                &&& name@ == path@
                &&& len == bytes@.len()
            },
        },
{
    if bytes.len() % 4 != 0 {
        return Err(NodeError::UnalignedBlob { path: path.to_string(), len: bytes.len() });
    }
    let mut list: Vec<F32Bits> = Vec::new();
    let len: usize = bytes.len();
    let count: usize = len / 4;
    for i in 0..count
        invariant
            bytes@.len() == len,
            len == 4 * count,
            list@.len() == i,
            forall|j: int| 0 <= j < i ==> (#[trigger] list@[j]).bits == word(bytes@, 4 * j),
    {
        let at: usize = 4 * i;
        let bits: u32 = bytes[at] as u32 + bytes[at + 1] as u32 * 0x100 + bytes[at + 2] as u32
            * 0x1_0000 + bytes[at + 3] as u32 * 0x100_0000;
        list.push(F32Bits { bits });
    }
    Ok(list)
}

/// Whether the last of the rows of `width` values among `len` has these bounds.
pub open spec fn is_last_row(len: usize, width: usize, bounds: (usize, usize)) -> bool {
    &&& bounds.0 == (len / width - 1) * width
    &&& bounds.1 == bounds.0 + width
    &&& bounds.1 <= len
    &&& len - bounds.1 < width
}

/// Where the last of the rows of `width` values begins and ends among `len`
/// values; what does not fill a row is left out.
pub fn last_row(len: usize, width: usize) -> (bounds: (usize, usize))
    requires
        0 < width <= len,
    ensures
        is_last_row(len, width, bounds),
        bounds.0 == (len / width - 1) * width,
        bounds.1 == bounds.0 + width,
        bounds.1 <= len,
        len - bounds.1 < width,
{
    let rows: usize = len / width;
    proof {
        vstd::arithmetic::div_mod::lemma_fundamental_div_mod(len as int, width as int);
        vstd::arithmetic::div_mod::lemma_div_non_zero(len as int, width as int);
        assert(rows * width <= len && len - rows * width < width) by {
            assert(width * rows == rows * width) by (nonlinear_arith);
            vstd::arithmetic::div_mod::lemma_mod_bound(len as int, width as int);
        }
        assert((rows - 1) * width == rows * width - width) by (nonlinear_arith);
        assert(0 <= (rows - 1) * width) by (nonlinear_arith)
            requires
                rows >= 1,
                width > 0,
        ;
    }
    let start: usize = (rows - 1) * width;
    (start, start + width)
}

/// The code of a codebook stands for a row of the codebook's own section of the
/// table, which has 2049 rows: code `code` of codebook `book` for row 2049
/// `book` + `code`, and what is no code at all for the last row of the section.
pub proof fn code_stands_for_a_row_of_its_book(book: int, code: i64)
    ensures
        0 <= code <= 2048 ==> audio_row(book, code) == 2049 * book + code,
        code < 0 || code > 2048 ==> audio_row(book, code) == 2049 * book + 2048,
        2049 * book <= audio_row(book, code) < 2049 * (book + 1),
{
}

/// No two codes share a row, whatever their codebooks.
pub proof fn codes_share_no_row(book: int, code: i64, other_book: int, other: i64)
    requires
        0 <= code <= 2048,
        0 <= other <= 2048,
        audio_row(book, code) == audio_row(other_book, other),
    ensures
        book == other_book,
        code == other,
{
}

/// The rows for some tokens stand in the order of the tokens, each of them
/// whole: value `j` of the row for the token at `i` is value `j` of that
/// token's own row of the table.
pub proof fn rows_stand_in_the_order_of_their_tokens<T>(
    table: Seq<T>,
    ids: Seq<u32>,
    width: int,
    i: int,
    j: int,
)
    requires
        0 <= i < ids.len(),
        0 <= j < width,
        forall|k: int| 0 <= k < ids.len() ==> (#[trigger] ids[k]) * width + width <= table.len(),
    ensures
        rows_for(table, ids, width).len() == ids.len() * width,
        rows_for(table, ids, width)[i * width + j] == table[ids[i] * width + j],
    decreases ids.len(),
{
    let rest = ids.drop_last();
    let last = ids[ids.len() - 1];
    assert forall|k: int| 0 <= k < ids.len() implies holds_row(
        table,
        (#[trigger] ids[k]) as int,
        width,
    ) by {}
    rows_fill_their_shape(table, ids, width);
    assert forall|k: int| 0 <= k < rest.len() implies (#[trigger] rest[k]) * width + width
        <= table.len() by {
        assert(rest[k] == ids[k]);
    }
    assert forall|k: int| 0 <= k < rest.len() implies holds_row(
        table,
        (#[trigger] rest[k]) as int,
        width,
    ) by {
        assert(rest[k] == ids[k]);
    }
    rows_fill_their_shape(table, rest, width);
    assert(0 <= last * width) by (nonlinear_arith)
        requires
            0 <= last,
            0 <= width,
    ;
    if i < rest.len() {
        rows_stand_in_the_order_of_their_tokens(table, rest, width, i, j);
        assert(0 <= i * width + j < rest.len() * width) by (nonlinear_arith)
            requires
                0 <= i < rest.len(),
                0 <= j < width,
        ;
        assert(rest[i] == ids[i]);
    } else {
        assert(i * width == rest.len() * width);
    }
}

/// How terms are added up: begun at `zero`, one after the other, the first
/// first, and each of them once.
proof fn sum_runs_through_its_terms<T, F: Fn(T, T) -> T>(
    plus: F,
    zero: T,
    terms: Seq<T>,
    total: T,
) -> (partial: Seq<T>)
    requires
        adds_up(plus, zero, terms, total),
    ensures
        partial.len() == terms.len() + 1,
        partial[0] == zero,
        partial[terms.len() as int] == total,
        forall|k: int|
            #![trigger partial[k]]
            0 <= k < terms.len() ==> plus.ensures((partial[k], terms[k]), partial[k + 1]),
    decreases terms.len(),
{
    if terms.len() == 0 {
        seq![total]
    } else {
        let last = terms[terms.len() - 1];
        let before = choose|before: T|
            #![trigger plus.ensures((before, terms.last()), total)]
            adds_up(plus, zero, terms.drop_last(), before) && plus.ensures(
                (before, terms.last()),
                total,
            );
        let earlier = sum_runs_through_its_terms(plus, zero, terms.drop_last(), before);
        let partial = earlier.push(total);
        assert forall|k: int|
            #![trigger partial[k]]
            0 <= k < terms.len() implies plus.ensures((partial[k], terms[k]), partial[k + 1]) by {
            if k < terms.len() - 1 {
                assert(partial[k] == earlier[k] && partial[k + 1] == earlier[k + 1]);
                assert(terms.drop_last()[k] == terms[k]);
            } else {
                assert(partial[k] == before && partial[k + 1] == total);
            }
        }
        partial
    }
}

/// A sum of rows holds at place `i` the sum of what the rows hold there: begun
/// at `zero`, the first row first and each row once. Behind the width of the
/// rows it holds nothing but `zero`.
pub proof fn rows_are_summed_place_by_place<T, F: Fn(T, T) -> T>(
    plus: F,
    zero: T,
    table: Seq<T>,
    starts: Seq<usize>,
    width: int,
    len: int,
    sums: Seq<T>,
    i: int,
)
    requires
        sums_rows(plus, zero, table, starts, width, len, sums),
        0 <= i < len,
    ensures
        sums.len() == len,
        i >= width ==> sums[i] == zero,
        i < width ==> exists|partial: Seq<T>|
            {
                &&& #[trigger] partial.len() == starts.len() + 1
                &&& partial[0] == zero
                &&& partial[starts.len() as int] == sums[i]
                &&& forall|k: int|
                    #![trigger partial[k]]
                    0 <= k < starts.len() ==> plus.ensures(
                        (partial[k], table[starts[k] + i]),
                        partial[k + 1],
                    )
            },
{
    if i < width {
        let terms = column(table, starts, i);
        let partial = sum_runs_through_its_terms(plus, zero, terms, sums[i]);
        assert(partial.len() == starts.len() + 1);
        assert forall|k: int|
            #![trigger partial[k]]
            0 <= k < starts.len() implies plus.ensures(
            (partial[k], table[starts[k] + i]),
            partial[k + 1],
        ) by {
            assert(terms[k] == table[starts[k] + i]);
        }
    }
}

/// The embedding of a frame holds at place `i` the sum of what stands there in
/// the eight rows of its codes, begun at `zero` and taken codebook by codebook:
/// for codebook `b` the row 2049 `b` + its code, and the last row of the
/// codebook's section where there is no such code. Places that the rows of the
/// table do not have hold `zero`.
pub proof fn frame_is_embedded_by_the_rows_of_its_codes<T, F: Fn(T, T) -> T>(
    plus: F,
    zero: T,
    table: Seq<T>,
    meta: EmbeddingMeta,
    frame: Seq<i64>,
    hidden: int,
    sums: Seq<T>,
    i: int,
)
    requires
        frame.len() == 8,
        table.len() <= usize::MAX,
        holds_audio_rows(table.len() as int, meta, frame),
        audio_rows_exist(frame, meta.vocab_size as int, 8),
        sums_rows(
            plus,
            zero,
            table,
            audio_starts(frame, meta.hidden_size as int),
            meta.hidden_size as int,
            hidden,
            sums,
        ),
        0 <= i < hidden,
    ensures
        sums.len() == hidden,
        i >= meta.hidden_size ==> sums[i] == zero,
        i < meta.hidden_size ==> exists|partial: Seq<T>|
            {
                &&& #[trigger] partial.len() == 9
                &&& partial[0] == zero
                &&& partial[8] == sums[i]
                &&& forall|b: int|
                    #![trigger partial[b]]
                    0 <= b < 8 ==> {
                        let row = 2049 * b + if 0 <= frame[b] <= 2048 {
                            frame[b] as int
                        } else {
                            2048
                        };
                        plus.ensures(
                            (partial[b], table[row * meta.hidden_size + i]),
                            partial[b + 1],
                        )
                    }
            },
{
    let width = meta.hidden_size as int;
    let starts = audio_starts(frame, width);
    rows_are_summed_place_by_place(plus, zero, table, starts, width, hidden, sums, i);
    if i < width {
        let partial = choose|partial: Seq<T>|
            {
                &&& #[trigger] partial.len() == starts.len() + 1
                &&& partial[0] == zero
                &&& partial[starts.len() as int] == sums[i]
                &&& forall|k: int|
                    #![trigger partial[k]]
                    0 <= k < starts.len() ==> plus.ensures(
                        (partial[k], table[starts[k] + i]),
                        partial[k + 1],
                    )
            };
        assert(partial.len() == 9);
        assert forall|b: int|
            #![trigger partial[b]]
            0 <= b < 8 implies {
            let row = 2049 * b + if 0 <= frame[b] <= 2048 {
                frame[b] as int
            } else {
                2048
            };
            plus.ensures((partial[b], table[row * meta.hidden_size + i]), partial[b + 1])
        } by {
            let row = audio_row(b, frame[b]);
            assert(audio_rows_exist(frame, meta.vocab_size as int, b + 1));
            assert(row_start(row, width) + width <= table.len());
            assert(0 <= row * width) by (nonlinear_arith)
                requires
                    0 <= row,
                    0 <= width,
            ;
            assert(starts[b] == row * width);
        }
    }
}

/// A frame is embedded where every one of its codes has a row below the
/// vocabulary, which a table of eight whole sections always gives it, and the
/// values of those rows lie in the table.
pub proof fn whole_tables_embed_every_frame(len: int, meta: EmbeddingMeta, frame: Seq<i64>)
    requires
        frame.len() == 8,
        meta.vocab_size >= 8 * 2049,
        len >= meta.vocab_size * meta.hidden_size,
    ensures
        audio_rows_exist(frame, meta.vocab_size as int, 8),
        holds_audio_rows(len, meta, frame),
{
    assert forall|b: int| 0 <= b < 8 implies row_start(
        audio_row(b, #[trigger] frame[b]),
        meta.hidden_size as int,
    ) + meta.hidden_size <= len by {
        let row = audio_row(b, frame[b]);
        let vocab = meta.vocab_size as int;
        let width = meta.hidden_size as int;
        assert(row * width + width <= vocab * width) by (nonlinear_arith)
            requires
                row + 1 <= vocab,
                0 <= width,
        ;
    }
}

/// A table that holds as many whole rows as its vocabulary has tokens holds the
/// row of every token that is not refused.
pub proof fn whole_tables_hold_every_token(len: int, meta: EmbeddingMeta, ids: Seq<u32>)
    requires
        len >= meta.vocab_size * meta.hidden_size,
    ensures
        holds_text_rows(len, meta, ids),
{
    assert forall|i: int|
        0 <= i < ids.len() && in_vocab(ids.take(i + 1), meta.vocab_size as int) implies row_start(
        (#[trigger] ids[i]) as int,
        meta.hidden_size as int,
    ) + meta.hidden_size <= len by {
        let id = ids[i] as int;
        assert(ids.take(i + 1)[i] == ids[i]);
        let vocab = meta.vocab_size as int;
        let width = meta.hidden_size as int;
        assert(id * width + width <= vocab * width) by (nonlinear_arith)
            requires
                id + 1 <= vocab,
                0 <= width,
        ;
    }
}

/// The token that is refused is the first one at or beyond the vocabulary, and
/// tokens are refused only where there is one.
pub proof fn first_token_beyond_the_vocab_is_refused(ids: Seq<u32>, vocab: int, at: int)
    ensures
        is_first_outside(ids, vocab, at) <==> {
            &&& 0 <= at < ids.len()
            &&& ids[at] >= vocab
            &&& forall|i: int| 0 <= i < at ==> (#[trigger] ids[i]) < vocab
        },
        in_vocab(ids, vocab) <==> forall|i: int| 0 <= i < ids.len() ==> (#[trigger] ids[i]) < vocab,
{
    if 0 <= at < ids.len() {
        let before = ids.take(at);
        if in_vocab(before, vocab) {
            assert forall|i: int| 0 <= i < at implies (#[trigger] ids[i]) < vocab by {
                assert(before[i] == ids[i]);
            }
        }
        if forall|i: int| 0 <= i < at ==> (#[trigger] ids[i]) < vocab {
            assert forall|i: int| 0 <= i < before.len() implies (#[trigger] before[i]) < vocab by {
                assert(before[i] == ids[i]);
            }
        }
    }
}

/// A number in a weight file gives its bytes back, the lowest first.
pub proof fn word_gives_its_bytes_back(bytes: Seq<u8>, at: int)
    ensures
        0 <= word(bytes, at) < 0x1_0000_0000,
        word(bytes, at) % 0x100 == bytes[at],
        word(bytes, at) / 0x100 % 0x100 == bytes[at + 1],
        word(bytes, at) / 0x1_0000 % 0x100 == bytes[at + 2],
        word(bytes, at) / 0x100_0000 == bytes[at + 3],
{
    let n = word(bytes, at);
    let a = bytes[at] as int;
    let b = bytes[at + 1] as int;
    let c = bytes[at + 2] as int;
    let d = bytes[at + 3] as int;
    let high = b + c * 0x100 + d * 0x1_0000;
    let higher = c + d * 0x100;
    vstd::arithmetic::div_mod::lemma_fundamental_div_mod_converse(n, 0x100, high, a);
    vstd::arithmetic::div_mod::lemma_fundamental_div_mod_converse(high, 0x100, higher, b);
    vstd::arithmetic::div_mod::lemma_fundamental_div_mod_converse(higher, 0x100, d, c);
    vstd::arithmetic::div_mod::lemma_fundamental_div_mod_converse(
        n,
        0x1_0000,
        higher,
        a + b * 0x100,
    );
    vstd::arithmetic::div_mod::lemma_fundamental_div_mod_converse(
        n,
        0x100_0000,
        d,
        a + b * 0x100 + c * 0x1_0000,
    );
}

/// The codes that go to the embedding graph are rows of one table: 2049 rows for
/// every codebook before, and the code itself.
pub proof fn table_codes_are_rows_of_their_book(frame: Seq<i64>, rows: Seq<i64>, b: int)
    requires
        are_table_codes(frame, rows),
        0 <= b < 8,
        frame[b] + 2049 * b <= i64::MAX,
    ensures
        rows.len() == 8,
        rows[b] == frame[b] + 2049 * b,
{
}

/// Eight rows that lie one behind the other are summed place by place, the
/// first row first: place `i` of row `b` lies at `b` times the width of a row
/// and `i`.
pub proof fn eight_rows_are_summed_in_order<T, F: Fn(T, T) -> T>(
    plus: F,
    zero: T,
    values: Seq<T>,
    hidden: usize,
    sums: Seq<T>,
    i: int,
)
    requires
        sums_eight(plus, zero, values, hidden, sums),
        8 * hidden <= usize::MAX,
        0 <= i < hidden,
    ensures
        sums.len() == hidden,
        exists|partial: Seq<T>|
            {
                &&& #[trigger] partial.len() == 9
                &&& partial[0] == zero
                &&& partial[8] == sums[i]
                &&& forall|b: int|
                    #![trigger partial[b]]
                    0 <= b < 8 ==> plus.ensures(
                        (partial[b], values[b * hidden + i]),
                        partial[b + 1],
                    )
            },
{
    let starts = Seq::new(8, |b: int| (b * hidden) as usize);
    rows_are_summed_place_by_place(
        plus,
        zero,
        values,
        starts,
        hidden as int,
        hidden as int,
        sums,
        i,
    );
    let partial = choose|partial: Seq<T>|
        {
            &&& #[trigger] partial.len() == starts.len() + 1
            &&& partial[0] == zero
            &&& partial[starts.len() as int] == sums[i]
            &&& forall|k: int|
                #![trigger partial[k]]
                0 <= k < starts.len() ==> plus.ensures(
                    (partial[k], values[starts[k] + i]),
                    partial[k + 1],
                )
        };
    assert(partial.len() == 9);
    assert forall|b: int|
        #![trigger partial[b]]
        0 <= b < 8 implies plus.ensures((partial[b], values[b * hidden + i]), partial[b + 1]) by {
        assert(0 <= b * hidden <= 8 * hidden) by (nonlinear_arith)
            requires
                0 <= b < 8,
                0 <= hidden,
        ;
        assert(starts[b] == b * hidden);
    }
}

/// The last row is whole, begins where a row begins, and no other whole row
/// follows it.
pub proof fn last_row_is_followed_by_none(len: usize, width: usize, bounds: (usize, usize))
    requires
        0 < width <= len,
        is_last_row(len, width, bounds),
    ensures
        bounds.1 - bounds.0 == width,
        bounds.1 <= len,
        bounds.1 + width > len,
        bounds.0 as int % width as int == 0,
{
    let rows = len as int / width as int - 1;
    vstd::arithmetic::div_mod::lemma_mod_multiples_basic(rows, width as int);
}

/// A weight file holds a number in every four bytes, the lowest byte first, and
/// each number is read from its own four.
pub proof fn blob_holds_a_number_in_four_bytes(bytes: Seq<u8>, list: Seq<F32Bits>, i: int)
    requires
        is_blob(bytes, list),
        0 <= i < list.len(),
    ensures
        bytes.len() == 4 * list.len(),
        list[i].bits % 0x100 == bytes[4 * i],
        list[i].bits / 0x100 % 0x100 == bytes[4 * i + 1],
        list[i].bits / 0x1_0000 % 0x100 == bytes[4 * i + 2],
        list[i].bits / 0x100_0000 == bytes[4 * i + 3],
{
    word_gives_its_bytes_back(bytes, 4 * i);
}

/// Tokens are looked up exactly when every one of them is below the vocabulary,
/// and give one row each, in their order; otherwise the first one beyond it is
/// named.
pub proof fn tokens_are_looked_up_in_order<T>(
    table: Seq<T>,
    meta: EmbeddingMeta,
    ids: Seq<u32>,
    rows: Result<Vec<T>, NodeError>,
    i: int,
    j: int,
)
    requires
        looks_up(table, meta, ids, rows),
        table.len() >= meta.vocab_size * meta.hidden_size,
        0 <= i < ids.len(),
        0 <= j < meta.hidden_size,
    ensures
        rows is Ok <==> forall|k: int|
            0 <= k < ids.len() ==> (#[trigger] ids[k]) < meta.vocab_size,
        rows matches Ok(values) ==> {
            &&& values@.len() == ids.len() * meta.hidden_size
            &&& values@[i * meta.hidden_size + j] == table[ids[i] * meta.hidden_size + j]
        },
        rows matches Err(error) ==> exists|at: int|
            {
                &&& 0 <= at < ids.len()
                &&& #[trigger] ids[at] >= meta.vocab_size
                &&& forall|k: int| 0 <= k < at ==> (#[trigger] ids[k]) < meta.vocab_size
                &&& error == NodeError::TokenOutsideVocab(ids[at])
            },
{
    let width = meta.hidden_size as int;
    let vocab = meta.vocab_size as int;
    match rows {
        Ok(values) => {
            assert forall|k: int| 0 <= k < ids.len() implies (#[trigger] ids[k]) * width + width
                <= table.len() by {
                let id = ids[k] as int;
                assert(id * width + width <= vocab * width) by (nonlinear_arith)
                    requires
                        id + 1 <= vocab,
                        0 <= width,
                ;
            }
            rows_stand_in_the_order_of_their_tokens(table, ids, width, i, j);
        },
        Err(error) => {
            let at = choose|at: int| #[trigger]
                is_first_outside(ids, vocab, at) && error == NodeError::TokenOutsideVocab(ids[at]);
            first_token_beyond_the_vocab_is_refused(ids, vocab, at);
            assert(ids[at] >= meta.vocab_size);
        },
    }
}

/// A frame is embedded exactly when the row of every one of its codes lies below
/// the vocabulary of the table; otherwise the first row that does not is named.
pub proof fn frames_are_embedded_or_refused<T, F: Fn(T, T) -> T>(
    plus: F,
    zero: T,
    table: Seq<T>,
    meta: EmbeddingMeta,
    frame: Seq<i64>,
    hidden: int,
    sums: Result<Vec<T>, NodeError>,
)
    requires
        embeds(plus, zero, table, meta, frame, hidden, sums),
        frame.len() == 8,
    ensures
        sums is Ok <==> forall|b: int|
            0 <= b < 8 ==> 2049 * b + (if 0 <= #[trigger] frame[b] <= 2048 {
                frame[b] as int
            } else {
                2048
            }) < meta.vocab_size,
        sums matches Ok(values) ==> values@.len() == hidden,
        sums matches Err(error) ==> exists|b: int|
            {
                let row = 2049 * b + if 0 <= #[trigger] frame[b] <= 2048 {
                    frame[b] as int
                } else {
                    2048
                };
                &&& 0 <= b < 8
                &&& row >= meta.vocab_size
                &&& error == NodeError::AudioIndexOutOfRange(row as usize)
            },
{
    match sums {
        Ok(values) => {
            assert forall|b: int| 0 <= b < 8 implies 2049 * b + (if 0 <= #[trigger] frame[b]
                <= 2048 {
                frame[b] as int
            } else {
                2048
            }) < meta.vocab_size by {
                assert(audio_row(b, frame[b]) < meta.vocab_size);
            }
        },
        Err(error) => {
            let b = choose|b: int|
                #![trigger frame[b]]
                {
                    &&& 0 <= b < 8
                    &&& audio_rows_exist(frame, meta.vocab_size as int, b)
                    &&& audio_row(b, frame[b]) >= meta.vocab_size
                    &&& error == NodeError::AudioIndexOutOfRange(audio_row(b, frame[b]) as usize)
                };
            let code = frame[b];
            assert(2049 * b + (if 0 <= code <= 2048 {
                code as int
            } else {
                2048
            }) == audio_row(b, code));
        },
    }
}

} // verus!

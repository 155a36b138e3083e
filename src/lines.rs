//! The line structure of a byte sequence: what a line read returns and
//! what a sequence of line reads yields.
use vstd::prelude::*;

verus! {

/// The byte that ends a line.
pub const NEWLINE: u8 = 10;

/// The length of the line that starts at `p`: through the first newline
/// at or after `p`, or to the end where there is none. Zero at or past the
/// end.
pub open spec fn line_len(d: Seq<u8>, p: int) -> nat
    decreases d.len() - p,
{
    if p < 0 || p >= d.len() {
        0
    } else if d[p] == NEWLINE {
        1
    } else {
        1 + line_len(d, p + 1)
    }
}

/// The line that starts at `p`, its newline included; empty at or past
/// the end.
pub open spec fn line_at(d: Seq<u8>, p: int) -> Seq<u8> {
    if 0 <= p < d.len() {
        d.subrange(p, p + line_len(d, p))
    } else {
        Seq::empty()
    }
}

/// What `hint` becomes once a line of `n` bytes has been taken: a negative
/// hint sets no bound, and a bound that is reached becomes zero.
pub open spec fn hint_after(hint: int, n: nat) -> int {
    if hint < 0 {
        hint
    } else if hint > n {
        hint - n
    } else {
        0
    }
}

/// The lines read in turn from `p` until the end, or until the bytes
/// taken reach `hint` when it is not negative.
pub open spec fn lines_from(d: Seq<u8>, p: int, hint: int) -> Seq<Seq<u8>>
    decreases d.len() - p,
{
    if p < 0 || p >= d.len() || hint == 0 || line_len(d, p) == 0 || p + line_len(d, p) > d.len() {
        Seq::empty()
    } else {
        let n = line_len(d, p);
        seq![d.subrange(p, p + n)] + lines_from(d, p + n, hint_after(hint, n))
    }
}

/// The position reached once `lines_from(d, p, hint)` has been read.
pub open spec fn lines_end(d: Seq<u8>, p: int, hint: int) -> int
    decreases d.len() - p,
{
    if p < 0 || p >= d.len() || hint == 0 || line_len(d, p) == 0 || p + line_len(d, p) > d.len() {
        p
    } else {
        let n = line_len(d, p);
        lines_end(d, p + n, hint_after(hint, n))
    }
}

/// The concatenation of a sequence of byte strings.
pub open spec fn concat_all(ls: Seq<Seq<u8>>) -> Seq<u8>
    decreases ls.len(),
{
    if ls.len() == 0 {
        Seq::empty()
    } else {
        ls[0] + concat_all(ls.drop_first())
    }
}

/// A line that starts inside the content is non-empty and stays inside it.
pub proof fn lemma_line_bounds(d: Seq<u8>, p: int)
    requires
        0 <= p < d.len(),
    ensures
        1 <= line_len(d, p) <= d.len() - p,
    decreases d.len() - p,
{
    if d[p] != NEWLINE {
        if p + 1 < d.len() {
            lemma_line_bounds(d, p + 1);
        } else {
            assert(line_len(d, p + 1) == 0);
        }
    }
}

/// Where the bytes from `p` up to `e` hold no newline, the line at `p`
/// ends just after a newline at `e`, or at the end of the content.
pub proof fn lemma_line_len_at(d: Seq<u8>, p: int, e: int)
    requires
        0 <= p <= e <= d.len(),
        forall|j: int| p <= j < e ==> d[j] != NEWLINE,
    ensures
        e < d.len() && d[e] == NEWLINE ==> line_len(d, p) == e - p + 1,
        e == d.len() ==> line_len(d, p) == e - p,
    decreases e - p,
{
    if p < e {
        lemma_line_len_at(d, p + 1, e);
    }
}

/// Every byte of a line but its last is not a newline, and a line that
/// stops before the end of the content ends with one.
pub proof fn lemma_line_shape(d: Seq<u8>, p: int)
    requires
        0 <= p < d.len(),
    ensures
        forall|j: int| p <= j < p + line_len(d, p) - 1 ==> d[j] != NEWLINE,
        p + line_len(d, p) < d.len() ==> d[p + line_len(d, p) - 1] == NEWLINE,
    decreases d.len() - p,
{
    lemma_line_bounds(d, p);
    if d[p] != NEWLINE && p + 1 < d.len() {
        lemma_line_shape(d, p + 1);
    }
}

/// Reading line after line from `p` to the end gives back the content from
/// `p` exactly, and each line but the last ends with a newline.
pub proof fn lemma_lines_round_trip(d: Seq<u8>, p: int)
    requires
        0 <= p <= d.len(),
    ensures
        concat_all(lines_from(d, p, -1)) == d.subrange(p, d.len() as int),
        forall|i: int| 0 <= i < lines_from(d, p, -1).len() ==> (#[trigger] lines_from(d, p, -1)[i]).len() > 0,
        forall|i: int|
            0 <= i < lines_from(d, p, -1).len() - 1 ==> (#[trigger] lines_from(d, p, -1)[i]).last() == NEWLINE,
    decreases d.len() - p,
{
    let ls = lines_from(d, p, -1);
    if p == d.len() {
        assert(d.subrange(p, d.len() as int) =~= Seq::empty());
    } else {
        lemma_line_bounds(d, p);
        lemma_line_shape(d, p);
        let n = line_len(d, p);
        lemma_lines_round_trip(d, p + n);
        let rest = lines_from(d, p + n, -1);
        assert(hint_after(-1, n) == -1);
        assert(ls == seq![d.subrange(p, p + n)] + rest);
        assert(ls.drop_first() =~= rest);
        assert(d.subrange(p, d.len() as int) =~= d.subrange(p, p + n) + d.subrange(p + n, d.len() as int));
        assert forall|i: int| 0 <= i < ls.len() - 1 implies ls[i].last() == NEWLINE by {
            if i > 0 {
                assert(ls[i] == rest[i - 1]);
            } else {
                assert(p + n < d.len()) by {
                    if p + n == d.len() {
                        assert(rest.len() == 0);
                    }
                }
            }
        }
        assert forall|i: int| 0 <= i < ls.len() implies ls[i].len() > 0 by {
            if i > 0 {
                assert(ls[i] == rest[i - 1]);
            }
        }
    }
}

/// Reading lines in turn from inside the content is reading the line at
/// the cursor, then the lines from just after it.
pub proof fn lemma_lines_step(d: Seq<u8>, p: int, hint: int)
    requires
        0 <= p < d.len(),
        hint != 0,
    ensures
        line_at(d, p).len() > 0,
        lines_from(d, p, hint) == seq![line_at(d, p)] + lines_from(
            d,
            p + line_at(d, p).len(),
            hint_after(hint, line_at(d, p).len()),
        ),
{
    lemma_line_bounds(d, p);
}

/// Reading line after line from `p`: each line is what a line read
/// returns at the position that the lines before it have reached, and
/// once all are read a line read returns nothing.
pub proof fn lemma_readline_sequence(d: Seq<u8>, p: int)
    requires
        0 <= p <= d.len(),
    ensures
        forall|i: int|
            0 <= i < lines_from(d, p, -1).len() ==> #[trigger] lines_from(d, p, -1)[i] == line_at(
                d,
                p + concat_all(lines_from(d, p, -1).take(i)).len(),
            ),
        line_at(d, p + concat_all(lines_from(d, p, -1)).len()).len() == 0,
    decreases d.len() - p,
{
    lemma_lines_round_trip(d, p);
    let ls = lines_from(d, p, -1);
    if p < d.len() {
        lemma_line_bounds(d, p);
        let n = line_len(d, p);
        let rest = lines_from(d, p + n, -1);
        lemma_readline_sequence(d, p + n);
        assert(hint_after(-1, n) == -1);
        assert(ls == seq![d.subrange(p, p + n)] + rest);
        assert forall|i: int| 0 <= i < ls.len() implies #[trigger] ls[i] == line_at(
            d,
            p + concat_all(ls.take(i)).len(),
        ) by {
            if i == 0 {
                assert(ls.take(0) =~= Seq::<Seq<u8>>::empty());
            } else {
                assert(ls.take(i).drop_first() =~= rest.take(i - 1));
                assert(ls.take(i)[0] == ls[0]);
                assert(concat_all(ls.take(i)) == ls[0] + concat_all(rest.take(i - 1)));
                assert(ls[i] == rest[i - 1]);
            }
        }
    }
}

} // verus!

//! The file handle: a mode-gated, seekable view of one backend stream.
use vstd::prelude::*;
use crate::errors::{closed_message, decimal, kind_of, push_decimal, Error, ErrorKind, FSError, Fault};
use crate::find::{is_first_index, QuickFind};
use crate::lines::{
    hint_after, lemma_line_bounds, lemma_line_len_at, line_at, line_len, lines_end, lines_from,
    NEWLINE,
};
use crate::mode::{mode_text, Mode};
use crate::stream::{fits, overwrites, resized, SeekFrom, Stream, Tell};

verus! {

/// The scratch buffer size used when none is given.
pub const DEFAULT_BUFFER_SIZE: usize = 8192;

/// The whence values of a seek.
pub const SEEK_SET: u64 = 0;
pub const SEEK_CUR: u64 = 1;
pub const SEEK_END: u64 = 2;

/// Categories other than the handle's own refusals: those of backend
/// faults, and of arguments that the handle finds out of range.
pub open spec fn is_backend_kind(k: ErrorKind) -> bool {
    k != ErrorKind::Closed && k != ErrorKind::Unsupported
}

/// The message of a refusal of kind `k`: `mode_text` where the mode
/// forbids the operation, the closed-file message where the handle is
/// closed.
pub open spec fn refusal_text(k: ErrorKind, mode_text: Seq<char>) -> Seq<char> {
    if k == ErrorKind::Closed {
        closed_message()
    } else {
        mode_text
    }
}

/// The message of a seek whose target lies before the start.
pub open spec fn negative_seek_message() -> Seq<char> {
    "negative seek position"@
}

/// What a read of at most `limit` bytes at `p` returns.
pub open spec fn span(d: Seq<u8>, p: int, limit: int) -> Seq<u8> {
    if p >= d.len() {
        Seq::empty()
    } else if p + limit >= d.len() {
        d.subrange(p, d.len() as int)
    } else {
        d.subrange(p, p + limit)
    }
}

/// The most bytes a read of `size` may return: a negative size sets no
/// bound.
pub open spec fn read_limit(size: i64) -> int {
    if size < 0 {
        u64::MAX as int
    } else {
        size as int
    }
}

/// The position that a seek by `offset` from `whence` asks for.
pub open spec fn whence_target(offset: i64, whence: u64, pos: nat, len: nat) -> int {
    if whence == SEEK_SET {
        offset as int
    } else if whence == SEEK_CUR {
        pos + offset
    } else {
        len + offset
    }
}

/// The message of a seek with an unknown whence.
pub open spec fn whence_message(whence: u64) -> Seq<char> {
    "invalid whence ("@ + decimal(whence as nat) + ", should be 0, 1 or 2)"@
}

/// The views of a sequence of byte vectors.
pub open spec fn views(ls: Seq<Vec<u8>>) -> Seq<Seq<u8>> {
    ls.map_values(|l: Vec<u8>| l@)
}

/// `c1` and `p1` are what writing `ls` in turn from `p0` over `c0` can
/// leave, each write taking some prefix of its line.
pub open spec fn written_in_turn(c0: Seq<u8>, p0: nat, ls: Seq<Seq<u8>>, c1: Seq<u8>, p1: nat) -> bool
    decreases ls.len(),
{
    if ls.len() == 0 {
        c1 == c0 && p1 == p0
    } else {
        exists|c: Seq<u8>, p: nat, n: nat|
            #![trigger overwrites(c, c1, p, ls.last().take(n as int))]
            {
                &&& written_in_turn(c0, p0, ls.drop_last(), c, p)
                &&& n <= ls.last().len()
                &&& overwrites(c, c1, p, ls.last().take(n as int))
                &&& p1 == p + n
            }
    }
}

/// The total length of a sequence of byte strings.
pub open spec fn total_len(ls: Seq<Seq<u8>>) -> nat
    decreases ls.len(),
{
    if ls.len() == 0 {
        0
    } else {
        total_len(ls.drop_last()) + ls.last().len()
    }
}

proof fn lemma_total_len_step(ls: Seq<Seq<u8>>, i: int)
    requires
        0 <= i < ls.len(),
    ensures
        total_len(ls.take(i + 1)) == total_len(ls.take(i)) + ls[i].len(),
{
    assert(ls.take(i + 1).drop_last() =~= ls.take(i));
}

proof fn lemma_total_len_prefix(ls: Seq<Seq<u8>>, i: int)
    requires
        0 <= i <= ls.len(),
    ensures
        total_len(ls.take(i)) <= total_len(ls),
    decreases ls.len() - i,
{
    if i == ls.len() {
        assert(ls.take(i) =~= ls);
    } else {
        lemma_total_len_step(ls, i);
        lemma_total_len_prefix(ls, i + 1);
    }
}

proof fn lemma_written_step(
    c0: Seq<u8>,
    p0: nat,
    ls: Seq<Seq<u8>>,
    c: Seq<u8>,
    p: nat,
    n: nat,
    c1: Seq<u8>,
    p1: nat,
)
    requires
        ls.len() > 0,
        written_in_turn(c0, p0, ls.drop_last(), c, p),
        n <= ls.last().len(),
        overwrites(c, c1, p, ls.last().take(n as int)),
        p1 == p + n,
    ensures
        written_in_turn(c0, p0, ls, c1, p1),
{
}

fn backend_error(f: Fault) -> (e: Error)
    ensures
        e.kind == kind_of(f.code),
        e.message@ == f.description@,
        is_backend_kind(e.kind),
{
    FSError::from(f).categorize()
}

/// A failed resize surfaces as an internal error with the backend's
/// description.
fn resize_error(f: Fault) -> (e: Error)
    ensures
        e.kind == ErrorKind::Internal,
        e.message@ == f.description@,
{
    Error { kind: ErrorKind::Internal, message: f.description }
}

fn append_prefix(out: &mut Vec<u8>, buf: &Vec<u8>, m: usize)
    requires
        m <= buf@.len(),
    ensures
        final(out)@ == old(out)@ + buf@.take(m as int),
{
    let mut i: usize = 0;
    while i < m
        invariant
            i <= m,
            m <= buf@.len(),
            out@ == old(out)@ + buf@.take(i as int),
        decreases m - i,
    {
        out.push(buf[i]);
        assert(buf@.take(i + 1) =~= buf@.take(i as int).push(buf@[i as int]));
        i = i + 1;
    }
}

/// Makes one read into a scratch buffer of `buf`'s length, then copies
/// what came into the front of `buf`; the rest of `buf` stays.
fn read_into<S: Stream>(s: &mut S, buf: &mut Vec<u8>) -> (r: Result<usize, Error>)
    requires
        fits(old(s)),
    ensures
        fits(final(s)),
        final(s).faultless() == old(s).faultless(),
        final(s).room() == old(s).room(),
        final(s).content() == old(s).content(),
        old(s).faultless() ==> r is Ok,
        final(buf)@.len() == old(buf)@.len(),
        r matches Ok(n) ==> {
            &&& n <= old(buf)@.len()
            &&& final(s).position() == old(s).position() + n
            &&& n > 0 ==> old(s).position() + n <= old(s).content().len()
            &&& n > 0 ==> final(buf)@.take(n as int) == old(s).content().subrange(
                old(s).position() as int,
                old(s).position() + n,
            )
            &&& n == 0 ==> old(buf)@.len() == 0 || old(s).position() >= old(s).content().len()
            &&& final(buf)@.skip(n as int) == old(buf)@.skip(n as int)
        },
        r is Err ==> final(buf)@ == old(buf)@,
        r matches Err(e) ==> is_backend_kind(e.kind),
{
    let mut scratch: Vec<u8> = vec![0u8; buf.len()];
    let n = match s.read(&mut scratch) {
        Ok(n) => n,
        Err(f) => return Err(backend_error(f)),
    };
    let mut i: usize = 0;
    while i < n
        invariant
            i <= n,
            n <= scratch@.len(),
            scratch@.len() == old(buf)@.len(),
            buf@.len() == old(buf)@.len(),
            forall|j: int| 0 <= j < i ==> buf@[j] == scratch@[j],
            forall|j: int| i <= j < buf@.len() ==> buf@[j] == old(buf)@[j],
        decreases n - i,
    {
        buf[i] = scratch[i];
        i = i + 1;
    }
    assert(buf@.take(n as int) =~= scratch@.take(n as int));
    assert(buf@.skip(n as int) =~= old(buf)@.skip(n as int));
    Ok(n)
}

/// Reads until `limit` bytes are had or the stream ends, `chunk` bytes at
/// most per underlying read.
fn read_upto<S: Stream>(s: &mut S, limit: u64, chunk: usize, hint: usize) -> (r: Result<Vec<u8>, Error>)
    requires
        chunk > 0,
        fits(old(s)),
    ensures
        fits(final(s)),
        final(s).faultless() == old(s).faultless(),
        final(s).room() == old(s).room(),
        final(s).content() == old(s).content(),
        old(s).faultless() ==> r is Ok,
        r matches Ok(v) ==> {
            &&& v@ == span(old(s).content(), old(s).position() as int, limit as int)
            &&& final(s).position() == old(s).position() + v@.len()
        },
        r matches Err(e) ==> is_backend_kind(e.kind),
{
    let ghost d = s.content();
    let ghost p0: int = s.position() as int;
    let mut out: Vec<u8> = Vec::with_capacity(hint);
    loop
        invariant
            fits(s),
            s.faultless() == old(s).faultless(),
            s.room() == old(s).room(),
            s.content() == d,
            chunk > 0,
            out@.len() <= limit,
            s.position() == p0 + out@.len(),
            d == old(s).content(),
            p0 == old(s).position(),
            out@.len() > 0 ==> p0 + out@.len() <= d.len(),
            out@.len() > 0 ==> out@ == d.subrange(p0 as int, p0 + out@.len()),
        decreases d.len() + 1 - out@.len(),
    {
        let got = out.len();
        if got as u64 >= limit {
            return Ok(out);
        }
        let room = limit - got as u64;
        let want: usize = if room < chunk as u64 { room as usize } else { chunk };
        let mut buf: Vec<u8> = vec![0u8; want];
        let n = match s.read(&mut buf) {
            Ok(n) => n,
            Err(f) => return Err(backend_error(f)),
        };
        if n == 0 {
            return Ok(out);
        }
        let ghost q: int = p0 + out@.len();
        append_prefix(&mut out, &buf, n);
        assert(out@ =~= d.subrange(p0 as int, p0 + out@.len())) by {
            assert(d.subrange(p0 as int, p0 + out@.len()) =~= d.subrange(p0 as int, q) + d.subrange(q, q + n));
        }
        assert(out@.len() <= limit);
    }
}

/// Reads the line at the cursor, chunk by chunk, then moves the cursor to
/// just after it, wherever the chunks stopped.
fn scan_line<S: Stream>(s: &mut S, chunk: usize) -> (r: Result<Vec<u8>, Error>)
    requires
        chunk > 0,
        fits(old(s)),
    ensures
        fits(final(s)),
        final(s).faultless() == old(s).faultless(),
        final(s).room() == old(s).room(),
        final(s).content() == old(s).content(),
        old(s).faultless() ==> r is Ok,
        r matches Ok(l) ==> {
            &&& l@ == line_at(old(s).content(), old(s).position() as int)
            &&& final(s).position() == old(s).position() + l@.len()
        },
        r matches Err(e) ==> is_backend_kind(e.kind),
{
    let p0 = match s.tell() {
        Ok(p) => p,
        Err(f) => return Err(backend_error(f)),
    };
    let ghost d = s.content();
    let mut line: Vec<u8> = Vec::new();
    let mut buf: Vec<u8> = vec![0u8; chunk];
    loop
        invariant
            fits(s),
            s.faultless() == old(s).faultless(),
            s.room() == old(s).room(),
            s.content() == d,
            d == old(s).content(),
            p0 == old(s).position(),
            chunk > 0,
            buf@.len() == chunk,
            s.position() == p0 + line@.len(),
            line@.len() > 0 ==> p0 + line@.len() <= d.len(),
            line@.len() > 0 ==> line@ == d.subrange(p0 as int, p0 + line@.len()),
            forall|j: int| p0 <= j < p0 + line@.len() ==> d[j] != NEWLINE,
        decreases d.len() + 1 - line@.len(),
    {
        let ghost q: int = p0 + line@.len();
        let n = match s.read(&mut buf) {
            Ok(n) => n,
            Err(f) => return Err(backend_error(f)),
        };
        let mut done = n == 0;
        if n == 0 {
            proof {
                if line@.len() > 0 {
                    lemma_line_len_at(d, p0 as int, d.len() as int);
                }
            }
        } else {
            let found = buf.as_slice().quickfind(NEWLINE);
            assert(buf@.take(n as int) == d.subrange(q, q + n));
            assert(forall|j: int| 0 <= j < n ==> buf@[j] == #[trigger] d[q + j]) by {
                assert forall|j: int| 0 <= j < n implies buf@[j] == #[trigger] d[q + j] by {
                    assert(buf@.take(n as int)[j] == d.subrange(q, q + n)[j]);
                }
            }
            let m = match found {
                Some(k) => if k < n { k + 1 } else { n },
                None => n,
            };
            append_prefix(&mut line, &buf, m);
            assert(line@ =~= d.subrange(p0 as int, p0 + line@.len())) by {
                assert(d.subrange(p0 as int, p0 + line@.len()) =~= d.subrange(p0 as int, q) + d.subrange(q, q + m));
                if q == p0 {
                    assert(line@ =~= buf@.take(m as int));
                }
            }
            if m <= n && found == Some((m - 1) as usize) {
                done = true;
                proof {
                    let k = m - 1;
                    assert(forall|j: int| 0 <= j < k ==> buf@[j] != NEWLINE);
                    assert forall|j: int| p0 <= j < q + k implies d[j] != NEWLINE by {
                        if j >= q {
                            assert(buf@[j - q] == d[q + (j - q)]);
                        }
                    }
                    assert(d[q + k] == NEWLINE) by {
                        assert(buf@[k] == d[q + k]);
                    }
                    lemma_line_len_at(d, p0 as int, q + k);
                }
            } else {
                proof {
                    assert forall|j: int| p0 <= j < q + n implies d[j] != NEWLINE by {
                        if j >= q {
                            assert(buf@[j - q] == d[q + (j - q)]);
                            assert(is_first_index(buf@, NEWLINE, found));
                        }
                    }
                }
            }
        }
        if done {
            let end = p0 + line.len() as u64;
            match s.seek(SeekFrom::Start(end)) {
                Ok(_) => {},
                Err(f) => return Err(backend_error(f)),
            }
            assert(line@ =~= line_at(d, p0 as int));
            return Ok(line);
        }
    }
}

/// Reads lines in turn until the stream ends, or until the bytes taken
/// reach `hint` when it is not negative.
fn collect_lines<S: Stream>(s: &mut S, chunk: usize, hint: i64) -> (r: Result<Vec<Vec<u8>>, Error>)
    requires
        chunk > 0,
        fits(old(s)),
    ensures
        fits(final(s)),
        final(s).faultless() == old(s).faultless(),
        final(s).room() == old(s).room(),
        final(s).content() == old(s).content(),
        old(s).faultless() ==> r is Ok,
        r matches Ok(ls) ==> {
            &&& views(ls@) == lines_from(old(s).content(), old(s).position() as int, hint as int)
            &&& final(s).position() == lines_end(old(s).content(), old(s).position() as int, hint as int)
        },
        r matches Err(e) ==> is_backend_kind(e.kind),
{
    let ghost d = s.content();
    let ghost p0: int = s.position() as int;
    let mut lines: Vec<Vec<u8>> = Vec::new();
    let mut total: u64 = 0;
    let ghost mut room: int = hint as int;
    assert(views(lines@) =~= Seq::<Seq<u8>>::empty());
    loop
        invariant
            fits(s),
            s.faultless() == old(s).faultless(),
            s.room() == old(s).room(),
            chunk > 0,
            s.content() == d,
            d == old(s).content(),
            p0 == old(s).position(),
            s.position() == p0 + total,
            total > 0 ==> s.position() <= d.len(),
            room == (if hint < 0 { hint as int } else if hint > total { hint - total } else { 0 }),
            views(lines@) + lines_from(d, s.position() as int, room) == lines_from(d, p0, hint as int),
            lines_end(d, s.position() as int, room) == lines_end(d, p0, hint as int),
        decreases d.len() + 1 - total,
    {
        if hint >= 0 && total >= hint as u64 {
            assert(room == 0);
            assert(views(lines@) =~= views(lines@) + lines_from(d, s.position() as int, room));
            return Ok(lines);
        }
        let ghost q: int = s.position() as int;
        let line = match scan_line(s, chunk) {
            Ok(l) => l,
            Err(e) => return Err(e),
        };
        if line.len() == 0 {
            proof {
                if 0 <= q < d.len() {
                    lemma_line_bounds(d, q);
                }
            }
            assert(views(lines@) =~= views(lines@) + lines_from(d, q, room));
            return Ok(lines);
        }
        proof {
            lemma_line_bounds(d, q);
        }
        let ghost n = line_len(d, q);
        assert(lines_from(d, q, room) == seq![line@] + lines_from(d, q + n, hint_after(room, n)));
        total = total + line.len() as u64;
        let ghost before = views(lines@);
        lines.push(line);
        proof {
            room = hint_after(room, n);
            assert(views(lines@) =~= before.push(line@));
            assert(views(lines@) + lines_from(d, q + n, room) =~= before + (seq![line@] + lines_from(d, q + n, room)));
        }
    }
}

/// Writes at the cursor, commits, then puts the cursor just after what
/// was written, since a commit may move it.
fn write_at<S: Stream>(s: &mut S, data: &[u8]) -> (r: Result<usize, Error>)
    requires
        fits(old(s)),
    ensures
        fits(final(s)),
        final(s).faultless() == old(s).faultless(),
        final(s).room() == old(s).room(),
        old(s).faultless() && old(s).position() + data@.len() <= old(s).room() ==> (r matches Ok(n)
            && n == data@.len()),
        r matches Ok(n) ==> {
            &&& n <= data@.len()
            &&& overwrites(old(s).content(), final(s).content(), old(s).position(), data@.take(n as int))
            &&& final(s).position() == old(s).position() + n
        },
        r matches Err(e) ==> is_backend_kind(e.kind),
{
    let p0 = match s.tell() {
        Ok(p) => p,
        Err(f) => return Err(backend_error(f)),
    };
    let n = match s.write(data) {
        Ok(n) => n,
        Err(f) => return Err(backend_error(f)),
    };
    s.commit();
    match s.seek(SeekFrom::Start(p0 + n as u64)) {
        Ok(_) => Ok(n),
        Err(f) => Err(backend_error(f)),
    }
}

/// Commits, cuts or extends the content to `size` (the cursor position
/// when absent), and puts the cursor back where it was.
fn truncate_at<S: Stream>(s: &mut S, size: Option<u64>) -> (r: Result<u64, Error>)
    requires
        fits(old(s)),
    ensures
        fits(final(s)),
        final(s).faultless() == old(s).faultless(),
        final(s).room() == old(s).room(),
        old(s).faultless() && (match size { Some(n) => n as nat, None => old(s).position() }) <= old(s).room()
            ==> r is Ok,
        r matches Ok(len) ==> {
            &&& len == (match size { Some(n) => n as nat, None => old(s).position() })
            &&& resized(old(s).content(), final(s).content(), len as nat)
            &&& final(s).position() == old(s).position()
        },
        r matches Err(e) ==> is_backend_kind(e.kind),
{
    let p0 = match s.tell() {
        Ok(p) => p,
        Err(f) => return Err(backend_error(f)),
    };
    let len = match size {
        Some(n) => n,
        None => p0,
    };
    s.commit();
    match s.set_len(len) {
        Ok(()) => {},
        Err(f) => return Err(resize_error(f)),
    }
    match s.seek(SeekFrom::Start(p0)) {
        Ok(_) => Ok(len),
        Err(f) => Err(backend_error(f)),
    }
}

/// Writes each line in turn with `write_at`, stopping at the first
/// failure.
fn write_lines<S: Stream>(s: &mut S, lines: &Vec<Vec<u8>>) -> (r: Result<(), Error>)
    requires
        fits(old(s)),
    ensures
        fits(final(s)),
        final(s).faultless() == old(s).faultless(),
        final(s).room() == old(s).room(),
        old(s).faultless() && old(s).position() + total_len(views(lines@)) <= old(s).room() ==> (r is Ok
            && final(s).position() == old(s).position() + total_len(views(lines@))),
        r is Ok ==> written_in_turn(
            old(s).content(),
            old(s).position(),
            views(lines@),
            final(s).content(),
            final(s).position(),
        ),
        r matches Err(e) ==> is_backend_kind(e.kind),
{
    let ghost c0 = s.content();
    let ghost p0 = s.position();
    let mut i: usize = 0;
    assert(views(lines@).take(0) =~= Seq::<Seq<u8>>::empty());
    while i < lines.len()
        invariant
            fits(s),
            s.faultless() == old(s).faultless(),
            s.room() == old(s).room(),
            i <= lines@.len(),
            c0 == old(s).content(),
            p0 == old(s).position(),
            written_in_turn(c0, p0, views(lines@).take(i as int), s.content(), s.position()),
            s.faultless() && p0 + total_len(views(lines@)) <= s.room() ==> s.position() == p0 + total_len(
                views(lines@).take(i as int),
            ),
        decreases lines@.len() - i,
    {
        proof {
            lemma_total_len_step(views(lines@), i as int);
            lemma_total_len_prefix(views(lines@), i + 1);
            assert(views(lines@)[i as int] == lines@[i as int]@);
        }
        let ghost c = s.content();
        let ghost p = s.position();
        let n = match write_at(s, lines[i].as_slice()) {
            Ok(n) => n,
            Err(e) => return Err(e),
        };
        proof {
            let ls = views(lines@).take(i + 1);
            assert(ls.drop_last() =~= views(lines@).take(i as int));
            assert(ls.last() == lines@[i as int]@);
            lemma_written_step(c0, p0, ls, c, p, n as nat, s.content(), s.position());
        }
        i = i + 1;
    }
    assert(views(lines@).take(lines@.len() as int) =~= views(lines@));
    Ok(())
}

/// Seeks by `offset` from the cursor (whence 1) or the end (whence 2),
/// refusing a target before the start before the backend sees it.
fn seek_relative<S: Stream>(s: &mut S, offset: i64, whence: u64) -> (r: Result<u64, Error>)
    requires
        fits(old(s)),
        whence == SEEK_CUR || whence == SEEK_END,
    ensures
        fits(final(s)),
        final(s).faultless() == old(s).faultless(),
        final(s).room() == old(s).room(),
        final(s).content() == old(s).content(),
        r matches Ok(p) ==> {
            &&& p == whence_target(offset, whence, old(s).position(), old(s).content().len())
            &&& final(s).position() == p
        },
        whence_target(offset, whence, old(s).position(), old(s).content().len()) < 0 ==> r is Err,
        whence_target(offset, whence, old(s).position(), old(s).content().len()) < 0 && old(s).faultless()
            ==> (r matches Err(e) && e.kind == ErrorKind::InvalidArgument
            && e.message@ == negative_seek_message() && final(s).position() == old(s).position()),
        old(s).faultless() && 0 <= whence_target(offset, whence, old(s).position(), old(s).content().len())
            <= u64::MAX ==> r is Ok,
        r matches Err(e) ==> is_backend_kind(e.kind),
{
    if offset < 0 {
        let base: u64 = if whence == SEEK_CUR {
            match s.tell() {
                Ok(p) => p,
                Err(f) => return Err(backend_error(f)),
            }
        } else {
            match s.len() {
                Ok(l) => l,
                Err(f) => return Err(backend_error(f)),
            }
        };
        if (base as i128) + (offset as i128) < 0 {
            return Err(Error::new(ErrorKind::InvalidArgument, "negative seek position"));
        }
    }
    let to = if whence == SEEK_CUR {
        SeekFrom::Current(offset)
    } else {
        SeekFrom::End(offset)
    };
    match s.seek(to) {
        Ok(p) => Ok(p),
        Err(f) => Err(backend_error(f)),
    }
}

/// A file handle over one backend stream, with the access mode it was
/// opened with. The stream is released on close, for good.
pub struct File<S: Stream> {
    file: Option<S>,
    mode: Mode,
    chunk: usize,
}

impl<S: Stream> File<S> {
    /// The stream, while the handle is open.
    pub closed spec fn backend(&self) -> Option<S> {
        self.file
    }

    pub closed spec fn mode_flags(&self) -> Mode {
        self.mode
    }

    /// The size of the scratch buffer that line reads use.
    pub closed spec fn chunk_size(&self) -> nat {
        self.chunk as nat
    }

    pub closed spec fn wf(&self) -> bool {
        &&& self.chunk > 0
        &&& self.file matches Some(s) ==> fits(&s)
    }

    /// The handle as it stands once closed.
    pub closed spec fn after_close(self) -> Self {
        File { file: None, mode: self.mode, chunk: self.chunk }
    }

    pub open spec fn is_open(&self) -> bool {
        self.backend() is Some
    }

    /// The stream's content; empty once closed.
    pub open spec fn data(&self) -> Seq<u8> {
        match self.backend() {
            Some(s) => s.content(),
            None => Seq::empty(),
        }
    }

    /// The stream's cursor; zero once closed.
    pub open spec fn pos(&self) -> nat {
        match self.backend() {
            Some(s) => s.position(),
            None => 0,
        }
    }

    /// Whether the handle is open over a stream that never fails on its
    /// own account.
    pub open spec fn faultless(&self) -> bool {
        match self.backend() {
            Some(s) => s.faultless(),
            None => false,
        }
    }

    /// The largest content length the stream can hold; zero once closed.
    pub open spec fn room(&self) -> nat {
        match self.backend() {
            Some(s) => s.room(),
            None => 0,
        }
    }

    /// The mode, the scratch size, whether the handle is open and what its
    /// stream can do are as in `other`.
    pub open spec fn same_settings(&self, other: Self) -> bool {
        &&& self.mode_flags() == other.mode_flags()
        &&& self.chunk_size() == other.chunk_size()
        &&& self.is_open() == other.is_open()
        &&& self.faultless() == other.faultless()
        &&& self.room() == other.room()
    }

    /// Why a read is refused, if it is.
    pub open spec fn read_refusal(&self) -> Option<ErrorKind> {
        if !self.mode_flags().reading {
            Some(ErrorKind::Unsupported)
        } else if !self.is_open() {
            Some(ErrorKind::Closed)
        } else {
            None
        }
    }

    /// Why a write or a truncation is refused, if it is.
    pub open spec fn write_refusal(&self) -> Option<ErrorKind> {
        if !self.mode_flags().writing {
            Some(ErrorKind::Unsupported)
        } else if !self.is_open() {
            Some(ErrorKind::Closed)
        } else {
            None
        }
    }

    /// Why a seek or a tell is refused, if it is: only a closed handle
    /// refuses them.
    pub open spec fn seek_refusal(&self) -> Option<ErrorKind> {
        if !self.is_open() {
            Some(ErrorKind::Closed)
        } else {
            None
        }
    }

    /// Wraps an open stream, with the default scratch size.
    pub fn new(file: S, mode: Mode) -> (f: File<S>)
        requires
            fits(&file),
        ensures
            f.wf(),
            f.backend() == Some(file),
            f.mode_flags() == mode,
            f.chunk_size() == DEFAULT_BUFFER_SIZE,
    {
        File { file: Some(file), mode, chunk: DEFAULT_BUFFER_SIZE }
    }

    /// Wraps an open stream, with a scratch buffer of `chunk` bytes.
    pub fn with_chunk_size(file: S, mode: Mode, chunk: usize) -> (f: File<S>)
        requires
            fits(&file),
            chunk > 0,
        ensures
            f.wf(),
            f.backend() == Some(file),
            f.mode_flags() == mode,
            f.chunk_size() == chunk,
    {
        File { file: Some(file), mode, chunk }
    }

    /// The stream, while the handle is open.
    pub fn stream(&self) -> (r: Option<&S>)
        ensures
            r matches Some(s) ==> self.backend() == Some(*s),
            r is None <==> !self.is_open(),
    {
        match &self.file {
            Some(s) => Some(s),
            None => None,
        }
    }

    /// The canonical mode string of the handle.
    pub fn mode(&self) -> (m: String)
        ensures
            m@ == mode_text(self.mode_flags()),
    {
        self.mode.mode_string()
    }

    pub fn closed(&self) -> (r: bool)
        ensures
            r == !self.is_open(),
    {
        self.file.is_none()
    }

    /// Releases the stream. Closing a closed handle does nothing.
    pub fn close(&mut self)
        ensures
            *final(self) == old(self).after_close(),
            !final(self).is_open(),
            final(self).mode_flags() == old(self).mode_flags(),
            final(self).chunk_size() == old(self).chunk_size(),
            old(self).wf() ==> final(self).wf(),
    {
        self.file = None;
    }

    pub fn fileno(&self) -> (r: Result<(), Error>)
        ensures
            r matches Err(e) && e.kind == ErrorKind::Unsupported,
    {
        Err(Error::new(ErrorKind::Unsupported, "fileno"))
    }

    /// There is nothing to flush: writes are committed as they are made.
    pub fn flush(&mut self) -> (r: Result<(), Error>)
        ensures
            r is Ok,
            *final(self) == *old(self),
    {
        Ok(())
    }

    pub fn isatty(&self) -> (r: bool)
        ensures
            !r,
    {
        false
    }

    pub fn readable(&self) -> (r: bool)
        ensures
            r == self.mode_flags().reading,
    {
        self.mode.reading
    }

    pub fn writable(&self) -> (r: bool)
        ensures
            r == self.mode_flags().writing,
    {
        self.mode.writing
    }

    pub fn seekable(&self) -> (r: bool)
        ensures
            r,
    {
        true
    }

    /// Reads `size` bytes, fewer only at the end of the stream; a negative
    /// size reads to the end.
    pub fn read(&mut self, size: i64) -> (r: Result<Vec<u8>, Error>)
        requires
            old(self).wf(),
        ensures
            final(self).wf(),
            final(self).same_settings(*old(self)),
            old(self).read_refusal() matches Some(k) ==> {
                &&& r matches Err(e) && e.kind == k && e.message@ == refusal_text(k, "not readable"@)
                &&& *final(self) == *old(self)
            },
            old(self).read_refusal() is None ==> {
                &&& final(self).data() == old(self).data()
                &&& old(self).faultless() ==> r is Ok
                &&& r matches Ok(v) ==> {
                    &&& v@ == span(old(self).data(), old(self).pos() as int, read_limit(size))
                    &&& final(self).pos() == old(self).pos() + v@.len()
                }
                &&& r matches Err(e) ==> is_backend_kind(e.kind)
            },
    {
        if !self.mode.reading {
            return Err(Error::new(ErrorKind::Unsupported, "not readable"));
        }
        let chunk = self.chunk;
        match &mut self.file {
            Some(s) => {
                let limit: u64 = if size < 0 { u64::MAX } else { size as u64 };
                let hint: usize = if size >= 0 {
                    if limit < chunk as u64 { limit as usize } else { chunk }
                } else {
                    match s.len() {
                        Ok(l) => if l <= usize::MAX as u64 { l as usize } else { 0 },
                        Err(_) => 0,
                    }
                };
                read_upto(s, limit, chunk, hint)
            },
            None => Err(Error::closed()),
        }
    }

    /// Makes one underlying read into the front of `buf` and returns how
    /// many bytes it holds.
    pub fn readinto(&mut self, buf: &mut Vec<u8>) -> (r: Result<usize, Error>)
        requires
            old(self).wf(),
        ensures
            final(self).wf(),
            final(self).same_settings(*old(self)),
            final(buf)@.len() == old(buf)@.len(),
            old(self).read_refusal() matches Some(k) ==> {
                &&& r matches Err(e) && e.kind == k && e.message@ == refusal_text(k, "not readable"@)
                &&& *final(self) == *old(self)
                &&& final(buf)@ == old(buf)@
            },
            old(self).read_refusal() is None ==> {
                &&& final(self).data() == old(self).data()
                &&& old(self).faultless() ==> r is Ok
                &&& r matches Ok(n) ==> {
                    &&& n <= old(buf)@.len()
                    &&& final(self).pos() == old(self).pos() + n
                    &&& n > 0 ==> old(self).pos() + n <= old(self).data().len()
                    &&& n > 0 ==> final(buf)@.take(n as int) == old(self).data().subrange(
                        old(self).pos() as int,
                        old(self).pos() + n,
                    )
                    &&& n == 0 ==> old(buf)@.len() == 0 || old(self).pos() >= old(self).data().len()
                    &&& final(buf)@.skip(n as int) == old(buf)@.skip(n as int)
                }
                &&& r is Err ==> final(buf)@ == old(buf)@
                &&& r matches Err(e) ==> is_backend_kind(e.kind)
            },
    {
        if !self.mode.reading {
            return Err(Error::new(ErrorKind::Unsupported, "not readable"));
        }
        match &mut self.file {
            Some(s) => read_into(s, buf),
            None => Err(Error::closed()),
        }
    }

    /// Reads the next line, its newline included; what is left where no
    /// newline follows; empty at the end. The cursor ends just after the
    /// line, whatever the scratch size.
    pub fn readline(&mut self) -> (r: Result<Vec<u8>, Error>)
        requires
            old(self).wf(),
        ensures
            final(self).wf(),
            final(self).same_settings(*old(self)),
            old(self).read_refusal() matches Some(k) ==> {
                &&& r matches Err(e) && e.kind == k && e.message@ == refusal_text(k, "not readable"@)
                &&& *final(self) == *old(self)
            },
            old(self).read_refusal() is None ==> {
                &&& final(self).data() == old(self).data()
                &&& old(self).faultless() ==> r is Ok
                &&& r matches Ok(l) ==> {
                    &&& l@ == line_at(old(self).data(), old(self).pos() as int)
                    &&& final(self).pos() == old(self).pos() + l@.len()
                }
                &&& r matches Err(e) ==> is_backend_kind(e.kind)
            },
    {
        if !self.mode.reading {
            return Err(Error::new(ErrorKind::Unsupported, "not readable"));
        }
        let chunk = self.chunk;
        match &mut self.file {
            Some(s) => scan_line(s, chunk),
            None => Err(Error::closed()),
        }
    }

    /// Reads lines until the end, or until the bytes read reach `hint`
    /// when it is not negative.
    pub fn readlines(&mut self, hint: i64) -> (r: Result<Vec<Vec<u8>>, Error>)
        requires
            old(self).wf(),
        ensures
            final(self).wf(),
            final(self).same_settings(*old(self)),
            old(self).read_refusal() matches Some(k) ==> {
                &&& r matches Err(e) && e.kind == k && e.message@ == refusal_text(k, "not readable"@)
                &&& *final(self) == *old(self)
            },
            old(self).read_refusal() is None ==> {
                &&& final(self).data() == old(self).data()
                &&& old(self).faultless() ==> r is Ok
                &&& r matches Ok(ls) ==> {
                    &&& views(ls@) == lines_from(old(self).data(), old(self).pos() as int, hint as int)
                    &&& final(self).pos() == lines_end(old(self).data(), old(self).pos() as int, hint as int)
                }
                &&& r matches Err(e) ==> is_backend_kind(e.kind)
            },
    {
        if !self.mode.reading {
            return Err(Error::new(ErrorKind::Unsupported, "not readable"));
        }
        let chunk = self.chunk;
        match &mut self.file {
            Some(s) => collect_lines(s, chunk, hint),
            None => Err(Error::closed()),
        }
    }

    /// The next line of an iteration over the handle: `None` at the end.
    pub fn next_line(&mut self) -> (r: Result<Option<Vec<u8>>, Error>)
        requires
            old(self).wf(),
        ensures
            final(self).wf(),
            final(self).same_settings(*old(self)),
            old(self).read_refusal() matches Some(k) ==> {
                &&& r matches Err(e) && e.kind == k && e.message@ == refusal_text(k, "not readable"@)
                &&& *final(self) == *old(self)
            },
            old(self).read_refusal() is None ==> {
                &&& final(self).data() == old(self).data()
                &&& old(self).faultless() ==> r is Ok
                &&& r matches Ok(None) ==> {
                    &&& line_at(old(self).data(), old(self).pos() as int).len() == 0
                    &&& final(self).pos() == old(self).pos()
                }
                &&& r matches Ok(Some(l)) ==> {
                    &&& l@ == line_at(old(self).data(), old(self).pos() as int)
                    &&& l@.len() > 0
                    &&& final(self).pos() == old(self).pos() + l@.len()
                }
                &&& r matches Err(e) ==> is_backend_kind(e.kind)
            },
    {
        let line = self.readline()?;
        if line.len() == 0 {
            Ok(None)
        } else {
            Ok(Some(line))
        }
    }

    /// Writes `data` at the cursor and commits it; the cursor ends just
    /// after what was written. Returns how many bytes were written.
    pub fn write(&mut self, data: &[u8]) -> (r: Result<usize, Error>)
        requires
            old(self).wf(),
        ensures
            final(self).wf(),
            final(self).same_settings(*old(self)),
            old(self).write_refusal() matches Some(k) ==> {
                &&& r matches Err(e) && e.kind == k && e.message@ == refusal_text(k, "not writable"@)
                &&& *final(self) == *old(self)
            },
            old(self).write_refusal() is None ==> {
                &&& old(self).faultless() && old(self).pos() + data@.len() <= old(self).room() ==> (r matches Ok(n)
                    && n == data@.len())
                &&& r matches Ok(n) ==> {
                    &&& n <= data@.len()
                    &&& overwrites(old(self).data(), final(self).data(), old(self).pos(), data@.take(n as int))
                    &&& final(self).pos() == old(self).pos() + n
                }
                &&& r matches Err(e) ==> is_backend_kind(e.kind)
            },
    {
        if !self.mode.writing {
            return Err(Error::new(ErrorKind::Unsupported, "not writable"));
        }
        match &mut self.file {
            Some(s) => write_at(s, data),
            None => Err(Error::closed()),
        }
    }

    /// Writes each line in turn, as `write` does, stopping at the first
    /// failure.
    pub fn writelines(&mut self, lines: &Vec<Vec<u8>>) -> (r: Result<(), Error>)
        requires
            old(self).wf(),
        ensures
            final(self).wf(),
            final(self).same_settings(*old(self)),
            old(self).write_refusal() matches Some(k) ==> {
                &&& r matches Err(e) && e.kind == k && e.message@ == refusal_text(k, "not writable"@)
                &&& *final(self) == *old(self)
            },
            old(self).write_refusal() is None ==> {
                &&& old(self).faultless() && old(self).pos() + total_len(views(lines@)) <= old(self).room() ==> (r is Ok
                    && final(self).pos() == old(self).pos() + total_len(views(lines@)))
                &&& r is Ok ==> written_in_turn(
                    old(self).data(),
                    old(self).pos(),
                    views(lines@),
                    final(self).data(),
                    final(self).pos(),
                )
                &&& r matches Err(e) ==> is_backend_kind(e.kind)
            },
    {
        if !self.mode.writing {
            return Err(Error::new(ErrorKind::Unsupported, "not writable"));
        }
        match &mut self.file {
            Some(s) => write_lines(s, lines),
            None => Err(Error::closed()),
        }
    }

    /// Cuts or extends the content to `size` bytes, or to the cursor
    /// position when `size` is absent, and returns the new length. The
    /// cursor does not move.
    pub fn truncate(&mut self, size: Option<u64>) -> (r: Result<u64, Error>)
        requires
            old(self).wf(),
        ensures
            final(self).wf(),
            final(self).same_settings(*old(self)),
            old(self).write_refusal() matches Some(k) ==> {
                &&& r matches Err(e) && e.kind == k && e.message@ == refusal_text(k, "not writable"@)
                &&& *final(self) == *old(self)
            },
            old(self).write_refusal() is None ==> {
                &&& old(self).faultless() && (match size { Some(n) => n as nat, None => old(self).pos() })
                    <= old(self).room() ==> r is Ok
                &&& r matches Ok(len) ==> {
                    &&& len == (match size { Some(n) => n as nat, None => old(self).pos() })
                    &&& resized(old(self).data(), final(self).data(), len as nat)
                    &&& final(self).pos() == old(self).pos()
                }
                &&& r matches Err(e) ==> is_backend_kind(e.kind)
            },
    {
        if !self.mode.writing {
            return Err(Error::new(ErrorKind::Unsupported, "not writable"));
        }
        match &mut self.file {
            Some(s) => truncate_at(s, size),
            None => Err(Error::closed()),
        }
    }

    /// Moves the cursor by `offset` from the start, the cursor or the end
    /// (whence 0, 1 or 2) and returns the new position. Allowed in every
    /// mode; the position may lie past the end.
    pub fn seek(&mut self, offset: i64, whence: u64) -> (r: Result<u64, Error>)
        requires
            old(self).wf(),
        ensures
            final(self).wf(),
            final(self).same_settings(*old(self)),
            old(self).seek_refusal() matches Some(k) ==> {
                &&& r matches Err(e) && e.kind == k && e.message@ == closed_message()
                &&& *final(self) == *old(self)
            },
            old(self).is_open() && whence > SEEK_END ==> {
                &&& r matches Err(e) && e.kind == ErrorKind::InvalidArgument && e.message@ == whence_message(whence)
                &&& *final(self) == *old(self)
            },
            old(self).is_open() && whence == SEEK_SET && offset < 0 ==> {
                &&& r matches Err(e) && e.kind == ErrorKind::InvalidArgument && e.message@ == negative_seek_message()
                &&& *final(self) == *old(self)
            },
            old(self).is_open() && whence <= SEEK_END && !(whence == SEEK_SET && offset < 0) ==> {
                &&& final(self).data() == old(self).data()
                &&& r matches Ok(p) ==> {
                    &&& p == whence_target(offset, whence, old(self).pos(), old(self).data().len())
                    &&& final(self).pos() == p
                }
                &&& whence_target(offset, whence, old(self).pos(), old(self).data().len()) < 0 ==> r is Err
                &&& whence_target(offset, whence, old(self).pos(), old(self).data().len()) < 0 && old(self).faultless()
                    ==> (r matches Err(e) && e.kind == ErrorKind::InvalidArgument
                    && e.message@ == negative_seek_message() && final(self).pos() == old(self).pos())
                &&& old(self).faultless() && 0 <= whence_target(offset, whence, old(self).pos(), old(self).data().len())
                    <= u64::MAX ==> r is Ok
                &&& r matches Err(e) ==> is_backend_kind(e.kind)
            },
    {
        if self.file.is_none() {
            return Err(Error::closed());
        }
        if whence > SEEK_END {
            let mut message = "invalid whence (".to_owned();
            push_decimal(&mut message, whence);
            message.append(", should be 0, 1 or 2)");
            return Err(Error { kind: ErrorKind::InvalidArgument, message });
        }
        if whence == SEEK_SET && offset < 0 {
            return Err(Error::new(ErrorKind::InvalidArgument, "negative seek position"));
        }
        match &mut self.file {
            Some(s) => {
                if whence == SEEK_SET {
                    match s.seek(SeekFrom::Start(offset as u64)) {
                        Ok(p) => Ok(p),
                        Err(f) => Err(backend_error(f)),
                    }
                } else {
                    seek_relative(s, offset, whence)
                }
            },
            None => Err(Error::closed()),
        }
    }

    /// The cursor position.
    pub fn tell(&mut self) -> (r: Result<u64, Error>)
        requires
            old(self).wf(),
        ensures
            final(self).wf(),
            final(self).same_settings(*old(self)),
            old(self).seek_refusal() matches Some(k) ==> {
                &&& r matches Err(e) && e.kind == k && e.message@ == closed_message()
                &&& *final(self) == *old(self)
            },
            old(self).is_open() ==> {
                &&& final(self).data() == old(self).data()
                &&& old(self).faultless() ==> r is Ok
                &&& r matches Ok(p) ==> p == old(self).pos() && final(self).pos() == p
                &&& r matches Err(e) ==> is_backend_kind(e.kind)
            },
    {
        match &mut self.file {
            Some(s) => match s.tell() {
                Ok(p) => Ok(p),
                Err(f) => Err(backend_error(f)),
            },
            None => Err(Error::closed()),
        }
    }

    /// A well-formed handle's content length and cursor fit in `u64`, and
    /// its scratch buffer is not empty.
    pub proof fn lemma_wf_fits(self)
        requires
            self.wf(),
        ensures
            self.data().len() <= u64::MAX,
            self.pos() <= u64::MAX,
            self.chunk_size() > 0,
    {
    }

    /// Closing twice leaves the handle as closing once does.
    pub proof fn lemma_close_idempotent(self)
        ensures
            self.after_close().after_close() == self.after_close(),
            !self.after_close().is_open(),
            self.after_close().mode_flags() == self.mode_flags(),
    {
    }

    /// A closed handle refuses every read, write, truncation, seek and
    /// tell that its mode allows with `Closed`.
    pub proof fn lemma_closed_refuses(self)
        requires
            !self.is_open(),
        ensures
            self.mode_flags().reading ==> self.read_refusal() == Some(ErrorKind::Closed),
            self.mode_flags().writing ==> self.write_refusal() == Some(ErrorKind::Closed),
            self.seek_refusal() == Some(ErrorKind::Closed),
    {
    }
} // impl File

} // verus!

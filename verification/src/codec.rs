//! Line-framing codec: turns an accumulated byte stream into discrete
//! protocol lines and frames outgoing lines with CR LF. Incoming lines
//! may end in a bare LF or in CR LF; outgoing lines always end in CR LF.

use vstd::prelude::*;

use crate::search::find_first;
use crate::search::lemma_find_first;
use crate::search::lemma_find_first_at;

verus! {

/// The carriage-return byte.
pub const CR: u8 = 13;

/// The line-feed byte.
pub const LF: u8 = 10;

/// Fatal decoding failure: the connection must be torn down.
pub enum CodecError {
    /// More bytes than the configured maximum accumulated without a
    /// complete line.
    MaxLineLengthExceeded,
}

/// A line with its terminator removed: the bytes before the LF, less
/// one trailing CR if present.
pub open spec fn strip_cr(line: Seq<u8>) -> Seq<u8> {
    if line.len() > 0 && line.last() == CR {
        line.drop_last()
    } else {
        line
    }
}

/// The next line framed in `avail`, with what follows it: the bytes
/// before the first LF (less a trailing CR) and the bytes after that
/// LF. `None` when no LF is buffered.
pub open spec fn spec_decode_line(avail: Seq<u8>) -> Option<(Seq<u8>, Seq<u8>)> {
    match find_first(avail, LF) {
        Some(i) => Some((strip_cr(avail.take(i)), avail.skip(i + 1))),
        None => None,
    }
}

/// One decoding step over the accumulated bytes `avail` under maximum
/// line length `max`: the outcome (a line, nothing yet, or the fatal
/// too-long failure) and the bytes still pending afterwards.
pub open spec fn spec_decode(avail: Seq<u8>, max: int) -> (Result<Option<Seq<u8>>, ()>, Seq<u8>) {
    match spec_decode_line(avail) {
        Some(pair) => if pair.0.len() <= max {
            (Ok(Some(pair.0)), pair.1)
        } else {
            (Err(()), avail)
        },
        None => if avail.len() > max {
            (Err(()), avail)
        } else {
            (Ok(None), avail)
        },
    }
}

/// Line codec of the ingress layer. It owns the growable accumulation
/// of not-yet-consumed bytes; the caller feeds raw bytes in and takes
/// framed lines out.
pub struct IRCLinesCodec {
    max_length: usize,
    buffer: Vec<u8>,
}

impl IRCLinesCodec {
    /// The configured maximum line length.
    pub closed spec fn max_spec(&self) -> int {
        self.max_length as int
    }

    /// The not-yet-consumed bytes accumulated so far.
    pub closed spec fn pending(&self) -> Seq<u8> {
        self.buffer@
    }

    /// A fresh codec with nothing buffered and the given maximum line
    /// length.
    pub fn new_with_max_length(max_length: usize) -> (r: IRCLinesCodec)
        ensures
            r.max_spec() == max_length,
            r.pending() == Seq::<u8>::empty(),
    {
        IRCLinesCodec { max_length, buffer: Vec::new() }
    }

    /// Appends `line` followed by CR LF to `buf`. The line's content is
    /// not inspected: keeping terminator bytes out of it is the
    /// caller's responsibility.
    pub fn encode(&self, line: &[u8], buf: &mut Vec<u8>)
        ensures
            final(buf)@ == old(buf)@ + line@ + seq![CR, LF],
    {
        buf.extend_from_slice(line);
        buf.push(CR);
        buf.push(LF);
        proof {
            assert(buf@ =~= old(buf)@ + line@ + seq![CR, LF]);
        }
    }

    /// Consumes all of `buf` into the internal accumulation, then
    /// frames the next line if one is complete: `Ok(Some(line))` for a
    /// complete line no longer than the maximum, `Ok(None)` when more
    /// bytes are needed, and the fatal too-long failure when the
    /// accumulation outgrows the maximum without a terminator or the
    /// framed line is longer than the maximum.
    pub fn decode(&mut self, buf: &mut Vec<u8>) -> (r: Result<Option<Vec<u8>>, CodecError>)
        ensures
            ({
                let step = spec_decode(old(self).pending() + old(buf)@, old(self).max_spec());
                &&& final(buf)@ == Seq::<u8>::empty()
                &&& final(self).max_spec() == old(self).max_spec()
                &&& final(self).pending() == step.1
                &&& match r {
                    Ok(Some(v)) => step.0 == Ok::<Option<Seq<u8>>, ()>(Some(v@)),
                    Ok(None) => step.0 == Ok::<Option<Seq<u8>>, ()>(None),
                    Err(_) => step.0 is Err,
                }
            }),
    {
        self.buffer.append(buf);
        let ghost avail = self.buffer@;
        let n = self.buffer.len();
        match find_byte(&self.buffer, LF) {
            Some(i) => {
                proof {
                    lemma_find_first(avail, LF);
                    assert(i < n);
                }
                let end: usize = if i > 0 && self.buffer[i - 1] == CR {
                    i - 1
                } else {
                    i
                };
                proof {
                    assert(avail.take(i as int).len() == i);
                    if i > 0 {
                        assert(avail.take(i as int).last() == avail[i - 1]);
                    }
                    assert(strip_cr(avail.take(i as int)) =~= avail.take(end as int));
                }
                if end > self.max_length {
                    return Err(CodecError::MaxLineLengthExceeded);
                }
                let line = copy_range(&self.buffer, 0, end);
                proof {
                    assert(line@ =~= avail.take(end as int));
                }
                let rest = self.buffer.split_off(i + 1);
                self.buffer = rest;
                proof {
                    assert(self.buffer@ =~= avail.skip(i as int + 1));
                }
                Ok(Some(line))
            },
            None => {
                proof {
                    lemma_find_first(avail, LF);
                }
                if self.buffer.len() > self.max_length {
                    Err(CodecError::MaxLineLengthExceeded)
                } else {
                    Ok(None)
                }
            },
        }
    }
}

/// Position of the first occurrence of `b` in `v`, or `None`.
fn find_byte(v: &Vec<u8>, b: u8) -> (r: Option<usize>)
    ensures
        match r {
            Some(i) => find_first(v@, b) == Some(i as int),
            None => find_first(v@, b) is None,
        },
{
    let n = v.len();
    let mut i: usize = 0;
    while i < n
        invariant
            n == v@.len(),
            i <= n,
            forall|j: int| 0 <= j < i ==> v@[j] != b,
        decreases n - i,
    {
        if v[i] == b {
            proof {
                lemma_find_first_at(v@, b, i as int);
            }
            return Some(i);
        }
        i += 1;
    }
    proof {
        lemma_find_first(v@, b);
        if find_first(v@, b) is Some {
            let j = find_first(v@, b)->Some_0;
            assert(v@[j] == b);
        }
    }
    None
}

/// A copy of `v[from..to]`.
fn copy_range(v: &Vec<u8>, from: usize, to: usize) -> (r: Vec<u8>)
    requires
        from <= to <= v@.len(),
    ensures
        r@ == v@.subrange(from as int, to as int),
{
    let mut r: Vec<u8> = Vec::new();
    let mut k: usize = from;
    while k < to
        invariant
            from <= k <= to <= v@.len(),
            r@ == v@.subrange(from as int, k as int),
        decreases to - k,
    {
        r.push(v[k]);
        proof {
            assert(r@ =~= v@.subrange(from as int, k as int + 1));
        }
        k += 1;
    }
    r
}

/// Round trip: a line holding no LF, once framed by `encode`, is given
/// back whole by one decoding step, with nothing left pending, whenever
/// it is no longer than the configured maximum.
pub proof fn lemma_codec_round_trip(line: Seq<u8>, max: int)
    requires
        !line.contains(LF),
        line.len() <= max,
    ensures
        spec_decode(line + seq![CR, LF], max) == (
            Ok::<Option<Seq<u8>>, ()>(Some(line)),
            Seq::<u8>::empty(),
        ),
{
    let avail = line + seq![CR, LF];
    assert(avail[line.len() as int + 1] == LF);
    assert forall|j: int| 0 <= j < line.len() as int + 1 implies avail[j] != LF by {
        if j < line.len() {
            assert(avail[j] == line[j]);
            assert(!line.contains(LF) ==> line[j] != LF);
        } else {
            assert(avail[j] == CR);
        }
    }
    lemma_find_first_at(avail, LF, line.len() as int + 1);
    assert(avail.take(line.len() as int + 1).last() == CR);
    assert(strip_cr(avail.take(line.len() as int + 1)) =~= line);
    assert(avail.skip(line.len() as int + 2) =~= Seq::<u8>::empty());
}

/// Boundary, accepting side: a line of exactly the configured maximum
/// length, terminated by LF, decodes successfully in one step.
pub proof fn lemma_codec_exact_max(line: Seq<u8>, max: int)
    requires
        !line.contains(LF),
        line.len() == max,
    ensures
        spec_decode(line + seq![LF], max).0 == Ok::<Option<Seq<u8>>, ()>(Some(strip_cr(line))),
{
    let avail = line + seq![LF];
    assert(avail[line.len() as int] == LF);
    assert forall|j: int| 0 <= j < line.len() implies avail[j] != LF by {
        assert(avail[j] == line[j]);
        assert(!line.contains(LF) ==> line[j] != LF);
    }
    lemma_find_first_at(avail, LF, line.len() as int);
    assert(avail.take(line.len() as int) =~= line);
    assert(strip_cr(line).len() <= line.len());
}

/// Boundary, failing side: one unterminated byte beyond the maximum is
/// fatal — a terminator-free accumulation longer than the maximum
/// yields the too-long outcome.
pub proof fn lemma_codec_too_long(avail: Seq<u8>, max: int)
    requires
        !avail.contains(LF),
        avail.len() > max,
    ensures
        spec_decode(avail, max).0 is Err,
{
    lemma_find_first(avail, LF);
    if find_first(avail, LF) is Some {
        let j = find_first(avail, LF)->Some_0;
        assert(avail[j] == LF);
    }
}

} // verus!

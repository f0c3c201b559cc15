//! The batching core: grouping consecutive lines into batches whose total
//! byte size stays below a configured threshold.
//!
//! The mathematical model is [`batches_of`]: given the sequence of all lines
//! of the input and the threshold, it yields the sequence of batches that a
//! run produces. The executable side is [`Batcher`], which consumes lines one
//! at a time and emits each batch as soon as it is complete, and
//! [`batch_lines`], which runs a whole line sequence through a `Batcher`.

use vstd::prelude::*;

verus! {

/// The default batch-size threshold, chosen to stay under the collector's
/// payload limit.
pub const DEFAULT_MAX_BYTES: usize = 1024 * 950;

/// Byte length of one line: the length of its UTF-8 encoding.
pub open spec fn line_len(s: Seq<char>) -> nat {
    vstd::utf8::encode_utf8(s).len()
}

/// Sum of the byte lengths of a sequence of lines.
pub open spec fn sum_len(lines: Seq<Seq<char>>) -> nat
    decreases lines.len(),
{
    if lines.len() == 0 {
        0
    } else {
        line_len(lines.first()) + sum_len(lines.drop_first())
    }
}

/// The views of a sequence of owned strings.
pub open spec fn views_of(lines: Seq<String>) -> Seq<Seq<char>> {
    lines.map_values(|s: String| s@)
}

/// What a well-formed batch looks like: non-empty, and under the threshold
/// unless it is a single line that alone reaches the threshold. An oversized
/// line is never split; it travels as a one-line batch.
pub open spec fn batch_ok(b: Seq<Seq<char>>, max: nat) -> bool {
    &&& 0 < b.len()
    &&& (sum_len(b) < max || (b.len() == 1 && max <= line_len(b[0])))
}

/// The batches formed from `lines` when `acc` has already been accumulated
/// (in order, before all of `lines`) toward the batch currently being built.
///
/// A line is appended to the open batch only while the running total stays
/// strictly below `max`; the first line of a batch is always accepted, so a
/// line of `max` bytes or more forms a batch by itself.
pub open spec fn batches_from(lines: Seq<Seq<char>>, max: nat, acc: Seq<Seq<char>>) -> Seq<
    Seq<Seq<char>>,
>
    decreases lines.len(),
{
    if lines.len() == 0 {
        if acc.len() == 0 {
            Seq::empty()
        } else {
            seq![acc]
        }
    } else {
        let l = lines.first();
        if acc.len() == 0 {
            batches_from(lines.drop_first(), max, seq![l])
        } else if sum_len(acc) + line_len(l) < max {
            batches_from(lines.drop_first(), max, acc.push(l))
        } else {
            seq![acc] + batches_from(lines.drop_first(), max, seq![l])
        }
    }
}

/// The batches that a complete run over `lines` produces.
pub open spec fn batches_of(lines: Seq<Seq<char>>, max: nat) -> Seq<Seq<Seq<char>>> {
    batches_from(lines, max, Seq::empty())
}

/// The request body of one batch: each line followed by a newline.
pub open spec fn body_of(b: Seq<Seq<char>>) -> Seq<char>
    decreases b.len(),
{
    if b.len() == 0 {
        Seq::empty()
    } else {
        b.first() + seq!['\n'] + body_of(b.drop_first())
    }
}

/// The byte length of a string, tied to the model's [`line_len`].
pub fn byte_len(s: &String) -> (n: usize)
    ensures
        n == line_len(s@),
{
    s.as_str().as_bytes().len()
}

/// Appending a line adds its length to the sum.
pub proof fn lemma_sum_len_push(lines: Seq<Seq<char>>, l: Seq<char>)
    ensures
        sum_len(lines.push(l)) == sum_len(lines) + line_len(l),
    decreases lines.len(),
{
    assert(lines.push(l).first() == lines.push(l)[0]);
    if lines.len() == 0 {
        assert(lines.push(l)[0] == l);
        assert(lines.push(l).drop_first() =~= Seq::<Seq<char>>::empty());
        assert(sum_len(Seq::<Seq<char>>::empty()) == 0);
    } else {
        assert(lines.push(l)[0] == lines[0]);
        assert(lines.push(l).drop_first() =~= lines.drop_first().push(l));
        lemma_sum_len_push(lines.drop_first(), l);
    }
}

/// A one-line sequence weighs just that line.
pub proof fn lemma_sum_len_singleton(l: Seq<char>)
    ensures
        sum_len(seq![l]) == line_len(l),
{
    assert(seq![l].first() == l);
    assert(seq![l].drop_first() =~= Seq::<Seq<char>>::empty());
    assert(sum_len(Seq::<Seq<char>>::empty()) == 0);
}

proof fn lemma_batches_from_flatten(lines: Seq<Seq<char>>, max: nat, acc: Seq<Seq<char>>)
    ensures
        batches_from(lines, max, acc).flatten() == acc + lines,
    decreases lines.len(),
{
    if lines.len() == 0 {
        if acc.len() == 0 {
            assert(batches_from(lines, max, acc).flatten() =~= acc + lines);
        } else {
            let r = seq![acc];
            assert(r.first() == acc);
            assert(r.drop_first() =~= Seq::<Seq<Seq<char>>>::empty());
            assert(Seq::<Seq<Seq<char>>>::empty().flatten() =~= Seq::<Seq<char>>::empty());
            assert(r.flatten() =~= acc + lines);
        }
    } else {
        let l = lines.first();
        let rest = lines.drop_first();
        if acc.len() == 0 {
            lemma_batches_from_flatten(rest, max, seq![l]);
            assert(seq![l] + rest =~= lines);
            assert(acc + lines =~= lines);
        } else if sum_len(acc) + line_len(l) < max {
            lemma_batches_from_flatten(rest, max, acc.push(l));
            assert(acc.push(l) + rest =~= acc + lines);
        } else {
            let x = batches_from(rest, max, seq![l]);
            lemma_batches_from_flatten(rest, max, seq![l]);
            assert((seq![acc] + x).first() == acc);
            assert((seq![acc] + x).drop_first() =~= x);
            assert((seq![acc] + x).flatten() == acc + x.flatten());
            assert(acc + (seq![l] + rest) =~= acc + lines);
        }
    }
}

/// Law: concatenating all batches, in batch order and then intra-batch
/// order, restores the input lines in their original order.
pub proof fn lemma_batches_reassemble(lines: Seq<Seq<char>>, max: nat)
    ensures
        batches_of(lines, max).flatten() == lines,
{
    lemma_batches_from_flatten(lines, max, Seq::empty());
    assert(Seq::<Seq<char>>::empty() + lines =~= lines);
}

proof fn lemma_batches_from_ok(lines: Seq<Seq<char>>, max: nat, acc: Seq<Seq<char>>)
    requires
        acc.len() == 0 || batch_ok(acc, max),
    ensures
        forall|i: int|
            0 <= i < batches_from(lines, max, acc).len() ==> batch_ok(
                #[trigger] batches_from(lines, max, acc)[i],
                max,
            ),
    decreases lines.len(),
{
    if lines.len() == 0 {
        if acc.len() != 0 {
            assert(batches_from(lines, max, acc)[0] == acc);
        }
    } else {
        let l = lines.first();
        let rest = lines.drop_first();
        lemma_sum_len_singleton(l);
        assert(seq![l][0] == l);
        assert(batch_ok(seq![l], max));
        if acc.len() == 0 {
            lemma_batches_from_ok(rest, max, seq![l]);
            assert(batches_from(lines, max, acc) == batches_from(rest, max, seq![l]));
        } else if sum_len(acc) + line_len(l) < max {
            lemma_sum_len_push(acc, l);
            assert(batch_ok(acc.push(l), max));
            lemma_batches_from_ok(rest, max, acc.push(l));
            assert(batches_from(lines, max, acc) == batches_from(rest, max, acc.push(l)));
        } else {
            let x = batches_from(rest, max, seq![l]);
            lemma_batches_from_ok(rest, max, seq![l]);
            assert(batches_from(lines, max, acc) == seq![acc] + x);
            assert forall|i: int| 0 <= i < (seq![acc] + x).len() implies batch_ok(
                #[trigger] (seq![acc] + x)[i],
                max,
            ) by {
                if i == 0 {
                    assert((seq![acc] + x)[0] == acc);
                } else {
                    assert((seq![acc] + x)[i] == x[i - 1]);
                }
            }
        }
    }
}

/// Law: every batch is non-empty, and its size (the sum of its line lengths)
/// stays below the threshold, except that a batch may consist of exactly one
/// line whose own length reaches or exceeds the threshold.
pub proof fn lemma_batches_bounded(lines: Seq<Seq<char>>, max: nat)
    ensures
        forall|i: int|
            0 <= i < batches_of(lines, max).len() ==> batch_ok(
                #[trigger] batches_of(lines, max)[i],
                max,
            ),
{
    lemma_batches_from_ok(lines, max, Seq::empty());
}

/// Law: an empty input yields no batches at all.
pub proof fn lemma_empty_input(max: nat)
    ensures
        batches_of(Seq::<Seq<char>>::empty(), max) == Seq::<Seq<Seq<char>>>::empty(),
{
}

proof fn lemma_batches_from_small(lines: Seq<Seq<char>>, max: nat, acc: Seq<Seq<char>>)
    requires
        0 < acc.len(),
        sum_len(acc) + sum_len(lines) < max,
    ensures
        batches_from(lines, max, acc) == seq![acc + lines],
    decreases lines.len(),
{
    if lines.len() == 0 {
        assert(acc + lines =~= acc);
    } else {
        let l = lines.first();
        let rest = lines.drop_first();
        assert(sum_len(lines) == line_len(l) + sum_len(rest));
        lemma_sum_len_push(acc, l);
        lemma_batches_from_small(rest, max, acc.push(l));
        assert(acc.push(l) + rest =~= acc + lines);
    }
}

/// Law: an input whose total size is under the threshold yields exactly one
/// batch, holding all its lines.
pub proof fn lemma_small_input_single_batch(lines: Seq<Seq<char>>, max: nat)
    requires
        0 < lines.len(),
        sum_len(lines) < max,
    ensures
        batches_of(lines, max) == seq![lines],
{
    let l = lines.first();
    let rest = lines.drop_first();
    lemma_sum_len_singleton(l);
    assert(sum_len(lines) == line_len(l) + sum_len(rest));
    lemma_batches_from_small(rest, max, seq![l]);
    assert(seq![l] + rest =~= lines);
}

/// Law: an input of one single line yields exactly one batch holding only
/// that line, whatever the line's length — in particular when the line alone
/// exceeds the threshold.
pub proof fn lemma_single_line_single_batch(l: Seq<char>, max: nat)
    ensures
        batches_of(seq![l], max) == seq![seq![l]],
{
    assert(seq![l].first() == l);
    assert(seq![l].drop_first() =~= Seq::<Seq<char>>::empty());
    assert(batches_from(Seq::<Seq<char>>::empty(), max, seq![l]) == seq![seq![l]]);
}

/// Law: batching is deterministic. The batches are a function of the input
/// lines and the threshold alone, so re-running the pipeline on an unchanged
/// input reproduces the same batches with the same boundaries.
pub proof fn lemma_batching_deterministic(
    lines: Seq<Seq<char>>,
    max: nat,
    r1: Seq<Seq<Seq<char>>>,
    r2: Seq<Seq<Seq<char>>>,
)
    requires
        r1 == batches_of(lines, max),
        r2 == batches_of(lines, max),
    ensures
        r1 == r2,
{
}

/// The views of a sequence of finished batches.
pub open spec fn views_of_batches(bs: Seq<Batch>) -> Seq<Seq<Seq<char>>> {
    bs.map_values(|b: Batch| b@)
}

/// One finished batch: an ordered group of lines, immutable once built,
/// transmitted as one request body.
pub struct Batch {
    lines: Vec<String>,
    size: usize,
}

impl View for Batch {
    type V = Seq<Seq<char>>;

    closed spec fn view(&self) -> Seq<Seq<char>> {
        views_of(self.lines@)
    }
}

impl Batch {
    /// Internal consistency: the recorded size is the sum of the line
    /// lengths, and a batch is never empty.
    pub closed spec fn inv(&self) -> bool {
        &&& self.size == sum_len(self@)
        &&& 0 < self@.len()
    }

    /// The batch's byte size: the sum of its line lengths, separators not
    /// counted.
    pub fn size(&self) -> (n: usize)
        requires
            self.inv(),
        ensures
            n == sum_len(self@),
    {
        self.size
    }

    /// How many lines the batch holds.
    pub fn line_count(&self) -> (n: usize)
        ensures
            n == self@.len(),
    {
        self.lines.len()
    }

    /// The lines themselves, in input order.
    pub fn lines(&self) -> (r: &Vec<String>)
        ensures
            views_of(r@) == self@,
    {
        &self.lines
    }

    /// The request body: every line followed by a newline.
    pub fn body(&self) -> (r: String)
        ensures
            r@ == body_of(self@),
    {
        let mut s = String::new();
        let mut i: usize = 0;
        while i < self.lines.len()
            invariant
                i <= self.lines.len(),
                s@ == body_of(views_of(self.lines@).take(i as int)),
            decreases self.lines.len() - i,
        {
            proof {
                assert(views_of(self.lines@).take(i as int).push(self.lines@[i as int]@)
                    =~= views_of(self.lines@).take(i as int + 1));
                lemma_body_of_push(views_of(self.lines@).take(i as int), self.lines@[i as int]@);
                reveal_strlit("\n");
            }
            s.append(self.lines[i].as_str());
            s.append("\n");
            i = i + 1;
        }
        proof {
            assert(views_of(self.lines@).take(self.lines@.len() as int) =~= views_of(self.lines@));
        }
        s
    }
}

/// The incremental batching state machine. Lines are offered one at a time
/// with [`Batcher::push_line`]; a batch is handed back the moment it is
/// complete, and [`Batcher::finish`] flushes the final partial batch when the
/// input is exhausted.
pub struct Batcher {
    max_bytes: usize,
    acc: Vec<String>,
    acc_size: usize,
    pushed: Ghost<Seq<Seq<char>>>,
    emitted: Ghost<Seq<Seq<Seq<char>>>>,
}

proof fn lemma_batches_from_empty_prefix(max: nat)
    ensures
        forall|rest: Seq<Seq<char>>|
            batches_from(Seq::<Seq<char>>::empty() + rest, max, Seq::<Seq<char>>::empty())
                == Seq::<Seq<Seq<char>>>::empty() + #[trigger] batches_from(
                rest,
                max,
                Seq::<Seq<char>>::empty(),
            ),
{
    assert forall|rest: Seq<Seq<char>>|
        batches_from(Seq::<Seq<char>>::empty() + rest, max, Seq::<Seq<char>>::empty())
            == Seq::<Seq<Seq<char>>>::empty() + #[trigger] batches_from(
            rest,
            max,
            Seq::<Seq<char>>::empty(),
        ) by {
        assert(Seq::<Seq<char>>::empty() + rest =~= rest);
        assert(Seq::<Seq<Seq<char>>>::empty() + batches_from(rest, max, Seq::<Seq<char>>::empty())
            =~= batches_from(rest, max, Seq::<Seq<char>>::empty()));
    }
}

proof fn lemma_inv_step(
    pushed: Seq<Seq<char>>,
    max: nat,
    emitted: Seq<Seq<Seq<char>>>,
    pend: Seq<Seq<char>>,
    l: Seq<char>,
    emitted2: Seq<Seq<Seq<char>>>,
    pend2: Seq<Seq<char>>,
)
    requires
        forall|rest: Seq<Seq<char>>|
            batches_from(pushed + rest, max, Seq::empty()) == emitted
                + #[trigger] batches_from(rest, max, pend),
        (if pend.len() == 0 {
            emitted2 == emitted && pend2 == seq![l]
        } else if sum_len(pend) + line_len(l) < max {
            emitted2 == emitted && pend2 == pend.push(l)
        } else {
            emitted2 == emitted.push(pend) && pend2 == seq![l]
        }),
    ensures
        forall|rest: Seq<Seq<char>>|
            batches_from(pushed.push(l) + rest, max, Seq::empty()) == emitted2
                + #[trigger] batches_from(rest, max, pend2),
{
    assert forall|rest: Seq<Seq<char>>|
        batches_from(pushed.push(l) + rest, max, Seq::empty()) == emitted2
            + #[trigger] batches_from(rest, max, pend2) by {
        let rl = seq![l] + rest;
        assert(pushed.push(l) + rest =~= pushed + rl);
        assert(batches_from(pushed + rl, max, Seq::empty()) == emitted + batches_from(
            rl,
            max,
            pend,
        ));
        assert(rl.first() == rl[0]);
        assert(rl[0] == l);
        assert(rl.drop_first() =~= rest);
        if pend.len() == 0 {
            assert(batches_from(rl, max, pend) == batches_from(rest, max, seq![l]));
        } else if sum_len(pend) + line_len(l) < max {
            assert(batches_from(rl, max, pend) == batches_from(rest, max, pend.push(l)));
        } else {
            assert(batches_from(rl, max, pend) == seq![pend] + batches_from(rest, max, seq![l]));
            assert(emitted + (seq![pend] + batches_from(rest, max, seq![l])) =~= emitted.push(pend)
                + batches_from(rest, max, seq![l]));
        }
    }
}

impl Batcher {
    /// The configured threshold.
    pub closed spec fn max_spec(&self) -> nat {
        self.max_bytes as nat
    }

    /// The views of all lines offered so far.
    pub closed spec fn pushed(&self) -> Seq<Seq<char>> {
        self.pushed@
    }

    /// The views of all batches handed back so far.
    pub closed spec fn emitted(&self) -> Seq<Seq<Seq<char>>> {
        self.emitted@
    }

    /// The views of the lines accumulated toward the batch being built.
    pub closed spec fn pending(&self) -> Seq<Seq<char>> {
        views_of(self.acc@)
    }

    /// The batcher's invariant: the recorded size matches the pending lines,
    /// the pending lines form a legal partial batch, and — however the input
    /// continues — the batches of the whole input are the batches already
    /// emitted followed by the batches formed from the continuation on top of
    /// the pending lines.
    pub closed spec fn wf(&self) -> bool {
        &&& self.acc_size == sum_len(self.pending())
        &&& (0 < self.pending().len() ==> batch_ok(self.pending(), self.max_spec()))
        &&& forall|rest: Seq<Seq<char>>|
            batches_from(self.pushed@ + rest, self.max_spec(), Seq::empty()) == self.emitted@
                + #[trigger] batches_from(rest, self.max_spec(), self.pending())
    }

    /// A fresh batcher with the given threshold and nothing consumed.
    pub fn new(max_bytes: usize) -> (r: Batcher)
        ensures
            r.wf(),
            r.max_spec() == max_bytes as nat,
            r.pushed() == Seq::<Seq<char>>::empty(),
            r.emitted() == Seq::<Seq<Seq<char>>>::empty(),
            r.pending() == Seq::<Seq<char>>::empty(),
    {
        let r = Batcher {
            max_bytes,
            acc: Vec::new(),
            acc_size: 0,
            pushed: Ghost(Seq::empty()),
            emitted: Ghost(Seq::empty()),
        };
        proof {
            assert(views_of(r.acc@) =~= Seq::<Seq<char>>::empty());
            lemma_batches_from_empty_prefix(max_bytes as nat);
        }
        r
    }

    /// Offer the next line. The line is appended to the batch being built if
    /// the running total stays strictly below the threshold or the batch is
    /// still empty; otherwise the built batch is handed back, complete, and
    /// the line starts the next batch. `Some` is returned exactly when lines
    /// are pending and the new line no longer fits.
    pub fn push_line(&mut self, line: String) -> (r: Option<Batch>)
        requires
            old(self).wf(),
        ensures
            final(self).wf(),
            final(self).max_spec() == old(self).max_spec(),
            final(self).pushed() == old(self).pushed().push(line@),
            (r is Some <==> (0 < old(self).pending().len() && old(self).max_spec() <= sum_len(
                old(self).pending(),
            ) + line_len(line@))),
            (match r {
                Some(b) => {
                    &&& b.inv()
                    &&& b@ == old(self).pending()
                    &&& batch_ok(b@, old(self).max_spec())
                    &&& final(self).pending() == seq![line@]
                    &&& final(self).emitted() == old(self).emitted().push(b@)
                },
                None => {
                    &&& final(self).pending() == old(self).pending().push(line@)
                    &&& final(self).emitted() == old(self).emitted()
                },
            }),
    {
        let ghost prev = *self;
        let n = byte_len(&line);
        proof {
            lemma_sum_len_singleton(line@);
            lemma_sum_len_push(prev.pending(), line@);
        }
        if self.acc.is_empty() {
            self.acc.push(line);
            self.acc_size = n;
            proof {
                self.pushed@ = prev.pushed@.push(line@);
                assert(self.pending() =~= seq![line@]);
                assert(prev.pending().push(line@) =~= seq![line@]);
                lemma_inv_step(
                    prev.pushed@,
                    prev.max_spec(),
                    prev.emitted@,
                    prev.pending(),
                    line@,
                    self.emitted@,
                    self.pending(),
                );
            }
            None
        } else if self.acc_size < self.max_bytes && n < self.max_bytes - self.acc_size {
            self.acc.push(line);
            self.acc_size = self.acc_size + n;
            proof {
                self.pushed@ = prev.pushed@.push(line@);
                assert(self.pending() =~= prev.pending().push(line@));
                lemma_inv_step(
                    prev.pushed@,
                    prev.max_spec(),
                    prev.emitted@,
                    prev.pending(),
                    line@,
                    self.emitted@,
                    self.pending(),
                );
            }
            None
        } else {
            let mut finished: Vec<String> = Vec::new();
            core::mem::swap(&mut finished, &mut self.acc);
            let b = Batch { lines: finished, size: self.acc_size };
            self.acc.push(line);
            self.acc_size = n;
            proof {
                self.pushed@ = prev.pushed@.push(line@);
                self.emitted@ = prev.emitted@.push(b@);
                assert(b@ == prev.pending());
                assert(self.pending() =~= seq![line@]);
                lemma_inv_step(
                    prev.pushed@,
                    prev.max_spec(),
                    prev.emitted@,
                    prev.pending(),
                    line@,
                    self.emitted@,
                    self.pending(),
                );
            }
            Some(b)
        }
    }

    /// End of input: hand back the final partial batch, if any, and reset.
    /// Together with what was emitted before, the batches of the whole input
    /// are exactly [`batches_of`] of the lines offered.
    pub fn finish(&mut self) -> (r: Option<Batch>)
        requires
            old(self).wf(),
        ensures
            final(self).wf(),
            final(self).max_spec() == old(self).max_spec(),
            final(self).pushed() == Seq::<Seq<char>>::empty(),
            final(self).emitted() == Seq::<Seq<Seq<char>>>::empty(),
            final(self).pending() == Seq::<Seq<char>>::empty(),
            (r is Some <==> 0 < old(self).pending().len()),
            (match r {
                Some(b) => {
                    &&& b.inv()
                    &&& b@ == old(self).pending()
                    &&& batch_ok(b@, old(self).max_spec())
                    &&& old(self).emitted().push(b@) == batches_of(
                        old(self).pushed(),
                        old(self).max_spec(),
                    )
                },
                None => old(self).emitted() == batches_of(old(self).pushed(), old(self).max_spec()),
            }),
    {
        let ghost prev = *self;
        proof {
            assert(prev.pushed@ + Seq::<Seq<char>>::empty() =~= prev.pushed@);
            assert(batches_from(prev.pushed@ + Seq::<Seq<char>>::empty(), prev.max_spec(),
                Seq::empty()) == prev.emitted@ + batches_from(
                Seq::<Seq<char>>::empty(),
                prev.max_spec(),
                prev.pending(),
            ));
        }
        let mut finished: Vec<String> = Vec::new();
        core::mem::swap(&mut finished, &mut self.acc);
        let finished_size = self.acc_size;
        self.acc_size = 0;
        proof {
            self.pushed@ = Seq::<Seq<char>>::empty();
            self.emitted@ = Seq::<Seq<Seq<char>>>::empty();
            assert(self.pending() =~= Seq::<Seq<char>>::empty());
            lemma_batches_from_empty_prefix(prev.max_spec());
        }
        if finished.is_empty() {
            proof {
                assert(views_of(finished@) =~= Seq::<Seq<char>>::empty());
                assert(prev.pending() =~= Seq::<Seq<char>>::empty());
                assert(prev.emitted@ + Seq::<Seq<Seq<char>>>::empty() =~= prev.emitted@);
            }
            None
        } else {
            let b = Batch { lines: finished, size: finished_size };
            proof {
                assert(b@ == prev.pending());
                assert(prev.emitted@ + seq![prev.pending()] =~= prev.emitted@.push(prev.pending()));
            }
            Some(b)
        }
    }
}

/// Run a whole sequence of lines through a [`Batcher`]: the result is
/// exactly the batches of the model, in order.
pub fn batch_lines(lines: &Vec<String>, max_bytes: usize) -> (batches: Vec<Batch>)
    ensures
        views_of_batches(batches@) == batches_of(views_of(lines@), max_bytes as nat),
        forall|i: int| 0 <= i < batches@.len() ==> (#[trigger] batches@[i]).inv(),
{
    let mut batcher = Batcher::new(max_bytes);
    let mut out: Vec<Batch> = Vec::new();
    let mut i: usize = 0;
    proof {
        assert(views_of(lines@).take(0) =~= Seq::<Seq<char>>::empty());
        assert(views_of_batches(out@) =~= Seq::<Seq<Seq<char>>>::empty());
    }
    while i < lines.len()
        invariant
            i <= lines.len(),
            batcher.wf(),
            batcher.max_spec() == max_bytes as nat,
            batcher.pushed() == views_of(lines@).take(i as int),
            views_of_batches(out@) == batcher.emitted(),
            forall|j: int| 0 <= j < out@.len() ==> (#[trigger] out@[j]).inv(),
        decreases lines.len() - i,
    {
        let ghost out_before = out@;
        let l = lines[i].clone();
        match batcher.push_line(l) {
            Some(b) => {
                out.push(b);
                proof {
                    assert(views_of_batches(out@) =~= views_of_batches(out_before).push(b@));
                }
            },
            None => {},
        }
        proof {
            assert(views_of(lines@).take(i as int).push(lines@[i as int]@) =~= views_of(
                lines@,
            ).take(i as int + 1));
        }
        i = i + 1;
    }
    let ghost out_before = out@;
    match batcher.finish() {
        Some(b) => {
            out.push(b);
            proof {
                assert(views_of_batches(out@) =~= views_of_batches(out_before).push(b@));
            }
        },
        None => {},
    }
    proof {
        assert(views_of(lines@).take(lines@.len() as int) =~= views_of(lines@));
    }
    out
}

/// Appending a line to a batch appends the line and a newline to its body.
pub proof fn lemma_body_of_push(b: Seq<Seq<char>>, l: Seq<char>)
    ensures
        body_of(b.push(l)) == body_of(b) + l + seq!['\n'],
    decreases b.len(),
{
    if b.len() == 0 {
        assert(b.push(l).first() == b.push(l)[0]);
        assert(b.push(l)[0] == l);
        assert(b.push(l).drop_first() =~= Seq::<Seq<char>>::empty());
        assert(body_of(Seq::<Seq<char>>::empty()) =~= Seq::<char>::empty());
        assert(l + seq!['\n'] + Seq::<char>::empty() =~= body_of(b) + l + seq!['\n']);
    } else {
        assert(b.push(l).first() == b.push(l)[0]);
        assert(b.push(l)[0] == b[0]);
        assert(b.push(l).drop_first() =~= b.drop_first().push(l));
        lemma_body_of_push(b.drop_first(), l);
        assert(b.first() + seq!['\n'] + (body_of(b.drop_first()) + l + seq!['\n']) =~= body_of(b)
            + l + seq!['\n']);
    }
}

} // verus!

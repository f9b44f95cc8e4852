//! Buffering around a block resampler between a device rate and the 48 kHz wire
//! rate. The converter itself works on blocks of a fixed size; this collects
//! arbitrary pushes into such blocks. When the rates match, samples pass straight
//! through and no converter is involved.

use crate::audio::{append, take_front};
use vstd::prelude::*;

verus! {

/// Samples in one input block of the converter.
pub const CHUNK: usize = 1024;

/// Turns a mono stream into converter blocks, or hands it straight through.
pub enum Resampler {
    /// The rates match.
    Passthrough,
    /// The rates differ: input waits in `pending` until it fills a block.
    Convert { pending: Vec<u32> },
}

/// The whole blocks at the front of `samples`, in order.
pub open spec fn blocks(samples: Seq<u32>) -> Seq<Seq<u32>> {
    Seq::new(
        (samples.len() / CHUNK as nat) as nat,
        |k: int| samples.subrange(k * CHUNK, (k + 1) * CHUNK),
    )
}

/// What is left of `samples` after its whole blocks.
pub open spec fn rest(samples: Seq<u32>) -> Seq<u32> {
    samples.skip(samples.len() as int / CHUNK as int * CHUNK)
}

/// The samples of each block.
pub open spec fn views(chunks: Seq<Vec<u32>>) -> Seq<Seq<u32>> {
    chunks.map_values(|chunk: Vec<u32>| chunk@)
}

/// All samples of `chunks`, in order.
pub open spec fn joined(chunks: Seq<Seq<u32>>) -> Seq<u32>
    decreases chunks.len(),
{
    if chunks.len() == 0 {
        Seq::empty()
    } else {
        joined(chunks.drop_last()) + chunks.last()
    }
}

proof fn lemma_one_block(samples: Seq<u32>)
    requires
        samples.len() >= CHUNK,
    ensures
        blocks(samples) == seq![samples.take(CHUNK as int)] + blocks(samples.skip(CHUNK as int)),
        rest(samples) == rest(samples.skip(CHUNK as int)),
{
    let tail = samples.skip(CHUNK as int);
    assert(tail.len() / CHUNK as nat == samples.len() / CHUNK as nat - 1);
    let rhs = seq![samples.take(CHUNK as int)] + blocks(tail);
    assert forall|k: int| 0 <= k < blocks(samples).len() implies blocks(samples)[k] == rhs[k] by {
        if k > 0 {
            assert(blocks(tail)[k - 1] =~= samples.subrange(k * CHUNK, (k + 1) * CHUNK));
        }
    }
    assert(blocks(samples) =~= rhs);
    assert(rest(samples) =~= rest(tail));
}

/// Move every whole block off the front of `pending`.
fn take_blocks(pending: &mut Vec<u32>) -> (chunks: Vec<Vec<u32>>)
    ensures
        views(chunks@) == blocks(old(pending)@),
        final(pending)@ == rest(old(pending)@),
{
    let mut chunks: Vec<Vec<u32>> = Vec::new();
    assert(views(chunks@) + blocks(pending@) =~= blocks(old(pending)@));
    while pending.len() >= CHUNK
        invariant
            views(chunks@) + blocks(pending@) == blocks(old(pending)@),
            rest(pending@) == rest(old(pending)@),
        decreases pending@.len(),
    {
        let ghost before = pending@;
        let ghost done = views(chunks@);
        proof {
            lemma_one_block(before);
        }
        let block: Vec<u32> = take_front(pending, CHUNK);
        chunks.push(block);
        assert(views(chunks@) =~= done.push(before.take(CHUNK as int)));
        assert(done + (seq![before.take(CHUNK as int)] + blocks(pending@)) =~= done.push(
            before.take(CHUNK as int),
        ) + blocks(pending@));
    }
    assert(blocks(pending@) =~= Seq::empty());
    assert(rest(pending@) =~= pending@);
    chunks
}

impl Resampler {
    /// Less than a block is ever left waiting.
    pub open spec fn wf(self) -> bool {
        self matches Resampler::Convert { pending } ==> pending@.len() < CHUNK
    }

    /// A converter front end from `in_rate` to `out_rate`.
    pub fn new(in_rate: u32, out_rate: u32) -> (resampler: Resampler)
        ensures
            resampler.wf(),
            in_rate == out_rate ==> resampler is Passthrough,
            in_rate != out_rate ==> resampler is Convert && resampler->pending@.len() == 0,
    {
        if in_rate == out_rate {
            Resampler::Passthrough
        } else {
            Resampler::Convert { pending: Vec::new() }
        }
    }

    /// Push mono `input`. Without a conversion it is appended to `out`; with one,
    /// the blocks that are now whole come back, in order, to be converted and
    /// appended to `out`.
    pub fn process(&mut self, input: &[u32], out: &mut Vec<u32>) -> (chunks: Vec<Vec<u32>>)
        requires
            old(self).wf(),
        ensures
            final(self).wf(),
            match *old(self) {
                Resampler::Passthrough => {
                    &&& *final(self) is Passthrough
                    &&& final(out)@ == old(out)@ + input@
                    &&& chunks@.len() == 0
                },
                Resampler::Convert { pending } => {
                    &&& *final(self) is Convert
                    &&& final(self)->pending@ == rest(pending@ + input@)
                    &&& final(out)@ == old(out)@
                    &&& views(chunks@) == blocks(pending@ + input@)
                },
            },
    {
        match self {
            Resampler::Passthrough => {
                append(out, input);
                Vec::new()
            },
            Resampler::Convert { pending } => {
                append(pending, input);
                take_blocks(pending)
            },
        }
    }
}

/// Blocks and remainder together are the input: nothing is lost or reordered.
pub proof fn blocks_are_lossless(samples: Seq<u32>)
    ensures
        joined(blocks(samples)) + rest(samples) == samples,
        rest(samples).len() < CHUNK,
{
    let n = samples.len() / CHUNK as nat;
    lemma_joined_blocks(samples, n as int);
    assert(blocks(samples).take(n as int) =~= blocks(samples));
    assert(joined(blocks(samples)) + rest(samples) =~= samples);
}

proof fn lemma_joined_blocks(samples: Seq<u32>, n: int)
    requires
        0 <= n <= samples.len() / CHUNK as nat,
    ensures
        joined(blocks(samples).take(n)) == samples.take(n * CHUNK),
    decreases n,
{
    let head = blocks(samples).take(n);
    if n > 0 {
        lemma_joined_blocks(samples, n - 1);
        assert(head.drop_last() =~= blocks(samples).take(n - 1));
        assert(head.last() == samples.subrange((n - 1) * CHUNK, n * CHUNK));
        assert(samples.take((n - 1) * CHUNK) + samples.subrange((n - 1) * CHUNK, n * CHUNK)
            =~= samples.take(n * CHUNK));
    } else {
        assert(samples.take(0) =~= Seq::empty());
    }
}

/// Feeding a stream in two pushes gives the same blocks in the same order, and
/// leaves the same remainder, as feeding it in one; so how a stream is cut up never
/// shows in the converted audio.
pub proof fn small_pushes_accumulate(pending: Seq<u32>, first: Seq<u32>, second: Seq<u32>)
    ensures
        blocks(pending + first) + blocks(rest(pending + first) + second) == blocks(
            pending + (first + second),
        ),
        rest(rest(pending + first) + second) == rest(pending + (first + second)),
{
    let a = pending + first;
    assert(pending + (first + second) =~= a + second);
    lemma_accumulate(a, second);
}

proof fn lemma_accumulate(a: Seq<u32>, b: Seq<u32>)
    ensures
        blocks(a) + blocks(rest(a) + b) == blocks(a + b),
        rest(rest(a) + b) == rest(a + b),
    decreases a.len(),
{
    if a.len() < CHUNK {
        assert(blocks(a) =~= Seq::empty());
        assert(rest(a) =~= a);
        assert(blocks(a) + blocks(rest(a) + b) =~= blocks(a + b));
    } else {
        let tail = a.skip(CHUNK as int);
        let block = seq![a.take(CHUNK as int)];
        lemma_one_block(a);
        lemma_one_block(a + b);
        assert((a + b).skip(CHUNK as int) =~= tail + b);
        assert((a + b).take(CHUNK as int) =~= a.take(CHUNK as int));
        lemma_accumulate(tail, b);
        assert(block + blocks(tail) + blocks(rest(tail) + b) =~= block + (blocks(tail) + blocks(
            rest(tail) + b,
        )));
    }
}

/// The blocks by where their samples come from: block `k` holds the 1024 samples from
/// `1024 * k` on, there are as many as fit, and the remainder is what follows the last.
pub proof fn blocks_are_cut_in_place(samples: Seq<u32>)
    ensures
        blocks(samples).len() * 1024 <= samples.len() < (blocks(samples).len() + 1) * 1024,
        forall|k: int|
            0 <= k < blocks(samples).len() ==> (#[trigger] blocks(samples)[k]).len() == 1024,
        forall|k: int, i: int|
            0 <= k < blocks(samples).len() && 0 <= i < 1024 ==> #[trigger] blocks(samples)[k][i]
                == samples[1024 * k + i],
        rest(samples).len() == samples.len() - blocks(samples).len() * 1024,
        forall|i: int|
            0 <= i < rest(samples).len() ==> #[trigger] rest(samples)[i] == samples[samples.len()
                - rest(samples).len() + i],
{
    let n = samples.len() / CHUNK as nat;
    assert(n * 1024 <= samples.len() < (n + 1) * 1024);
    assert forall|k: int, i: int| 0 <= k < n && 0 <= i < 1024 implies #[trigger] blocks(samples)[k][
    i] == samples[1024 * k + i] by {
        assert(blocks(samples)[k] == samples.subrange(k * CHUNK, (k + 1) * CHUNK));
    }
}

/// The views of blocks are their samples, one each, in order; joined they follow one
/// another.
pub proof fn views_are_the_blocks(chunks: Seq<Vec<u32>>, more: Seq<u32>)
    ensures
        views(chunks).len() == chunks.len(),
        forall|i: int| 0 <= i < chunks.len() ==> #[trigger] views(chunks)[i] == chunks[i]@,
        joined(views(chunks).push(more)) == joined(views(chunks)) + more,
{
    assert(views(chunks).push(more).drop_last() =~= views(chunks));
}

} // verus!

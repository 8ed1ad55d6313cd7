//! The bridge that moves captured samples from the input callback to the output callback: a
//! bounded lock-free single-producer/single-consumer ring buffer from `ringbuf`.
//!
//! Samples cross the bridge as 32-bit words (the bit patterns of the device's samples). Each end
//! is described by what it has moved so far: the words the producer has accepted and the words
//! the consumer has handed out. The two ends run on different threads, so what the other side
//! has done in the meantime is unknown to either: a push may find the buffer full and a pop may
//! find it empty at any time. The functions here are verified for every such outcome.
use vstd::prelude::*;

use crate::buffer::AudioBuffer;

verus! {

#[verifier::external_type_specification]
#[verifier::external_body]
#[verifier::reject_recursive_types(T)]
pub struct ExRingBuffer<T>(ringbuf::RingBuffer<T>);

#[verifier::external_type_specification]
#[verifier::external_body]
#[verifier::reject_recursive_types(T)]
pub struct ExProducer<T>(ringbuf::Producer<T>);

#[verifier::external_type_specification]
#[verifier::external_body]
#[verifier::reject_recursive_types(T)]
pub struct ExConsumer<T>(ringbuf::Consumer<T>);

/// The number of words a ring buffer holds.
pub uninterp spec fn ring_capacity(rb: ringbuf::RingBuffer<u32>) -> nat;

/// The words a producer end has accepted since the buffer was split, oldest first.
pub uninterp spec fn accepted(producer: ringbuf::Producer<u32>) -> Seq<u32>;

/// The number of pushes a producer end has refused (buffer full).
pub uninterp spec fn refused(producer: ringbuf::Producer<u32>) -> nat;

/// The number of pops a consumer end has answered with `None` (buffer empty).
pub uninterp spec fn empty_pops(consumer: ringbuf::Consumer<u32>) -> nat;

/// The capacity of the buffer a producer end writes to.
pub uninterp spec fn producer_capacity(producer: ringbuf::Producer<u32>) -> nat;

/// The words a consumer end has handed out since the buffer was split, oldest first.
pub uninterp spec fn handed_out(consumer: ringbuf::Consumer<u32>) -> Seq<u32>;

/// The capacity of the buffer a consumer end reads from.
pub uninterp spec fn consumer_capacity(consumer: ringbuf::Consumer<u32>) -> nat;

/// Which ring buffer a producer end writes to.
pub uninterp spec fn producer_buffer(producer: ringbuf::Producer<u32>) -> int;

/// Which ring buffer a consumer end reads from.
pub uninterp spec fn consumer_buffer(consumer: ringbuf::Consumer<u32>) -> int;

/// The two ends of one ring buffer: the consumer has handed out a prefix of what the producer
/// has accepted, and no more than the capacity waits between them.
pub open spec fn ends_agree(producer: ringbuf::Producer<u32>, consumer: ringbuf::Consumer<u32>) -> bool {
    &&& handed_out(consumer).len() <= accepted(producer).len()
    &&& accepted(producer).subrange(0, handed_out(consumer).len() as int) == handed_out(consumer)
    &&& accepted(producer).len() - handed_out(consumer).len() <= producer_capacity(producer)
}

/// Relies on ringbuf's `RingBuffer::new`: it allocates `capacity + 1` slots and reports a
/// capacity of `capacity`.
#[verifier::external_body]
fn new_ring(capacity: usize) -> (r: ringbuf::RingBuffer<u32>)
    requires
        capacity < usize::MAX,
    ensures
        ring_capacity(r) == capacity,
{
    ringbuf::RingBuffer::new(capacity)
}

/// Relies on ringbuf's `RingBuffer::split`: both ends share the one buffer and its capacity,
/// and neither has moved a word yet.
#[verifier::external_body]
fn split_ring(rb: ringbuf::RingBuffer<u32>) -> (r: (ringbuf::Producer<u32>, ringbuf::Consumer<u32>))
    ensures
        producer_capacity(r.0) == ring_capacity(rb),
        consumer_capacity(r.1) == ring_capacity(rb),
        accepted(r.0) == Seq::<u32>::empty(),
        handed_out(r.1) == Seq::<u32>::empty(),
        producer_buffer(r.0) == consumer_buffer(r.1),
{
    rb.split()
}

/// Relies on ringbuf's `Producer::push`: on `Ok` the word is appended to the buffer, on `Err`
/// (buffer full) the same word comes back and nothing is appended. When the caller also holds
/// the consumer end of the same buffer (`reader`), nothing is popped meanwhile: the two ends
/// agree, and the push fails exactly when the buffer holds `capacity` words.
#[verifier::external_body]
fn push_word(
    producer: &mut ringbuf::Producer<u32>,
    reader: Option<&ringbuf::Consumer<u32>>,
    word: u32,
) -> (r: Result<(), u32>)
    ensures
        producer_capacity(*final(producer)) == producer_capacity(*old(producer)),
        producer_buffer(*final(producer)) == producer_buffer(*old(producer)),
        match r {
            Ok(()) => accepted(*final(producer)) == accepted(*old(producer)).push(word) && refused(
                *final(producer),
            ) == refused(*old(producer)),
            Err(returned) => returned == word && accepted(*final(producer)) == accepted(
                *old(producer),
            ) && refused(*final(producer)) == refused(*old(producer)) + 1,
        },
        match reader {
            Some(consumer) => consumer_buffer(*consumer) == producer_buffer(*old(producer)) ==> {
                &&& ends_agree(*old(producer), *consumer)
                &&& (r is Err) == (accepted(*old(producer)).len() - handed_out(*consumer).len()
                    == producer_capacity(*old(producer)))
            },
            None => true,
        },
{
    producer.push(word)
}

/// Relies on ringbuf's `Consumer::pop`: `Some` removes the oldest word and hands it out, `None`
/// (buffer empty) removes nothing. When the caller also holds the producer end of the same
/// buffer (`writer`), nothing is pushed meanwhile: the two ends agree, and the pop returns the
/// oldest accepted word not yet handed out, or `None` exactly when there is none.
#[verifier::external_body]
fn pop_word(consumer: &mut ringbuf::Consumer<u32>, writer: Option<&ringbuf::Producer<u32>>) -> (r:
    Option<u32>)
    ensures
        consumer_capacity(*final(consumer)) == consumer_capacity(*old(consumer)),
        consumer_buffer(*final(consumer)) == consumer_buffer(*old(consumer)),
        match r {
            Some(word) => handed_out(*final(consumer)) == handed_out(*old(consumer)).push(word)
                && empty_pops(*final(consumer)) == empty_pops(*old(consumer)),
            None => handed_out(*final(consumer)) == handed_out(*old(consumer)) && empty_pops(
                *final(consumer),
            ) == empty_pops(*old(consumer)) + 1,
        },
        match writer {
            Some(producer) => producer_buffer(*producer) == consumer_buffer(*old(consumer)) ==> {
                &&& ends_agree(*producer, *old(consumer))
                &&& r == if handed_out(*old(consumer)).len() < accepted(*producer).len() {
                    Some(accepted(*producer)[handed_out(*old(consumer)).len() as int])
                } else {
                    None::<u32>
                }
            },
            None => true,
        },
{
    consumer.pop()
}

/// The two ends of a new bridge of `capacity` words; neither has moved a word yet.
pub fn create_bridge(capacity: usize) -> (r: (ringbuf::Producer<u32>, ringbuf::Consumer<u32>))
    requires
        capacity < usize::MAX,
    ensures
        producer_capacity(r.0) == capacity,
        consumer_capacity(r.1) == capacity,
        accepted(r.0) == Seq::<u32>::empty(),
        handed_out(r.1) == Seq::<u32>::empty(),
        producer_buffer(r.0) == consumer_buffer(r.1),
{
    let ring = new_ring(capacity);
    split_ring(ring)
}

/// The words of `words` whose entry in `kept` is true, in order.
pub open spec fn kept_words(words: Seq<u32>, kept: Seq<bool>) -> Seq<u32>
    decreases words.len(),
{
    if words.len() == 0 || kept.len() == 0 {
        Seq::empty()
    } else if kept.last() {
        kept_words(words.drop_last(), kept.drop_last()).push(words.last())
    } else {
        kept_words(words.drop_last(), kept.drop_last())
    }
}

/// Pushes every captured word, in order, without blocking: a word that finds the bridge full is
/// offered again, up to `attempts` times in all, then left out. Returns the number of words
/// that went in.
///
/// The producer's accepted words grow by exactly the words that went in, in input order; with
/// no attempts nothing goes in. A word is left out only after the producer refused it
/// `attempts` times.
pub fn push_samples(producer: &mut ringbuf::Producer<u32>, samples: &[u32], attempts: usize) -> (r:
    usize)
    ensures
        producer_capacity(*final(producer)) == producer_capacity(*old(producer)),
        exists|kept: Seq<bool>|
            {
                &&& kept.len() == samples@.len()
                &&& accepted(*final(producer)) == accepted(*old(producer)) + kept_words(
                    samples@,
                    kept,
                )
                &&& r == kept_words(samples@, kept).len()
                &&& attempts == 0 ==> forall|i: int| 0 <= i < kept.len() ==> !#[trigger] kept[i]
                &&& refused(*final(producer)) >= refused(*old(producer)) + attempts * (
                samples@.len() - r)
            },
{
    let ghost mut kept: Seq<bool> = Seq::empty();
    let mut pushed: usize = 0;
    let mut i: usize = 0;
    while i < samples.len()
        invariant
            i <= samples@.len(),
            kept.len() == i,
            producer_capacity(*producer) == producer_capacity(*old(producer)),
            accepted(*producer) == accepted(*old(producer)) + kept_words(
                samples@.take(i as int),
                kept,
            ),
            pushed == kept_words(samples@.take(i as int), kept).len(),
            pushed <= i,
            attempts == 0 ==> forall|j: int| 0 <= j < kept.len() ==> !#[trigger] kept[j],
            refused(*producer) >= refused(*old(producer)) + attempts * (i - pushed),
        decreases samples@.len() - i,
    {
        let sample = samples[i];
        let mut accepted_now = false;
        let mut tries: usize = 0;
        let ghost refused_before = refused(*producer);
        while tries < attempts && !accepted_now
            invariant
                tries <= attempts,
                refused(*producer) == refused_before + tries,
                accepted_now ==> attempts > 0,
                producer_capacity(*producer) == producer_capacity(*old(producer)),
                !accepted_now ==> accepted(*producer) == accepted(*old(producer)) + kept_words(
                    samples@.take(i as int),
                    kept,
                ),
                accepted_now ==> accepted(*producer) == (accepted(*old(producer)) + kept_words(
                    samples@.take(i as int),
                    kept,
                )).push(sample),
            decreases attempts - tries + if accepted_now {
                0int
            } else {
                1int
            },
        {
            match push_word(producer, None, sample) {
                Ok(()) => {
                    accepted_now = true;
                },
                Err(_) => {
                    tries = tries + 1;
                },
            }
        }
        proof {
            let before = samples@.take(i as int);
            let after = samples@.take(i + 1);
            assert(after.drop_last() =~= before);
            assert(after.last() == sample);
            let new_kept = kept.push(accepted_now);
            assert(new_kept.drop_last() =~= kept);
            kept = new_kept;
        }
        proof {
            if !accepted_now {
                assert(tries == attempts);
                assert(attempts * (i + 1 - pushed) == attempts * (i - pushed) + attempts)
                    by (nonlinear_arith);
            }
        }
        if accepted_now {
            pushed = pushed + 1;
        }
        i = i + 1;
    }
    proof {
        assert(samples@.take(samples@.len() as int) =~= samples@);
    }
    pushed
}

/// The output slot at `(channel, sample)` of a block of `num_channels` channels, counting frame
/// by frame and channel by channel within a frame.
pub open spec fn slot(num_channels: int, channel: int, sample: int) -> int {
    sample * num_channels + channel
}

/// Slots are ordered as their `(sample, channel)` pairs are.
proof fn lemma_slot_order(n: int, d: int, t: int, c: int, s: int)
    requires
        0 <= d < n,
        0 <= c <= n,
        0 <= t,
        0 <= s,
    ensures
        (slot(n, d, t) < slot(n, c, s)) == (t < s || (t == s && d < c)),
{
    if t < s {
        assert(t * n + n <= s * n) by (nonlinear_arith)
            requires
                t < s,
                0 <= n,
        ;
    } else if t > s {
        assert(s * n + n <= t * n) by (nonlinear_arith)
            requires
                s < t,
                0 <= n,
        ;
    }
}

/// Fills the output of `buffer` from the bridge, slot by slot (frame by frame, channel by
/// channel within a frame), without blocking. At the first empty pop the rest of the block is
/// left as it was.
///
/// Returns `None` when every slot was filled, or `Some((channel, sample))`, the first slot that
/// found the bridge empty. The words handed out during the call are exactly those written, in
/// slot order: slot `k` holds the `k`-th of them, and the slots after them are unchanged.
pub fn pop_into<B: AudioBuffer<SampleType = u32>>(
    consumer: &mut ringbuf::Consumer<u32>,
    buffer: &mut B,
) -> (r: Option<(usize, usize)>)
    requires
        old(buffer).wf(),
    ensures
        final(buffer).wf(),
        final(buffer).channel_count() == old(buffer).channel_count(),
        final(buffer).sample_count() == old(buffer).sample_count(),
        final(buffer).io_shared() == old(buffer).io_shared(),
        consumer_capacity(*final(consumer)) == consumer_capacity(*old(consumer)),
        empty_pops(*final(consumer)) == empty_pops(*old(consumer)) + if r is Some {
            1int
        } else {
            0int
        },
        ({
            let n = old(buffer).channel_count() as int;
            let before = handed_out(*old(consumer));
            let after = handed_out(*final(consumer));
            let popped = after.subrange(before.len() as int, after.len() as int);
            &&& before.len() <= after.len()
            &&& after.subrange(0, before.len() as int) == before
            &&& match r {
                None => popped.len() == n * old(buffer).sample_count(),
                Some((channel, sample)) => {
                    &&& channel < n
                    &&& sample < old(buffer).sample_count()
                    &&& popped.len() == slot(n, channel as int, sample as int)
                },
            }
            &&& forall|c: int, s: int|
                0 <= c < n && 0 <= s < old(buffer).sample_count()
                    ==> #[trigger] final(buffer).output_at(c, s) == if slot(n, c, s) < popped.len() {
                    popped[slot(n, c, s)]
                } else {
                    old(buffer).output_at(c, s)
                }
        }),
{
    let num_channels = buffer.num_channels();
    let num_samples = buffer.num_samples();
    let ghost n = num_channels as int;
    let ghost start = handed_out(*consumer);
    let mut s: usize = 0;
    while s < num_samples
        invariant
            buffer.wf(),
            buffer.channel_count() == old(buffer).channel_count(),
            buffer.sample_count() == old(buffer).sample_count(),
            buffer.io_shared() == old(buffer).io_shared(),
            num_channels == old(buffer).channel_count(),
            num_samples == old(buffer).sample_count(),
            n == num_channels,
            start == handed_out(*old(consumer)),
            consumer_capacity(*consumer) == consumer_capacity(*old(consumer)),
            empty_pops(*consumer) == empty_pops(*old(consumer)),
            s <= num_samples,
            handed_out(*consumer).len() == start.len() + slot(n, 0, s as int),
            handed_out(*consumer).subrange(0, start.len() as int) == start,
            forall|c: int, t: int|
                0 <= c < n && 0 <= t < num_samples ==> #[trigger] buffer.output_at(c, t) == if slot(
                    n,
                    c,
                    t,
                ) < slot(n, 0, s as int) {
                    handed_out(*consumer)[start.len() + slot(n, c, t)]
                } else {
                    old(buffer).output_at(c, t)
                },
        decreases num_samples - s,
    {
        let mut c: usize = 0;
        while c < num_channels
            invariant
                buffer.wf(),
                buffer.channel_count() == old(buffer).channel_count(),
                buffer.sample_count() == old(buffer).sample_count(),
                buffer.io_shared() == old(buffer).io_shared(),
                num_channels == old(buffer).channel_count(),
                num_samples == old(buffer).sample_count(),
                n == num_channels,
                start == handed_out(*old(consumer)),
                consumer_capacity(*consumer) == consumer_capacity(*old(consumer)),
                empty_pops(*consumer) == empty_pops(*old(consumer)),
                s < num_samples,
                c <= num_channels,
                handed_out(*consumer).len() == start.len() + slot(n, c as int, s as int),
                handed_out(*consumer).subrange(0, start.len() as int) == start,
                forall|d: int, t: int|
                    0 <= d < n && 0 <= t < num_samples ==> #[trigger] buffer.output_at(d, t)
                        == if slot(n, d, t) < slot(n, c as int, s as int) {
                        handed_out(*consumer)[start.len() + slot(n, d, t)]
                    } else {
                        old(buffer).output_at(d, t)
                    },
            decreases num_channels - c,
        {
            let ghost handed_before = handed_out(*consumer);
            match pop_word(consumer, None) {
                Some(word) => {
                    let ghost before_set = *buffer;
                    buffer.set(c, s, word);
                    proof {
                        assert(handed_out(*consumer).subrange(0, start.len() as int) =~= start);
                        assert forall|d: int, t: int|
                            0 <= d < n && 0 <= t < num_samples implies #[trigger] buffer.output_at(
                                d,
                                t,
                            ) == if slot(n, d, t) < slot(n, c + 1, s as int) {
                                handed_out(*consumer)[start.len() + slot(n, d, t)]
                            } else {
                                old(buffer).output_at(d, t)
                            } by {
                            lemma_slot_order(n, d, t, c as int, s as int);
                            lemma_slot_order(n, d, t, c + 1, s as int);
                            if d != c || t != s {
                                assert(buffer.output_at(d, t) == before_set.output_at(d, t));
                            }
                        }
                    }
                },
                None => {
                    proof {
                        assert forall|d: int, t: int|
                            0 <= d < n && 0 <= t < num_samples implies #[trigger] buffer.output_at(
                                d,
                                t,
                            ) == if slot(n, d, t) < handed_out(*consumer).len() - start.len() {
                                handed_out(*consumer).subrange(
                                    start.len() as int,
                                    handed_out(*consumer).len() as int,
                                )[slot(n, d, t)]
                            } else {
                                old(buffer).output_at(d, t)
                            } by {}
                    }
                    return Some((c, s));
                },
            }
            c = c + 1;
        }
        proof {
            assert(slot(n, c as int, s as int) == slot(n, 0, s + 1)) by (nonlinear_arith)
                requires
                    c == n,
            ;
            assert forall|d: int, t: int|
                0 <= d < n && 0 <= t < num_samples implies #[trigger] buffer.output_at(d, t) == if slot(
                    n,
                    d,
                    t,
                ) < slot(n, 0, s + 1) {
                    handed_out(*consumer)[start.len() + slot(n, d, t)]
                } else {
                    old(buffer).output_at(d, t)
                } by {}
        }
        s = s + 1;
    }
    proof {
        assert forall|d: int, t: int|
            0 <= d < n && 0 <= t < num_samples implies #[trigger] buffer.output_at(d, t) == if slot(
                n,
                d,
                t,
            ) < handed_out(*consumer).len() - start.len() {
                handed_out(*consumer).subrange(
                    start.len() as int,
                    handed_out(*consumer).len() as int,
                )[slot(n, d, t)]
            } else {
                old(buffer).output_at(d, t)
            } by {
            lemma_slot_order(n, d, t, 0, num_samples as int);
        }
        assert(slot(n, 0, num_samples as int) == n * num_samples) by (nonlinear_arith);
    }
    None
}

/// Both ends of one bridge, held together: words come out in the order they went in.
pub struct SampleBridge {
    producer: ringbuf::Producer<u32>,
    consumer: ringbuf::Consumer<u32>,
}

impl SampleBridge {
    /// The words waiting in the bridge, oldest first.
    pub closed spec fn contents(&self) -> Seq<u32> {
        accepted(self.producer).subrange(
            handed_out(self.consumer).len() as int,
            accepted(self.producer).len() as int,
        )
    }

    /// The number of words the bridge holds at most.
    pub closed spec fn capacity(&self) -> nat {
        producer_capacity(self.producer)
    }

    /// Both ends belong to one buffer.
    pub closed spec fn wf(&self) -> bool {
        producer_buffer(self.producer) == consumer_buffer(self.consumer)
    }

    /// An empty bridge of `capacity` words.
    pub fn new(capacity: usize) -> (r: Self)
        requires
            capacity < usize::MAX,
        ensures
            r.wf(),
            r.capacity() == capacity,
            r.contents() == Seq::<u32>::empty(),
    {
        let (producer, consumer) = create_bridge(capacity);
        let r = SampleBridge { producer, consumer };
        assert(r.contents() =~= Seq::<u32>::empty());
        r
    }

    /// Appends `word` unless the bridge is full; a refused word comes back.
    pub fn push(&mut self, word: u32) -> (r: Result<(), u32>)
        requires
            old(self).wf(),
        ensures
            final(self).wf(),
            final(self).capacity() == old(self).capacity(),
            old(self).contents().len() < old(self).capacity() ==> r is Ok
                && final(self).contents() == old(self).contents().push(word),
            old(self).contents().len() >= old(self).capacity() ==> r == Err::<(), u32>(word)
                && final(self).contents() == old(self).contents(),
            final(self).contents() == after_pushes(old(self).contents(), old(self).capacity(), seq![word]),
    {
        let ghost before = old(self).contents();
        let r = push_word(&mut self.producer, Some(&self.consumer), word);
        proof {
            assert(before.len() == accepted(old(self).producer).len() - handed_out(
                self.consumer,
            ).len());
            if r is Ok {
                assert(self.contents() =~= old(self).contents().push(word));
            }
            let words = seq![word];
            assert(words.drop_last() =~= Seq::<u32>::empty());
            assert(after_pushes(before, old(self).capacity(), words.drop_last()) == before);
            assert(words.last() == word);
        }
        r
    }

    /// Removes and returns the oldest word, or `None` when the bridge is empty.
    pub fn pop(&mut self) -> (r: Option<u32>)
        requires
            old(self).wf(),
        ensures
            final(self).wf(),
            final(self).capacity() == old(self).capacity(),
            old(self).contents().len() > 0 ==> r == Some(old(self).contents()[0])
                && final(self).contents() == old(self).contents().drop_first(),
            old(self).contents().len() == 0 ==> r is None && final(self).contents() == old(
                self,
            ).contents(),
            seq![r] == pops(old(self).contents(), 1),
    {
        let r = pop_word(&mut self.consumer, Some(&self.producer));
        proof {
            if r is Some {
                assert(self.contents() =~= old(self).contents().drop_first());
            }
            let waiting = old(self).contents();
            assert(pops(waiting, 0) == Seq::<Option<u32>>::empty());
            if waiting.len() > 0 {
                assert(pops(waiting.drop_first(), 0) == Seq::<Option<u32>>::empty());
            }
            assert(pops(waiting, 1) =~= seq![r]);
        }
        r
    }
}

/// What a bridge holds after `words` are pushed, in order, onto `contents` with room for
/// `capacity` words: each push appends its word unless the bridge is full.
pub open spec fn after_pushes(contents: Seq<u32>, capacity: nat, words: Seq<u32>) -> Seq<u32>
    decreases words.len(),
{
    if words.len() == 0 {
        contents
    } else {
        let before = after_pushes(contents, capacity, words.drop_last());
        if before.len() < capacity {
            before.push(words.last())
        } else {
            before
        }
    }
}

/// What `count` pops return from a bridge holding `contents`: the oldest word while there is
/// one, then `None`.
pub open spec fn pops(contents: Seq<u32>, count: nat) -> Seq<Option<u32>>
    decreases count,
{
    if count == 0 {
        Seq::empty()
    } else if contents.len() == 0 {
        seq![None::<u32>] + pops(contents, (count - 1) as nat)
    } else {
        seq![Some(contents[0])] + pops(contents.drop_first(), (count - 1) as nat)
    }
}

/// Pushing `words` (no more than fit) into an empty bridge and then popping as many times
/// yields the words in the order they were pushed, and a further pop yields no data.
pub proof fn lemma_bridge_fifo(words: Seq<u32>, capacity: nat)
    requires
        words.len() <= capacity,
    ensures
        after_pushes(Seq::empty(), capacity, words) == words,
        pops(words, words.len() + 1) == words.map_values(|w: u32| Some(w)).push(None),
    decreases words.len(),
{
    if words.len() > 0 {
        lemma_bridge_fifo(words.drop_last(), capacity);
        assert(words.drop_last().push(words.last()) =~= words);
    }
    lemma_pops_all(words);
}

/// Popping one more time than a bridge holds words yields them all in order, then no data.
proof fn lemma_pops_all(words: Seq<u32>)
    ensures
        pops(words, words.len() + 1) == words.map_values(|w: u32| Some(w)).push(None),
    decreases words.len(),
{
    if words.len() == 0 {
        assert(pops(words, 0) =~= Seq::<Option<u32>>::empty());
        assert(pops(words, 1) =~= seq![None::<u32>]);
        assert(words.map_values(|w: u32| Some(w)).push(None) =~= seq![None::<u32>]);
    } else {
        let rest = words.drop_first();
        lemma_pops_all(rest);
        assert(words.len() + 1 - 1 == rest.len() + 1);
        assert(pops(words, words.len() + 1) == seq![Some(words[0])] + pops(rest, rest.len() + 1));
        assert(seq![Some(words[0])] + rest.map_values(|w: u32| Some(w)).push(None)
            =~= words.map_values(|w: u32| Some(w)).push(None));
    }
}

} // verus!

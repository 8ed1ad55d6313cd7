//! Playback of pre-decoded audio: planar channels, concatenated from decoded packets, played in
//! a loop into interleaved output blocks.
use vstd::prelude::*;
use vstd::arithmetic::div_mod::{
    lemma_fundamental_div_mod,
    lemma_fundamental_div_mod_converse,
    lemma_small_mod,
};

verus! {

/// Stepping past `x` moves `x % d` to the next position, wrapping to zero at `d`.
proof fn lemma_mod_successor(x: int, d: int)
    requires
        0 <= x,
        0 < d,
    ensures
        (x + 1) % d == if x % d + 1 == d {
            0
        } else {
            x % d + 1
        },
{
    lemma_fundamental_div_mod(x, d);
    let q = x / d;
    let r = x % d;
    assert(d * q == q * d) by (nonlinear_arith);
    if r + 1 == d {
        assert(x + 1 == (q + 1) * d + 0) by (nonlinear_arith)
            requires
                x == q * d + r,
                r + 1 == d,
        ;
        lemma_fundamental_div_mod_converse(x + 1, d, q + 1, 0);
    } else {
        lemma_fundamental_div_mod_converse(x + 1, d, q, r + 1);
    }
}

/// Channel `channel` of every packet, one after another.
pub open spec fn channel_concat<T>(packets: Seq<Seq<Seq<T>>>, channel: int) -> Seq<T>
    decreases packets.len(),
{
    if packets.len() == 0 {
        Seq::empty()
    } else {
        channel_concat(packets.drop_last(), channel) + packets.last()[channel]
    }
}

/// Every packet has the channel count of the first one.
pub open spec fn packets_agree<T>(packets: Seq<Seq<Seq<T>>>) -> bool {
    forall|i: int| 0 <= i < packets.len() ==> (#[trigger] packets[i]).len() == packets[0].len()
}

/// Joins decoded packets into one planar buffer: channel `c` of the result is channel `c` of every
/// packet, in packet order. The result has the channel count of the first packet, and no
/// channels when there are no packets.
pub fn concat_buffers<T: Copy>(buffers: &Vec<Vec<Vec<T>>>) -> (r: Vec<Vec<T>>)
    requires
        packets_agree(buffers@.map_values(|p: Vec<Vec<T>>| p@.map_values(|ch: Vec<T>| ch@))),
    ensures
        buffers@.len() == 0 ==> r@.len() == 0,
        buffers@.len() > 0 ==> r@.len() == buffers@[0]@.len(),
        forall|c: int|
            0 <= c < r@.len() ==> (#[trigger] r@[c])@ == channel_concat(
                buffers@.map_values(|p: Vec<Vec<T>>| p@.map_values(|ch: Vec<T>| ch@)),
                c,
            ),
{
    let ghost packets = buffers@.map_values(|p: Vec<Vec<T>>| p@.map_values(|ch: Vec<T>| ch@));
    let mut output: Vec<Vec<T>> = Vec::new();
    if buffers.len() == 0 {
        return output;
    }
    let num_channels = buffers[0].len();
    let mut c: usize = 0;
    while c < num_channels
        invariant
            packets == buffers@.map_values(|p: Vec<Vec<T>>| p@.map_values(|ch: Vec<T>| ch@)),
            packets_agree(packets),
            buffers@.len() > 0,
            num_channels == buffers@[0]@.len(),
            c <= num_channels,
            output@.len() == c,
            forall|d: int| 0 <= d < c ==> (#[trigger] output@[d])@ == channel_concat(packets, d),
        decreases num_channels - c,
    {
        let mut channel: Vec<T> = Vec::new();
        let mut i: usize = 0;
        while i < buffers.len()
            invariant
                packets == buffers@.map_values(|p: Vec<Vec<T>>| p@.map_values(|ch: Vec<T>| ch@)),
                packets_agree(packets),
                buffers@.len() > 0,
                num_channels == buffers@[0]@.len(),
                c < num_channels,
                i <= buffers@.len(),
                channel@ == channel_concat(packets.take(i as int), c as int),
            decreases buffers@.len() - i,
        {
            assert(packets[i as int].len() == packets[0].len());
            let packet_channel = &buffers[i][c];
            let ghost before = channel@;
            let mut k: usize = 0;
            while k < packet_channel.len()
                invariant
                    k <= packet_channel@.len(),
                    channel@ == before + packet_channel@.take(k as int),
                decreases packet_channel@.len() - k,
            {
                channel.push(packet_channel[k]);
                k = k + 1;
                assert(packet_channel@.take(k as int) =~= packet_channel@.take((k - 1) as int).push(
                    packet_channel@[k - 1],
                ));
            }
            assert(packet_channel@.take(k as int) =~= packet_channel@);
            assert(packets.take(i + 1).drop_last() =~= packets.take(i as int));
            assert(packets.take(i + 1).last() == packets[i as int]);
            i = i + 1;
        }
        assert(packets.take(buffers@.len() as int) =~= packets);
        output.push(channel);
        c = c + 1;
    }
    output
}

/// Plays a planar buffer in a loop into interleaved output blocks.
pub struct AudioFileProcessor<T> {
    num_channels: usize,
    audio_file_cursor: usize,
    buffer: Vec<Vec<T>>,
}

impl<T: Copy> AudioFileProcessor<T> {
    /// The planar contents being played.
    pub closed spec fn contents(&self) -> Seq<Seq<T>> {
        self.buffer@.map_values(|ch: Vec<T>| ch@)
    }

    /// The position of the next frame to play.
    pub closed spec fn cursor(&self) -> nat {
        self.audio_file_cursor as nat
    }

    /// The channel count of the output blocks.
    pub closed spec fn spec_num_channels(&self) -> nat {
        self.num_channels as nat
    }

    /// The contents length in frames.
    pub open spec fn frames(&self) -> nat {
        self.contents()[0].len()
    }

    /// At least one output channel, no more channels than the contents have, every channel of
    /// the same nonzero length, and the cursor inside it.
    pub open spec fn wf(&self) -> bool {
        &&& 0 < self.spec_num_channels() <= self.contents().len()
        &&& forall|c: int|
            0 <= c < self.contents().len() ==> (#[trigger] self.contents()[c]).len() == self.frames()
        &&& 0 < self.frames()
        &&& self.cursor() < self.frames()
    }

    /// A player of `contents` into blocks of `num_channels` channels, from the first frame.
    pub fn new(num_channels: usize, contents: Vec<Vec<T>>) -> (r: Self)
        ensures
            r.spec_num_channels() == num_channels,
            r.contents() == contents@.map_values(|ch: Vec<T>| ch@),
            r.cursor() == 0,
    {
        AudioFileProcessor { num_channels, audio_file_cursor: 0, buffer: contents }
    }

    pub fn num_channels(&self) -> (r: usize)
        ensures
            r == self.spec_num_channels(),
    {
        self.num_channels
    }

    pub fn audio_file_cursor(&self) -> (r: usize)
        ensures
            r == self.cursor(),
    {
        self.audio_file_cursor
    }

    /// Fills `data`, an interleaved block, with the next frames of the contents, wrapping to the
    /// first frame after the last. A trailing partial frame still consumes a frame.
    pub fn process(&mut self, data: &mut [T])
        requires
            old(self).wf(),
        ensures
            final(self).wf(),
            final(self).contents() == old(self).contents(),
            final(self).spec_num_channels() == old(self).spec_num_channels(),
            final(data)@.len() == old(data)@.len(),
            forall|f: int, c: int|
                0 <= f && 0 <= c < old(self).spec_num_channels() && f * old(
                    self,
                ).spec_num_channels() + c < old(data)@.len() ==> #[trigger] final(data)@[f * old(
                    self,
                ).spec_num_channels() + c] == old(self).contents()[c][(old(self).cursor() + f)
                    % old(self).frames() as int],
            final(self).cursor() == (old(self).cursor() + (old(data)@.len()
                + old(self).spec_num_channels() - 1) / old(self).spec_num_channels() as int) % old(
                self,
            ).frames() as int,
    {
        let n = self.num_channels;
        let len = self.buffer[0].len();
        let ghost start = self.audio_file_cursor as int;
        let ghost contents = self.contents();
        let mut i: usize = 0;
        let ghost mut f: int = 0;
        proof {
            lemma_small_mod(start as nat, len as nat);
        }
        while i < data.len()
            invariant
                self.wf(),
                self.contents() == contents,
                self.spec_num_channels() == n,
                len == self.frames(),
                n > 0,
                data@.len() == old(data)@.len(),
                0 <= f,
                start == old(self).cursor(),
                i == f * n || (i == data@.len() && f * n - n < i <= f * n),
                i <= data@.len(),
                self.cursor() == (start + f) % (len as int),
                forall|g: int, c: int|
                    0 <= g && 0 <= c < n && g * n + c < i ==> #[trigger] data@[g * n + c]
                        == contents[c][(start + g) % (len as int)],
            decreases data@.len() - i,
        {
            let cursor = self.audio_file_cursor;
            let mut c: usize = 0;
            while c < n && i < data.len()
                invariant
                    self.wf(),
                    self.contents() == contents,
                    self.spec_num_channels() == n,
                    self.cursor() == cursor,
                    len == self.frames(),
                    cursor == (start + f) % (len as int),
                    n > 0,
                    0 <= f,
                    c <= n,
                    c > 0 || i < data@.len(),
                    i == f * n + c,
                    start == old(self).cursor(),
                    i <= data@.len(),
                    data@.len() == old(data)@.len(),
                    forall|g: int, d: int|
                        0 <= g && 0 <= d < n && g * n + d < i ==> #[trigger] data@[g * n + d]
                            == contents[d][(start + g) % (len as int)],
                decreases n - c,
            {
                assert(contents[c as int].len() == len);
                data[i] = self.buffer[c][cursor];
                proof {
                    assert forall|g: int, d: int|
                        0 <= g && 0 <= d < n && g * n + d < i + 1 implies #[trigger] data@[g * n
                        + d] == contents[d][(start + g) % (len as int)] by {
                        if g * n + d == i {
                            lemma_fundamental_div_mod_converse(i as int, n as int, g, d);
                            lemma_fundamental_div_mod_converse(i as int, n as int, f, c as int);
                        }
                    }
                }
                i = i + 1;
                c = c + 1;
            }
            proof {
                lemma_mod_successor(start + f, len as int);
                assert(f * n + n == (f + 1) * n) by (nonlinear_arith);
                f = f + 1;
            }
            self.audio_file_cursor = if cursor + 1 >= len {
                0
            } else {
                cursor + 1
            };
        }
        proof {
            let total = old(data)@.len() as int;
            let frames_played = (total + n - 1) / (n as int);
            if total == f * n {
                lemma_fundamental_div_mod_converse(total + n - 1, n as int, f, n - 1);
            } else {
                lemma_fundamental_div_mod_converse(total + n - 1, n as int, f, total + n - 1 - f * n);
            }
            assert(frames_played == f);
        }
    }
}

} // verus!
